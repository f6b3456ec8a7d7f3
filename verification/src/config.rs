//! Settings of the converter and their default values.
use vstd::prelude::*;
use vstd::string::*;

verus! {

/// The characters used in front of bulleted list items, by nesting level.
#[derive(Debug)]
pub struct BulletConfig {
    pub level0: String,
    pub level1: String,
    pub level2: String,
}

/// Japanese and Latin fonts of body text and headings.
#[derive(Debug)]
pub struct FontConfig {
    pub body_ja: String,
    pub body_en: String,
    pub heading_ja: String,
    pub heading_en: String,
}

/// Page size and margins, in twips; an optional height limit for images.
#[derive(Debug)]
pub struct PageConfig {
    pub width: u32,
    pub height: u32,
    pub margin_top: i32,
    pub margin_right: i32,
    pub margin_bottom: i32,
    pub margin_left: i32,
    pub margin_header: i32,
    pub margin_footer: i32,
    pub margin_gutter: i32,
    pub image_max_height: Option<u32>,
}

/// Paragraph and heading indents, in twips (`body_left_chars` in hundredths of a
/// character); the heading indents are those of the heading numbering levels.
#[derive(Debug)]
pub struct IndentConfig {
    pub body_left: i32,
    pub body_first_line: i32,
    pub body_right: i32,
    pub body_left_chars: i32,
    pub heading4_left: i32,
    pub heading4_hanging: i32,
    pub heading1_left: i32,
    pub heading1_hanging: i32,
    pub heading2_left: i32,
    pub heading2_hanging: i32,
    pub heading3_left: i32,
    pub heading3_hanging: i32,
    pub heading5_left: i32,
    pub heading5_hanging: i32,
    pub heading6_left: i32,
    pub heading6_hanging: i32,
}

/// How headings, figures and tables are numbered.
#[derive(Debug)]
pub struct NumberingConfig {
    pub figure_format: String,
    pub table_format: String,
    pub h1_title: bool,
    pub heading_numbering_depth: u8,
    pub heading_numbering: bool,
}

/// Whether a table of contents is generated, and which heading levels it lists.
#[derive(Debug)]
pub struct TocConfig {
    pub enable: bool,
    pub min_level: usize,
    pub max_level: usize,
}

pub fn default_body_ja() -> (r: String)
    ensures
        r@ == "游明朝"@,
{
    String::from_str("游明朝")
}

pub fn default_body_en() -> (r: String)
    ensures
        r@ == "Century"@,
{
    String::from_str("Century")
}

pub fn default_heading_ja() -> (r: String)
    ensures
        r@ == "游ゴシック"@,
{
    String::from_str("游ゴシック")
}

pub fn default_heading_en() -> (r: String)
    ensures
        r@ == "Century"@,
{
    String::from_str("Century")
}

pub fn default_page_width() -> (r: u32)
    ensures
        r == 11906,
{
    11_906
}

pub fn default_page_height() -> (r: u32)
    ensures
        r == 16838,
{
    16_838
}

pub fn default_page_margin_top() -> (r: i32)
    ensures
        r == 1985,
{
    1_985
}

pub fn default_page_margin_right() -> (r: i32)
    ensures
        r == 1701,
{
    1_701
}

pub fn default_page_margin_bottom() -> (r: i32)
    ensures
        r == 1701,
{
    1_701
}

pub fn default_page_margin_left() -> (r: i32)
    ensures
        r == 1701,
{
    1_701
}

pub fn default_page_margin_header() -> (r: i32)
    ensures
        r == 851,
{
    851
}

pub fn default_page_margin_footer() -> (r: i32)
    ensures
        r == 992,
{
    992
}

pub fn default_page_margin_gutter() -> (r: i32)
    ensures
        r == 0,
{
    0
}

pub fn default_indent_body_left() -> (r: i32)
    ensures
        r == 210,
{
    210
}

pub fn default_indent_body_first_line() -> (r: i32)
    ensures
        r == 210,
{
    210
}

pub fn default_indent_body_right() -> (r: i32)
    ensures
        r == 210,
{
    210
}

pub fn default_indent_body_left_chars() -> (r: i32)
    ensures
        r == 100,
{
    100
}

pub fn default_indent_heading4_left() -> (r: i32)
    ensures
        r == 709,
{
    709
}

pub fn default_indent_heading4_hanging() -> (r: i32)
    ensures
        r == 709,
{
    709
}

pub fn default_indent_heading1_left() -> (r: i32)
    ensures
        r == 420,
{
    420
}

pub fn default_indent_heading1_hanging() -> (r: i32)
    ensures
        r == 420,
{
    420
}

pub fn default_indent_heading2_left() -> (r: i32)
    ensures
        r == 612,
{
    612
}

pub fn default_indent_heading2_hanging() -> (r: i32)
    ensures
        r == 612,
{
    612
}

pub fn default_indent_heading3_left() -> (r: i32)
    ensures
        r == 783,
{
    783
}

pub fn default_indent_heading3_hanging() -> (r: i32)
    ensures
        r == 783,
{
    783
}

pub fn default_indent_heading5_left() -> (r: i32)
    ensures
        r == 709,
{
    709
}

pub fn default_indent_heading5_hanging() -> (r: i32)
    ensures
        r == 709,
{
    709
}

pub fn default_indent_heading6_left() -> (r: i32)
    ensures
        r == 709,
{
    709
}

pub fn default_indent_heading6_hanging() -> (r: i32)
    ensures
        r == 709,
{
    709
}

pub fn default_figure_format() -> (r: String)
    ensures
        r@ == "sequential"@,
{
    String::from_str("sequential")
}

pub fn default_table_format() -> (r: String)
    ensures
        r@ == "sequential"@,
{
    String::from_str("sequential")
}

pub fn default_heading_numbering_depth() -> (r: u8)
    ensures
        r == 5,
{
    5
}

pub fn default_heading_numbering() -> (r: bool)
    ensures
        r,
{
    true
}

pub fn default_toc_min_level() -> (r: usize)
    ensures
        r == 1,
{
    1
}

pub fn default_toc_max_level() -> (r: usize)
    ensures
        r == 3,
{
    3
}

pub fn default_bullet_level0() -> (r: String)
    ensures
        r@ == "●"@,
{
    String::from_str("●")
}

pub fn default_bullet_level1() -> (r: String)
    ensures
        r@ == "■"@,
{
    String::from_str("■")
}

pub fn default_bullet_level2() -> (r: String)
    ensures
        r@ == "▲"@,
{
    String::from_str("▲")
}

impl Default for NumberingConfig {
    fn default() -> (r: Self)
        ensures
            r.figure_format@ == "sequential"@,
            r.table_format@ == "sequential"@,
            !r.h1_title,
            r.heading_numbering_depth == 5,
            r.heading_numbering,
    {
        NumberingConfig {
            figure_format: default_figure_format(),
            table_format: default_table_format(),
            h1_title: false,
            heading_numbering_depth: default_heading_numbering_depth(),
            heading_numbering: default_heading_numbering(),
        }
    }
}

impl Default for TocConfig {
    fn default() -> (r: Self)
        ensures
            !r.enable,
            r.min_level == 1,
            r.max_level == 3,
    {
        TocConfig {
            enable: false,
            min_level: default_toc_min_level(),
            max_level: default_toc_max_level(),
        }
    }
}

impl Default for FontConfig {
    fn default() -> (r: Self)
        ensures
            r.body_ja@ == "游明朝"@,
            r.body_en@ == "Century"@,
            r.heading_ja@ == "游ゴシック"@,
            r.heading_en@ == "Century"@,
    {
        FontConfig {
            body_ja: default_body_ja(),
            body_en: default_body_en(),
            heading_ja: default_heading_ja(),
            heading_en: default_heading_en(),
        }
    }
}

impl Default for PageConfig {
    fn default() -> (r: Self)
        ensures
            r.width == 11906,
            r.height == 16838,
            r.margin_top == 1985,
            r.margin_right == 1701,
            r.margin_bottom == 1701,
            r.margin_left == 1701,
            r.margin_header == 851,
            r.margin_footer == 992,
            r.margin_gutter == 0,
            r.image_max_height is None,
    {
        PageConfig {
            width: default_page_width(),
            height: default_page_height(),
            margin_top: default_page_margin_top(),
            margin_right: default_page_margin_right(),
            margin_bottom: default_page_margin_bottom(),
            margin_left: default_page_margin_left(),
            margin_header: default_page_margin_header(),
            margin_footer: default_page_margin_footer(),
            margin_gutter: default_page_margin_gutter(),
            image_max_height: None,
        }
    }
}

impl Default for IndentConfig {
    fn default() -> (r: Self)
        ensures
            r.body_left == 210,
            r.body_first_line == 210,
            r.body_right == 210,
            r.body_left_chars == 100,
            r.heading4_left == 709,
            r.heading4_hanging == 709,
            r.heading1_left == 420,
            r.heading1_hanging == 420,
            r.heading2_left == 612,
            r.heading2_hanging == 612,
            r.heading3_left == 783,
            r.heading3_hanging == 783,
            r.heading5_left == 709,
            r.heading5_hanging == 709,
            r.heading6_left == 709,
            r.heading6_hanging == 709,
    {
        IndentConfig {
            body_left: default_indent_body_left(),
            body_first_line: default_indent_body_first_line(),
            body_right: default_indent_body_right(),
            body_left_chars: default_indent_body_left_chars(),
            heading4_left: default_indent_heading4_left(),
            heading4_hanging: default_indent_heading4_hanging(),
            heading1_left: default_indent_heading1_left(),
            heading1_hanging: default_indent_heading1_hanging(),
            heading2_left: default_indent_heading2_left(),
            heading2_hanging: default_indent_heading2_hanging(),
            heading3_left: default_indent_heading3_left(),
            heading3_hanging: default_indent_heading3_hanging(),
            heading5_left: default_indent_heading5_left(),
            heading5_hanging: default_indent_heading5_hanging(),
            heading6_left: default_indent_heading6_left(),
            heading6_hanging: default_indent_heading6_hanging(),
        }
    }
}

impl Default for BulletConfig {
    fn default() -> (r: Self)
        ensures
            r.level0@ == "●"@,
            r.level1@ == "■"@,
            r.level2@ == "▲"@,
    {
        BulletConfig {
            level0: default_bullet_level0(),
            level1: default_bullet_level1(),
            level2: default_bullet_level2(),
        }
    }
}

} // verus!
