//! Layout decisions of the Word writer: image sizes, table grids, caption
//! numbers, heading numbering, list numbering and the spacing between
//! Japanese and Latin text.
use vstd::prelude::*;
use crate::config::{NumberingConfig, PageConfig};
use crate::ir::{ColumnAlignment, Inline, InlineV, clone_inlines, inline_v, inlines_v, lemma_inlines_v_index, lemma_inlines_v_push};
use crate::text::{
    chars_of, decimal, eq_chars, push_decimal, string_of, sub_chars, trim_start, trim_start_chars,
};

verus! {

/// EMUs (English Metric Units) per pixel at 96 dpi.
pub const EMU_PER_PIXEL: u64 = 9_525;

/// EMUs per twip.
pub const EMU_PER_TWIP: u64 = 635;

/// `a - b`, or 0 when `b` is larger (`u32::saturating_sub`).
pub open spec fn sat_sub(a: int, b: int) -> int {
    if a >= b {
        a - b
    } else {
        0
    }
}

/// A margin, counted as 0 when negative.
pub open spec fn nonneg(m: i32) -> int {
    if m >= 0 {
        m as int
    } else {
        0
    }
}

/// The width of the text body in twips: the page width less the left and
/// right margins (negative margins count as 0), never below 0.
pub open spec fn spec_body_width(p: PageConfig) -> int {
    sat_sub(sat_sub(p.width as int, nonneg(p.margin_left)), nonneg(p.margin_right))
}

/// The size in EMUs, before the final conversion to `u32`, of an image of
/// `wpx` by `hpx` pixels: scaled down, keeping its proportions, to the body
/// width when wider, then to the height limit when taller.
pub open spec fn spec_fit_image(wpx: int, hpx: int, p: PageConfig) -> (int, int) {
    let we = wpx * EMU_PER_PIXEL;
    let he = hpx * EMU_PER_PIXEL;
    let maxw = spec_body_width(p) * EMU_PER_TWIP;
    let (w, h) = if we > maxw {
        (maxw, he * maxw / we)
    } else {
        (we, he)
    };
    match p.image_max_height {
        Some(mh) => {
            let mhe = mh * EMU_PER_TWIP;
            if h > mhe {
                (w * mhe / h, mhe)
            } else {
                (w, h)
            }
        },
        None => (w, h),
    }
}

/// The width of the text body in twips.
pub fn body_width_twip(page: &PageConfig) -> (r: u32)
    ensures
        r as int == spec_body_width(*page),
{
    let left: u32 = if page.margin_left >= 0 {
        page.margin_left as u32
    } else {
        0
    };
    let right: u32 = if page.margin_right >= 0 {
        page.margin_right as u32
    } else {
        0
    };
    page.width.saturating_sub(left).saturating_sub(right)
}

/// The size in EMUs at which an image of `width_px` by `height_px` pixels is
/// placed: the pixel size (9525 EMU per pixel), scaled down with its
/// proportions kept so that it fits the body width and, when a height limit
/// is configured, that limit.
pub fn fit_image_to_body(width_px: u32, height_px: u32, page: &PageConfig) -> (r: (u32, u32))
    ensures
        r.0 == spec_fit_image(width_px as int, height_px as int, *page).0 as u32,
        r.1 == spec_fit_image(width_px as int, height_px as int, *page).1 as u32,
{
    let we: u128 = width_px as u128 * 9525u128;
    let he: u128 = height_px as u128 * 9525u128;
    let bw = body_width_twip(page);
    let maxw: u128 = bw as u128 * 635u128;
    assert(he * maxw <= 0xffff_ffff * 9525 * 0xffff_ffff * 635) by (nonlinear_arith)
        requires
            he <= 0xffff_ffff * 9525,
            maxw <= 0xffff_ffff * 635,
    ;
    let mut w: u128;
    let mut h: u128;
    if we > maxw {
        w = maxw;
        h = he * maxw / we;
        assert(h <= he) by (nonlinear_arith)
            requires
                h == (he * maxw) as int / (we as int),
                maxw < we,
        ;
    } else {
        w = we;
        h = he;
    }
    match page.image_max_height {
        Some(mh) => {
            let mhe: u128 = mh as u128 * 635u128;
            if h > mhe {
                assert(w * mhe <= 0xffff_ffff * 9525 * 0xffff_ffff * 635) by (nonlinear_arith)
                    requires
                        w <= 0xffff_ffff * 9525,
                        mhe <= 0xffff_ffff * 635,
                ;
                w = w * mhe / h;
                h = mhe;
            }
        },
        None => {},
    }
    (w as u32, h as u32)
}

/// The width of column `index` of a table with `n` columns spread over the
/// body width (at least one twip per column): the even share, one twip more
/// for the first columns while the remainder lasts.
pub open spec fn spec_column_width(total: int, n: int, index: int) -> int {
    total / n + if index < total % n {
        1int
    } else {
        0
    }
}

/// The total width shared among `n` columns: the body width, or `n` when smaller.
pub open spec fn spec_grid_total(p: PageConfig, n: usize) -> int {
    let nn = (n as u32) as int;
    if spec_body_width(p) >= nn {
        spec_body_width(p)
    } else {
        nn
    }
}

/// Column widths in twips for a table of `column_count` columns: the body
/// width split evenly, the remainder going one twip each to the first columns.
pub fn build_table_grid(column_count: usize, page: &PageConfig) -> (r: Vec<usize>)
    requires
        column_count > 0,
    ensures
        r@.len() == column_count,
        forall|i: int|
            0 <= i < column_count ==> #[trigger] r@[i] as int == spec_column_width(
                spec_grid_total(*page, column_count),
                column_count as int,
                i,
            ),
{
    let bw = body_width_twip(page);
    let cc = column_count as u32;
    let body_width: u32 = if bw >= cc {
        bw
    } else {
        cc
    };
    let base = body_width as usize / column_count;
    let remainder = body_width as usize % column_count;
    let mut r: Vec<usize> = Vec::new();
    let mut index: usize = 0;
    while index < column_count
        invariant
            index <= column_count,
            column_count > 0,
            r@.len() == index,
            body_width as int == spec_grid_total(*page, column_count),
            base == body_width as int / column_count as int,
            remainder == body_width as int % column_count as int,
            forall|i: int|
                0 <= i < index ==> #[trigger] r@[i] as int == spec_column_width(
                    body_width as int,
                    column_count as int,
                    i,
                ),
        decreases column_count - index,
    {
        if index < remainder {
            assert(base < body_width) by (nonlinear_arith)
                requires
                    base == body_width as int / column_count as int,
                    remainder == body_width as int % column_count as int,
                    column_count > 0,
                    remainder > 0,
            ;
        }
        let w = base + if index < remainder {
            1usize
        } else {
            0usize
        };
        r.push(w);
        index = index + 1;
    }
    r
}

/// An ASCII letter, digit or punctuation character.
pub open spec fn spec_is_ascii_char(c: char) -> bool {
    let n = c as u32;
    ||| 0x30 <= n <= 0x39
    ||| 0x41 <= n <= 0x5A
    ||| 0x61 <= n <= 0x7A
    ||| 0x21 <= n <= 0x2F
    ||| 0x3A <= n <= 0x40
    ||| 0x5B <= n <= 0x60
    ||| 0x7B <= n <= 0x7E
}

/// A Japanese character: hiragana, katakana, CJK ideographs (with extension
/// A), full-width forms or CJK symbols and punctuation.
pub open spec fn spec_is_japanese_char(c: char) -> bool {
    let n = c as u32;
    ||| 0x3040 <= n <= 0x309F
    ||| 0x30A0 <= n <= 0x30FF
    ||| 0x4E00 <= n <= 0x9FFF
    ||| 0x3400 <= n <= 0x4DBF
    ||| 0xFF00 <= n <= 0xFFEF
    ||| 0x3000 <= n <= 0x303F
}

/// The space at `i` stands between a Latin and a Japanese character (in
/// either order) and is dropped.
pub open spec fn dropped_space(s: Seq<char>, i: int) -> bool {
    &&& s[i] == ' '
    &&& 0 < i
    &&& i + 1 < s.len()
    &&& (spec_is_ascii_char(s[i - 1]) && spec_is_japanese_char(s[i + 1])) || (
    spec_is_japanese_char(s[i - 1]) && spec_is_ascii_char(s[i + 1]))
}

/// The first `n` characters of `s` without the dropped spaces.
pub open spec fn kept_chars(s: Seq<char>, n: int) -> Seq<char>
    decreases n,
{
    if n <= 0 {
        seq![]
    } else {
        kept_chars(s, n - 1) + if dropped_space(s, n - 1) {
            seq![]
        } else {
            seq![s[n - 1]]
        }
    }
}

/// `s` without the spaces between Latin and Japanese text.
pub open spec fn spec_process_text(s: Seq<char>) -> Seq<char> {
    kept_chars(s, s.len() as int)
}

/// An ASCII letter, digit or punctuation character.
pub fn is_ascii_char(c: char) -> (r: bool)
    ensures
        r == spec_is_ascii_char(c),
{
    let n = c as u32;
    (0x30 <= n && n <= 0x39) || (0x41 <= n && n <= 0x5A) || (0x61 <= n && n <= 0x7A) || (0x21 <= n
        && n <= 0x2F) || (0x3A <= n && n <= 0x40) || (0x5B <= n && n <= 0x60) || (0x7B <= n && n
        <= 0x7E)
}

/// A Japanese character (see [`spec_is_japanese_char`]).
pub fn is_japanese_char(c: char) -> (r: bool)
    ensures
        r == spec_is_japanese_char(c),
{
    let n = c as u32;
    (0x3040 <= n && n <= 0x309F) || (0x30A0 <= n && n <= 0x30FF) || (0x4E00 <= n && n <= 0x9FFF)
        || (0x3400 <= n && n <= 0x4DBF) || (0xFF00 <= n && n <= 0xFFEF) || (0x3000 <= n && n
        <= 0x303F)
}

/// Removes the spaces that stand between Latin and Japanese text, which
/// Japanese typesetting does not use.
pub fn process_text(text: &str) -> (r: String)
    ensures
        r@ == spec_process_text(text@),
{
    let chars = chars_of(text);
    let mut out: Vec<char> = Vec::new();
    let mut i: usize = 0;
    while i < chars.len()
        invariant
            i <= chars.len(),
            out@ == kept_chars(chars@, i as int),
        decreases chars.len() - i,
    {
        let mut drop = false;
        if chars[i] == ' ' && i > 0 && i + 1 < chars.len() {
            let prev = chars[i - 1];
            let next = chars[i + 1];
            if (is_ascii_char(prev) && is_japanese_char(next)) || (is_japanese_char(prev)
                && is_ascii_char(next)) {
                drop = true;
            }
        }
        assert(drop == dropped_space(chars@, i as int));
        if !drop {
            out.push(chars[i]);
        }
        i = i + 1;
        assert(out@ =~= kept_chars(chars@, i as int));
    }
    string_of(&out)
}

/// The label of a figure or table number: `chapter.n` in the "chapter"
/// format (chapter 1 before the first chapter heading), else the running number.
pub open spec fn caption_label(format: Seq<char>, chapter: u32, in_chapter: u32, seq: u32) -> Seq<
    char,
> {
    if format == "chapter"@ {
        decimal(if chapter == 0 {
            1nat
        } else {
            chapter as nat
        }) + seq!['.'] + decimal(in_chapter as nat)
    } else {
        decimal(seq as nat)
    }
}

/// Counters of figures and tables, overall and within the current chapter.
pub struct CaptionNumbers {
    /// The number of the current chapter (0 before the first one).
    pub chapter_number: u32,
    pub figure_in_chapter: u32,
    pub table_in_chapter: u32,
    pub figure_seq: u32,
    pub table_seq: u32,
}

/// Whether a caption format numbers within chapters (`"chapter"`); any
/// other format numbers figures and tables through the whole document.
pub fn is_chapter_format(format: &str) -> (r: bool)
    ensures
        r == (format@ == "chapter"@),
{
    let f = chars_of(format);
    let c = chars_of("chapter");
    eq_chars(&f, &c)
}

fn caption_text(format: &str, chapter: u32, in_chapter: u32, seq: u32) -> (r: String)
    ensures
        r@ == caption_label(format@, chapter, in_chapter, seq),
{
    let mut out: Vec<char> = Vec::new();
    if is_chapter_format(format) {
        let ch: u32 = if chapter == 0 {
            1
        } else {
            chapter
        };
        push_decimal(&mut out, ch as u64);
        out.push('.');
        push_decimal(&mut out, in_chapter as u64);
        assert(out@ =~= caption_label(format@, chapter, in_chapter, seq));
    } else {
        push_decimal(&mut out, seq as u64);
        assert(out@ =~= caption_label(format@, chapter, in_chapter, seq));
    }
    string_of(&out)
}

/// The counters when a chapter with number `chapter` begins.
pub open spec fn chapter_started(n: CaptionNumbers, chapter: u32) -> CaptionNumbers {
    CaptionNumbers {
        chapter_number: chapter,
        figure_in_chapter: 0,
        table_in_chapter: 0,
        figure_seq: n.figure_seq,
        table_seq: n.table_seq,
    }
}

/// The counters after one more figure.
pub open spec fn figure_counted(n: CaptionNumbers) -> CaptionNumbers {
    CaptionNumbers {
        chapter_number: n.chapter_number,
        figure_in_chapter: (n.figure_in_chapter + 1) as u32,
        table_in_chapter: n.table_in_chapter,
        figure_seq: (n.figure_seq + 1) as u32,
        table_seq: n.table_seq,
    }
}

/// The counters after one more table.
pub open spec fn table_counted(n: CaptionNumbers) -> CaptionNumbers {
    CaptionNumbers {
        chapter_number: n.chapter_number,
        figure_in_chapter: n.figure_in_chapter,
        table_in_chapter: (n.table_in_chapter + 1) as u32,
        figure_seq: n.figure_seq,
        table_seq: (n.table_seq + 1) as u32,
    }
}

/// The number of the figure the counters `n` have just counted.
pub open spec fn figure_label(n: CaptionNumbers, format: Seq<char>) -> Seq<char> {
    caption_label(format, n.chapter_number, n.figure_in_chapter, n.figure_seq)
}

/// The number of the table the counters `n` have just counted.
pub open spec fn table_label(n: CaptionNumbers, format: Seq<char>) -> Seq<char> {
    caption_label(format, n.chapter_number, n.table_in_chapter, n.table_seq)
}

impl CaptionNumbers {
    /// No figure, table or chapter yet.
    pub fn new() -> (r: Self)
        ensures
            r.chapter_number == 0,
            r.figure_in_chapter == 0,
            r.table_in_chapter == 0,
            r.figure_seq == 0,
            r.table_seq == 0,
    {
        CaptionNumbers {
            chapter_number: 0,
            figure_in_chapter: 0,
            table_in_chapter: 0,
            figure_seq: 0,
            table_seq: 0,
        }
    }

    /// A new chapter begins: figures and tables are counted from 1 again within it.
    pub fn start_chapter(&mut self, chapter: u32)
        ensures
            *final(self) == chapter_started(*old(self), chapter),
    {
        self.chapter_number = chapter;
        self.figure_in_chapter = 0;
        self.table_in_chapter = 0;
    }

    /// The next chapter begins: it takes the number after the current one,
    /// and figures and tables are counted from 1 again within it.
    pub fn next_chapter(&mut self)
        requires
            old(self).chapter_number < u32::MAX,
        ensures
            *final(self) == chapter_started(*old(self), (old(self).chapter_number + 1) as u32),
    {
        let c = self.chapter_number + 1;
        self.start_chapter(c);
    }

    /// Counts one more figure and gives its number in `format`.
    pub fn next_figure_number(&mut self, format: &str) -> (r: String)
        requires
            old(self).figure_seq < u32::MAX,
            old(self).figure_in_chapter < u32::MAX,
        ensures
            *final(self) == figure_counted(*old(self)),
            r@ == figure_label(*final(self), format@),
    {
        self.figure_seq = self.figure_seq + 1;
        self.figure_in_chapter = self.figure_in_chapter + 1;
        caption_text(format, self.chapter_number, self.figure_in_chapter, self.figure_seq)
    }

    /// Counts one more table and gives its number in `format`.
    pub fn next_table_number(&mut self, format: &str) -> (r: String)
        requires
            old(self).table_seq < u32::MAX,
            old(self).table_in_chapter < u32::MAX,
        ensures
            *final(self) == table_counted(*old(self)),
            r@ == table_label(*final(self), format@),
    {
        self.table_seq = self.table_seq + 1;
        self.table_in_chapter = self.table_in_chapter + 1;
        caption_text(format, self.chapter_number, self.table_in_chapter, self.table_seq)
    }
}

/// How a heading is written.
#[derive(Debug, Clone, Copy, PartialEq, Eq, Structural)]
pub struct HeadingLayout {
    /// The heading style used (1 for "heading 1", ...).
    pub effective_level: u8,
    /// The heading is the document title (an H1 when H1 is the title).
    pub is_title: bool,
    /// The heading gets an automatic number.
    pub numbered: bool,
    /// The heading starts a new chapter for figure and table numbers.
    pub starts_chapter: bool,
}

/// How a heading of `level` is written under the numbering settings: with
/// `h1_title` the H1 is an unnumbered title and the other levels move up one;
/// headings are numbered when numbering is on and `level` is within the
/// depth; a numbered H1 (H2 with `h1_title`) starts a chapter.
pub open spec fn spec_heading_layout(h1_title: bool, numbering: bool, depth: u8, level: u8) -> HeadingLayout {
    let effective_level = if h1_title && level > 1 {
        (level - 1) as u8
    } else {
        level
    };
    let is_title = h1_title && level == 1;
    let numbered = !is_title && numbering && level <= depth;
    HeadingLayout {
        effective_level,
        is_title,
        numbered,
        starts_chapter: numbered && (if h1_title {
            level == 2
        } else {
            level == 1
        }),
    }
}

/// How a heading of `level` is written (see [`spec_heading_layout`]).
pub fn heading_layout(numbering: &NumberingConfig, level: u8) -> (r: HeadingLayout)
    ensures
        r == spec_heading_layout(
            numbering.h1_title,
            numbering.heading_numbering,
            numbering.heading_numbering_depth,
            level,
        ),
{
    let h1_title = numbering.h1_title;
    let effective_level = if h1_title && level > 1 {
        level - 1
    } else {
        level
    };
    let is_title = h1_title && level == 1;
    let numbered = !is_title && numbering.heading_numbering && level
        <= numbering.heading_numbering_depth;
    let starts_chapter = numbered && (if h1_title {
        level == 2
    } else {
        level == 1
    });
    HeadingLayout { effective_level, is_title, numbered, starts_chapter }
}

/// The numbering level that the paragraph style of heading `level` (1 to 5)
/// carries, or none when that style is not numbered: a style is numbered
/// when numbering is on and `level` is within the depth, except the H1 style
/// when H1 is the title; with H1 as the title every level sits one higher.
pub open spec fn spec_style_numbering(h1_title: bool, numbering: bool, depth: u8, level: u8) -> Option<
    int,
> {
    if level == 1 {
        if numbering && !h1_title && depth >= 1 {
            Some(0)
        } else {
            None
        }
    } else if 2 <= level <= 5 && numbering && depth >= level {
        Some(
            level - 1 - (if h1_title {
                1int
            } else {
                0int
            }),
        )
    } else {
        None
    }
}

/// The numbering level of the paragraph style of heading `level` (see [`spec_style_numbering`]).
pub fn heading_style_numbering(numbering: &NumberingConfig, level: u8) -> (r: Option<usize>)
    ensures
        r matches Some(l) ==> spec_style_numbering(
            numbering.h1_title,
            numbering.heading_numbering,
            numbering.heading_numbering_depth,
            level,
        ) == Some(l as int),
        r is None <==> spec_style_numbering(
            numbering.h1_title,
            numbering.heading_numbering,
            numbering.heading_numbering_depth,
            level,
        ) is None,
{
    let on = numbering.heading_numbering;
    let depth = numbering.heading_numbering_depth;
    if level == 1 {
        if on && !numbering.h1_title && depth >= 1 {
            Some(0)
        } else {
            None
        }
    } else if 2 <= level && level <= 5 && on && depth >= level {
        let shift: usize = if numbering.h1_title {
            1
        } else {
            0
        };
        Some(level as usize - 1 - shift)
    } else {
        None
    }
}

/// The numbering level of a bulleted list nested `depth` deep (at most 2).
pub fn bullet_level(depth: usize) -> (r: usize)
    ensures
        r == if depth < 2 {
            depth
        } else {
            2
        },
{
    if depth < 2 {
        depth
    } else {
        2
    }
}

/// The left indent in twips of an ordered list nested `depth` deep: 18 pt per level.
pub fn ordered_list_indent(depth: usize) -> (r: i32)
    requires
        (depth + 1) * 360 <= i32::MAX,
    ensures
        r == (depth + 1) * 360,
{
    (depth as i32 + 1) * 360
}

/// The text `"N. "` in front of the `i`-th item (from 0) of an ordered list starting at `start`.
pub fn ordered_item_prefix(start: u64, i: usize) -> (r: String)
    requires
        start + i <= u64::MAX,
    ensures
        r@ == decimal((start + i) as nat) + seq!['.', ' '],
{
    let num = start + i as u64;
    let mut out: Vec<char> = Vec::new();
    push_decimal(&mut out, num);
    out.push('.');
    out.push(' ');
    assert(out@ =~= decimal((start + i) as nat) + seq!['.', ' ']);
    string_of(&out)
}

/// The number of columns of a table: the header's, or the longest row's when longer.
pub open spec fn spec_column_count(header_len: int, row_lens: Seq<int>) -> int
    decreases row_lens.len(),
{
    if row_lens.len() == 0 {
        header_len
    } else {
        let m = spec_column_count(header_len, row_lens.drop_last());
        if row_lens.last() > m {
            row_lens.last()
        } else {
            m
        }
    }
}

/// The number of columns of a table (see [`spec_column_count`]).
pub fn table_column_count(headers: &Vec<Vec<Inline>>, rows: &Vec<Vec<Vec<Inline>>>) -> (r: usize)
    ensures
        r as int == spec_column_count(
            headers@.len() as int,
            rows@.map_values(|row: Vec<Vec<Inline>>| row@.len() as int),
        ),
{
    let ghost lens = rows@.map_values(|row: Vec<Vec<Inline>>| row@.len() as int);
    let mut m = headers.len();
    let mut k: usize = 0;
    while k < rows.len()
        invariant
            k <= rows.len(),
            lens == rows@.map_values(|row: Vec<Vec<Inline>>| row@.len() as int),
            m as int == spec_column_count(headers@.len() as int, lens.take(k as int)),
        decreases rows.len() - k,
    {
        assert(lens.take(k + 1).drop_last() =~= lens.take(k as int));
        if rows[k].len() > m {
            m = rows[k].len();
        }
        k = k + 1;
    }
    assert(lens.take(rows.len() as int) =~= lens);
    m
}

/// The horizontal alignment of a paragraph.
#[derive(Debug, Clone, Copy, PartialEq, Eq, Structural)]
pub enum ParagraphAlignment {
    Left,
    Center,
    Right,
}

/// The alignment of a table body cell: centered or right-aligned columns
/// keep their alignment, all others are left-aligned.
pub fn table_alignment_to_paragraph_alignment(alignment: Option<ColumnAlignment>) -> (r:
    ParagraphAlignment)
    ensures
        r == match alignment {
            Some(ColumnAlignment::Center) => ParagraphAlignment::Center,
            Some(ColumnAlignment::Right) => ParagraphAlignment::Right,
            _ => ParagraphAlignment::Left,
        },
{
    match alignment {
        Some(ColumnAlignment::Center) => ParagraphAlignment::Center,
        Some(ColumnAlignment::Right) => ParagraphAlignment::Right,
        _ => ParagraphAlignment::Left,
    }
}

/// The borders of a code-block line.
#[derive(Debug, Clone, Copy, PartialEq, Eq, Structural)]
pub struct BorderSides {
    pub top: bool,
    pub bottom: bool,
    pub left: bool,
    pub right: bool,
    /// The border between this line and the next one of the same frame.
    pub between: bool,
}

/// The border of one line of a code block, so that the lines together form
/// one frame: left and right always, top on the first line, bottom on the
/// last, and a between border joining each line but the last to the next.
pub fn code_block_borders(is_first: bool, is_last: bool) -> (r: BorderSides)
    ensures
        r == (BorderSides {
            top: is_first,
            bottom: is_last,
            left: true,
            right: true,
            between: !is_last,
        }),
{
    BorderSides { top: is_first, bottom: is_last, left: true, right: true, between: !is_last }
}

/// The inline elements from `i` on, with `rem` more characters of leading
/// text to remove: whole text elements are dropped while they fit in `rem`;
/// a text element cut in the middle keeps its rest without leading
/// whitespace (dropped when nothing is left); any other element stops the removal.
pub open spec fn strip_from(s: Seq<InlineV>, i: int, rem: int) -> Seq<InlineV>
    decreases s.len() - i,
{
    if i < 0 || i >= s.len() {
        seq![]
    } else if rem == 0 {
        seq![s[i]] + strip_from(s, i + 1, 0)
    } else {
        match s[i] {
            InlineV::Text(t) => if rem >= t.len() {
                strip_from(s, i + 1, rem - t.len())
            } else {
                let tr = trim_start(t.skip(rem));
                (if tr.len() > 0 {
                    seq![InlineV::Text(tr)]
                } else {
                    seq![]
                }) + strip_from(s, i + 1, 0)
            },
            _ => seq![s[i]] + strip_from(s, i + 1, 0),
        }
    }
}

/// A heading's inline elements without their first `k` characters of text
/// (the heading number the text began with).
pub open spec fn spec_strip_prefix(s: Seq<InlineV>, k: int) -> Seq<InlineV> {
    if k == 0 {
        s
    } else {
        strip_from(s, 0, k)
    }
}

/// Removes a heading number of `prefix_chars` characters from the start of
/// the heading's text (see [`spec_strip_prefix`]).
pub fn strip_prefix_from_inlines(content: &Vec<Inline>, prefix_chars: usize) -> (r: Vec<Inline>)
    ensures
        inlines_v(r@) == spec_strip_prefix(inlines_v(content@), prefix_chars as int),
{
    if prefix_chars == 0 {
        return clone_inlines(content);
    }
    let ghost sv = inlines_v(content@);
    proof {
        lemma_inlines_v_index(content@);
    }
    let mut result: Vec<Inline> = Vec::new();
    let mut remaining = prefix_chars;
    let mut i: usize = 0;
    while i < content.len()
        invariant
            i <= content.len(),
            sv == inlines_v(content@),
            sv.len() == content@.len(),
            forall|j: int| 0 <= j < sv.len() ==> #[trigger] sv[j] == inline_v(content@[j]),
            inlines_v(result@) + strip_from(sv, i as int, remaining as int) == strip_from(
                sv,
                0,
                prefix_chars as int,
            ),
        decreases content.len() - i,
    {
        let ghost before = inlines_v(result@);
        let ghost rem0 = remaining as int;
        if remaining == 0 {
            let x = content[i].deep_clone();
            proof {
                lemma_inlines_v_push(result@, x);
            }
            result.push(x);
        } else {
            match &content[i] {
                Inline::Text(text) => {
                    let chars = chars_of(text.as_str());
                    let char_count = chars.len();
                    if remaining >= char_count {
                        remaining = remaining - char_count;
                    } else {
                        let rest = sub_chars(&chars, remaining, char_count);
                        assert(rest@ =~= text@.skip(remaining as int));
                        remaining = 0;
                        let trimmed = trim_start_chars(&rest);
                        if trimmed.len() > 0 {
                            let x = Inline::Text(string_of(&trimmed));
                            proof {
                                lemma_inlines_v_push(result@, x);
                            }
                            result.push(x);
                        }
                    }
                },
                _ => {
                    remaining = 0;
                    let x = content[i].deep_clone();
                    proof {
                        lemma_inlines_v_push(result@, x);
                    }
                    result.push(x);
                },
            }
        }
        assert(inlines_v(result@) + strip_from(sv, i + 1, remaining as int) =~= before + strip_from(
            sv,
            i as int,
            rem0,
        ));
        i = i + 1;
    }
    result
}

} // verus!
