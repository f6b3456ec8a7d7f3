use mdd::config::{NumberingConfig, PageConfig, TocConfig};
use mdd::ir::{ColumnAlignment, Inline};
use mdd::layout::{
    body_width_twip, build_table_grid, bullet_level, code_block_borders, fit_image_to_body,
    heading_layout, heading_style_numbering, is_ascii_char, is_chapter_format, is_japanese_char, ordered_item_prefix, ordered_list_indent,
    process_text, strip_prefix_from_inlines, table_alignment_to_paragraph_alignment,
    table_column_count, CaptionNumbers, ParagraphAlignment, EMU_PER_PIXEL, EMU_PER_TWIP,
};

#[test]
fn shrinks_wide_images_to_body_width() {
    let (width_emu, height_emu) = fit_image_to_body(2532, 729, &PageConfig::default());
    assert_eq!(width_emu, 5_400_040);
    assert!(height_emu < width_emu);
}

#[test]
fn keeps_small_images_original_size() {
    let (width_emu, height_emu) = fit_image_to_body(382, 376, &PageConfig::default());
    assert_eq!(width_emu, 3_638_550);
    assert_eq!(height_emu, 3_581_400);
}

#[test]
fn uses_configured_page_width_for_image_scaling() {
    let mut page = PageConfig::default();
    page.width = 8_000;
    page.margin_left = 1_000;
    page.margin_right = 1_000;

    let (width_emu, height_emu) = fit_image_to_body(2532, 729, &page);
    assert_eq!(width_emu, 3_810_000);
    assert_eq!(height_emu, 1_096_954);
}

#[test]
fn limits_tall_image_by_max_height() {
    let mut page = PageConfig::default();
    page.image_max_height = Some(5_000);

    let (width_emu, height_emu) = fit_image_to_body(200, 800, &page);
    let max_h_emu = 5_000u64 * EMU_PER_TWIP;
    assert_eq!(height_emu, max_h_emu as u32);
    assert!(width_emu < 200 * EMU_PER_PIXEL as u32);
}

#[test]
fn no_height_limit_when_none() {
    let page = PageConfig::default();
    let (_, height_emu) = fit_image_to_body(200, 800, &page);
    assert_eq!(height_emu, (800u64 * EMU_PER_PIXEL) as u32);
}

#[test]
fn tall_image_keeps_its_proportions() {
    let mut page = PageConfig::default();
    page.image_max_height = Some(5_000);
    // 200x800 px = 1_905_000 x 7_620_000 EMU, scaled to a height of 3_175_000 EMU.
    let (width_emu, height_emu) = fit_image_to_body(200, 800, &page);
    assert_eq!(height_emu, 3_175_000);
    assert_eq!(width_emu, 793_750);
}

#[test]
fn body_width_ignores_negative_margins() {
    assert_eq!(body_width_twip(&PageConfig::default()), 8_504);
    let mut page = PageConfig::default();
    page.margin_left = -100;
    page.margin_right = 100;
    assert_eq!(body_width_twip(&page), 11_806);
    page.width = 50;
    assert_eq!(body_width_twip(&page), 0);
}

#[test]
fn heading_numbering_default_true() {
    let numbering = NumberingConfig::default();
    assert!(numbering.heading_numbering);
}

#[test]
fn toc_default_disabled() {
    let toc = TocConfig::default();
    assert!(!toc.enable);
    assert_eq!(toc.min_level, 1);
    assert_eq!(toc.max_level, 3);
}

#[test]
fn table_grid_splits_body_width_evenly() {
    assert_eq!(build_table_grid(2, &PageConfig::default()), vec![4252, 4252]);
    assert_eq!(build_table_grid(3, &PageConfig::default()), vec![2835, 2835, 2834]);
    let grid = build_table_grid(7, &PageConfig::default());
    assert_eq!(grid.iter().sum::<usize>(), 8_504);
}

#[test]
fn table_grid_gives_each_column_one_twip_at_least() {
    let mut page = PageConfig::default();
    page.width = 2;
    assert_eq!(build_table_grid(5, &page), vec![1, 1, 1, 1, 1]);
}

#[test]
fn sequential_captions_count_up() {
    let mut numbers = CaptionNumbers::new();
    assert_eq!(numbers.next_figure_number("sequential"), "1");
    assert_eq!(numbers.next_figure_number("sequential"), "2");
    assert_eq!(numbers.next_table_number("sequential"), "1");
    numbers.start_chapter(4);
    assert_eq!(numbers.next_figure_number("sequential"), "3");
}

#[test]
fn chapter_captions_restart_in_each_chapter() {
    let mut numbers = CaptionNumbers::new();
    assert_eq!(numbers.next_figure_number("chapter"), "1.1");
    numbers.start_chapter(2);
    assert_eq!(numbers.next_figure_number("chapter"), "2.1");
    assert_eq!(numbers.next_figure_number("chapter"), "2.2");
    assert_eq!(numbers.next_table_number("chapter"), "2.1");
    numbers.start_chapter(3);
    assert_eq!(numbers.next_table_number("chapter"), "3.1");
    assert_eq!(numbers.next_figure_number("chapter"), "3.1");
    assert_eq!(numbers.figure_seq, 4);
}

#[test]
fn heading_layout_follows_numbering_settings() {
    let numbering = NumberingConfig::default();
    let h1 = heading_layout(&numbering, 1);
    assert_eq!(h1.effective_level, 1);
    assert!(h1.numbered && h1.starts_chapter && !h1.is_title);
    let h2 = heading_layout(&numbering, 2);
    assert!(h2.numbered && !h2.starts_chapter);
    let h6 = heading_layout(&numbering, 6);
    assert!(!h6.numbered);

    let mut titled = NumberingConfig::default();
    titled.h1_title = true;
    let t1 = heading_layout(&titled, 1);
    assert!(t1.is_title && !t1.numbered && !t1.starts_chapter);
    let t2 = heading_layout(&titled, 2);
    assert_eq!(t2.effective_level, 1);
    assert!(t2.numbered && t2.starts_chapter);

    let mut off = NumberingConfig::default();
    off.heading_numbering = false;
    assert!(!heading_layout(&off, 1).numbered);
}

#[test]
fn list_levels_and_prefixes() {
    assert_eq!(bullet_level(0), 0);
    assert_eq!(bullet_level(5), 2);
    assert_eq!(ordered_list_indent(0), 360);
    assert_eq!(ordered_list_indent(1), 720);
    assert_eq!(ordered_item_prefix(1, 0), "1. ");
    assert_eq!(ordered_item_prefix(5, 2), "7. ");
}

#[test]
fn column_count_takes_the_widest_row() {
    let cell = || vec![Inline::Text("c".to_string())];
    let headers = vec![cell(), cell()];
    let rows = vec![vec![cell(), cell(), cell()], vec![cell()]];
    assert_eq!(table_column_count(&headers, &rows), 3);
    assert_eq!(table_column_count(&vec![], &vec![]), 0);
}

#[test]
fn cell_alignment_defaults_to_left() {
    assert_eq!(
        table_alignment_to_paragraph_alignment(Some(ColumnAlignment::Center)),
        ParagraphAlignment::Center
    );
    assert_eq!(
        table_alignment_to_paragraph_alignment(Some(ColumnAlignment::Right)),
        ParagraphAlignment::Right
    );
    assert_eq!(
        table_alignment_to_paragraph_alignment(Some(ColumnAlignment::Unspecified)),
        ParagraphAlignment::Left
    );
    assert_eq!(table_alignment_to_paragraph_alignment(None), ParagraphAlignment::Left);
}

#[test]
fn code_block_lines_form_one_frame() {
    let first = code_block_borders(true, false);
    assert!(first.top && !first.bottom && first.left && first.right && first.between);
    let only = code_block_borders(true, true);
    assert!(only.top && only.bottom && only.left && only.right && !only.between);
    let middle = code_block_borders(false, false);
    assert!(!middle.top && !middle.bottom && middle.left && middle.right && middle.between);
    let last = code_block_borders(false, true);
    assert!(!last.top && last.bottom && last.left && last.right && !last.between);
}

#[test]
fn removes_spaces_between_latin_and_japanese() {
    assert_eq!(process_text("Rust は 速い"), "Rustは 速い");
    assert_eq!(process_text("日本語 English 日本語"), "日本語English日本語");
    assert_eq!(process_text("plain text only"), "plain text only");
    assert_eq!(process_text(" leading"), " leading");
}

#[test]
fn classifies_characters() {
    assert!(is_japanese_char('あ'));
    assert!(is_japanese_char('漢'));
    assert!(is_japanese_char('、'));
    assert!(!is_japanese_char('a'));
    assert!(is_ascii_char('!'));
    assert!(is_ascii_char('Z'));
    assert!(!is_ascii_char(' '));
    assert!(!is_ascii_char('é'));
}

#[test]
fn strips_heading_number_prefix() {
    let content = vec![Inline::Text("1.1 Intro".to_string())];
    let stripped = strip_prefix_from_inlines(&content, 4);
    assert_eq!(stripped.len(), 1);
    assert!(matches!(&stripped[0], Inline::Text(t) if t == "Intro"));

    let content = vec![
        Inline::Text("2.".to_string()),
        Inline::Code("x".to_string()),
        Inline::Text(" rest".to_string()),
    ];
    let stripped = strip_prefix_from_inlines(&content, 3);
    assert_eq!(stripped.len(), 2);
    assert!(matches!(&stripped[0], Inline::Code(t) if t == "x"));

    let unchanged = strip_prefix_from_inlines(&content, 0);
    assert_eq!(unchanged.len(), 3);
}

#[test]
fn recognises_chapter_caption_format() {
    assert!(is_chapter_format("chapter"));
    assert!(!is_chapter_format("sequential"));
    assert!(!is_chapter_format("Chapter"));
    assert!(!is_chapter_format(""));
}

#[test]
fn heading_styles_carry_numbering_levels() {
    let mut n = NumberingConfig::default();
    assert_eq!(heading_style_numbering(&n, 1), Some(0));
    assert_eq!(heading_style_numbering(&n, 2), Some(1));
    assert_eq!(heading_style_numbering(&n, 5), Some(4));
    assert_eq!(heading_style_numbering(&n, 6), None);
    n.h1_title = true;
    assert_eq!(heading_style_numbering(&n, 1), None);
    assert_eq!(heading_style_numbering(&n, 2), Some(0));
    assert_eq!(heading_style_numbering(&n, 5), Some(3));
    n.h1_title = false;
    n.heading_numbering_depth = 3;
    assert_eq!(heading_style_numbering(&n, 3), Some(2));
    assert_eq!(heading_style_numbering(&n, 4), None);
    n.heading_numbering = false;
    assert_eq!(heading_style_numbering(&n, 1), None);
    assert_eq!(heading_style_numbering(&n, 2), None);
}

#[test]
fn chapters_are_numbered_in_order() {
    let mut numbers = CaptionNumbers::new();
    assert_eq!(numbers.next_table_number("chapter"), "1.1");
    numbers.next_chapter();
    assert_eq!(numbers.chapter_number, 1);
    assert_eq!(numbers.next_table_number("chapter"), "1.1");
    assert_eq!(numbers.next_table_number("chapter"), "1.2");
    numbers.next_chapter();
    assert_eq!(numbers.next_table_number("chapter"), "2.1");
    assert_eq!(numbers.next_figure_number("chapter"), "2.1");
    assert_eq!(numbers.next_table_number("sequential"), "5");
}
