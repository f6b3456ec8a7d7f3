use mdd::config::{BulletConfig, FontConfig, IndentConfig, NumberingConfig, PageConfig};

#[test]
fn default_fonts_are_japanese_and_century() {
    let fonts = FontConfig::default();
    assert_eq!(fonts.body_ja, "游明朝");
    assert_eq!(fonts.body_en, "Century");
    assert_eq!(fonts.heading_ja, "游ゴシック");
    assert_eq!(fonts.heading_en, "Century");
}

#[test]
fn default_page_is_a4_portrait() {
    let page = PageConfig::default();
    assert_eq!(page.width, 11_906);
    assert_eq!(page.height, 16_838);
    assert_eq!(page.margin_top, 1_985);
    assert_eq!(page.margin_left, 1_701);
    assert_eq!(page.margin_right, 1_701);
    assert_eq!(page.margin_bottom, 1_701);
    assert_eq!(page.margin_header, 851);
    assert_eq!(page.margin_footer, 992);
    assert_eq!(page.margin_gutter, 0);
    assert_eq!(page.image_max_height, None);
}

#[test]
fn default_indents_and_bullets() {
    let indent = IndentConfig::default();
    assert_eq!(indent.body_left, 210);
    assert_eq!(indent.body_first_line, 210);
    assert_eq!(indent.body_right, 210);
    assert_eq!(indent.body_left_chars, 100);
    assert_eq!(indent.heading4_left, 709);
    assert_eq!(indent.heading4_hanging, 709);
    assert_eq!((indent.heading1_left, indent.heading1_hanging), (420, 420));
    assert_eq!((indent.heading2_left, indent.heading2_hanging), (612, 612));
    assert_eq!((indent.heading3_left, indent.heading3_hanging), (783, 783));
    assert_eq!((indent.heading5_left, indent.heading5_hanging), (709, 709));
    assert_eq!((indent.heading6_left, indent.heading6_hanging), (709, 709));
    let bullet = BulletConfig::default();
    assert_eq!(bullet.level0, "●");
    assert_eq!(bullet.level1, "■");
    assert_eq!(bullet.level2, "▲");
}

#[test]
fn default_numbering_is_sequential() {
    let numbering = NumberingConfig::default();
    assert_eq!(numbering.figure_format, "sequential");
    assert_eq!(numbering.table_format, "sequential");
    assert!(!numbering.h1_title);
    assert_eq!(numbering.heading_numbering_depth, 5);
}

