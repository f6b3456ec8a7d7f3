use mdd::ir::{Block, Inline};
use mdd::markup::{
    ensure_no_page_break_directive, extract_div_class, extract_span_class, is_page_break_paragraph,
    validate_page_break_usage,
    ParseError,
};

#[test]
fn page_break_paragraph_is_recognised() {
    assert!(is_page_break_paragraph(&vec![Inline::Text("  \\pagebreak ".to_string())]));
    assert!(!is_page_break_paragraph(&vec![Inline::Text("\\pagebreak x".to_string())]));
    assert!(!is_page_break_paragraph(&vec![
        Inline::Text("\\pagebreak".to_string()),
        Inline::SoftBreak
    ]));
}

#[test]
fn directive_anywhere_else_is_refused() {
    assert_eq!(
        ensure_no_page_break_directive(&"a\\pagebreakb".to_string()),
        Err(ParseError::MisplacedPageBreak)
    );
    assert_eq!(ensure_no_page_break_directive(&"pagebreak".to_string()), Ok(()));

    let code = vec![Block::CodeBlock { lang: None, code: "\\pagebreak".to_string() }];
    assert!(validate_page_break_usage(&code).is_err());
    let image = vec![Block::Image { alt: "\\pagebreak".to_string(), path: "x".to_string() }];
    assert!(validate_page_break_usage(&image).is_err());
    let nested = vec![Block::BlockQuote {
        children: vec![Block::Paragraph {
            content: vec![Inline::Bold(vec![Inline::Text("\\pagebreak".to_string())])],
        }],
    }];
    assert!(validate_page_break_usage(&nested).is_err());
    let fine = vec![Block::PageBreak, Block::ThematicBreak];
    assert!(validate_page_break_usage(&fine).is_ok());
}

#[test]
fn error_message_names_the_directive() {
    assert_eq!(
        ParseError::MisplacedPageBreak.message(),
        "`\\pagebreak`は段落単位で単独指定した場合のみ利用できます"
    );
}

#[test]
fn plain_text_drops_markup() {
    let link = Inline::Link {
        text: vec![Inline::Text("a".to_string()), Inline::Code("b".to_string())],
        url: "u".to_string(),
    };
    assert_eq!(link.to_plain_text(), "ab");
    assert_eq!(Inline::SoftBreak.to_plain_text(), " ");
    assert_eq!(Inline::FootnoteReference("1".to_string()).to_plain_text(), "");
}

#[test]
fn div_and_span_tags_read_the_same_class() {
    for rest in [" class=\"todo\">", " class=' note '>", " id=\"a\">", " class=\"\">", " class=\"x\"", ""] {
        assert_eq!(
            extract_div_class(&format!("<div{}", rest)),
            extract_span_class(&format!("<span{}", rest))
        );
    }
    assert_eq!(extract_div_class("<div class=' note '>"), Some("note".to_string()));
}
