use mdd::ir::{Block, Inline};
use mdd::parser::{extract_div_class, extract_span_class, parse_markdown};

#[test]
fn preserves_link_url_in_inline_ir() {
    let blocks = parse_markdown("[Rust](https://www.rust-lang.org/)").unwrap();
    assert_eq!(blocks.len(), 1);

    match &blocks[0] {
        Block::Paragraph { content } => match &content[0] {
            Inline::Link { text, url } => {
                assert_eq!(url, "https://www.rust-lang.org/");
                assert_eq!(text.len(), 1);
                assert!(matches!(&text[0], Inline::Text(t) if t == "Rust"));
            }
            other => panic!("unexpected inline: {other:?}"),
        },
        other => panic!("unexpected block: {other:?}"),
    }
}

#[test]
fn parses_span_class_to_styled_span() {
    let blocks = parse_markdown("text <span class=\"warning\">important</span> end").unwrap();
    assert_eq!(blocks.len(), 1);

    match &blocks[0] {
        Block::Paragraph { content } => {
            let span = content
                .iter()
                .find(|i| matches!(i, Inline::StyledSpan { .. }));
            assert!(span.is_some(), "StyledSpan should be found");
            match span.unwrap() {
                Inline::StyledSpan { class, children } => {
                    assert_eq!(class, "warning");
                    assert_eq!(children.len(), 1);
                    assert!(matches!(&children[0], Inline::Text(t) if t == "important"));
                }
                _ => unreachable!(),
            }
        }
        other => panic!("unexpected block: {other:?}"),
    }
}

#[test]
fn extract_span_class_parses_correctly() {
    assert_eq!(
        extract_span_class("<span class=\"warning\">"),
        Some("warning".to_string())
    );
    assert_eq!(
        extract_span_class("<span class='info'>"),
        Some("info".to_string())
    );
    assert_eq!(extract_span_class("</span>"), None);
    assert_eq!(extract_span_class("<div class=\"x\">"), None);
}

#[test]
fn extract_div_class_parses_correctly() {
    assert_eq!(
        extract_div_class("<div class=\"todo\">"),
        Some("todo".to_string())
    );
    assert_eq!(
        extract_div_class("<div class='info'>"),
        Some("info".to_string())
    );
    assert_eq!(extract_div_class("</div>"), None);
    assert_eq!(extract_div_class("<span class=\"x\">"), None);
}

#[test]
fn parses_div_block_to_styled_div() {
    let md = "<div class=\"todo\">\n\nSome text.\n\n</div>\n";
    let blocks = parse_markdown(md).unwrap();
    assert_eq!(blocks.len(), 1);

    match &blocks[0] {
        Block::StyledDiv { class, children } => {
            assert_eq!(class, "todo");
            assert!(!children.is_empty());
            match &children[0] {
                Block::Paragraph { content } => {
                    assert!(matches!(&content[0], Inline::Text(t) if t == "Some text."));
                }
                other => panic!("unexpected child block: {other:?}"),
            }
        }
        other => panic!("expected StyledDiv, got: {other:?}"),
    }
}

#[test]
fn parses_blockquote() {
    let md = "> Quoted text.\n";
    let blocks = parse_markdown(md).unwrap();
    assert_eq!(blocks.len(), 1);

    match &blocks[0] {
        Block::BlockQuote { children } => {
            assert_eq!(children.len(), 1);
            match &children[0] {
                Block::Paragraph { content } => {
                    assert!(matches!(&content[0], Inline::Text(t) if t == "Quoted text."));
                }
                other => panic!("unexpected child: {other:?}"),
            }
        }
        other => panic!("expected BlockQuote, got: {other:?}"),
    }
}

#[test]
fn parses_nested_blockquote() {
    let md = "> outer\n>\n> > inner\n";
    let blocks = parse_markdown(md).unwrap();
    assert_eq!(blocks.len(), 1);

    match &blocks[0] {
        Block::BlockQuote { children } => {
            let has_nested = children
                .iter()
                .any(|b| matches!(b, Block::BlockQuote { .. }));
            assert!(has_nested, "nested BlockQuote should exist: {children:?}");

            let nested = children
                .iter()
                .find(|b| matches!(b, Block::BlockQuote { .. }))
                .unwrap();
            match nested {
                Block::BlockQuote { children: inner } => {
                    assert!(!inner.is_empty(), "inner blockquote should have content");
                }
                _ => unreachable!(),
            }
        }
        other => panic!("expected BlockQuote, got: {other:?}"),
    }
}

#[test]
fn does_not_mix_urls_between_multiple_links() {
    let blocks = parse_markdown("[A](https://a.example) [B](https://b.example)").unwrap();
    assert_eq!(blocks.len(), 1);

    match &blocks[0] {
        Block::Paragraph { content } => {
            let links: Vec<&Inline> = content
                .iter()
                .filter(|i| matches!(i, Inline::Link { .. }))
                .collect();
            assert_eq!(links.len(), 2);

            match links[0] {
                Inline::Link { url, .. } => assert_eq!(url, "https://a.example"),
                _ => unreachable!(),
            }
            match links[1] {
                Inline::Link { url, .. } => assert_eq!(url, "https://b.example"),
                _ => unreachable!(),
            }
        }
        other => panic!("unexpected block: {other:?}"),
    }
}

#[test]
fn single_line_div_does_not_swallow_following_content() {
    let md = "# Before\n\n<div class=\"todo\">TODO: text</div>\nAfter div.\n\n## Also after\n";
    let blocks = parse_markdown(md).unwrap();
    assert!(blocks.len() >= 3, "got {} blocks: {blocks:?}", blocks.len());
    assert!(matches!(&blocks[0], Block::Heading { level: 1, .. }));
    assert!(matches!(&blocks[1], Block::StyledDiv { .. }));
    let has_after = blocks.iter().any(|b| matches!(b, Block::Paragraph { content } if content.iter().any(|i| matches!(i, Inline::Text(t) if t.contains("After div")))));
    assert!(has_after, "paragraph after div is missing: {blocks:?}");
}

#[test]
fn div_followed_by_content_without_blank_line() {
    let md = "<div class=\"todo\">\n\nTODO item.\n\n</div>\nAfter div.\n";
    let blocks = parse_markdown(md).unwrap();
    assert_eq!(blocks.len(), 2, "should have StyledDiv + Paragraph");
    assert!(matches!(&blocks[0], Block::StyledDiv { .. }));
    assert!(matches!(&blocks[1], Block::Paragraph { .. }));
}

#[test]
fn parses_inline_math() {
    let blocks = parse_markdown("The equation $x^2$ is simple.").unwrap();
    assert_eq!(blocks.len(), 1);
    match &blocks[0] {
        Block::Paragraph { content } => {
            let math = content.iter().find(|i| matches!(i, Inline::InlineMath(_)));
            assert!(math.is_some(), "InlineMath should be found");
            match math.unwrap() {
                Inline::InlineMath(s) => assert_eq!(s, "x^2"),
                _ => unreachable!(),
            }
        }
        other => panic!("expected Paragraph, got: {other:?}"),
    }
}

#[test]
fn parses_display_math() {
    let blocks = parse_markdown("$$\\frac{a}{b}$$\n").unwrap();
    assert_eq!(blocks.len(), 1);
    match &blocks[0] {
        Block::DisplayMath(s) => assert_eq!(s, "\\frac{a}{b}"),
        other => panic!("expected DisplayMath, got: {other:?}"),
    }
}

#[test]
fn div_with_content_after_blank_line_still_works() {
    let md = "<div class=\"todo\">\n\nTODO item.\n\n</div>\n\nAfter div.\n";
    let blocks = parse_markdown(md).unwrap();
    assert_eq!(blocks.len(), 2);
    assert!(matches!(&blocks[0], Block::StyledDiv { .. }));
    assert!(matches!(&blocks[1], Block::Paragraph { .. }));
}

#[test]
fn parses_page_break_directive_as_dedicated_block() {
    let blocks = parse_markdown("\\pagebreak").unwrap();
    assert_eq!(blocks.len(), 1);
    assert!(matches!(blocks[0], Block::PageBreak));
}

#[test]
fn rejects_page_break_directive_inside_regular_paragraph() {
    let error = parse_markdown("before \\pagebreak after").unwrap_err();
    assert!(
        error
            .message()
            .contains(r"`\pagebreak`は段落単位で単独指定した場合のみ利用できます")
    );
}

#[test]
fn parses_footnotes() {
    let md = "Here is a reference[^1].\n\n[^1]: This is the footnote content.\n";
    let blocks = parse_markdown(md).unwrap();
    assert_eq!(blocks.len(), 2);

    match &blocks[0] {
        Block::Paragraph { content } => {
            assert_eq!(content.len(), 3);
            assert!(matches!(&content[0], Inline::Text(t) if t == "Here is a reference"));
            assert!(matches!(&content[1], Inline::FootnoteReference(label) if label == "1"));
            assert!(matches!(&content[2], Inline::Text(t) if t == "."));
        }
        other => panic!("expected paragraph, got {:?}", other),
    }

    match &blocks[1] {
        Block::FootnoteDefinition { label, children } => {
            assert_eq!(label, "1");
            assert_eq!(children.len(), 1);
            match &children[0] {
                Block::Paragraph { content } => {
                    assert_eq!(content.len(), 1);
                    assert!(matches!(&content[0], Inline::Text(t) if t == "This is the footnote content."));
                }
                other => panic!("expected paragraph inside footnote, got {:?}", other),
            }
        }
        other => panic!("expected FootnoteDefinition, got {:?}", other),
    }
}

#[test]
fn parses_inline_footnotes() {
    let md = "Here is an inline footnote^[This is the inline footnote content.].";
    let blocks = parse_markdown(md).unwrap();
    assert_eq!(blocks.len(), 2);

    match &blocks[0] {
        Block::Paragraph { content } => {
            assert_eq!(content.len(), 3);
            assert!(matches!(&content[0], Inline::Text(t) if t == "Here is an inline footnote"));
            assert!(matches!(&content[1], Inline::FootnoteReference(label) if label == "__inline_fn_1"));
            assert!(matches!(&content[2], Inline::Text(t) if t == "."));
        }
        other => panic!("expected paragraph, got {:?}", other),
    }

    match &blocks[1] {
        Block::FootnoteDefinition { label, children } => {
            assert_eq!(label, "__inline_fn_1");
            assert_eq!(children.len(), 1);
            match &children[0] {
                Block::Paragraph { content } => {
                    assert_eq!(content.len(), 1);
                    assert!(matches!(&content[0], Inline::Text(t) if t == "This is the inline footnote content."));
                }
                other => panic!("expected paragraph inside footnote, got {:?}", other),
            }
        }
        other => panic!("expected FootnoteDefinition, got {:?}", other),
    }
}

#[test]
fn parses_headings_lists_tables_code_and_images() {
    let md = "# Title\n\n- a\n- b\n\n3. x\n\n| a | b |\n|:-|-:|\n| 1 | 2 |\n\n```rust\nfn x\n```\n\n![alt *y*](img.png)\n";
    let blocks = parse_markdown(md).unwrap();
    assert_eq!(blocks.len(), 6, "{blocks:?}");
    assert!(matches!(&blocks[0], Block::Heading { level: 1, content } if matches!(&content[0], Inline::Text(t) if t == "Title")));
    assert!(matches!(&blocks[1], Block::BulletList { items } if items.len() == 2));
    assert!(matches!(&blocks[2], Block::OrderedList { start: 3, items } if items.len() == 1));
    match &blocks[3] {
        Block::Table { headers, rows, alignments } => {
            assert_eq!(headers.len(), 2);
            assert_eq!(rows.len(), 1);
            assert_eq!(
                alignments,
                &vec![mdd::ir::ColumnAlignment::Left, mdd::ir::ColumnAlignment::Right]
            );
        }
        other => panic!("expected table, got {other:?}"),
    }
    assert!(matches!(&blocks[4], Block::CodeBlock { lang: Some(l), code } if l == "rust" && code == "fn x\n"));
    assert!(matches!(&blocks[5], Block::Image { alt, path } if alt == "alt y" && path == "img.png"));
}

#[test]
fn rejects_page_break_directive_in_heading_and_code() {
    assert!(parse_markdown("# a \\pagebreak").is_err());
    assert!(parse_markdown("```\n\\pagebreak\n```\n").is_err());
}
