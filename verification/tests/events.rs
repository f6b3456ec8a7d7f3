use mdd::events::{EventConverter, MdEvent, MdTag, MdTagEnd};
use mdd::ir::{Block, ColumnAlignment, Inline};
use mdd::parser::blocks_from_events;

fn text(s: &str) -> MdEvent {
    MdEvent::Text(s.to_string())
}

#[test]
fn paragraph_events_give_paragraph_block() {
    let events = vec![
        MdEvent::Start(MdTag::Paragraph),
        text("a"),
        MdEvent::SoftBreak,
        text("b"),
        MdEvent::End(MdTagEnd::Paragraph),
    ];
    let blocks = EventConverter::new().convert(events);
    assert_eq!(blocks.len(), 1);
    match &blocks[0] {
        Block::Paragraph { content } => {
            assert_eq!(content.len(), 3);
            assert!(matches!(&content[1], Inline::SoftBreak));
        }
        other => panic!("unexpected block: {other:?}"),
    }
}

#[test]
fn empty_paragraph_is_dropped() {
    let events = vec![MdEvent::Start(MdTag::Paragraph), MdEvent::End(MdTagEnd::Paragraph)];
    assert!(EventConverter::new().convert(events).is_empty());
}

#[test]
fn list_items_take_their_paragraph_text() {
    let events = vec![
        MdEvent::Start(MdTag::List(Some(3))),
        MdEvent::Start(MdTag::Item),
        MdEvent::Start(MdTag::Paragraph),
        text("first"),
        MdEvent::End(MdTagEnd::Paragraph),
        MdEvent::Start(MdTag::Paragraph),
        text("second"),
        MdEvent::End(MdTagEnd::Paragraph),
        MdEvent::End(MdTagEnd::Item),
        MdEvent::End(MdTagEnd::List),
    ];
    let blocks = EventConverter::new().convert(events);
    match &blocks[..] {
        [Block::OrderedList { items, start }] => {
            assert_eq!(*start, 3);
            assert_eq!(items.len(), 1);
            assert!(matches!(&items[0].content[0], Inline::Text(t) if t == "first"));
            assert_eq!(items[0].children.len(), 1);
            assert!(matches!(&items[0].children[0], Block::Paragraph { .. }));
        }
        other => panic!("unexpected blocks: {other:?}"),
    }
}

#[test]
fn link_without_url_keeps_its_text() {
    let events = vec![
        MdEvent::Start(MdTag::Paragraph),
        MdEvent::Start(MdTag::Link { dest_url: String::new() }),
        text("x"),
        text("y"),
        MdEvent::End(MdTagEnd::Link),
        MdEvent::End(MdTagEnd::Paragraph),
    ];
    let blocks = EventConverter::new().convert(events);
    match &blocks[0] {
        Block::Paragraph { content } => {
            assert_eq!(content.len(), 2);
            assert!(matches!(&content[0], Inline::Text(t) if t == "x"));
        }
        other => panic!("unexpected block: {other:?}"),
    }
}

#[test]
fn table_events_give_table_block() {
    let cell = |s: &str| {
        vec![MdEvent::Start(MdTag::TableCell), text(s), MdEvent::End(MdTagEnd::TableCell)]
    };
    let mut events = vec![
        MdEvent::Start(MdTag::Table(vec![ColumnAlignment::Left, ColumnAlignment::Right])),
        MdEvent::Start(MdTag::TableHead),
    ];
    events.extend(cell("H1"));
    events.extend(cell("H2"));
    events.push(MdEvent::End(MdTagEnd::TableHead));
    events.push(MdEvent::Start(MdTag::TableRow));
    events.extend(cell("L"));
    events.extend(cell("R"));
    events.push(MdEvent::End(MdTagEnd::TableRow));
    events.push(MdEvent::End(MdTagEnd::Table));
    let blocks = EventConverter::new().convert(events);
    match &blocks[..] {
        [Block::Table { headers, rows, alignments }] => {
            assert_eq!(headers.len(), 2);
            assert_eq!(rows.len(), 1);
            assert_eq!(rows[0].len(), 2);
            assert!(matches!(&rows[0][1][0], Inline::Text(t) if t == "R"));
            assert_eq!(alignments, &vec![ColumnAlignment::Left, ColumnAlignment::Right]);
        }
        other => panic!("unexpected blocks: {other:?}"),
    }
}

#[test]
fn code_block_collects_text_and_language() {
    let events = vec![
        MdEvent::Start(MdTag::CodeBlockFenced("rust".to_string())),
        text("fn a() {}\n"),
        text("fn b() {}\n"),
        MdEvent::End(MdTagEnd::CodeBlock),
        MdEvent::Start(MdTag::CodeBlockFenced(String::new())),
        text("x"),
        MdEvent::End(MdTagEnd::CodeBlock),
    ];
    let blocks = EventConverter::new().convert(events);
    match &blocks[..] {
        [Block::CodeBlock { lang: Some(l), code }, Block::CodeBlock { lang: None, code: c2 }] => {
            assert_eq!(l, "rust");
            assert_eq!(code, "fn a() {}\nfn b() {}\n");
            assert_eq!(c2, "x");
        }
        other => panic!("unexpected blocks: {other:?}"),
    }
}

#[test]
fn image_alt_is_plain_text() {
    let events = vec![
        MdEvent::Start(MdTag::Image { dest_url: "img.png".to_string() }),
        text("a "),
        MdEvent::Start(MdTag::Emphasis),
        text("b"),
        MdEvent::End(MdTagEnd::Emphasis),
        MdEvent::Code("c".to_string()),
        MdEvent::End(MdTagEnd::Image),
    ];
    let blocks = EventConverter::new().convert(events);
    match &blocks[..] {
        [Block::Image { alt, path }] => {
            assert_eq!(alt, "a bc");
            assert_eq!(path, "img.png");
        }
        other => panic!("unexpected blocks: {other:?}"),
    }
}

#[test]
fn div_html_wraps_following_blocks() {
    let mut conv = EventConverter::new();
    conv.handle_block_html("<div class=\"note\">\n");
    conv.process_event(MdEvent::Rule);
    conv.handle_block_html("</div>\n");
    conv.process_event(MdEvent::DisplayMath("x".to_string()));
    let blocks = conv.convert(vec![]);
    match &blocks[..] {
        [Block::StyledDiv { class, children }, Block::DisplayMath(m)] => {
            assert_eq!(class, "note");
            assert!(matches!(&children[..], [Block::ThematicBreak]));
            assert_eq!(m, "x");
        }
        other => panic!("unexpected blocks: {other:?}"),
    }
}

#[test]
fn span_html_wraps_inline_text() {
    let events = vec![
        MdEvent::Start(MdTag::Paragraph),
        MdEvent::InlineHtml("<span class='hi'>".to_string()),
        text("x"),
        MdEvent::InlineHtml(" </span> ".to_string()),
        MdEvent::End(MdTagEnd::Paragraph),
    ];
    let blocks = EventConverter::new().convert(events);
    match &blocks[..] {
        [Block::Paragraph { content }] => match &content[..] {
            [Inline::StyledSpan { class, children }] => {
                assert_eq!(class, "hi");
                assert_eq!(children.len(), 1);
            }
            other => panic!("unexpected inlines: {other:?}"),
        },
        other => panic!("unexpected blocks: {other:?}"),
    }
}

#[test]
fn events_with_misplaced_page_break_are_refused() {
    let events = vec![
        MdEvent::Start(MdTag::Heading),
        text("a \\pagebreak"),
        MdEvent::End(MdTagEnd::Heading(2)),
    ];
    assert!(blocks_from_events(events).is_err());
    let events = vec![
        MdEvent::Start(MdTag::Paragraph),
        text(" \\pagebreak "),
        MdEvent::End(MdTagEnd::Paragraph),
    ];
    let blocks = blocks_from_events(events).unwrap();
    assert!(matches!(&blocks[..], [Block::PageBreak]));
}
