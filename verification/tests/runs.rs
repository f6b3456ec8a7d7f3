use mdd::ir::Inline;
use mdd::runs::{inline_runs, inlines_runs, LinkTarget, RunPiece};

fn runs(inline: &Inline, heading: bool, classes: &Vec<String>) -> Vec<RunPiece> {
    let mut out = Vec::new();
    inline_runs(inline, false, heading, classes, &mut out);
    out
}

#[test]
fn text_loses_spaces_between_latin_and_japanese() {
    let out = runs(&Inline::Text("Hello 世界".to_string()), false, &vec![]);
    match &out[..] {
        [RunPiece::Text { text, bold, style }] => {
            assert_eq!(text, "Hello世界");
            assert!(!bold);
            assert!(style.is_none());
        }
        other => panic!("unexpected runs: {other:?}"),
    }
}

#[test]
fn code_is_shown_in_corner_brackets() {
    let out = runs(&Inline::Code("x".to_string()), false, &vec![]);
    assert!(matches!(&out[..], [RunPiece::Text { text, .. }] if text == "「x」"));
}

#[test]
fn bold_marks_text_bold_only_in_headings() {
    let b = Inline::Bold(vec![Inline::Text("t".to_string())]);
    assert!(matches!(&runs(&b, false, &vec![])[..], [RunPiece::Text { bold: false, .. }]));
    assert!(matches!(&runs(&b, true, &vec![])[..], [RunPiece::Text { bold: true, .. }]));
}

#[test]
fn links_lead_to_anchors_or_urls() {
    let anchor = Inline::Link { text: vec![], url: "#sec".to_string() };
    match &runs(&anchor, false, &vec![])[..] {
        [RunPiece::Link { text, target: LinkTarget::Anchor(a), .. }] => {
            assert_eq!(text, "#sec");
            assert_eq!(a, "sec");
        }
        other => panic!("unexpected runs: {other:?}"),
    }
    let ext = Inline::Link {
        text: vec![Inline::Text("Rust".to_string())],
        url: "https://www.rust-lang.org/".to_string(),
    };
    match &runs(&ext, false, &vec![])[..] {
        [RunPiece::Link { text, target: LinkTarget::External(u), .. }] => {
            assert_eq!(text, "Rust");
            assert_eq!(u, "https://www.rust-lang.org/");
        }
        other => panic!("unexpected runs: {other:?}"),
    }
}

#[test]
fn styled_span_text_takes_known_class_style() {
    let span = Inline::StyledSpan {
        class: "warning".to_string(),
        children: vec![Inline::Text("w".to_string()), Inline::HardBreak],
    };
    let known = vec!["warning".to_string()];
    match &runs(&span, false, &known)[..] {
        [RunPiece::Text { style: Some(s), .. }, RunPiece::LineBreak] => assert_eq!(s, "css-warning"),
        other => panic!("unexpected runs: {other:?}"),
    }
    match &runs(&span, false, &vec![])[..] {
        [RunPiece::Text { style: None, .. }, RunPiece::LineBreak] => {}
        other => panic!("unexpected runs: {other:?}"),
    }
}

#[test]
fn soft_break_is_a_space_and_footnote_reference_is_nothing() {
    let mut out = Vec::new();
    inlines_runs(
        &vec![
            Inline::Text("foo".to_string()),
            Inline::SoftBreak,
            Inline::Text("bar".to_string()),
            Inline::FootnoteReference("1".to_string()),
            Inline::InlineMath("x^2".to_string()),
        ],
        false,
        false,
        &vec![],
        &mut out,
    );
    let joined: String = out
        .iter()
        .filter_map(|r| match r {
            RunPiece::Text { text, .. } => Some(text.as_str()),
            _ => None,
        })
        .collect();
    assert_eq!(joined, "foo bar");
    assert_eq!(out.len(), 4);
    assert!(matches!(&out[3], RunPiece::Math(m) if m == "x^2"));
}
