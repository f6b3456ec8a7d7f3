//! The runs of text that an inline element becomes in a Word paragraph.
use vstd::prelude::*;
use vstd::string::*;
use crate::ir::{Inline, InlineV, inline_v, inlines_v, lemma_inlines_v_push, plain_texts, append_plain_texts};
use crate::layout::{process_text, spec_process_text};
use crate::text::{chars_of, eq_chars, extend_chars, starts_with, string_of, sub_chars};

verus! {

broadcast use vstd::string::group_string_axioms;

/// Where a hyperlink leads.
#[derive(Debug)]
pub enum LinkTarget {
    /// A bookmark in the document (the URL without its leading `#`).
    Anchor(String),
    /// Any other URL.
    External(String),
}

/// A piece of a Word paragraph.
#[derive(Debug)]
pub enum RunPiece {
    /// A run of text, bold or not, with a character style or none.
    Text { text: String, bold: bool, style: Option<String> },
    /// A hyperlink holding one run of text.
    Link { text: String, bold: bool, target: LinkTarget },
    /// A formula, in LaTeX.
    Math(String),
    /// A line break within the paragraph.
    LineBreak,
}

/// Model of a [`LinkTarget`].
pub enum LinkTargetV {
    Anchor(Seq<char>),
    External(Seq<char>),
}

/// Model of a [`RunPiece`].
pub enum RunPieceV {
    Text { text: Seq<char>, bold: bool, style: Option<Seq<char>> },
    Link { text: Seq<char>, bold: bool, target: LinkTargetV },
    Math(Seq<char>),
    LineBreak,
}

/// The model of a run piece.
pub open spec fn run_v(r: RunPiece) -> RunPieceV {
    match r {
        RunPiece::Text { text, bold, style } => RunPieceV::Text {
            text: text@,
            bold,
            style: match style {
                Some(s) => Some(s@),
                None => None,
            },
        },
        RunPiece::Link { text, bold, target } => RunPieceV::Link {
            text: text@,
            bold,
            target: match target {
                LinkTarget::Anchor(a) => LinkTargetV::Anchor(a@),
                LinkTarget::External(u) => LinkTargetV::External(u@),
            },
        },
        RunPiece::Math(m) => RunPieceV::Math(m@),
        RunPiece::LineBreak => RunPieceV::LineBreak,
    }
}

/// The models of a sequence of run pieces.
pub open spec fn runs_v(s: Seq<RunPiece>) -> Seq<RunPieceV> {
    s.map_values(|r: RunPiece| run_v(r))
}

/// A link whose URL begins with `#` leads to the bookmark named by the rest.
pub open spec fn link_target(url: Seq<char>) -> LinkTargetV {
    if starts_with(url, seq!['#']) {
        LinkTargetV::Anchor(url.skip(1))
    } else {
        LinkTargetV::External(url)
    }
}

/// The text shown for a link: its label, or the URL when the label is empty.
pub open spec fn link_display(text: Seq<InlineV>, url: Seq<char>) -> Seq<char> {
    if plain_texts(text).len() == 0 {
        url
    } else {
        plain_texts(text)
    }
}

/// The character style of a styled span: `css-` and the class.
pub open spec fn span_style(class: Seq<char>) -> Seq<char> {
    "css-"@ + class
}

/// The pieces an inline element becomes.  Text loses the spaces between
/// Latin and Japanese; code is shown in 「」; bold marks its text bold in a
/// heading only; a link keeps one run; the text directly inside a styled
/// span takes the span's character style when the class is known; a soft
/// break is a space, a hard break a line break; a footnote reference gives nothing.
pub open spec fn runs_of(i: InlineV, bold: bool, heading: bool, classes: Seq<Seq<char>>) -> Seq<
    RunPieceV,
>
    decreases i, 0nat,
{
    match i {
        InlineV::Text(t) => seq![RunPieceV::Text { text: spec_process_text(t), bold, style: None }],
        InlineV::Code(c) => seq![
            RunPieceV::Text { text: seq!['「'] + c + seq!['」'], bold, style: None },
        ],
        InlineV::Bold(ch) => runs_of_seq(ch, if heading {
            true
        } else {
            bold
        }, heading, classes),
        InlineV::Italic(ch) => runs_of_seq(ch, bold, heading, classes),
        InlineV::Link { text, url } => seq![
            RunPieceV::Link {
                text: spec_process_text(link_display(text, url)),
                bold,
                target: link_target(url),
            },
        ],
        InlineV::StyledSpan { class, children } => span_runs(
            children,
            if classes.contains(class) {
                Some(span_style(class))
            } else {
                None
            },
            bold,
            heading,
            classes,
        ),
        InlineV::InlineMath(m) => seq![RunPieceV::Math(m)],
        InlineV::SoftBreak => seq![RunPieceV::Text { text: seq![' '], bold: false, style: None }],
        InlineV::HardBreak => seq![RunPieceV::LineBreak],
        InlineV::FootnoteReference(l) => seq![],
    }
}

/// The pieces of a sequence of inline elements, one after another.
pub open spec fn runs_of_seq(s: Seq<InlineV>, bold: bool, heading: bool, classes: Seq<Seq<char>>) -> Seq<
    RunPieceV,
>
    decreases s, 0nat,
{
    if s.len() == 0 {
        seq![]
    } else {
        runs_of_seq(s.subrange(0, s.len() - 1), bold, heading, classes) + runs_of(
            s[s.len() - 1],
            bold,
            heading,
            classes,
        )
    }
}

/// The pieces of the children of a styled span: its text elements take the
/// span's style, the others become pieces as usual.
pub open spec fn span_runs(
    s: Seq<InlineV>,
    style: Option<Seq<char>>,
    bold: bool,
    heading: bool,
    classes: Seq<Seq<char>>,
) -> Seq<RunPieceV>
    decreases s, 0nat,
{
    if s.len() == 0 {
        seq![]
    } else {
        span_runs(s.subrange(0, s.len() - 1), style, bold, heading, classes) + match s[s.len()
            - 1] {
            InlineV::Text(t) => seq![RunPieceV::Text { text: spec_process_text(t), bold, style }],
            other => runs_of(other, bold, heading, classes),
        }
    }
}

/// The models of the known style classes.
pub open spec fn classes_v(classes: Seq<String>) -> Seq<Seq<char>> {
    classes.map_values(|c: String| c@)
}

fn class_known(classes: &Vec<String>, class: &String) -> (r: bool)
    ensures
        r == classes_v(classes@).contains(class@),
{
    let c = chars_of(class.as_str());
    let mut k: usize = 0;
    while k < classes.len()
        invariant
            k <= classes.len(),
            c@ == class@,
            forall|j: int| 0 <= j < k ==> classes@[j]@ != class@,
        decreases classes.len() - k,
    {
        let d = chars_of(classes[k].as_str());
        if eq_chars(&d, &c) {
            assert(classes_v(classes@)[k as int] == class@);
            return true;
        }
        k = k + 1;
    }
    assert forall|j: int| 0 <= j < classes_v(classes@).len() implies classes_v(classes@)[j]
        != class@ by {
        assert(classes_v(classes@)[j] == classes@[j]@);
    }
    false
}

fn push_text_run(out: &mut Vec<RunPiece>, text: &String, bold: bool, style: &Option<String>)
    ensures
        runs_v(final(out)@) == runs_v(old(out)@).push(
            RunPieceV::Text {
                text: spec_process_text(text@),
                bold,
                style: match style {
                    Some(s) => Some(s@),
                    None => None,
                },
            },
        ),
{
    let st = match style {
        Some(s) => Some(s.clone()),
        None => None,
    };
    out.push(RunPiece::Text { text: process_text(text.as_str()), bold, style: st });
    assert(runs_v(out@) =~= runs_v(old(out)@).push(run_v(out@.last())));
}

fn link_run(text: &Vec<Inline>, url: &String, bold: bool) -> (r: RunPiece)
    ensures
        run_v(r) == (RunPieceV::Link {
            text: spec_process_text(link_display(inlines_v(text@), url@)),
            bold,
            target: link_target(url@),
        }),
{
    let mut label: Vec<char> = Vec::new();
    append_plain_texts(text, &mut label);
    assert(label@ =~= plain_texts(inlines_v(text@)));
    let u = chars_of(url.as_str());
    let display = if label.len() == 0 {
        url.clone()
    } else {
        string_of(&label)
    };
    let target = if u.len() > 0 && u[0] == '#' {
        let rest = sub_chars(&u, 1, u.len());
        assert(rest@ =~= url@.skip(1));
        assert(starts_with(url@, seq!['#'])) by {
            assert(url@.take(1) =~= seq!['#']);
        }
        LinkTarget::Anchor(string_of(&rest))
    } else {
        assert(!starts_with(url@, seq!['#'])) by {
            if starts_with(url@, seq!['#']) {
                assert(url@.take(1)[0] == '#');
            }
        }
        LinkTarget::External(url.clone())
    };
    RunPiece::Link { text: process_text(display.as_str()), bold, target }
}

/// Appends the pieces that `inline` becomes (see [`runs_of`]); `classes` are
/// the style classes that are defined.
pub fn inline_runs(
    inline: &Inline,
    bold: bool,
    heading: bool,
    classes: &Vec<String>,
    out: &mut Vec<RunPiece>,
)
    ensures
        runs_v(final(out)@) == runs_v(old(out)@) + runs_of(
            inline_v(*inline),
            bold,
            heading,
            classes_v(classes@),
        ),
    decreases inline,
{
    let ghost o0 = runs_v(out@);
    match inline {
        Inline::Text(t) => {
            push_text_run(out, t, bold, &None);
            assert(runs_v(out@) =~= o0 + runs_of(inline_v(*inline), bold, heading, classes_v(classes@)));
        },
        Inline::Code(c) => {
            let mut d: Vec<char> = Vec::new();
            d.push('「');
            let cc = chars_of(c.as_str());
            extend_chars(&mut d, &cc);
            d.push('」');
            assert(d@ =~= seq!['「'] + c@ + seq!['」']);
            out.push(RunPiece::Text { text: string_of(&d), bold, style: None });
            assert(runs_v(out@) =~= o0.push(run_v(out@.last())));
            assert(runs_v(out@) =~= o0 + runs_of(inline_v(*inline), bold, heading, classes_v(classes@)));
        },
        Inline::Bold(ch) => {
            inlines_runs(ch, if heading {
                true
            } else {
                bold
            }, heading, classes, out);
            assert(runs_v(out@) =~= o0 + runs_of(inline_v(*inline), bold, heading, classes_v(classes@)));
        },
        Inline::Italic(ch) => {
            inlines_runs(ch, bold, heading, classes, out);
            assert(runs_v(out@) =~= o0 + runs_of(inline_v(*inline), bold, heading, classes_v(classes@)));
        },
        Inline::Link { text, url } => {
            out.push(link_run(text, url, bold));
            assert(runs_v(out@) =~= o0.push(run_v(out@.last())));
            assert(runs_v(out@) =~= o0 + runs_of(inline_v(*inline), bold, heading, classes_v(classes@)));
        },
        Inline::StyledSpan { class, children } => {
            let style = if class_known(classes, class) {
                let mut sc = chars_of("css-");
                let cc = chars_of(class.as_str());
                extend_chars(&mut sc, &cc);
                assert(sc@ == span_style(class@));
                Some(string_of(&sc))
            } else {
                None
            };
            span_children_runs(children, &style, bold, heading, classes, out);
            assert(runs_v(out@) =~= o0 + runs_of(inline_v(*inline), bold, heading, classes_v(classes@)));
        },
        Inline::InlineMath(m) => {
            out.push(RunPiece::Math(m.clone()));
            assert(runs_v(out@) =~= o0.push(run_v(out@.last())));
            assert(runs_v(out@) =~= o0 + runs_of(inline_v(*inline), bold, heading, classes_v(classes@)));
        },
        Inline::SoftBreak => {
            proof {
                reveal_strlit(" ");
                assert(" "@ =~= seq![' ']);
            }
            out.push(RunPiece::Text { text: String::from_str(" "), bold: false, style: None });
            assert(runs_v(out@) =~= o0.push(run_v(out@.last())));
            assert(runs_v(out@) =~= o0 + runs_of(inline_v(*inline), bold, heading, classes_v(classes@)));
        },
        Inline::HardBreak => {
            out.push(RunPiece::LineBreak);
            assert(runs_v(out@) =~= o0.push(run_v(out@.last())));
            assert(runs_v(out@) =~= o0 + runs_of(inline_v(*inline), bold, heading, classes_v(classes@)));
        },
        Inline::FootnoteReference(l) => {},
    }
}

/// Appends the pieces of a sequence of inline elements.
pub fn inlines_runs(
    s: &Vec<Inline>,
    bold: bool,
    heading: bool,
    classes: &Vec<String>,
    out: &mut Vec<RunPiece>,
)
    ensures
        runs_v(final(out)@) == runs_v(old(out)@) + runs_of_seq(
            inlines_v(s@),
            bold,
            heading,
            classes_v(classes@),
        ),
    decreases s,
{
    let ghost o0 = runs_v(out@);
    let mut k: usize = 0;
    while k < s.len()
        invariant
            k <= s.len(),
            runs_v(out@) == o0 + runs_of_seq(
                inlines_v(s@.take(k as int)),
                bold,
                heading,
                classes_v(classes@),
            ),
        decreases s.len() - k,
    {
        proof {
            assert(s@.take(k + 1) =~= s@.take(k as int).push(s@[k as int]));
            lemma_inlines_v_push(s@.take(k as int), s@[k as int]);
            let t = inlines_v(s@.take(k as int)).push(inline_v(s@[k as int]));
            assert(t.subrange(0, t.len() - 1) =~= inlines_v(s@.take(k as int)));
        }
        inline_runs(&s[k], bold, heading, classes, out);
        k = k + 1;
    }
    assert(s@.take(s.len() as int) =~= s@);
}

fn span_children_runs(
    s: &Vec<Inline>,
    style: &Option<String>,
    bold: bool,
    heading: bool,
    classes: &Vec<String>,
    out: &mut Vec<RunPiece>,
)
    ensures
        runs_v(final(out)@) == runs_v(old(out)@) + span_runs(
            inlines_v(s@),
            match style {
                Some(x) => Some(x@),
                None => None,
            },
            bold,
            heading,
            classes_v(classes@),
        ),
    decreases s,
{
    let ghost o0 = runs_v(out@);
    let ghost sv = match style {
        Some(x) => Some(x@),
        None => None,
    };
    let mut k: usize = 0;
    while k < s.len()
        invariant
            k <= s.len(),
            sv == match style {
                Some(x) => Some(x@),
                None => None,
            },
            runs_v(out@) == o0 + span_runs(
                inlines_v(s@.take(k as int)),
                sv,
                bold,
                heading,
                classes_v(classes@),
            ),
        decreases s.len() - k,
    {
        proof {
            assert(s@.take(k + 1) =~= s@.take(k as int).push(s@[k as int]));
            lemma_inlines_v_push(s@.take(k as int), s@[k as int]);
            let t = inlines_v(s@.take(k as int)).push(inline_v(s@[k as int]));
            assert(t.subrange(0, t.len() - 1) =~= inlines_v(s@.take(k as int)));
        }
        let ghost before = runs_v(out@);
        match &s[k] {
            Inline::Text(t) => {
                push_text_run(out, t, bold, style);
            },
            other => {
                inline_runs(other, bold, heading, classes, out);
            },
        }
        assert(runs_v(out@) =~= before + match inline_v(s@[k as int]) {
            InlineV::Text(t) => seq![RunPieceV::Text { text: spec_process_text(t), bold, style: sv }],
            other => runs_of(other, bold, heading, classes_v(classes@)),
        });
        k = k + 1;
    }
    assert(s@.take(s.len() as int) =~= s@);
}

} // verus!
