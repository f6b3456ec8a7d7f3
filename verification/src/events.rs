//! Markdown parser events, and the conversion of an event stream into the
//! document's blocks.
use vstd::prelude::*;
use vstd::string::*;
use crate::ir::{
    ColumnAlignment, Block, BlockV, Inline, InlineV, ListItem, ListItemV, block_v, blocks_v, cells_v,
    inline_v, inlines_v, item_v, items_v, rows_v, lemma_blocks_v_push, lemma_cells_v_index,
    lemma_cells_v_push, lemma_inlines_v_index, lemma_inlines_v_push, lemma_items_v_push,
    lemma_rows_v_index, lemma_rows_v_push, plain_texts, append_plain_texts,
};
use crate::markup::{
    is_page_break_content, is_page_break_paragraph, span_class, div_class, extract_span_class,
    extract_div_class,
};
use crate::text::{
    chars_of, eq_chars, extend_chars, lines, lines_of, starts_with, starts_with_chars, string_of,
    trim, trim_chars,
};

verus! {

broadcast use vstd::string::group_string_axioms;

/// The start of a Markdown element, as the parser reports it.
#[derive(Debug)]
pub enum MdTag {
    Heading,
    Paragraph,
    Emphasis,
    Strong,
    Link { dest_url: String },
    /// A list; ordered lists carry their first number.
    List(Option<u64>),
    Item,
    Table(Vec<ColumnAlignment>),
    TableHead,
    TableRow,
    TableCell,
    BlockQuote,
    /// A fenced code block with its info string.
    CodeBlockFenced(String),
    CodeBlockIndented,
    Image { dest_url: String },
    FootnoteDefinition(String),
    /// An element this converter does not use.
    Other,
}

/// The end of a Markdown element.
#[derive(Debug, Clone, Copy, PartialEq, Eq, Structural)]
pub enum MdTagEnd {
    Heading(u8),
    Paragraph,
    Emphasis,
    Strong,
    Link,
    List,
    Item,
    Table,
    TableHead,
    TableRow,
    TableCell,
    BlockQuote,
    CodeBlock,
    Image,
    FootnoteDefinition,
    Other,
}

/// An event of the Markdown parser.
#[derive(Debug)]
pub enum MdEvent {
    Start(MdTag),
    End(MdTagEnd),
    Text(String),
    Code(String),
    InlineMath(String),
    DisplayMath(String),
    Html(String),
    InlineHtml(String),
    FootnoteReference(String),
    SoftBreak,
    HardBreak,
    Rule,
    /// An event this converter does not use.
    Other,
}

/// Model of an [`MdTag`].
pub enum MdTagV {
    Heading,
    Paragraph,
    Emphasis,
    Strong,
    Link { dest_url: Seq<char> },
    List(Option<u64>),
    Item,
    Table(Seq<ColumnAlignment>),
    TableHead,
    TableRow,
    TableCell,
    BlockQuote,
    CodeBlockFenced(Seq<char>),
    CodeBlockIndented,
    Image { dest_url: Seq<char> },
    FootnoteDefinition(Seq<char>),
    Other,
}

/// Model of an [`MdEvent`].
pub enum MdEventV {
    Start(MdTagV),
    End(MdTagEnd),
    Text(Seq<char>),
    Code(Seq<char>),
    InlineMath(Seq<char>),
    DisplayMath(Seq<char>),
    Html(Seq<char>),
    InlineHtml(Seq<char>),
    FootnoteReference(Seq<char>),
    SoftBreak,
    HardBreak,
    Rule,
    Other,
}

/// The model of a start tag.
pub open spec fn tag_v(t: MdTag) -> MdTagV {
    match t {
        MdTag::Heading => MdTagV::Heading,
        MdTag::Paragraph => MdTagV::Paragraph,
        MdTag::Emphasis => MdTagV::Emphasis,
        MdTag::Strong => MdTagV::Strong,
        MdTag::Link { dest_url } => MdTagV::Link { dest_url: dest_url@ },
        MdTag::List(s) => MdTagV::List(s),
        MdTag::Item => MdTagV::Item,
        MdTag::Table(a) => MdTagV::Table(a@),
        MdTag::TableHead => MdTagV::TableHead,
        MdTag::TableRow => MdTagV::TableRow,
        MdTag::TableCell => MdTagV::TableCell,
        MdTag::BlockQuote => MdTagV::BlockQuote,
        MdTag::CodeBlockFenced(l) => MdTagV::CodeBlockFenced(l@),
        MdTag::CodeBlockIndented => MdTagV::CodeBlockIndented,
        MdTag::Image { dest_url } => MdTagV::Image { dest_url: dest_url@ },
        MdTag::FootnoteDefinition(l) => MdTagV::FootnoteDefinition(l@),
        MdTag::Other => MdTagV::Other,
    }
}

/// The model of an event.
pub open spec fn event_v(e: MdEvent) -> MdEventV {
    match e {
        MdEvent::Start(t) => MdEventV::Start(tag_v(t)),
        MdEvent::End(t) => MdEventV::End(t),
        MdEvent::Text(s) => MdEventV::Text(s@),
        MdEvent::Code(s) => MdEventV::Code(s@),
        MdEvent::InlineMath(s) => MdEventV::InlineMath(s@),
        MdEvent::DisplayMath(s) => MdEventV::DisplayMath(s@),
        MdEvent::Html(s) => MdEventV::Html(s@),
        MdEvent::InlineHtml(s) => MdEventV::InlineHtml(s@),
        MdEvent::FootnoteReference(s) => MdEventV::FootnoteReference(s@),
        MdEvent::SoftBreak => MdEventV::SoftBreak,
        MdEvent::HardBreak => MdEventV::HardBreak,
        MdEvent::Rule => MdEventV::Rule,
        MdEvent::Other => MdEventV::Other,
    }
}

/// The models of a sequence of events.
pub open spec fn events_v(s: Seq<MdEvent>) -> Seq<MdEventV> {
    s.map_values(|e: MdEvent| event_v(e))
}

/// Model of a list being read.
#[verifier::ext_equal]
pub struct ListCtxV {
    pub ordered: bool,
    pub start: u64,
    pub items: Seq<ListItemV>,
    pub cur_inlines: Seq<InlineV>,
    pub cur_children: Seq<BlockV>,
}

/// Model of a table being read.
#[verifier::ext_equal]
pub struct TableV {
    pub headers: Seq<Seq<InlineV>>,
    pub rows: Seq<Seq<Seq<InlineV>>>,
    pub cur_row: Seq<Seq<InlineV>>,
    pub cur_cell: Seq<InlineV>,
    pub in_header: bool,
    pub alignments: Seq<ColumnAlignment>,
}

/// Model of the converter's state.
#[verifier::ext_equal]
pub struct ConvState {
    /// The finished top-level blocks.
    pub blocks: Seq<BlockV>,
    /// Inline elements being collected, innermost last.
    pub inline_stack: Seq<Seq<InlineV>>,
    pub list_stack: Seq<ListCtxV>,
    pub table: Option<TableV>,
    pub bq_stack: Seq<Seq<BlockV>>,
    pub image_path: Option<Seq<char>>,
    pub code_lang: Option<Seq<char>>,
    pub link_url: Option<Seq<char>>,
    pub span_stack: Seq<Seq<char>>,
    pub div_stack: Seq<Seq<char>>,
    pub div_blocks: Seq<Seq<BlockV>>,
    pub footnotes: Seq<(Seq<char>, Seq<BlockV>)>,
}

/// The state before the first event.
pub open spec fn conv_init() -> ConvState {
    ConvState {
        blocks: seq![],
        inline_stack: seq![],
        list_stack: seq![],
        table: None,
        bq_stack: seq![],
        image_path: None,
        code_lang: None,
        link_url: None,
        span_stack: seq![],
        div_stack: seq![],
        div_blocks: seq![],
        footnotes: seq![],
    }
}

/// An inline element goes to the innermost open inline container, else to the
/// open table cell, else to the text of the open list item; else it is dropped.
pub open spec fn conv_push_inline(st: ConvState, x: InlineV) -> ConvState {
    if st.inline_stack.len() > 0 {
        ConvState {
            inline_stack: st.inline_stack.drop_last().push(st.inline_stack.last().push(x)),
            ..st
        }
    } else if st.table is Some {
        let t = st.table->0;
        ConvState { table: Some(TableV { cur_cell: t.cur_cell.push(x), ..t }), ..st }
    } else if st.list_stack.len() > 0 {
        let l = st.list_stack.last();
        ConvState {
            list_stack: st.list_stack.drop_last().push(
                ListCtxV { cur_inlines: l.cur_inlines.push(x), ..l },
            ),
            ..st
        }
    } else {
        st
    }
}

/// Inline elements pushed one after another.
pub open spec fn conv_push_inlines(st: ConvState, s: Seq<InlineV>) -> ConvState
    decreases s.len(),
{
    if s.len() == 0 {
        st
    } else {
        conv_push_inline(conv_push_inlines(st, s.drop_last()), s.last())
    }
}

/// A finished block goes to the innermost open `<div>`, else block quote, else
/// footnote definition, else list item (a paragraph becomes the item's text when
/// it has none yet), else to the top level.
pub open spec fn conv_add_block(st: ConvState, b: BlockV) -> ConvState {
    if st.div_blocks.len() > 0 {
        ConvState { div_blocks: st.div_blocks.drop_last().push(st.div_blocks.last().push(b)), ..st }
    } else if st.bq_stack.len() > 0 {
        ConvState { bq_stack: st.bq_stack.drop_last().push(st.bq_stack.last().push(b)), ..st }
    } else if st.footnotes.len() > 0 {
        let f = st.footnotes.last();
        ConvState { footnotes: st.footnotes.drop_last().push((f.0, f.1.push(b))), ..st }
    } else if st.list_stack.len() > 0 {
        let l = st.list_stack.last();
        let l2 = match b {
            BlockV::Paragraph { content } => if l.cur_inlines.len() == 0 {
                ListCtxV { cur_inlines: content, ..l }
            } else {
                ListCtxV { cur_children: l.cur_children.push(b), ..l }
            },
            _ => ListCtxV { cur_children: l.cur_children.push(b), ..l },
        };
        ConvState { list_stack: st.list_stack.drop_last().push(l2), ..st }
    } else {
        ConvState { blocks: st.blocks.push(b), ..st }
    }
}

/// Removes the innermost inline container and gives its elements (none when
/// there is no open container).
pub open spec fn conv_pop_inlines(st: ConvState) -> (ConvState, Seq<InlineV>) {
    if st.inline_stack.len() > 0 {
        (ConvState { inline_stack: st.inline_stack.drop_last(), ..st }, st.inline_stack.last())
    } else {
        (st, seq![])
    }
}

/// The text of the `Text` elements of a code block, one after another.
pub open spec fn code_text(s: Seq<InlineV>) -> Seq<char>
    decreases s.len(),
{
    if s.len() == 0 {
        seq![]
    } else {
        code_text(s.drop_last()) + match s.last() {
            InlineV::Text(t) => t,
            _ => seq![],
        }
    }
}

/// The code text of one more element at the end of a sequence.
pub proof fn lemma_code_text_push(s: Seq<InlineV>, x: InlineV)
    ensures
        code_text(s.push(x)) == code_text(s) + match x {
            InlineV::Text(t) => t,
            _ => seq![],
        },
{
    assert(s.push(x).drop_last() =~= s);
}

/// Inline elements pushed one after another, one more at the end.
pub proof fn lemma_push_inlines_push(st: ConvState, s: Seq<InlineV>, x: InlineV)
    ensures
        conv_push_inlines(st, s.push(x)) == conv_push_inline(conv_push_inlines(st, s), x),
{
    assert(s.push(x).drop_last() =~= s);
}

/// The lines of an HTML block, one more at the end.
pub proof fn lemma_html_lines_push(st: ConvState, ls: Seq<Seq<char>>, l: Seq<char>)
    ensures
        conv_html_lines(st, ls.push(l)) == conv_html_line(conv_html_lines(st, ls), l),
{
    assert(ls.push(l).drop_last() =~= ls);
}

/// The events, one more at the end.
pub proof fn lemma_events_push(st: ConvState, es: Seq<MdEventV>, e: MdEventV)
    ensures
        conv_events(st, es.push(e)) == conv_event(conv_events(st, es), e),
{
    assert(es.push(e).drop_last() =~= es);
}

/// The language of a fenced code block: its info string, unless empty.
pub open spec fn fenced_lang(info: Seq<char>) -> Option<Seq<char>> {
    if info.len() == 0 {
        None
    } else {
        Some(info)
    }
}

/// What the start of an element does to the state.
pub open spec fn conv_start(st: ConvState, tag: MdTagV) -> ConvState {
    match tag {
        MdTagV::Heading => ConvState { inline_stack: st.inline_stack.push(seq![]), ..st },
        MdTagV::Paragraph => ConvState { inline_stack: st.inline_stack.push(seq![]), ..st },
        MdTagV::Emphasis => ConvState { inline_stack: st.inline_stack.push(seq![]), ..st },
        MdTagV::Strong => ConvState { inline_stack: st.inline_stack.push(seq![]), ..st },
        MdTagV::Link { dest_url } => ConvState {
            inline_stack: st.inline_stack.push(seq![]),
            link_url: Some(dest_url),
            ..st
        },
        MdTagV::List(start) => ConvState {
            list_stack: st.list_stack.push(
                ListCtxV {
                    ordered: start is Some,
                    start: match start {
                        Some(n) => n,
                        None => 1,
                    },
                    items: seq![],
                    cur_inlines: seq![],
                    cur_children: seq![],
                },
            ),
            ..st
        },
        MdTagV::Item => if st.list_stack.len() > 0 {
            let l = st.list_stack.last();
            ConvState {
                list_stack: st.list_stack.drop_last().push(
                    ListCtxV { cur_inlines: seq![], cur_children: seq![], ..l },
                ),
                ..st
            }
        } else {
            st
        },
        MdTagV::Table(alignments) => ConvState {
            table: Some(
                TableV {
                    headers: seq![],
                    rows: seq![],
                    cur_row: seq![],
                    cur_cell: seq![],
                    in_header: false,
                    alignments,
                },
            ),
            ..st
        },
        MdTagV::TableHead => match st.table {
            Some(t) => ConvState {
                table: Some(TableV { in_header: true, cur_row: seq![], ..t }),
                ..st
            },
            None => st,
        },
        MdTagV::TableRow => match st.table {
            Some(t) => ConvState { table: Some(TableV { cur_row: seq![], ..t }), ..st },
            None => st,
        },
        MdTagV::TableCell => match st.table {
            Some(t) => ConvState { table: Some(TableV { cur_cell: seq![], ..t }), ..st },
            None => st,
        },
        MdTagV::BlockQuote => ConvState { bq_stack: st.bq_stack.push(seq![]), ..st },
        MdTagV::CodeBlockFenced(info) => ConvState {
            code_lang: fenced_lang(info),
            inline_stack: st.inline_stack.push(seq![]),
            ..st
        },
        MdTagV::CodeBlockIndented => ConvState {
            code_lang: None,
            inline_stack: st.inline_stack.push(seq![]),
            ..st
        },
        MdTagV::Image { dest_url } => ConvState {
            inline_stack: st.inline_stack.push(seq![]),
            image_path: Some(dest_url),
            ..st
        },
        MdTagV::FootnoteDefinition(label) => ConvState {
            footnotes: st.footnotes.push((label, seq![])),
            ..st
        },
        MdTagV::Other => st,
    }
}

/// What the end of an element does to the state.
pub open spec fn conv_end(st: ConvState, tag: MdTagEnd) -> ConvState {
    match tag {
        MdTagEnd::Heading(level) => {
            let (s1, content) = conv_pop_inlines(st);
            conv_add_block(s1, BlockV::Heading { level, content })
        },
        MdTagEnd::Paragraph => {
            let (s1, content) = conv_pop_inlines(st);
            if is_page_break_content(content) {
                conv_add_block(s1, BlockV::PageBreak)
            } else if content.len() > 0 {
                conv_add_block(s1, BlockV::Paragraph { content })
            } else {
                s1
            }
        },
        MdTagEnd::Emphasis => {
            let (s1, children) = conv_pop_inlines(st);
            conv_push_inline(s1, InlineV::Italic(children))
        },
        MdTagEnd::Strong => {
            let (s1, children) = conv_pop_inlines(st);
            conv_push_inline(s1, InlineV::Bold(children))
        },
        MdTagEnd::Link => {
            let (s1, text) = conv_pop_inlines(st);
            let url = match s1.link_url {
                Some(u) => u,
                None => seq![],
            };
            let s2 = ConvState { link_url: None, ..s1 };
            if url.len() == 0 {
                conv_push_inlines(s2, text)
            } else {
                conv_push_inline(s2, InlineV::Link { text, url })
            }
        },
        MdTagEnd::List => if st.list_stack.len() > 0 {
            let l = st.list_stack.last();
            let s1 = ConvState { list_stack: st.list_stack.drop_last(), ..st };
            if l.ordered {
                conv_add_block(s1, BlockV::OrderedList { items: l.items, start: l.start })
            } else {
                conv_add_block(s1, BlockV::BulletList { items: l.items })
            }
        } else {
            st
        },
        MdTagEnd::Item => if st.list_stack.len() > 0 {
            let l = st.list_stack.last();
            let item = ListItemV { content: l.cur_inlines, children: l.cur_children };
            ConvState {
                list_stack: st.list_stack.drop_last().push(
                    ListCtxV {
                        items: l.items.push(item),
                        cur_inlines: seq![],
                        cur_children: seq![],
                        ..l
                    },
                ),
                ..st
            }
        } else {
            st
        },
        MdTagEnd::Table => match st.table {
            Some(t) => conv_add_block(
                ConvState { table: None, ..st },
                BlockV::Table { headers: t.headers, rows: t.rows, alignments: t.alignments },
            ),
            None => st,
        },
        MdTagEnd::TableHead => match st.table {
            Some(t) => ConvState {
                table: Some(TableV { headers: t.cur_row, cur_row: seq![], in_header: false, ..t }),
                ..st
            },
            None => st,
        },
        MdTagEnd::TableRow => match st.table {
            Some(t) => if !t.in_header {
                ConvState {
                    table: Some(TableV { rows: t.rows.push(t.cur_row), cur_row: seq![], ..t }),
                    ..st
                }
            } else {
                st
            },
            None => st,
        },
        MdTagEnd::TableCell => match st.table {
            Some(t) => ConvState {
                table: Some(TableV { cur_row: t.cur_row.push(t.cur_cell), cur_cell: seq![], ..t }),
                ..st
            },
            None => st,
        },
        MdTagEnd::BlockQuote => {
            if st.bq_stack.len() > 0 {
                let s1 = ConvState { bq_stack: st.bq_stack.drop_last(), ..st };
                conv_add_block(s1, BlockV::BlockQuote { children: st.bq_stack.last() })
            } else {
                conv_add_block(st, BlockV::BlockQuote { children: seq![] })
            }
        },
        MdTagEnd::CodeBlock => {
            let (s1, content) = conv_pop_inlines(st);
            let s2 = ConvState { code_lang: None, ..s1 };
            conv_add_block(s2, BlockV::CodeBlock { lang: s1.code_lang, code: code_text(content) })
        },
        MdTagEnd::Image => {
            let (s1, alt) = conv_pop_inlines(st);
            let path = match s1.image_path {
                Some(p) => p,
                None => seq![],
            };
            let s2 = ConvState { image_path: None, ..s1 };
            conv_add_block(s2, BlockV::Image { alt: plain_texts(alt), path })
        },
        MdTagEnd::FootnoteDefinition => if st.footnotes.len() > 0 {
            let f = st.footnotes.last();
            let s1 = ConvState { footnotes: st.footnotes.drop_last(), ..st };
            conv_add_block(s1, BlockV::FootnoteDefinition { label: f.0, children: f.1 })
        } else {
            st
        },
        MdTagEnd::Other => st,
    }
}

/// One line of an HTML block: `<div class="x">` opens a styled division and
/// `</div>` closes the innermost open one into a block.
pub open spec fn conv_html_line(st: ConvState, line: Seq<char>) -> ConvState {
    let t = trim(line);
    match div_class(t) {
        Some(c) => ConvState {
            div_stack: st.div_stack.push(c),
            div_blocks: st.div_blocks.push(seq![]),
            ..st
        },
        None => if starts_with(t, "</div>"@) && st.div_stack.len() > 0 {
            let class = st.div_stack.last();
            let s1 = ConvState { div_stack: st.div_stack.drop_last(), ..st };
            if s1.div_blocks.len() > 0 {
                let s2 = ConvState { div_blocks: s1.div_blocks.drop_last(), ..s1 };
                conv_add_block(s2, BlockV::StyledDiv { class, children: s1.div_blocks.last() })
            } else {
                conv_add_block(s1, BlockV::StyledDiv { class, children: seq![] })
            }
        } else {
            st
        },
    }
}

/// The lines of an HTML block, one after another.
pub open spec fn conv_html_lines(st: ConvState, ls: Seq<Seq<char>>) -> ConvState
    decreases ls.len(),
{
    if ls.len() == 0 {
        st
    } else {
        conv_html_line(conv_html_lines(st, ls.drop_last()), ls.last())
    }
}

/// Inline HTML: `<span class="x">` opens a styled span and `</span>` closes
/// the innermost open one into an inline element.
pub open spec fn conv_inline_html(st: ConvState, html: Seq<char>) -> ConvState {
    let t = trim(html);
    match span_class(t) {
        Some(c) => ConvState {
            span_stack: st.span_stack.push(c),
            inline_stack: st.inline_stack.push(seq![]),
            ..st
        },
        None => if t == "</span>"@ && st.span_stack.len() > 0 {
            let class = st.span_stack.last();
            let s1 = ConvState { span_stack: st.span_stack.drop_last(), ..st };
            let (s2, children) = conv_pop_inlines(s1);
            conv_push_inline(s2, InlineV::StyledSpan { class, children })
        } else {
            st
        },
    }
}

/// What one event does to the state.
pub open spec fn conv_event(st: ConvState, e: MdEventV) -> ConvState {
    match e {
        MdEventV::Start(t) => conv_start(st, t),
        MdEventV::End(t) => conv_end(st, t),
        MdEventV::Text(t) => conv_push_inline(st, InlineV::Text(t)),
        MdEventV::Code(t) => conv_push_inline(st, InlineV::Code(t)),
        MdEventV::SoftBreak => conv_push_inline(st, InlineV::SoftBreak),
        MdEventV::HardBreak => conv_push_inline(st, InlineV::HardBreak),
        MdEventV::InlineHtml(h) => conv_inline_html(st, h),
        MdEventV::Html(h) => conv_html_lines(st, lines(h)),
        MdEventV::InlineMath(t) => conv_push_inline(st, InlineV::InlineMath(t)),
        MdEventV::DisplayMath(t) => conv_add_block(st, BlockV::DisplayMath(t)),
        MdEventV::FootnoteReference(l) => conv_push_inline(st, InlineV::FootnoteReference(l)),
        MdEventV::Rule => conv_add_block(st, BlockV::ThematicBreak),
        MdEventV::Other => st,
    }
}

/// The events, one after another.
pub open spec fn conv_events(st: ConvState, es: Seq<MdEventV>) -> ConvState
    decreases es.len(),
{
    if es.len() == 0 {
        st
    } else {
        conv_event(conv_events(st, es.drop_last()), es.last())
    }
}

/// The blocks that a stream of parser events describes.
pub open spec fn spec_convert(es: Seq<MdEventV>) -> Seq<BlockV> {
    conv_events(conv_init(), es).blocks
}

struct ListContext {
    ordered: bool,
    start: u64,
    items: Vec<ListItem>,
    current_item_inlines: Vec<Inline>,
    current_item_children: Vec<Block>,
}

struct TableState {
    headers: Vec<Vec<Inline>>,
    rows: Vec<Vec<Vec<Inline>>>,
    current_row: Vec<Vec<Inline>>,
    current_cell: Vec<Inline>,
    in_header: bool,
    alignments: Vec<ColumnAlignment>,
}

spec fn ctx_v(c: ListContext) -> ListCtxV {
    ListCtxV {
        ordered: c.ordered,
        start: c.start,
        items: items_v(c.items@),
        cur_inlines: inlines_v(c.current_item_inlines@),
        cur_children: blocks_v(c.current_item_children@),
    }
}

spec fn table_v(t: TableState) -> TableV {
    TableV {
        headers: cells_v(t.headers@),
        rows: rows_v(t.rows@),
        cur_row: cells_v(t.current_row@),
        cur_cell: inlines_v(t.current_cell@),
        in_header: t.in_header,
        alignments: t.alignments@,
    }
}

spec fn opt_str_v(o: Option<String>) -> Option<Seq<char>> {
    match o {
        Some(s) => Some(s@),
        None => None,
    }
}

/// Turns a stream of parser events into blocks.
pub struct EventConverter {
    blocks: Vec<Block>,
    inline_stack: Vec<Vec<Inline>>,
    list_stack: Vec<ListContext>,
    table_state: Option<TableState>,
    block_quote_stack: Vec<Vec<Block>>,
    current_image_path: Option<String>,
    current_code_lang: Option<String>,
    current_link_url: Option<String>,
    span_class_stack: Vec<String>,
    div_class_stack: Vec<String>,
    div_blocks_stack: Vec<Vec<Block>>,
    footnote_stack: Vec<(String, Vec<Block>)>,
}

impl View for EventConverter {
    type V = ConvState;

    closed spec fn view(&self) -> ConvState {
        ConvState {
            blocks: blocks_v(self.blocks@),
            inline_stack: self.inline_stack@.map_values(|v: Vec<Inline>| inlines_v(v@)),
            list_stack: self.list_stack@.map_values(|c: ListContext| ctx_v(c)),
            table: match self.table_state {
                Some(t) => Some(table_v(t)),
                None => None,
            },
            bq_stack: self.block_quote_stack@.map_values(|v: Vec<Block>| blocks_v(v@)),
            image_path: opt_str_v(self.current_image_path),
            code_lang: opt_str_v(self.current_code_lang),
            link_url: opt_str_v(self.current_link_url),
            span_stack: self.span_class_stack@.map_values(|s: String| s@),
            div_stack: self.div_class_stack@.map_values(|s: String| s@),
            div_blocks: self.div_blocks_stack@.map_values(|v: Vec<Block>| blocks_v(v@)),
            footnotes: self.footnote_stack@.map_values(
                |p: (String, Vec<Block>)| (p.0@, blocks_v(p.1@)),
            ),
        }
    }
}

impl EventConverter {
    /// A converter that has seen no event.
    pub fn new() -> (r: Self)
        ensures
            r@ == conv_init(),
    {
        let r = EventConverter {
            blocks: Vec::new(),
            inline_stack: Vec::new(),
            list_stack: Vec::new(),
            table_state: None,
            block_quote_stack: Vec::new(),
            current_image_path: None,
            current_code_lang: None,
            current_link_url: None,
            span_class_stack: Vec::new(),
            div_class_stack: Vec::new(),
            div_blocks_stack: Vec::new(),
            footnote_stack: Vec::new(),
        };
        assert(r@ =~= conv_init());
        r
    }

    /// Adds an inline element where [`conv_push_inline`] says.
    pub fn push_inline(&mut self, inline: Inline)
        ensures
            final(self)@ == conv_push_inline(old(self)@, inline_v(inline)),
    {
        broadcast use lemma_inlines_v_push;

        if self.inline_stack.len() > 0 {
            let mut top = self.inline_stack.pop().unwrap();
            top.push(inline);
            self.inline_stack.push(top);
        } else if self.table_state.is_some() {
            let mut t = self.table_state.take().unwrap();
            t.current_cell.push(inline);
            self.table_state = Some(t);
        } else if self.list_stack.len() > 0 {
            let mut c = self.list_stack.pop().unwrap();
            c.current_item_inlines.push(inline);
            self.list_stack.push(c);
        }
        assert(self@ =~= conv_push_inline(old(self)@, inline_v(inline)));
    }

    /// Adds a finished block where [`conv_add_block`] says.
    pub fn add_block(&mut self, block: Block)
        ensures
            final(self)@ == conv_add_block(old(self)@, block_v(block)),
    {
        broadcast use lemma_blocks_v_push;

        let ghost bv = block_v(block);
        if self.div_blocks_stack.len() > 0 {
            let mut top = self.div_blocks_stack.pop().unwrap();
            top.push(block);
            self.div_blocks_stack.push(top);
        } else if self.block_quote_stack.len() > 0 {
            let mut top = self.block_quote_stack.pop().unwrap();
            top.push(block);
            self.block_quote_stack.push(top);
        } else if self.footnote_stack.len() > 0 {
            let (label, mut children) = self.footnote_stack.pop().unwrap();
            children.push(block);
            self.footnote_stack.push((label, children));
        } else if self.list_stack.len() > 0 {
            let mut c = self.list_stack.pop().unwrap();
            match block {
                Block::Paragraph { content } => {
                    if c.current_item_inlines.len() == 0 {
                        c.current_item_inlines = content;
                    } else {
                        c.current_item_children.push(Block::Paragraph { content });
                    }
                },
                other => {
                    c.current_item_children.push(other);
                },
            }
            self.list_stack.push(c);
        } else {
            self.blocks.push(block);
        }
        assert(self@ =~= conv_add_block(old(self)@, bv));
    }

    /// Opens the element that `tag` starts, as [`conv_start`] says.
    pub fn handle_start(&mut self, tag: MdTag)
        ensures
            final(self)@ == conv_start(old(self)@, tag_v(tag)),
    {
        let ghost tv = tag_v(tag);
        match tag {
            MdTag::Heading => {
                self.inline_stack.push(Vec::new());
            },
            MdTag::Paragraph => {
                self.inline_stack.push(Vec::new());
            },
            MdTag::Emphasis => {
                self.inline_stack.push(Vec::new());
            },
            MdTag::Strong => {
                self.inline_stack.push(Vec::new());
            },
            MdTag::Link { dest_url } => {
                self.inline_stack.push(Vec::new());
                self.current_link_url = Some(dest_url);
            },
            MdTag::List(start) => {
                let ordered = start.is_some();
                let start_num = match start {
                    Some(n) => n,
                    None => 1,
                };
                self.list_stack.push(
                    ListContext {
                        ordered,
                        start: start_num,
                        items: Vec::new(),
                        current_item_inlines: Vec::new(),
                        current_item_children: Vec::new(),
                    },
                );
            },
            MdTag::Item => {
                if self.list_stack.len() > 0 {
                    let mut c = self.list_stack.pop().unwrap();
                    c.current_item_inlines = Vec::new();
                    c.current_item_children = Vec::new();
                    self.list_stack.push(c);
                }
            },
            MdTag::Table(alignments) => {
                self.table_state = Some(
                    TableState {
                        headers: Vec::new(),
                        rows: Vec::new(),
                        current_row: Vec::new(),
                        current_cell: Vec::new(),
                        in_header: false,
                        alignments,
                    },
                );
            },
            MdTag::TableHead => {
                if self.table_state.is_some() {
                    let mut t = self.table_state.take().unwrap();
                    t.in_header = true;
                    t.current_row = Vec::new();
                    self.table_state = Some(t);
                }
            },
            MdTag::TableRow => {
                if self.table_state.is_some() {
                    let mut t = self.table_state.take().unwrap();
                    t.current_row = Vec::new();
                    self.table_state = Some(t);
                }
            },
            MdTag::TableCell => {
                if self.table_state.is_some() {
                    let mut t = self.table_state.take().unwrap();
                    t.current_cell = Vec::new();
                    self.table_state = Some(t);
                }
            },
            MdTag::BlockQuote => {
                self.block_quote_stack.push(Vec::new());
            },
            MdTag::CodeBlockFenced(info) => {
                self.current_code_lang = if info.as_str().is_empty() {
                    None
                } else {
                    Some(info)
                };
                self.inline_stack.push(Vec::new());
            },
            MdTag::CodeBlockIndented => {
                self.current_code_lang = None;
                self.inline_stack.push(Vec::new());
            },
            MdTag::Image { dest_url } => {
                self.inline_stack.push(Vec::new());
                self.current_image_path = Some(dest_url);
            },
            MdTag::FootnoteDefinition(label) => {
                self.footnote_stack.push((label, Vec::new()));
            },
            MdTag::Other => {},
        }
        assert(self@ =~= conv_start(old(self)@, tv));
    }

    /// Removes the innermost inline container, as [`conv_pop_inlines`] says.
    fn pop_inlines(&mut self) -> (r: Vec<Inline>)
        ensures
            (final(self)@, inlines_v(r@)) == conv_pop_inlines(old(self)@),
    {
        if self.inline_stack.len() > 0 {
            let top = self.inline_stack.pop().unwrap();
            assert(self@ =~= conv_pop_inlines(old(self)@).0);
            top
        } else {
            assert(inlines_v(Seq::<Inline>::empty()) =~= Seq::<InlineV>::empty());
            Vec::new()
        }
    }


    fn code_of(content: &Vec<Inline>) -> (r: String)
        ensures
            r@ == code_text(inlines_v(content@)),
    {
        let mut v: Vec<char> = Vec::new();
        let mut k: usize = 0;
        while k < content.len()
            invariant
                k <= content.len(),
                v@ == code_text(inlines_v(content@.take(k as int))),
            decreases content.len() - k,
        {
            proof {
                assert(content@.take(k + 1) =~= content@.take(k as int).push(content@[k as int]));
                lemma_inlines_v_push(content@.take(k as int), content@[k as int]);
                lemma_code_text_push(inlines_v(content@.take(k as int)), inline_v(content@[k as int]));
            }
            match &content[k] {
                Inline::Text(t) => {
                    let c = chars_of(t.as_str());
                    extend_chars(&mut v, &c);
                },
                _ => {
                    assert(v@ =~= v@ + Seq::<char>::empty());
                },
            }
            k = k + 1;
        }
        assert(content@.take(content.len() as int) =~= content@);
        string_of(&v)
    }

    fn plain_of(content: &Vec<Inline>) -> (r: String)
        ensures
            r@ == plain_texts(inlines_v(content@)),
    {
        let mut v: Vec<char> = Vec::new();
        append_plain_texts(content, &mut v);
        assert(v@ =~= plain_texts(inlines_v(content@)));
        string_of(&v)
    }

    /// Closes the element that `tag` ends, as [`conv_end`] says.
    pub fn handle_end(&mut self, tag: MdTagEnd)
        ensures
            final(self)@ == conv_end(old(self)@, tag),
    {
        match tag {
            MdTagEnd::Heading(level) => {
                let content = self.pop_inlines();
                self.add_block(Block::Heading { level, content });
            },
            MdTagEnd::Paragraph => {
                let content = self.pop_inlines();
                proof {
                    lemma_inlines_v_index(content@);
                }
                if is_page_break_paragraph(&content) {
                    self.add_block(Block::PageBreak);
                } else if content.len() > 0 {
                    self.add_block(Block::Paragraph { content });
                }
            },
            MdTagEnd::Emphasis => {
                let children = self.pop_inlines();
                self.push_inline(Inline::Italic(children));
            },
            MdTagEnd::Strong => {
                let children = self.pop_inlines();
                self.push_inline(Inline::Bold(children));
            },
            MdTagEnd::Link => {
                let text = self.pop_inlines();
                let url = match self.current_link_url.take() {
                    Some(u) => u,
                    None => String::new(),
                };
                if url.as_str().is_empty() {
                    let ghost s2 = self@;
                    let ghost tv = inlines_v(text@);
                    proof {
                        lemma_inlines_v_index(text@);
                    }
                    for inline in it: text
                        invariant
                            tv == inlines_v(it.seq()),
                            tv.len() == it.seq().len(),
                            forall|j: int| 0 <= j < tv.len() ==> tv[j] == inline_v(#[trigger] it.seq()[j]),
                            self@ == conv_push_inlines(s2, tv.take(it.index())),
                    {
                        proof {
                            assert(tv.take(it.index() + 1) =~= tv.take(it.index()).push(tv[it.index()]));
                            lemma_push_inlines_push(s2, tv.take(it.index()), tv[it.index()]);
                        }
                        self.push_inline(inline);
                    }
                    assert(tv.take(tv.len() as int) =~= tv);
                } else {
                    self.push_inline(Inline::Link { text, url });
                }
            },
            MdTagEnd::List => {
                if self.list_stack.len() > 0 {
                    let c = self.list_stack.pop().unwrap();
                    if c.ordered {
                        self.add_block(Block::OrderedList { items: c.items, start: c.start });
                    } else {
                        self.add_block(Block::BulletList { items: c.items });
                    }
                }
            },
            MdTagEnd::Item => {
                if self.list_stack.len() > 0 {
                    let c = self.list_stack.pop().unwrap();
                    let ListContext {
                        ordered,
                        start,
                        mut items,
                        current_item_inlines,
                        current_item_children,
                    } = c;
                    let item = ListItem {
                        content: current_item_inlines,
                        children: current_item_children,
                    };
                    proof {
                        lemma_items_v_push(items@, item);
                    }
                    items.push(item);
                    self.list_stack.push(
                        ListContext {
                            ordered,
                            start,
                            items,
                            current_item_inlines: Vec::new(),
                            current_item_children: Vec::new(),
                        },
                    );
                }
            },
            MdTagEnd::Table => {
                if self.table_state.is_some() {
                    let t = self.table_state.take().unwrap();
                    self.add_block(
                        Block::Table { headers: t.headers, rows: t.rows, alignments: t.alignments },
                    );
                }
            },
            MdTagEnd::TableHead => {
                if self.table_state.is_some() {
                    let t = self.table_state.take().unwrap();
                    let TableState { headers, rows, current_row, current_cell, in_header, alignments } =
                        t;
                    self.table_state = Some(
                        TableState {
                            headers: current_row,
                            rows,
                            current_row: Vec::new(),
                            current_cell,
                            in_header: false,
                            alignments,
                        },
                    );
                }
            },
            MdTagEnd::TableRow => {
                if self.table_state.is_some() {
                    let t = self.table_state.take().unwrap();
                    if !t.in_header {
                        let TableState {
                            headers,
                            mut rows,
                            current_row,
                            current_cell,
                            in_header,
                            alignments,
                        } = t;
                        proof {
                            lemma_rows_v_push(rows@, current_row);
                        }
                        rows.push(current_row);
                        self.table_state = Some(
                            TableState {
                                headers,
                                rows,
                                current_row: Vec::new(),
                                current_cell,
                                in_header,
                                alignments,
                            },
                        );
                    } else {
                        self.table_state = Some(t);
                    }
                }
            },
            MdTagEnd::TableCell => {
                if self.table_state.is_some() {
                    let t = self.table_state.take().unwrap();
                    let TableState {
                        headers,
                        rows,
                        mut current_row,
                        current_cell,
                        in_header,
                        alignments,
                    } = t;
                    proof {
                        lemma_cells_v_push(current_row@, current_cell);
                    }
                    current_row.push(current_cell);
                    self.table_state = Some(
                        TableState {
                            headers,
                            rows,
                            current_row,
                            current_cell: Vec::new(),
                            in_header,
                            alignments,
                        },
                    );
                }
            },
            MdTagEnd::BlockQuote => {
                if self.block_quote_stack.len() > 0 {
                    let children = self.block_quote_stack.pop().unwrap();
                    self.add_block(Block::BlockQuote { children });
                } else {
                    self.add_block(Block::BlockQuote { children: Vec::new() });
                }
            },
            MdTagEnd::CodeBlock => {
                let content = self.pop_inlines();
                let code = Self::code_of(&content);
                let lang = self.current_code_lang.take();
                self.add_block(Block::CodeBlock { lang, code });
            },
            MdTagEnd::Image => {
                let alt_inlines = self.pop_inlines();
                let alt = Self::plain_of(&alt_inlines);
                let path = match self.current_image_path.take() {
                    Some(p) => p,
                    None => String::new(),
                };
                self.add_block(Block::Image { alt, path });
            },
            MdTagEnd::FootnoteDefinition => {
                if self.footnote_stack.len() > 0 {
                    let (label, children) = self.footnote_stack.pop().unwrap();
                    self.add_block(Block::FootnoteDefinition { label, children });
                }
            },
            MdTagEnd::Other => {},
        }
    }


    fn html_line(&mut self, line: &Vec<char>)
        ensures
            final(self)@ == conv_html_line(old(self)@, line@),
    {
        let t = trim_chars(line);
        let ts = string_of(&t);
        match extract_div_class(ts.as_str()) {
            Some(class) => {
                self.div_class_stack.push(class);
                self.div_blocks_stack.push(Vec::new());
                assert(self@ =~= conv_html_line(old(self)@, line@));
            },
            None => {
                let close = chars_of("</div>");
                if starts_with_chars(&t, &close) && self.div_class_stack.len() > 0 {
                    let class = self.div_class_stack.pop().unwrap();
                    let ghost s1 = self@;
                    assert(s1 =~= ConvState {
                        div_stack: old(self)@.div_stack.drop_last(),
                        ..old(self)@
                    });
                    if self.div_blocks_stack.len() > 0 {
                        let children = self.div_blocks_stack.pop().unwrap();
                        assert(self@ =~= ConvState {
                            div_blocks: s1.div_blocks.drop_last(),
                            ..s1
                        });
                        self.add_block(Block::StyledDiv { class, children });
                    } else {
                        proof {
                            assert(blocks_v(Seq::<Block>::empty()) =~= Seq::<BlockV>::empty());
                        }
                        self.add_block(Block::StyledDiv { class, children: Vec::new() });
                    }
                }
            },
        }
    }

    /// Reads the `<div class="...">` and `</div>` lines of an HTML block.
    pub fn handle_block_html(&mut self, html: &str)
        ensures
            final(self)@ == conv_html_lines(old(self)@, lines(html@)),
    {
        let c = chars_of(html);
        let ls = lines_of(&c);
        let ghost s0 = self@;
        let ghost lv = lines(html@);
        let mut k: usize = 0;
        while k < ls.len()
            invariant
                k <= ls.len() == lv.len(),
                lv == lines(html@),
                forall|j: int| 0 <= j < ls@.len() ==> #[trigger] ls@[j]@ == lv[j],
                self@ == conv_html_lines(s0, lv.take(k as int)),
            decreases ls.len() - k,
        {
            proof {
                assert(lv.take(k + 1) =~= lv.take(k as int).push(lv[k as int]));
                lemma_html_lines_push(s0, lv.take(k as int), lv[k as int]);
            }
            self.html_line(&ls[k]);
            k = k + 1;
        }
        assert(lv.take(lv.len() as int) =~= lv);
    }

    /// Reads an opening `<span class="...">` or a closing `</span>` tag.
    pub fn handle_inline_html(&mut self, html: &str)
        ensures
            final(self)@ == conv_inline_html(old(self)@, html@),
    {
        let h = chars_of(html);
        let t = trim_chars(&h);
        let ts = string_of(&t);
        match extract_span_class(ts.as_str()) {
            Some(class) => {
                self.span_class_stack.push(class);
                self.inline_stack.push(Vec::new());
                assert(self@ =~= conv_inline_html(old(self)@, html@));
            },
            None => {
                let close = chars_of("</span>");
                if eq_chars(&t, &close) && self.span_class_stack.len() > 0 {
                    let class = self.span_class_stack.pop().unwrap();
                    let ghost s1 = self@;
                    assert(s1 =~= ConvState {
                        span_stack: old(self)@.span_stack.drop_last(),
                        ..old(self)@
                    });
                    let children = self.pop_inlines();
                    self.push_inline(Inline::StyledSpan { class, children });
                }
            },
        }
    }

    /// Applies one event, as [`conv_event`] says.
    pub fn process_event(&mut self, event: MdEvent)
        ensures
            final(self)@ == conv_event(old(self)@, event_v(event)),
    {
        match event {
            MdEvent::Start(tag) => self.handle_start(tag),
            MdEvent::End(tag) => self.handle_end(tag),
            MdEvent::Text(t) => self.push_inline(Inline::Text(t)),
            MdEvent::Code(t) => self.push_inline(Inline::Code(t)),
            MdEvent::SoftBreak => self.push_inline(Inline::SoftBreak),
            MdEvent::HardBreak => self.push_inline(Inline::HardBreak),
            MdEvent::InlineHtml(h) => self.handle_inline_html(h.as_str()),
            MdEvent::Html(h) => self.handle_block_html(h.as_str()),
            MdEvent::InlineMath(t) => self.push_inline(Inline::InlineMath(t)),
            MdEvent::DisplayMath(t) => self.add_block(Block::DisplayMath(t)),
            MdEvent::FootnoteReference(l) => self.push_inline(Inline::FootnoteReference(l)),
            MdEvent::Rule => self.add_block(Block::ThematicBreak),
            MdEvent::Other => {},
        }
    }

    /// Applies all `events` in order and gives the top-level blocks.
    pub fn convert(self, events: Vec<MdEvent>) -> (r: Vec<Block>)
        ensures
            blocks_v(r@) == conv_events(self@, events_v(events@)).blocks,
    {
        let mut me = self;
        let ghost s0 = self@;
        let ghost ev = events_v(events@);
        for event in it: events
            invariant
                ev == events_v(it.seq()),
                me@ == conv_events(s0, ev.take(it.index())),
        {
            proof {
                assert(ev.take(it.index() + 1) =~= ev.take(it.index()).push(ev[it.index()]));
                lemma_events_push(s0, ev.take(it.index()), ev[it.index()]);
            }
            me.process_event(event);
        }
        assert(ev.take(ev.len() as int) =~= ev);
        me.blocks
    }

}

} // verus!
