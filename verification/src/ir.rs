//! The intermediate representation of a Markdown document, and its
//! mathematical model (`...V` types, with text as `Seq<char>`).
use vstd::prelude::*;
use crate::text::{chars_of, extend_chars, string_of};

verus! {

/// An inline element of a paragraph, heading, list item or table cell.
#[derive(Debug)]
pub enum Inline {
    Text(String),
    Code(String),
    Bold(Vec<Inline>),
    Italic(Vec<Inline>),
    Link { text: Vec<Inline>, url: String },
    SoftBreak,
    HardBreak,
    StyledSpan { class: String, children: Vec<Inline> },
    FootnoteReference(String),
    InlineMath(String),
}

/// The alignment of a table column.
#[derive(Debug, Clone, Copy, PartialEq, Eq, Structural)]
pub enum ColumnAlignment {
    Unspecified,
    Left,
    Center,
    Right,
}

/// An item of a bulleted or ordered list: its own text and the blocks nested in it.
#[derive(Debug)]
pub struct ListItem {
    pub content: Vec<Inline>,
    pub children: Vec<Block>,
}

/// A block of the document.
#[derive(Debug)]
pub enum Block {
    Heading { level: u8, content: Vec<Inline> },
    Paragraph { content: Vec<Inline> },
    BulletList { items: Vec<ListItem> },
    OrderedList { items: Vec<ListItem>, start: u64 },
    Table { headers: Vec<Vec<Inline>>, rows: Vec<Vec<Vec<Inline>>>, alignments: Vec<ColumnAlignment> },
    CodeBlock { lang: Option<String>, code: String },
    Image { alt: String, path: String },
    BlockQuote { children: Vec<Block> },
    PageBreak,
    ThematicBreak,
    StyledDiv { class: String, children: Vec<Block> },
    FootnoteDefinition { label: String, children: Vec<Block> },
    DisplayMath(String),
}

/// Model of an [`Inline`].
pub enum InlineV {
    Text(Seq<char>),
    Code(Seq<char>),
    Bold(Seq<InlineV>),
    Italic(Seq<InlineV>),
    Link { text: Seq<InlineV>, url: Seq<char> },
    SoftBreak,
    HardBreak,
    StyledSpan { class: Seq<char>, children: Seq<InlineV> },
    FootnoteReference(Seq<char>),
    InlineMath(Seq<char>),
}

/// Model of a [`ListItem`].
pub struct ListItemV {
    pub content: Seq<InlineV>,
    pub children: Seq<BlockV>,
}

/// Model of a [`Block`].
pub enum BlockV {
    Heading { level: u8, content: Seq<InlineV> },
    Paragraph { content: Seq<InlineV> },
    BulletList { items: Seq<ListItemV> },
    OrderedList { items: Seq<ListItemV>, start: u64 },
    Table { headers: Seq<Seq<InlineV>>, rows: Seq<Seq<Seq<InlineV>>>, alignments: Seq<ColumnAlignment> },
    CodeBlock { lang: Option<Seq<char>>, code: Seq<char> },
    Image { alt: Seq<char>, path: Seq<char> },
    BlockQuote { children: Seq<BlockV> },
    PageBreak,
    ThematicBreak,
    StyledDiv { class: Seq<char>, children: Seq<BlockV> },
    FootnoteDefinition { label: Seq<char>, children: Seq<BlockV> },
    DisplayMath(Seq<char>),
}

/// The model of an inline element.
pub open spec fn inline_v(i: Inline) -> InlineV
    decreases i,
{
    match i {
        Inline::Text(s) => InlineV::Text(s@),
        Inline::Code(s) => InlineV::Code(s@),
        Inline::Bold(ch) => InlineV::Bold(inlines_v(ch@)),
        Inline::Italic(ch) => InlineV::Italic(inlines_v(ch@)),
        Inline::Link { text, url } => InlineV::Link { text: inlines_v(text@), url: url@ },
        Inline::SoftBreak => InlineV::SoftBreak,
        Inline::HardBreak => InlineV::HardBreak,
        Inline::StyledSpan { class, children } => InlineV::StyledSpan {
            class: class@,
            children: inlines_v(children@),
        },
        Inline::FootnoteReference(s) => InlineV::FootnoteReference(s@),
        Inline::InlineMath(s) => InlineV::InlineMath(s@),
    }
}

/// The models of a sequence of inline elements.
pub open spec fn inlines_v(s: Seq<Inline>) -> Seq<InlineV>
    decreases s,
{
    if s.len() == 0 {
        seq![]
    } else {
        inlines_v(s.subrange(0, s.len() - 1)).push(inline_v(s[s.len() - 1]))
    }
}

/// The models of a sequence of table cells.
pub open spec fn cells_v(s: Seq<Vec<Inline>>) -> Seq<Seq<InlineV>>
    decreases s.len(),
{
    if s.len() == 0 {
        seq![]
    } else {
        cells_v(s.drop_last()).push(inlines_v(s.last()@))
    }
}

/// The models of a sequence of table rows.
pub open spec fn rows_v(s: Seq<Vec<Vec<Inline>>>) -> Seq<Seq<Seq<InlineV>>>
    decreases s.len(),
{
    if s.len() == 0 {
        seq![]
    } else {
        rows_v(s.drop_last()).push(cells_v(s.last()@))
    }
}

/// The model of a block.
pub open spec fn block_v(b: Block) -> BlockV
    decreases b,
{
    match b {
        Block::Heading { level, content } => BlockV::Heading { level, content: inlines_v(content@) },
        Block::Paragraph { content } => BlockV::Paragraph { content: inlines_v(content@) },
        Block::BulletList { items } => BlockV::BulletList { items: items_v(items@) },
        Block::OrderedList { items, start } => BlockV::OrderedList { items: items_v(items@), start },
        Block::Table { headers, rows, alignments } => BlockV::Table {
            headers: cells_v(headers@),
            rows: rows_v(rows@),
            alignments: alignments@,
        },
        Block::CodeBlock { lang, code } => BlockV::CodeBlock {
            lang: match lang {
                Some(l) => Some(l@),
                None => None,
            },
            code: code@,
        },
        Block::Image { alt, path } => BlockV::Image { alt: alt@, path: path@ },
        Block::BlockQuote { children } => BlockV::BlockQuote { children: blocks_v(children@) },
        Block::PageBreak => BlockV::PageBreak,
        Block::ThematicBreak => BlockV::ThematicBreak,
        Block::StyledDiv { class, children } => BlockV::StyledDiv {
            class: class@,
            children: blocks_v(children@),
        },
        Block::FootnoteDefinition { label, children } => BlockV::FootnoteDefinition {
            label: label@,
            children: blocks_v(children@),
        },
        Block::DisplayMath(s) => BlockV::DisplayMath(s@),
    }
}

/// The models of a sequence of blocks.
pub open spec fn blocks_v(s: Seq<Block>) -> Seq<BlockV>
    decreases s,
{
    if s.len() == 0 {
        seq![]
    } else {
        blocks_v(s.subrange(0, s.len() - 1)).push(block_v(s[s.len() - 1]))
    }
}

/// The model of a list item.
pub open spec fn item_v(it: ListItem) -> ListItemV
    decreases it,
{
    ListItemV { content: inlines_v(it.content@), children: blocks_v(it.children@) }
}

/// The models of a sequence of list items.
pub open spec fn items_v(s: Seq<ListItem>) -> Seq<ListItemV>
    decreases s,
{
    if s.len() == 0 {
        seq![]
    } else {
        items_v(s.subrange(0, s.len() - 1)).push(item_v(s[s.len() - 1]))
    }
}

/// Model of one more inline element at the end of a sequence.
pub broadcast proof fn lemma_inlines_v_push(s: Seq<Inline>, x: Inline)
    ensures
        #[trigger] inlines_v(s.push(x)) == inlines_v(s).push(inline_v(x)),
{
    assert(s.push(x).subrange(0, s.len() as int) =~= s);
}

/// The models of a sequence of inline elements, element by element.
pub broadcast proof fn lemma_inlines_v_index(s: Seq<Inline>)
    ensures
        #[trigger] inlines_v(s).len() == s.len(),
        forall|k: int| 0 <= k < s.len() ==> #[trigger] inlines_v(s)[k] == inline_v(s[k]),
    decreases s.len(),
{
    if s.len() > 0 {
        lemma_inlines_v_index(s.subrange(0, s.len() - 1));
    }
}

/// Model of one more block at the end of a sequence.
pub broadcast proof fn lemma_blocks_v_push(s: Seq<Block>, x: Block)
    ensures
        #[trigger] blocks_v(s.push(x)) == blocks_v(s).push(block_v(x)),
{
    assert(s.push(x).subrange(0, s.len() as int) =~= s);
}

/// The models of a sequence of blocks, element by element.
pub broadcast proof fn lemma_blocks_v_index(s: Seq<Block>)
    ensures
        #[trigger] blocks_v(s).len() == s.len(),
        forall|k: int| 0 <= k < s.len() ==> #[trigger] blocks_v(s)[k] == block_v(s[k]),
    decreases s.len(),
{
    if s.len() > 0 {
        lemma_blocks_v_index(s.subrange(0, s.len() - 1));
    }
}

/// The models of a sequence of list items, element by element.
pub broadcast proof fn lemma_items_v_index(s: Seq<ListItem>)
    ensures
        #[trigger] items_v(s).len() == s.len(),
        forall|k: int| 0 <= k < s.len() ==> #[trigger] items_v(s)[k] == item_v(s[k]),
    decreases s.len(),
{
    if s.len() > 0 {
        lemma_items_v_index(s.subrange(0, s.len() - 1));
    }
}

/// Model of one more list item at the end of a sequence.
pub broadcast proof fn lemma_items_v_push(s: Seq<ListItem>, x: ListItem)
    ensures
        #[trigger] items_v(s.push(x)) == items_v(s).push(item_v(x)),
{
    assert(s.push(x).subrange(0, s.len() as int) =~= s);
}

/// Model of one more cell at the end of a row.
pub broadcast proof fn lemma_cells_v_push(s: Seq<Vec<Inline>>, x: Vec<Inline>)
    ensures
        #[trigger] cells_v(s.push(x)) == cells_v(s).push(inlines_v(x@)),
{
    assert(s.push(x).drop_last() =~= s);
}

/// The models of a row of cells, element by element.
pub broadcast proof fn lemma_cells_v_index(s: Seq<Vec<Inline>>)
    ensures
        #[trigger] cells_v(s).len() == s.len(),
        forall|k: int| 0 <= k < s.len() ==> #[trigger] cells_v(s)[k] == inlines_v(s[k]@),
    decreases s.len(),
{
    if s.len() > 0 {
        lemma_cells_v_index(s.drop_last());
    }
}

/// Model of one more row at the end of a table body.
pub broadcast proof fn lemma_rows_v_push(s: Seq<Vec<Vec<Inline>>>, x: Vec<Vec<Inline>>)
    ensures
        #[trigger] rows_v(s.push(x)) == rows_v(s).push(cells_v(x@)),
{
    assert(s.push(x).drop_last() =~= s);
}

/// The models of table rows, element by element.
pub broadcast proof fn lemma_rows_v_index(s: Seq<Vec<Vec<Inline>>>)
    ensures
        #[trigger] rows_v(s).len() == s.len(),
        forall|k: int| 0 <= k < s.len() ==> #[trigger] rows_v(s)[k] == cells_v(s[k]@),
    decreases s.len(),
{
    if s.len() > 0 {
        lemma_rows_v_index(s.drop_last());
    }
}

/// The text of an inline element without its markup: text and code as they
/// are, a soft break as a space, a hard break as a line feed, a footnote
/// reference as nothing, a formula as its source.
pub open spec fn plain_text(i: InlineV) -> Seq<char>
    decreases i,
{
    match i {
        InlineV::Text(t) => t,
        InlineV::Code(c) => c,
        InlineV::Bold(ch) => plain_texts(ch),
        InlineV::Italic(ch) => plain_texts(ch),
        InlineV::Link { text, url } => plain_texts(text),
        InlineV::SoftBreak => seq![' '],
        InlineV::HardBreak => seq!['\n'],
        InlineV::StyledSpan { class, children } => plain_texts(children),
        InlineV::FootnoteReference(l) => seq![],
        InlineV::InlineMath(m) => m,
    }
}

/// The plain texts of a sequence of inline elements, one after another.
pub open spec fn plain_texts(s: Seq<InlineV>) -> Seq<char>
    decreases s,
{
    if s.len() == 0 {
        seq![]
    } else {
        plain_texts(s.subrange(0, s.len() - 1)) + plain_text(s[s.len() - 1])
    }
}

/// The plain text of one more element at the end of a sequence.
pub proof fn lemma_plain_texts_push(t: Seq<InlineV>, x: InlineV)
    ensures
        plain_texts(t.push(x)) == plain_texts(t) + plain_text(x),
{
    assert(t.push(x).subrange(0, t.len() as int) =~= t);
}

impl Inline {
    /// Appends the plain text of this element to `out`.
    pub fn append_plain_text(&self, out: &mut Vec<char>)
        ensures
            final(out)@ == old(out)@ + plain_text(inline_v(*self)),
        decreases self,
    {
        match self {
            Inline::Text(t) => {
                let c = chars_of(t.as_str());
                extend_chars(out, &c);
            },
            Inline::Code(t) => {
                let c = chars_of(t.as_str());
                extend_chars(out, &c);
            },
            Inline::Bold(ch) => append_plain_texts(ch, out),
            Inline::Italic(ch) => append_plain_texts(ch, out),
            Inline::Link { text, url } => append_plain_texts(text, out),
            Inline::SoftBreak => {
                out.push(' ');
                assert(out@ =~= old(out)@ + seq![' ']);
            },
            Inline::HardBreak => {
                out.push('\n');
                assert(out@ =~= old(out)@ + seq!['\n']);
            },
            Inline::StyledSpan { class, children } => append_plain_texts(children, out),
            Inline::FootnoteReference(l) => {
                assert(out@ =~= old(out)@ + Seq::<char>::empty());
            },
            Inline::InlineMath(t) => {
                let c = chars_of(t.as_str());
                extend_chars(out, &c);
            },
        }
    }

    /// The text of this element without its markup.
    pub fn to_plain_text(&self) -> (r: String)
        ensures
            r@ == plain_text(inline_v(*self)),
    {
        let mut v: Vec<char> = Vec::new();
        self.append_plain_text(&mut v);
        assert(v@ =~= plain_text(inline_v(*self)));
        string_of(&v)
    }
}

/// Appends the plain texts of `s` to `out`.
pub fn append_plain_texts(s: &Vec<Inline>, out: &mut Vec<char>)
    ensures
        final(out)@ == old(out)@ + plain_texts(inlines_v(s@)),
    decreases s,
{
    broadcast use group_ir_views;
    let ghost o0 = out@;
    let mut k: usize = 0;
    while k < s.len()
        invariant
            k <= s.len(),
            out@ == o0 + plain_texts(inlines_v(s@.take(k as int))),
        decreases s.len() - k,
    {
        assert(s@.take(k + 1) =~= s@.take(k as int).push(s@[k as int]));
        proof {
            lemma_inlines_v_push(s@.take(k as int), s@[k as int]);
            lemma_plain_texts_push(inlines_v(s@.take(k as int)), inline_v(s@[k as int]));
        }
        s[k].append_plain_text(out);
        assert(out@ =~= o0 + plain_texts(inlines_v(s@.take(k + 1))));
        k = k + 1;
    }
    assert(s@.take(s.len() as int) =~= s@);
}

impl Inline {
    /// A copy of this element and everything inside it.
    pub fn deep_clone(&self) -> (r: Inline)
        ensures
            inline_v(r) == inline_v(*self),
        decreases self,
    {
        match self {
            Inline::Text(t) => Inline::Text(t.clone()),
            Inline::Code(t) => Inline::Code(t.clone()),
            Inline::Bold(ch) => Inline::Bold(clone_inlines(ch)),
            Inline::Italic(ch) => Inline::Italic(clone_inlines(ch)),
            Inline::Link { text, url } => Inline::Link { text: clone_inlines(text), url: url.clone() },
            Inline::SoftBreak => Inline::SoftBreak,
            Inline::HardBreak => Inline::HardBreak,
            Inline::StyledSpan { class, children } => Inline::StyledSpan {
                class: class.clone(),
                children: clone_inlines(children),
            },
            Inline::FootnoteReference(l) => Inline::FootnoteReference(l.clone()),
            Inline::InlineMath(t) => Inline::InlineMath(t.clone()),
        }
    }
}

/// A copy of a sequence of inline elements.
pub fn clone_inlines(v: &Vec<Inline>) -> (r: Vec<Inline>)
    ensures
        inlines_v(r@) == inlines_v(v@),
    decreases v,
{
    let mut r: Vec<Inline> = Vec::new();
    let mut k: usize = 0;
    while k < v.len()
        invariant
            k <= v.len(),
            inlines_v(r@) == inlines_v(v@.take(k as int)),
        decreases v.len() - k,
    {
        let x = v[k].deep_clone();
        proof {
            lemma_inlines_v_push(r@, x);
            lemma_inlines_v_push(v@.take(k as int), v@[k as int]);
            assert(v@.take(k + 1) =~= v@.take(k as int).push(v@[k as int]));
        }
        r.push(x);
        k = k + 1;
    }
    assert(v@.take(v.len() as int) =~= v@);
    r
}

pub broadcast group group_ir_views {
    lemma_inlines_v_push,
    lemma_inlines_v_index,
    lemma_blocks_v_push,
    lemma_blocks_v_index,
    lemma_items_v_push,
    lemma_cells_v_push,
    lemma_cells_v_index,
    lemma_rows_v_push,
    lemma_rows_v_index,
}

} // verus!
