//! Recognising the HTML tags `<span class="...">` and `<div class="...">`,
//! and the rule on the page-break directive `\pagebreak`.
use vstd::prelude::*;
use vstd::string::*;
use crate::ir::{
    Block, BlockV, Inline, InlineV, ListItem, ListItemV, block_v, blocks_v, cells_v, inline_v,
    inlines_v, item_v, items_v, rows_v, lemma_blocks_v_index, lemma_inlines_v_index,
    lemma_cells_v_index, lemma_rows_v_index,
};
use crate::text::{
    chars_of, contains, matches_at, contains_chars, ends_with, ends_with_chars, find, find_chars, find_char,
    find_char_chars, lemma_find_from, starts_with, starts_with_chars, string_of, sub_chars, trim,
    trim_chars,
};

verus! {

broadcast use vstd::string::group_string_axioms;

/// The class named in an opening tag that begins with `open`: `html`
/// trimmed must begin with `open` and end with `>`, and hold `class=`
/// followed by a quote (`"` or `'`), then the name up to the same quote;
/// the name is trimmed and must not be empty.
pub open spec fn tag_class(html: Seq<char>, open: Seq<char>) -> Option<Seq<char>> {
    let s = trim(html);
    if !starts_with(s, open) || !ends_with(s, seq!['>']) {
        None
    } else {
        match find(s, "class="@) {
            None => None,
            Some(ci) => {
                let after = s.skip(ci + "class="@.len());
                if after.len() > 0 && (after[0] == '"' || after[0] == '\'') {
                    let rest = after.drop_first();
                    match find_char(rest, after[0]) {
                        None => None,
                        Some(e) => {
                            let name = trim(rest.take(e));
                            if name.len() == 0 {
                                None
                            } else {
                                Some(name)
                            }
                        },
                    }
                } else {
                    None
                }
            },
        }
    }
}

/// The class of a `<span class="...">` tag.
pub open spec fn span_class(html: Seq<char>) -> Option<Seq<char>> {
    tag_class(html, "<span"@)
}

/// The class of a `<div class="...">` tag.
pub open spec fn div_class(html: Seq<char>) -> Option<Seq<char>> {
    tag_class(html, "<div"@)
}

fn extract_tag_class(html: &str, open: &str) -> (r: Option<String>)
    ensures
        r matches Some(c) ==> tag_class(html@, open@) == Some(c@),
        r is None ==> tag_class(html@, open@) is None,
{
    let h = chars_of(html);
    let s = trim_chars(&h);
    let o = chars_of(open);
    let mut gt: Vec<char> = Vec::new();
    gt.push('>');
    assert(gt@ =~= seq!['>']);
    if !starts_with_chars(&s, &o) || !ends_with_chars(&s, &gt) {
        return None;
    }
    let key = chars_of("class=");
    let ci = match find_chars(&s, &key) {
        Some(i) => i,
        None => return None,
    };
    proof {
        lemma_find_from(s@, key@, 0);
        assert(matches_at(s@, key@, ci as int));
        assert(ci + key@.len() <= s@.len());
    }
    assert(ci + key.len() <= s.len());
    let start = ci + key.len();
    let after = sub_chars(&s, start, s.len());
    assert(after@ =~= s@.skip(ci + "class="@.len()));
    if after.len() == 0 || (after[0] != '"' && after[0] != '\'') {
        return None;
    }
    let quote = after[0];
    let rest = sub_chars(&after, 1, after.len());
    assert(rest@ =~= after@.drop_first());
    let end = match find_char_chars(&rest, quote) {
        Some(e) => e,
        None => return None,
    };
    proof {
        lemma_find_from(rest@, seq![quote], 0);
    }
    let inner = sub_chars(&rest, 0, end);
    assert(inner@ =~= rest@.take(end as int));
    let name = trim_chars(&inner);
    if name.len() == 0 {
        return None;
    }
    Some(string_of(&name))
}

/// The class of an opening `<span class="...">` tag, if `html` is one.
pub fn extract_span_class(html: &str) -> (r: Option<String>)
    ensures
        r matches Some(c) ==> span_class(html@) == Some(c@),
        r is None ==> span_class(html@) is None,
{
    extract_tag_class(html, "<span")
}

/// The class of an opening `<div class="...">` tag, if `html` is one.
pub fn extract_div_class(html: &str) -> (r: Option<String>)
    ensures
        r matches Some(c) ==> div_class(html@) == Some(c@),
        r is None ==> div_class(html@) is None,
{
    extract_tag_class(html, "<div")
}

/// Why a document was refused.
#[derive(Debug, Clone, Copy, PartialEq, Eq, Structural)]
pub enum ParseError {
    /// `\pagebreak` stands somewhere else than alone in a paragraph.
    MisplacedPageBreak,
}

impl ParseError {
    /// The message that reports this error.
    pub fn message(&self) -> (r: String)
        ensures
            r@ == "`\\pagebreak`は段落単位で単独指定した場合のみ利用できます"@,
    {
        String::from_str("`\\pagebreak`は段落単位で単独指定した場合のみ利用できます")
    }
}

/// The page-break directive.
pub open spec fn page_break_directive() -> Seq<char> {
    "\\pagebreak"@
}

/// A piece of text that does not hold the page-break directive.
pub open spec fn text_ok(t: Seq<char>) -> bool {
    !contains(t, page_break_directive())
}

/// No text inside the inline element holds the page-break directive.
pub open spec fn inline_ok(i: InlineV) -> bool
    decreases i,
{
    match i {
        InlineV::Text(t) => text_ok(t),
        InlineV::Code(t) => text_ok(t),
        InlineV::Bold(ch) => inlines_ok(ch),
        InlineV::Italic(ch) => inlines_ok(ch),
        InlineV::Link { text, url } => inlines_ok(text) && text_ok(url),
        InlineV::SoftBreak => true,
        InlineV::HardBreak => true,
        InlineV::StyledSpan { class, children } => text_ok(class) && inlines_ok(children),
        InlineV::FootnoteReference(l) => text_ok(l),
        InlineV::InlineMath(t) => text_ok(t),
    }
}

/// Every element of `s` satisfies [`inline_ok`].
pub open spec fn inlines_ok(s: Seq<InlineV>) -> bool
    decreases s,
{
    s.len() == 0 || (inlines_ok(s.subrange(0, s.len() - 1)) && inline_ok(s[s.len() - 1]))
}

/// Every cell of a table row satisfies [`inlines_ok`].
pub open spec fn cells_ok(s: Seq<Seq<InlineV>>) -> bool {
    forall|k: int| 0 <= k < s.len() ==> #[trigger] inlines_ok(s[k])
}

/// Every row of a table body satisfies [`cells_ok`].
pub open spec fn rows_ok(s: Seq<Seq<Seq<InlineV>>>) -> bool {
    forall|k: int| 0 <= k < s.len() ==> #[trigger] cells_ok(s[k])
}

/// The page-break directive occurs in the block only as a page-break block.
pub open spec fn block_ok(b: BlockV) -> bool
    decreases b,
{
    match b {
        BlockV::Heading { level, content } => inlines_ok(content),
        BlockV::Paragraph { content } => inlines_ok(content),
        BlockV::BulletList { items } => items_ok(items),
        BlockV::OrderedList { items, start } => items_ok(items),
        BlockV::Table { headers, rows, alignments } => cells_ok(headers) && rows_ok(rows),
        BlockV::CodeBlock { lang, code } => text_ok(code),
        BlockV::Image { alt, path } => text_ok(alt),
        BlockV::BlockQuote { children } => blocks_ok(children),
        BlockV::PageBreak => true,
        BlockV::ThematicBreak => true,
        BlockV::StyledDiv { class, children } => text_ok(class) && blocks_ok(children),
        BlockV::FootnoteDefinition { label, children } => blocks_ok(children),
        BlockV::DisplayMath(t) => text_ok(t),
    }
}

/// Every block of `s` satisfies [`block_ok`].
pub open spec fn blocks_ok(s: Seq<BlockV>) -> bool
    decreases s,
{
    s.len() == 0 || (blocks_ok(s.subrange(0, s.len() - 1)) && block_ok(s[s.len() - 1]))
}

/// Every list item's text and nested blocks satisfy the rule.
pub open spec fn items_ok(s: Seq<ListItemV>) -> bool
    decreases s,
{
    s.len() == 0 || (items_ok(s.subrange(0, s.len() - 1)) && item_ok(s[s.len() - 1]))
}

/// A list item's text and nested blocks satisfy the rule.
pub open spec fn item_ok(it: ListItemV) -> bool
    decreases it,
{
    inlines_ok(it.content) && blocks_ok(it.children)
}

/// [`inlines_ok`] holds exactly when every element satisfies [`inline_ok`].
pub proof fn lemma_inlines_ok(s: Seq<InlineV>)
    ensures
        inlines_ok(s) <==> forall|k: int| 0 <= k < s.len() ==> #[trigger] inline_ok(s[k]),
    decreases s.len(),
{
    if s.len() > 0 {
        let t = s.subrange(0, s.len() - 1);
        lemma_inlines_ok(t);
        assert(inlines_ok(s) == (inlines_ok(t) && inline_ok(s[s.len() - 1])));
        assert forall|k: int| 0 <= k < t.len() implies inline_ok(t[k]) == inline_ok(s[k]) by {
            assert(t[k] == s[k]);
        }
    }
}

/// [`blocks_ok`] holds exactly when every element satisfies [`block_ok`].
pub proof fn lemma_blocks_ok(s: Seq<BlockV>)
    ensures
        blocks_ok(s) <==> forall|k: int| 0 <= k < s.len() ==> #[trigger] block_ok(s[k]),
    decreases s.len(),
{
    if s.len() > 0 {
        let t = s.subrange(0, s.len() - 1);
        lemma_blocks_ok(t);
        assert(blocks_ok(s) == (blocks_ok(t) && block_ok(s[s.len() - 1])));
        assert forall|k: int| 0 <= k < t.len() implies block_ok(t[k]) == block_ok(s[k]) by {
            assert(t[k] == s[k]);
        }
    }
}

/// [`items_ok`] holds exactly when every item's text and nested blocks satisfy the rule.
pub proof fn lemma_items_ok(s: Seq<ListItemV>)
    ensures
        items_ok(s) <==> forall|k: int| 0 <= k < s.len() ==> #[trigger] item_ok(s[k]),
    decreases s.len(),
{
    if s.len() > 0 {
        let t = s.subrange(0, s.len() - 1);
        lemma_items_ok(t);
        assert(items_ok(s) == (items_ok(t) && item_ok(s[s.len() - 1])));
        assert forall|k: int| 0 <= k < t.len() implies item_ok(t[k]) == item_ok(s[k]) by {
            assert(t[k] == s[k]);
        }
    }
}

/// A paragraph that is exactly the page-break directive (surrounding spaces allowed).
pub open spec fn is_page_break_content(content: Seq<InlineV>) -> bool {
    content.len() == 1 && (content[0] matches InlineV::Text(t) && trim(t) == page_break_directive())
}

/// The paragraph `content` is the page-break directive on its own.
pub fn is_page_break_paragraph(content: &Vec<Inline>) -> (r: bool)
    ensures
        r == is_page_break_content(inlines_v(content@)),
{
    proof {
        lemma_inlines_v_index(content@);
    }
    if content.len() != 1 {
        return false;
    }
    match &content[0] {
        Inline::Text(t) => {
            let c = chars_of(t.as_str());
            let tt = trim_chars(&c);
            let d = chars_of("\\pagebreak");
            crate::text::eq_chars(&tt, &d)
        },
        _ => false,
    }
}

/// Fails when `text` holds the page-break directive.
pub fn ensure_no_page_break_directive(text: &String) -> (r: Result<(), ParseError>)
    ensures
        r is Ok <==> text_ok(text@),
        r matches Err(e) ==> e == ParseError::MisplacedPageBreak,
{
    let c = chars_of(text.as_str());
    let d = chars_of("\\pagebreak");
    if contains_chars(&c, &d) {
        Err(ParseError::MisplacedPageBreak)
    } else {
        Ok(())
    }
}

/// Checks one inline element against the page-break rule.
pub fn validate_inline(inline: &Inline) -> (r: Result<(), ParseError>)
    ensures
        r is Ok <==> inline_ok(inline_v(*inline)),
        r matches Err(e) ==> e == ParseError::MisplacedPageBreak,
    decreases inline, 1nat,
{
    match inline {
        Inline::Text(t) => ensure_no_page_break_directive(t),
        Inline::Code(t) => ensure_no_page_break_directive(t),
        Inline::Bold(ch) => validate_inlines(ch),
        Inline::Italic(ch) => validate_inlines(ch),
        Inline::Link { text, url } => {
            validate_inlines(text)?;
            ensure_no_page_break_directive(url)
        },
        Inline::SoftBreak => Ok(()),
        Inline::HardBreak => Ok(()),
        Inline::StyledSpan { class, children } => {
            ensure_no_page_break_directive(class)?;
            validate_inlines(children)
        },
        Inline::FootnoteReference(l) => ensure_no_page_break_directive(l),
        Inline::InlineMath(t) => ensure_no_page_break_directive(t),
    }
}

/// Checks a sequence of inline elements against the page-break rule.
pub fn validate_inlines(inlines: &Vec<Inline>) -> (r: Result<(), ParseError>)
    ensures
        r is Ok <==> inlines_ok(inlines_v(inlines@)),
        r matches Err(e) ==> e == ParseError::MisplacedPageBreak,
    decreases inlines, 0nat,
{
    proof {
        lemma_inlines_v_index(inlines@);
    }
    let mut k: usize = 0;
    while k < inlines.len()
        invariant
            k <= inlines.len(),
            inlines_v(inlines@).len() == inlines@.len(),
            forall|j: int| 0 <= j < k ==> inline_ok(#[trigger] inlines_v(inlines@)[j]),
        decreases inlines.len() - k,
    {
        proof {
            lemma_inlines_v_index(inlines@);
        }
        assert(inlines_v(inlines@)[k as int] == inline_v(inlines@[k as int]));
        let r = validate_inline(&inlines[k]);
        if r.is_err() {
            proof {
                lemma_inlines_ok(inlines_v(inlines@));
            }
            return r;
        }
        k = k + 1;
    }
    proof {
        lemma_inlines_ok(inlines_v(inlines@));
    }
    Ok(())
}

/// Checks a table row against the page-break rule.
fn validate_cells(cells: &Vec<Vec<Inline>>) -> (r: Result<(), ParseError>)
    ensures
        r is Ok <==> cells_ok(cells_v(cells@)),
        r matches Err(e) ==> e == ParseError::MisplacedPageBreak,
{
    proof {
        lemma_cells_v_index(cells@);
    }
    let mut k: usize = 0;
    while k < cells.len()
        invariant
            k <= cells.len(),
            cells_v(cells@).len() == cells@.len(),
            forall|j: int| 0 <= j < k ==> inlines_ok(#[trigger] cells_v(cells@)[j]),
        decreases cells.len() - k,
    {
        proof {
            lemma_cells_v_index(cells@);
        }
        assert(cells_v(cells@)[k as int] == inlines_v(cells@[k as int]@));
        let r = validate_inlines(&cells[k]);
        if r.is_err() {
            return r;
        }
        k = k + 1;
    }
    Ok(())
}

/// Checks the rows of a table body against the page-break rule.
fn validate_rows(rows: &Vec<Vec<Vec<Inline>>>) -> (r: Result<(), ParseError>)
    ensures
        r is Ok <==> rows_ok(rows_v(rows@)),
        r matches Err(e) ==> e == ParseError::MisplacedPageBreak,
{
    proof {
        lemma_rows_v_index(rows@);
    }
    let mut k: usize = 0;
    while k < rows.len()
        invariant
            k <= rows.len(),
            rows_v(rows@).len() == rows@.len(),
            forall|j: int| 0 <= j < k ==> cells_ok(#[trigger] rows_v(rows@)[j]),
        decreases rows.len() - k,
    {
        proof {
            lemma_rows_v_index(rows@);
        }
        let r = validate_cells(&rows[k]);
        if r.is_err() {
            assert(!cells_ok(rows_v(rows@)[k as int]));
            return r;
        }
        k = k + 1;
    }
    Ok(())
}

/// Checks one block, and the blocks nested in it, against the page-break rule.
pub fn validate_block(block: &Block) -> (r: Result<(), ParseError>)
    ensures
        r is Ok <==> block_ok(block_v(*block)),
        r matches Err(e) ==> e == ParseError::MisplacedPageBreak,
    decreases block, 1nat,
{
    match block {
        Block::Heading { level, content } => validate_inlines(content),
        Block::Paragraph { content } => validate_inlines(content),
        Block::BulletList { items } => validate_items(items),
        Block::OrderedList { items, start } => validate_items(items),
        Block::Table { headers, rows, alignments } => {
            validate_cells(headers)?;
            validate_rows(rows)
        },
        Block::CodeBlock { lang, code } => ensure_no_page_break_directive(code),
        Block::Image { alt, path } => ensure_no_page_break_directive(alt),
        Block::BlockQuote { children } => validate_page_break_usage(children),
        Block::PageBreak => Ok(()),
        Block::ThematicBreak => Ok(()),
        Block::StyledDiv { class, children } => {
            ensure_no_page_break_directive(class)?;
            validate_page_break_usage(children)
        },
        Block::FootnoteDefinition { label, children } => validate_page_break_usage(children),
        Block::DisplayMath(t) => ensure_no_page_break_directive(t),
    }
}

/// Checks list items against the page-break rule.
fn validate_items(items: &Vec<ListItem>) -> (r: Result<(), ParseError>)
    ensures
        r is Ok <==> items_ok(items_v(items@)),
        r matches Err(e) ==> e == ParseError::MisplacedPageBreak,
    decreases items, 0nat,
{
    proof {
        crate::ir::lemma_items_v_index(items@);
    }
    let mut k: usize = 0;
    while k < items.len()
        invariant
            k <= items.len(),
            items_v(items@).len() == items@.len(),
            forall|j: int| 0 <= j < k ==> #[trigger] item_ok(items_v(items@)[j]),
        decreases items.len() - k,
    {
        proof {
            crate::ir::lemma_items_v_index(items@);
        }
        assert(items_v(items@)[k as int] == item_v(items@[k as int]));
        assert(items_v(items@)[k as int].content == inlines_v(items@[k as int].content@));
        assert(items_v(items@)[k as int].children == blocks_v(items@[k as int].children@));
        let r = validate_inlines(&items[k].content);
        if r.is_err() {
            assert(!item_ok(items_v(items@)[k as int]));
            proof {
                lemma_items_ok(items_v(items@));
            }
            return r;
        }
        let r = validate_page_break_usage(&items[k].children);
        if r.is_err() {
            assert(!item_ok(items_v(items@)[k as int]));
            proof {
                lemma_items_ok(items_v(items@));
            }
            return r;
        }
        assert(item_ok(items_v(items@)[k as int]));
        k = k + 1;
    }
    proof {
        lemma_items_ok(items_v(items@));
    }
    Ok(())
}

/// Checks a sequence of blocks against the page-break rule: the directive may
/// stand only alone in its own paragraph, where it became a page-break block.
pub fn validate_page_break_usage(blocks: &Vec<Block>) -> (r: Result<(), ParseError>)
    ensures
        r is Ok <==> blocks_ok(blocks_v(blocks@)),
        r matches Err(e) ==> e == ParseError::MisplacedPageBreak,
    decreases blocks, 0nat,
{
    proof {
        lemma_blocks_v_index(blocks@);
    }
    let mut k: usize = 0;
    while k < blocks.len()
        invariant
            k <= blocks.len(),
            blocks_v(blocks@).len() == blocks@.len(),
            forall|j: int| 0 <= j < k ==> block_ok(#[trigger] blocks_v(blocks@)[j]),
        decreases blocks.len() - k,
    {
        proof {
            lemma_blocks_v_index(blocks@);
        }
        assert(blocks_v(blocks@)[k as int] == block_v(blocks@[k as int]));
        let r = validate_block(&blocks[k]);
        if r.is_err() {
            proof {
                lemma_blocks_ok(blocks_v(blocks@));
            }
            return r;
        }
        k = k + 1;
    }
    proof {
        lemma_blocks_ok(blocks_v(blocks@));
    }
    Ok(())
}

} // verus!
