//! Reading a Markdown document into blocks.
//!
//! The source is rewritten (see [`crate::preprocess`] and [`crate::footnotes`]),
//! parsed into events by pulldown-cmark, and the events are turned into blocks;
//! the page-break rule is checked last.
use vstd::prelude::*;
use vstd::string::*;
use pulldown_cmark::{CodeBlockKind, Event, HeadingLevel, Options, Parser, Tag, TagEnd};
use crate::events::{EventConverter, MdEvent, MdEventV, MdTag, MdTagEnd, events_v, spec_convert};
use crate::footnotes::{preprocess_inline_footnotes, spec_preprocess_inline_footnotes};
use crate::ir::{Block, BlockV, blocks_v};
use crate::markup::{ParseError, blocks_ok, validate_page_break_usage};
use crate::preprocess::{preprocess_div_tags, spec_preprocess_div_tags};

pub use crate::markup::{extract_div_class, extract_span_class};

verus! {

#[verifier::external_type_specification]
#[verifier::external_body]
pub struct ExEvent<'a>(Event<'a>);

#[verifier::external_type_specification]
#[verifier::external_body]
pub struct ExTag<'a>(Tag<'a>);

#[verifier::external_type_specification]
#[verifier::external_body]
pub struct ExTagEnd(TagEnd);

#[verifier::external_type_specification]
#[verifier::external_body]
pub struct ExHeadingLevel(HeadingLevel);

#[verifier::external_type_specification]
#[verifier::external_body]
pub struct ExCodeBlockKind<'a>(CodeBlockKind<'a>);

#[verifier::external_type_specification]
#[verifier::external_body]
pub struct ExCmarkAlignment(pulldown_cmark::Alignment);

/// The events that pulldown-cmark reports for `text`, with tables,
/// strikethrough, task lists, math and footnotes enabled.
pub uninterp spec fn markdown_events(text: Seq<char>) -> Seq<MdEventV>;

/// Parses `text` with `pulldown_cmark::Parser::new_ext` (tables,
/// strikethrough, task lists, math and footnotes enabled) and collects the
/// events.  The contract claims only that the result is the parser's event
/// stream for `text`, whatever it is: a function of `text` alone.
#[verifier::external_body]
fn cmark_events(text: &str) -> (r: Vec<MdEvent>)
    ensures
        events_v(r@) == markdown_events(text@),
{
    let options = Options::ENABLE_TABLES | Options::ENABLE_STRIKETHROUGH
        | Options::ENABLE_TASKLISTS | Options::ENABLE_MATH | Options::ENABLE_FOOTNOTES;
    Parser::new_ext(text, options).map(event_from_cmark).collect()
}

/// Converts a `pulldown_cmark::Event` into an [`MdEvent`], variant by variant.
#[verifier::external_body]
fn event_from_cmark(e: Event) -> MdEvent {
    match e {
        Event::Start(t) => MdEvent::Start(tag_from_cmark(t)),
        Event::End(t) => MdEvent::End(tag_end_from_cmark(t)),
        Event::Text(s) => MdEvent::Text(s.into_string()),
        Event::Code(s) => MdEvent::Code(s.into_string()),
        Event::SoftBreak => MdEvent::SoftBreak,
        Event::HardBreak => MdEvent::HardBreak,
        Event::Rule => MdEvent::Rule,
        other => text_event_from_cmark(other),
    }
}

/// Converts the remaining text-carrying `pulldown_cmark::Event` variants.
#[verifier::external_body]
fn text_event_from_cmark(e: Event) -> MdEvent {
    match e {
        Event::InlineMath(s) => MdEvent::InlineMath(s.into_string()),
        Event::DisplayMath(s) => MdEvent::DisplayMath(s.into_string()),
        Event::Html(s) => MdEvent::Html(s.into_string()),
        Event::InlineHtml(s) => MdEvent::InlineHtml(s.into_string()),
        Event::FootnoteReference(s) => MdEvent::FootnoteReference(s.into_string()),
        _ => MdEvent::Other,
    }
}

/// Converts a block-level `pulldown_cmark::Tag` into an [`MdTag`].
#[verifier::external_body]
fn tag_from_cmark(t: Tag) -> MdTag {
    match t {
        Tag::Paragraph => MdTag::Paragraph,
        Tag::Heading { .. } => MdTag::Heading,
        Tag::BlockQuote(_) => MdTag::BlockQuote,
        Tag::CodeBlock(k) => code_block_from_cmark(k),
        Tag::List(start) => MdTag::List(start),
        Tag::Item => MdTag::Item,
        Tag::FootnoteDefinition(l) => MdTag::FootnoteDefinition(l.into_string()),
        Tag::Table(a) => MdTag::Table(a.into_iter().map(alignment_from_cmark).collect()),
        Tag::TableHead => MdTag::TableHead,
        Tag::TableRow => MdTag::TableRow,
        Tag::TableCell => MdTag::TableCell,
        other => inline_tag_from_cmark(other),
    }
}

/// Converts a span-level `pulldown_cmark::Tag` into an [`MdTag`].
#[verifier::external_body]
fn inline_tag_from_cmark(t: Tag) -> MdTag {
    match t {
        Tag::Emphasis => MdTag::Emphasis,
        Tag::Strong => MdTag::Strong,
        Tag::Link { dest_url, .. } => MdTag::Link { dest_url: dest_url.into_string() },
        Tag::Image { dest_url, .. } => MdTag::Image { dest_url: dest_url.into_string() },
        _ => MdTag::Other,
    }
}

/// Converts a `pulldown_cmark::CodeBlockKind` into the code-block [`MdTag`].
#[verifier::external_body]
fn code_block_from_cmark(k: CodeBlockKind) -> MdTag {
    match k {
        CodeBlockKind::Fenced(info) => MdTag::CodeBlockFenced(info.into_string()),
        CodeBlockKind::Indented => MdTag::CodeBlockIndented,
    }
}

/// Converts a `pulldown_cmark::Alignment` into a [`crate::ir::ColumnAlignment`].
#[verifier::external_body]
fn alignment_from_cmark(a: pulldown_cmark::Alignment) -> crate::ir::ColumnAlignment {
    match a {
        pulldown_cmark::Alignment::None => crate::ir::ColumnAlignment::Unspecified,
        pulldown_cmark::Alignment::Left => crate::ir::ColumnAlignment::Left,
        pulldown_cmark::Alignment::Center => crate::ir::ColumnAlignment::Center,
        pulldown_cmark::Alignment::Right => crate::ir::ColumnAlignment::Right,
    }
}

/// Converts a `pulldown_cmark::TagEnd` into an [`MdTagEnd`].
#[verifier::external_body]
fn tag_end_from_cmark(t: TagEnd) -> MdTagEnd {
    match t {
        TagEnd::Paragraph => MdTagEnd::Paragraph,
        TagEnd::Heading(level) => MdTagEnd::Heading(heading_level_to_u8(level)),
        TagEnd::BlockQuote(_) => MdTagEnd::BlockQuote,
        TagEnd::CodeBlock => MdTagEnd::CodeBlock,
        TagEnd::List(_) => MdTagEnd::List,
        TagEnd::Item => MdTagEnd::Item,
        TagEnd::FootnoteDefinition => MdTagEnd::FootnoteDefinition,
        TagEnd::Table => MdTagEnd::Table,
        TagEnd::TableHead => MdTagEnd::TableHead,
        TagEnd::TableRow => MdTagEnd::TableRow,
        TagEnd::TableCell => MdTagEnd::TableCell,
        other => inline_tag_end_from_cmark(other),
    }
}

/// Converts a span-level `pulldown_cmark::TagEnd` into an [`MdTagEnd`].
#[verifier::external_body]
fn inline_tag_end_from_cmark(t: TagEnd) -> MdTagEnd {
    match t {
        TagEnd::Emphasis => MdTagEnd::Emphasis,
        TagEnd::Strong => MdTagEnd::Strong,
        TagEnd::Link => MdTagEnd::Link,
        TagEnd::Image => MdTagEnd::Image,
        _ => MdTagEnd::Other,
    }
}

/// The number of a `pulldown_cmark::HeadingLevel` (1 to 6).
#[verifier::external_body]
fn heading_level_to_u8(level: HeadingLevel) -> u8 {
    match level {
        HeadingLevel::H1 => 1,
        HeadingLevel::H2 => 2,
        HeadingLevel::H3 => 3,
        HeadingLevel::H4 => 4,
        HeadingLevel::H5 => 5,
        HeadingLevel::H6 => 6,
    }
}

/// The blocks of a Markdown source, before the page-break rule is checked.
pub open spec fn spec_blocks_of(input: Seq<char>) -> Seq<BlockV> {
    spec_convert(
        markdown_events(spec_preprocess_inline_footnotes(spec_preprocess_div_tags(input))),
    )
}

/// The blocks that a stream of parser events describes, refused when the
/// page-break directive stands anywhere but alone in its own paragraph.
pub fn blocks_from_events(events: Vec<MdEvent>) -> (r: Result<Vec<Block>, ParseError>)
    ensures
        r is Ok <==> blocks_ok(spec_convert(events_v(events@))),
        r matches Ok(b) ==> blocks_v(b@) == spec_convert(events_v(events@)),
        r matches Err(e) ==> e == ParseError::MisplacedPageBreak,
{
    let converter = EventConverter::new();
    let blocks = converter.convert(events);
    match validate_page_break_usage(&blocks) {
        Ok(()) => Ok(blocks),
        Err(e) => Err(e),
    }
}

/// Reads a Markdown document into blocks.
pub fn parse_markdown(input: &str) -> (r: Result<Vec<Block>, ParseError>)
    ensures
        r is Ok <==> blocks_ok(spec_blocks_of(input@)),
        r matches Ok(b) ==> blocks_v(b@) == spec_blocks_of(input@),
        r matches Err(e) ==> e == ParseError::MisplacedPageBreak,
{
    let with_divs = preprocess_div_tags(input);
    let preprocessed = preprocess_inline_footnotes(with_divs.as_str());
    let events = cmark_events(preprocessed.as_str());
    blocks_from_events(events)
}

} // verus!
