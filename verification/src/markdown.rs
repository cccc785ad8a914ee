//! Parsing Markdown with pulldown-cmark and rendering it to an HTML body.

use vstd::prelude::*;

use pulldown_cmark::{CodeBlockKind, Event, Options, Parser, Tag, TagEnd};

use crate::events::{MdHeadingLevel, MdEvent, MdTag, MdTagEnd};
use crate::html::{events_to_html, render_events};

verus! {

#[verifier::external_type_specification]
#[verifier::external_body]
pub struct ExEvent<'a>(Event<'a>);

#[verifier::external_type_specification]
#[verifier::external_body]
pub struct ExTag<'a>(Tag<'a>);

#[verifier::external_type_specification]
#[verifier::external_body]
pub struct ExTagEnd(TagEnd);

#[verifier::external_type_specification]
#[verifier::external_body]
pub struct ExHeadingLevel(pulldown_cmark::HeadingLevel);

/// pulldown-cmark's option bit for tables.
pub const ENABLE_TABLES: u32 = 2;
/// pulldown-cmark's option bit for footnotes.
pub const ENABLE_FOOTNOTES: u32 = 4;
/// pulldown-cmark's option bit for `~~strikethrough~~`.
pub const ENABLE_STRIKETHROUGH: u32 = 8;
/// pulldown-cmark's option bit for task lists.
pub const ENABLE_TASKLISTS: u32 = 16;
/// pulldown-cmark's option bit for `{#id .class}` heading attributes.
pub const ENABLE_HEADING_ATTRIBUTES: u32 = 64;
/// pulldown-cmark's option bit for `$math$`.
pub const ENABLE_MATH: u32 = 1024;

/// The Markdown extensions this renderer turns on.
pub const MARKDOWN_OPTIONS: u32 = ENABLE_TABLES | ENABLE_STRIKETHROUGH | ENABLE_TASKLISTS
    | ENABLE_FOOTNOTES | ENABLE_HEADING_ATTRIBUTES | ENABLE_MATH;

/// The events pulldown-cmark's parser yields for a text under the given options.
pub uninterp spec fn markdown_events(md: Seq<char>, options: u32) -> Seq<MdEvent>;

/// Runs `pulldown_cmark::Parser::new_ext` over `md` with the option bits
/// `options` and collects its events, each taken as an `MdEvent`.
/// The contract only names the result: what the parser yields is not stated.
#[verifier::external_body]
fn parse_markdown(md: &str, options: u32) -> (events: Vec<MdEvent>)
    ensures
        events@ == markdown_events(md@, options),
{
    Parser::new_ext(md, Options::from_bits_truncate(options)).map(event_from).collect()
}

/// Takes a pulldown-cmark event as an `MdEvent`; the variants the renderer
/// writes nothing for become `MdEvent::Other`. Nothing is stated of it.
#[verifier::external_body]
fn event_from(e: Event) -> MdEvent {
    match e {
        Event::Start(t) => MdEvent::Start(tag_from(t)),
        Event::End(t) => MdEvent::End(tag_end_from(t)),
        Event::Text(s) => MdEvent::Text(s.into_string()),
        Event::Code(s) => MdEvent::Code(s.into_string()),
        Event::Html(s) => MdEvent::Html(s.into_string()),
        Event::InlineHtml(s) => MdEvent::InlineHtml(s.into_string()),
        Event::SoftBreak => MdEvent::SoftBreak,
        Event::HardBreak => MdEvent::HardBreak,
        Event::Rule => MdEvent::Rule,
        _ => MdEvent::Other,
    }
}

/// Takes a block-level pulldown-cmark tag as an `MdTag`, handing the others
/// on to `inline_tag_from`. Nothing is stated of it.
#[verifier::external_body]
fn tag_from(t: Tag) -> MdTag {
    match t {
        Tag::Paragraph => MdTag::Paragraph,
        Tag::Heading { level, .. } => MdTag::Heading(level_from(level)),
        Tag::BlockQuote(_) => MdTag::BlockQuote,
        Tag::CodeBlock(CodeBlockKind::Fenced(info)) => MdTag::CodeBlock(Some(info.into_string())),
        Tag::CodeBlock(CodeBlockKind::Indented) => MdTag::CodeBlock(None),
        Tag::List(start) => MdTag::List(start),
        Tag::Item => MdTag::Item,
        Tag::Table(_) => MdTag::Table,
        t => inline_tag_from(t),
    }
}

/// Takes a table-part or inline pulldown-cmark tag as an `MdTag`; the tags
/// the renderer writes nothing for become `MdTag::Other`. Nothing is stated of it.
#[verifier::external_body]
fn inline_tag_from(t: Tag) -> MdTag {
    match t {
        Tag::TableHead => MdTag::TableHead,
        Tag::TableRow => MdTag::TableRow,
        Tag::TableCell => MdTag::TableCell,
        Tag::Emphasis => MdTag::Emphasis,
        Tag::Strong => MdTag::Strong,
        Tag::Strikethrough => MdTag::Strikethrough,
        Tag::Link { dest_url, .. } => MdTag::Link(dest_url.into_string()),
        Tag::Image { dest_url, .. } => MdTag::Image(dest_url.into_string()),
        _ => MdTag::Other,
    }
}

/// Takes a block-level pulldown-cmark tag end as an `MdTagEnd`, handing the
/// others on to `inline_tag_end_from`. Nothing is stated of it.
#[verifier::external_body]
fn tag_end_from(t: TagEnd) -> MdTagEnd {
    match t {
        TagEnd::Paragraph => MdTagEnd::Paragraph,
        TagEnd::Heading(level) => MdTagEnd::Heading(level_from(level)),
        TagEnd::BlockQuote(_) => MdTagEnd::BlockQuote,
        TagEnd::CodeBlock => MdTagEnd::CodeBlock,
        TagEnd::List(_) => MdTagEnd::List,
        TagEnd::Item => MdTagEnd::Item,
        TagEnd::Table => MdTagEnd::Table,
        TagEnd::TableHead => MdTagEnd::TableHead,
        t => inline_tag_end_from(t),
    }
}

/// Takes a table-part or inline pulldown-cmark tag end as an `MdTagEnd`; the
/// ends the renderer writes nothing for become `MdTagEnd::Other`. Nothing is stated of it.
#[verifier::external_body]
fn inline_tag_end_from(t: TagEnd) -> MdTagEnd {
    match t {
        TagEnd::TableRow => MdTagEnd::TableRow,
        TagEnd::TableCell => MdTagEnd::TableCell,
        TagEnd::Emphasis => MdTagEnd::Emphasis,
        TagEnd::Strong => MdTagEnd::Strong,
        TagEnd::Strikethrough => MdTagEnd::Strikethrough,
        TagEnd::Link => MdTagEnd::Link,
        TagEnd::Image => MdTagEnd::Image,
        _ => MdTagEnd::Other,
    }
}

/// Takes a pulldown-cmark heading level as an `MdHeadingLevel`, variant for
/// variant. Nothing is stated of it.
#[verifier::external_body]
fn level_from(level: pulldown_cmark::HeadingLevel) -> MdHeadingLevel {
    match level {
        pulldown_cmark::HeadingLevel::H1 => MdHeadingLevel::H1,
        pulldown_cmark::HeadingLevel::H2 => MdHeadingLevel::H2,
        pulldown_cmark::HeadingLevel::H3 => MdHeadingLevel::H3,
        pulldown_cmark::HeadingLevel::H4 => MdHeadingLevel::H4,
        pulldown_cmark::HeadingLevel::H5 => MdHeadingLevel::H5,
        pulldown_cmark::HeadingLevel::H6 => MdHeadingLevel::H6,
    }
}

/// The HTML body of a Markdown text: its pulldown-cmark events, under the
/// options `MARKDOWN_OPTIONS`, rendered by `events_to_html`.
pub fn md_to_html(md: &str) -> (html: String)
    ensures
        html@ == render_events(markdown_events(md@, MARKDOWN_OPTIONS)),
{
    let events = parse_markdown(md, MARKDOWN_OPTIONS);
    events_to_html(&events)
}

} // verus!
