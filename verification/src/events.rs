//! The Markdown events that the renderer reads, as plain values.

use vstd::prelude::*;

verus! {

/// Level of a heading, `#` to `######`.
#[derive(Clone, Copy, Debug, PartialEq, Eq)]
pub enum MdHeadingLevel {
    H1,
    H2,
    H3,
    H4,
    H5,
    H6,
}

/// The number of a heading level, 1 for `H1` up to 6 for `H6`.
pub open spec fn level_number(level: MdHeadingLevel) -> u8 {
    match level {
        MdHeadingLevel::H1 => 1,
        MdHeadingLevel::H2 => 2,
        MdHeadingLevel::H3 => 3,
        MdHeadingLevel::H4 => 4,
        MdHeadingLevel::H5 => 5,
        MdHeadingLevel::H6 => 6,
    }
}

/// The number of a heading level: `<h1>` for `H1` and so on.
///
/// Distinct levels get distinct numbers, all between 1 and 6.
pub fn heading_num(level: MdHeadingLevel) -> (n: u8)
    ensures
        n == level_number(level),
        1 <= n <= 6,
{
    match level {
        MdHeadingLevel::H1 => 1,
        MdHeadingLevel::H2 => 2,
        MdHeadingLevel::H3 => 3,
        MdHeadingLevel::H4 => 4,
        MdHeadingLevel::H5 => 5,
        MdHeadingLevel::H6 => 6,
    }
}

/// The start of an element that holds other events.
#[derive(Debug)]
pub enum MdTag {
    Paragraph,
    Heading(MdHeadingLevel),
    BlockQuote,
    /// A code block: the info string of a fenced block, `None` for an indented one.
    CodeBlock(Option<String>),
    /// A list: the number of the first item of an ordered list, `None` for a bullet list.
    List(Option<u64>),
    Item,
    Table,
    TableHead,
    TableRow,
    TableCell,
    Emphasis,
    Strong,
    Strikethrough,
    /// A link, with its destination.
    Link(String),
    /// An image, with its source.
    Image(String),
    /// Any element the renderer writes nothing for (footnote definitions,
    /// HTML blocks, metadata, definition lists, super- and subscript).
    Other,
}

/// The end of an element.
#[derive(Debug)]
pub enum MdTagEnd {
    Paragraph,
    Heading(MdHeadingLevel),
    BlockQuote,
    CodeBlock,
    List,
    Item,
    Table,
    TableHead,
    TableRow,
    TableCell,
    Emphasis,
    Strong,
    Strikethrough,
    Link,
    Image,
    /// The end of an element the renderer writes nothing for.
    Other,
}

/// One event of a parsed Markdown document.
#[derive(Debug)]
pub enum MdEvent {
    Start(MdTag),
    End(MdTagEnd),
    /// A run of text.
    Text(String),
    /// An inline code span.
    Code(String),
    /// A line of raw HTML in an HTML block.
    Html(String),
    /// Raw HTML inside a paragraph.
    InlineHtml(String),
    SoftBreak,
    HardBreak,
    /// A horizontal rule.
    Rule,
    /// Any event the renderer writes nothing for (footnote references,
    /// math, task list markers).
    Other,
}

} // verus!
