//! Rendering a sequence of Markdown events to HTML.
//!
//! The renderer walks the events once, keeping a little state (inside an
//! ordered list, a code block, a table head, an image), and appends the HTML
//! of each event to the output. `event_html` and `next_state` say what one
//! event does; `render_from` folds them over a whole sequence.

use vstd::prelude::*;

use crate::events::{heading_num, level_number, MdHeadingLevel, MdEvent, MdTag, MdTagEnd};
use crate::text::{escape_html, escape_text, trim, trim_text};

verus! {

/// What the renderer remembers between events.
pub struct RenderView {
    /// The innermost list that was opened last is ordered.
    pub ordered_list: bool,
    /// Inside a code block.
    pub in_code_block: bool,
    /// Inside the head of a table: cells are written as `th`.
    pub in_table_head: bool,
    /// A `tbody` was opened and is still to be closed.
    pub table_body_open: bool,
    /// Inside an image: text goes to the alt text.
    pub in_image: bool,
    /// The alt text gathered for the current image.
    pub image_alt: Seq<char>,
}

/// The state before the first event.
pub open spec fn initial_state() -> RenderView {
    RenderView {
        ordered_list: false,
        in_code_block: false,
        in_table_head: false,
        table_body_open: false,
        in_image: false,
        image_alt: Seq::empty(),
    }
}

/// The digit that names a heading level in `<hN>`.
pub open spec fn heading_digit(level: MdHeadingLevel) -> char {
    ((48 + level_number(level)) as u8) as char
}

/// The language of a code block: its trimmed info string, empty for an indented block.
pub open spec fn code_language(info: Option<String>) -> Seq<char> {
    match info {
        Some(i) => trim_text(i@),
        None => Seq::empty(),
    }
}

/// The HTML that opens an element.
pub open spec fn start_html(s: RenderView, tag: MdTag) -> Seq<char> {
    match tag {
        MdTag::Heading(level) => "<h"@.push(heading_digit(level)).push('>'),
        MdTag::Paragraph => "<p>"@,
        MdTag::BlockQuote => "<blockquote>\n"@,
        MdTag::CodeBlock(info) => {
            let lang = code_language(info);
            if lang.len() > 0 {
                ("<pre><code"@ + " class=\"language-"@ + lang).push('"').push('>')
            } else {
                "<pre><code"@.push('>')
            }
        },
        MdTag::List(start) => if start is Some {
            "<ol>\n"@
        } else {
            "<ul>\n"@
        },
        MdTag::Item => "<li>"@,
        MdTag::Emphasis => "<em>"@,
        MdTag::Strong => "<strong>"@,
        MdTag::Strikethrough => "<del>"@,
        MdTag::Link(dest) => "<a href=\""@ + dest@ + "\">"@,
        MdTag::Image(dest) => "<img src=\""@ + dest@ + "\" alt=\""@,
        MdTag::Table => "<table>\n"@ + "<thead>\n"@,
        MdTag::TableHead => Seq::empty(),
        MdTag::TableRow => "<tr>"@,
        MdTag::TableCell => if s.in_table_head {
            "<th>"@
        } else {
            "<td>"@
        },
        MdTag::Other => Seq::empty(),
    }
}

/// The state after an element opens.
pub open spec fn start_state(s: RenderView, tag: MdTag) -> RenderView {
    match tag {
        MdTag::CodeBlock(_) => RenderView { in_code_block: true, ..s },
        MdTag::List(start) => RenderView { ordered_list: start is Some, ..s },
        MdTag::Image(_) => RenderView { in_image: true, image_alt: Seq::empty(), ..s },
        MdTag::Table => RenderView { in_table_head: true, ..s },
        _ => s,
    }
}

/// The HTML that closes an element.
pub open spec fn end_html(s: RenderView, tag: MdTagEnd) -> Seq<char> {
    match tag {
        MdTagEnd::Heading(level) => "</h"@.push(heading_digit(level)) + ">\n"@,
        MdTagEnd::Paragraph => "</p>\n\n"@,
        MdTagEnd::BlockQuote => "</blockquote>\n\n"@,
        MdTagEnd::CodeBlock => "</code></pre>\n\n"@,
        MdTagEnd::List => if s.ordered_list {
            "</ol>\n"@
        } else {
            "</ul>\n"@
        },
        MdTagEnd::Item => "</li>\n"@,
        MdTagEnd::Emphasis => "</em>"@,
        MdTagEnd::Strong => "</strong>"@,
        MdTagEnd::Strikethrough => "</del>"@,
        MdTagEnd::Link => "</a>"@,
        MdTagEnd::Image => s.image_alt + "\">"@,
        MdTagEnd::Table => if s.table_body_open {
            "</tbody>\n"@ + "</table>\n\n"@
        } else {
            "</table>\n\n"@
        },
        MdTagEnd::TableHead => "</tr>\n</thead>\n<tbody>\n"@,
        MdTagEnd::TableRow => "</tr>\n"@,
        MdTagEnd::TableCell => if s.in_table_head {
            "</th>"@
        } else {
            "</td>"@
        },
        MdTagEnd::Other => Seq::empty(),
    }
}

/// The state after an element closes.
pub open spec fn end_state(s: RenderView, tag: MdTagEnd) -> RenderView {
    match tag {
        MdTagEnd::CodeBlock => RenderView { in_code_block: false, ..s },
        MdTagEnd::List => RenderView { ordered_list: false, ..s },
        MdTagEnd::Image => RenderView { in_image: false, ..s },
        MdTagEnd::Table => RenderView { in_table_head: false, table_body_open: false, ..s },
        MdTagEnd::TableHead => RenderView { in_table_head: false, table_body_open: true, ..s },
        _ => s,
    }
}

/// The HTML written for one event in state `s`.
pub open spec fn event_html(s: RenderView, e: MdEvent) -> Seq<char> {
    match e {
        MdEvent::Start(tag) => start_html(s, tag),
        MdEvent::End(tag) => end_html(s, tag),
        MdEvent::Text(t) => if s.in_image {
            Seq::empty()
        } else {
            escape_text(t@)
        },
        MdEvent::Code(t) => "<code>"@ + escape_text(t@) + "</code>"@,
        MdEvent::SoftBreak => seq!['\n'],
        MdEvent::HardBreak => "<br>\n"@,
        MdEvent::Rule => "<hr>\n\n"@,
        MdEvent::Html(h) => escape_text(h@),
        MdEvent::InlineHtml(h) => escape_text(h@),
        MdEvent::Other => Seq::empty(),
    }
}

/// The state after one event in state `s`.
pub open spec fn next_state(s: RenderView, e: MdEvent) -> RenderView {
    match e {
        MdEvent::Start(tag) => start_state(s, tag),
        MdEvent::End(tag) => end_state(s, tag),
        MdEvent::Text(t) => if s.in_image {
            RenderView { image_alt: s.image_alt + t@, ..s }
        } else {
            s
        },
        _ => s,
    }
}

/// The state after rendering `events` from state `s`.
pub open spec fn state_after(s: RenderView, events: Seq<MdEvent>) -> RenderView
    decreases events.len(),
{
    if events.len() == 0 {
        s
    } else {
        next_state(state_after(s, events.drop_last()), events.last())
    }
}

/// The HTML written for `events`, from state `s`.
pub open spec fn render_from(s: RenderView, events: Seq<MdEvent>) -> Seq<char>
    decreases events.len(),
{
    if events.len() == 0 {
        Seq::empty()
    } else {
        render_from(s, events.drop_last()) + event_html(
            state_after(s, events.drop_last()),
            events.last(),
        )
    }
}

/// The HTML of a whole document's events.
pub open spec fn render_events(events: Seq<MdEvent>) -> Seq<char> {
    render_from(initial_state(), events)
}

/// Rendering a document in two pieces gives the same HTML as rendering it
/// whole: the second piece is rendered from the state the first one left,
/// and its HTML follows the first piece's HTML.
pub proof fn lemma_render_concat(s: RenderView, a: Seq<MdEvent>, b: Seq<MdEvent>)
    ensures
        state_after(s, a + b) == state_after(state_after(s, a), b),
        render_from(s, a + b) == render_from(s, a) + render_from(state_after(s, a), b),
    decreases b.len(),
{
    if b.len() == 0 {
        assert(a + b =~= a);
    } else {
        lemma_render_concat(s, a, b.drop_last());
        assert((a + b).drop_last() =~= a + b.drop_last());
        assert((a + b).last() == b.last());
        let mid = state_after(s, a);
        assert(render_from(s, a + b) =~= render_from(s, a) + render_from(mid, b));
    }
}

/// Text events, one for each of the texts.
pub open spec fn text_events(texts: Seq<String>) -> Seq<MdEvent> {
    texts.map_values(|t: String| MdEvent::Text(t))
}

/// The texts written one after another.
pub open spec fn joined_text(texts: Seq<String>) -> Seq<char>
    decreases texts.len(),
{
    if texts.len() == 0 {
        Seq::empty()
    } else {
        joined_text(texts.drop_last()) + texts.last()@
    }
}

/// Inside an image, text writes nothing and is gathered in the alt text.
proof fn lemma_image_texts(s: RenderView, texts: Seq<String>)
    requires
        s.in_image,
    ensures
        state_after(s, text_events(texts)) == (RenderView {
            image_alt: s.image_alt + joined_text(texts),
            ..s
        }),
        render_from(s, text_events(texts)) == Seq::<char>::empty(),
    decreases texts.len(),
{
    if texts.len() == 0 {
        assert(s.image_alt + joined_text(texts) =~= s.image_alt);
    } else {
        lemma_image_texts(s, texts.drop_last());
        assert(text_events(texts).drop_last() =~= text_events(texts.drop_last()));
        assert(s.image_alt + joined_text(texts) =~= s.image_alt + joined_text(texts.drop_last())
            + texts.last()@);
        assert(render_from(s, text_events(texts)) =~= Seq::<char>::empty());
    }
}

/// The text of an image becomes its alt attribute: an image start, some
/// text, and the image end are written as one `<img>` element whose `alt`
/// holds the texts in order, and the renderer is out of the image after it.
pub proof fn lemma_image_alt(s: RenderView, src: String, texts: Seq<String>)
    ensures
        ({
            let events = seq![MdEvent::Start(MdTag::Image(src))] + text_events(texts)
                + seq![MdEvent::End(MdTagEnd::Image)];
            &&& render_from(s, events) == "<img src=\""@ + src@ + "\" alt=\""@ + joined_text(texts)
                + "\">"@
            &&& !state_after(s, events).in_image
        }),
{
    let open = seq![MdEvent::Start(MdTag::Image(src))];
    let close = seq![MdEvent::End(MdTagEnd::Image)];
    let body = text_events(texts);
    assert(open.drop_last() =~= Seq::<MdEvent>::empty());
    assert(close.drop_last() =~= Seq::<MdEvent>::empty());
    let s1 = state_after(s, open);
    assert(s1.in_image && s1.image_alt == Seq::<char>::empty());
    lemma_image_texts(s1, texts);
    lemma_render_concat(s, open, body);
    lemma_render_concat(s, open + body, close);
    assert(Seq::<char>::empty() + joined_text(texts) =~= joined_text(texts));
    assert(render_from(s, open.drop_last()) == Seq::<char>::empty());
    assert(state_after(s, open.drop_last()) == s);
    assert(open.last() == MdEvent::Start(MdTag::Image(src)));
    assert(render_from(s, open) =~= "<img src=\""@ + src@ + "\" alt=\""@);
    let s2 = state_after(s, open + body);
    assert(s2.in_image && s2.image_alt == joined_text(texts));
    assert(render_from(s2, close.drop_last()) == Seq::<char>::empty());
    assert(state_after(s2, close.drop_last()) == s2);
    assert(close.last() == MdEvent::End(MdTagEnd::Image));
    assert(render_from(s2, close) =~= joined_text(texts) + "\">"@);
    assert(render_from(s, open + body) =~= render_from(s, open));
    assert(render_from(s, open + body + close) =~= "<img src=\""@ + src@ + "\" alt=\""@
        + joined_text(texts) + "\">"@);
}

/// Whether an event opens or closes a list.
pub open spec fn is_list_event(e: MdEvent) -> bool {
    ||| e matches MdEvent::Start(MdTag::List(_))
    ||| e matches MdEvent::End(MdTagEnd::List)
}

/// Events that neither open nor close a list leave the list kind as it was.
proof fn lemma_list_kind_kept(s: RenderView, inner: Seq<MdEvent>)
    requires
        forall|i: int| 0 <= i < inner.len() ==> !is_list_event(#[trigger] inner[i]),
    ensures
        state_after(s, inner).ordered_list == s.ordered_list,
    decreases inner.len(),
{
    if inner.len() > 0 {
        lemma_list_kind_kept(s, inner.drop_last());
        assert(!is_list_event(inner[inner.len() - 1]));
    }
}

/// A list that holds no other list is closed by the tag that opened it:
/// `<ol>` ... `</ol>` for a numbered list, `<ul>` ... `</ul>` for a bullet
/// list, and the renderer is back to "not ordered" after it.
pub proof fn lemma_list_closes_matching(s: RenderView, start: Option<u64>, inner: Seq<MdEvent>)
    requires
        forall|i: int| 0 <= i < inner.len() ==> !is_list_event(#[trigger] inner[i]),
    ensures
        ({
            let open = seq![MdEvent::Start(MdTag::List(start))];
            let events = open + inner + seq![MdEvent::End(MdTagEnd::List)];
            &&& render_from(s, events) == (if start is Some {
                "<ol>\n"@
            } else {
                "<ul>\n"@
            }) + render_from(state_after(s, open), inner) + (if start is Some {
                "</ol>\n"@
            } else {
                "</ul>\n"@
            })
            &&& !state_after(s, events).ordered_list
        }),
{
    let open = seq![MdEvent::Start(MdTag::List(start))];
    let close = seq![MdEvent::End(MdTagEnd::List)];
    assert(render_from(s, open.drop_last()) == Seq::<char>::empty());
    assert(state_after(s, open.drop_last()) == s);
    assert(open.last() == MdEvent::Start(MdTag::List(start)));
    let s1 = state_after(s, open);
    assert(s1.ordered_list == start is Some);
    lemma_list_kind_kept(s1, inner);
    lemma_render_concat(s, open, inner);
    lemma_render_concat(s, open + inner, close);
    let s2 = state_after(s, open + inner);
    assert(render_from(s2, close.drop_last()) == Seq::<char>::empty());
    assert(state_after(s2, close.drop_last()) == s2);
    assert(close.last() == MdEvent::End(MdTagEnd::List));
    assert(render_from(s2, close) =~= (if start is Some {
        "</ol>\n"@
    } else {
        "</ul>\n"@
    }));
    assert(render_from(s, open) =~= (if start is Some {
        "<ol>\n"@
    } else {
        "<ul>\n"@
    }));
}

/// Rendering a single event writes that event's HTML and moves to its next state.
proof fn lemma_render_one(s: RenderView, e: MdEvent)
    ensures
        render_from(s, seq![e]) == event_html(s, e),
        state_after(s, seq![e]) == next_state(s, e),
{
    let one = seq![e];
    assert(one.drop_last() =~= Seq::<MdEvent>::empty());
    assert(render_from(s, one.drop_last()) == Seq::<char>::empty());
    assert(state_after(s, one.drop_last()) == s);
    assert(render_from(s, one) =~= event_html(s, e));
}

/// The digit character of a heading level, `'1'` for `H1` up to `'6'` for `H6`.
pub open spec fn level_char(level: MdHeadingLevel) -> char {
    match level {
        MdHeadingLevel::H1 => '1',
        MdHeadingLevel::H2 => '2',
        MdHeadingLevel::H3 => '3',
        MdHeadingLevel::H4 => '4',
        MdHeadingLevel::H5 => '5',
        MdHeadingLevel::H6 => '6',
    }
}

/// A heading of each level is written with its own level number: its start
/// is `<hN>` and its end `</hN>` and a line break, with `N` the digit of the
/// level, in whatever state the renderer is.
pub proof fn lemma_heading_tags(s: RenderView, level: MdHeadingLevel)
    ensures
        render_from(s, seq![MdEvent::Start(MdTag::Heading(level))]) == "<h"@ + seq![
            level_char(level),
        ] + ">"@,
        render_from(s, seq![MdEvent::End(MdTagEnd::Heading(level))]) == "</h"@ + seq![
            level_char(level),
        ] + ">\n"@,
{
    reveal_strlit(">");
    lemma_render_one(s, MdEvent::Start(MdTag::Heading(level)));
    lemma_render_one(s, MdEvent::End(MdTagEnd::Heading(level)));
    assert(heading_digit(level) == level_char(level));
    assert("<h"@.push(heading_digit(level)).push('>') =~= "<h"@ + seq![level_char(level)] + ">"@);
    assert("</h"@.push(heading_digit(level)) + ">\n"@ =~= "</h"@ + seq![level_char(level)]
        + ">\n"@);
}

/// One table cell holding one run of text.
pub open spec fn cell_events(text: String) -> Seq<MdEvent> {
    seq![MdEvent::Start(MdTag::TableCell), MdEvent::Text(text), MdEvent::End(MdTagEnd::TableCell)]
}

/// A row of table cells, one for each text.
pub open spec fn cells_events(texts: Seq<String>) -> Seq<MdEvent>
    decreases texts.len(),
{
    if texts.len() == 0 {
        Seq::empty()
    } else {
        cells_events(texts.drop_last()) + cell_events(texts.last())
    }
}

/// Header cells: `<th>`, the escaped text, `</th>`, for each text in turn.
pub open spec fn header_cells_html(texts: Seq<String>) -> Seq<char>
    decreases texts.len(),
{
    if texts.len() == 0 {
        Seq::empty()
    } else {
        header_cells_html(texts.drop_last()) + "<th>"@ + escape_text(texts.last()@) + "</th>"@
    }
}

/// Inside a table head every cell is a header cell, and the cells leave the
/// renderer inside the head.
proof fn lemma_head_cells(s: RenderView, texts: Seq<String>)
    requires
        s.in_table_head,
        !s.in_image,
    ensures
        state_after(s, cells_events(texts)) == s,
        render_from(s, cells_events(texts)) == header_cells_html(texts),
    decreases texts.len(),
{
    if texts.len() > 0 {
        let t = texts.last();
        lemma_head_cells(s, texts.drop_last());
        let a = cells_events(texts.drop_last());
        let c = cell_events(t);
        lemma_render_concat(s, a, c);
        assert(c == seq![MdEvent::Start(MdTag::TableCell)] + seq![MdEvent::Text(t)] + seq![
            MdEvent::End(MdTagEnd::TableCell),
        ]);
        let c1 = seq![MdEvent::Start(MdTag::TableCell)];
        let c2 = seq![MdEvent::Text(t)];
        let c3 = seq![MdEvent::End(MdTagEnd::TableCell)];
        lemma_render_one(s, MdEvent::Start(MdTag::TableCell));
        lemma_render_one(s, MdEvent::Text(t));
        lemma_render_one(s, MdEvent::End(MdTagEnd::TableCell));
        lemma_render_concat(s, c1, c2);
        lemma_render_concat(s, c1 + c2, c3);
        assert(render_from(s, c) =~= "<th>"@ + escape_text(t@) + "</th>"@);
        assert(render_from(s, cells_events(texts)) =~= header_cells_html(texts));
    }
}

/// A table head is written as header cells: a table start, a head holding
/// any number of cells, and the head's end give `<table>`, `<thead>`, each
/// cell as `<th>text</th>`, then the close of the head and the open `<tbody>`.
pub proof fn lemma_table_head(s: RenderView, texts: Seq<String>)
    requires
        !s.in_image,
    ensures
        render_from(
            s,
            seq![MdEvent::Start(MdTag::Table), MdEvent::Start(MdTag::TableHead)] + cells_events(
                texts,
            ) + seq![MdEvent::End(MdTagEnd::TableHead)],
        ) == "<table>\n<thead>\n"@ + header_cells_html(texts) + "</tr>\n</thead>\n<tbody>\n"@,
{
    reveal_strlit("<table>\n");
    reveal_strlit("<thead>\n");
    reveal_strlit("<table>\n<thead>\n");
    let open1 = seq![MdEvent::Start(MdTag::Table)];
    let open2 = seq![MdEvent::Start(MdTag::TableHead)];
    let cells = cells_events(texts);
    let close = seq![MdEvent::End(MdTagEnd::TableHead)];
    lemma_render_one(s, MdEvent::Start(MdTag::Table));
    let s1 = state_after(s, open1);
    lemma_render_one(s1, MdEvent::Start(MdTag::TableHead));
    lemma_render_concat(s, open1, open2);
    let s2 = state_after(s, open1 + open2);
    assert(s2.in_table_head && !s2.in_image);
    lemma_head_cells(s2, texts);
    lemma_render_concat(s, open1 + open2, cells);
    lemma_render_one(s2, MdEvent::End(MdTagEnd::TableHead));
    lemma_render_concat(s, open1 + open2 + cells, close);
    assert(seq![MdEvent::Start(MdTag::Table), MdEvent::Start(MdTag::TableHead)] =~= open1 + open2);
    assert(render_from(s, open1 + open2) =~= "<table>\n<thead>\n"@);
    assert(render_from(s, open1 + open2 + cells + close) =~= "<table>\n<thead>\n"@
        + header_cells_html(texts) + "</tr>\n</thead>\n<tbody>\n"@);
}

/// The running state of the renderer.
struct Renderer {
    ordered_list: bool,
    in_code_block: bool,
    in_table_head: bool,
    table_body_open: bool,
    in_image: bool,
    image_alt: String,
}

impl View for Renderer {
    type V = RenderView;

    closed spec fn view(&self) -> RenderView {
        RenderView {
            ordered_list: self.ordered_list,
            in_code_block: self.in_code_block,
            in_table_head: self.in_table_head,
            table_body_open: self.table_body_open,
            in_image: self.in_image,
            image_alt: self.image_alt@,
        }
    }
}

impl Renderer {
    fn new() -> (r: Renderer)
        ensures
            r@ == initial_state(),
    {
        Renderer {
            ordered_list: false,
            in_code_block: false,
            in_table_head: false,
            table_body_open: false,
            in_image: false,
            image_alt: String::new(),
        }
    }

    fn start(&mut self, tag: &MdTag, out: &mut String)
        ensures
            final(self)@ == start_state(old(self)@, *tag),
            final(out)@ == old(out)@ + start_html(old(self)@, *tag),
    {
        match tag {
            MdTag::Heading(level) => {
                let n = heading_num(*level);
                out.append("<h");
                out.push((48u8 + n) as char);
                out.push('>');
            },
            MdTag::Paragraph => {
                out.append("<p>");
            },
            MdTag::BlockQuote => {
                out.append("<blockquote>\n");
            },
            MdTag::CodeBlock(info) => {
                self.in_code_block = true;
                let lang = match info {
                    Some(i) => trim(i.as_str()),
                    None => String::new(),
                };
                out.append("<pre><code");
                if !lang.as_str().is_empty() {
                    out.append(" class=\"language-");
                    out.append(lang.as_str());
                    out.push('"');
                }
                out.push('>');
            },
            MdTag::List(start) => {
                self.ordered_list = start.is_some();
                if self.ordered_list {
                    out.append("<ol>\n");
                } else {
                    out.append("<ul>\n");
                }
            },
            MdTag::Item => {
                out.append("<li>");
            },
            MdTag::Emphasis => out.append("<em>"),
            MdTag::Strong => out.append("<strong>"),
            MdTag::Strikethrough => out.append("<del>"),
            MdTag::Link(dest) => {
                out.append("<a href=\"");
                out.append(dest.as_str());
                out.append("\">");
            },
            MdTag::Image(dest) => {
                self.in_image = true;
                self.image_alt = String::new();
                out.append("<img src=\"");
                out.append(dest.as_str());
                out.append("\" alt=\"");
            },
            MdTag::Table => {
                out.append("<table>\n");
                out.append("<thead>\n");
                self.in_table_head = true;
            },
            MdTag::TableHead => {},
            MdTag::TableRow => {
                out.append("<tr>");
            },
            MdTag::TableCell => {
                if self.in_table_head {
                    out.append("<th>");
                } else {
                    out.append("<td>");
                }
            },
            MdTag::Other => {},
        }
    }

    fn end(&mut self, tag: &MdTagEnd, out: &mut String)
        ensures
            final(self)@ == end_state(old(self)@, *tag),
            final(out)@ == old(out)@ + end_html(old(self)@, *tag),
    {
        match tag {
            MdTagEnd::Heading(level) => {
                let n = heading_num(*level);
                out.append("</h");
                out.push((48u8 + n) as char);
                out.append(">\n");
            },
            MdTagEnd::Paragraph => {
                out.append("</p>\n\n");
            },
            MdTagEnd::BlockQuote => {
                out.append("</blockquote>\n\n");
            },
            MdTagEnd::CodeBlock => {
                self.in_code_block = false;
                out.append("</code></pre>\n\n");
            },
            MdTagEnd::List => {
                if self.ordered_list {
                    out.append("</ol>\n");
                } else {
                    out.append("</ul>\n");
                }
                self.ordered_list = false;
            },
            MdTagEnd::Item => {
                out.append("</li>\n");
            },
            MdTagEnd::Emphasis => out.append("</em>"),
            MdTagEnd::Strong => out.append("</strong>"),
            MdTagEnd::Strikethrough => out.append("</del>"),
            MdTagEnd::Link => out.append("</a>"),
            MdTagEnd::Image => {
                self.in_image = false;
                out.append(self.image_alt.as_str());
                out.append("\">");
            },
            MdTagEnd::Table => {
                if self.table_body_open {
                    out.append("</tbody>\n");
                }
                out.append("</table>\n\n");
                self.in_table_head = false;
                self.table_body_open = false;
            },
            MdTagEnd::TableHead => {
                self.in_table_head = false;
                out.append("</tr>\n</thead>\n<tbody>\n");
                self.table_body_open = true;
            },
            MdTagEnd::TableRow => {
                out.append("</tr>\n");
            },
            MdTagEnd::TableCell => {
                if self.in_table_head {
                    out.append("</th>");
                } else {
                    out.append("</td>");
                }
            },
            MdTagEnd::Other => {},
        }
    }

    fn event(&mut self, e: &MdEvent, out: &mut String)
        ensures
            final(self)@ == next_state(old(self)@, *e),
            final(out)@ == old(out)@ + event_html(old(self)@, *e),
    {
        match e {
            MdEvent::Start(tag) => self.start(tag, out),
            MdEvent::End(tag) => self.end(tag, out),
            MdEvent::Text(text) => {
                if self.in_image {
                    self.image_alt.append(text.as_str());
                } else if self.in_code_block {
                    let escaped = escape_html(text.as_str());
                    out.append(escaped.as_str());
                } else {
                    let escaped = escape_html(text.as_str());
                    out.append(escaped.as_str());
                }
            },
            MdEvent::Code(text) => {
                out.append("<code>");
                let escaped = escape_html(text.as_str());
                out.append(escaped.as_str());
                out.append("</code>");
            },
            MdEvent::SoftBreak => {
                out.push('\n');
            },
            MdEvent::HardBreak => {
                out.append("<br>\n");
            },
            MdEvent::Rule => {
                out.append("<hr>\n\n");
            },
            MdEvent::Html(html) | MdEvent::InlineHtml(html) => {
                let escaped = escape_html(html.as_str());
                out.append(escaped.as_str());
            },
            MdEvent::Other => {},
        }
    }
}

/// The HTML body for a sequence of Markdown events.
pub fn events_to_html(events: &Vec<MdEvent>) -> (out: String)
    ensures
        out@ == render_events(events@),
{
    let mut out = String::new();
    let mut r = Renderer::new();
    let n = events.len();
    for i in 0..n
        invariant
            n == events@.len(),
            r@ == state_after(initial_state(), events@.take(i as int)),
            out@ == render_from(initial_state(), events@.take(i as int)),
    {
        r.event(&events[i], &mut out);
        assert(events@.take(i + 1).drop_last() =~= events@.take(i as int));
    }
    assert(events@.take(n as int) =~= events@);
    out
}

} // verus!
