//! The print-ready HTML document: an A4 print stylesheet around the rendered body.

use vstd::prelude::*;

use crate::html::render_events;
use crate::markdown::{markdown_events, md_to_html, MARKDOWN_OPTIONS};

verus! {

/// The print stylesheet: A4 pages with 2.5cm margins, serif body text, and
/// tables, block quotes and code blocks kept from breaking across pages.
pub const PRINT_CSS: &'static str = r#"@media print {
@page {
size: a4;
margin: 2.5cm !important;
}
body {
font-family: "Georgia", "Times New Roman", serif;
font-size: 11pt;
line-height: 1.6;
color: #1a1a1a;
max-width: 100%;
}
table {
width: 100% !important;
border-collapse: collapse !important;
margin: 1.5rem 0 !important;
page-break-inside: avoid !important;
break-inside: avoid-page !important;
}
th, td {
border: 1px solid #dedede !important;
padding: 10px !important;
text-align: left !important;
}
th {
background-color: #f7f7f7 !important;
font-weight: bold;
}
blockquote {
display: block !important;
page-break-inside: avoid !important;
break-inside: avoid-page !important;
border-left: 3px solid #d0d0d0;
padding-left: 12pt;
margin: 1.5rem 0;
color: #555;
}
pre {
display: block !important;
page-break-inside: avoid !important;
break-inside: avoid-page !important;
background: #f5f5f5;
padding: 1rem;
border-radius: 4px;
overflow-x: auto;
margin: 1.5rem 0;
}
code {
font-family: "Courier New", monospace;
font-size: 0.9em;
}
pre code {
background: none;
padding: 0;
border-radius: 0;
}
img {
max-width: 100%;
height: auto;
}
h1, h2, h3, h4, h5, h6 {
color: #111111;
page-break-after: avoid;
}
ul, ol {
margin: 1rem 0;
padding-left: 2rem;
}
li {
margin: 0.4rem 0;
}
p {
margin: 0.8rem 0;
}
}"#;

/// The document around an HTML body: doctype, `<head>` with the print
/// stylesheet, and the body.
pub open spec fn document_html(body: Seq<char>) -> Seq<char> {
    "<!DOCTYPE html>\n<html lang=\"en\">\n<head>\n<meta charset=\"utf-8\">\n<style>"@ + PRINT_CSS@
        + "</style>\n</head>\n<body>\n"@ + body + "</body>\n</html>"@
}

/// The document holds the body whole: whatever the body, the document is the
/// same fixed text before it, the body itself unchanged, and `</body>` and
/// `</html>` after it, so its length is the empty document's length plus the
/// body's length.
pub proof fn lemma_document_keeps_body(body: Seq<char>)
    ensures
        ({
            let empty_doc = document_html(Seq::empty());
            let tail = "</body>\n</html>"@;
            let head_len = empty_doc.len() - tail.len();
            &&& document_html(body).len() == empty_doc.len() + body.len()
            &&& 0 <= head_len
            &&& document_html(body).take(head_len) == empty_doc.take(head_len)
            &&& document_html(body).subrange(head_len, head_len + body.len()) == body
            &&& document_html(body).skip(head_len + body.len()) == tail
        }),
{
    let head = "<!DOCTYPE html>\n<html lang=\"en\">\n<head>\n<meta charset=\"utf-8\">\n<style>"@
        + PRINT_CSS@ + "</style>\n</head>\n<body>\n"@;
    let tail = "</body>\n</html>"@;
    let empty_doc = document_html(Seq::empty());
    assert(empty_doc =~= head + tail);
    assert(document_html(body) =~= head + body + tail);
    let d = document_html(body);
    assert(d.take(head.len() as int) =~= head);
    assert(empty_doc.take(head.len() as int) =~= head);
    assert(d.subrange(head.len() as int, (head.len() + body.len()) as int) =~= body);
    assert(d.skip((head.len() + body.len()) as int) =~= tail);
}

/// The complete HTML document for a Markdown text, ready to be printed to PDF.
pub fn render(markdown: &str) -> (html: String)
    ensures
        html@ == document_html(render_events(markdown_events(markdown@, MARKDOWN_OPTIONS))),
{
    let body = md_to_html(markdown);
    let mut html = String::new();
    html.append("<!DOCTYPE html>\n<html lang=\"en\">\n<head>\n<meta charset=\"utf-8\">\n<style>");
    html.append(PRINT_CSS);
    html.append("</style>\n</head>\n<body>\n");
    html.append(body.as_str());
    html.append("</body>\n</html>");
    html
}

} // verus!
