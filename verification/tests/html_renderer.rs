use markchini::markdown::md_to_html;

#[test]
fn plain_text() {
    let html = md_to_html("Hello world");
    assert!(html.contains("<p>Hello world</p>"));
}

#[test]
fn heading() {
    let html = md_to_html("# H1\n## H2\n### H3");
    assert!(html.contains("<h1>H1</h1>"));
    assert!(html.contains("<h2>H2</h2>"));
    assert!(html.contains("<h3>H3</h3>"));
}

#[test]
fn emphasis_and_strong() {
    let html = md_to_html("*italic* **bold**");
    assert!(html.contains("<em>italic</em>"));
    assert!(html.contains("<strong>bold</strong>"));
}

#[test]
fn strikethrough() {
    let html = md_to_html("~~struck~~");
    assert!(html.contains("<del>struck</del>"));
}

#[test]
fn html_escaping() {
    let html = md_to_html("<angle> & \"quote\"");
    assert!(html.contains("&lt;angle&gt;"));
    assert!(html.contains(" &amp; "));
    assert!(html.contains("\"quote\""));
}

#[test]
fn links() {
    let html = md_to_html("[click](https://x.com)");
    assert!(html.contains("<a href=\"https://x.com\">click</a>"));
}

#[test]
fn unordered_list() {
    let html = md_to_html("- a\n- b");
    assert!(html.contains("<ul>"));
    assert!(html.contains("<li>a</li>"));
    assert!(html.contains("<li>b</li>"));
    assert!(html.contains("</ul>"));
}

#[test]
fn ordered_list() {
    let html = md_to_html("1. one\n2. two");
    assert!(html.contains("<ol>"));
    assert!(html.contains("<li>one</li>"));
    assert!(html.contains("</ol>"));
}

#[test]
fn code_block() {
    let html = md_to_html("```rust\nfn main() {}\n```");
    assert!(html.contains("<pre><code class=\"language-rust\">"));
    assert!(html.contains("fn main() {}"));
    assert!(html.contains("</code></pre>"));
}

#[test]
fn inline_code() {
    let html = md_to_html("use `code` here");
    assert!(html.contains("<code>code</code>"));
}

#[test]
fn blockquote() {
    let html = md_to_html("> quoted");
    assert!(html.contains("<blockquote>"));
    assert!(html.contains("quoted"));
    assert!(html.contains("</blockquote>"));
}

#[test]
fn table() {
    let html = md_to_html("| H1 | H2 |\n|---|----|\n| A | B |");
    assert!(html.contains("<table>"));
    assert!(html.contains("<thead>"));
    assert!(html.contains("<th>H1</th>"));
    assert!(html.contains("<tbody>"));
    assert!(html.contains("<td>A</td>"));
    assert!(html.contains("</table>"));
}

#[test]
fn horizontal_rule() {
    let html = md_to_html("---");
    assert!(html.contains("<hr>"));
}

#[test]
fn image_alt() {
    let html = md_to_html("![alt](img.png)");
    assert!(html.contains("<img src=\"img.png\" alt=\"alt\">"));
}

#[test]
fn hard_break() {
    let html = md_to_html("line1  \nline2");
    assert!(html.contains("<br>"));
}
