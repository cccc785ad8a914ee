use markchini::browser::{first_existing_edge, pdf_error_message, EDGE_PATH_X64, EDGE_PATH_X86};
use markchini::document::{render, PRINT_CSS};
use markchini::events::{heading_num, MdEvent, MdHeadingLevel, MdTag, MdTagEnd};
use markchini::files::{image_from_file, image_mime, markdown_save_path, pdf_save_path};
use markchini::html::events_to_html;
use markchini::markdown::{md_to_html, MARKDOWN_OPTIONS};
use markchini::text::{chars_of, escape_html, has_suffix, same_text, trim};

fn text(s: &str) -> MdEvent {
    MdEvent::Text(s.to_string())
}

#[test]
fn escape_replaces_only_amp_and_angles() {
    assert_eq!(escape_html("a<b>&c\"d'"), "a&lt;b&gt;&amp;c\"d'");
    assert_eq!(escape_html(""), "");
    assert_eq!(escape_html("&amp;"), "&amp;amp;");
}

#[test]
fn escape_in_pieces_equals_escape_whole() {
    let whole = escape_html("x < y & z");
    let pieces = format!("{}{}", escape_html("x < "), escape_html("y & z"));
    assert_eq!(whole, pieces);
}

#[test]
fn trim_removes_unicode_whitespace() {
    assert_eq!(trim("  rust \t\n"), "rust");
    assert_eq!(trim("\u{3000}py\u{a0}"), "py");
    assert_eq!(trim("   "), "");
    assert_eq!(trim(""), "");
    assert_eq!(trim("a b"), "a b");
}

#[test]
fn suffix_and_equality() {
    assert!(has_suffix("notes.md", ".md"));
    assert!(!has_suffix("md", ".md"));
    assert!(has_suffix("x", ""));
    assert!(same_text("jpeg", "jpeg"));
    assert!(!same_text("jpeg", "jpg"));
    assert_eq!(chars_of("héllo"), vec!['h', 'é', 'l', 'l', 'o']);
}

#[test]
fn heading_numbers() {
    assert_eq!(heading_num(MdHeadingLevel::H1), 1);
    assert_eq!(heading_num(MdHeadingLevel::H4), 4);
    assert_eq!(heading_num(MdHeadingLevel::H6), 6);
}

#[test]
fn markdown_save_path_appends_md() {
    assert_eq!(markdown_save_path("notes".to_string()), "notes.md");
    assert_eq!(markdown_save_path("notes.md".to_string()), "notes.md");
    assert_eq!(markdown_save_path("notes.markdown".to_string()), "notes.markdown");
    assert_eq!(markdown_save_path("notes.MD".to_string()), "notes.MD.md");
    assert_eq!(markdown_save_path("notes.txt".to_string()), "notes.txt.md");
}

#[test]
fn markdown_save_path_is_settled_after_one_call() {
    let once = markdown_save_path("draft".to_string());
    let twice = markdown_save_path(once.clone());
    assert_eq!(once, twice);
}

#[test]
fn pdf_save_path_appends_pdf() {
    assert_eq!(pdf_save_path("out".to_string()), "out.pdf");
    assert_eq!(pdf_save_path("out.pdf".to_string()), "out.pdf");
    assert_eq!(pdf_save_path("out.PDF".to_string()), "out.PDF.pdf");
    let once = pdf_save_path("x".to_string());
    assert_eq!(pdf_save_path(once.clone()), once);
}

#[test]
fn image_mime_by_extension() {
    assert_eq!(image_mime("png"), "image/png");
    assert_eq!(image_mime("jpg"), "image/jpeg");
    assert_eq!(image_mime("jpeg"), "image/jpeg");
    assert_eq!(image_mime("gif"), "image/gif");
    assert_eq!(image_mime("webp"), "image/webp");
    assert_eq!(image_mime("bmp"), "image/bmp");
    assert_eq!(image_mime("svg"), "image/svg+xml");
    assert_eq!(image_mime("tiff"), "image/png");
    assert_eq!(image_mime(""), "image/png");
    assert_eq!(image_mime("PNG"), "image/png");
}

#[test]
fn image_from_file_encodes_base64() {
    let img = image_from_file("jpg", b"hello");
    assert_eq!(img.mime, "image/jpeg");
    assert_eq!(img.data, "aGVsbG8=");
    let empty = image_from_file("gif", b"");
    assert_eq!(empty.data, "");
}

#[test]
fn render_wraps_body_in_print_document() {
    let doc = render("# Title");
    let body = md_to_html("# Title");
    let expected = format!(
        "<!DOCTYPE html>\n<html lang=\"en\">\n<head>\n<meta charset=\"utf-8\">\n<style>{}</style>\n</head>\n<body>\n{}</body>\n</html>",
        PRINT_CSS, body
    );
    assert_eq!(doc, expected);
    assert!(doc.contains("<h1>Title</h1>\n"));
    assert!(PRINT_CSS.contains("size: a4;"));
}

#[test]
fn options_are_the_six_extensions() {
    assert_eq!(MARKDOWN_OPTIONS, 2 | 4 | 8 | 16 | 64 | 1024);
}

#[test]
fn image_text_becomes_alt_attribute() {
    let events = vec![
        MdEvent::Start(MdTag::Image("pic.png".to_string())),
        text("a "),
        text("<b>"),
        MdEvent::End(MdTagEnd::Image),
        text("after"),
    ];
    assert_eq!(events_to_html(&events), "<img src=\"pic.png\" alt=\"a <b>\">after");
}

#[test]
fn list_closes_with_its_own_tag() {
    let numbered = vec![
        MdEvent::Start(MdTag::List(Some(1))),
        MdEvent::Start(MdTag::Item),
        text("one"),
        MdEvent::End(MdTagEnd::Item),
        MdEvent::End(MdTagEnd::List),
    ];
    assert_eq!(events_to_html(&numbered), "<ol>\n<li>one</li>\n</ol>\n");
    let bullets = vec![
        MdEvent::Start(MdTag::List(None)),
        MdEvent::End(MdTagEnd::List),
    ];
    assert_eq!(events_to_html(&bullets), "<ul>\n</ul>\n");
}

#[test]
fn nested_list_inside_numbered_list_closes_outer_as_bullets() {
    let html = md_to_html("1. a\n   - b");
    assert!(html.starts_with("<ol>\n"));
    assert!(html.ends_with("</ul>\n</li>\n</ul>\n"));
}

#[test]
fn table_head_and_body_cells() {
    let events = vec![
        MdEvent::Start(MdTag::Table),
        MdEvent::Start(MdTag::TableHead),
        MdEvent::Start(MdTag::TableCell),
        text("H"),
        MdEvent::End(MdTagEnd::TableCell),
        MdEvent::End(MdTagEnd::TableHead),
        MdEvent::Start(MdTag::TableRow),
        MdEvent::Start(MdTag::TableCell),
        text("v"),
        MdEvent::End(MdTagEnd::TableCell),
        MdEvent::End(MdTagEnd::TableRow),
        MdEvent::End(MdTagEnd::Table),
    ];
    assert_eq!(
        events_to_html(&events),
        "<table>\n<thead>\n<th>H</th></tr>\n</thead>\n<tbody>\n<tr><td>v</td></tr>\n</tbody>\n</table>\n\n"
    );
}

#[test]
fn heading_and_breaks_and_rule() {
    let events = vec![
        MdEvent::Start(MdTag::Heading(MdHeadingLevel::H5)),
        text("T"),
        MdEvent::End(MdTagEnd::Heading(MdHeadingLevel::H5)),
        MdEvent::SoftBreak,
        MdEvent::HardBreak,
        MdEvent::Rule,
        MdEvent::Other,
    ];
    assert_eq!(events_to_html(&events), "<h5>T</h5>\n\n<br>\n<hr>\n\n");
}

#[test]
fn code_block_language_is_trimmed() {
    let events = vec![
        MdEvent::Start(MdTag::CodeBlock(Some("  py  ".to_string()))),
        text("a<b\n"),
        MdEvent::End(MdTagEnd::CodeBlock),
    ];
    assert_eq!(events_to_html(&events), "<pre><code class=\"language-py\">a&lt;b\n</code></pre>\n\n");
    let indented = vec![
        MdEvent::Start(MdTag::CodeBlock(None)),
        MdEvent::End(MdTagEnd::CodeBlock),
    ];
    assert_eq!(events_to_html(&indented), "<pre><code></code></pre>\n\n");
    let blank = vec![MdEvent::Start(MdTag::CodeBlock(Some(" ".to_string())))];
    assert_eq!(events_to_html(&blank), "<pre><code>");
}

#[test]
fn raw_html_is_escaped() {
    let html = md_to_html("<div>x</div>\n");
    assert!(html.contains("&lt;div&gt;x&lt;/div&gt;"));
    let inline = md_to_html("a <span>b</span>");
    assert!(inline.contains("&lt;span&gt;"));
    assert!(!inline.contains("<span>"));
}

#[test]
fn links_and_inline_code() {
    let events = vec![
        MdEvent::Start(MdTag::Link("u".to_string())),
        MdEvent::Code("<x>".to_string()),
        MdEvent::End(MdTagEnd::Link),
        MdEvent::Start(MdTag::BlockQuote),
        MdEvent::End(MdTagEnd::BlockQuote),
    ];
    assert_eq!(
        events_to_html(&events),
        "<a href=\"u\"><code>&lt;x&gt;</code></a><blockquote>\n</blockquote>\n\n"
    );
}

#[test]
fn empty_document_renders_nothing() {
    assert_eq!(md_to_html(""), "");
    assert_eq!(events_to_html(&Vec::new()), "");
}

#[test]
fn footnotes_math_and_tasks_write_nothing_of_their_own() {
    let html = md_to_html("- [x] done $x$");
    assert!(html.contains("<li>"));
    assert!(!html.contains("[x]"));
    assert!(!html.contains("$x$"));
}

#[test]
fn edge_choice_prefers_the_32_bit_path() {
    assert_eq!(first_existing_edge(true, true), Some(EDGE_PATH_X86.to_string()));
    assert_eq!(first_existing_edge(true, false), Some(EDGE_PATH_X86.to_string()));
    assert_eq!(first_existing_edge(false, true), Some(EDGE_PATH_X64.to_string()));
    assert_eq!(first_existing_edge(false, false), None);
}

#[test]
fn base64_groups_and_padding() {
    assert_eq!(image_from_file("png", b"Man").data, "TWFu");
    assert_eq!(image_from_file("png", b"Ma").data, "TWE=");
    assert_eq!(image_from_file("png", b"M").data, "TQ==");
    assert_eq!(image_from_file("png", &[0xfb, 0xff]).data, "+/8=");
    assert_eq!(image_from_file("png", &[0, 0, 0, 255]).data, "AAAA/w==");
}

#[test]
fn base64_length_is_four_per_started_triple() {
    for n in 0..20usize {
        let bytes: Vec<u8> = (0..n).map(|i| (i * 37) as u8).collect();
        let data = image_from_file("png", &bytes).data;
        assert_eq!(data.len(), 4 * ((n + 2) / 3));
        assert!(data.chars().all(|c| c.is_ascii_alphanumeric() || c == '+' || c == '/' || c == '='));
    }
}

#[test]
fn pdf_error_message_repeats_detail() {
    assert_eq!(
        pdf_error_message("No browser found"),
        "Headless browser PDF failed: No browser found. Ensure Google Chrome or Microsoft Edge is installed.\nDetail: No browser found"
    );
}

#[test]
fn escaped_text_reads_back() {
    for s in ["a<&>b", "&amp;", "&lt;x&gt;", "plain", ""] {
        let back = escape_html(s).replace("&lt;", "<").replace("&gt;", ">").replace("&amp;", "&");
        assert_eq!(back, s);
    }
}
