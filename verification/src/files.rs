//! What the editor's file commands compute: save paths with the right
//! extension, and images read from disk turned into inline data.

use vstd::prelude::*;

use base64::Engine;

use crate::encoding::base64_standard;
use crate::text::{ends_with, has_suffix, same_text};

verus! {

/// A Markdown file that was opened: where it lives and what it holds.
pub struct FileResult {
    pub path: String,
    pub content: String,
}

/// An image that was picked: its MIME type and its bytes in Base64.
pub struct ImageResult {
    pub mime: String,
    pub data: String,
}

/// The path a Markdown file is saved under: kept when it already ends in
/// `.md` or `.markdown`, else with `.md` appended.
pub open spec fn with_markdown_extension(path: Seq<char>) -> Seq<char> {
    if ends_with(path, ".md"@) || ends_with(path, ".markdown"@) {
        path
    } else {
        path + ".md"@
    }
}

/// The path a PDF is saved under: kept when it already ends in `.pdf`, else
/// with `.pdf` appended.
pub open spec fn with_pdf_extension(path: Seq<char>) -> Seq<char> {
    if ends_with(path, ".pdf"@) {
        path
    } else {
        path + ".pdf"@
    }
}

/// The MIME type of an image, by its file extension; `image/png` for any
/// extension that is not known.
pub open spec fn image_mime_of(ext: Seq<char>) -> Seq<char> {
    if ext == "png"@ {
        "image/png"@
    } else if ext == "jpg"@ || ext == "jpeg"@ {
        "image/jpeg"@
    } else if ext == "gif"@ {
        "image/gif"@
    } else if ext == "webp"@ {
        "image/webp"@
    } else if ext == "bmp"@ {
        "image/bmp"@
    } else if ext == "svg"@ {
        "image/svg+xml"@
    } else {
        "image/png"@
    }
}

/// Choosing the Markdown save path twice changes nothing more than choosing
/// it once, and the chosen path always ends in `.md` or `.markdown`.
pub proof fn lemma_markdown_path_settled(path: Seq<char>)
    ensures
        with_markdown_extension(with_markdown_extension(path)) == with_markdown_extension(path),
        ends_with(with_markdown_extension(path), ".md"@) || ends_with(
            with_markdown_extension(path),
            ".markdown"@,
        ),
{
    reveal_strlit(".md");
    let p = path + ".md"@;
    if !(ends_with(path, ".md"@) || ends_with(path, ".markdown"@)) {
        assert(p.subrange(p.len() - 3, p.len() as int) =~= ".md"@);
    }
}

/// Choosing the PDF save path twice changes nothing more than choosing it
/// once, and the chosen path always ends in `.pdf`.
pub proof fn lemma_pdf_path_settled(path: Seq<char>)
    ensures
        with_pdf_extension(with_pdf_extension(path)) == with_pdf_extension(path),
        ends_with(with_pdf_extension(path), ".pdf"@),
{
    reveal_strlit(".pdf");
    let p = path + ".pdf"@;
    if !ends_with(path, ".pdf"@) {
        assert(p.subrange(p.len() - 4, p.len() as int) =~= ".pdf"@);
    }
}

/// The chosen Markdown path is kept whole: it is always the start of the
/// result; the result is the path itself when it ends in `.md` or
/// `.markdown`, and otherwise exactly the path followed by `.md`.
pub proof fn lemma_markdown_path_keeps_path(path: Seq<char>)
    ensures
        with_markdown_extension(path).take(path.len() as int) == path,
        ends_with(path, ".md"@) || ends_with(path, ".markdown"@) ==> with_markdown_extension(path)
            == path,
        !(ends_with(path, ".md"@) || ends_with(path, ".markdown"@)) ==> with_markdown_extension(
            path,
        ).skip(path.len() as int) == ".md"@,
        !(ends_with(path, ".md"@) || ends_with(path, ".markdown"@)) ==> with_markdown_extension(
            path,
        ).len() == path.len() + 3,
{
    reveal_strlit(".md");
    let p = path + ".md"@;
    assert(path.take(path.len() as int) =~= path);
    assert(p.take(path.len() as int) =~= path);
    assert(p.skip(path.len() as int) =~= ".md"@);
}

/// The chosen PDF path is kept whole: it is always the start of the result;
/// the result is the path itself when it ends in `.pdf`, and otherwise
/// exactly the path followed by `.pdf`.
pub proof fn lemma_pdf_path_keeps_path(path: Seq<char>)
    ensures
        with_pdf_extension(path).take(path.len() as int) == path,
        ends_with(path, ".pdf"@) ==> with_pdf_extension(path) == path,
        !ends_with(path, ".pdf"@) ==> with_pdf_extension(path).skip(path.len() as int) == ".pdf"@,
        !ends_with(path, ".pdf"@) ==> with_pdf_extension(path).len() == path.len() + 4,
{
    reveal_strlit(".pdf");
    let p = path + ".pdf"@;
    assert(path.take(path.len() as int) =~= path);
    assert(p.take(path.len() as int) =~= path);
    assert(p.skip(path.len() as int) =~= ".pdf"@);
}

/// Encodes bytes with the `base64` crate's `general_purpose::STANDARD`
/// engine (`Engine::encode`): standard Base64 with `=` padding, as
/// `base64_standard` states it.
#[verifier::external_body]
fn encode_base64(bytes: &[u8]) -> (res: String)
    ensures
        res@ == base64_standard(bytes@),
{
    base64::engine::general_purpose::STANDARD.encode(bytes)
}

/// The path to save a Markdown file under, given the path the user chose.
pub fn markdown_save_path(path: String) -> (res: String)
    ensures
        res@ == with_markdown_extension(path@),
{
    let mut path = path;
    if !has_suffix(path.as_str(), ".md") && !has_suffix(path.as_str(), ".markdown") {
        path.append(".md");
    }
    path
}

/// The path to save a PDF under, given the path the user chose.
pub fn pdf_save_path(path: String) -> (res: String)
    ensures
        res@ == with_pdf_extension(path@),
{
    let mut path = path;
    if !has_suffix(path.as_str(), ".pdf") {
        path.append(".pdf");
    }
    path
}

/// The MIME type of an image file with the given extension (without the dot).
pub fn image_mime(ext: &str) -> (mime: String)
    ensures
        mime@ == image_mime_of(ext@),
{
    let mut mime = String::new();
    if same_text(ext, "png") {
        mime.append("image/png");
    } else if same_text(ext, "jpg") || same_text(ext, "jpeg") {
        mime.append("image/jpeg");
    } else if same_text(ext, "gif") {
        mime.append("image/gif");
    } else if same_text(ext, "webp") {
        mime.append("image/webp");
    } else if same_text(ext, "bmp") {
        mime.append("image/bmp");
    } else if same_text(ext, "svg") {
        mime.append("image/svg+xml");
    } else {
        mime.append("image/png");
    }
    mime
}

/// An image picked from disk, ready to be inlined as a data URL: its MIME
/// type by extension and its bytes in standard Base64.
pub fn image_from_file(ext: &str, bytes: &[u8]) -> (image: ImageResult)
    ensures
        image.mime@ == image_mime_of(ext@),
        image.data@ == base64_standard(bytes@),
{
    let mime = image_mime(ext);
    let data = encode_base64(bytes);
    ImageResult { mime, data }
}

} // verus!
