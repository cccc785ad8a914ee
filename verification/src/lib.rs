//! Markdown to print-ready HTML, with verified rendering rules.
//!
//! - `text`: collecting, comparing, trimming and HTML-escaping text.
//! - `events`: the Markdown events the renderer reads, as plain values.
//! - `markdown`: parsing with pulldown-cmark, and `md_to_html`.
//! - `html`: the renderer from events to an HTML body, and its laws.
//! - `document`: the full HTML document with the print stylesheet.
//! - `files`: save paths and picked images for the editor's file commands.
//! - `browser`: which Edge install to print with, and the message when printing fails.

pub mod text;
pub mod events;
pub mod html;
pub mod markdown;
pub mod document;
pub mod files;
pub mod browser;
pub mod encoding;
