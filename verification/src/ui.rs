//! Serving the web interface: which content type a UI file is sent with.
//! This build does not embed the interface's files, so every lookup finds
//! nothing and the UI routes answer 404.

use vstd::prelude::*;
use crate::text::{chars_of, ends_with, has_suffix};

verus! {

/// The content types of UI files.
#[derive(Debug, Clone, Copy, PartialEq, Eq)]
pub enum UiContentType {
    Html,
    JavaScript,
    Wasm,
    Css,
    Json,
    Png,
    Svg,
    Icon,
    Binary,
}

/// The content type of a UI file, by the first matching extension among
/// `.html`, `.js`, `.wasm`, `.css`, `.json`, `.png`, `.svg` and `.ico`;
/// binary for anything else.
pub open spec fn content_type_spec(path: Seq<char>) -> UiContentType {
    if has_suffix(path, ".html"@) {
        UiContentType::Html
    } else if has_suffix(path, ".js"@) {
        UiContentType::JavaScript
    } else if has_suffix(path, ".wasm"@) {
        UiContentType::Wasm
    } else if has_suffix(path, ".css"@) {
        UiContentType::Css
    } else if has_suffix(path, ".json"@) {
        UiContentType::Json
    } else if has_suffix(path, ".png"@) {
        UiContentType::Png
    } else if has_suffix(path, ".svg"@) {
        UiContentType::Svg
    } else if has_suffix(path, ".ico"@) {
        UiContentType::Icon
    } else {
        UiContentType::Binary
    }
}

/// Determine the content type of a UI file from its extension.
pub fn content_type_for_path(path: &str) -> (t: UiContentType)
    ensures
        t == content_type_spec(path@),
{
    let v = chars_of(path);
    if ends_with(&v, ".html") {
        UiContentType::Html
    } else if ends_with(&v, ".js") {
        UiContentType::JavaScript
    } else if ends_with(&v, ".wasm") {
        UiContentType::Wasm
    } else if ends_with(&v, ".css") {
        UiContentType::Css
    } else if ends_with(&v, ".json") {
        UiContentType::Json
    } else if ends_with(&v, ".png") {
        UiContentType::Png
    } else if ends_with(&v, ".svg") {
        UiContentType::Svg
    } else if ends_with(&v, ".ico") {
        UiContentType::Icon
    } else {
        UiContentType::Binary
    }
}

impl UiContentType {
    /// The media type: top-level type, subtype, and charset when one is sent.
    pub fn media_type(&self) -> (m: (&'static str, &'static str, Option<&'static str>))
        ensures
            m.0@ == match *self {
                UiContentType::Html | UiContentType::JavaScript | UiContentType::Css => "text"@,
                UiContentType::Png | UiContentType::Svg | UiContentType::Icon => "image"@,
                _ => "application"@,
            },
            m.1@ == match *self {
                UiContentType::Html => "html"@,
                UiContentType::JavaScript => "javascript"@,
                UiContentType::Wasm => "wasm"@,
                UiContentType::Css => "css"@,
                UiContentType::Json => "json"@,
                UiContentType::Png => "png"@,
                UiContentType::Svg => "svg+xml"@,
                UiContentType::Icon => "x-icon"@,
                UiContentType::Binary => "octet-stream"@,
            },
            match *self {
                UiContentType::Html | UiContentType::Css => m.2 matches Some(c) && c@ == "utf-8"@,
                _ => m.2 is None,
            },
    {
        match self {
            UiContentType::Html => ("text", "html", Some("utf-8")),
            UiContentType::JavaScript => ("text", "javascript", None),
            UiContentType::Wasm => ("application", "wasm", None),
            UiContentType::Css => ("text", "css", Some("utf-8")),
            UiContentType::Json => ("application", "json", None),
            UiContentType::Png => ("image", "png", None),
            UiContentType::Svg => ("image", "svg+xml", None),
            UiContentType::Icon => ("image", "x-icon", None),
            UiContentType::Binary => ("application", "octet-stream", None),
        }
    }
}

/// The embedded file at `path`; none is embedded in this build.
pub fn get_embedded_file(path: &str) -> (f: Option<Vec<u8>>)
    ensures
        f is None,
{
    None
}

/// The embedded `index.html`; none is embedded in this build.
pub fn get_index_html() -> (f: Option<Vec<u8>>)
    ensures
        f is None,
{
    None
}

/// Whether the UI's files are embedded: not in this build.
pub fn is_ui_embedded() -> (b: bool)
    ensures
        !b,
{
    false
}

} // verus!
