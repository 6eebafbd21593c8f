//! Book file formats served by the catalog, and their MIME types.

use vstd::prelude::*;

use crate::text::str_eq;

verus! {

/// A downloadable book format.
#[derive(Clone, Copy, Debug, PartialEq, Eq, Structural)]
pub enum Format {
    EPUB,
    PDF,
    MOBI,
}

/// What Unicode case folding lowers a string to.
pub uninterp spec fn lower_of(s: Seq<char>) -> Seq<char>;

/// Relies on str::to_lowercase: the result depends on the characters
/// alone.
#[verifier::external_body]
fn lowercase(s: &str) -> (r: String)
    ensures
        r@ == lower_of(s@),
{
    s.to_lowercase()
}

/// What a lowercase format name denotes.
pub open spec fn spec_format_of_lower(s: Seq<char>) -> Option<Format> {
    if s == "epub"@ {
        Some(Format::EPUB)
    } else if s == "pdf"@ {
        Some(Format::PDF)
    } else if s == "mobi"@ {
        Some(Format::MOBI)
    } else {
        None
    }
}

impl Format {
    /// The format an already lowercase name denotes.
    pub fn from_lowered(s: &str) -> (r: Option<Format>)
        ensures
            r == spec_format_of_lower(s@),
    {
        if str_eq(s, "epub") {
            Some(Format::EPUB)
        } else if str_eq(s, "pdf") {
            Some(Format::PDF)
        } else if str_eq(s, "mobi") {
            Some(Format::MOBI)
        } else {
            None
        }
    }

    /// The format a name denotes, compared without regard to case.
    pub fn from_str(s: &str) -> (r: Option<Format>)
        ensures
            r == spec_format_of_lower(lower_of(s@)),
    {
        let low = lowercase(s);
        Format::from_lowered(low.as_str())
    }
}

/// The MIME type a format name is served under.
pub open spec fn spec_mime_type(s: Seq<char>) -> Seq<char> {
    if s == "epub"@ {
        "application/epub+zip"@
    } else if s == "pdf"@ {
        "application/pdf"@
    } else if s == "mobi"@ {
        "application/x-mobipocket-ebook"@
    } else {
        "application/octet-stream"@
    }
}

/// The MIME type for a format name; anything unknown is served as plain
/// bytes.
pub fn mime_type(format: &str) -> (r: &'static str)
    ensures
        r@ == spec_mime_type(format@),
{
    if str_eq(format, "epub") {
        "application/epub+zip"
    } else if str_eq(format, "pdf") {
        "application/pdf"
    } else if str_eq(format, "mobi") {
        "application/x-mobipocket-ebook"
    } else {
        "application/octet-stream"
    }
}

} // verus!
