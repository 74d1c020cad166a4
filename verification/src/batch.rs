//! What a batch run decides about a file, from its name alone.

use crate::text::same_text;
use vstd::prelude::*;

verus! {

/// The extension of the files that are converted.
pub const MARKDOWN_EXTENSION: &'static str = "md";

/// The extension of the files that are written.
pub const HTML_EXTENSION: &'static str = "html";

/// What a file is to a batch run.
#[derive(Clone, Copy, Debug, PartialEq, Eq, Structural)]
pub enum FileKind {
    /// A source: it is converted.
    Markdown,
    /// Most likely the output of an earlier run: it is passed over in silence.
    Html,
    /// Anything else: it is passed over with a warning.
    Unsupported,
}

/// The kind of a file with the given extension, or with none.
pub open spec fn kind_of(extension: Option<Seq<char>>) -> FileKind {
    match extension {
        Some(ext) => if ext == MARKDOWN_EXTENSION@ {
            FileKind::Markdown
        } else if ext == HTML_EXTENSION@ {
            FileKind::Html
        } else {
            FileKind::Unsupported
        },
        None => FileKind::Unsupported,
    }
}

/// The characters of an extension that may be absent.
pub open spec fn extension_view(extension: Option<&str>) -> Option<Seq<char>> {
    match extension {
        Some(ext) => Some(ext@),
        None => None,
    }
}

/// Decides what a file is from its extension. The comparison is exact: an
/// extension in capitals is not Markdown.
pub fn file_kind(extension: Option<&str>) -> (kind: FileKind)
    ensures
        kind == kind_of(extension_view(extension)),
{
    match extension {
        Some(ext) => {
            if same_text(ext, MARKDOWN_EXTENSION) {
                FileKind::Markdown
            } else if same_text(ext, HTML_EXTENSION) {
                FileKind::Html
            } else {
                FileKind::Unsupported
            }
        },
        None => FileKind::Unsupported,
    }
}

/// Tests whether writing to `output` would replace the file at `input`:
/// whether the two paths read the same.
pub fn overwrites_input(input: &str, output: &str) -> (clash: bool)
    ensures
        clash == (input@ == output@),
{
    same_text(input, output)
}

} // verus!
