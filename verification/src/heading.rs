//! What a heading is replaced by: a title block, or an opening tag with an
//! anchor id.

use crate::slug::{slug, slug_of};
use crate::text::{chars_of, matches_at, string_of};
use vstd::prelude::*;

verus! {

/// First-level heading text that begins with this is a title directive.
pub const TITLE_PREFIX: &'static str = "TITLE: ";

/// What stands before the title in a title block.
pub const TITLE_BLOCK_OPEN: &'static str = "<title>";

/// What stands between the two copies of the title in a title block.
pub const TITLE_BLOCK_MIDDLE: &'static str =
    "</title>\n<center>\n\t<h1 style='margin-bottom: 0px; font-size: 2.5rem;'>";

/// What stands after the title in a title block.
pub const TITLE_BLOCK_CLOSE: &'static str = "</h1>\n\t<hr />\n</center>";

/// Whether `level` is a heading level: an ordinal from 1 to 6.
pub open spec fn is_level(level: u8) -> bool {
    1 <= level <= 6
}

/// The digit that names `level` in a tag.
pub open spec fn level_digit(level: u8) -> char {
    if level == 1 {
        '1'
    } else if level == 2 {
        '2'
    } else if level == 3 {
        '3'
    } else if level == 4 {
        '4'
    } else if level == 5 {
        '5'
    } else {
        '6'
    }
}

/// Whether first-level heading text is a title directive.
pub open spec fn has_title_prefix(text: Seq<char>) -> bool {
    TITLE_PREFIX@.is_prefix_of(text)
}

/// The title that a directive names: the text after the prefix.
pub open spec fn title_in(text: Seq<char>) -> Seq<char> {
    text.skip(TITLE_PREFIX@.len() as int)
}

/// The block that replaces a title directive: a `title` element, then a
/// centred heading with the same title and a rule.
pub open spec fn title_block_of(title: Seq<char>) -> Seq<char> {
    TITLE_BLOCK_OPEN@ + title + TITLE_BLOCK_MIDDLE@ + title + TITLE_BLOCK_CLOSE@
}

/// The opening tag of a heading at `level` with the anchor id of `text`,
/// followed by `text` itself.
pub open spec fn anchored_heading_of(level: u8, text: Seq<char>) -> Seq<char> {
    "<h"@.push(level_digit(level)) + " id=\""@ + slug_of(text) + "\">"@ + text
}

/// What the first text of a heading at `level` is replaced by.
pub open spec fn heading_fragment_of(level: u8, text: Seq<char>) -> Seq<char> {
    if level == 1 && has_title_prefix(text) {
        title_block_of(title_in(text))
    } else {
        anchored_heading_of(level, text)
    }
}

/// The characters of the title prefix.
pub proof fn title_prefix_chars()
    ensures
        TITLE_PREFIX@ == seq!['T', 'I', 'T', 'L', 'E', ':', ' '],
{
    reveal_strlit("TITLE: ");
    assert(TITLE_PREFIX@ =~= seq!['T', 'I', 'T', 'L', 'E', ':', ' ']);
}

/// The title named by `text`, if `text` begins with the title prefix.
pub fn title_of(text: &str) -> (out: Option<String>)
    ensures
        out is Some <==> has_title_prefix(text@),
        out matches Some(title) ==> title@ == title_in(text@),
{
    let chars = chars_of(text);
    let prefix = chars_of(TITLE_PREFIX);
    if matches_at(&chars, &prefix, 0) {
        Some(string_of(&chars, prefix.len(), chars.len()))
    } else {
        None
    }
}

/// Builds the block that replaces a title directive.
pub fn title_block(title: &str) -> (out: String)
    ensures
        out@ == title_block_of(title@),
{
    let mut out = String::new();
    out.append(TITLE_BLOCK_OPEN);
    out.append(title);
    out.append(TITLE_BLOCK_MIDDLE);
    out.append(title);
    out.append(TITLE_BLOCK_CLOSE);
    assert(out@ == title_block_of(title@));
    out
}

/// Builds the opening tag of a heading, with its anchor id, and the text
/// after it. The closing tag is not part of it.
pub fn anchored_heading(level: u8, text: &str) -> (out: String)
    requires
        is_level(level),
    ensures
        out@ == anchored_heading_of(level, text@),
{
    let digit: char = if level == 1 {
        '1'
    } else if level == 2 {
        '2'
    } else if level == 3 {
        '3'
    } else if level == 4 {
        '4'
    } else if level == 5 {
        '5'
    } else {
        '6'
    };
    let anchor = slug(text);
    let mut out = String::new();
    out.append("<h");
    out.push(digit);
    out.append(" id=\"");
    out.append(anchor.as_str());
    out.append("\">");
    out.append(text);
    out
}

/// Builds what the first text of a heading at `level` is replaced by: the
/// title block for a title directive at level 1, else the anchored heading.
pub fn heading_fragment(level: u8, text: &str) -> (out: String)
    requires
        is_level(level),
    ensures
        out@ == heading_fragment_of(level, text@),
{
    if level == 1 {
        if let Some(title) = title_of(text) {
            return title_block(title.as_str());
        }
    }
    anchored_heading(level, text)
}

} // verus!
