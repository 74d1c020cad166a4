//! The page template and the placeholder that the rendered body replaces.

use crate::replace::{contains, occurs_in, replace_all, replaced, replaced_single_occurrence, replaced_without_occurrence};
use crate::text::occurs_at;
use vstd::prelude::*;

verus! {

/// The token in a template that marks where the body goes.
pub const PLACEHOLDER: &'static str = "$$CONTENT$$";

/// The template used when the caller brings none.
pub const DEFAULT_TEMPLATE: &'static str =
    "\n<!DOCTYPE html>\n<html>\n    <head>\n        <style>\n            body {\n                width: max(50em, min(500px, 95vw));\n                margin: 0 auto;\n                font-family: sans-serif;\n                font-size: 1.1rem;\n            }\n        </style>\n    </head>\n    <body>\n        $$CONTENT$$\n    </body>\n    </html>\n";

/// Whether `template` holds the placeholder.
pub open spec fn holds_placeholder(template: Seq<char>) -> bool {
    occurs_in(template, PLACEHOLDER@)
}

/// `template` with every placeholder replaced by `body`.
pub open spec fn composed(template: Seq<char>, body: Seq<char>) -> Seq<char> {
    replaced(template, PLACEHOLDER@, body)
}

/// The characters of the placeholder.
pub proof fn placeholder_chars()
    ensures
        PLACEHOLDER@ == seq!['$', '$', 'C', 'O', 'N', 'T', 'E', 'N', 'T', '$', '$'],
{
    reveal_strlit("$$CONTENT$$");
    assert(PLACEHOLDER@ =~= seq!['$', '$', 'C', 'O', 'N', 'T', 'E', 'N', 'T', '$', '$']);
}

/// Tests whether `template` holds the placeholder.
pub fn has_placeholder(template: &str) -> (found: bool)
    ensures
        found == holds_placeholder(template@),
{
    contains(template, PLACEHOLDER)
}

/// Puts `body` in the place of every placeholder in `template`. A template
/// without a placeholder comes back unchanged.
pub fn compose(template: &str, body: &str) -> (out: String)
    ensures
        out@ == composed(template@, body@),
        !holds_placeholder(template@) ==> out@ == template@,
{
    proof {
        if !holds_placeholder(template@) {
            replaced_without_occurrence(template@, PLACEHOLDER@, body@);
        }
    }
    replace_all(template, PLACEHOLDER, body)
}

/// Where the placeholder stands in `template` at `at` and nowhere else, the
/// composition is the template before `at`, then `body`, then the template
/// after the placeholder: the text around the placeholder is unchanged.
pub proof fn composition_with_one_placeholder(template: Seq<char>, body: Seq<char>, at: int)
    requires
        occurs_at(template, PLACEHOLDER@, at),
        forall|other: int| other != at ==> !occurs_at(template, PLACEHOLDER@, other),
    ensures
        composed(template, body) == template.take(at) + body + template.skip(
            at + PLACEHOLDER@.len(),
        ),
{
    replaced_single_occurrence(template, PLACEHOLDER@, body, at);
}

} // verus!
