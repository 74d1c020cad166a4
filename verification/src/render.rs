//! From Markdown text and a template to a page.

use crate::markdown::{emit_html, html_of, markdown_tokens, parse_tokens, Extensions};
use crate::rewriter::{rewrite, rewritten};
use crate::template::{compose, composed, composition_with_one_placeholder, PLACEHOLDER};
use crate::text::occurs_at;
use vstd::prelude::*;

verus! {

/// The dialect that documents are read in: tables, footnotes,
/// strikethrough and task lists.
pub open spec fn dialect() -> Extensions {
    Extensions { tables: true, footnotes: true, strikethrough: true, tasklists: true }
}

/// The HTML body of a document: its events, rewritten and emitted.
pub open spec fn body_of(markdown: Seq<char>) -> Seq<char> {
    html_of(rewritten(markdown_tokens(markdown, dialect())))
}

/// The page for a document: its body in the place of the template's
/// placeholders.
pub open spec fn page_of(markdown: Seq<char>, template: Seq<char>) -> Seq<char> {
    composed(template, body_of(markdown))
}

/// Renders the HTML body of a document, with an anchor id on each heading
/// and a title block for a title directive.
pub fn markdown_body(markdown: &str) -> (body: String)
    ensures
        body@ == body_of(markdown@),
{
    let extensions = Extensions {
        tables: true,
        footnotes: true,
        strikethrough: true,
        tasklists: true,
    };
    let tokens = parse_tokens(markdown, &extensions);
    let pieces = rewrite(tokens);
    emit_html(pieces)
}

/// Renders a document and puts its body into `template`.
pub fn md_to_html(markdown: String, template: &str) -> (page: String)
    ensures
        page@ == page_of(markdown@, template@),
{
    let body = markdown_body(markdown.as_str());
    compose(template, body.as_str())
}

/// With a template that holds the placeholder at `at` and nowhere else, the
/// page is the template with the body in the placeholder's place: what the
/// template holds before and after it is unchanged.
pub proof fn page_keeps_template(markdown: Seq<char>, template: Seq<char>, at: int)
    requires
        occurs_at(template, PLACEHOLDER@, at),
        forall|other: int| other != at ==> !occurs_at(template, PLACEHOLDER@, other),
    ensures
        page_of(markdown, template) == template.take(at) + body_of(markdown) + template.skip(
            at + PLACEHOLDER@.len(),
        ),
{
    composition_with_one_placeholder(template, body_of(markdown), at);
}

} // verus!
