//! The Markdown parser and the HTML emitter.

use crate::event::{all_well_formed, piece_views, token_views, Piece, PieceView, Token, TokenView};
use pulldown_cmark::{CowStr, Event, Options, Parser, Tag};
use vstd::prelude::*;

verus! {

/// The features beyond CommonMark that a parse enables.
#[derive(Clone, Copy, Debug, PartialEq, Eq, Structural)]
pub struct Extensions {
    pub tables: bool,
    pub footnotes: bool,
    pub strikethrough: bool,
    pub tasklists: bool,
}

/// The events that the parser yields for `text` with `extensions` enabled,
/// in document order. A heading start stands as its level; its identifier
/// and classes are left out.
pub uninterp spec fn markdown_tokens(text: Seq<char>, extensions: Extensions) -> Seq<
    TokenView<'static>,
>;

/// The HTML that the emitter writes for `pieces`.
pub uninterp spec fn html_of(pieces: Seq<PieceView<'static>>) -> Seq<char>;

/// Runs `pulldown_cmark::Parser::new_ext` on `text`, with the options that
/// `extensions` switches on, to its end. The events depend on the text and
/// the options alone. A heading's level is one of the six variants of
/// `HeadingLevel`, numbered 1 to 6.
#[verifier::external_body]
pub(crate) fn parse_tokens<'a>(text: &'a str, extensions: &Extensions) -> (tokens: Vec<Token<'a>>)
    ensures
        token_views(tokens@) == markdown_tokens(text@, *extensions),
        all_well_formed(token_views(tokens@)),
{
    let mut options = Options::empty();
    options.set(Options::ENABLE_TABLES, extensions.tables);
    options.set(Options::ENABLE_FOOTNOTES, extensions.footnotes);
    options.set(Options::ENABLE_STRIKETHROUGH, extensions.strikethrough);
    options.set(Options::ENABLE_TASKLISTS, extensions.tasklists);
    let events = Parser::new_ext(text, options);
    events.map(|event| match event {
        Event::Start(Tag::Heading(level, _, _)) => Token::HeadingStart(level as u8),
        Event::Text(run) => Token::Text(run.into_string()),
        other => Token::Other(other),
    }).collect()
}

/// Hands `pieces` to `pulldown_cmark::html::push_html`, text as text events
/// and markup as HTML events, and returns what it wrote to an empty string.
/// The output depends on the pieces alone.
#[verifier::external_body]
pub(crate) fn emit_html<'a>(pieces: Vec<Piece<'a>>) -> (html: String)
    ensures
        html@ == html_of(piece_views(pieces@)),
{
    let events = pieces.into_iter().map(|piece| match piece {
        Piece::Text(run) => Event::Text(CowStr::from(run)),
        Piece::Html(markup) => Event::Html(CowStr::from(markup)),
        Piece::Other(event) => event,
    });
    let mut html = String::new();
    pulldown_cmark::html::push_html(&mut html, events);
    html
}

} // verus!
