//! The events of a parsed document, as far as the heading rewriter reads
//! them, and the pieces that it hands to the emitter.

use crate::heading::is_level;
use vstd::prelude::*;

verus! {

/// A parser event is carried through the rewriter as it is; nothing is
/// known of what it holds.
#[verifier::external_type_specification]
#[verifier::external_body]
pub struct ExEvent<'a>(pulldown_cmark::Event<'a>);

/// One event of a parsed document.
#[derive(Debug, PartialEq)]
pub enum Token<'a> {
    /// A heading opens at the given level, an ordinal from 1 to 6.
    HeadingStart(u8),
    /// A run of text.
    Text(String),
    /// Any other event.
    Other(pulldown_cmark::Event<'a>),
}

/// The mathematical value of a `Token`.
pub enum TokenView<'a> {
    HeadingStart(u8),
    Text(Seq<char>),
    Other(pulldown_cmark::Event<'a>),
}

impl<'a> TokenView<'a> {
    /// A heading start holds a level from 1 to 6.
    pub open spec fn well_formed(self) -> bool {
        match self {
            TokenView::HeadingStart(level) => is_level(level),
            _ => true,
        }
    }
}

impl<'a> View for Token<'a> {
    type V = TokenView<'a>;

    open spec fn view(&self) -> TokenView<'a> {
        match *self {
            Token::HeadingStart(level) => TokenView::HeadingStart(level),
            Token::Text(run) => TokenView::Text(run@),
            Token::Other(event) => TokenView::Other(event),
        }
    }
}

/// One item of the rewritten document.
#[derive(Debug, PartialEq)]
pub enum Piece<'a> {
    /// A run of text, to be escaped by the emitter.
    Text(String),
    /// Markup, to be written as it is.
    Html(String),
    /// Any other event.
    Other(pulldown_cmark::Event<'a>),
}

/// The mathematical value of a `Piece`.
pub enum PieceView<'a> {
    Text(Seq<char>),
    Html(Seq<char>),
    Other(pulldown_cmark::Event<'a>),
}

impl<'a> View for Piece<'a> {
    type V = PieceView<'a>;

    open spec fn view(&self) -> PieceView<'a> {
        match *self {
            Piece::Text(run) => PieceView::Text(run@),
            Piece::Html(markup) => PieceView::Html(markup@),
            Piece::Other(event) => PieceView::Other(event),
        }
    }
}

/// The values of a row of tokens.
pub open spec fn token_views<'a>(tokens: Seq<Token<'a>>) -> Seq<TokenView<'a>> {
    tokens.map_values(|token: Token<'a>| token@)
}

/// The values of a row of pieces.
pub open spec fn piece_views<'a>(pieces: Seq<Piece<'a>>) -> Seq<PieceView<'a>> {
    pieces.map_values(|piece: Piece<'a>| piece@)
}

/// Whether every heading start in `tokens` holds a level from 1 to 6.
pub open spec fn all_well_formed<'a>(tokens: Seq<TokenView<'a>>) -> bool {
    forall|i: int| 0 <= i < tokens.len() ==> (#[trigger] tokens[i]).well_formed()
}

} // verus!
