//! The heading rewriter: one forward pass over the events of a document.

use crate::event::{all_well_formed, piece_views, token_views, Piece, PieceView, Token, TokenView};
use crate::heading::{
    anchored_heading_of, has_title_prefix, heading_fragment, heading_fragment_of, is_level,
    title_block_of, title_in, TITLE_PREFIX,
};
use vstd::prelude::*;

verus! {

/// What the rewriter remembers between two events.
#[derive(Clone, Copy, Debug, PartialEq, Eq, Structural)]
pub enum Pending {
    /// No heading waits for its text.
    Idle,
    /// A heading of this level has opened and no text has followed yet.
    InHeading(u8),
}

impl Pending {
    /// A pending heading holds a level from 1 to 6.
    pub open spec fn well_formed(self) -> bool {
        match self {
            Pending::Idle => true,
            Pending::InHeading(level) => is_level(level),
        }
    }
}

/// The state after `token`, and the piece that stands for it, if any.
///
/// A heading start is swallowed and remembered. The first text after it
/// becomes the heading's fragment. Everything else passes through and
/// leaves the state as it was.
pub open spec fn step_of<'a>(state: Pending, token: TokenView<'a>) -> (Pending, Option<PieceView<'a>>) {
    match token {
        TokenView::HeadingStart(level) => (Pending::InHeading(level), None),
        TokenView::Text(run) => match state {
            Pending::Idle => (Pending::Idle, Some(PieceView::Text(run))),
            Pending::InHeading(level) => (
                Pending::Idle,
                Some(PieceView::Html(heading_fragment_of(level, run))),
            ),
        },
        TokenView::Other(event) => (state, Some(PieceView::Other(event))),
    }
}

/// The pieces that stand for `tokens` when the pass starts in `state`.
pub open spec fn rewritten_from<'a>(state: Pending, tokens: Seq<TokenView<'a>>) -> Seq<PieceView<'a>>
    decreases tokens.len(),
{
    if tokens.len() == 0 {
        Seq::empty()
    } else {
        let (next, piece) = step_of(state, tokens.first());
        let rest = rewritten_from(next, tokens.drop_first());
        match piece {
            Some(p) => seq![p] + rest,
            None => rest,
        }
    }
}

/// The pieces that stand for the events of a whole document.
pub open spec fn rewritten<'a>(tokens: Seq<TokenView<'a>>) -> Seq<PieceView<'a>> {
    rewritten_from(Pending::Idle, tokens)
}

/// The value of a piece that may be absent.
pub open spec fn piece_view_of<'a>(piece: Option<Piece<'a>>) -> Option<PieceView<'a>> {
    match piece {
        Some(p) => Some(p@),
        None => None,
    }
}

/// Takes one event: returns the next state and the piece to emit, if any.
pub fn step<'a>(state: Pending, token: Token<'a>) -> (out: (Pending, Option<Piece<'a>>))
    requires
        state.well_formed(),
        token@.well_formed(),
    ensures
        out.0.well_formed(),
        (out.0, piece_view_of(out.1)) == step_of(state, token@),
{
    match token {
        Token::HeadingStart(level) => (Pending::InHeading(level), None),
        Token::Text(run) => match state {
            Pending::Idle => (Pending::Idle, Some(Piece::Text(run))),
            Pending::InHeading(level) => {
                let markup = heading_fragment(level, run.as_str());
                (Pending::Idle, Some(Piece::Html(markup)))
            },
        },
        Token::Other(event) => (state, Some(Piece::Other(event))),
    }
}

/// Rewrites the events of a document in one pass, in their order.
pub fn rewrite<'a>(tokens: Vec<Token<'a>>) -> (pieces: Vec<Piece<'a>>)
    requires
        all_well_formed(token_views(tokens@)),
    ensures
        piece_views(pieces@) == rewritten(token_views(tokens@)),
{
    let ghost all = token_views(tokens@);
    let mut pieces: Vec<Piece<'a>> = Vec::new();
    let mut state = Pending::Idle;
    assert(all.skip(0) == all);
    assert(piece_views(pieces@) == Seq::<PieceView<'a>>::empty());
    for token in it: tokens.into_iter()
        invariant
            token_views(it.seq()) == all,
            all_well_formed(all),
            state.well_formed(),
            piece_views(pieces@) + rewritten_from(state, all.skip(it.index())) == rewritten(all),
    {
        let ghost before = piece_views(pieces@);
        let ghost rest = all.skip(it.index());
        assert(rest.first() == token@);
        assert(rest.drop_first() == all.skip(it.index() + 1));
        assert(all[it.index()].well_formed());
        let (next, piece) = step(state, token);
        state = next;
        if let Some(p) = piece {
            pieces.push(p);
            assert(piece_views(pieces@) == before + seq![p@]);
        }
    }
    assert(all.skip(all.len() as int).len() == 0);
    pieces
}

/// The state in which a pass that starts in `state` leaves `tokens`.
pub open spec fn state_after<'a>(state: Pending, tokens: Seq<TokenView<'a>>) -> Pending
    decreases tokens.len(),
{
    if tokens.len() == 0 {
        state
    } else {
        state_after(step_of(state, tokens.first()).0, tokens.drop_first())
    }
}

/// Whether `piece` is `token`, passed on as it came. A heading start is
/// never passed on.
pub open spec fn carried<'a>(token: TokenView<'a>, piece: PieceView<'a>) -> bool {
    match token {
        TokenView::HeadingStart(_) => false,
        TokenView::Text(run) => piece == PieceView::Text(run),
        TokenView::Other(event) => piece == PieceView::Other(event),
    }
}

/// The events of `tokens` that are neither heading starts nor text.
pub open spec fn other_events_of_tokens<'a>(tokens: Seq<TokenView<'a>>) -> Seq<
    pulldown_cmark::Event<'a>,
>
    decreases tokens.len(),
{
    if tokens.len() == 0 {
        Seq::empty()
    } else {
        let rest = other_events_of_tokens(tokens.drop_first());
        match tokens.first() {
            TokenView::Other(event) => seq![event] + rest,
            _ => rest,
        }
    }
}

/// The events of `pieces` that are neither text nor markup.
pub open spec fn other_events_of_pieces<'a>(pieces: Seq<PieceView<'a>>) -> Seq<
    pulldown_cmark::Event<'a>,
>
    decreases pieces.len(),
{
    if pieces.len() == 0 {
        Seq::empty()
    } else {
        let rest = other_events_of_pieces(pieces.drop_first());
        match pieces.first() {
            PieceView::Other(event) => seq![event] + rest,
            _ => rest,
        }
    }
}

/// A pass over two stretches of a document is the pass over the first,
/// followed by the pass over the second from the state that the first
/// left: the rewriter looks neither ahead nor back beyond its state.
pub proof fn pass_splits<'a>(state: Pending, first: Seq<TokenView<'a>>, second: Seq<TokenView<'a>>)
    ensures
        rewritten_from(state, first + second) == rewritten_from(state, first) + rewritten_from(
            state_after(state, first),
            second,
        ),
        state_after(state, first + second) == state_after(state_after(state, first), second),
    decreases first.len(),
{
    if first.len() == 0 {
        assert(first + second == second);
    } else {
        let next = step_of(state, first.first()).0;
        assert((first + second).first() == first.first());
        assert((first + second).drop_first() == first.drop_first() + second);
        pass_splits(next, first.drop_first(), second);
    }
}

/// A stretch without a heading start that the pass enters with no heading
/// pending comes out as it went in, event for event, and leaves no heading
/// pending.
pub proof fn content_without_headings_is_unchanged<'a>(tokens: Seq<TokenView<'a>>)
    requires
        forall|i: int| 0 <= i < tokens.len() ==> !(tokens[i] is HeadingStart),
    ensures
        rewritten(tokens).len() == tokens.len(),
        forall|i: int| 0 <= i < tokens.len() ==> carried(tokens[i], #[trigger] rewritten(tokens)[i]),
        state_after(Pending::Idle, tokens) == Pending::Idle,
    decreases tokens.len(),
{
    if tokens.len() > 0 {
        let rest = tokens.drop_first();
        assert(!(tokens[0] is HeadingStart));
        assert forall|i: int| 0 <= i < rest.len() implies !(rest[i] is HeadingStart) by {
            assert(rest[i] == tokens[i + 1]);
        }
        content_without_headings_is_unchanged(rest);
        assert forall|i: int| 0 <= i < tokens.len() implies carried(
            tokens[i],
            #[trigger] rewritten(tokens)[i],
        ) by {
            if i > 0 {
                assert(rewritten(tokens)[i] == rewritten(rest)[i - 1]);
                assert(tokens[i] == rest[i - 1]);
            }
        }
    }
}

/// Whatever the document and the state, the events that are neither
/// heading starts nor text all pass, unchanged and in their order.
pub proof fn other_events_pass<'a>(state: Pending, tokens: Seq<TokenView<'a>>)
    ensures
        other_events_of_pieces(rewritten_from(state, tokens)) == other_events_of_tokens(tokens),
    decreases tokens.len(),
{
    if tokens.len() > 0 {
        let (next, piece) = step_of(state, tokens.first());
        let rest = rewritten_from(next, tokens.drop_first());
        other_events_pass(next, tokens.drop_first());
        match piece {
            Some(p) => {
                assert((seq![p] + rest).first() == p);
                assert((seq![p] + rest).drop_first() == rest);
            },
            None => {},
        }
    }
}

/// A heading at `level` whose text is no title directive becomes an opening
/// tag at that level with the anchor id of the text, then the text; the
/// event that ends the heading follows unchanged.
pub proof fn plain_heading_is_anchored<'a>(
    level: u8,
    text: Seq<char>,
    end: pulldown_cmark::Event<'a>,
)
    requires
        is_level(level),
        !has_title_prefix(text),
    ensures
        rewritten(
            seq![TokenView::HeadingStart(level), TokenView::Text(text), TokenView::Other(end)],
        ) == seq![PieceView::Html(anchored_heading_of(level, text)), PieceView::Other(end)],
{
    let tokens = seq![TokenView::HeadingStart(level), TokenView::Text(text), TokenView::Other(end)];
    let after_start = seq![TokenView::Text(text), TokenView::Other(end)];
    let after_text = seq![TokenView::Other(end)];
    assert(tokens.drop_first() == after_start);
    assert(after_start.drop_first() == after_text);
    assert(after_text.drop_first() == Seq::<TokenView<'a>>::empty());
    assert(rewritten_from(Pending::Idle, after_text.drop_first()) == Seq::<PieceView<'a>>::empty());
    assert(rewritten_from(Pending::Idle, after_text) =~= seq![PieceView::Other(end)]);
    assert(rewritten_from(Pending::InHeading(level), after_start) =~= seq![
        PieceView::Html(anchored_heading_of(level, text)),
        PieceView::Other(end),
    ]);
}

/// A first-level heading whose text is the title prefix and then `title`
/// becomes the title block of `title` and nothing else: no tag with an
/// anchor id stands for it.
pub proof fn title_directive_becomes_title_block<'a>(
    title: Seq<char>,
    end: pulldown_cmark::Event<'a>,
)
    ensures
        rewritten(
            seq![
                TokenView::HeadingStart(1),
                TokenView::Text(TITLE_PREFIX@ + title),
                TokenView::Other(end),
            ],
        ) == seq![PieceView::Html(title_block_of(title)), PieceView::Other(end)],
{
    let text = TITLE_PREFIX@ + title;
    let tokens = seq![TokenView::HeadingStart(1), TokenView::Text(text), TokenView::Other(end)];
    let after_start = seq![TokenView::Text(text), TokenView::Other(end)];
    let after_text = seq![TokenView::Other(end)];
    assert(text.subrange(0, TITLE_PREFIX@.len() as int) == TITLE_PREFIX@);
    assert(title_in(text) == title);
    assert(tokens.drop_first() == after_start);
    assert(after_start.drop_first() == after_text);
    assert(after_text.drop_first() == Seq::<TokenView<'a>>::empty());
    assert(rewritten_from(Pending::Idle, after_text.drop_first()) == Seq::<PieceView<'a>>::empty());
    assert(rewritten_from(Pending::Idle, after_text) =~= seq![PieceView::Other(end)]);
    assert(rewritten_from(Pending::InHeading(1), after_start) =~= seq![
        PieceView::Html(title_block_of(title)),
        PieceView::Other(end),
    ]);
}

} // verus!
