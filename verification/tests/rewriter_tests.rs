use mdtransform::event::{Piece, Token};
use mdtransform::heading::title_block;
use mdtransform::rewriter::{rewrite, step, Pending};
use pulldown_cmark::{Event, HeadingLevel, Tag};

fn heading_end(level: HeadingLevel) -> Event<'static> {
    Event::End(Tag::Heading(level, None, Vec::new()))
}

fn text(run: &str) -> Token<'static> {
    Token::Text(run.to_string())
}

#[test]
fn step_swallows_a_heading_start() {
    let (next, piece) = step(Pending::Idle, Token::HeadingStart(2));
    assert_eq!(next, Pending::InHeading(2));
    assert_eq!(piece, None);
}

#[test]
fn step_replaces_a_pending_heading_by_a_new_one() {
    let (next, piece) = step(Pending::InHeading(2), Token::HeadingStart(4));
    assert_eq!(next, Pending::InHeading(4));
    assert_eq!(piece, None);
}

#[test]
fn step_passes_text_outside_a_heading() {
    let (next, piece) = step(Pending::Idle, text("TITLE: not a heading"));
    assert_eq!(next, Pending::Idle);
    assert_eq!(piece, Some(Piece::Text("TITLE: not a heading".to_string())));
}

#[test]
fn step_anchors_the_text_of_a_heading() {
    let (next, piece) = step(Pending::InHeading(3), text("Hello World"));
    assert_eq!(next, Pending::Idle);
    assert_eq!(piece, Some(Piece::Html("<h3 id=\"hello-world\">Hello World".to_string())));
}

#[test]
fn step_turns_a_title_directive_into_a_title_block() {
    let (next, piece) = step(Pending::InHeading(1), text("TITLE: My Page"));
    assert_eq!(next, Pending::Idle);
    assert_eq!(piece, Some(Piece::Html(title_block("My Page"))));
}

#[test]
fn step_passes_other_events_and_keeps_the_state() {
    let (next, piece) = step(Pending::Idle, Token::Other(Event::SoftBreak));
    assert_eq!(next, Pending::Idle);
    assert_eq!(piece, Some(Piece::Other(Event::SoftBreak)));

    let (next, piece) = step(Pending::InHeading(5), Token::Other(Event::Start(Tag::Emphasis)));
    assert_eq!(next, Pending::InHeading(5));
    assert_eq!(piece, Some(Piece::Other(Event::Start(Tag::Emphasis))));

    let (next, piece) = step(Pending::InHeading(1), Token::Other(heading_end(HeadingLevel::H1)));
    assert_eq!(next, Pending::InHeading(1));
    assert_eq!(piece, Some(Piece::Other(heading_end(HeadingLevel::H1))));
}

#[test]
fn rewrite_of_nothing_is_nothing() {
    assert_eq!(rewrite(Vec::new()), Vec::new());
}

#[test]
fn rewrite_of_a_single_heading() {
    let tokens = vec![
        Token::HeadingStart(1),
        text("Hello World"),
        Token::Other(heading_end(HeadingLevel::H1)),
    ];
    assert_eq!(
        rewrite(tokens),
        vec![
            Piece::Html("<h1 id=\"hello-world\">Hello World".to_string()),
            Piece::Other(heading_end(HeadingLevel::H1)),
        ]
    );
}

#[test]
fn rewrite_of_a_title_directive() {
    let tokens = vec![
        Token::HeadingStart(1),
        text("TITLE: My Page"),
        Token::Other(heading_end(HeadingLevel::H1)),
    ];
    assert_eq!(
        rewrite(tokens),
        vec![
            Piece::Html(title_block("My Page")),
            Piece::Other(heading_end(HeadingLevel::H1)),
        ]
    );
}

#[test]
fn rewrite_leaves_content_without_headings_alone() {
    let tokens = vec![
        Token::Other(Event::Start(Tag::Paragraph)),
        text("one"),
        Token::Other(Event::SoftBreak),
        text("two"),
        Token::Other(Event::Code("x".into())),
        Token::Other(Event::End(Tag::Paragraph)),
        Token::Other(Event::Rule),
    ];
    assert_eq!(
        rewrite(tokens),
        vec![
            Piece::Other(Event::Start(Tag::Paragraph)),
            Piece::Text("one".to_string()),
            Piece::Other(Event::SoftBreak),
            Piece::Text("two".to_string()),
            Piece::Other(Event::Code("x".into())),
            Piece::Other(Event::End(Tag::Paragraph)),
            Piece::Other(Event::Rule),
        ]
    );
}

#[test]
fn rewrite_anchors_only_the_first_text_of_a_heading() {
    let tokens = vec![
        Token::HeadingStart(2),
        text("Hello "),
        Token::Other(Event::Start(Tag::Emphasis)),
        text("World"),
        Token::Other(Event::End(Tag::Emphasis)),
        Token::Other(heading_end(HeadingLevel::H2)),
    ];
    assert_eq!(
        rewrite(tokens),
        vec![
            Piece::Html("<h2 id=\"hello\">Hello ".to_string()),
            Piece::Other(Event::Start(Tag::Emphasis)),
            Piece::Text("World".to_string()),
            Piece::Other(Event::End(Tag::Emphasis)),
            Piece::Other(heading_end(HeadingLevel::H2)),
        ]
    );
}

#[test]
fn rewrite_keeps_a_heading_pending_until_text_comes() {
    let tokens = vec![
        Token::HeadingStart(3),
        Token::Other(Event::Start(Tag::Strong)),
        text("Bold Start"),
        Token::Other(Event::End(Tag::Strong)),
        Token::Other(heading_end(HeadingLevel::H3)),
    ];
    assert_eq!(
        rewrite(tokens),
        vec![
            Piece::Other(Event::Start(Tag::Strong)),
            Piece::Html("<h3 id=\"bold-start\">Bold Start".to_string()),
            Piece::Other(Event::End(Tag::Strong)),
            Piece::Other(heading_end(HeadingLevel::H3)),
        ]
    );
}

#[test]
fn rewrite_lets_a_later_heading_start_replace_a_pending_one() {
    let tokens = vec![Token::HeadingStart(1), Token::HeadingStart(4), text("Deep")];
    assert_eq!(rewrite(tokens), vec![Piece::Html("<h4 id=\"deep\">Deep".to_string())]);
}

#[test]
fn rewrite_gives_equal_headings_equal_ids() {
    let tokens = vec![
        Token::HeadingStart(1),
        text("Same"),
        Token::Other(heading_end(HeadingLevel::H1)),
        Token::HeadingStart(1),
        text("Same"),
        Token::Other(heading_end(HeadingLevel::H1)),
    ];
    assert_eq!(
        rewrite(tokens),
        vec![
            Piece::Html("<h1 id=\"same\">Same".to_string()),
            Piece::Other(heading_end(HeadingLevel::H1)),
            Piece::Html("<h1 id=\"same\">Same".to_string()),
            Piece::Other(heading_end(HeadingLevel::H1)),
        ]
    );
}

#[test]
fn rewrite_passes_every_other_event_in_order() {
    let tokens = vec![
        Token::Other(Event::Rule),
        Token::HeadingStart(2),
        Token::Other(Event::HardBreak),
        text("T"),
        Token::Other(Event::TaskListMarker(true)),
        Token::HeadingStart(3),
        Token::Other(Event::SoftBreak),
    ];
    let others: Vec<Piece> = rewrite(tokens)
        .into_iter()
        .filter(|piece| matches!(piece, Piece::Other(_)))
        .collect();
    assert_eq!(
        others,
        vec![
            Piece::Other(Event::Rule),
            Piece::Other(Event::HardBreak),
            Piece::Other(Event::TaskListMarker(true)),
            Piece::Other(Event::SoftBreak),
        ]
    );
}
