use mdtransform::replace::{contains, replace_all};
use mdtransform::template::{compose, has_placeholder, DEFAULT_TEMPLATE, PLACEHOLDER};

#[test]
fn placeholder_is_the_content_token() {
    assert_eq!(PLACEHOLDER, "$$CONTENT$$");
}

#[test]
fn default_template_holds_one_placeholder() {
    assert!(has_placeholder(DEFAULT_TEMPLATE));
    assert_eq!(DEFAULT_TEMPLATE.matches(PLACEHOLDER).count(), 1);
}

#[test]
fn default_template_is_a_page() {
    assert!(DEFAULT_TEMPLATE.starts_with("\n<!DOCTYPE html>\n<html>\n    <head>\n"));
    assert!(DEFAULT_TEMPLATE.contains("    <body>\n        $$CONTENT$$\n    </body>\n"));
    assert!(DEFAULT_TEMPLATE.contains("                width: max(50em, min(500px, 95vw));\n"));
    assert!(DEFAULT_TEMPLATE.ends_with("    </html>\n"));
    assert_eq!(DEFAULT_TEMPLATE.len(), 328);
}

#[test]
fn has_placeholder_finds_the_token_anywhere() {
    assert!(has_placeholder("$$CONTENT$$"));
    assert!(has_placeholder("<body>$$CONTENT$$</body>"));
    assert!(has_placeholder("x$$CONTENT$$"));
    assert!(has_placeholder("$$$CONTENT$$$"));
}

#[test]
fn has_placeholder_wants_the_whole_token() {
    assert!(!has_placeholder(""));
    assert!(!has_placeholder("$$CONTENT$"));
    assert!(!has_placeholder("$CONTENT$$"));
    assert!(!has_placeholder("$$content$$"));
    assert!(!has_placeholder("$$ CONTENT $$"));
    assert!(!has_placeholder("<body></body>"));
}

#[test]
fn compose_replaces_the_placeholder() {
    assert_eq!(compose("<body>$$CONTENT$$</body>", "<p>hi</p>"), "<body><p>hi</p></body>");
    assert_eq!(compose("$$CONTENT$$", "x"), "x");
    assert_eq!(compose("a$$CONTENT$$", ""), "a");
}

#[test]
fn compose_keeps_the_text_around_the_placeholder() {
    let page = compose("\u{e9}t\u{e9} $$CONTENT$$ \u{1f600}\n", "body");
    assert_eq!(page, "\u{e9}t\u{e9} body \u{1f600}\n");
}

#[test]
fn compose_replaces_every_placeholder() {
    assert_eq!(compose("$$CONTENT$$-$$CONTENT$$", "ab"), "ab-ab");
    assert_eq!(compose("$$CONTENT$$$$CONTENT$$", "ab"), "abab");
}

#[test]
fn compose_does_not_read_the_body_again() {
    assert_eq!(compose("[$$CONTENT$$]", "$$CONTENT$$"), "[$$CONTENT$$]");
}

#[test]
fn compose_takes_overlapping_placeholders_from_the_left() {
    assert_eq!(compose("$$CONTENT$$CONTENT$$", "x"), "xCONTENT$$");
    assert_eq!(compose("$$$CONTENT$$", "x"), "$x");
}

#[test]
fn compose_without_a_placeholder_changes_nothing() {
    assert_eq!(compose("<body></body>", "lost"), "<body></body>");
    assert_eq!(compose("", "lost"), "");
}

#[test]
fn compose_into_the_default_template() {
    let page = compose(DEFAULT_TEMPLATE, "<p>hi</p>\n");
    assert_eq!(page, DEFAULT_TEMPLATE.replace("$$CONTENT$$", "<p>hi</p>\n"));
    assert!(page.contains("    <body>\n        <p>hi</p>\n\n    </body>\n"));
}

#[test]
fn replace_all_agrees_with_the_standard_library() {
    let cases = [
        ("", "a", "b"),
        ("aaa", "a", "bb"),
        ("aaa", "aa", "b"),
        ("abcabc", "bc", ""),
        ("abcabc", "abcabc", "x"),
        ("abc", "abcd", "x"),
        ("\u{e9}a\u{e9}", "\u{e9}", "e"),
        ("ababab", "aba", "-"),
        ("abc", "", "-"),
        ("", "", "-"),
        ("\u{e9}", "", ""),
    ];
    for (hay, needle, with) in cases {
        assert_eq!(replace_all(hay, needle, with), hay.replace(needle, with));
    }
}

#[test]
fn contains_agrees_with_the_standard_library() {
    let cases = [
        ("", ""),
        ("", "a"),
        ("abc", ""),
        ("abc", "c"),
        ("abc", "d"),
        ("abc", "abc"),
        ("abc", "abcd"),
        ("aab", "ab"),
    ];
    for (hay, needle) in cases {
        assert_eq!(contains(hay, needle), hay.contains(needle));
    }
}
