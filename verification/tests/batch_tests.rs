use mdtransform::batch::{file_kind, overwrites_input, FileKind, HTML_EXTENSION, MARKDOWN_EXTENSION};

#[test]
fn file_kind_of_markdown() {
    assert_eq!(file_kind(Some("md")), FileKind::Markdown);
    assert_eq!(file_kind(Some(MARKDOWN_EXTENSION)), FileKind::Markdown);
}

#[test]
fn file_kind_of_html() {
    assert_eq!(file_kind(Some("html")), FileKind::Html);
    assert_eq!(file_kind(Some(HTML_EXTENSION)), FileKind::Html);
}

#[test]
fn file_kind_of_anything_else() {
    assert_eq!(file_kind(None), FileKind::Unsupported);
    assert_eq!(file_kind(Some("")), FileKind::Unsupported);
    assert_eq!(file_kind(Some("MD")), FileKind::Unsupported);
    assert_eq!(file_kind(Some("markdown")), FileKind::Unsupported);
    assert_eq!(file_kind(Some("htm")), FileKind::Unsupported);
    assert_eq!(file_kind(Some("txt")), FileKind::Unsupported);
}

#[test]
fn overwrites_input_when_the_paths_read_the_same() {
    assert!(overwrites_input("docs/a.html", "docs/a.html"));
    assert!(!overwrites_input("docs/a.md", "docs/a.html"));
    assert!(!overwrites_input("docs/a.md", "docs/A.md"));
}
