//! Markdown to HTML pages: every heading gets an anchor id made from its
//! text, a title directive in a first-level heading becomes a title block,
//! and the body is put into a page template.

pub mod batch;
pub mod event;
pub mod heading;
pub mod markdown;
pub mod render;
pub mod replace;
pub mod rewriter;
pub mod slug;
pub mod template;
pub mod text;
