//! Inserts a space between adjacent full-width and half-width characters,
//! in plain text and inside the prose of structured documents.

pub mod css;
pub mod diff;
pub mod dispatch;
pub mod engine;
pub mod error;
pub mod html;
pub mod js;
pub mod json;
pub mod json5;
pub mod laws;
pub mod lex;
pub mod markdown;
pub mod php;
pub mod rust;
pub mod text;
pub mod walker;
pub mod width;

pub use engine::spacing;
pub use error::{Format, ParseError};
pub use width::CharWidth;

pub use css::process as process_css;
pub use js::process as process_js;
pub use json::process as process_json;
pub use json5::process as process_json5;
pub use markdown::process as process_markdown;
pub use html::process as process_html;
pub use php::process as process_php;
pub use rust::process as process_rust;

pub use dispatch::process_content;
