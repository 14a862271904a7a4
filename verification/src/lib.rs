//! A read-only navigator over lines of text: it splits every line into
//! tokens, searches in both directions, keeps one highlighted selection and
//! hands out the text under it.

pub mod document;
pub mod editor;
pub mod highlighting;
pub mod position;
pub mod row;
pub mod terminal;
pub mod text;
pub mod tokenizer;

pub use document::Document;
pub use editor::Editor;
pub use position::Position;
pub use position::SearchDirection;
pub use position::VisualMode;
pub use row::Row;
