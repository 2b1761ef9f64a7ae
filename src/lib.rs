pub mod document;
pub mod editor;
pub mod position;
pub mod row;
pub mod size;
pub mod status_message;

pub use document::Document;
pub use editor::{Editor, Key};
pub use position::Position;
pub use row::Row;
pub use size::Size;
pub use status_message::StatusMessage;
