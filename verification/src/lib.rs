//! Terminal text styles, input labels and the reader's error type.
pub mod font_style;
pub mod error;
pub mod text;
pub mod input;
pub mod inspector;
pub mod modifier;
