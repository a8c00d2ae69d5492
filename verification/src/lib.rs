//! Terminal text-area component support: a verified status-line template
//! engine for rendering live cursor positions in a terminal UI.
//!
//! The [`fmt`] module compiles a small template language (literal text
//! interspersed with `{ROW}` / `{COL}` placeholders) into an ordered pipeline
//! of formatting steps and evaluates that pipeline against a cursor position.

pub mod fmt;
