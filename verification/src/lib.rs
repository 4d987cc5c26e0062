//! A line editor for fixed-width terminals that offer only relative cursor
//! motion: a logical line may wrap across several terminal rows, and every
//! visual update is derived from the editor's own bookkeeping of buffer
//! content and terminal width.
//!
//! The library is pure: instead of touching a terminal it emits
//! [`command::TermCommand`] values, which a thin driver executes against a
//! real terminal (or a test inspects directly).
pub mod buffer;
pub mod command;
pub mod coords;
pub mod cursor;
pub mod editor;
pub mod program;
pub mod redraw;
