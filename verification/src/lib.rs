//! A symbol index over the open documents of an editor, and the navigation
//! to a symbol chosen from it.
//!
//! - [`document`]: the open documents and which of them take part.
//! - [`tags`]: the tags that the tag engine generates for a text.
//! - [`collect`]: one symbol for each definition tag, in order.
//! - [`translate`]: rows and byte columns to character offsets.
//! - [`navigate`]: the commands that take the editor to a symbol.
//! - [`picker`]: the picker over the collected symbols.

pub mod collect;
pub mod document;
pub mod navigate;
pub mod picker;
pub mod symbol;
pub mod tags;
pub mod translate;
