//! A file-backed to-do list: an ordered list of entries, stored as numbered
//! lines of text. The list logic (adding, completing, deleting, renumbering)
//! is verified; reading and writing the backing file is left to the caller.

pub mod laws;
pub mod store;
pub mod text;
