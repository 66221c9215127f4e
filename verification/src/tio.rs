//! Try It Online share links.
pub mod link;
