//! Builds VS Code snippet definitions in memory and serializes them into the
//! JSON document format that the editor consumes.
//!
//! A [`SnippetBuilder`] accumulates the fields of one snippet record and
//! finalizes them into an immutable [`Snippet`]; a [`SnippetsFile`] collects
//! finalized snippets keyed by their name and serializes the whole collection.

pub mod error;
pub mod json;
pub mod snippets;

pub use error::Error;
pub use snippets::Snippet;
pub use snippets::SnippetBuilder;
pub use snippets::SnippetsFile;
