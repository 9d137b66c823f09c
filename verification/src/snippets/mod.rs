//! Snippet records, the fluent builder that accumulates them, and the keyed
//! collection that serializes a whole snippets file.

pub mod snippet;
pub mod snippet_builder;
pub mod snippets_file;

pub use snippet::Snippet;
pub use snippet_builder::SnippetBuilder;
pub use snippets_file::SnippetsFile;
