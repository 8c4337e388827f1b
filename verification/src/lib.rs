//! Rebuilds a paginated web book as an EPUB archive.
//!
//! The crate holds the decisions and transformations of the download: scanning
//! the package document for its resources ([`manifest`]), carving the readable
//! part out of a fetched page ([`content`]), deciding when a fetch goes to the
//! network and when to the cache ([`fetch`]), laying out and naming the
//! archive ([`archive`]) and sequencing a whole run ([`pipeline`]). Network,
//! disk and console traffic belong to the caller, which carries out the
//! actions that these modules hand back. Underneath lie the search in byte
//! strings ([`text`]) and the XML tokenizer ([`xml`]).

pub mod text;
pub mod xml;
pub mod manifest;
pub mod content;
pub mod fetch;
pub mod archive;
pub mod pipeline;
