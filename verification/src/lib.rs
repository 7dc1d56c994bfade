//! Streaming extraction of structured technical metadata from large
//! plain-text documents.
//!
//! A document is consumed strictly chunk by chunk; each chunk is handed to a
//! set of analyzers that share one capability contract (`process`,
//! `finalize`, `clear`). Two analyzers are provided: a region-scoped state
//! machine that extracts ordered table-of-contents entries from a delimited
//! region, and an accumulating matcher that collects deduplicated,
//! normalized cryptographic-scheme mentions per category. A dispatcher
//! resets every analyzer before a document, feeds every chunk to every
//! analyzer in order, and finalizes them all once the stream ends.

pub mod analyzer;
pub mod dispatch;
pub mod errors;
pub mod toc;
pub mod versions;
pub mod reader;
pub mod scan;
pub mod text;
