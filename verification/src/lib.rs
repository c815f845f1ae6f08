//! Offline migration of a paged B-tree key-value store file.
//!
//! The store file is read as a sequence of bytes. Its fixed header and its two
//! meta pages are validated, the pointer width of its layout is resolved, and
//! the B-tree of every database is walked to list the records that a
//! destination store has to receive in one write transaction.
pub mod bitdepth;
pub mod error;
pub mod header;
pub mod layout;
pub mod migrate;
pub mod node;
pub mod page;
pub mod rewriter;
pub mod value;
pub mod walker;
