//! Rebuilds a binary 3-D asset: relocates the binary spans of its accessors and
//! images into a fresh blob and re-derives every index that refers to them.
//!
//! The asset comes in as a [`document::Document`] and the blob it describes, and
//! goes out as an [`output::Output`]: the new document, the new blob, and for every
//! new entity the source entity it was made from. [`assemble::optimize`] does the
//! whole rebuild; the modules below it do its steps.
//!
//! Reading and writing the container format is the caller's business. So is
//! arithmetic on floating-point numbers, which this crate handles by their bit
//! patterns only: where a number has to be added or compared, the caller hands in
//! the function that does it, and the contracts speak of what that function
//! returns. Compression to KTX2 is handed in the same way.

pub mod assemble;
pub mod bounds;
pub mod codec;
pub mod document;
pub mod growth;
pub mod names;
pub mod output;
pub mod prelude;
pub mod primitive;
pub mod rebuilt;
pub mod relocate;
pub mod span;
pub mod texture;
pub mod words;
