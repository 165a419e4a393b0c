//! Build pipeline that turns a book (an ordered sequence of chapters) into a
//! single document by staging depth-normalized copies of every chapter and
//! handing the ordered manifest to an external converter.
//!
//! The library holds the pure core of the pipeline: the heading normalizer,
//! the manifest traversal, stylesheet accumulation, and construction of the
//! converter invocation. All file reads and writes and the converter process
//! itself are left to the caller, which feeds plain values in and carries the
//! computed plan out.

pub mod book;
pub mod errors;
pub mod headings;
pub mod manifest;
pub mod assets;
pub mod command;
pub mod renderer;
pub mod pandoc;
