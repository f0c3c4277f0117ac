//! Duplicate detection and atomic replacement for a file-system deduplicator.
//!
//! The library holds every decision of the pipeline: which tree nodes are
//! admitted, how candidates are grouped by device, size, checksum and inode,
//! which file becomes the keeper of its content, and in which order the steps
//! of a replacement are taken.  The caller performs the file-system work that
//! each decision asks for and reports back what happened.
pub mod err;
pub mod probe;
pub mod file;
pub mod echo;
pub mod options;
pub mod logger;
pub mod index;
pub mod context;
pub mod linker;
pub mod run;
pub mod replace;
pub mod tree;
pub mod process;
pub mod notice;
pub mod summary;
