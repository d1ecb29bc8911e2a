//! A single-directory scanner over the operating system's bulk
//! attribute-listing call.
//!
//! The kernel fills a caller-supplied buffer with variable-length records, one
//! per child of the directory. This crate decodes those records, skips the
//! self and parent pseudo-entries and the children the kernel could not
//! describe, and builds each child's full path in one reused buffer. The
//! system calls themselves are made by the caller: the scanner says when a
//! refill is due and is handed what the call returned.

pub mod batch;
pub mod cursor;
pub mod entry;
pub mod error;
pub mod file_type;
pub mod iter;
pub mod path;
pub mod record;

pub use entry::DirEntryBeta;
pub use file_type::{get_filetype, FileType};
pub use iter::DirIterator;
