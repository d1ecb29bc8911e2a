//! What can end a scan, and how an operating-system error code is classified.

use vstd::prelude::*;

verus! {

/// Error code for an operation that is not permitted.
pub const EPERM: i32 = 1;

/// Error code for a path that does not exist.
pub const ENOENT: i32 = 2;

/// Error code for a path that the caller may not search.
pub const EACCES: i32 = 13;

/// Error code for a path that names something other than a directory.
pub const ENOTDIR: i32 = 20;

/// Why a directory could not be opened.
#[derive(Debug, Clone, Copy, PartialEq, Eq, Structural)]
pub enum OpenFailure {
    /// The directory does not exist.
    NotFound,
    /// The caller is not allowed to open the directory.
    PermissionDenied,
    /// The path names something that is not a directory.
    NotADirectory,
    /// Any other failure, with the operating system's error code.
    AccessError(i32),
}

/// An error that ends a scan. Each is reported once; afterwards the scan is
/// exhausted.
#[derive(Debug, Clone, Copy, PartialEq, Eq, Structural)]
pub enum ScanError {
    /// The directory could not be opened.
    OpenFailed(OpenFailure),
    /// The bulk call failed after the directory was opened; the operating
    /// system's error code is kept.
    ReadFailed(i32),
    /// A record does not lie inside the buffer that holds it, or names a child
    /// longer than the path buffer has room for.
    DecodeBoundsError,
}

/// The failure that an error code from opening a directory stands for.
pub open spec fn open_failure_of(os_error: i32) -> OpenFailure {
    if os_error == ENOENT {
        OpenFailure::NotFound
    } else if os_error == EACCES || os_error == EPERM {
        OpenFailure::PermissionDenied
    } else if os_error == ENOTDIR {
        OpenFailure::NotADirectory
    } else {
        OpenFailure::AccessError(os_error)
    }
}

impl OpenFailure {
    /// Classifies the error code that the operating system gave when the
    /// directory was opened.
    pub fn from_os_error(os_error: i32) -> (failure: OpenFailure)
        ensures
            failure == open_failure_of(os_error),
    {
        if os_error == ENOENT {
            OpenFailure::NotFound
        } else if os_error == EACCES || os_error == EPERM {
            OpenFailure::PermissionDenied
        } else if os_error == ENOTDIR {
            OpenFailure::NotADirectory
        } else {
            OpenFailure::AccessError(os_error)
        }
    }
}

} // verus!
