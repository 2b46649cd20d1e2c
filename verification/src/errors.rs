//! Classification of operating-system errors, as the installer reads them.
//!
//! The driver translates each raw OS failure into a `SysError`, keeping both
//! the portable error-kind signal and the platform-specific errno, and the
//! functions here decide what the error means for the pipeline.

use vstd::prelude::*;

verus! {

/// The portable classification of an OS error that the pipeline reads.
#[derive(Clone, Copy, Debug, PartialEq, Eq, Structural)]
pub enum IoKind {
    /// The source file (or another required path) does not exist.
    NotFound,
    /// The operation was refused for lack of permission.
    PermissionDenied,
    /// A rename was refused because source and destination are on
    /// different filesystems.
    CrossesDevices,
    /// The data read did not have the expected shape (unrecognized format).
    InvalidData,
    /// Fewer bytes were available than were asked for.
    UnexpectedEof,
    /// Any other failure.
    Other,
}

/// The errno value for a permission-denied failure on POSIX systems.
pub const ERRNO_ACCESS_DENIED: i32 = 13;

/// The errno value for a cross-filesystem rename failure on POSIX systems.
pub const ERRNO_CROSS_DEVICE: i32 = 18;

/// An OS error as the pipeline sees it: the portable kind together with
/// the raw errno, when the OS supplied one.
#[derive(Clone, Copy, Debug, PartialEq, Eq)]
pub struct SysError {
    pub kind: IoKind,
    pub raw: Option<i32>,
}

/// A permission failure, recognized by either the portable kind or the
/// platform errno. Both signals trigger, so the elevation protocol fires
/// whichever one the OS layer reported.
pub open spec fn perm_denied(e: SysError) -> bool {
    e.kind == IoKind::PermissionDenied || e.raw == Some(ERRNO_ACCESS_DENIED)
}

/// A cross-filesystem rename failure, recognized by either the portable
/// kind or the platform errno.
pub open spec fn cross_device(e: SysError) -> bool {
    e.kind == IoKind::CrossesDevices || e.raw == Some(ERRNO_CROSS_DEVICE)
}

/// Whether an error counts as permission denied for the elevation protocol.
pub fn is_perm_denied(e: &SysError) -> (r: bool)
    ensures
        r == perm_denied(*e),
{
    if e.kind == IoKind::PermissionDenied {
        true
    } else {
        match e.raw {
            Some(code) => code == ERRNO_ACCESS_DENIED,
            None => false,
        }
    }
}

/// Whether a failed rename should fall back to copy-then-delete.
pub fn is_cross_device(e: &SysError) -> (r: bool)
    ensures
        r == cross_device(*e),
{
    if e.kind == IoKind::CrossesDevices {
        true
    } else {
        match e.raw {
            Some(code) => code == ERRNO_CROSS_DEVICE,
            None => false,
        }
    }
}

} // verus!
