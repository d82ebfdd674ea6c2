use vstd::prelude::*;

verus! {

/// Why a filesystem query could not be answered.
#[derive(Clone, Copy, Debug, PartialEq, Eq, Structural)]
pub enum IoKind {
    /// Nothing is there under that name.
    NotFound,
    /// The caller may not look.
    PermissionDenied,
    /// A symbolic link leads back to itself.
    SymlinkCycle,
    /// Any other failure of the filesystem.
    Other,
}

/// Every way an operation of this library can fail.
#[derive(Clone, Copy, Debug, PartialEq, Eq, Structural)]
pub enum PathError {
    /// The text holds a NUL character.
    InvalidPath,
    /// The operands do not fit the operation.
    ValueError,
    /// A filesystem query failed.
    Io(IoKind),
}

} // verus!
