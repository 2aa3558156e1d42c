//! The failures that the engine reports.

use vstd::prelude::*;

verus! {

/// What the operating system gave as its reason when it refused a request.
/// The host maps the system's own code to one of these.
#[derive(Clone, Copy, Debug, PartialEq, Eq, Structural)]
pub enum IoKind {
    /// Nothing is at the path.
    NotFound,
    /// Something is at the path already.
    AlreadyExists,
    /// The process may not do this.
    PermissionDenied,
    /// A directory was asked for, and something else was found.
    NotADirectory,
    /// The directory still holds entries.
    DirectoryNotEmpty,
    /// Source and target lie on different filesystems.
    CrossesDevices,
    /// What was read cannot be used, such as a name that is not text.
    InvalidData,
    /// Any other reason.
    Other,
}

/// Why an operation of the engine failed. No failure is fatal: the state of
/// the engine is as it was before the call.
#[derive(Clone, Copy, Debug, PartialEq, Eq, Structural)]
pub enum FsError {
    /// The text is not an absolute, normalised path, or the path cannot take
    /// part in the operation (the root has no parent to be renamed in).
    InvalidPath,
    /// The target is neither a file nor a directory any more.
    NotFound,
    /// The name that a rename asks for is taken.
    AlreadyExists,
    /// The operating system refused for the reason given.
    Io(IoKind),
}

impl FsError {
    /// The failure that the engine reports when a rename or a delete that it
    /// allowed was refused by the operating system.
    pub open spec fn of_refusal(kind: IoKind) -> FsError {
        match kind {
            IoKind::NotFound => FsError::NotFound,
            IoKind::AlreadyExists => FsError::AlreadyExists,
            _ => FsError::Io(kind),
        }
    }

    /// The failure to report when the operating system refused a rename or a
    /// delete for the reason `kind`: a target that has vanished and a name
    /// that is taken keep their own failures, every other reason is passed on
    /// as it is.
    pub fn from_refusal(kind: IoKind) -> (error: FsError)
        ensures
            error == FsError::of_refusal(kind),
    {
        match kind {
            IoKind::NotFound => FsError::NotFound,
            IoKind::AlreadyExists => FsError::AlreadyExists,
            _ => FsError::Io(kind),
        }
    }
}

} // verus!
