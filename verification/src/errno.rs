//! POSIX-style error numbers shared by the file-system and socket
//! services.

use vstd::prelude::*;

verus! {

/// The error numbers this crate's file and socket services return.
#[derive(Debug, Clone, Copy, PartialEq, Eq, Structural)]
pub enum Errno {
    /// Permission denied.
    EACCES,
    /// The operation would block; retry when ready.
    EAGAIN,
    /// An entry with the given name already exists.
    EEXIST,
    /// No such file or directory.
    ENOENT,
    /// The operation is not implemented for this node.
    ENOSYS,
    /// The peer end is closed.
    EPIPE,
}

} // verus!
