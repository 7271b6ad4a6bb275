//! Structures and numbers of the FUSE kernel interface.

use vstd::prelude::*;

verus! {

/// Header that starts every request from the kernel.
#[allow(non_camel_case_types)]
#[derive(Clone, Copy, Debug, PartialEq, Eq, Structural)]
pub struct fuse_in_header {
    /// Length of the whole request in bytes, this header counted.
    pub len: u32,
    /// Operation code.
    pub opcode: u32,
    /// Identifier of the request, repeated in its reply.
    pub unique: u64,
    /// Inode that the request is about.
    pub nodeid: u64,
    /// User ID of the process that caused the request.
    pub uid: u32,
    /// Group ID of the process that caused the request.
    pub gid: u32,
    /// Process ID of the process that caused the request.
    pub pid: u32,
    /// Unused.
    pub padding: u32,
}

/// One entry of a forget request.
#[allow(non_camel_case_types)]
#[derive(Clone, Copy, Debug, PartialEq, Eq, Structural)]
pub struct fuse_forget_one {
    /// Inode to forget.
    pub nodeid: u64,
    /// How many lookups of it to forget.
    pub nlookup: u64,
}

/// Inode number.
#[derive(Clone, Copy, Debug, PartialEq, Eq, Structural)]
pub struct INodeNo(pub u64);

/// Identifier that pairs a request with its reply.
#[derive(Clone, Copy, Debug, PartialEq, Eq, Structural)]
pub struct RequestId(pub u64);

} // verus!
