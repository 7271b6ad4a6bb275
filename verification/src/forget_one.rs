//! Entries of forget requests.

use crate::abi::{fuse_forget_one, INodeNo};
use vstd::prelude::*;

verus! {

/// Forget about an inode.
#[derive(Debug)]
pub struct ForgetOne {
    forget_one: fuse_forget_one,
}

impl ForgetOne {
    /// The entry as it stands in the request.
    pub closed spec fn inner(&self) -> fuse_forget_one {
        self.forget_one
    }

    /// Build a forget entry, for filesystems that adapt or forward requests.
    pub fn new(nodeid: INodeNo, nlookup: u64) -> (entry: Self)
        ensures
            entry.inner() == (fuse_forget_one { nodeid: nodeid.0, nlookup }),
    {
        ForgetOne { forget_one: fuse_forget_one { nodeid: nodeid.0, nlookup } }
    }

    /// Inode number.
    pub fn nodeid(&self) -> (nodeid: INodeNo)
        ensures
            nodeid == INodeNo(self.inner().nodeid),
    {
        INodeNo(self.forget_one.nodeid)
    }

    /// Number of lookups.
    pub fn nlookup(&self) -> (nlookup: u64)
        ensures
            nlookup == self.inner().nlookup,
    {
        self.forget_one.nlookup
    }

    /// The entries of a request, one for one and in their order.
    pub fn slice_from_inner(inner: &[fuse_forget_one]) -> (entries: Vec<Self>)
        ensures
            entries@.len() == inner@.len(),
            forall|i: int| 0 <= i < inner@.len() ==> (#[trigger] entries@[i]).inner() == inner@[i],
    {
        let mut entries: Vec<ForgetOne> = Vec::with_capacity(inner.len());
        let mut i: usize = 0;
        while i < inner.len()
            invariant
                i <= inner@.len(),
                entries@.len() == i,
                forall|j: int| 0 <= j < i ==> (#[trigger] entries@[j]).inner() == inner@[j],
            decreases inner@.len() - i,
        {
            entries.push(ForgetOne { forget_one: inner[i] });
            i += 1;
        }
        entries
    }
}

} // verus!
