//! What the results of system calls on the FUSE device mean.

use vstd::prelude::*;

verus! {

/// `FUSE_DEV_IOC_CLONE`: `_IOR(229, 0, uint32_t)`.
pub const FUSE_DEV_IOC_CLONE: u64 = 0x8004_E500;

/// The number of an ioctl request that reads `size` bytes from the kernel: the
/// direction in the two highest of 32 bits, then the size, the type and the
/// number of the request.
pub open spec fn ior(kind: int, number: int, size: int) -> int {
    2 * 0x4000_0000 + size * 0x1_0000 + kind * 0x100 + number
}

/// Cloning a device descriptor is request 0 of type 229, which reads a `u32`: from
/// the lowest bit on, eight bits hold the number of the request, eight its type,
/// fourteen the size of what it transfers, and two the direction.
pub proof fn clone_request_is_encoded()
    ensures
        FUSE_DEV_IOC_CLONE == ior(229, 0, vstd::layout::size_of::<u32>() as int),
        FUSE_DEV_IOC_CLONE % 0x100 == 0,
        FUSE_DEV_IOC_CLONE / 0x100 % 0x100 == 229,
        FUSE_DEV_IOC_CLONE / 0x1_0000 % 0x4000 == 4,
        FUSE_DEV_IOC_CLONE / 0x4000_0000 == 2,
{
    broadcast use vstd::layout::layout_of_primitives;

}

/// The number of bytes that a system call returning `rc` has transferred, or
/// `None` if it failed.
pub fn transferred(rc: isize) -> (bytes: Option<usize>)
    ensures
        bytes is None <==> rc < 0,
        bytes matches Some(n) ==> n == rc,
{
    if rc < 0 {
        None
    } else {
        Some(rc as usize)
    }
}

/// How sending a reply went.
#[derive(Clone, Copy, Debug, PartialEq, Eq, Structural)]
pub enum SendOutcome {
    /// The whole reply was sent.
    Sent,
    /// The kernel took another number of bytes than the reply has.
    Partial,
    /// The system call failed.
    Failed,
}

/// The length of a reply that is made of parts with these lengths.
pub open spec fn total_len(lens: Seq<usize>) -> int
    decreases lens.len(),
{
    if lens.len() == 0 {
        0
    } else {
        total_len(lens.drop_last()) + lens.last()
    }
}

/// A prefix is never longer than the whole.
proof fn lemma_prefix_len(lens: Seq<usize>, i: int)
    requires
        0 <= i <= lens.len(),
    ensures
        0 <= total_len(lens.take(i)) <= total_len(lens),
    decreases lens.len(),
{
    if i == lens.len() {
        assert(lens.take(i) =~= lens);
        if lens.len() > 0 {
            lemma_prefix_len(lens.drop_last(), i - 1);
        }
    } else {
        lemma_prefix_len(lens.drop_last(), i);
        assert(lens.drop_last().take(i) =~= lens.take(i));
    }
}

/// A reply is as long as its parts are together, wherever it is split: the length
/// is the sum over the parts, each counted once.
pub proof fn reply_is_as_long_as_its_parts(first: Seq<usize>, second: Seq<usize>)
    ensures
        total_len(Seq::empty()) == 0,
        forall|len: usize| #[trigger] total_len(seq![len]) == len,
        total_len(first + second) == total_len(first) + total_len(second),
        total_len(first) == first.fold_left(0int, |sum: int, len: usize| sum + len),
    decreases first.len(), second.len(),
{
    assert forall|len: usize| #[trigger] total_len(seq![len]) == len by {
        reveal_with_fuel(total_len, 2);
        assert(seq![len].drop_last() =~= Seq::<usize>::empty());
    }
    if second.len() == 0 {
        assert(first + second =~= first);
    } else {
        assert((first + second).drop_last() =~= first + second.drop_last());
        reply_is_as_long_as_its_parts(first, second.drop_last());
    }
    if first.len() > 0 {
        reply_is_as_long_as_its_parts(first.drop_last(), seq![]);
    }
    reveal_with_fuel(Seq::fold_left, 2);
}

/// What it means that writing a reply, made of parts with these lengths, returned
/// `rc`.
pub fn send_outcome(rc: isize, lens: &[usize]) -> (outcome: SendOutcome)
    ensures
        outcome == SendOutcome::Failed <==> rc < 0,
        outcome == SendOutcome::Sent <==> rc == total_len(lens@),
        outcome == SendOutcome::Sent <==> rc == lens@.fold_left(
            0int,
            |sum: int, len: usize| sum + len,
        ),
{
    proof {
        reply_is_as_long_as_its_parts(lens@, seq![]);
        lemma_prefix_len(lens@, 0);
    }
    if rc < 0 {
        return SendOutcome::Failed;
    }
    let written: usize = rc as usize;
    let mut left: usize = written;
    let mut i: usize = 0;
    while i < lens.len()
        invariant
            i <= lens@.len(),
            written == rc,
            left == written - total_len(lens@.take(i as int)),
        decreases lens@.len() - i,
    {
        proof {
            assert(lens@.take(i + 1).drop_last() =~= lens@.take(i as int));
            lemma_prefix_len(lens@, i + 1);
            reply_is_as_long_as_its_parts(lens@, seq![]);
        }
        if lens[i] > left {
            return SendOutcome::Partial;
        }
        left = left - lens[i];
        i += 1;
    }
    assert(lens@.take(i as int) =~= lens@);
    if left == 0 {
        SendOutcome::Sent
    } else {
        SendOutcome::Partial
    }
}

} // verus!
