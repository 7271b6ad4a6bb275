//! Buffers that requests are read into.

use crate::align;
use vstd::prelude::*;

verus! {

/// The max size of write requests from the kernel. The absolute minimum is 4k,
/// FUSE recommends at least 128k, max 16M. The FUSE default is 16M on macOS
/// and 128k on other systems.
pub const MAX_WRITE_SIZE: usize = 16 * 1024 * 1024;

/// Size of the buffer for reading a request from the kernel. Since the kernel may send
/// up to `MAX_WRITE_SIZE` bytes in a write request, we use that value plus some extra space.
pub const BUFFER_SIZE: usize = MAX_WRITE_SIZE + 4096;

/// Floor for a `max_write`-derived buffer, so that operations carrying long paths
/// or extended attributes still fit when the kernel negotiates a small `max_write`.
pub const MIN_BUFFER_SIZE: usize = 128 * 1024;

/// A buffer that provides an aligned sub-slice for FUSE operations.
///
/// This struct wraps a `Vec<u8>` and provides access to an aligned portion
/// of the buffer, ensuring proper alignment for `fuse_in_header`.
#[derive(Debug)]
pub struct FuseReadBuf {
    buffer: Vec<u8>,
}

/// Size of the buffer for a negotiated `max_write`.
pub open spec fn size_for_max_write(max_write: int) -> int {
    if max_write + 4096 < MIN_BUFFER_SIZE {
        MIN_BUFFER_SIZE as int
    } else if max_write + 4096 > BUFFER_SIZE {
        BUFFER_SIZE as int
    } else {
        max_write + 4096
    }
}

impl View for FuseReadBuf {
    type V = Seq<u8>;

    closed spec fn view(&self) -> Seq<u8> {
        self.buffer@
    }
}

impl FuseReadBuf {
    /// The buffer is neither below the floor nor above the default.
    pub open spec fn wf(&self) -> bool {
        MIN_BUFFER_SIZE <= self@.len() <= BUFFER_SIZE
    }

    /// Creates a new `FuseReadBuf` with the default buffer size.
    pub fn new() -> (buf: Self)
        ensures
            buf.wf(),
            buf@ == Seq::new(BUFFER_SIZE as nat, |i: int| 0u8),
            buf@.len() == 16_781_312,
    {
        let buffer: Vec<u8> = vec![0; BUFFER_SIZE];
        assert(buffer@ =~= Seq::new(BUFFER_SIZE as nat, |i: int| 0u8));
        FuseReadBuf { buffer }
    }

    /// Creates a `FuseReadBuf` sized for a negotiated `max_write`.
    ///
    /// The kernel will not send a write larger than `max_write`, so allocating for
    /// the protocol ceiling instead wastes memory once per event loop thread. The
    /// same headroom as [`BUFFER_SIZE`] is kept for the request header and for
    /// non-write operations, and the result is never larger than the default.
    pub fn for_max_write(max_write: u32) -> (buf: Self)
        ensures
            buf.wf(),
            buf@ == Seq::new(size_for_max_write(max_write as int) as nat, |i: int| 0u8),
            max_write <= MIN_BUFFER_SIZE - 4096 ==> buf@.len() == MIN_BUFFER_SIZE,
            MIN_BUFFER_SIZE - 4096 <= max_write <= MAX_WRITE_SIZE ==> buf@.len() == max_write
                + 4096,
            MAX_WRITE_SIZE <= max_write ==> buf@.len() == BUFFER_SIZE,
            forall|i: int| 0 <= i < buf@.len() ==> buf@[i] == 0,
    {
        let wanted: usize = (max_write as usize).saturating_add(4096);
        let size: usize = if wanted < MIN_BUFFER_SIZE {
            MIN_BUFFER_SIZE
        } else if wanted > BUFFER_SIZE {
            BUFFER_SIZE
        } else {
            wanted
        };
        let buffer: Vec<u8> = vec![0; size];
        assert(buffer@ =~= Seq::new(size_for_max_write(max_write as int) as nat, |i: int| 0u8));
        FuseReadBuf { buffer }
    }

    /// Returns a mutable reference to the aligned portion of the buffer. How many
    /// bytes come before it depends on where the buffer lies in memory, as
    /// [`FuseReadBuf::as_mut_at`] says for each address.
    pub fn as_mut(&mut self) -> (aligned: &mut [u8])
        requires
            old(self).wf(),
        ensures
            aligned@.len() <= old(self)@.len() < aligned@.len() + align::header_alignment(),
            aligned@ == old(self)@.skip(old(self)@.len() - aligned@.len()),
            final(self)@ == old(self)@.take(old(self)@.len() - aligned@.len()) + final(aligned)@,
            final(aligned)@ == aligned@ ==> final(self)@ == old(self)@,
            final(aligned)@.len() == aligned@.len() ==> final(self).wf(),
    {
        let address = align::address_of(self.buffer.as_slice());
        proof {
            align::header_alignment_is_small();
            align::padding_is_bounded(address as int, align::header_alignment() as int);
        }
        self.as_mut_at(address)
    }

    /// The aligned portion of the buffer, where the buffer lies at `address`: it
    /// starts at an aligned address, and no earlier byte of the buffer does.
    pub fn as_mut_at(&mut self, address: usize) -> (aligned: &mut [u8])
        requires
            old(self).wf(),
        ensures
            aligned@ == old(self)@.skip(
                align::padding(address as int, align::header_alignment() as int),
            ),
            (address + (old(self)@.len() - aligned@.len())) % (align::header_alignment() as int)
                == 0,
            aligned@.len() <= old(self)@.len() < aligned@.len() + align::header_alignment(),
            final(self)@ == old(self)@.take(old(self)@.len() - aligned@.len()) + final(aligned)@,
            final(aligned)@ == aligned@ ==> final(self)@ == old(self)@,
            final(aligned)@.len() == aligned@.len() ==> final(self).wf(),
    {
        let alignment = align::request_alignment();
        proof {
            align::header_alignment_is_small();
            align::padding_is_bounded(address as int, alignment as int);
        }
        align::aligned_sub_buf_at(self.buffer.as_mut_slice(), address, alignment)
    }
}

/// A buffer for a negotiated `max_write` is never larger than the default and
/// never below the floor; within the protocol's ceiling it has room for the
/// largest write and the same headroom as the default, which it is at the
/// ceiling.
pub proof fn negotiated_size_bounds(max_write: int)
    requires
        0 <= max_write,
    ensures
        MIN_BUFFER_SIZE <= size_for_max_write(max_write) <= BUFFER_SIZE,
        max_write <= MAX_WRITE_SIZE ==> size_for_max_write(max_write) - max_write >= BUFFER_SIZE
            - MAX_WRITE_SIZE,
        max_write >= MAX_WRITE_SIZE ==> size_for_max_write(max_write) == BUFFER_SIZE,
{
}

/// The size of a buffer in bytes: 4096 more than `max_write`, but at least 128 KiB
/// and at most 16 MiB and 4096 bytes.
pub proof fn negotiated_size_in_bytes(max_write: int)
    requires
        0 <= max_write,
    ensures
        max_write <= 126_976 ==> size_for_max_write(max_write) == 131_072,
        126_976 <= max_write <= 16_777_216 ==> size_for_max_write(max_write) == max_write + 4096,
        16_777_216 <= max_write ==> size_for_max_write(max_write) == 16_781_312,
{
}

/// A larger `max_write` never gives a smaller buffer.
pub proof fn negotiated_size_is_monotonic(a: int, b: int)
    requires
        a <= b,
    ensures
        size_for_max_write(a) <= size_for_max_write(b),
{
}

/// Alignment costs fewer than eight bytes: the aligned part of a buffer for
/// `max_write` still has room for the largest write and, before it, for all but
/// at most seven bytes of the headroom.
pub proof fn aligned_part_holds_a_write(size: int, aligned: int, max_write: int)
    requires
        0 <= max_write <= MAX_WRITE_SIZE,
        size == size_for_max_write(max_write),
        aligned <= size < aligned + align::header_alignment(),
    ensures
        aligned - max_write >= BUFFER_SIZE - MAX_WRITE_SIZE - 7,
{
    align::header_alignment_is_small();
}

} // verus!
