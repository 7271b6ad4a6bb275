//! Aligned parts of byte buffers.

use vstd::layout;
use vstd::prelude::*;

verus! {

/// Alignment that a request needs in memory: that of
/// [`fuse_in_header`](crate::abi::fuse_in_header), whose strictest fields are
/// its `u64`s.
pub open spec fn header_alignment() -> nat {
    layout::align_of::<u64>()
}

/// A request is aligned to at most eight bytes: an alignment divides the size
/// of its type.
pub proof fn header_alignment_is_small()
    ensures
        1 <= header_alignment() <= 8,
        header_alignment() == layout::align_of::<u64>(),
{
    broadcast use {
        layout::align_nonzero,
        layout::align_properties,
        layout::layout_of_primitives,
    };

    let alignment = header_alignment();
    assert(layout::size_of::<u64>() == 8);
    assert(alignment <= 8) by (nonlinear_arith)
        requires
            8nat % alignment == 0,
            alignment > 0,
    ;
}

/// Computes [`header_alignment`].
pub fn request_alignment() -> (alignment: usize)
    ensures
        alignment == header_alignment(),
{
    core::mem::align_of::<u64>()
}

/// How many bytes lie between `address` and the first multiple of `alignment`
/// at or after it.
pub open spec fn padding(address: int, alignment: int) -> int {
    (-address) % alignment
}

/// Computes [`padding`]: the distance from `address` to the next aligned one.
pub fn aligned_offset(address: usize, alignment: usize) -> (offset: usize)
    requires
        alignment > 0,
    ensures
        offset == padding(address as int, alignment as int),
        offset < alignment,
        (address + offset) % (alignment as int) == 0,
{
    let off: usize = alignment - address % alignment;
    let offset: usize = if off == alignment {
        0
    } else {
        off
    };
    proof {
        lemma_padding(address as int, alignment as int, offset as int);
    }
    offset
}

/// The distance to the next multiple, computed from the remainder.
proof fn lemma_padding(address: int, alignment: int, offset: int)
    requires
        alignment > 0,
        offset == (if address % alignment == 0 {
            0
        } else {
            alignment - address % alignment
        }),
    ensures
        offset == padding(address, alignment),
        0 <= offset < alignment,
        (address + offset) % alignment == 0,
{
    let quotient = address / alignment;
    let remainder = address % alignment;
    vstd::arithmetic::div_mod::lemma_fundamental_div_mod(address, alignment);
    vstd::arithmetic::div_mod::lemma_mod_bound(address, alignment);
    let steps = if remainder == 0 {
        quotient
    } else {
        quotient + 1
    };
    assert(alignment * (quotient + 1) == alignment * quotient + alignment) by (nonlinear_arith);
    assert(address + offset == alignment * steps);
    assert((-steps) * alignment == -(alignment * steps)) by (nonlinear_arith);
    assert(steps * alignment == alignment * steps) by (nonlinear_arith);
    vstd::arithmetic::div_mod::lemma_fundamental_div_mod_converse(-address, alignment, -steps, offset);
    vstd::arithmetic::div_mod::lemma_mod_multiples_basic(steps, alignment);
}

/// Padding leads to an aligned address, past fewer bytes than the alignment has,
/// and is the only distance that does.
pub proof fn padding_reaches_an_aligned_address(address: int, alignment: int, distance: int)
    requires
        alignment > 0,
        0 <= distance < alignment,
    ensures
        (address + padding(address, alignment)) % alignment == 0,
        0 <= padding(address, alignment) < alignment,
        (address + distance) % alignment == 0 <==> distance == padding(address, alignment),
{
    let offset = if address % alignment == 0 {
        0
    } else {
        alignment - address % alignment
    };
    lemma_padding(address, alignment, offset);
    if (address + distance) % alignment == 0 {
        padding_is_least(address, alignment, distance);
        let least = padding(address, alignment);
        let up = (address + distance) / alignment;
        let low = (address + least) / alignment;
        vstd::arithmetic::div_mod::lemma_fundamental_div_mod(address + distance, alignment);
        vstd::arithmetic::div_mod::lemma_fundamental_div_mod(address + least, alignment);
        assert(up == low) by (nonlinear_arith)
            requires
                address + distance == alignment * up,
                address + least == alignment * low,
                0 <= distance - least < alignment,
                alignment > 0,
        ;
    }
}

/// No aligned address lies between an address and the next one that
/// [`padding`] leads to.
pub proof fn padding_is_least(address: int, alignment: int, distance: int)
    requires
        alignment > 0,
        0 <= distance,
        (address + distance) % alignment == 0,
    ensures
        padding(address, alignment) <= distance,
{
    let least = padding(address, alignment);
    let up = (address + distance) / alignment;
    let down = (-address) / alignment;
    vstd::arithmetic::div_mod::lemma_fundamental_div_mod(address + distance, alignment);
    vstd::arithmetic::div_mod::lemma_fundamental_div_mod(-address, alignment);
    vstd::arithmetic::div_mod::lemma_mod_bound(-address, alignment);
    assert(alignment * (up + down) == alignment * up + alignment * down) by (nonlinear_arith);
    assert(distance == alignment * (up + down) + least);
    assert(up + down >= 0) by (nonlinear_arith)
        requires
            distance == alignment * (up + down) + least,
            0 <= distance,
            least < alignment,
            alignment > 0,
    ;
    assert(alignment * (up + down) >= 0) by (nonlinear_arith)
        requires
            up + down >= 0,
            alignment > 0,
    ;
}

/// The part of a buffer that starts at its first aligned byte: `buf`, which
/// lies at `address`, without the bytes before that one.
pub fn aligned_sub_buf_at(buf: &mut [u8], address: usize, alignment: usize) -> (aligned: &mut [u8])
    requires
        alignment > 0,
        padding(address as int, alignment as int) <= old(buf)@.len(),
    ensures
        aligned@ == old(buf)@.skip(padding(address as int, alignment as int)),
        (address + (old(buf)@.len() - aligned@.len())) % (alignment as int) == 0,
        old(buf)@.len() - aligned@.len() < alignment,
        final(buf)@ == old(buf)@.take(padding(address as int, alignment as int)) + final(aligned)@,
{
    let off = aligned_offset(address, alignment);
    let (_, aligned) = buf.split_at_mut(off);
    aligned
}

/// The part that [`aligned_sub_buf_at`] gives, or `None` if the buffer ends
/// before its first aligned byte.
pub fn checked_aligned_sub_buf_at(buf: &mut [u8], address: usize, alignment: usize) -> (aligned:
    Option<&mut [u8]>)
    requires
        alignment > 0,
    ensures
        aligned is Some <==> padding(address as int, alignment as int) <= old(buf)@.len(),
        aligned matches Some(part) ==> {
            &&& part@ == old(buf)@.skip(padding(address as int, alignment as int))
            &&& (address + (old(buf)@.len() - part@.len())) % (alignment as int) == 0
            &&& old(buf)@.len() - part@.len() < alignment
            &&& final(buf)@ == old(buf)@.take(padding(address as int, alignment as int))
                + final(part)@
        },
        aligned is None ==> final(buf)@ == old(buf)@,
{
    if aligned_offset(address, alignment) <= buf.len() {
        Some(aligned_sub_buf_at(buf, address, alignment))
    } else {
        None
    }
}

/// Reads where a buffer lies in memory, with `<[u8]>::as_ptr`. The address is
/// the allocator's choice, so nothing is claimed of it.
#[verifier::external_body]
pub(crate) fn address_of(buf: &[u8]) -> (address: usize)
{
    buf.as_ptr() as usize
}

/// The part of a buffer that starts at its first byte whose address is a
/// multiple of `alignment`. The buffer is long enough to hold one wherever it
/// lies in memory; how many bytes come before it depends on where that is, as
/// [`aligned_sub_buf_at`] says for each address.
pub fn aligned_sub_buf(buf: &mut [u8], alignment: usize) -> (aligned: &mut [u8])
    requires
        alignment > 0,
        alignment <= old(buf)@.len() + 1,
    ensures
        aligned@.len() <= old(buf)@.len() < aligned@.len() + alignment,
        aligned@ == old(buf)@.skip(old(buf)@.len() - aligned@.len()),
        final(buf)@ == old(buf)@.take(old(buf)@.len() - aligned@.len()) + final(aligned)@,
{
    let address = address_of(buf);
    proof {
        padding_is_bounded(address as int, alignment as int);
    }
    aligned_sub_buf_at(buf, address, alignment)
}

/// The part that [`aligned_sub_buf`] gives, or `None` if the buffer ends before
/// its first aligned byte. A buffer of `alignment - 1` bytes or more never does;
/// whether a shorter one does, and how many bytes come before the part, depends
/// on where it lies in memory, as [`checked_aligned_sub_buf_at`] says for each
/// address.
pub fn checked_aligned_sub_buf(buf: &mut [u8], alignment: usize) -> (aligned: Option<&mut [u8]>)
    requires
        alignment > 0,
    ensures
        alignment <= old(buf)@.len() + 1 ==> aligned is Some,
        aligned matches Some(part) ==> {
            &&& part@.len() <= old(buf)@.len() < part@.len() + alignment
            &&& part@ == old(buf)@.skip(old(buf)@.len() - part@.len())
            &&& final(buf)@ == old(buf)@.take(old(buf)@.len() - part@.len()) + final(part)@
        },
        aligned is None ==> final(buf)@ == old(buf)@,
{
    let address = address_of(buf);
    proof {
        padding_is_bounded(address as int, alignment as int);
    }
    checked_aligned_sub_buf_at(buf, address, alignment)
}

/// Fewer than `alignment` bytes lie before the next aligned address.
pub proof fn padding_is_bounded(address: int, alignment: int)
    requires
        alignment > 0,
    ensures
        0 <= padding(address, alignment) < alignment,
{
    vstd::arithmetic::div_mod::lemma_mod_bound(-address, alignment);
}

} // verus!
