use fuser::abi::{fuse_forget_one, fuse_in_header};
use fuser::align::{
    aligned_offset, aligned_sub_buf, aligned_sub_buf_at, checked_aligned_sub_buf,
    checked_aligned_sub_buf_at, request_alignment,
};
use fuser::channel::{send_outcome, transferred, SendOutcome, FUSE_DEV_IOC_CLONE};
use fuser::read_buf::{FuseReadBuf, BUFFER_SIZE, MAX_WRITE_SIZE, MIN_BUFFER_SIZE};
use fuser::{ForgetOne, INodeNo};

#[test]
fn requests_are_aligned_like_their_header() {
    assert_eq!(request_alignment(), std::mem::align_of::<fuse_in_header>());
    assert_eq!(std::mem::size_of::<fuse_in_header>(), 40);
}

#[test]
fn offsets_reach_the_next_aligned_address() {
    for (address, alignment, offset) in [
        (0, 8, 0),
        (1, 8, 7),
        (7, 8, 1),
        (8, 8, 0),
        (13, 4, 3),
        (12, 1, 0),
        (usize::MAX, 8, 1),
        (5, 100, 95),
    ] {
        assert_eq!(aligned_offset(address, alignment), offset);
    }
}

#[test]
fn aligned_parts_start_at_aligned_addresses() {
    let mut buffer = vec![0u8; 64];
    for start in 0..16 {
        for alignment in [1, 2, 4, 8, 16, 32] {
            let whole = &mut buffer[start..];
            let address = whole.as_ptr() as usize;
            let len = whole.len();
            let part = aligned_sub_buf(whole, alignment);
            assert_eq!(part.as_ptr() as usize % alignment, 0);
            assert!(len - part.len() < alignment);
            assert_eq!(part.as_ptr() as usize - address, len - part.len());
        }
    }
}

#[test]
fn writes_to_an_aligned_part_reach_the_buffer() {
    let mut buffer = [1u8, 2, 3, 4, 5];
    let part = aligned_sub_buf_at(&mut buffer, 6, 4);
    assert_eq!(part, [3, 4, 5]);
    part[0] = 9;
    assert_eq!(buffer, [1, 2, 9, 4, 5]);
}

#[test]
fn the_address_decides_what_a_short_buffer_holds() {
    let mut buffer = [1u8, 2, 3];
    for (address, expected) in [
        (8, Some(vec![1u8, 2, 3])),
        (7, Some(vec![2, 3])),
        (5, Some(vec![])),
        (4, None),
        (1, None),
    ] {
        let part = checked_aligned_sub_buf_at(&mut buffer, address, 8);
        assert_eq!(part.map(|part| part.to_vec()), expected);
    }
    assert_eq!(buffer, [1, 2, 3]);
}

#[test]
fn short_buffers_may_hold_no_aligned_byte() {
    let mut buffer = vec![0u8; 32];
    let offset = aligned_offset(buffer.as_ptr() as usize, 16);
    assert!(checked_aligned_sub_buf(&mut buffer[offset + 1..offset + 5], 16).is_none());
    let part = checked_aligned_sub_buf(&mut buffer[offset..offset + 5], 16);
    assert_eq!(part.map(|part| part.len()), Some(5));
    assert!(checked_aligned_sub_buf(&mut buffer, 16).is_some());
}

#[test]
fn read_buffers_are_sized_for_the_largest_write() {
    let len = |mut buf: FuseReadBuf| {
        let part = buf.as_mut();
        assert_eq!(part.as_ptr() as usize % 8, 0);
        assert!(part.iter().all(|byte| *byte == 0));
        part.len()
    };
    for (max_write, size) in [
        (0, 131_072),
        (4096, 131_072),
        (126_976, 131_072),
        (126_977, 131_073),
        (131_072, 135_168),
        (1_048_576, 1_052_672),
        (16_777_215, 16_781_311),
        (16_777_216, 16_781_312),
        (16_777_217, 16_781_312),
        (u32::MAX, 16_781_312),
    ] {
        let aligned = len(FuseReadBuf::for_max_write(max_write));
        assert!(aligned <= size && size < aligned + 8);
        if max_write as usize <= MAX_WRITE_SIZE {
            assert!(aligned >= max_write as usize + 4089);
        }
    }
    let aligned = len(FuseReadBuf::new());
    assert!(aligned <= BUFFER_SIZE && BUFFER_SIZE < aligned + 8);
    assert_eq!(BUFFER_SIZE, 16_781_312);
    assert_eq!(MIN_BUFFER_SIZE, 131_072);
}

#[test]
fn the_address_decides_where_a_read_buffer_starts() {
    let mut buf = FuseReadBuf::for_max_write(0);
    for (address, skipped) in [(0, 0), (8, 0), (9, 7), (15, 1)] {
        assert_eq!(buf.as_mut_at(address).len(), 131_072 - skipped);
    }
    let first = buf.as_mut().as_ptr() as usize;
    assert_eq!(buf.as_mut().as_ptr() as usize, first);
}

#[test]
fn forget_entries_keep_their_numbers() {
    let entry = ForgetOne::new(INodeNo(2), 5);
    assert_eq!(entry.nodeid(), INodeNo(2));
    assert_eq!(entry.nlookup(), 5);
}

#[test]
fn forget_lists_keep_their_order() {
    let inner = [
        fuse_forget_one { nodeid: 3, nlookup: 1 },
        fuse_forget_one { nodeid: 2, nlookup: u64::MAX },
    ];
    let entries = ForgetOne::slice_from_inner(&inner);
    assert_eq!(entries.len(), 2);
    assert_eq!((entries[0].nodeid().0, entries[0].nlookup()), (3, 1));
    assert_eq!((entries[1].nodeid().0, entries[1].nlookup()), (2, u64::MAX));
    assert!(ForgetOne::slice_from_inner(&[]).is_empty());
}

#[test]
fn system_call_results() {
    assert_eq!(transferred(-1), None);
    assert_eq!(transferred(isize::MIN), None);
    assert_eq!(transferred(0), Some(0));
    assert_eq!(transferred(4096), Some(4096));
}

#[test]
fn replies_are_sent_whole() {
    assert_eq!(send_outcome(-1, &[16, 4]), SendOutcome::Failed);
    assert_eq!(send_outcome(20, &[16, 4]), SendOutcome::Sent);
    assert_eq!(send_outcome(0, &[]), SendOutcome::Sent);
    assert_eq!(send_outcome(19, &[16, 4]), SendOutcome::Partial);
    assert_eq!(send_outcome(21, &[16, 4]), SendOutcome::Partial);
    assert_eq!(send_outcome(5, &[usize::MAX, usize::MAX]), SendOutcome::Partial);
}

#[test]
fn the_clone_request_has_the_kernels_number() {
    assert_eq!(FUSE_DEV_IOC_CLONE, (2 << 30) | (4 << 16) | (229 << 8));
}
