use fuser::abi::fuse_in_header;
use fuser::mapping::{FATTR_GID, FATTR_UID};
use fuser::{FilesystemMapping, FilesystemSession, IdMap, Request, RequestId, SessionACL};

fn mapping() -> FilesystemMapping {
    FilesystemMapping {
        uid: IdMap::new(1, 100_000, 10_000),
        gid: IdMap::new(1, 200_000, 10_000),
    }
}

fn header(opcode: u32) -> fuse_in_header {
    fuse_in_header {
        len: 46,
        opcode,
        unique: 123,
        nodeid: 1,
        uid: 7,
        gid: 19,
        pid: 42,
        padding: 0,
    }
}

#[test]
fn range_boundaries_and_identity_fallback() {
    let map = IdMap::new(10, 100, 3);
    for (client, filesystem) in [(9, 9), (10, 100), (12, 102), (13, 13), (u32::MAX, u32::MAX)] {
        assert_eq!(map.to_filesystem(client), filesystem);
    }
    for (filesystem, client) in [
        (99, 99),
        (100, 10),
        (102, 12),
        (103, 103),
        (u32::MAX, u32::MAX),
    ] {
        assert_eq!(map.to_client(filesystem), client);
    }
    for id in [0, 1, 10, 100, u32::MAX] {
        assert_eq!(IdMap::default().to_filesystem(id), id);
        assert_eq!(IdMap::default().to_client(id), id);
    }
}

#[test]
fn large_range() {
    let map = IdMap::new(1, 100_000, u32::MAX - 100_000);
    for (client, filesystem) in [
        (0, 0),
        (1, 100_000),
        (1000, 100_999),
        (u32::MAX - 100_000, u32::MAX - 1),
    ] {
        assert_eq!(map.to_filesystem(client), filesystem);
        assert_eq!(map.to_client(filesystem), client);
    }
    assert_eq!(map.to_filesystem(u32::MAX - 99_999), u32::MAX - 99_999);
    assert_eq!(map.to_client(99_999), 99_999);
    assert_eq!(map.to_client(u32::MAX), u32::MAX);
}

#[test]
#[should_panic]
fn rejects_client_range_overflow() {
    IdMap::checked_new(u32::MAX, 0, 1).unwrap();
}

#[test]
#[should_panic]
fn rejects_filesystem_range_overflow() {
    IdMap::checked_new(0, u32::MAX, 1).unwrap();
}

#[test]
fn checked_new_accepts_exactly_what_fits() {
    assert_eq!(IdMap::checked_new(10, 100, 3), Some(IdMap::new(10, 100, 3)));
    assert_eq!(
        IdMap::checked_new(u32::MAX, u32::MAX, 0),
        Some(IdMap::new(u32::MAX, u32::MAX, 0))
    );
    assert!(IdMap::checked_new(u32::MAX - 1, 0, 1).is_some());
    assert!(IdMap::checked_new(u32::MAX - 1, 0, 2).is_none());
    assert!(IdMap::checked_new(0, u32::MAX - 1, 1).is_some());
    assert!(IdMap::checked_new(0, u32::MAX - 1, 2).is_none());
}

#[test]
fn ranges_translate_back() {
    let map = IdMap::new(10, 100, 3);
    for id in [10, 11, 12] {
        assert_eq!(map.to_client(map.to_filesystem(id)), id);
    }
    for id in [100, 101, 102] {
        assert_eq!(map.to_filesystem(map.to_client(id)), id);
    }
    // Passes through, then meets the opposite range.
    assert_eq!(map.to_client(map.to_filesystem(101)), 11);
    assert_eq!(map.to_filesystem(map.to_client(11)), 101);
}

#[test]
fn moved_range_is_no_bijection() {
    let map = IdMap::new(10, 100, 3);
    assert_eq!(map.to_filesystem(10), map.to_filesystem(100));
    let overlapping = IdMap::new(10, 11, 3);
    assert_eq!(overlapping.to_filesystem(12), overlapping.to_filesystem(13));
    let unmoved = IdMap::new(10, 10, 3);
    for id in 0..20 {
        assert_eq!(unmoved.to_filesystem(id), id);
        assert_eq!(unmoved.to_client(id), id);
    }
}

#[test]
fn setattr_only_maps_valid_ownership_arguments() {
    for (valid, expected) in [
        (0u32, (None, None)),
        (2, (Some(100_007), None)),
        (4, (None, Some(0))),
        (6, (Some(100_007), Some(0))),
    ] {
        assert_eq!(mapping().setattr_ownership(valid, 8, 0), expected);
        assert_eq!(mapping().attr_ownership(100_006, 200_018), (7, 19));
    }
}

#[test]
fn setattr_masks_are_single_bits() {
    let map = mapping();
    assert_eq!(map.setattr_ownership(FATTR_UID, 1, 1), (Some(100_000), None));
    assert_eq!(map.setattr_ownership(FATTR_GID, 1, 1), (None, Some(200_000)));
    assert_eq!(map.setattr_ownership(!(FATTR_UID | FATTR_GID), 1, 1), (None, None));
    assert_eq!(
        FilesystemMapping::default().setattr_ownership(u32::MAX, 8, 9),
        (Some(8), Some(9))
    );
}

#[test]
fn session_acl_uses_client_credentials() {
    for (owner, allowed) in [(7, true), (100_006, false)] {
        let session = FilesystemSession::new((), SessionACL::Owner, owner);
        let error = match session.authorize(&header(1), mapping()) {
            Ok(_) => 0,
            Err(errno) => -errno,
        };
        assert_eq!(error, if allowed { 0 } else { -libc::EACCES });
    }
}

#[test]
fn authorized_requests_carry_translated_credentials() {
    let session = FilesystemSession::new((), SessionACL::All, 0);
    let request = session.authorize(&header(1), mapping()).unwrap();
    assert_eq!(request.uid(), 100_006);
    assert_eq!(request.gid(), 200_018);
    assert_eq!(request.pid(), 42);
    assert_eq!(request.unique().0, 123);
}

#[test]
fn credentials_follow_the_mapping_and_default_to_identity() {
    for map in [FilesystemMapping::default(), mapping()] {
        let original = header(26);
        let request = Request::from_header(&original, map);
        assert_eq!(request.uid(), map.uid.to_filesystem(7));
        assert_eq!(request.gid(), map.gid.to_filesystem(19));
        assert_eq!(request.pid(), 42);
        assert_eq!(request.unique(), RequestId(123));
        assert_eq!(original, header(26));
    }
    let request = Request::from_header(&header(26), FilesystemMapping::default());
    assert_eq!((request.uid(), request.gid()), (7, 19));
    assert_eq!(
        FilesystemMapping::default().attr_ownership(100_006, 200_018),
        (100_006, 200_018)
    );
}

#[test]
fn user_and_group_translate_independently() {
    let users_only = FilesystemMapping {
        uid: IdMap::new(1, 100_000, 10_000),
        gid: IdMap::default(),
    };
    let request = Request::from_header(&header(1), users_only);
    assert_eq!((request.uid(), request.gid()), (100_006, 19));
    assert_eq!(users_only.attr_ownership(100_006, 200_018), (7, 200_018));
}

#[test]
fn mappings_compare_by_their_ranges() {
    assert_eq!(FilesystemMapping::default(), FilesystemMapping::default());
    assert_ne!(FilesystemMapping::default(), mapping());
    assert_eq!(IdMap::default(), IdMap::new(0, 0, 0));
    assert_ne!(IdMap::new(1, 2, 3), IdMap::new(1, 2, 4));
    assert_eq!(FilesystemMapping::default().uid, IdMap::new(0, 0, 0));
    assert_eq!(FilesystemMapping::default().gid, IdMap::new(0, 0, 0));
}

#[test]
fn ownership_that_a_client_sets_reads_back() {
    let map = mapping();
    for (uid, gid) in [(1, 1), (7, 19), (10_000, 10_000), (0, 0), (50_000, 50_000)] {
        let (set_uid, set_gid) = map.setattr_ownership(6, uid, gid);
        assert_eq!(
            map.attr_ownership(set_uid.unwrap(), set_gid.unwrap()),
            (uid, gid)
        );
    }
    let (set_uid, _) = map.setattr_ownership(2, 100_006, 0);
    assert_eq!(map.attr_ownership(set_uid.unwrap(), 0).0, 7);
}
