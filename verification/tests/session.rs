use fuser::mount_option::{mount_plan, session_acl};
use fuser::session::{FilesystemSession, SessionACL, SessionUnmounter};
use fuser::MountOption;
use std::cell::Cell;
use std::rc::Rc;

struct Mount(Rc<Cell<u32>>);

impl Drop for Mount {
    fn drop(&mut self) {
        self.0.set(self.0.get() + 1);
    }
}

#[test]
fn policies_admit_whom_they_name() {
    for (acl, expected) in [
        (SessionACL::All, [true, true, true]),
        (SessionACL::RootAndOwner, [true, true, false]),
        (SessionACL::Owner, [false, true, false]),
    ] {
        for (uid, allowed) in [0, 1000, 1001].into_iter().zip(expected) {
            assert_eq!(acl.allows(1000, uid), allowed);
        }
    }
    assert!(SessionACL::Owner.allows(0, 0));
}

#[test]
fn auto_unmount_alone_adds_allow_other_for_the_owner_only() {
    let options = [
        MountOption::FSName("test".to_string()),
        MountOption::AutoUnmount,
    ];
    let plan = mount_plan(&options);
    assert!(plan.allow_other_added);
    assert_eq!(
        plan.options,
        vec![
            MountOption::FSName("test".to_string()),
            MountOption::AutoUnmount,
            MountOption::AllowOther,
        ]
    );
    assert_eq!(session_acl(&options), SessionACL::Owner);
}

#[test]
fn other_options_are_mounted_as_asked() {
    for (options, acl) in [
        (vec![], SessionACL::Owner),
        (vec![MountOption::Other("ro".to_string())], SessionACL::Owner),
        (vec![MountOption::AllowOther], SessionACL::All),
        (vec![MountOption::AllowRoot], SessionACL::RootAndOwner),
        (
            vec![MountOption::AllowOther, MountOption::AllowRoot],
            SessionACL::RootAndOwner,
        ),
        (
            vec![MountOption::AutoUnmount, MountOption::AllowRoot],
            SessionACL::RootAndOwner,
        ),
        (
            vec![MountOption::AllowOther, MountOption::AutoUnmount],
            SessionACL::All,
        ),
    ] {
        let plan = mount_plan(&options);
        assert!(!plan.allow_other_added);
        assert_eq!(plan.options, options);
        assert_eq!(session_acl(&options), acl);
    }
}

#[test]
fn planning_a_plan_adds_nothing() {
    let plan = mount_plan(&[MountOption::AutoUnmount]);
    let again = mount_plan(&plan.options);
    assert_eq!(again.options, plan.options);
    assert!(!again.allow_other_added);
}

#[test]
fn a_new_session_has_negotiated_nothing() {
    let session = FilesystemSession::new("fs", SessionACL::RootAndOwner, 1000);
    assert_eq!(session.filesystem, "fs");
    assert_eq!(session.allowed, SessionACL::RootAndOwner);
    assert_eq!(session.session_owner, 1000);
    assert_eq!((session.proto_major, session.proto_minor), (0, 0));
    assert!(!session.initialized);
    assert!(!session.destroyed);
    assert_eq!(session.buffer_size, 16 * 1024 * 1024 + 4096);
}

#[test]
fn a_launched_session_belongs_to_the_running_user() {
    let session = FilesystemSession::launch("fs", &[MountOption::AllowOther]);
    assert_eq!(session.session_owner, nix::unistd::geteuid().as_raw());
    assert_eq!(session.allowed, SessionACL::All);
    assert_eq!(session.filesystem, "fs");
    assert!(!session.initialized);
}

#[test]
fn workers_copy_the_negotiated_state() {
    let mut session = FilesystemSession::new("fs".to_string(), SessionACL::All, 5);
    session.proto_major = 7;
    session.proto_minor = 31;
    session.initialized = true;
    session.buffer_size = 135_168;
    assert!(session.finish());
    let worker = session.worker();
    assert_eq!(worker.filesystem, "fs");
    assert_eq!(worker.allowed, SessionACL::All);
    assert_eq!(worker.session_owner, 5);
    assert_eq!((worker.proto_major, worker.proto_minor), (7, 31));
    assert!(worker.initialized);
    assert!(!worker.destroyed);
    assert_eq!(worker.buffer_size, 135_168);
}

#[test]
fn a_filesystem_is_destroyed_once() {
    let mut session = FilesystemSession::new((), SessionACL::Owner, 0);
    assert!(session.finish());
    assert!(session.destroyed);
    assert!(!session.finish());
    assert!(!session.finish());
}

#[test]
fn unmounting_drops_the_mount_once() {
    let drops = Rc::new(Cell::new(0));
    let mut unmounter = SessionUnmounter::new(Mount(drops.clone()));
    assert_eq!(drops.get(), 0);
    assert_eq!(unmounter.unmount(), Ok(()));
    assert_eq!(drops.get(), 1);
    assert_eq!(unmounter.unmount(), Ok(()));
    assert_eq!(drops.get(), 1);
}

#[test]
fn a_mount_is_handed_over_once() {
    let drops = Rc::new(Cell::new(0));
    let mut unmounter = SessionUnmounter::new(Mount(drops.clone()));
    let mount = unmounter.hand_over();
    assert!(mount.is_ok());
    assert_eq!(drops.get(), 0);
    assert_eq!(unmounter.hand_over().err(), Some(libc::ENODEV));
    assert_eq!(unmounter.unmount(), Ok(()));
    assert_eq!(drops.get(), 0);
    drop(mount);
    assert_eq!(drops.get(), 1);
}

#[test]
fn an_unmounted_session_has_no_mount_to_hand_over() {
    let mut unmounter = SessionUnmounter::new(3);
    assert_eq!(unmounter.unmount(), Ok(()));
    assert_eq!(unmounter.hand_over(), Err(19));
}
