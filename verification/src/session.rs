//! Filesystem session
//!
//! A session runs a filesystem implementation while it is being mounted to a specific mount
//! point. A session begins by mounting the filesystem and ends by unmounting it. While the
//! filesystem is mounted, the session loop receives, dispatches and replies to kernel requests
//! for filesystem operations under its mount point.

use crate::abi::fuse_in_header;
use crate::errno::Errnos;
use crate::mapping::FilesystemMapping;
use crate::mount_option::{session_acl, MountOption};
use crate::read_buf::BUFFER_SIZE;
use crate::request_param::Request;
use vstd::prelude::*;

verus! {

/// Access control policy for filesystem requests.
#[derive(Clone, Copy, Debug, Eq, PartialEq, Structural)]
pub enum SessionACL {
    /// Allow all users.
    All,
    /// Allow root and the session owner.
    RootAndOwner,
    /// Allow only the session owner.
    Owner,
}

impl SessionACL {
    /// A session of this policy and this owner serves the user `uid`.
    pub open spec fn permits(self, session_owner: u32, uid: u32) -> bool {
        match self {
            SessionACL::All => true,
            SessionACL::RootAndOwner => uid == 0 || uid == session_owner,
            SessionACL::Owner => uid == session_owner,
        }
    }

    /// Decides whether a session of this policy and this owner serves the user
    /// `uid`.
    pub fn allows(self, session_owner: u32, uid: u32) -> (allowed: bool)
        ensures
            allowed == self.permits(session_owner, uid),
            self == SessionACL::All ==> allowed,
            self == SessionACL::RootAndOwner ==> (allowed <==> uid == 0 || uid == session_owner),
            self == SessionACL::Owner ==> (allowed <==> uid == session_owner),
    {
        match self {
            SessionACL::All => true,
            SessionACL::RootAndOwner => uid == 0 || uid == session_owner,
            SessionACL::Owner => uid == session_owner,
        }
    }
}

/// Reads the effective user ID of the process, with `nix::unistd::geteuid` and
/// `Uid::as_raw`. It depends on who runs the process, so nothing is claimed of it.
#[verifier::external_body]
fn effective_uid() -> (uid: u32)
{
    nix::unistd::geteuid().as_raw()
}

/// Transport-agnostic filesystem session state.
///
/// This struct holds the filesystem implementation and protocol state needed to
/// dispatch FUSE requests. It is decoupled from any specific transport (e.g.
/// `/dev/fuse`, virtiofs) so that it can be used with any source of raw FUSE
/// request bytes.
#[derive(Debug)]
pub struct FilesystemSession<FS> {
    /// Filesystem operation implementations.
    pub filesystem: FS,
    /// Whether to restrict access to owner, root + owner, or unrestricted.
    pub allowed: SessionACL,
    /// User that launched the process.
    pub session_owner: u32,
    /// FUSE protocol major version.
    pub proto_major: u32,
    /// FUSE protocol minor version.
    pub proto_minor: u32,
    /// True if the filesystem is initialized (init operation done).
    pub initialized: bool,
    /// True if the filesystem was destroyed (destroy operation done).
    pub destroyed: bool,
    /// Size of the request buffer, lowered from BUFFER_SIZE after FUSE_INIT negotiation.
    pub buffer_size: usize,
}

impl<FS> FilesystemSession<FS> {
    /// A session before any request: nothing negotiated, nothing destroyed.
    pub fn new(filesystem: FS, allowed: SessionACL, session_owner: u32) -> (session: Self)
        ensures
            session == (FilesystemSession {
                filesystem,
                allowed,
                session_owner,
                proto_major: 0,
                proto_minor: 0,
                initialized: false,
                destroyed: false,
                buffer_size: BUFFER_SIZE,
            }),
    {
        FilesystemSession {
            filesystem,
            allowed,
            session_owner,
            proto_major: 0,
            proto_minor: 0,
            initialized: false,
            destroyed: false,
            buffer_size: BUFFER_SIZE,
        }
    }

    /// A new session, owned by the user that runs the process, for a filesystem
    /// that is mounted where `options` are asked for.
    pub fn launch(filesystem: FS, options: &[MountOption]) -> (session: Self)
        ensures
            session == (FilesystemSession {
                filesystem,
                allowed: crate::mount_option::acl_of(options@),
                session_owner: session.session_owner,
                proto_major: 0,
                proto_minor: 0,
                initialized: false,
                destroyed: false,
                buffer_size: BUFFER_SIZE,
            }),
            session.allowed == SessionACL::RootAndOwner <==> options@.contains(
                MountOption::AllowRoot,
            ),
            session.allowed == SessionACL::All <==> options@.contains(MountOption::AllowOther)
                && !options@.contains(MountOption::AllowRoot),
            session.allowed == SessionACL::Owner <==> !options@.contains(MountOption::AllowOther)
                && !options@.contains(MountOption::AllowRoot),
    {
        FilesystemSession::new(filesystem, session_acl(options), effective_uid())
    }

    /// The session of an additional event-loop thread: a clone of the filesystem
    /// with the protocol state that this session has negotiated.
    pub fn worker(&self) -> (worker: Self) where FS: Clone
        ensures
            cloned(self.filesystem, worker.filesystem),
            worker == (FilesystemSession {
                filesystem: worker.filesystem,
                allowed: self.allowed,
                session_owner: self.session_owner,
                proto_major: self.proto_major,
                proto_minor: self.proto_minor,
                initialized: true,
                destroyed: false,
                buffer_size: self.buffer_size,
            }),
    {
        FilesystemSession {
            filesystem: self.filesystem.clone(),
            allowed: self.allowed,
            session_owner: self.session_owner,
            proto_major: self.proto_major,
            proto_minor: self.proto_minor,
            initialized: true,
            destroyed: false,
            buffer_size: self.buffer_size,
        }
    }

    /// Authorizes a request, or gives the error number it is answered with, that
    /// of `EACCES`. The client's own credentials decide; `mapping` only decides
    /// what an authorized request looks like to the filesystem.
    pub fn authorize(&self, header: &fuse_in_header, mapping: FilesystemMapping) -> (authorized: Result<
        Request,
        i32,
    >)
        ensures
            authorized is Ok <==> self.allowed.permits(self.session_owner, header.uid),
            self.allowed == SessionACL::All ==> authorized is Ok,
            self.allowed == SessionACL::RootAndOwner ==> (authorized is Ok <==> header.uid == 0
                || header.uid == self.session_owner),
            self.allowed == SessionACL::Owner ==> (authorized is Ok <==> header.uid
                == self.session_owner),
            authorized matches Ok(request) ==> request.made_from(*header, mapping),
            authorized matches Err(errno) ==> errno == 13,
    {
        if self.allowed.allows(self.session_owner, header.uid) {
            Ok(Request::from_header(header, mapping))
        } else {
            Err(Errnos::host().eacces)
        }
    }

    /// Ends the session. Tells whether the filesystem is still to be destroyed:
    /// it is the first time that the session ends, and never again.
    pub fn finish(&mut self) -> (destroy: bool)
        ensures
            destroy == !old(self).destroyed,
            *final(self) == (FilesystemSession { destroyed: true, ..*old(self) }),
    {
        let destroy = !self.destroyed;
        self.destroyed = true;
        destroy
    }
}

/// An object that can be used to unmount a filesystem: it holds the mount, which
/// unmounts when it is dropped.
#[derive(Debug)]
pub struct SessionUnmounter<M> {
    mount: Option<M>,
}

impl<M> SessionUnmounter<M> {
    /// The mount, as long as it is held.
    pub closed spec fn mount(&self) -> Option<M> {
        self.mount
    }

    /// Holds a mount.
    pub fn new(mount: M) -> (unmounter: Self)
        ensures
            unmounter.mount() == Some(mount),
    {
        SessionUnmounter { mount: Some(mount) }
    }

    /// Unmount the filesystem: drops the mount, if it is still held.
    pub fn unmount(&mut self) -> (done: Result<(), i32>)
        ensures
            done is Ok,
            final(self).mount() is None,
    {
        let _ = self.mount.take();
        Ok(())
    }

    /// Hands the mount over to a background session, or gives the error number
    /// of a filesystem that is not mounted, that of `ENODEV`.
    pub fn hand_over(&mut self) -> (mount: Result<M, i32>)
        ensures
            mount matches Ok(m) ==> old(self).mount() == Some(m),
            mount matches Err(errno) ==> old(self).mount() is None && errno == 19,
            final(self).mount() is None,
    {
        match self.mount.take() {
            Some(mount) => Ok(mount),
            None => Err(Errnos::host().enodev),
        }
    }
}

/// Whom each policy serves: all users; root and the session owner, and nobody
/// else; the session owner, and nobody else.
pub proof fn policies_serve_whom_they_name(session_owner: u32, uid: u32)
    ensures
        SessionACL::All.permits(session_owner, uid),
        SessionACL::RootAndOwner.permits(session_owner, uid) <==> (uid == 0 || uid
            == session_owner),
        SessionACL::Owner.permits(session_owner, uid) <==> uid == session_owner,
{
}

/// The policies are ordered: whom the owner's policy serves, root's policy
/// serves, and whom that one serves, the policy for all serves. The owner is
/// served by each.
pub proof fn policies_are_ordered(session_owner: u32, uid: u32)
    ensures
        SessionACL::Owner.permits(session_owner, uid) ==> SessionACL::RootAndOwner.permits(
            session_owner,
            uid,
        ),
        SessionACL::RootAndOwner.permits(session_owner, uid) ==> SessionACL::All.permits(
            session_owner,
            uid,
        ),
        forall|acl: SessionACL| #[trigger] acl.permits(session_owner, session_owner),
{
}

} // verus!
