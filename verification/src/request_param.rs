//! Parameters of a request as a filesystem sees them.

use crate::abi::{fuse_in_header, RequestId};
use crate::mapping::FilesystemMapping;
use vstd::prelude::*;

verus! {

/// FUSE request parameters.
#[derive(Debug)]
pub struct Request {
    header: fuse_in_header,
}

impl Request {
    /// The request's header, in the filesystem's namespace.
    pub closed spec fn header(&self) -> fuse_in_header {
        self.header
    }

    /// The request is what `mapping` makes of `header`: the user and the group ID
    /// are translated, each by its own translation, and nothing else changes.
    pub open spec fn made_from(&self, header: fuse_in_header, mapping: FilesystemMapping) -> bool {
        &&& self.header().uid == mapping.uid.filesystem_id(header.uid as int)
        &&& self.header().gid == mapping.gid.filesystem_id(header.gid as int)
        &&& self.header() == (fuse_in_header {
            uid: self.header().uid,
            gid: self.header().gid,
            ..header
        })
    }

    /// The parameters of a request that arrived with this header.
    pub fn from_header(header: &fuse_in_header, mapping: FilesystemMapping) -> (request: Self)
        ensures
            request.made_from(*header, mapping),
            request.header().len == header.len,
            request.header().opcode == header.opcode,
            request.header().unique == header.unique,
            request.header().nodeid == header.nodeid,
            request.header().pid == header.pid,
            request.header().padding == header.padding,
            mapping.uid.client_base() <= header.uid < mapping.uid.client_base()
                + mapping.uid.count() ==> request.header().uid - mapping.uid.filesystem_base()
                == header.uid - mapping.uid.client_base(),
            !(mapping.uid.client_base() <= header.uid < mapping.uid.client_base()
                + mapping.uid.count()) ==> request.header().uid == header.uid,
            mapping.gid.client_base() <= header.gid < mapping.gid.client_base()
                + mapping.gid.count() ==> request.header().gid - mapping.gid.filesystem_base()
                == header.gid - mapping.gid.client_base(),
            !(mapping.gid.client_base() <= header.gid < mapping.gid.client_base()
                + mapping.gid.count()) ==> request.header().gid == header.gid,
    {
        Request {
            header: fuse_in_header {
                uid: mapping.uid.to_filesystem(header.uid),
                gid: mapping.gid.to_filesystem(header.gid),
                ..*header
            },
        }
    }

    /// Returns the unique identifier of this request
    #[inline]
    pub fn unique(&self) -> (id: RequestId)
        ensures
            id == RequestId(self.header().unique),
    {
        RequestId(self.header.unique)
    }

    /// Returns the uid of this request
    #[inline]
    pub fn uid(&self) -> (uid: u32)
        ensures
            uid == self.header().uid,
    {
        self.header.uid
    }

    /// Returns the gid of this request
    #[inline]
    pub fn gid(&self) -> (gid: u32)
        ensures
            gid == self.header().gid,
    {
        self.header.gid
    }

    /// Returns the pid of this request
    #[inline]
    pub fn pid(&self) -> (pid: u32)
        ensures
            pid == self.header().pid,
    {
        self.header.pid
    }
}

/// What a request has of its header: everything but the user and the group ID as
/// it is, and those two at the same place in the filesystem's range as in the
/// client's, or as they are where they are outside it.
pub proof fn request_differs_only_in_credentials(
    request: Request,
    header: fuse_in_header,
    mapping: FilesystemMapping,
)
    requires
        request.made_from(header, mapping),
    ensures
        request.header().len == header.len,
        request.header().opcode == header.opcode,
        request.header().unique == header.unique,
        request.header().nodeid == header.nodeid,
        request.header().pid == header.pid,
        request.header().padding == header.padding,
        request.header().uid - header.uid == (if mapping.uid.client_base() <= header.uid
            < mapping.uid.client_base() + mapping.uid.count() {
            mapping.uid.filesystem_base() - mapping.uid.client_base()
        } else {
            0
        }),
        request.header().gid - header.gid == (if mapping.gid.client_base() <= header.gid
            < mapping.gid.client_base() + mapping.gid.count() {
            mapping.gid.filesystem_base() - mapping.gid.client_base()
        } else {
            0
        }),
{
}

/// A mapping that translates neither ID of a header leaves the header as it is.
pub proof fn identity_keeps_header(
    request: Request,
    header: fuse_in_header,
    mapping: FilesystemMapping,
)
    requires
        request.made_from(header, mapping),
        mapping.uid.filesystem_id(header.uid as int) == header.uid,
        mapping.gid.filesystem_id(header.gid as int) == header.gid,
    ensures
        request.header() == header,
{
}

/// The credentials of a request, translated back, are the client's own wherever
/// the client's IDs are of the translated ranges.
pub proof fn credentials_translate_back(
    request: Request,
    header: fuse_in_header,
    mapping: FilesystemMapping,
)
    requires
        request.made_from(header, mapping),
    ensures
        mapping.uid.in_client_range(header.uid as int) ==> mapping.uid.client_id(
            request.header().uid as int,
        ) == header.uid,
        mapping.gid.in_client_range(header.gid as int) ==> mapping.gid.client_id(
            request.header().gid as int,
        ) == header.gid,
{
}

/// The header determines the request: two requests made from the same header
/// by the same mapping are equal.
pub proof fn request_is_determined(
    a: Request,
    b: Request,
    header: fuse_in_header,
    mapping: FilesystemMapping,
)
    requires
        a.made_from(header, mapping),
        b.made_from(header, mapping),
    ensures
        a == b,
{
}

} // verus!
