//! Translation between client-visible and filesystem-visible identifiers.

use vstd::prelude::*;

verus! {

/// A range of identifiers translated between a client and a filesystem.
///
/// IDs outside the configured range pass through unchanged in each direction.
/// The default mapping is identity. Identity fallback means this is not
/// necessarily a bijection over all IDs.
#[derive(Clone, Copy, Debug, PartialEq, Eq, Structural)]
pub struct IdMap {
    client_base: u32,
    filesystem_base: u32,
    count: u32,
}

impl IdMap {
    /// First client ID of the range.
    pub closed spec fn client_base(self) -> int {
        self.client_base as int
    }

    /// First filesystem ID of the range.
    pub closed spec fn filesystem_base(self) -> int {
        self.filesystem_base as int
    }

    /// How many IDs the range holds.
    pub closed spec fn count(self) -> int {
        self.count as int
    }

    /// Both ranges, with their exclusive upper bounds, fit in a `u32`.
    #[verifier::type_invariant]
    pub open spec fn wf(self) -> bool {
        &&& 0 <= self.client_base()
        &&& 0 <= self.filesystem_base()
        &&& 0 <= self.count()
        &&& self.client_base() + self.count() <= u32::MAX
        &&& self.filesystem_base() + self.count() <= u32::MAX
    }

    /// `id` is one of the client IDs that are translated.
    pub open spec fn in_client_range(self, id: int) -> bool {
        self.client_base() <= id < self.client_base() + self.count()
    }

    /// `id` is one of the filesystem IDs that are translated.
    pub open spec fn in_filesystem_range(self, id: int) -> bool {
        self.filesystem_base() <= id < self.filesystem_base() + self.count()
    }

    /// What a client ID is called in the filesystem's namespace.
    pub open spec fn filesystem_id(self, id: int) -> int {
        if self.in_client_range(id) {
            id - self.client_base() + self.filesystem_base()
        } else {
            id
        }
    }

    /// What a filesystem ID is called in the client's namespace.
    pub open spec fn client_id(self, id: int) -> int {
        if self.in_filesystem_range(id) {
            id - self.filesystem_base() + self.client_base()
        } else {
            id
        }
    }

    /// Map `count` IDs starting at each base, with exclusive upper bounds.
    pub fn new(client_base: u32, filesystem_base: u32, count: u32) -> (map: Self)
        requires
            client_base + count <= u32::MAX,
            filesystem_base + count <= u32::MAX,
        ensures
            map.wf(),
            map.client_base() == client_base,
            map.filesystem_base() == filesystem_base,
            map.count() == count,
    {
        IdMap { client_base, filesystem_base, count }
    }

    /// The map that [`IdMap::new`] makes, or `None` if either base plus `count`
    /// overflows a `u32`.
    pub fn checked_new(client_base: u32, filesystem_base: u32, count: u32) -> (map: Option<Self>)
        ensures
            map is Some <==> client_base + count <= u32::MAX && filesystem_base + count <= u32::MAX,
            map matches Some(m) ==> {
                &&& m.wf()
                &&& m.client_base() == client_base
                &&& m.filesystem_base() == filesystem_base
                &&& m.count() == count
            },
    {
        if client_base.checked_add(count).is_some() && filesystem_base.checked_add(count).is_some() {
            Some(IdMap::new(client_base, filesystem_base, count))
        } else {
            None
        }
    }

    /// Translate an incoming client ID into the filesystem's namespace.
    #[inline]
    pub fn to_filesystem(self, id: u32) -> (translated: u32)
        ensures
            translated == self.filesystem_id(id as int),
            self.client_base() <= id < self.client_base() + self.count() ==> translated
                - self.filesystem_base() == id - self.client_base(),
            !(self.client_base() <= id < self.client_base() + self.count()) ==> translated == id,
    {
        proof {
            use_type_invariant(&self);
        }
        match id.checked_sub(self.client_base) {
            Some(offset) if offset < self.count => self.filesystem_base + offset,
            _ => id,
        }
    }

    /// Translate an outgoing filesystem ID into the client's namespace.
    #[inline]
    pub fn to_client(self, id: u32) -> (translated: u32)
        ensures
            translated == self.client_id(id as int),
            self.filesystem_base() <= id < self.filesystem_base() + self.count() ==> translated
                - self.client_base() == id - self.filesystem_base(),
            !(self.filesystem_base() <= id < self.filesystem_base() + self.count()) ==> translated
                == id,
    {
        proof {
            use_type_invariant(&self);
        }
        match id.checked_sub(self.filesystem_base) {
            Some(offset) if offset < self.count => self.client_base + offset,
            _ => id,
        }
    }
}

impl Default for IdMap {
    /// The empty range: every ID passes through unchanged.
    fn default() -> (map: Self)
        ensures
            map.wf(),
            map.client_base() == 0,
            map.filesystem_base() == 0,
            map.count() == 0,
            forall|id: int| #[trigger] map.filesystem_id(id) == id,
            forall|id: int| #[trigger] map.client_id(id) == id,
    {
        IdMap { client_base: 0, filesystem_base: 0, count: 0 }
    }
}

/// Bit of a SETATTR request's `valid` mask: the request sets the user ID.
pub const FATTR_UID: u32 = 2;

/// Bit of a SETATTR request's `valid` mask: the request sets the group ID.
pub const FATTR_GID: u32 = 4;

/// Translation at the boundary between a client and a filesystem.
///
/// This maps request credentials, SETATTR ownership arguments, and ownership
/// in attribute replies. It does not interpret IDs in opaque data such as
/// extended attributes. Session ACL checks use the original client credentials.
/// The default mapping is identity.
#[derive(Clone, Copy, Debug, PartialEq, Eq, Structural)]
pub struct FilesystemMapping {
    /// User ID translation.
    pub uid: IdMap,
    /// Group ID translation, independent of user ID translation.
    pub gid: IdMap,
}

impl FilesystemMapping {
    /// Both translations are well-formed.
    pub open spec fn wf(self) -> bool {
        self.uid.wf() && self.gid.wf()
    }

    /// The ownership arguments of a SETATTR request as the filesystem sees them:
    /// user ID first, then group ID. An argument that `valid` does not mark is
    /// absent, whatever the request holds in its place.
    pub fn setattr_ownership(self, valid: u32, uid: u32, gid: u32) -> (arguments: (
        Option<u32>,
        Option<u32>,
    ))
        ensures
            arguments.0 is Some <==> valid & FATTR_UID != 0,
            arguments.0 is Some <==> (valid / 2) % 2 == 1,
            arguments.0 matches Some(id) ==> id == self.uid.filesystem_id(uid as int),
            arguments.1 is Some <==> valid & FATTR_GID != 0,
            arguments.1 is Some <==> (valid / 4) % 2 == 1,
            arguments.1 matches Some(id) ==> id == self.gid.filesystem_id(gid as int),
    {
        assert(valid & 2 != 0 <==> (valid / 2) % 2 == 1) by (bit_vector);
        assert(valid & 4 != 0 <==> (valid / 4) % 2 == 1) by (bit_vector);
        let uid = if valid & FATTR_UID != 0 {
            Some(self.uid.to_filesystem(uid))
        } else {
            None
        };
        let gid = if valid & FATTR_GID != 0 {
            Some(self.gid.to_filesystem(gid))
        } else {
            None
        };
        (uid, gid)
    }

    /// The ownership in an attribute reply as the client sees it: user ID first,
    /// then group ID.
    pub fn attr_ownership(self, uid: u32, gid: u32) -> (owner: (u32, u32))
        ensures
            owner.0 == self.uid.client_id(uid as int),
            owner.1 == self.gid.client_id(gid as int),
    {
        (self.uid.to_client(uid), self.gid.to_client(gid))
    }
}

impl Default for FilesystemMapping {
    /// Identity in both translations.
    fn default() -> (mapping: Self)
        ensures
            mapping.wf(),
            mapping.uid.client_base() == 0,
            mapping.uid.filesystem_base() == 0,
            mapping.uid.count() == 0,
            mapping.gid.client_base() == 0,
            mapping.gid.filesystem_base() == 0,
            mapping.gid.count() == 0,
            forall|id: int| #[trigger] mapping.uid.filesystem_id(id) == id,
            forall|id: int| #[trigger] mapping.uid.client_id(id) == id,
            forall|id: int| #[trigger] mapping.gid.filesystem_id(id) == id,
            forall|id: int| #[trigger] mapping.gid.client_id(id) == id,
    {
        FilesystemMapping { uid: IdMap::default(), gid: IdMap::default() }
    }
}

/// IDs outside the configured range pass through unchanged in each direction.
pub proof fn outside_range_passes_through(map: IdMap, id: int)
    ensures
        !map.in_client_range(id) ==> map.filesystem_id(id) == id,
        !map.in_filesystem_range(id) ==> map.client_id(id) == id,
{
}

/// Translation keeps the place within the range: a client ID so many places after
/// the first client ID of the range becomes the filesystem ID as many places
/// after the first filesystem ID, and the other way round. An ID in front of the
/// range or behind it is its own translation.
pub proof fn translation_keeps_the_place_in_the_range(map: IdMap, id: int)
    ensures
        map.client_base() <= id < map.client_base() + map.count() ==> map.filesystem_id(id)
            - map.filesystem_base() == id - map.client_base(),
        map.filesystem_base() <= id < map.filesystem_base() + map.count() ==> map.client_id(id)
            - map.client_base() == id - map.filesystem_base(),
        id < map.client_base() || map.client_base() + map.count() <= id ==> map.filesystem_id(id)
            == id,
        id < map.filesystem_base() || map.filesystem_base() + map.count() <= id ==> map.client_id(
            id,
        ) == id,
{
}

/// Translation moves all IDs of a range alike, so their distances and their order
/// stay.
pub proof fn translation_keeps_distances(map: IdMap, a: int, b: int)
    ensures
        map.client_base() <= a < map.client_base() + map.count() && map.client_base() <= b
            < map.client_base() + map.count() ==> map.filesystem_id(b) - map.filesystem_id(a) == b
            - a,
        map.filesystem_base() <= a < map.filesystem_base() + map.count() && map.filesystem_base()
            <= b < map.filesystem_base() + map.count() ==> map.client_id(b) - map.client_id(a) == b
            - a,
{
}

/// Swapping the bases of a map swaps its directions.
pub proof fn swapped_bases_swap_directions(map: IdMap, swapped: IdMap, id: int)
    requires
        swapped.client_base() == map.filesystem_base(),
        swapped.filesystem_base() == map.client_base(),
        swapped.count() == map.count(),
    ensures
        swapped.filesystem_id(id) == map.client_id(id),
        swapped.client_id(id) == map.filesystem_id(id),
{
}

/// Translation of an ID gives an ID: nothing leaves the `u32` range.
pub proof fn translation_stays_in_u32(map: IdMap, id: int)
    requires
        map.wf(),
        0 <= id <= u32::MAX,
    ensures
        0 <= map.filesystem_id(id) <= u32::MAX,
        0 <= map.client_id(id) <= u32::MAX,
{
}

/// The two ranges correspond one to one: translating a client ID of the range
/// gives a filesystem ID of the range, and back again the ID it started as; and
/// the other way round.
pub proof fn ranges_round_trip(map: IdMap, id: int)
    ensures
        map.in_client_range(id) ==> {
            &&& map.in_filesystem_range(map.filesystem_id(id))
            &&& map.client_id(map.filesystem_id(id)) == id
        },
        map.in_filesystem_range(id) ==> {
            &&& map.in_client_range(map.client_id(id))
            &&& map.filesystem_id(map.client_id(id)) == id
        },
{
}

/// Ownership that a client sets reads back as it was set: what SETATTR hands to
/// the filesystem comes out of an attribute reply as the client's own IDs. This
/// holds of every ID but those outside the client range that meet the
/// filesystem range, where the bases differ.
pub proof fn ownership_reads_back(mapping: FilesystemMapping, uid: u32, gid: u32)
    ensures
        mapping.uid.client_id(mapping.uid.filesystem_id(uid as int)) == uid <==> (
        mapping.uid.in_client_range(uid as int) || !mapping.uid.in_filesystem_range(uid as int)
            || mapping.uid.client_base() == mapping.uid.filesystem_base()),
        mapping.gid.client_id(mapping.gid.filesystem_id(gid as int)) == gid <==> (
        mapping.gid.in_client_range(gid as int) || !mapping.gid.in_filesystem_range(gid as int)
            || mapping.gid.client_base() == mapping.gid.filesystem_base()),
{
}

/// When a translation is undone by the opposite one. It is for every ID but
/// those that pass through unchanged and then meet the opposite range, where
/// the bases differ.
pub proof fn round_trip_exactly_when(map: IdMap, id: int)
    ensures
        map.client_id(map.filesystem_id(id)) == id <==> (map.in_client_range(id)
            || !map.in_filesystem_range(id) || map.client_base() == map.filesystem_base()),
        map.filesystem_id(map.client_id(id)) == id <==> (map.in_filesystem_range(id)
            || !map.in_client_range(id) || map.client_base() == map.filesystem_base()),
{
}

/// Over all IDs a map is a bijection only where it moves nothing: two clients
/// never share a filesystem ID exactly when the range is empty or its bases are
/// equal, and then every ID is its own translation.
pub proof fn bijection_exactly_when_identity(map: IdMap)
    requires
        map.wf(),
    ensures
        (forall|a: u32, b: u32| #[trigger]
            map.filesystem_id(a as int) == #[trigger] map.filesystem_id(b as int) ==> a == b) <==> (
        map.count() == 0 || map.client_base() == map.filesystem_base()),
        (forall|id: u32| #[trigger] map.filesystem_id(id as int) == id) <==> (map.count() == 0
            || map.client_base() == map.filesystem_base()),
{
    if map.count() > 0 && map.client_base() != map.filesystem_base() {
        // The first ID of the range and the filesystem ID it is sent to, or the
        // last one and the ID it is sent to, fall together.
        let first = map.client_base() as u32;
        let last = (map.client_base() + map.count() - 1) as u32;
        let first_target = map.filesystem_base() as u32;
        let last_target = (map.filesystem_base() + map.count() - 1) as u32;
        assert(map.filesystem_id(first as int) == first_target);
        assert(map.filesystem_id(last as int) == last_target);
        if map.filesystem_base() < map.client_base() {
            assert(map.filesystem_id(first_target as int) == first_target);
        } else {
            assert(map.filesystem_id(last_target as int) == last_target);
        }
    }
}

/// Within the range no two client IDs share a filesystem ID, nor two filesystem
/// IDs a client ID.
pub proof fn range_translation_is_injective(map: IdMap, a: int, b: int)
    ensures
        map.in_client_range(a) && map.in_client_range(b) && map.filesystem_id(a)
            == map.filesystem_id(b) ==> a == b,
        map.in_filesystem_range(a) && map.in_filesystem_range(b) && map.client_id(a)
            == map.client_id(b) ==> a == b,
{
}

} // verus!
