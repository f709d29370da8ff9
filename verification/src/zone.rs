//! Heating zones and the collection that owns them.

use crate::store::distinct_keys;
use crate::store::fresh_uuid;
use crate::store::map_of;
use crate::store::Store;
use crate::SETPOINT_DEFAULT_BITS;
use vstd::prelude::*;

verus! {

/// A heating zone: a free-form name and a target setpoint, carried as the
/// bit pattern of an IEEE double.
#[derive(Debug, PartialEq)]
pub struct Zone {
    pub name: String,
    pub setpoint: u64,
}

/// The mathematical value of a `Zone`.
#[verifier::ext_equal]
pub ghost struct ZoneView {
    pub name: Seq<char>,
    pub setpoint: u64,
}

impl View for Zone {
    type V = ZoneView;

    open spec fn view(&self) -> ZoneView {
        ZoneView { name: self.name@, setpoint: self.setpoint }
    }
}

impl Clone for Zone {
    fn clone(&self) -> (r: Self)
        ensures
            r@ == self@,
    {
        Zone { name: self.name.clone(), setpoint: self.setpoint }
    }
}

impl Zone {
    /// A new zone with the given name and the default setpoint.
    pub fn new(name: String) -> (z: Zone)
        ensures
            z@ == (ZoneView { name: name@, setpoint: SETPOINT_DEFAULT_BITS }),
    {
        Zone { name, setpoint: SETPOINT_DEFAULT_BITS }
    }

    pub fn set_name(&mut self, name: String)
        ensures
            final(self)@ == (ZoneView { name: name@, setpoint: old(self)@.setpoint }),
    {
        self.name = name;
    }

    pub fn set_setpoint(&mut self, setpoint: u64)
        ensures
            final(self)@ == (ZoneView { name: old(self)@.name, setpoint: setpoint }),
    {
        self.setpoint = setpoint;
    }

    /// Merge `patch` into this zone: fields present in the patch overwrite,
    /// fields absent are left untouched.
    pub fn apply_patch(&mut self, patch: ZonePatch)
        ensures
            final(self)@ == zone_patched(old(self)@, patch@),
    {
        if let Some(name) = patch.name {
            self.name = name;
        }
        if let Some(setpoint) = patch.setpoint {
            self.setpoint = setpoint;
        }
    }
}

/// A partial update for a zone; a field that is absent leaves the stored
/// field as it is.
#[derive(Debug)]
pub struct ZonePatch {
    pub name: Option<String>,
    pub setpoint: Option<u64>,
}

/// The mathematical value of a `ZonePatch`.
#[verifier::ext_equal]
pub ghost struct ZonePatchView {
    pub name: Option<Seq<char>>,
    pub setpoint: Option<u64>,
}

impl View for ZonePatch {
    type V = ZonePatchView;

    open spec fn view(&self) -> ZonePatchView {
        ZonePatchView {
            name: match self.name {
                Some(n) => Some(n@),
                None => None,
            },
            setpoint: self.setpoint,
        }
    }
}

impl ZonePatch {
    /// The patch with no fields present.
    pub fn empty() -> (p: ZonePatch)
        ensures
            p@ == (ZonePatchView { name: None, setpoint: None }),
    {
        ZonePatch { name: None, setpoint: None }
    }
}

/// The result of merging a patch into a zone: each field present in the
/// patch overwrites the stored field, each absent field is untouched.
pub open spec fn zone_patched(z: ZoneView, p: ZonePatchView) -> ZoneView {
    ZoneView {
        name: match p.name {
            Some(n) => n,
            None => z.name,
        },
        setpoint: match p.setpoint {
            Some(s) => s,
            None => z.setpoint,
        },
    }
}

/// The collection owning all zones, keyed by id.
#[derive(Debug)]
pub struct ZoneCollection {
    zones: Store<Zone>,
}

impl View for ZoneCollection {
    type V = Map<u128, ZoneView>;

    closed spec fn view(&self) -> Map<u128, ZoneView> {
        self.zones@
    }
}

impl ZoneCollection {
    /// The empty collection.
    pub fn new() -> (c: ZoneCollection)
        ensures
            c@ == Map::<u128, ZoneView>::empty(),
    {
        ZoneCollection { zones: Store::new() }
    }

    /// Store `zone` under `uuid`, replacing any zone already there.
    pub fn add(&mut self, uuid: u128, zone: Zone)
        ensures
            final(self)@ == old(self)@.insert(uuid, zone@),
    {
        self.zones.insert(uuid, zone);
    }

    /// The zone stored under `uuid`, or nothing: absence is how "not found"
    /// is signalled, never an error.
    pub fn get(&self, uuid: u128) -> (r: Option<&Zone>)
        ensures
            match r {
                Some(z) => self@.contains_key(uuid) && z@ == self@[uuid],
                None => !self@.contains_key(uuid),
            },
    {
        self.zones.get(uuid)
    }

    /// Create a zone with the given name and the default setpoint under a
    /// freshly minted id, and return the id; the id is never one already in
    /// use in this collection.
    pub fn create(&mut self, name: String) -> (id: u128)
        ensures
            !old(self)@.contains_key(id),
            final(self)@ == old(self)@.insert(
                id,
                (ZoneView { name: name@, setpoint: SETPOINT_DEFAULT_BITS }),
            ),
    {
        let mut id = fresh_uuid();
        if self.zones.contains(id) {
            id = self.zones.first_unused();
        }
        self.zones.insert(id, Zone::new(name));
        id
    }

    /// Merge `patch` into the zone stored under `uuid` and return the
    /// updated zone, or nothing when no zone has that id.
    pub fn update(&mut self, uuid: u128, patch: ZonePatch) -> (r: Option<Zone>)
        ensures
            match r {
                Some(z) => old(self)@.contains_key(uuid)
                    && z@ == zone_patched(old(self)@[uuid], patch@)
                    && final(self)@ == old(self)@.insert(uuid, z@),
                None => !old(self)@.contains_key(uuid) && final(self)@ == old(self)@,
            },
    {
        match self.zones.take(uuid) {
            Some(mut zone) => {
                zone.apply_patch(patch);
                let updated = zone.clone();
                self.zones.insert(uuid, zone);
                proof {
                    assert(old(self)@.remove(uuid).insert(uuid, updated@)
                        =~= old(self)@.insert(uuid, updated@));
                }
                Some(updated)
            },
            None => None,
        }
    }

    /// Delete the zone under `uuid`; deleting an absent id is silently a
    /// no-op.
    pub fn remove(&mut self, uuid: u128)
        ensures
            final(self)@ == old(self)@.remove(uuid),
    {
        self.zones.remove(uuid);
    }

    /// All zones as id–zone pairs; iteration order carries no meaning.
    pub fn list(&self) -> (r: &Vec<(u128, Zone)>)
        ensures
            distinct_keys(r@),
            map_of(r@) == self@,
    {
        self.zones.entries()
    }

    /// How many zones are stored.
    pub fn len(&self) -> (n: usize)
        ensures
            n == self@.dom().len(),
    {
        self.zones.len()
    }
}

/// Merging an empty patch leaves a zone unchanged, field for field.
pub proof fn lemma_empty_patch_is_noop(z: ZoneView)
    ensures
        zone_patched(z, (ZonePatchView { name: None, setpoint: None })) == z,
{
}

/// Updating a stored zone with an empty patch leaves the whole collection
/// unchanged.
pub proof fn lemma_empty_update_is_noop(m: Map<u128, ZoneView>, uuid: u128)
    requires
        m.contains_key(uuid),
    ensures
        m.insert(uuid, zone_patched(m[uuid], (ZonePatchView { name: None, setpoint: None })))
            == m,
{
    assert(m.insert(uuid, m[uuid]) =~= m);
}

/// A patch carrying only a name changes the name and nothing else.
pub proof fn lemma_name_patch_changes_only_name(z: ZoneView, name: Seq<char>)
    ensures
        zone_patched(z, (ZonePatchView { name: Some(name), setpoint: None }))
            == (ZoneView { name: name, setpoint: z.setpoint }),
{
}

/// The zone stored by `create` is read back exactly as written: the given
/// name, with the setpoint defaulted.
pub proof fn lemma_get_after_create(m: Map<u128, ZoneView>, id: u128, name: Seq<char>)
    ensures
        m.insert(id, (ZoneView { name: name, setpoint: SETPOINT_DEFAULT_BITS })).contains_key(id),
        m.insert(id, (ZoneView { name: name, setpoint: SETPOINT_DEFAULT_BITS }))[id]
            == (ZoneView { name: name, setpoint: SETPOINT_DEFAULT_BITS }),
{
}

} // verus!
