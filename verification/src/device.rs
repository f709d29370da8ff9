//! Devices, their optional zone association, and the collection that owns
//! them.

use crate::store::distinct_keys;
use crate::store::fresh_uuid;
use crate::store::lemma_map_of_contains;
use crate::store::lemma_map_of_index;
use crate::store::map_of;
use crate::store::Store;
use crate::SETPOINT_DEFAULT_BITS;
use vstd::prelude::*;

verus! {

/// A device: a free-form name, a target setpoint carried as the bit pattern
/// of an IEEE double, and an optional reference to a zone. The reference is
/// never validated: it may dangle once the zone is removed.
#[derive(Debug, PartialEq)]
pub struct Device {
    pub name: String,
    pub setpoint: u64,
    pub zone_uuid: Option<u128>,
}

/// The mathematical value of a `Device`.
#[verifier::ext_equal]
pub ghost struct DeviceView {
    pub name: Seq<char>,
    pub setpoint: u64,
    pub zone_uuid: Option<u128>,
}

impl View for Device {
    type V = DeviceView;

    open spec fn view(&self) -> DeviceView {
        DeviceView { name: self.name@, setpoint: self.setpoint, zone_uuid: self.zone_uuid }
    }
}

impl Clone for Device {
    fn clone(&self) -> (r: Self)
        ensures
            r@ == self@,
    {
        Device { name: self.name.clone(), setpoint: self.setpoint, zone_uuid: self.zone_uuid }
    }
}

impl Device {
    /// A new device with the given name and zone reference, and the default
    /// setpoint.
    pub fn new(name: String, zone_uuid: Option<u128>) -> (d: Device)
        ensures
            d@ == (DeviceView {
                name: name@,
                setpoint: SETPOINT_DEFAULT_BITS,
                zone_uuid: zone_uuid,
            }),
    {
        Device { name, zone_uuid, setpoint: SETPOINT_DEFAULT_BITS }
    }

    pub fn set_name(&mut self, name: &str)
        ensures
            final(self)@ == (DeviceView {
                name: name@,
                setpoint: old(self)@.setpoint,
                zone_uuid: old(self)@.zone_uuid,
            }),
    {
        self.name = name.to_owned();
    }

    pub fn set_zone_uuid(&mut self, zone_uuid: Option<u128>)
        ensures
            final(self)@ == (DeviceView {
                name: old(self)@.name,
                setpoint: old(self)@.setpoint,
                zone_uuid: zone_uuid,
            }),
    {
        self.zone_uuid = zone_uuid;
    }

    pub fn set_setpoint(&mut self, setpoint: u64)
        ensures
            final(self)@ == (DeviceView {
                name: old(self)@.name,
                setpoint: setpoint,
                zone_uuid: old(self)@.zone_uuid,
            }),
    {
        self.setpoint = setpoint;
    }

    /// Merge `patch` into this device: fields present in the patch
    /// overwrite, fields absent are left untouched, and the zone reference
    /// follows its own three-way rule.
    pub fn apply_patch(&mut self, patch: DevicePatch)
        ensures
            final(self)@ == device_patched(old(self)@, patch@),
    {
        if let Some(name) = patch.name {
            self.name = name;
        }
        if let Some(setpoint) = patch.setpoint {
            self.setpoint = setpoint;
        }
        match patch.zone_uuid {
            ZoneUuidPatch::Keep => {},
            ZoneUuidPatch::Clear => {
                self.zone_uuid = None;
            },
            ZoneUuidPatch::Assign(zone_uuid) => {
                self.zone_uuid = Some(zone_uuid);
            },
        }
    }
}

/// How a patch treats the optional zone reference. A plain present/absent
/// pair cannot express "clear the reference", so the field is three-way:
/// absent from the patch (keep the stored value), present with a value
/// (assign it), or present but null (clear to unassigned).
#[derive(Clone, Copy, Debug, PartialEq, Eq, Structural)]
pub enum ZoneUuidPatch {
    Keep,
    Clear,
    Assign(u128),
}

/// A partial update for a device; an absent field leaves the stored field
/// as it is.
#[derive(Debug)]
pub struct DevicePatch {
    pub name: Option<String>,
    pub setpoint: Option<u64>,
    pub zone_uuid: ZoneUuidPatch,
}

/// The mathematical value of a `DevicePatch`.
#[verifier::ext_equal]
pub ghost struct DevicePatchView {
    pub name: Option<Seq<char>>,
    pub setpoint: Option<u64>,
    pub zone_uuid: ZoneUuidPatch,
}

impl View for DevicePatch {
    type V = DevicePatchView;

    open spec fn view(&self) -> DevicePatchView {
        DevicePatchView {
            name: match self.name {
                Some(n) => Some(n@),
                None => None,
            },
            setpoint: self.setpoint,
            zone_uuid: self.zone_uuid,
        }
    }
}

impl DevicePatch {
    /// The patch with no fields present.
    pub fn empty() -> (p: DevicePatch)
        ensures
            p@ == (DevicePatchView {
                name: None,
                setpoint: None,
                zone_uuid: ZoneUuidPatch::Keep,
            }),
    {
        DevicePatch { name: None, setpoint: None, zone_uuid: ZoneUuidPatch::Keep }
    }
}

/// The result of merging a patch into a device: each field present in the
/// patch overwrites the stored field, each absent field is untouched, and
/// the zone reference is kept, cleared or assigned as the patch says.
pub open spec fn device_patched(d: DeviceView, p: DevicePatchView) -> DeviceView {
    DeviceView {
        name: match p.name {
            Some(n) => n,
            None => d.name,
        },
        setpoint: match p.setpoint {
            Some(s) => s,
            None => d.setpoint,
        },
        zone_uuid: match p.zone_uuid {
            ZoneUuidPatch::Keep => d.zone_uuid,
            ZoneUuidPatch::Clear => None,
            ZoneUuidPatch::Assign(z) => Some(z),
        },
    }
}

/// The devices of `m` whose zone reference is exactly `zone_uuid`.
pub open spec fn devices_with_zone(m: Map<u128, DeviceView>, zone_uuid: u128) -> Map<
    u128,
    DeviceView,
> {
    Map::new(
        |k: u128| m.contains_key(k) && m[k].zone_uuid == Some(zone_uuid),
        |k: u128| m[k],
    )
}

/// The collection owning all devices, keyed by id.
#[derive(Debug)]
pub struct DeviceCollection {
    devices: Store<Device>,
}

impl View for DeviceCollection {
    type V = Map<u128, DeviceView>;

    closed spec fn view(&self) -> Map<u128, DeviceView> {
        self.devices@
    }
}

impl DeviceCollection {
    /// The empty collection.
    pub fn new() -> (c: DeviceCollection)
        ensures
            c@ == Map::<u128, DeviceView>::empty(),
    {
        DeviceCollection { devices: Store::new() }
    }

    /// Store `device` under `uuid`, replacing any device already there.
    pub fn add(&mut self, uuid: u128, device: Device)
        ensures
            final(self)@ == old(self)@.insert(uuid, device@),
    {
        self.devices.insert(uuid, device);
    }

    /// The device stored under `uuid`, or nothing: absence is how "not
    /// found" is signalled, never an error.
    pub fn get(&self, uuid: u128) -> (r: Option<&Device>)
        ensures
            match r {
                Some(d) => self@.contains_key(uuid) && d@ == self@[uuid],
                None => !self@.contains_key(uuid),
            },
    {
        self.devices.get(uuid)
    }

    /// Create a device with the given name and zone reference and the
    /// default setpoint under a freshly minted id, and return the id; the
    /// id is never one already in use in this collection.
    pub fn create(&mut self, name: String, zone_uuid: Option<u128>) -> (id: u128)
        ensures
            !old(self)@.contains_key(id),
            final(self)@ == old(self)@.insert(
                id,
                (DeviceView {
                    name: name@,
                    setpoint: SETPOINT_DEFAULT_BITS,
                    zone_uuid: zone_uuid,
                }),
            ),
    {
        let mut id = fresh_uuid();
        if self.devices.contains(id) {
            id = self.devices.first_unused();
        }
        self.devices.insert(id, Device::new(name, zone_uuid));
        id
    }

    /// Merge `patch` into the device stored under `uuid` and return the
    /// updated device, or nothing when no device has that id.
    pub fn update(&mut self, uuid: u128, patch: DevicePatch) -> (r: Option<Device>)
        ensures
            match r {
                Some(d) => old(self)@.contains_key(uuid)
                    && d@ == device_patched(old(self)@[uuid], patch@)
                    && final(self)@ == old(self)@.insert(uuid, d@),
                None => !old(self)@.contains_key(uuid) && final(self)@ == old(self)@,
            },
    {
        match self.devices.take(uuid) {
            Some(mut device) => {
                device.apply_patch(patch);
                let updated = device.clone();
                self.devices.insert(uuid, device);
                proof {
                    assert(old(self)@.remove(uuid).insert(uuid, updated@)
                        =~= old(self)@.insert(uuid, updated@));
                }
                Some(updated)
            },
            None => None,
        }
    }

    /// Delete the device under `uuid`; deleting an absent id is silently a
    /// no-op.
    pub fn remove(&mut self, uuid: u128)
        ensures
            final(self)@ == old(self)@.remove(uuid),
    {
        self.devices.remove(uuid);
    }

    /// All devices as id–device pairs; iteration order carries no meaning.
    pub fn list(&self) -> (r: &Vec<(u128, Device)>)
        ensures
            distinct_keys(r@),
            map_of(r@) == self@,
    {
        self.devices.entries()
    }

    /// How many devices are stored.
    pub fn len(&self) -> (n: usize)
        ensures
            n == self@.dom().len(),
    {
        self.devices.len()
    }

    /// The devices whose zone reference is exactly `zone_uuid`, as a
    /// collection of their own, or nothing when no device references that
    /// zone: an empty result is signalled as "not found", exactly like an
    /// unknown id. The collection itself is left untouched.
    pub fn get_all_with_zone(&self, zone_uuid: u128) -> (r: Option<DeviceCollection>)
        ensures
            match r {
                Some(c) => c@ == devices_with_zone(self@, zone_uuid)
                    && c@ != Map::<u128, DeviceView>::empty(),
                None => devices_with_zone(self@, zone_uuid) == Map::<u128, DeviceView>::empty(),
            },
    {
        let entries = self.devices.entries();
        let mut result = DeviceCollection::new();
        let mut i: usize = 0;
        while i < entries.len()
            invariant
                distinct_keys(entries@),
                map_of(entries@) == self@,
                i <= entries@.len(),
                forall|k: u128| #[trigger] result@.contains_key(k) ==> self@.contains_key(k)
                    && self@[k].zone_uuid == Some(zone_uuid) && result@[k] == self@[k],
                forall|j: int| 0 <= j < i ==> ((#[trigger] entries@[j]).1@.zone_uuid
                    == Some(zone_uuid) ==> result@.contains_key(entries@[j].0)),
            decreases entries@.len() - i,
        {
            let matches_zone = match entries[i].1.zone_uuid {
                Some(z) => z == zone_uuid,
                None => false,
            };
            if matches_zone {
                proof {
                    lemma_map_of_index(entries@, i as int);
                }
                let device = entries[i].1.clone();
                result.add(entries[i].0, device);
            }
            i = i + 1;
        }
        proof {
            assert forall|k: u128| #[trigger] devices_with_zone(self@, zone_uuid).contains_key(k)
                implies result@.contains_key(k) by {
                lemma_map_of_contains(entries@, k);
                let j = choose|j: int| 0 <= j < entries@.len() && (#[trigger] entries@[j]).0 == k;
                lemma_map_of_index(entries@, j);
            }
            assert(result@ =~= devices_with_zone(self@, zone_uuid));
        }
        if result.devices.is_empty() {
            None
        } else {
            Some(result)
        }
    }
}

/// Merging an empty patch leaves a device unchanged, field for field.
pub proof fn lemma_empty_patch_is_noop(d: DeviceView)
    ensures
        device_patched(
            d,
            (DevicePatchView { name: None, setpoint: None, zone_uuid: ZoneUuidPatch::Keep }),
        ) == d,
{
}

/// Updating a stored device with an empty patch leaves the whole collection
/// unchanged.
pub proof fn lemma_empty_update_is_noop(m: Map<u128, DeviceView>, uuid: u128)
    requires
        m.contains_key(uuid),
    ensures
        m.insert(
            uuid,
            device_patched(
                m[uuid],
                (DevicePatchView { name: None, setpoint: None, zone_uuid: ZoneUuidPatch::Keep }),
            ),
        ) == m,
{
    assert(m.insert(uuid, m[uuid]) =~= m);
}

/// A patch carrying only a name changes the name and nothing else.
pub proof fn lemma_name_patch_changes_only_name(d: DeviceView, name: Seq<char>)
    ensures
        device_patched(
            d,
            (DevicePatchView {
                name: Some(name),
                setpoint: None,
                zone_uuid: ZoneUuidPatch::Keep,
            }),
        ) == (DeviceView { name: name, setpoint: d.setpoint, zone_uuid: d.zone_uuid }),
{
}

/// On a device whose zone reference is set, a patch that clears the
/// reference and a patch that leaves it out produce different devices: the
/// first unassigns the zone, the second keeps it.
pub proof fn lemma_clear_differs_from_keep(d: DeviceView)
    requires
        d.zone_uuid is Some,
    ensures
        device_patched(
            d,
            (DevicePatchView { name: None, setpoint: None, zone_uuid: ZoneUuidPatch::Clear }),
        ).zone_uuid is None,
        device_patched(
            d,
            (DevicePatchView { name: None, setpoint: None, zone_uuid: ZoneUuidPatch::Keep }),
        ) == d,
        device_patched(
            d,
            (DevicePatchView { name: None, setpoint: None, zone_uuid: ZoneUuidPatch::Clear }),
        ) != device_patched(
            d,
            (DevicePatchView { name: None, setpoint: None, zone_uuid: ZoneUuidPatch::Keep }),
        ),
{
}

/// The zone filter selects exactly the devices whose reference equals the
/// given zone id, with their fields untouched.
pub proof fn lemma_with_zone_membership(m: Map<u128, DeviceView>, zone_uuid: u128, k: u128)
    ensures
        devices_with_zone(m, zone_uuid).contains_key(k) <==> (m.contains_key(k)
            && m[k].zone_uuid == Some(zone_uuid)),
        devices_with_zone(m, zone_uuid).contains_key(k) ==> devices_with_zone(m, zone_uuid)[k]
            == m[k],
{
}

/// The device stored by `create` is read back exactly as written: the
/// given name and zone reference, with the setpoint defaulted.
pub proof fn lemma_get_after_create(
    m: Map<u128, DeviceView>,
    id: u128,
    name: Seq<char>,
    zone_uuid: Option<u128>,
)
    ensures
        m.insert(
            id,
            (DeviceView { name: name, setpoint: SETPOINT_DEFAULT_BITS, zone_uuid: zone_uuid }),
        ).contains_key(id),
        m.insert(
            id,
            (DeviceView { name: name, setpoint: SETPOINT_DEFAULT_BITS, zone_uuid: zone_uuid }),
        )[id] == (DeviceView {
            name: name,
            setpoint: SETPOINT_DEFAULT_BITS,
            zone_uuid: zone_uuid,
        }),
{
}

} // verus!
