//! Zone collection behaviour, exercised through the public library API.

use zonehub::zone::{Zone, ZoneCollection, ZonePatch};

fn bits(x: f64) -> u64 {
    x.to_bits()
}

fn uuid128(s: &str) -> u128 {
    uuid::Uuid::parse_str(s).unwrap().as_u128()
}

#[test]
fn get_index_returns_content() {
    assert_eq!("Hello, World!", zonehub::index());
}

#[test]
fn with_no_zones_returns_empty_json_object_with_zones_key() {
    let zones = ZoneCollection::new();
    assert_eq!(0, zones.len());
    assert!(zones.list().is_empty());
}

#[test]
fn with_zones_returns_json_object_with_uuids_mapped_to_zones() {
    let zone1_uuid = uuid128("84fa1356-d5de-11e8-9f8b-f2801f1b9fd1");
    let zone1_name = "Zone Name";
    let zone2_uuid = uuid128("88f573e2-d5de-11e8-9f8b-f2801f1b9fd1");
    let zone2_name = "Different Name";
    let mut zones = ZoneCollection::new();
    zones.add(zone1_uuid, Zone::new(zone1_name.to_string()));
    zones.add(zone2_uuid, Zone::new(zone2_name.to_string()));

    assert_eq!(2, zones.len());
    let zone1 = zones.get(zone1_uuid).unwrap();
    assert_eq!(zone1_name, zone1.name);
    assert_eq!(bits(16.0), zone1.setpoint);
    let zone2 = zones.get(zone2_uuid).unwrap();
    assert_eq!(zone2_name, zone2.name);
    assert_eq!(bits(16.0), zone2.setpoint);
}

#[test]
fn with_valid_uuid_returns_correct_json_zone_object() {
    let zone_uuid = uuid128("84fa1356-d5de-11e8-9f8b-f2801f1b9fd1");
    let zone_name = "Zone Name";
    let mut zones = ZoneCollection::new();
    zones.add(zone_uuid, Zone::new(zone_name.to_string()));

    let zone = zones.get(zone_uuid).unwrap();
    assert_eq!(zone_name, zone.name);
    assert_eq!(bits(16.0), zone.setpoint);
}

#[test]
fn multiple_zones_returns_correct_json_zone_object_each_time() {
    let zone1_uuid = uuid128("84fa1356-d5de-11e8-9f8b-f2801f1b9fd1");
    let zone1_name = "Zone Name";
    let zone2_uuid = uuid128("88f573e2-d5de-11e8-9f8b-f2801f1b9fd1");
    let zone2_name = "Different Name";
    let mut zones = ZoneCollection::new();
    zones.add(zone1_uuid, Zone::new(zone1_name.to_string()));
    zones.add(zone2_uuid, Zone::new(zone2_name.to_string()));

    let zone = zones.get(zone1_uuid).unwrap();
    assert_eq!(zone1_name, zone.name);
    assert_eq!(bits(16.0), zone.setpoint);

    let zone = zones.get(zone2_uuid).unwrap();
    assert_eq!(zone2_name, zone.name);
    assert_eq!(bits(16.0), zone.setpoint);
}

#[test]
fn none_existing_uuid_returns_error_not_found() {
    let zones = ZoneCollection::new();
    let zone_uuid = uuid128("88f573e2-d5de-11e8-9f8b-f2801f1b9fd1");
    assert!(zones.get(zone_uuid).is_none());
}

#[test]
fn after_call_zone_remains() {
    let zone_uuid = uuid128("84fa1356-d5de-11e8-9f8b-f2801f1b9fd1");
    let zone_name = "Zone Name";
    let mut zones = ZoneCollection::new();
    zones.add(zone_uuid, Zone::new(zone_name.to_string()));

    let zone = zones.get(zone_uuid).unwrap();
    assert_eq!(zone_name, zone.name);
    assert_eq!(bits(16.0), zone.setpoint);

    let zone = zones.get(zone_uuid).unwrap();
    assert_eq!(zone_name, zone.name);
    assert_eq!(bits(16.0), zone.setpoint);
}

#[test]
fn response_body_contains_new_zone() {
    let mut zones = ZoneCollection::new();
    let name = "Living Room";

    let id = zones.create(name.to_string());
    let zone = zones.get(id).unwrap();

    assert_eq!(name, zone.name);
    assert_eq!(bits(16.0), zone.setpoint);
}

#[test]
fn adds_zone() {
    let mut zones = ZoneCollection::new();
    let name = "Living Room";

    zones.create(name.to_string());

    let found = zones.list().iter().any(|(_, zone)| zone.name == name);
    assert!(found);
}

#[test]
fn can_add_more_than_one_zone() {
    let mut zones = ZoneCollection::new();
    let zone1_name = "Bathroom";
    let zone2_name = "Study";

    zones.create(zone1_name.to_string());
    zones.create(zone2_name.to_string());

    let found = zones.list().iter().any(|(_, zone)| zone.name == zone1_name);
    assert!(found);
    let found = zones.list().iter().any(|(_, zone)| zone.name == zone2_name);
    assert!(found);
}

#[test]
fn returns_updated_zone() {
    let zone1_uuid = uuid128("84fa1356-d5de-11e8-9f8b-f2801f1b9fd1");
    let zone1_name = "Zone Name".to_string();
    let zone2_uuid = uuid128("88f573e2-d5de-11e8-9f8b-f2801f1b9fd1");
    let zone2_name = "Different Name".to_string();
    let mut zones = ZoneCollection::new();
    zones.add(zone1_uuid, Zone::new(zone1_name));
    zones.add(zone2_uuid, Zone::new(zone2_name));

    let patched_name = "New zone name".to_string();
    let patch = ZonePatch { name: Some(patched_name.clone()), setpoint: None };
    let returned_zone = zones.update(zone1_uuid, patch).unwrap();

    let expected_zone = Zone::new(patched_name);
    assert_eq!(expected_zone, returned_zone);
}

#[test]
fn updates_zone_collection() {
    let zone1_uuid = uuid128("84fa1356-d5de-11e8-9f8b-f2801f1b9fd1");
    let zone1_name = "Zone Name";
    let zone2_uuid = uuid128("88f573e2-d5de-11e8-9f8b-f2801f1b9fd1");
    let zone2_name = "Different Name";
    let mut zones = ZoneCollection::new();
    zones.add(zone1_uuid, Zone::new(zone1_name.to_string()));
    zones.add(zone2_uuid, Zone::new(zone2_name.to_string()));

    let patched_name = "New zone name".to_string();
    let patch = ZonePatch { name: Some(patched_name.clone()), setpoint: None };
    zones.update(zone1_uuid, patch);

    assert_eq!(2, zones.len());
    let zone1 = zones.get(zone1_uuid).unwrap();
    assert_eq!(patched_name, zone1.name);
    assert_eq!(bits(16.0), zone1.setpoint);
    let zone2 = zones.get(zone2_uuid).unwrap();
    assert_eq!(zone2_name, zone2.name);
    assert_eq!(bits(16.0), zone2.setpoint);
}

#[test]
fn change_name_only() {
    let zone_uuid = uuid128("84fa1356-d5de-11e8-9f8b-f2801f1b9fd1");
    let zone_name = "Zone Name".to_string();
    let mut zones = ZoneCollection::new();
    zones.add(zone_uuid, Zone::new(zone_name));

    let patched_name = "New zone name".to_string();
    let patch = ZonePatch { name: Some(patched_name.clone()), setpoint: None };
    let zone = zones.update(zone_uuid, patch).unwrap();

    assert_eq!(patched_name, zone.name);
    assert_eq!(bits(16.0), zone.setpoint);
}

#[test]
fn change_setpoint_only() {
    let zone_uuid = uuid128("84fa1356-d5de-11e8-9f8b-f2801f1b9fd1");
    let zone_name = "Zone Name".to_string();
    let mut zone = Zone::new(zone_name.clone());
    zone.set_setpoint(bits(32.0));
    let mut zones = ZoneCollection::new();
    zones.add(zone_uuid, zone);

    let patch_setpoint = bits(56.42);
    let patch = ZonePatch { name: None, setpoint: Some(patch_setpoint) };
    let zone = zones.update(zone_uuid, patch).unwrap();

    assert_eq!(zone_name, zone.name);
    assert_eq!(patch_setpoint, zone.setpoint);
}

#[test]
fn zone_deleted() {
    let zone1_uuid = uuid128("84fa1356-d5de-11e8-9f8b-f2801f1b9fd1");
    let zone1_name = "Zone Name";
    let zone2_uuid = uuid128("88f573e2-d5de-11e8-9f8b-f2801f1b9fd1");
    let zone2_name = "Different Name";
    let mut zones = ZoneCollection::new();
    zones.add(zone1_uuid, Zone::new(zone1_name.to_string()));
    zones.add(zone2_uuid, Zone::new(zone2_name.to_string()));

    zones.remove(zone1_uuid);

    assert_eq!(1, zones.len());
    assert!(zones.get(zone1_uuid).is_none());
    let zone2 = zones.get(zone2_uuid).unwrap();
    assert_eq!(zone2_name, zone2.name);
    assert_eq!(bits(16.0), zone2.setpoint);
}

#[test]
fn given_no_zones_when_get_zones_then_return_empty_json_object() {
    let zones = ZoneCollection::new();
    assert!(zones.list().is_empty());
}

#[test]
fn given_zones_when_get_zones_then_return_json_object_with_uuids_mapped_to_zones() {
    let zone1_uuid: u128 = 123;
    let zone1_name = "Zone Name";
    let zone2_uuid: u128 = 456;
    let zone2_name = "Different Name";
    let mut zones = ZoneCollection::new();
    zones.add(zone1_uuid, Zone::new(zone1_name.to_string()));
    zones.add(zone2_uuid, Zone::new(zone2_name.to_string()));

    assert_eq!(2, zones.len());
    assert_eq!(zone1_name, zones.get(zone1_uuid).unwrap().name);
    assert_eq!(zone2_name, zones.get(zone2_uuid).unwrap().name);
}

#[test]
fn given_valid_uuid_when_get_single_zone_then_return_correct_json_zone_object() {
    let zone_uuid: u128 = 123;
    let zone_name = "Zone Name";
    let mut zones = ZoneCollection::new();
    zones.add(zone_uuid, Zone::new(zone_name.to_string()));

    assert_eq!(zone_name, zones.get(zone_uuid).unwrap().name);
}

#[test]
fn given_zones_when_get_zones_individually_then_return_correct_json_zone_object_each_time() {
    let zone1_uuid: u128 = 123;
    let zone1_name = "Zone Name";
    let zone2_uuid: u128 = 456;
    let zone2_name = "Different Name";
    let mut zones = ZoneCollection::new();
    zones.add(zone1_uuid, Zone::new(zone1_name.to_string()));
    zones.add(zone2_uuid, Zone::new(zone2_name.to_string()));

    assert_eq!(zone1_name, zones.get(zone1_uuid).unwrap().name);
    assert_eq!(zone2_name, zones.get(zone2_uuid).unwrap().name);
}

#[test]
fn given_none_existing_uuid_when_get_zone_then_return_error_not_found() {
    let zones = ZoneCollection::new();
    let zone_uuid: u128 = 789;
    assert!(zones.get(zone_uuid).is_none());
}

#[test]
fn when_put_zone_then_response_body_contains_new_zone() {
    let mut zones = ZoneCollection::new();
    let name = "Living Room";

    let id = zones.create(name.to_string());

    assert_eq!(name, zones.get(id).unwrap().name);
}

#[test]
fn when_put_zone_then_new_zone_added() {
    let mut zones = ZoneCollection::new();
    let name = "Living Room";

    zones.create(name.to_string());

    let found = zones.list().iter().any(|(_, zone)| zone.name == name);
    assert!(found);
}
