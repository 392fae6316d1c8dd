//! Tests of the two-phase random-map-info codec and its child records.

use genie_rec::random_map::{
    RandomMapElevation, RandomMapInfo, RandomMapLand, RandomMapObject, RandomMapTerrain,
};
use genie_rec::reader::{Reader, Writer};

fn push_i32(out: &mut Vec<u8>, v: i32) {
    out.extend_from_slice(&v.to_le_bytes());
}

fn push_u32(out: &mut Vec<u8>, v: u32) {
    out.extend_from_slice(&v.to_le_bytes());
}

/// A header with the given counts; scalars as in the header-only scenario.
fn header_bytes(lands: u32, terrains: u32, objects: u32, elevations: u32) -> Vec<u8> {
    let mut b = Vec::new();
    push_i32(&mut b, 0x10); // id
    push_i32(&mut b, 1); // borders
    push_i32(&mut b, 2);
    push_i32(&mut b, 3);
    push_i32(&mut b, 4);
    push_i32(&mut b, 5); // border fade
    push_i32(&mut b, 6); // water border
    push_i32(&mut b, 7); // base terrain
    push_i32(&mut b, 50); // land percent
    push_i32(&mut b, 0); // discarded id
    push_u32(&mut b, lands);
    push_u32(&mut b, 0); // pointer
    push_u32(&mut b, terrains);
    push_u32(&mut b, 0); // pointer
    push_u32(&mut b, objects);
    push_u32(&mut b, 0); // pointer
    push_u32(&mut b, elevations);
    push_u32(&mut b, 0); // pointer
    b
}

#[test]
fn random_map_header_only() {
    let bytes = header_bytes(0, 0, 0, 0);
    assert_eq!(bytes.len(), 72);
    let mut r = Reader::new(bytes.clone());
    let info = RandomMapInfo::from(&mut r).unwrap();
    assert_eq!(info.id, 0x10);
    assert_eq!(info.borders, (1, 2, 3, 4));
    assert_eq!(info.border_fade, 5);
    assert_eq!(info.water_border, 6);
    assert_eq!(info.base_terrain, 7);
    assert_eq!(info.land_percent, 50);
    assert!(info.lands.is_empty());
    assert!(info.terrains.is_empty());
    assert!(info.objects.is_empty());
    assert!(info.elevations.is_empty());
    assert_eq!(r.position(), 72);

    // Re-encoding the decoded header reproduces the input byte for byte.
    let mut w = Writer::new();
    info.write_to(&mut w);
    assert_eq!(w.into_vec(), bytes);
}

#[test]
fn random_map_header_preallocates_defaults() {
    let bytes = header_bytes(2, 1, 0, 3);
    let mut r = Reader::new(bytes);
    let info = RandomMapInfo::from(&mut r).unwrap();
    assert_eq!(info.lands.len(), 2);
    assert_eq!(info.terrains.len(), 1);
    assert_eq!(info.objects.len(), 0);
    assert_eq!(info.elevations.len(), 3);
    assert_eq!(info.terrains[0], RandomMapTerrain::default());
    assert_eq!(info.lands[0], RandomMapLand::default());
}

fn terrain_bytes(seed: i32) -> Vec<u8> {
    let mut b = Vec::new();
    for k in 0..6 {
        push_i32(&mut b, seed + k);
    }
    b
}

fn land_bytes() -> Vec<u8> {
    let mut b = Vec::new();
    push_i32(&mut b, 1); // id
    b.push(9); // terrain type
    b.extend_from_slice(&[0, 0, 0]); // padding hole
    push_i32(&mut b, 2); // land avoidance tiles
    push_i32(&mut b, 3); // base square radius
    b.push(0xFF); // zone -1
    b.push(0x02); // placement type
    b.extend_from_slice(&[0, 0]); // padding hole
    push_i32(&mut b, 4); // x
    push_i32(&mut b, 5); // y
    b.push(60); // amount of land used
    b.push(1); // by-player flag
    b.extend_from_slice(&[0, 0]); // padding hole
    push_i32(&mut b, 6); // radius
    push_i32(&mut b, 7); // fade
    push_i32(&mut b, 8); // clumpiness
    b
}

#[test]
fn random_map_two_phase_decode_and_commands_roundtrip() {
    let mut bytes = header_bytes(1, 1, 0, 0);
    let payload_start = bytes.len();
    bytes.extend_from_slice(&[0xAB; 44]); // duplicate data before the lands
    bytes.extend_from_slice(&land_bytes());
    bytes.extend_from_slice(&[0xCD; 8]); // duplicate data before the terrains
    bytes.extend_from_slice(&terrain_bytes(20));
    bytes.extend_from_slice(&[0xEF; 8]); // duplicate data before the objects
    bytes.extend_from_slice(&[0x99; 8]); // duplicate data before the elevations

    let mut r = Reader::new(bytes.clone());
    let mut info = RandomMapInfo::from(&mut r).unwrap();
    assert_eq!(r.position(), payload_start);
    info.finish(&mut r).unwrap();
    assert_eq!(r.position(), bytes.len());

    assert_eq!(info.lands.len(), 1);
    assert_eq!(info.lands[0].id, 1);
    assert_eq!(info.lands[0].terrain_type, 9);
    assert_eq!(info.lands[0].zone, -1);
    assert_eq!(info.lands[0].clumpiness_factor, 8);
    assert_eq!(info.terrains.len(), 1);
    assert_eq!(info.terrains[0].percent, 20);
    assert_eq!(info.terrains[0].clumpiness_factor, 25);

    // The combined write interleaves count, zero pointer and payload, with
    // the leading id dropped.
    let mut w = Writer::new();
    info.write_commands_to(&mut w);
    let out = w.into_vec();
    let mut expected = Vec::new();
    for v in [1, 2, 3, 4, 5, 6, 7, 50] {
        push_i32(&mut expected, v);
    }
    push_u32(&mut expected, 0); // discarded id
    push_u32(&mut expected, 1); // land count
    push_u32(&mut expected, 0); // pointer
    expected.extend_from_slice(&land_bytes());
    push_u32(&mut expected, 1); // terrain count
    push_u32(&mut expected, 0); // pointer
    expected.extend_from_slice(&terrain_bytes(20));
    push_u32(&mut expected, 0); // object count
    push_u32(&mut expected, 0); // pointer
    push_u32(&mut expected, 0); // elevation count
    push_u32(&mut expected, 0); // pointer
    assert_eq!(out, expected);
}

#[test]
fn random_map_object_roundtrip() {
    let object = RandomMapObject {
        unit_type: 0x0001_0000,
        terrain_type: -4,
        group_flag: 1,
        scale_flag: -1,
        group_size: 5,
        group_size_variance: 6,
        group_count: 7,
        group_area: 8,
        player_id: 9,
        land_id: 10,
        min_distance_to_players: 11,
        max_distance_to_players: 12,
    };
    let mut w = Writer::new();
    object.write_to(&mut w);
    let bytes = w.into_vec();
    assert_eq!(bytes.len(), 44);
    assert_eq!(&bytes[10..12], &[0, 0]); // the padding hole is written as zero
    let mut r = Reader::new(bytes);
    assert_eq!(RandomMapObject::from(&mut r).unwrap(), object);
}

#[test]
fn random_map_elevation_roundtrip() {
    let elevation = RandomMapElevation {
        percent: 30,
        height: 2,
        clumps: 3,
        spacing: 4,
        base_terrain_type: 5,
        base_elevation_type: 6,
    };
    let mut w = Writer::new();
    elevation.write_to(&mut w);
    let bytes = w.into_vec();
    assert_eq!(bytes.len(), 24);
    let mut r = Reader::new(bytes);
    assert_eq!(RandomMapElevation::from(&mut r).unwrap(), elevation);
}

#[test]
fn random_map_terrain_roundtrip() {
    let bytes = terrain_bytes(-7);
    let mut r = Reader::new(bytes.clone());
    let terrain = RandomMapTerrain::from(&mut r).unwrap();
    assert_eq!(terrain.percent, -7);
    let mut w = Writer::new();
    terrain.write_to(&mut w);
    assert_eq!(w.into_vec(), bytes);
}

#[test]
fn random_map_header_rejects_oversized_count() {
    let bytes = header_bytes(0x00FF_FFFF, 0, 0, 0);
    let mut r = Reader::new(bytes);
    let err = RandomMapInfo::from(&mut r).unwrap_err();
    assert!(matches!(
        err,
        genie_rec::error::DecodeError::InvalidLength { .. }
    ));
}
