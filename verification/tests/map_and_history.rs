//! Tests of the visible map (including the 8-bit widening round trip), the
//! visible resources, the history block and the gaia block.

use genie_rec::context::{GameVariant, HeaderContext};
use genie_rec::error::DecodeError;
use genie_rec::gaia::GaiaData;
use genie_rec::history::HistoryInfo;
use genie_rec::reader::{Reader, Writer};
use genie_rec::visible::{VisibleMap, VisibleResources};

fn ctx(version: u32, variant: GameVariant) -> HeaderContext {
    HeaderContext {
        version,
        variant,
        num_players: 2,
    }
}

fn earlier_map_bytes() -> Vec<u8> {
    let mut b = Vec::new();
    b.extend_from_slice(&3u32.to_le_bytes()); // width
    b.extend_from_slice(&2u32.to_le_bytes()); // height
    b.extend_from_slice(&6u32.to_le_bytes()); // explored tiles
    b.extend_from_slice(&1u16.to_le_bytes()); // player id
    b.extend_from_slice(&[0x00, 0x01, 0x7F, 0x80, 0xFF, 0x05]); // six 8-bit tiles
    b
}

#[test]
fn visible_map_widens_signed_bytes() {
    let mut r = Reader::new(earlier_map_bytes());
    let map = VisibleMap::read_from(&mut r, &ctx(1162, GameVariant::UserPatch)).unwrap();
    assert_eq!(map.width, 3);
    assert_eq!(map.height, 2);
    assert_eq!(map.explored_tiles_count, 6);
    assert_eq!(map.player_id, 1);
    assert_eq!(map.tiles, vec![0, 1, 127, -128, -1, 5]);
}

#[test]
fn visible_map_earlier_edition_roundtrip() {
    // Decoded then re-encoded as the same earlier edition, the tiles
    // round-trip bit-exactly.
    let bytes = earlier_map_bytes();
    let mut r = Reader::new(bytes.clone());
    let c = ctx(1162, GameVariant::UserPatch);
    let map = VisibleMap::read_from(&mut r, &c).unwrap();
    let mut w = Writer::new();
    map.write_to(&mut w, &c);
    assert_eq!(w.into_vec(), bytes);
}

#[test]
fn visible_map_definitive_edition_reads_wide_tiles() {
    let mut b = Vec::new();
    b.extend_from_slice(&2u32.to_le_bytes()); // width
    b.extend_from_slice(&1u32.to_le_bytes()); // height
    b.extend_from_slice(&0u32.to_le_bytes()); // explored tiles
    b.extend_from_slice(&0u16.to_le_bytes()); // player id
    b.extend_from_slice(&0x0102i16.to_le_bytes());
    b.extend_from_slice(&(-2i16).to_le_bytes());
    let mut r = Reader::new(b.clone());
    let c = ctx(1334, GameVariant::DefinitiveEdition);
    let map = VisibleMap::read_from(&mut r, &c).unwrap();
    assert_eq!(map.tiles, vec![0x0102, -2]);
    let mut w = Writer::new();
    map.write_to(&mut w, &c);
    assert_eq!(w.into_vec(), b);
}

#[test]
fn visible_map_before_explored_counting_has_shorter_header() {
    let mut b = Vec::new();
    b.extend_from_slice(&1u32.to_le_bytes());
    b.extend_from_slice(&1u32.to_le_bytes());
    b.extend_from_slice(&9u16.to_le_bytes()); // player id right after the sizes
    b.push(3);
    let mut r = Reader::new(b);
    let map = VisibleMap::read_from(&mut r, &ctx(650, GameVariant::HereticDawn)).unwrap();
    assert_eq!(map.explored_tiles_count, 0);
    assert_eq!(map.player_id, 9);
    assert_eq!(map.tiles, vec![3]);
}

#[test]
fn visible_map_rejects_oversized_area() {
    let mut b = Vec::new();
    b.extend_from_slice(&0xFFFF_FFFFu32.to_le_bytes());
    b.extend_from_slice(&0xFFFF_FFFFu32.to_le_bytes());
    let mut r = Reader::new(b);
    let err = VisibleMap::read_from(&mut r, &ctx(1162, GameVariant::UserPatch)).unwrap_err();
    assert!(matches!(err, DecodeError::InvalidLength { .. }));
}

#[test]
fn visible_resources_lengths_follow_the_sizes() {
    let mut b = Vec::new();
    b.extend_from_slice(&2u32.to_le_bytes()); // two lists
    b.extend_from_slice(&16u32.to_le_bytes()); // capacity, discarded
    b.extend_from_slice(&2u32.to_le_bytes()); // first size
    b.extend_from_slice(&0u32.to_le_bytes()); // capacity, discarded
    b.extend_from_slice(&1u32.to_le_bytes()); // second size
    for k in 0..3u8 {
        b.extend_from_slice(&[k, 0, 0, 0, 1, 2, 3, 4]); // three sightings
    }
    let mut r = Reader::new(b);
    let res = VisibleResources::read_from(&mut r).unwrap();
    assert_eq!(res.lists.len(), 2);
    assert_eq!(res.lists[0].len(), 2);
    assert_eq!(res.lists[1].len(), 1);
    assert_eq!(res.lists[0][0].object_id, 0);
    assert_eq!(res.lists[1][0].object_id, 2);
    // count (4), two capacity/size pairs (16), three sightings (24)
    assert_eq!(r.position(), 44);
}

#[test]
fn visible_resources_short_of_one_sighting_fail() {
    let mut b = Vec::new();
    b.extend_from_slice(&1u32.to_le_bytes()); // one list
    b.extend_from_slice(&0u32.to_le_bytes()); // capacity, discarded
    b.extend_from_slice(&2u32.to_le_bytes()); // size two
    b.extend_from_slice(&[9, 0, 0, 0, 1, 2, 3, 4]); // only one sighting
    let mut r = Reader::new(b);
    let err = VisibleResources::read_from(&mut r).unwrap_err();
    assert!(matches!(err, DecodeError::UnexpectedEnd { .. }));
}

#[test]
fn history_block_decodes_entries_events_and_discriminator() {
    let mut b = Vec::new();
    b.extend_from_slice(&2u32.to_le_bytes()); // entries
    b.extend_from_slice(&0u32.to_le_bytes()); // placeholder
    b.extend_from_slice(&8u32.to_le_bytes()); // capacity, discarded
    b.extend_from_slice(&[10, 0, 20, 0]); // entry one
    b.extend_from_slice(&[30, 0, 40, 0]); // entry two
    b.push(22); // gaia discriminator
    b.extend_from_slice(&1u32.to_le_bytes()); // events
    b.push(0xFF); // event type -1
    b.extend_from_slice(&7u32.to_le_bytes()); // time slice
    b.extend_from_slice(&8u32.to_le_bytes()); // world time
    b.extend_from_slice(&[0; 12]); // parameters
    b.extend_from_slice(&[0; 181]); // statistics bank
    b.push(0xEE); // a byte after the block
    let mut r = Reader::new(b.clone());
    let info = HistoryInfo::read_from(&mut r).unwrap();
    assert_eq!(info.entries.len(), 2);
    assert_eq!(info.entries[1].civilian_population, 30);
    assert_eq!(info.entries[1].military_population, 40);
    assert_eq!(info.discriminator, 22);
    assert_eq!(info.events.len(), 1);
    assert_eq!(info.events[0].event_type, -1);
    assert_eq!(info.events[0].time_slice, 7);
    assert_eq!(r.position(), b.len() - 1);
}

#[test]
fn history_block_truncated_statistics_fail() {
    let mut b = Vec::new();
    b.extend_from_slice(&0u32.to_le_bytes());
    b.extend_from_slice(&0u32.to_le_bytes());
    b.extend_from_slice(&0u32.to_le_bytes());
    b.push(0);
    b.extend_from_slice(&0u32.to_le_bytes());
    b.extend_from_slice(&[0; 100]); // statistics bank cut short
    let mut r = Reader::new(b);
    assert!(matches!(
        HistoryInfo::read_from(&mut r).unwrap_err(),
        DecodeError::UnexpectedEnd { .. }
    ));
}

#[test]
fn gaia_block_optional_ids_use_the_sentinel() {
    let mut b = vec![0u8; 452];
    // wolf_current_villager at offset 200: absent
    b[200] = 0xFF;
    b[201] = 0xFF;
    b[202] = 0xFF;
    b[203] = 0xFF;
    // current_wolf at offset 408: id 9
    b[408] = 9;
    let mut r = Reader::new(b);
    let gaia = GaiaData::read_from(&mut r).unwrap();
    assert_eq!(gaia.wolf_current_villager, None);
    assert_eq!(gaia.current_wolf, Some(9));
    assert_eq!(gaia.creatures.len(), 5);
    assert_eq!(gaia.tc_positions.len(), 9);
    assert_eq!(gaia.wolves.len(), 25);
    assert_eq!(gaia.wolf_counts.len(), 10);
    assert_eq!(r.position(), 452);
}

#[test]
fn gaia_block_town_centres_are_split_by_axis() {
    let mut b = vec![0u8; 452];
    // x coordinates start at offset 84, y coordinates at offset 120
    b[84] = 1; // x of the first town centre
    b[120] = 2; // y of the first town centre
    b[88] = 3; // x of the second
    b[124] = 4; // y of the second
    let mut r = Reader::new(b);
    let gaia = GaiaData::read_from(&mut r).unwrap();
    assert_eq!(gaia.tc_positions[0], (1, 2));
    assert_eq!(gaia.tc_positions[1], (3, 4));
}
