//! Round-trip and scenario tests for the fixed-layout leaf records.

use genie_rec::color_table::ColorTable;
use genie_rec::context::{GameVariant, HeaderContext};
use genie_rec::diplomacy::DiplomacyOffer;
use genie_rec::gaia::{GaiaCreature, GaiaWolfInfo};
use genie_rec::history::{HistoryEntry, HistoryEvent};
use genie_rec::reader::{Reader, Writer};
use genie_rec::tech::TechState;
use genie_rec::visible::VisibleResource;

fn ctx(version: u32, variant: GameVariant) -> HeaderContext {
    HeaderContext {
        version,
        variant,
        num_players: 2,
    }
}

#[test]
fn minimal_colour_table() {
    // One little-endian signed 32-bit integer per field, nine fields.
    let bytes: Vec<u8> = vec![
        0x01, 0x00, 0x00, 0x00, 0x05, 0x00, 0x00, 0x00, 0x00, 0x00, 0x00, 0x00, 0x00, 0x00, 0x00,
        0x00, 0x01, 0x00, 0x00, 0x00, 0x00, 0x00, 0x00, 0x00, 0x00, 0x00, 0x00, 0x00, 0x00, 0x00,
        0x00, 0x00, 0xFF, 0x00, 0x00, 0x00,
    ];
    let mut r = Reader::new(bytes.clone());
    let table = ColorTable::from(&mut r).unwrap();
    assert_eq!(table.id, 1);
    assert_eq!(table.base, 5);
    assert_eq!(table.unit_outline_color, 0);
    assert_eq!(table.unit_selection_colors, (0, 1));
    assert_eq!(table.minimap_colors, (0, 0, 0));
    assert_eq!(table.statistics_text_color, 255);
    assert_eq!(r.position(), 36);

    let mut w = Writer::new();
    table.write_to(&mut w);
    assert_eq!(w.into_vec(), bytes);
}

#[test]
fn colour_table_roundtrip_negative_fields() {
    let table = ColorTable {
        id: -1,
        base: i32::MIN,
        unit_outline_color: i32::MAX,
        unit_selection_colors: (-2, 3),
        minimap_colors: (7, -8, 9),
        statistics_text_color: 0,
    };
    let mut w = Writer::new();
    table.write_to(&mut w);
    let bytes = w.into_vec();
    assert_eq!(bytes.len(), 36);
    let mut r = Reader::new(bytes);
    assert_eq!(ColorTable::from(&mut r).unwrap(), table);
}

#[test]
fn colour_table_short_input_is_unexpected_end() {
    let mut r = Reader::new(vec![0u8; 35]);
    let err = ColorTable::from(&mut r).unwrap_err();
    assert!(matches!(
        err,
        genie_rec::error::DecodeError::UnexpectedEnd { .. }
    ));
}

#[test]
fn history_entry_roundtrip() {
    let bytes = vec![0x34, 0x12, 0x78, 0x56];
    let mut r = Reader::new(bytes.clone());
    let entry = HistoryEntry::read_from(&mut r).unwrap();
    assert_eq!(entry.civilian_population, 0x1234);
    assert_eq!(entry.military_population, 0x5678);
    let mut w = Writer::new();
    entry.write_to(&mut w);
    assert_eq!(w.into_vec(), bytes);
}

#[test]
fn history_event_roundtrip() {
    let event = HistoryEvent {
        event_type: -3,
        time_slice: 0xDEAD_BEEF,
        world_time: 42,
        params: (1.5f32.to_bits(), 0, f32::NEG_INFINITY.to_bits()),
    };
    let mut w = Writer::new();
    event.write_to(&mut w);
    let bytes = w.into_vec();
    assert_eq!(bytes.len(), 21);
    let mut r = Reader::new(bytes.clone());
    let back = HistoryEvent::read_from(&mut r).unwrap();
    assert_eq!(back, event);
    let mut w2 = Writer::new();
    back.write_to(&mut w2);
    assert_eq!(w2.into_vec(), bytes);
}

#[test]
fn tech_state_roundtrip_classic() {
    let state = TechState {
        progress_bits: 0.25f32.to_bits(),
        state: -1,
        modifiers: (2, -3, 4),
        time_modifier: -5,
        extra: Vec::new(),
    };
    let mut w = Writer::new();
    state.write_to(&mut w);
    let bytes = w.into_vec();
    assert_eq!(bytes.len(), 14);
    let mut r = Reader::new(bytes.clone());
    let back = TechState::read_from(&mut r, &ctx(1162, GameVariant::HereticDawn)).unwrap();
    assert_eq!(back, state);
    let mut w2 = Writer::new();
    back.write_to(&mut w2);
    assert_eq!(w2.into_vec(), bytes);
}

#[test]
fn tech_state_definitive_edition_keeps_extension_bytes() {
    let mut bytes = vec![0u8; 14];
    bytes[0] = 0x3F; // some progress bits
    let extension: Vec<u8> = (1..=15).collect();
    bytes.extend_from_slice(&extension);
    let mut r = Reader::new(bytes.clone());
    let state = TechState::read_from(&mut r, &ctx(1334, GameVariant::DefinitiveEdition)).unwrap();
    assert_eq!(state.extra, extension);
    assert_eq!(r.position(), 29);
    let mut w = Writer::new();
    state.write_to(&mut w);
    assert_eq!(w.into_vec(), bytes);
}

#[test]
fn diplomacy_offer_roundtrip_with_message() {
    let bytes: Vec<u8> = {
        let mut b = Vec::new();
        b.push(7); // sequence
        b.push(1); // started_by
        b.extend_from_slice(&1000u32.to_le_bytes()); // game_time
        b.extend_from_slice(&[1, 2, 3, 4, 5, 6, 7, 8]); // stance bytes through demand
        b.extend_from_slice(&250u32.to_le_bytes()); // gold
        b.push(3); // message length
        b.extend_from_slice(b"hi!");
        b.push(9); // status
        b
    };
    let mut r = Reader::new(bytes.clone());
    let offer = DiplomacyOffer::read_from(&mut r).unwrap();
    assert_eq!(offer.sequence, 7);
    assert_eq!(offer.actual_time, 0); // not on the wire
    assert_eq!(offer.game_time, 1000);
    assert_eq!(offer.gold, 250);
    assert_eq!(offer.message, b"hi!".to_vec());
    assert_eq!(offer.status, 9);
    assert_eq!(r.position(), bytes.len());
    let mut w = Writer::new();
    offer.write_to(&mut w);
    assert_eq!(w.into_vec(), bytes);
}

#[test]
fn gaia_creature_roundtrip() {
    let creature = GaiaCreature {
        growth_rate: 0.1f32.to_bits(),
        remainder: 12.0f32.to_bits(),
        max: 40,
    };
    let mut w = Writer::new();
    creature.write_to(&mut w);
    let bytes = w.into_vec();
    assert_eq!(bytes.len(), 12);
    let mut r = Reader::new(bytes);
    assert_eq!(GaiaCreature::read_from(&mut r).unwrap(), creature);
}

#[test]
fn gaia_wolf_roundtrip() {
    let wolf = GaiaWolfInfo {
        id: 77,
        distance: 3.5f32.to_bits(),
    };
    let mut w = Writer::new();
    wolf.write_to(&mut w);
    let bytes = w.into_vec();
    assert_eq!(bytes.len(), 8);
    let mut r = Reader::new(bytes);
    assert_eq!(GaiaWolfInfo::read_from(&mut r).unwrap(), wolf);
}

#[test]
fn visible_resource_roundtrip() {
    let bytes = vec![0x2A, 0x00, 0x00, 0x00, 9, 0xFE, 3, 4];
    let mut r = Reader::new(bytes.clone());
    let vis = VisibleResource::read_from(&mut r).unwrap();
    assert_eq!(vis.object_id, 42);
    assert_eq!(vis.distance, 9);
    assert_eq!(vis.zone, -2);
    assert_eq!(vis.location, (3, 4));
    let mut w = Writer::new();
    vis.write_to(&mut w);
    assert_eq!(w.into_vec(), bytes);
}
