//! End-to-end decodes of whole player blocks at several format versions,
//! with a test peer codec standing in for the unit, technology-tree and
//! computer-player formats.

use genie_rec::context::{GameVariant, HeaderContext};
use genie_rec::error::DecodeError;
use genie_rec::peer::PeerCodec;
use genie_rec::player::{read_saved_views, Player};
use genie_rec::reader::Reader;

/// A peer codec over a toy wire format: every peer value is one
/// little-endian `u32`; a unit list entry is a tag byte, zero closing the
/// list, anything else followed by the unit's `u32`.
struct DummyPeers;

impl PeerCodec<u32, u32, u32, u32> for DummyPeers {
    fn read_unit_type(&mut self, input: &mut Reader, _ctx: &HeaderContext) -> Result<u32, String> {
        input.read_u32().map_err(|e| format!("{:?}", e))
    }

    fn read_tech_tree(&mut self, input: &mut Reader, _ctx: &HeaderContext) -> Result<u32, String> {
        input.read_u32().map_err(|e| format!("{:?}", e))
    }

    fn read_player_ai(&mut self, input: &mut Reader, _ctx: &HeaderContext) -> Result<u32, String> {
        input.read_u32().map_err(|e| format!("{:?}", e))
    }

    fn read_unit(
        &mut self,
        input: &mut Reader,
        _ctx: &HeaderContext,
    ) -> Result<Option<u32>, String> {
        let tag = input.read_u8().map_err(|e| format!("{:?}", e))?;
        if tag == 0 {
            Ok(None)
        } else {
            Ok(Some(input.read_u32().map_err(|e| format!("{:?}", e))?))
        }
    }
}

struct Fixture {
    version: u32,
    variant: GameVariant,
    player_type: u8,
    saved_view_count: i32,
    resync_garbage: Vec<u8>,
    ai_probe: u32,
}

impl Fixture {
    fn new(version: u32, variant: GameVariant) -> Fixture {
        Fixture {
            version,
            variant,
            player_type: 1,
            saved_view_count: 0,
            resync_garbage: Vec::new(),
            ai_probe: 0,
        }
    }

    fn ctx(&self) -> HeaderContext {
        HeaderContext {
            version: self.version,
            variant: self.variant,
            num_players: 2,
        }
    }

    fn build(&self) -> Vec<u8> {
        let v = self.version;
        let m = v >= 1055;
        let de = self.variant == GameVariant::DefinitiveEdition;
        let mut b: Vec<u8> = Vec::new();
        let u32p = |b: &mut Vec<u8>, x: u32| b.extend_from_slice(&x.to_le_bytes());
        let u16p = |b: &mut Vec<u8>, x: u16| b.extend_from_slice(&x.to_le_bytes());

        b.push(self.player_type);
        if m {
            b.push(11);
        }
        b.extend_from_slice(&[1, 2]); // relations, two players
        for i in 0..9u32 {
            u32p(&mut b, i); // diplomacy
        }
        u32p(&mut b, 1); // allied line of sight
        b.push(1); // allied victory
        u16p(&mut b, 3);
        b.extend_from_slice(b"abc"); // name
        if m {
            b.push(22);
        }
        u32p(&mut b, 2); // attribute count
        if m {
            b.push(33);
        }
        u32p(&mut b, 10);
        u32p(&mut b, 20); // attribute values
        if de {
            b.extend_from_slice(&[0; 8]); // definitive-edition attribute copy
        }
        if m {
            b.push(11);
        }
        u32p(&mut b, 30);
        u32p(&mut b, 40); // initial view
        if v >= 1162 {
            b.extend_from_slice(&self.saved_view_count.to_le_bytes());
            let n = if self.saved_view_count > 0 {
                self.saved_view_count
            } else {
                0
            };
            for i in 0..n {
                u32p(&mut b, 100 + i as u32);
                u32p(&mut b, 200 + i as u32);
            }
        }
        u16p(&mut b, 5);
        u16p(&mut b, 6); // spawn location
        b.push(3); // culture
        b.push(15); // civilization
        b.push(2); // game status
        b.push(0); // resigned
        if m {
            b.push(11);
        }
        b.push(77); // colour
        if m {
            b.push(11);
        }
        b.extend_from_slice(&[0; 8]); // pathing caps
        let cat: usize = if v >= 1165 {
            900
        } else if v >= 1151 {
            850
        } else {
            750
        };
        b.extend(std::iter::repeat(0u8).take(cat * 2)); // object categories
        b.extend(std::iter::repeat(0u8).take(200)); // object groups
        b.extend(std::iter::repeat(0u8).take(cat * 2)); // built categories
        b.extend(std::iter::repeat(0u8).take(200)); // built groups
        b.extend_from_slice(&[0; 8]); // totals
        if v >= 1081 {
            b.extend_from_slice(&[0; 28]); // formations
        } else {
            b.extend_from_slice(&[0; 24]);
        }
        b.extend_from_slice(&[0; 48]); // escrow
        if v >= 1051 {
            b.extend_from_slice(&[0; 32]); // view scrolling
        }
        if v >= 1145 {
            b.extend_from_slice(&[0; 9]); // reactions
        }
        if v >= 1172 {
            u32p(&mut b, 0); // no selections
        }
        if de {
            let mut pre = 32435usize;
            if v >= 1300 {
                pre += 8;
            }
            if v >= 1307 {
                pre += 1;
            }
            if v >= 1313 {
                pre += 5;
            }
            if v >= 1334 {
                pre += 4;
            }
            b.extend(std::iter::repeat(0u8).take(pre));
            b.extend_from_slice(&self.resync_garbage);
            b.push(11);
            b.push(11);
        } else if m {
            b.push(11);
            b.push(11);
        }
        b.extend_from_slice(&[0; 9]); // type byte and update counters
        if v >= 1002 {
            b.extend_from_slice(&[0; 30]); // attack data
        }
        b.extend_from_slice(&[0; 8]); // fog update and update time
        if v == 1197 {
            b.extend(std::iter::repeat(0u8).take(8176)); // UserPatch payload
        }
        u16p(&mut b, 1); // one research state
        b.extend_from_slice(&[0; 14]);
        if de {
            b.extend_from_slice(&[0; 15]);
        }
        u32p(&mut b, 0); // update history count
        b.push(11); // unconditional sentinel
        u32p(&mut b, 1); // history entries
        u32p(&mut b, 0); // placeholder
        u32p(&mut b, 1); // capacity
        b.extend_from_slice(&[10, 0, 5, 0]); // one entry
        b.push(0); // discriminator
        u32p(&mut b, 1); // history events
        b.extend_from_slice(&[0; 21]); // one event
        b.extend_from_slice(&[0; 181]); // statistics bank
        if v >= 530 {
            b.extend_from_slice(&[0; 8]); // objectives
        }
        if m {
            b.push(11);
        }
        if v >= 913 {
            for _ in 0..9 {
                b.extend_from_slice(&[0; 3]); // stance bytes
                b.extend_from_slice(&[0; 20]); // an offer with an empty message
            }
            b.extend_from_slice(&[0; 2]); // fealty
        }
        if m {
            b.push(11);
        }
        if v >= 917 {
            b.extend_from_slice(&[0; 20]);
        }
        if v >= 918 {
            b.extend_from_slice(&[0; 20]);
        }
        if m {
            b.push(11);
        }
        if v >= 922 {
            b.extend_from_slice(&[0; 44]); // market trading
        }
        if v >= 967 {
            b.push(1); // production queue
        }
        if v >= 990 {
            b.extend_from_slice(&[0; 2]); // dodging
        }
        if v >= 1142 {
            b.extend_from_slice(&[0; 4]);
        }
        if v >= 1157 {
            b.extend_from_slice(&[0; 4]);
        }
        if v >= 1175 {
            b.extend_from_slice(&[0; 4]);
        }
        if v >= 930 {
            b.extend_from_slice(&[0; 24]);
        }
        if v >= 931 {
            b.extend_from_slice(&[0; 8]);
        }
        if v >= 932 {
            b.extend_from_slice(&[0; 36]);
        }
        if de {
            b.extend_from_slice(&[0; 11]); // definitive-edition padding
        }
        if v >= 938 {
            u32p(&mut b, 1001); // technology tree, toy format
        }
        if de {
            b.extend_from_slice(&[0; 4]);
            if self.player_type != 2 {
                b.extend_from_slice(&[0; 4]);
            }
        }
        if m {
            b.push(11);
        }
        if self.player_type == 3 {
            u32p(&mut b, self.ai_probe);
            if self.ai_probe == 1 {
                u32p(&mut b, 161); // computer-player state, toy format
            }
        }
        if m {
            b.push(11);
        }
        if self.player_type == 2 {
            b.extend(std::iter::repeat(0u8).take(452)); // gaia block
        }
        if m {
            b.push(11);
        }
        u32p(&mut b, 1); // one unit prototype
        u32p(&mut b, 1); // available
        if m {
            b.push(11);
        }
        if m {
            b.push(22);
        }
        u32p(&mut b, 7); // the prototype, toy format
        if m {
            b.push(33);
        }
        if m {
            b.push(11);
        }
        u32p(&mut b, 1); // map width
        u32p(&mut b, 1); // map height
        if v >= 670 {
            u32p(&mut b, 1); // explored tiles
        }
        u16p(&mut b, 0); // map player id
        if de {
            b.extend_from_slice(&[5, 0]); // one 16-bit tile
        } else {
            b.push(5); // one 8-bit tile
        }
        u32p(&mut b, 1); // one visible-resource list
        u32p(&mut b, 0); // capacity
        u32p(&mut b, 1); // size
        b.extend_from_slice(&[42, 0, 0, 0, 9, 0xFE, 3, 4]); // one sighting
        if m {
            b.push(11);
        }
        b.extend_from_slice(&[0; 8]); // list header
        b.push(1);
        u32p(&mut b, 100); // one unit
        b.push(0); // end of list
        if m {
            b.push(11);
        }
        b.extend_from_slice(&[0; 8]); // sleeping list header
        b.push(0);
        if m {
            b.push(11);
        }
        b.extend_from_slice(&[0; 8]); // doppelganger list header
        b.push(0);
        if m {
            b.push(11);
        }
        b
    }

    fn decode(&self) -> Result<Player<u32, u32, u32, u32>, DecodeError> {
        let mut r = Reader::new(self.build());
        Player::read_from(&mut r, &self.ctx(), &mut DummyPeers)
    }
}

#[test]
fn classic_gaia_player_decodes() {
    let mut f = Fixture::new(1055, GameVariant::HereticDawn);
    f.player_type = 2;
    let p = f.decode().unwrap();
    // Length-structure parity.
    assert_eq!(p.relations.len(), 2);
    assert_eq!(p.diplomacy.len(), 9);
    assert_eq!(p.attributes, vec![10, 20]);
    assert_eq!(p.unit_types.len(), p.available_unit_types.len());
    assert_eq!(p.name(), &b"abc".to_vec());
    assert_eq!(p.initial_view, (30, 40));
    assert_eq!(p.spawn_location, (5, 6));
    assert_eq!(p.culture_id, 3);
    assert_eq!(p.civilization_id, 15);
    assert!(!p.resigned);
    // Gaia discriminator.
    assert!(p.gaia.is_some());
    assert!(p.player_ai.is_none());
    assert!(p.saved_views.is_empty());
    assert!(p.userpatch_data.is_none());
    assert_eq!(p.tech_tree, Some(1001));
    assert_eq!(p.tech_state.tech_states.len(), 1);
    assert_eq!(p.history_info.entries.len(), 1);
    assert_eq!(p.history_info.entries[0].civilian_population, 10);
    assert_eq!(p.history_info.events.len(), 1);
    assert_eq!(p.unit_types, vec![Some(7)]);
    assert_eq!(p.visible_map.tiles, vec![5]);
    assert_eq!(p.visible_resources.lists.len(), 1);
    assert_eq!(p.units, vec![100]);
    assert!(p.sleeping_units.is_empty());
    assert!(p.doppelganger_units.is_empty());
    assert!(p.desync_skipped.is_none());
    assert!(p.victory.is_none());
}

#[test]
fn computer_player_probe_populates_ai() {
    let mut f = Fixture::new(1055, GameVariant::HereticDawn);
    f.player_type = 3;
    f.ai_probe = 1;
    let p = f.decode().unwrap();
    assert_eq!(p.player_ai, Some(161));
    assert!(p.gaia.is_none());
}

#[test]
fn computer_player_zero_probe_leaves_ai_absent() {
    let mut f = Fixture::new(1055, GameVariant::HereticDawn);
    f.player_type = 3;
    f.ai_probe = 0;
    let p = f.decode().unwrap();
    assert!(p.player_ai.is_none());
    assert!(p.gaia.is_none());
}

#[test]
fn ordinary_player_reads_no_probe() {
    // player_type 1: the fixture holds neither a probe nor an ai record nor
    // a gaia block, and the decode still lines up.
    let f = Fixture::new(1055, GameVariant::HereticDawn);
    let p = f.decode().unwrap();
    assert!(p.player_ai.is_none());
    assert!(p.gaia.is_none());
}

#[test]
fn negative_saved_view_count_decodes_empty() {
    let mut f = Fixture::new(1162, GameVariant::UserPatch);
    f.saved_view_count = -1;
    let p = f.decode().unwrap();
    assert!(p.saved_views.is_empty());
    // The next field group was read in step: the spawn location follows the
    // clamped count immediately.
    assert_eq!(p.spawn_location, (5, 6));
}

#[test]
fn positive_saved_view_count_reads_views() {
    let mut f = Fixture::new(1162, GameVariant::UserPatch);
    f.saved_view_count = 2;
    let p = f.decode().unwrap();
    assert_eq!(p.saved_views, vec![(100, 200), (101, 201)]);
}

#[test]
fn saved_view_clamp_consumes_only_the_count() {
    // Directly at the view decoder: a negative count consumes exactly its
    // own four bytes.
    let mut r = Reader::new(vec![0xFF, 0xFF, 0xFF, 0xFF, 0xAA, 0xBB]);
    let ctx = HeaderContext {
        version: 1162,
        variant: GameVariant::UserPatch,
        num_players: 2,
    };
    let views = read_saved_views(&mut r, &ctx).unwrap();
    assert!(views.is_empty());
    assert_eq!(r.position(), 4);
}

#[test]
fn userpatch_gate_is_version_equality() {
    let f = Fixture::new(1197, GameVariant::UserPatch);
    let p = f.decode().unwrap();
    assert!(p.userpatch_data.is_some());

    let f = Fixture::new(1196, GameVariant::UserPatch);
    let p = f.decode().unwrap();
    assert!(p.userpatch_data.is_none());

    let f = Fixture::new(1198, GameVariant::UserPatch);
    let p = f.decode().unwrap();
    assert!(p.userpatch_data.is_none());
}

#[test]
fn definitive_edition_resync_reports_skip() {
    let mut f = Fixture::new(1334, GameVariant::DefinitiveEdition);
    f.resync_garbage = vec![1, 2, 3, 4, 5];
    let p = f.decode().unwrap();
    assert_eq!(
        p.desync_skipped,
        Some(genie_rec::error::DesyncRecovered { skipped: 5 })
    );

    let f2 = Fixture::new(1334, GameVariant::DefinitiveEdition);
    let p2 = f2.decode().unwrap();
    assert!(p2.desync_skipped.is_none());
}

#[test]
fn corrupted_sentinel_fails_at_its_offset() {
    let f = Fixture::new(1055, GameVariant::HereticDawn);
    let mut bytes = f.build();
    assert_eq!(bytes[1], 11);
    bytes[1] = 0x55;
    let mut r = Reader::new(bytes);
    let err = Player::<u32, u32, u32, u32>::read_from(&mut r, &f.ctx(), &mut DummyPeers)
        .unwrap_err();
    match err {
        DecodeError::MissingMarker {
            expected,
            found,
            position,
            ..
        } => {
            assert_eq!(expected, 11);
            assert_eq!(found, 0x55);
            assert_eq!(position, 1);
        }
        other => panic!("expected a missing-marker failure, got {:?}", other),
    }
}

#[test]
fn truncated_block_fails_with_unexpected_end() {
    let f = Fixture::new(1055, GameVariant::HereticDawn);
    let mut bytes = f.build();
    bytes.truncate(bytes.len() / 2);
    let mut r = Reader::new(bytes);
    let err = Player::<u32, u32, u32, u32>::read_from(&mut r, &f.ctx(), &mut DummyPeers)
        .unwrap_err();
    assert!(matches!(err, DecodeError::UnexpectedEnd { .. }));
}

#[test]
fn ancient_version_without_sentinels_decodes() {
    // A version below every sentinel threshold and below most gates.
    let f = Fixture::new(500, GameVariant::HereticDawn);
    let p = f.decode().unwrap();
    assert_eq!(p.relations.len(), 2);
    assert!(p.tech_tree.is_none());
    assert!(p.saved_views.is_empty());
}

#[test]
fn negative_victory_count_is_rejected_before_the_parser() {
    // A negative condition count would make the outside parser size a
    // buffer from it; the decoder must reject it as an invalid length at
    // the count's offset and leave everything untouched.
    let f = Fixture::new(1055, GameVariant::HereticDawn);
    let mut p = f.decode().unwrap();
    let mut bytes = Vec::new();
    bytes.extend_from_slice(&2.0f32.to_le_bytes()); // victory version
    bytes.extend_from_slice(&[0xFF, 0xFF, 0xFF, 0xFF]); // condition count -1
    bytes.push(0); // victory flag
    let mut r = Reader::new(bytes);
    let err = p.read_info(&mut r).unwrap_err();
    assert!(matches!(err, DecodeError::InvalidLength { position: 4, length: 0xFFFF_FFFF }));
    assert!(p.victory.is_none());
    assert_eq!(r.position(), 0);
}

#[test]
fn short_victory_record_is_a_delegate_failure() {
    // Too short for the parser to finish: its own rejection is wrapped and
    // the reader does not move.
    let f = Fixture::new(1055, GameVariant::HereticDawn);
    let mut p = f.decode().unwrap();
    let bytes = vec![0u8; 6];
    let mut r = Reader::new(bytes);
    let err = p.read_info(&mut r).unwrap_err();
    assert!(matches!(err, DecodeError::DelegateFailed { .. }));
    assert!(p.victory.is_none());
    assert_eq!(r.position(), 0);
}

#[test]
fn victory_conditions_read_after_block() {
    // The expanded victory record of the outer loader: version float, then
    // the fixed payload the outside parser expects.
    let f = Fixture::new(1055, GameVariant::HereticDawn);
    let mut p = f.decode().unwrap();
    let mut bytes = Vec::new();
    bytes.extend_from_slice(&2.0f32.to_le_bytes()); // victory version
    bytes.extend_from_slice(&[0u8; 28]); // zero condition and point counts
    let mut r = Reader::new(bytes);
    p.read_info(&mut r).unwrap();
    assert!(p.victory.is_some());
    // version (4), counts and flag (9), the version 1.0 and 2.0 scalars (16)
    assert_eq!(r.position(), 25);
}
