//! The state of the neutral "nature" player: creature growth, town-centre
//! positions, and wolf-attack bookkeeping. Present in a player block exactly
//! when the player type marks the gaia player.

use vstd::prelude::*;

use crate::bytes::{le32, u32_at};
use crate::error::DecodeError;
use crate::reader::{Reader, Writer};

verus! {

broadcast use crate::reader::lemma_reader_bounds;

/// Number of bytes in an encoded gaia creature record.
pub const GAIA_CREATURE_BYTES: usize = 12;

/// Number of bytes in an encoded wolf-attack record.
pub const GAIA_WOLF_BYTES: usize = 8;

/// Number of bytes in an encoded gaia block.
pub const GAIA_DATA_BYTES: usize = 452;

/// Growth bookkeeping for one creature kind.
#[derive(Debug, Clone, Copy, PartialEq, Eq, Structural)]
pub struct GaiaCreature {
    /// Growth rate, as the raw bits of the on-disk 32-bit float.
    pub growth_rate: u32,
    /// Growth remainder, as the raw bits of the on-disk 32-bit float.
    pub remainder: u32,
    pub max: u32,
}

impl GaiaCreature {
    /// The creature record stored at offset `p` of `b`.
    pub open spec fn spec_decode(b: Seq<u8>, p: int) -> GaiaCreature {
        GaiaCreature {
            growth_rate: u32_at(b, p),
            remainder: u32_at(b, p + 4),
            max: u32_at(b, p + 8),
        }
    }

    /// The bytes this creature record occupies on disk.
    pub open spec fn spec_encode(self) -> Seq<u8> {
        le32(self.growth_rate) + le32(self.remainder) + le32(self.max)
    }

    /// Decode one creature record from the reader's position.
    pub fn read_from(input: &mut Reader) -> (res: Result<GaiaCreature, DecodeError>)
        ensures
            final(input).bytes() == old(input).bytes(),
            final(input).pos() >= old(input).pos(),
            old(input).can_read(GAIA_CREATURE_BYTES as int) ==> (res matches Ok(v) && v
                == Self::spec_decode(old(input).bytes(), old(input).pos()) && final(input).pos()
                == old(input).pos() + GAIA_CREATURE_BYTES),
            !old(input).can_read(GAIA_CREATURE_BYTES as int) ==> (res matches Err(
                DecodeError::UnexpectedEnd { position },
            ) && position >= old(input).pos()),
    {
        let growth_rate = input.read_f32_bits()?;
        let remainder = input.read_f32_bits()?;
        let max = input.read_u32()?;
        Ok(GaiaCreature { growth_rate, remainder, max })
    }

    /// Encode this creature record onto the writer.
    pub fn write_to(&self, output: &mut Writer)
        ensures
            final(output).bytes() == old(output).bytes() + self.spec_encode(),
    {
        output.write_f32_bits(self.growth_rate);
        output.write_f32_bits(self.remainder);
        output.write_u32(self.max);
        proof {
            assert(output.bytes() =~= old(output).bytes() + self.spec_encode());
        }
    }
}

/// A creature record's encoding decodes to that record, wherever the
/// encoding stands in a block.
pub proof fn lemma_gaia_creature_decode_encode(v: GaiaCreature, b: Seq<u8>, p: int)
    requires
        0 <= p,
        p + GAIA_CREATURE_BYTES <= b.len(),
        b.subrange(p, p + GAIA_CREATURE_BYTES as int) == v.spec_encode(),
    ensures
        GaiaCreature::spec_decode(b, p) == v,
{
    let e = v.spec_encode();
    assert forall|j: int| 0 <= j < GAIA_CREATURE_BYTES implies b[p + j] == e[j] by {
        assert(e[j] == b.subrange(p, p + GAIA_CREATURE_BYTES as int)[j]);
    }
    crate::bytes::lemma_field_le32(v.growth_rate, e, 0, b, p);
    crate::bytes::lemma_field_le32(v.remainder, e, 4, b, p);
    crate::bytes::lemma_field_le32(v.max, e, 8, b, p);
}

/// Decoding a creature record and re-encoding it reproduces the bytes read.
pub proof fn lemma_gaia_creature_encode_decode(b: Seq<u8>, p: int)
    requires
        0 <= p,
        p + GAIA_CREATURE_BYTES <= b.len(),
    ensures
        GaiaCreature::spec_decode(b, p).spec_encode() == b.subrange(
            p,
            p + GAIA_CREATURE_BYTES as int,
        ),
{
    crate::bytes::lemma_reencode_u32(b, p);
    crate::bytes::lemma_reencode_u32(b, p + 4);
    crate::bytes::lemma_reencode_u32(b, p + 8);
    assert(GaiaCreature::spec_decode(b, p).spec_encode() =~= b.subrange(
        p,
        p + GAIA_CREATURE_BYTES as int,
    ));
}

/// One wolf-attack record.
#[derive(Debug, Clone, Copy, PartialEq, Eq, Structural)]
pub struct GaiaWolfInfo {
    pub id: u32,
    /// Distance, as the raw bits of the on-disk 32-bit float.
    pub distance: u32,
}

impl GaiaWolfInfo {
    /// The wolf record stored at offset `p` of `b`.
    pub open spec fn spec_decode(b: Seq<u8>, p: int) -> GaiaWolfInfo {
        GaiaWolfInfo { id: u32_at(b, p), distance: u32_at(b, p + 4) }
    }

    /// The bytes this wolf record occupies on disk.
    pub open spec fn spec_encode(self) -> Seq<u8> {
        le32(self.id) + le32(self.distance)
    }

    /// Decode one wolf record from the reader's position.
    pub fn read_from(input: &mut Reader) -> (res: Result<GaiaWolfInfo, DecodeError>)
        ensures
            final(input).bytes() == old(input).bytes(),
            final(input).pos() >= old(input).pos(),
            old(input).can_read(GAIA_WOLF_BYTES as int) ==> (res matches Ok(v) && v
                == Self::spec_decode(old(input).bytes(), old(input).pos()) && final(input).pos()
                == old(input).pos() + GAIA_WOLF_BYTES),
            !old(input).can_read(GAIA_WOLF_BYTES as int) ==> (res matches Err(
                DecodeError::UnexpectedEnd { position },
            ) && position >= old(input).pos()),
    {
        let id = input.read_u32()?;
        let distance = input.read_f32_bits()?;
        Ok(GaiaWolfInfo { id, distance })
    }

    /// Encode this wolf record onto the writer.
    pub fn write_to(&self, output: &mut Writer)
        ensures
            final(output).bytes() == old(output).bytes() + self.spec_encode(),
    {
        output.write_u32(self.id);
        output.write_f32_bits(self.distance);
        proof {
            assert(output.bytes() =~= old(output).bytes() + self.spec_encode());
        }
    }
}

/// A wolf record's encoding decodes to that record, wherever the encoding
/// stands in a block.
pub proof fn lemma_gaia_wolf_decode_encode(v: GaiaWolfInfo, b: Seq<u8>, p: int)
    requires
        0 <= p,
        p + GAIA_WOLF_BYTES <= b.len(),
        b.subrange(p, p + GAIA_WOLF_BYTES as int) == v.spec_encode(),
    ensures
        GaiaWolfInfo::spec_decode(b, p) == v,
{
    let e = v.spec_encode();
    assert forall|j: int| 0 <= j < GAIA_WOLF_BYTES implies b[p + j] == e[j] by {
        assert(e[j] == b.subrange(p, p + GAIA_WOLF_BYTES as int)[j]);
    }
    crate::bytes::lemma_field_le32(v.id, e, 0, b, p);
    crate::bytes::lemma_field_le32(v.distance, e, 4, b, p);
}

/// Decoding a wolf record and re-encoding it reproduces the bytes read.
pub proof fn lemma_gaia_wolf_encode_decode(b: Seq<u8>, p: int)
    requires
        0 <= p,
        p + GAIA_WOLF_BYTES <= b.len(),
    ensures
        GaiaWolfInfo::spec_decode(b, p).spec_encode() == b.subrange(p, p + GAIA_WOLF_BYTES as int),
{
    crate::bytes::lemma_reencode_u32(b, p);
    crate::bytes::lemma_reencode_u32(b, p + 4);
    assert(GaiaWolfInfo::spec_decode(b, p).spec_encode() =~= b.subrange(
        p,
        p + GAIA_WOLF_BYTES as int,
    ));
}

/// The gaia-player state block.
///
/// Optional object ids are carried as `Option<u32>`: the on-disk all-ones
/// sentinel decodes to absent, never as a sentinel value in memory.
#[derive(Debug, PartialEq, Eq)]
pub struct GaiaData {
    pub update_time: u32,
    pub update_nature: u32,
    pub creatures: Vec<GaiaCreature>,
    pub next_wolf_attack_update_time: u32,
    pub wolf_attack_update_interval: u32,
    pub wolf_attack_stop_time: u32,
    /// Minimum villager distance, as the raw bits of the on-disk float.
    pub min_villager_distance: u32,
    /// Town-centre positions; the x coordinates are stored together on disk,
    /// then the y coordinates. Raw float bits.
    pub tc_positions: Vec<(u32, u32)>,
    pub wolf_current_player: u32,
    pub wolf_current_villagers: Vec<u32>,
    pub wolf_current_villager: Option<u32>,
    pub wolf_villager_count: u32,
    pub wolves: Vec<GaiaWolfInfo>,
    pub current_wolf: Option<u32>,
    pub wolf_counts: Vec<u32>,
}

/// Whether `v` is the gaia block stored at offset `p` of `b`.
pub open spec fn spec_gaia_matches(v: GaiaData, b: Seq<u8>, p: int) -> bool {
    &&& v.update_time == u32_at(b, p)
    &&& v.update_nature == u32_at(b, p + 4)
    &&& v.creatures@.len() == 5
    &&& forall|i: int|
        0 <= i < 5 ==> #[trigger] v.creatures@[i] == GaiaCreature::spec_decode(b, p + 8 + 12 * i)
    &&& v.next_wolf_attack_update_time == u32_at(b, p + 68)
    &&& v.wolf_attack_update_interval == u32_at(b, p + 72)
    &&& v.wolf_attack_stop_time == u32_at(b, p + 76)
    &&& v.min_villager_distance == u32_at(b, p + 80)
    &&& v.tc_positions@.len() == 9
    &&& forall|i: int|
        0 <= i < 9 ==> #[trigger] v.tc_positions@[i] == (
            u32_at(b, p + 84 + 4 * i),
            u32_at(b, p + 120 + 4 * i),
        )
    &&& v.wolf_current_player == u32_at(b, p + 156)
    &&& v.wolf_current_villagers@.len() == 10
    &&& forall|i: int|
        0 <= i < 10 ==> #[trigger] v.wolf_current_villagers@[i] == u32_at(b, p + 160 + 4 * i)
    &&& (v.wolf_current_villager is None <==> (u32_at(b, p + 200) == 0xFFFF_FFFF || u32_at(
        b,
        p + 200,
    ) == 0xFFFF_FFFE))
    &&& (v.wolf_current_villager matches Some(id) ==> id == u32_at(b, p + 200))
    &&& v.wolf_villager_count == u32_at(b, p + 204)
    &&& v.wolves@.len() == 25
    &&& forall|i: int|
        0 <= i < 25 ==> #[trigger] v.wolves@[i] == GaiaWolfInfo::spec_decode(b, p + 208 + 8 * i)
    &&& (v.current_wolf is None <==> (u32_at(b, p + 408) == 0xFFFF_FFFF || u32_at(b, p + 408)
        == 0xFFFF_FFFE))
    &&& (v.current_wolf matches Some(id) ==> id == u32_at(b, p + 408))
    &&& v.wolf_counts@.len() == 10
    &&& forall|i: int|
        0 <= i < 10 ==> #[trigger] v.wolf_counts@[i] == u32_at(b, p + 412 + 4 * i)
}

impl GaiaData {
    /// Decode the gaia block from the reader's position.
    #[verifier::loop_isolation(false)]
    pub fn read_from(input: &mut Reader) -> (res: Result<GaiaData, DecodeError>)
        ensures
            final(input).bytes() == old(input).bytes(),
            final(input).pos() >= old(input).pos(),
            old(input).can_read(GAIA_DATA_BYTES as int) ==> (res matches Ok(v)
                && spec_gaia_matches(v, old(input).bytes(), old(input).pos()) && final(input).pos()
                == old(input).pos() + GAIA_DATA_BYTES),
            !old(input).can_read(GAIA_DATA_BYTES as int) ==> (res matches Err(
                DecodeError::UnexpectedEnd { position },
            ) && position >= old(input).pos()),
    {
        let ghost q = input.pos();
        let update_time = input.read_u32()?;
        let update_nature = input.read_u32()?;
        let mut creatures: Vec<GaiaCreature> = Vec::new();
        while creatures.len() < 5
            invariant
                creatures@.len() <= 5,
                input.bytes() == old(input).bytes(),
                input.pos() == q + 8 + 12 * creatures@.len(),
                input.pos() <= input.bytes().len(),
                forall|i: int|
                    0 <= i < creatures@.len() ==> #[trigger] creatures@[i]
                        == GaiaCreature::spec_decode(old(input).bytes(), q + 8 + 12 * i),
            decreases 5 - creatures@.len(),
        {
            let creature = GaiaCreature::read_from(input)?;
            creatures.push(creature);
        }
        let next_wolf_attack_update_time = input.read_u32()?;
        let wolf_attack_update_interval = input.read_u32()?;
        let wolf_attack_stop_time = input.read_u32()?;
        let min_villager_distance = input.read_f32_bits()?;
        let tc_x = input.read_u32s(9)?;
        let tc_y = input.read_u32s(9)?;
        let mut tc_positions: Vec<(u32, u32)> = Vec::new();
        let mut i: usize = 0;
        while i < 9
            invariant
                i <= 9,
                tc_x@.len() == 9,
                tc_y@.len() == 9,
                tc_positions@.len() == i,
                forall|k: int|
                    0 <= k < i ==> #[trigger] tc_positions@[k] == (tc_x@[k], tc_y@[k]),
            decreases 9 - i,
        {
            tc_positions.push((tc_x[i], tc_y[i]));
            i = i + 1;
        }
        let wolf_current_player = input.read_u32()?;
        let wolf_current_villagers = input.read_u32s(10)?;
        let wolf_current_villager = input.read_opt_u32()?;
        let wolf_villager_count = input.read_u32()?;
        let ghost wolves_base = input.pos();
        let mut wolves: Vec<GaiaWolfInfo> = Vec::new();
        while wolves.len() < 25
            invariant
                wolves@.len() <= 25,
                input.bytes() == old(input).bytes(),
                input.pos() == wolves_base + 8 * wolves@.len(),
                input.pos() <= input.bytes().len(),
                forall|i: int|
                    0 <= i < wolves@.len() ==> #[trigger] wolves@[i] == GaiaWolfInfo::spec_decode(
                        old(input).bytes(),
                        wolves_base + 8 * i,
                    ),
            decreases 25 - wolves@.len(),
        {
            let wolf = GaiaWolfInfo::read_from(input)?;
            wolves.push(wolf);
        }
        let current_wolf = input.read_opt_u32()?;
        let wolf_counts = input.read_u32s(10)?;
        Ok(
            GaiaData {
                update_time,
                update_nature,
                creatures,
                next_wolf_attack_update_time,
                wolf_attack_update_interval,
                wolf_attack_stop_time,
                min_villager_distance,
                tc_positions,
                wolf_current_player,
                wolf_current_villagers,
                wolf_current_villager,
                wolf_villager_count,
                wolves,
                current_wolf,
                wolf_counts,
            },
        )
    }
}

} // verus!
