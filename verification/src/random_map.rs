//! The embedded random-map-info structure: a header of scalar fields and
//! child counts, and four variable-length child arrays (lands, terrains,
//! objects, elevations) with inter-array padding.
//!
//! The header and the child payloads are decoded in two phases because some
//! containers do not store them adjacently. On-disk pointer fields have no
//! semantic value: they are read and discarded, and written back as zero.

use vstd::prelude::*;

use crate::bytes::{bits_of_i8, i32_at, i8_at, le16, le32, le32i, lemma_field_i8, lemma_field_le32,
    lemma_field_le32i, lemma_reencode_i32, lemma_reencode_u32, u32_at};
use crate::error::{DecodeError, MAX_FIELD_BYTES};
use crate::reader::{Reader, Writer};

verus! {

/// Number of bytes in an encoded random-map land.
pub const MAP_LAND_BYTES: usize = 44;

/// Number of bytes in an encoded random-map terrain.
pub const MAP_TERRAIN_BYTES: usize = 24;

/// Number of bytes in an encoded random-map object.
pub const MAP_OBJECT_BYTES: usize = 44;

/// Number of bytes in an encoded random-map elevation.
pub const MAP_ELEVATION_BYTES: usize = 24;

/// Number of bytes in an encoded random-map-info header.
pub const MAP_HEADER_BYTES: usize = 72;

/// A land placement of a random map.
#[derive(Debug, PartialEq, Eq)]
pub struct RandomMapLand {
    pub id: i32,
    pub terrain_type: u8,
    pub land_avoidance_tiles: i32,
    pub base_square_radius: i32,
    pub zone: i8,
    pub placement_type: i8,
    pub x: i32,
    pub y: i32,
    pub amount_of_land_used_percent: i8,
    pub by_player_flag: i8,
    pub radius: i32,
    pub fade: i32,
    pub clumpiness_factor: i32,
}

impl RandomMapLand {
    /// The all-zero land record that phase one preallocates.
    pub open spec fn spec_default() -> RandomMapLand {
        RandomMapLand {
            id: 0,
            terrain_type: 0,
            land_avoidance_tiles: 0,
            base_square_radius: 0,
            zone: 0,
            placement_type: 0,
            x: 0,
            y: 0,
            amount_of_land_used_percent: 0,
            by_player_flag: 0,
            radius: 0,
            fade: 0,
            clumpiness_factor: 0,
        }
    }

    /// The land record stored at offset `p` of `b`. Three 3- or 2-byte zero
    /// padding holes sit between the fields; they are part of the format.
    pub open spec fn spec_decode(b: Seq<u8>, p: int) -> RandomMapLand {
        RandomMapLand {
            id: i32_at(b, p),
            terrain_type: b[p + 4],
            land_avoidance_tiles: i32_at(b, p + 8),
            base_square_radius: i32_at(b, p + 12),
            zone: i8_at(b, p + 16),
            placement_type: i8_at(b, p + 17),
            x: i32_at(b, p + 20),
            y: i32_at(b, p + 24),
            amount_of_land_used_percent: i8_at(b, p + 28),
            by_player_flag: i8_at(b, p + 29),
            radius: i32_at(b, p + 32),
            fade: i32_at(b, p + 36),
            clumpiness_factor: i32_at(b, p + 40),
        }
    }

    /// The bytes this land record occupies on disk, padding holes as zero.
    pub open spec fn spec_encode(self) -> Seq<u8> {
        le32i(self.id) + seq![self.terrain_type] + le16(0) + seq![0u8] + le32i(
            self.land_avoidance_tiles,
        ) + le32i(self.base_square_radius) + seq![bits_of_i8(self.zone)] + seq![
            bits_of_i8(self.placement_type),
        ] + le16(0) + le32i(self.x) + le32i(self.y) + seq![
            bits_of_i8(self.amount_of_land_used_percent),
        ] + seq![bits_of_i8(self.by_player_flag)] + le16(0) + le32i(self.radius) + le32i(self.fade)
            + le32i(self.clumpiness_factor)
    }

    /// Decode a land record from the reader's position.
    pub fn from(input: &mut Reader) -> (res: Result<RandomMapLand, DecodeError>)
        ensures
            final(input).bytes() == old(input).bytes(),
            final(input).pos() >= old(input).pos(),
            old(input).can_read(MAP_LAND_BYTES as int) ==> (res matches Ok(v) && v
                == Self::spec_decode(old(input).bytes(), old(input).pos()) && final(input).pos()
                == old(input).pos() + MAP_LAND_BYTES),
            !old(input).can_read(MAP_LAND_BYTES as int) ==> (res matches Err(
                DecodeError::UnexpectedEnd { position },
            ) && position >= old(input).pos()),
    {
        let id = input.read_i32()?;
        let terrain_type = input.read_u8()?;
        input.skip(3)?;  // 16-bit zero + 8-bit zero padding hole
        let land_avoidance_tiles = input.read_i32()?;
        let base_square_radius = input.read_i32()?;
        let zone = input.read_i8()?;
        let placement_type = input.read_i8()?;
        input.skip(2)?;  // 16-bit zero padding hole
        let x = input.read_i32()?;
        let y = input.read_i32()?;
        let amount_of_land_used_percent = input.read_i8()?;
        let by_player_flag = input.read_i8()?;
        input.skip(2)?;  // 16-bit zero padding hole
        let radius = input.read_i32()?;
        let fade = input.read_i32()?;
        let clumpiness_factor = input.read_i32()?;
        Ok(
            RandomMapLand {
                id,
                terrain_type,
                land_avoidance_tiles,
                base_square_radius,
                zone,
                placement_type,
                x,
                y,
                amount_of_land_used_percent,
                by_player_flag,
                radius,
                fade,
                clumpiness_factor,
            },
        )
    }

    /// Encode this land record onto the writer.
    pub fn write_to(&self, output: &mut Writer)
        ensures
            final(output).bytes() == old(output).bytes() + self.spec_encode(),
    {
        output.write_i32(self.id);
        output.write_u8(self.terrain_type);
        output.write_u16(0);
        output.write_u8(0);
        output.write_i32(self.land_avoidance_tiles);
        output.write_i32(self.base_square_radius);
        output.write_i8(self.zone);
        output.write_i8(self.placement_type);
        output.write_u16(0);
        output.write_i32(self.x);
        output.write_i32(self.y);
        output.write_i8(self.amount_of_land_used_percent);
        output.write_i8(self.by_player_flag);
        output.write_u16(0);
        output.write_i32(self.radius);
        output.write_i32(self.fade);
        output.write_i32(self.clumpiness_factor);
        proof {
            assert(output.bytes() =~= old(output).bytes() + self.spec_encode());
        }
    }
}

impl Default for RandomMapLand {
    /// The all-zero land record.
    fn default() -> (d: Self)
        ensures
            d == Self::spec_default(),
    {
        RandomMapLand {
            id: 0,
            terrain_type: 0,
            land_avoidance_tiles: 0,
            base_square_radius: 0,
            zone: 0,
            placement_type: 0,
            x: 0,
            y: 0,
            amount_of_land_used_percent: 0,
            by_player_flag: 0,
            radius: 0,
            fade: 0,
            clumpiness_factor: 0,
        }
    }
}

/// A terrain distribution of a random map.
#[derive(Debug, PartialEq, Eq)]
pub struct RandomMapTerrain {
    pub percent: i32,
    pub terrain_type: i32,
    pub clumps: i32,
    pub spacing: i32,
    pub base_terrain_type: i32,
    pub clumpiness_factor: i32,
}

impl RandomMapTerrain {
    /// The all-zero terrain record that phase one preallocates.
    pub open spec fn spec_default() -> RandomMapTerrain {
        RandomMapTerrain {
            percent: 0,
            terrain_type: 0,
            clumps: 0,
            spacing: 0,
            base_terrain_type: 0,
            clumpiness_factor: 0,
        }
    }

    /// The terrain record stored at offset `p` of `b`.
    pub open spec fn spec_decode(b: Seq<u8>, p: int) -> RandomMapTerrain {
        RandomMapTerrain {
            percent: i32_at(b, p),
            terrain_type: i32_at(b, p + 4),
            clumps: i32_at(b, p + 8),
            spacing: i32_at(b, p + 12),
            base_terrain_type: i32_at(b, p + 16),
            clumpiness_factor: i32_at(b, p + 20),
        }
    }

    /// The bytes this terrain record occupies on disk.
    pub open spec fn spec_encode(self) -> Seq<u8> {
        le32i(self.percent) + le32i(self.terrain_type) + le32i(self.clumps) + le32i(self.spacing)
            + le32i(self.base_terrain_type) + le32i(self.clumpiness_factor)
    }

    /// Decode a terrain record from the reader's position.
    pub fn from(input: &mut Reader) -> (res: Result<RandomMapTerrain, DecodeError>)
        ensures
            final(input).bytes() == old(input).bytes(),
            final(input).pos() >= old(input).pos(),
            old(input).can_read(MAP_TERRAIN_BYTES as int) ==> (res matches Ok(v) && v
                == Self::spec_decode(old(input).bytes(), old(input).pos()) && final(input).pos()
                == old(input).pos() + MAP_TERRAIN_BYTES),
            !old(input).can_read(MAP_TERRAIN_BYTES as int) ==> (res matches Err(
                DecodeError::UnexpectedEnd { position },
            ) && position >= old(input).pos()),
    {
        let percent = input.read_i32()?;
        let terrain_type = input.read_i32()?;
        let clumps = input.read_i32()?;
        let spacing = input.read_i32()?;
        let base_terrain_type = input.read_i32()?;
        let clumpiness_factor = input.read_i32()?;
        Ok(
            RandomMapTerrain {
                percent,
                terrain_type,
                clumps,
                spacing,
                base_terrain_type,
                clumpiness_factor,
            },
        )
    }

    /// Encode this terrain record onto the writer.
    pub fn write_to(&self, output: &mut Writer)
        ensures
            final(output).bytes() == old(output).bytes() + self.spec_encode(),
    {
        output.write_i32(self.percent);
        output.write_i32(self.terrain_type);
        output.write_i32(self.clumps);
        output.write_i32(self.spacing);
        output.write_i32(self.base_terrain_type);
        output.write_i32(self.clumpiness_factor);
        proof {
            assert(output.bytes() =~= old(output).bytes() + self.spec_encode());
        }
    }
}

impl Default for RandomMapTerrain {
    /// The all-zero terrain record.
    fn default() -> (d: Self)
        ensures
            d == Self::spec_default(),
    {
        RandomMapTerrain {
            percent: 0,
            terrain_type: 0,
            clumps: 0,
            spacing: 0,
            base_terrain_type: 0,
            clumpiness_factor: 0,
        }
    }
}

/// An object placement of a random map.
#[derive(Debug, PartialEq, Eq)]
pub struct RandomMapObject {
    /// The unit type placed, as its 32-bit on-disk id.
    pub unit_type: u32,
    pub terrain_type: i32,
    pub group_flag: i8,
    pub scale_flag: i8,
    pub group_size: i32,
    pub group_size_variance: i32,
    pub group_count: i32,
    pub group_area: i32,
    pub player_id: i32,
    pub land_id: i32,
    pub min_distance_to_players: i32,
    pub max_distance_to_players: i32,
}

impl RandomMapObject {
    /// The all-zero object record that phase one preallocates.
    pub open spec fn spec_default() -> RandomMapObject {
        RandomMapObject {
            unit_type: 0,
            terrain_type: 0,
            group_flag: 0,
            scale_flag: 0,
            group_size: 0,
            group_size_variance: 0,
            group_count: 0,
            group_area: 0,
            player_id: 0,
            land_id: 0,
            min_distance_to_players: 0,
            max_distance_to_players: 0,
        }
    }

    /// The object record stored at offset `p` of `b`. A 16-bit zero padding
    /// hole follows the two flags.
    pub open spec fn spec_decode(b: Seq<u8>, p: int) -> RandomMapObject {
        RandomMapObject {
            unit_type: u32_at(b, p),
            terrain_type: i32_at(b, p + 4),
            group_flag: i8_at(b, p + 8),
            scale_flag: i8_at(b, p + 9),
            group_size: i32_at(b, p + 12),
            group_size_variance: i32_at(b, p + 16),
            group_count: i32_at(b, p + 20),
            group_area: i32_at(b, p + 24),
            player_id: i32_at(b, p + 28),
            land_id: i32_at(b, p + 32),
            min_distance_to_players: i32_at(b, p + 36),
            max_distance_to_players: i32_at(b, p + 40),
        }
    }

    /// The bytes this object record occupies on disk, the padding hole as
    /// zero.
    pub open spec fn spec_encode(self) -> Seq<u8> {
        le32(self.unit_type) + le32i(self.terrain_type) + seq![bits_of_i8(self.group_flag)] + seq![
            bits_of_i8(self.scale_flag),
        ] + le16(0) + le32i(self.group_size) + le32i(self.group_size_variance) + le32i(
            self.group_count,
        ) + le32i(self.group_area) + le32i(self.player_id) + le32i(self.land_id) + le32i(
            self.min_distance_to_players,
        ) + le32i(self.max_distance_to_players)
    }

    /// Decode an object record from the reader's position.
    pub fn from(input: &mut Reader) -> (res: Result<RandomMapObject, DecodeError>)
        ensures
            final(input).bytes() == old(input).bytes(),
            final(input).pos() >= old(input).pos(),
            old(input).can_read(MAP_OBJECT_BYTES as int) ==> (res matches Ok(v) && v
                == Self::spec_decode(old(input).bytes(), old(input).pos()) && final(input).pos()
                == old(input).pos() + MAP_OBJECT_BYTES),
            !old(input).can_read(MAP_OBJECT_BYTES as int) ==> (res matches Err(
                DecodeError::UnexpectedEnd { position },
            ) && position >= old(input).pos()),
    {
        let unit_type = input.read_u32()?;
        let terrain_type = input.read_i32()?;
        let group_flag = input.read_i8()?;
        let scale_flag = input.read_i8()?;
        input.skip(2)?;  // 16-bit zero padding hole
        let group_size = input.read_i32()?;
        let group_size_variance = input.read_i32()?;
        let group_count = input.read_i32()?;
        let group_area = input.read_i32()?;
        let player_id = input.read_i32()?;
        let land_id = input.read_i32()?;
        let min_distance_to_players = input.read_i32()?;
        let max_distance_to_players = input.read_i32()?;
        Ok(
            RandomMapObject {
                unit_type,
                terrain_type,
                group_flag,
                scale_flag,
                group_size,
                group_size_variance,
                group_count,
                group_area,
                player_id,
                land_id,
                min_distance_to_players,
                max_distance_to_players,
            },
        )
    }

    /// Encode this object record onto the writer.
    pub fn write_to(&self, output: &mut Writer)
        ensures
            final(output).bytes() == old(output).bytes() + self.spec_encode(),
    {
        output.write_u32(self.unit_type);
        output.write_i32(self.terrain_type);
        output.write_i8(self.group_flag);
        output.write_i8(self.scale_flag);
        output.write_u16(0);
        output.write_i32(self.group_size);
        output.write_i32(self.group_size_variance);
        output.write_i32(self.group_count);
        output.write_i32(self.group_area);
        output.write_i32(self.player_id);
        output.write_i32(self.land_id);
        output.write_i32(self.min_distance_to_players);
        output.write_i32(self.max_distance_to_players);
        proof {
            assert(output.bytes() =~= old(output).bytes() + self.spec_encode());
        }
    }
}

impl Default for RandomMapObject {
    /// The all-zero object record.
    fn default() -> (d: Self)
        ensures
            d == Self::spec_default(),
    {
        RandomMapObject {
            unit_type: 0,
            terrain_type: 0,
            group_flag: 0,
            scale_flag: 0,
            group_size: 0,
            group_size_variance: 0,
            group_count: 0,
            group_area: 0,
            player_id: 0,
            land_id: 0,
            min_distance_to_players: 0,
            max_distance_to_players: 0,
        }
    }
}

/// An elevation distribution of a random map.
#[derive(Debug, PartialEq, Eq)]
pub struct RandomMapElevation {
    pub percent: i32,
    pub height: i32,
    pub clumps: i32,
    pub spacing: i32,
    pub base_terrain_type: i32,
    pub base_elevation_type: i32,
}

impl RandomMapElevation {
    /// The all-zero elevation record that phase one preallocates.
    pub open spec fn spec_default() -> RandomMapElevation {
        RandomMapElevation {
            percent: 0,
            height: 0,
            clumps: 0,
            spacing: 0,
            base_terrain_type: 0,
            base_elevation_type: 0,
        }
    }

    /// The elevation record stored at offset `p` of `b`.
    pub open spec fn spec_decode(b: Seq<u8>, p: int) -> RandomMapElevation {
        RandomMapElevation {
            percent: i32_at(b, p),
            height: i32_at(b, p + 4),
            clumps: i32_at(b, p + 8),
            spacing: i32_at(b, p + 12),
            base_terrain_type: i32_at(b, p + 16),
            base_elevation_type: i32_at(b, p + 20),
        }
    }

    /// The bytes this elevation record occupies on disk.
    pub open spec fn spec_encode(self) -> Seq<u8> {
        le32i(self.percent) + le32i(self.height) + le32i(self.clumps) + le32i(self.spacing)
            + le32i(self.base_terrain_type) + le32i(self.base_elevation_type)
    }

    /// Decode an elevation record from the reader's position.
    pub fn from(input: &mut Reader) -> (res: Result<RandomMapElevation, DecodeError>)
        ensures
            final(input).bytes() == old(input).bytes(),
            final(input).pos() >= old(input).pos(),
            old(input).can_read(MAP_ELEVATION_BYTES as int) ==> (res matches Ok(v) && v
                == Self::spec_decode(old(input).bytes(), old(input).pos()) && final(input).pos()
                == old(input).pos() + MAP_ELEVATION_BYTES),
            !old(input).can_read(MAP_ELEVATION_BYTES as int) ==> (res matches Err(
                DecodeError::UnexpectedEnd { position },
            ) && position >= old(input).pos()),
    {
        let percent = input.read_i32()?;
        let height = input.read_i32()?;
        let clumps = input.read_i32()?;
        let spacing = input.read_i32()?;
        let base_terrain_type = input.read_i32()?;
        let base_elevation_type = input.read_i32()?;
        Ok(
            RandomMapElevation {
                percent,
                height,
                clumps,
                spacing,
                base_terrain_type,
                base_elevation_type,
            },
        )
    }

    /// Encode this elevation record onto the writer.
    pub fn write_to(&self, output: &mut Writer)
        ensures
            final(output).bytes() == old(output).bytes() + self.spec_encode(),
    {
        output.write_i32(self.percent);
        output.write_i32(self.height);
        output.write_i32(self.clumps);
        output.write_i32(self.spacing);
        output.write_i32(self.base_terrain_type);
        output.write_i32(self.base_elevation_type);
        proof {
            assert(output.bytes() =~= old(output).bytes() + self.spec_encode());
        }
    }
}

impl Default for RandomMapElevation {
    /// The all-zero elevation record.
    fn default() -> (d: Self)
        ensures
            d == Self::spec_default(),
    {
        RandomMapElevation {
            percent: 0,
            height: 0,
            clumps: 0,
            spacing: 0,
            base_terrain_type: 0,
            base_elevation_type: 0,
        }
    }
}

/// The random-map-info structure: header scalars, child counts, and the four
/// child arrays whose contents arrive in a separate payload region.
#[derive(Debug, PartialEq)]
pub struct RandomMapInfo {
    pub id: i32,
    pub borders: (i32, i32, i32, i32),
    pub border_fade: i32,
    pub water_border: i32,
    pub base_terrain: i32,
    pub land_percent: i32,
    pub lands: Vec<RandomMapLand>,
    pub terrains: Vec<RandomMapTerrain>,
    pub objects: Vec<RandomMapObject>,
    pub elevations: Vec<RandomMapElevation>,
}

impl RandomMapInfo {
    /// Whether the four child counts stored in the header at `p` are inside
    /// the per-field allocation cap.
    pub open spec fn spec_header_counts_ok(b: Seq<u8>, p: int) -> bool {
        &&& u32_at(b, p + 40) <= MAX_FIELD_BYTES / (MAP_LAND_BYTES as u32)
        &&& u32_at(b, p + 48) <= MAX_FIELD_BYTES / (MAP_TERRAIN_BYTES as u32)
        &&& u32_at(b, p + 56) <= MAX_FIELD_BYTES / (MAP_OBJECT_BYTES as u32)
        &&& u32_at(b, p + 64) <= MAX_FIELD_BYTES / (MAP_ELEVATION_BYTES as u32)
    }

    /// How many bytes the child payload region occupies for the counts this
    /// value carries.
    pub open spec fn spec_payload_len(self) -> int {
        44 + 44 * (self.lands@.len() as int) + 8 + 24 * (self.terrains@.len() as int) + 8 + 44 * (
        self.objects@.len() as int) + 8 + 24 * (self.elevations@.len() as int)
    }

    /// The nine scalar fields of the header segment.
    pub open spec fn spec_header_scalars(self) -> Seq<u8> {
        le32i(self.id) + le32i(self.borders.0) + le32i(self.borders.1) + le32i(self.borders.2)
            + le32i(self.borders.3) + le32i(self.border_fade) + le32i(self.water_border) + le32i(
            self.base_terrain,
        ) + le32i(self.land_percent)
    }

    /// The count half of the header segment: a zero in place of the
    /// discarded id, and the four `(count, pointer)` pairs with the pointers
    /// as zero.
    pub open spec fn spec_header_counts(self) -> Seq<u8> {
        le32(0) + le32(self.lands@.len() as u32) + le32(0) + le32(self.terrains@.len() as u32)
            + le32(0) + le32(self.objects@.len() as u32) + le32(0) + le32(
            self.elevations@.len() as u32,
        ) + le32(0)
    }

    /// The bytes of the header segment.
    pub open spec fn spec_encode_header(self) -> Seq<u8> {
        self.spec_header_scalars() + self.spec_header_counts()
    }

    /// The bytes of the combined "commands" segment: the scalars without the
    /// id, then count, zero pointer and payload for each of the four
    /// sections.
    pub open spec fn spec_encode_commands(self) -> Seq<u8> {
        le32i(self.borders.0) + le32i(self.borders.1) + le32i(self.borders.2) + le32i(
            self.borders.3,
        ) + le32i(self.border_fade) + le32i(self.water_border) + le32i(self.base_terrain) + le32i(
            self.land_percent,
        ) + le32(0) + le32(self.lands@.len() as u32) + le32(0) + spec_encode_lands(self.lands@)
            + le32(self.terrains@.len() as u32) + le32(0) + spec_encode_terrains(self.terrains@)
            + le32(self.objects@.len() as u32) + le32(0) + spec_encode_objects(self.objects@)
            + le32(self.elevations@.len() as u32) + le32(0) + spec_encode_elevations(
            self.elevations@,
        )
    }

    /// Phase one: decode the header, preallocating each child array to its
    /// declared length with default-valued elements. The discarded id and the
    /// on-disk pointers are consumed and ignored.
    pub fn from(input: &mut Reader) -> (res: Result<RandomMapInfo, DecodeError>)
        ensures
            final(input).bytes() == old(input).bytes(),
            final(input).pos() >= old(input).pos(),
            old(input).can_read(MAP_HEADER_BYTES as int) && Self::spec_header_counts_ok(
                old(input).bytes(),
                old(input).pos(),
            ) ==> (res matches Ok(v) && {
                let b = old(input).bytes();
                let q = old(input).pos();
                &&& v.id == i32_at(b, q)
                &&& v.borders == (i32_at(b, q + 4), i32_at(b, q + 8), i32_at(b, q + 12), i32_at(
                    b,
                    q + 16,
                ))
                &&& v.border_fade == i32_at(b, q + 20)
                &&& v.water_border == i32_at(b, q + 24)
                &&& v.base_terrain == i32_at(b, q + 28)
                &&& v.land_percent == i32_at(b, q + 32)
                &&& v.lands@.len() == u32_at(b, q + 40)
                &&& forall|i: int|
                    0 <= i < v.lands@.len() ==> v.lands@[i] == RandomMapLand::spec_default()
                &&& v.terrains@.len() == u32_at(b, q + 48)
                &&& forall|i: int|
                    0 <= i < v.terrains@.len() ==> v.terrains@[i]
                        == RandomMapTerrain::spec_default()
                &&& v.objects@.len() == u32_at(b, q + 56)
                &&& forall|i: int|
                    0 <= i < v.objects@.len() ==> v.objects@[i] == RandomMapObject::spec_default()
                &&& v.elevations@.len() == u32_at(b, q + 64)
                &&& forall|i: int|
                    0 <= i < v.elevations@.len() ==> v.elevations@[i]
                        == RandomMapElevation::spec_default()
                &&& final(input).pos() == q + MAP_HEADER_BYTES
            }),
            old(input).can_read(MAP_HEADER_BYTES as int) && !Self::spec_header_counts_ok(
                old(input).bytes(),
                old(input).pos(),
            ) ==> (res matches Err(DecodeError::InvalidLength { position, length }) && position
                >= old(input).pos()),
            !old(input).can_read(MAP_HEADER_BYTES as int) ==> (res matches Err(
                DecodeError::UnexpectedEnd { position },
            ) && position >= old(input).pos()),
    {
        let id = input.read_i32()?;
        let borders = (input.read_i32()?, input.read_i32()?, input.read_i32()?, input.read_i32()?);
        let border_fade = input.read_i32()?;
        let water_border = input.read_i32()?;
        let base_terrain = input.read_i32()?;
        let land_percent = input.read_i32()?;

        let _discarded_id: i32 = input.read_i32()?;
        let lands_at = input.position();
        let num_lands = input.read_u32()?;
        let _pointer: u32 = input.read_u32()?;
        let terrains_at = input.position();
        let num_terrains = input.read_u32()?;
        let _pointer: u32 = input.read_u32()?;
        let objects_at = input.position();
        let num_objects = input.read_u32()?;
        let _pointer: u32 = input.read_u32()?;
        let elevations_at = input.position();
        let num_elevations = input.read_u32()?;
        let _pointer: u32 = input.read_u32()?;

        if num_lands > MAX_FIELD_BYTES / (MAP_LAND_BYTES as u32) {
            return Err(
                DecodeError::InvalidLength { position: lands_at, length: num_lands as u64 },
            );
        }
        if num_terrains > MAX_FIELD_BYTES / (MAP_TERRAIN_BYTES as u32) {
            return Err(
                DecodeError::InvalidLength { position: terrains_at, length: num_terrains as u64 },
            );
        }
        if num_objects > MAX_FIELD_BYTES / (MAP_OBJECT_BYTES as u32) {
            return Err(
                DecodeError::InvalidLength { position: objects_at, length: num_objects as u64 },
            );
        }
        if num_elevations > MAX_FIELD_BYTES / (MAP_ELEVATION_BYTES as u32) {
            return Err(
                DecodeError::InvalidLength {
                    position: elevations_at,
                    length: num_elevations as u64,
                },
            );
        }

        let n_lands = num_lands as usize;
        let mut lands: Vec<RandomMapLand> = Vec::new();
        while lands.len() < n_lands
            invariant
                lands@.len() <= n_lands,
                forall|i: int| 0 <= i < lands@.len() ==> lands@[i] == RandomMapLand::spec_default(),
            decreases n_lands - lands@.len(),
        {
            lands.push(RandomMapLand::default());
        }
        let n_terrains = num_terrains as usize;
        let mut terrains: Vec<RandomMapTerrain> = Vec::new();
        while terrains.len() < n_terrains
            invariant
                terrains@.len() <= n_terrains,
                forall|i: int|
                    0 <= i < terrains@.len() ==> terrains@[i] == RandomMapTerrain::spec_default(),
            decreases n_terrains - terrains@.len(),
        {
            terrains.push(RandomMapTerrain::default());
        }
        let n_objects = num_objects as usize;
        let mut objects: Vec<RandomMapObject> = Vec::new();
        while objects.len() < n_objects
            invariant
                objects@.len() <= n_objects,
                forall|i: int|
                    0 <= i < objects@.len() ==> objects@[i] == RandomMapObject::spec_default(),
            decreases n_objects - objects@.len(),
        {
            objects.push(RandomMapObject::default());
        }
        let n_elevations = num_elevations as usize;
        let mut elevations: Vec<RandomMapElevation> = Vec::new();
        while elevations.len() < n_elevations
            invariant
                elevations@.len() <= n_elevations,
                forall|i: int|
                    0 <= i < elevations@.len() ==> elevations@[i]
                        == RandomMapElevation::spec_default(),
            decreases n_elevations - elevations@.len(),
        {
            elevations.push(RandomMapElevation::default());
        }

        Ok(
            RandomMapInfo {
                id,
                borders,
                border_fade,
                water_border,
                base_terrain,
                land_percent,
                lands,
                terrains,
                objects,
                elevations,
            },
        )
    }

    /// Phase two: decode the child payload region. Each section is preceded
    /// by duplicate bytes (44 before the lands, 8 before the others) that are
    /// consumed and discarded; then each preallocated element is replaced by
    /// its decoded value.
    #[verifier::loop_isolation(false)]
    pub fn finish(&mut self, input: &mut Reader) -> (res: Result<(), DecodeError>)
        ensures
            final(input).bytes() == old(input).bytes(),
            final(input).pos() >= old(input).pos(),
            final(self).id == old(self).id,
            final(self).borders == old(self).borders,
            final(self).border_fade == old(self).border_fade,
            final(self).water_border == old(self).water_border,
            final(self).base_terrain == old(self).base_terrain,
            final(self).land_percent == old(self).land_percent,
            final(self).lands@.len() == old(self).lands@.len(),
            final(self).terrains@.len() == old(self).terrains@.len(),
            final(self).objects@.len() == old(self).objects@.len(),
            final(self).elevations@.len() == old(self).elevations@.len(),
            old(input).can_read(old(self).spec_payload_len()) ==> (res is Ok && {
                let b = old(input).bytes();
                let q = old(input).pos();
                let lands_base = q + 44;
                let terrains_base = lands_base + 44 * old(self).lands@.len() + 8;
                let objects_base = terrains_base + 24 * old(self).terrains@.len() + 8;
                let elevations_base = objects_base + 44 * old(self).objects@.len() + 8;
                &&& forall|i: int|
                    0 <= i < old(self).lands@.len() ==> final(self).lands@[i]
                        == RandomMapLand::spec_decode(b, lands_base + 44 * i)
                &&& forall|i: int|
                    0 <= i < old(self).terrains@.len() ==> final(self).terrains@[i]
                        == RandomMapTerrain::spec_decode(b, terrains_base + 24 * i)
                &&& forall|i: int|
                    0 <= i < old(self).objects@.len() ==> final(self).objects@[i]
                        == RandomMapObject::spec_decode(b, objects_base + 44 * i)
                &&& forall|i: int|
                    0 <= i < old(self).elevations@.len() ==> final(self).elevations@[i]
                        == RandomMapElevation::spec_decode(b, elevations_base + 24 * i)
                &&& final(input).pos() == q + old(self).spec_payload_len()
            }),
            !old(input).can_read(old(self).spec_payload_len()) ==> (res matches Err(
                DecodeError::UnexpectedEnd { position },
            ) && position >= old(input).pos()),
    {
        let ghost q = input.pos();

        input.skip(44)?;  // duplicate data before the land section
        let n_lands = self.lands.len();
        let mut lands: Vec<RandomMapLand> = Vec::new();
        while lands.len() < n_lands
            invariant
                lands@.len() <= n_lands,
                input.bytes() == old(input).bytes(),
                input.pos() == q + 44 + 44 * lands@.len(),
                input.pos() <= input.bytes().len(),
                forall|i: int|
                    0 <= i < lands@.len() ==> lands@[i] == RandomMapLand::spec_decode(
                        old(input).bytes(),
                        q + 44 + 44 * i,
                    ),
            decreases n_lands - lands@.len(),
        {
            let land = RandomMapLand::from(input)?;
            lands.push(land);
        }
        self.lands = lands;

        input.skip(8)?;  // duplicate data before the terrain section
        let ghost terrains_base = input.pos();
        let n_terrains = self.terrains.len();
        let mut terrains: Vec<RandomMapTerrain> = Vec::new();
        while terrains.len() < n_terrains
            invariant
                terrains@.len() <= n_terrains,
                input.bytes() == old(input).bytes(),
                input.pos() == terrains_base + 24 * terrains@.len(),
                input.pos() <= input.bytes().len(),
                forall|i: int|
                    0 <= i < terrains@.len() ==> terrains@[i] == RandomMapTerrain::spec_decode(
                        old(input).bytes(),
                        terrains_base + 24 * i,
                    ),
            decreases n_terrains - terrains@.len(),
        {
            let terrain = RandomMapTerrain::from(input)?;
            terrains.push(terrain);
        }
        self.terrains = terrains;

        input.skip(8)?;  // duplicate data before the object section
        let ghost objects_base = input.pos();
        let n_objects = self.objects.len();
        let mut objects: Vec<RandomMapObject> = Vec::new();
        while objects.len() < n_objects
            invariant
                objects@.len() <= n_objects,
                input.bytes() == old(input).bytes(),
                input.pos() == objects_base + 44 * objects@.len(),
                input.pos() <= input.bytes().len(),
                forall|i: int|
                    0 <= i < objects@.len() ==> objects@[i] == RandomMapObject::spec_decode(
                        old(input).bytes(),
                        objects_base + 44 * i,
                    ),
            decreases n_objects - objects@.len(),
        {
            let object = RandomMapObject::from(input)?;
            objects.push(object);
        }
        self.objects = objects;

        input.skip(8)?;  // duplicate data before the elevation section
        let ghost elevations_base = input.pos();
        let n_elevations = self.elevations.len();
        let mut elevations: Vec<RandomMapElevation> = Vec::new();
        while elevations.len() < n_elevations
            invariant
                elevations@.len() <= n_elevations,
                input.bytes() == old(input).bytes(),
                input.pos() == elevations_base + 24 * elevations@.len(),
                input.pos() <= input.bytes().len(),
                forall|i: int|
                    0 <= i < elevations@.len() ==> elevations@[i]
                        == RandomMapElevation::spec_decode(
                        old(input).bytes(),
                        elevations_base + 24 * i,
                    ),
            decreases n_elevations - elevations@.len(),
        {
            let elevation = RandomMapElevation::from(input)?;
            elevations.push(elevation);
        }
        self.elevations = elevations;

        Ok(())
    }

    /// Encode the header segment alone, for containers where the child
    /// payloads live elsewhere. Pointer fields and the discarded id are
    /// written as zero.
    pub fn write_to(&self, output: &mut Writer)
        requires
            self.lands@.len() <= u32::MAX,
            self.terrains@.len() <= u32::MAX,
            self.objects@.len() <= u32::MAX,
            self.elevations@.len() <= u32::MAX,
        ensures
            final(output).bytes() == old(output).bytes() + self.spec_encode_header(),
    {
        output.write_i32(self.id);
        output.write_i32(self.borders.0);
        output.write_i32(self.borders.1);
        output.write_i32(self.borders.2);
        output.write_i32(self.borders.3);
        output.write_i32(self.border_fade);
        output.write_i32(self.water_border);
        output.write_i32(self.base_terrain);
        output.write_i32(self.land_percent);

        output.write_u32(0);  // discarded id
        output.write_u32(self.lands.len() as u32);
        output.write_u32(0);  // pointer
        output.write_u32(self.terrains.len() as u32);
        output.write_u32(0);  // pointer
        output.write_u32(self.objects.len() as u32);
        output.write_u32(0);  // pointer
        output.write_u32(self.elevations.len() as u32);
        output.write_u32(0);  // pointer
        proof {
            assert(output.bytes() =~= old(output).bytes() + self.spec_encode_header());
        }
    }

    /// Encode the combined segment: count, zero pointer and payload for each
    /// of the four sections, after the scalars.
    #[verifier::rlimit(100)]
    pub fn write_commands_to(&self, output: &mut Writer)
        requires
            self.lands@.len() <= u32::MAX,
            self.terrains@.len() <= u32::MAX,
            self.objects@.len() <= u32::MAX,
            self.elevations@.len() <= u32::MAX,
        ensures
            final(output).bytes() == old(output).bytes() + self.spec_encode_commands(),
    {
        output.write_i32(self.borders.0);
        output.write_i32(self.borders.1);
        output.write_i32(self.borders.2);
        output.write_i32(self.borders.3);
        output.write_i32(self.border_fade);
        output.write_i32(self.water_border);
        output.write_i32(self.base_terrain);
        output.write_i32(self.land_percent);
        output.write_u32(0);  // discarded id

        output.write_u32(self.lands.len() as u32);
        output.write_u32(0);  // pointer
        write_lands(&self.lands, output);
        output.write_u32(self.terrains.len() as u32);
        output.write_u32(0);  // pointer
        write_terrains(&self.terrains, output);
        output.write_u32(self.objects.len() as u32);
        output.write_u32(0);  // pointer
        write_objects(&self.objects, output);
        output.write_u32(self.elevations.len() as u32);
        output.write_u32(0);  // pointer
        write_elevations(&self.elevations, output);
        proof {
            assert(output.bytes() =~= old(output).bytes() + self.spec_encode_commands());
        }
    }
}

/// Encode each land record in order.
fn write_lands(s: &Vec<RandomMapLand>, output: &mut Writer)
    ensures
        final(output).bytes() == old(output).bytes() + spec_encode_lands(s@),
{
    let mut i: usize = 0;
    while i < s.len()
        invariant
            i <= s@.len(),
            output.bytes() == old(output).bytes() + spec_encode_lands(s@.take(i as int)),
        decreases s@.len() - i,
    {
        s[i].write_to(output);
        i = i + 1;
        proof {
            assert(s@.take(i as int).drop_last() =~= s@.take(i - 1));
            assert(output.bytes() =~= old(output).bytes() + spec_encode_lands(s@.take(i as int)));
        }
    }
    proof {
        assert(s@.take(s@.len() as int) =~= s@);
    }
}

/// Encode each terrain record in order.
fn write_terrains(s: &Vec<RandomMapTerrain>, output: &mut Writer)
    ensures
        final(output).bytes() == old(output).bytes() + spec_encode_terrains(s@),
{
    let mut i: usize = 0;
    while i < s.len()
        invariant
            i <= s@.len(),
            output.bytes() == old(output).bytes() + spec_encode_terrains(s@.take(i as int)),
        decreases s@.len() - i,
    {
        s[i].write_to(output);
        i = i + 1;
        proof {
            assert(s@.take(i as int).drop_last() =~= s@.take(i - 1));
            assert(output.bytes() =~= old(output).bytes() + spec_encode_terrains(
                s@.take(i as int),
            ));
        }
    }
    proof {
        assert(s@.take(s@.len() as int) =~= s@);
    }
}

/// Encode each object record in order.
fn write_objects(s: &Vec<RandomMapObject>, output: &mut Writer)
    ensures
        final(output).bytes() == old(output).bytes() + spec_encode_objects(s@),
{
    let mut i: usize = 0;
    while i < s.len()
        invariant
            i <= s@.len(),
            output.bytes() == old(output).bytes() + spec_encode_objects(s@.take(i as int)),
        decreases s@.len() - i,
    {
        s[i].write_to(output);
        i = i + 1;
        proof {
            assert(s@.take(i as int).drop_last() =~= s@.take(i - 1));
            assert(output.bytes() =~= old(output).bytes() + spec_encode_objects(
                s@.take(i as int),
            ));
        }
    }
    proof {
        assert(s@.take(s@.len() as int) =~= s@);
    }
}

/// Encode each elevation record in order.
fn write_elevations(s: &Vec<RandomMapElevation>, output: &mut Writer)
    ensures
        final(output).bytes() == old(output).bytes() + spec_encode_elevations(s@),
{
    let mut i: usize = 0;
    while i < s.len()
        invariant
            i <= s@.len(),
            output.bytes() == old(output).bytes() + spec_encode_elevations(s@.take(i as int)),
        decreases s@.len() - i,
    {
        s[i].write_to(output);
        i = i + 1;
        proof {
            assert(s@.take(i as int).drop_last() =~= s@.take(i - 1));
            assert(output.bytes() =~= old(output).bytes() + spec_encode_elevations(
                s@.take(i as int),
            ));
        }
    }
    proof {
        assert(s@.take(s@.len() as int) =~= s@);
    }
}

/// The concatenated encodings of a sequence of land records.
pub open spec fn spec_encode_lands(s: Seq<RandomMapLand>) -> Seq<u8>
    decreases s.len(),
{
    if s.len() == 0 {
        Seq::empty()
    } else {
        spec_encode_lands(s.drop_last()) + s.last().spec_encode()
    }
}

/// The concatenated encodings of a sequence of terrain records.
pub open spec fn spec_encode_terrains(s: Seq<RandomMapTerrain>) -> Seq<u8>
    decreases s.len(),
{
    if s.len() == 0 {
        Seq::empty()
    } else {
        spec_encode_terrains(s.drop_last()) + s.last().spec_encode()
    }
}

/// The concatenated encodings of a sequence of object records.
pub open spec fn spec_encode_objects(s: Seq<RandomMapObject>) -> Seq<u8>
    decreases s.len(),
{
    if s.len() == 0 {
        Seq::empty()
    } else {
        spec_encode_objects(s.drop_last()) + s.last().spec_encode()
    }
}

/// The concatenated encodings of a sequence of elevation records.
pub open spec fn spec_encode_elevations(s: Seq<RandomMapElevation>) -> Seq<u8>
    decreases s.len(),
{
    if s.len() == 0 {
        Seq::empty()
    } else {
        spec_encode_elevations(s.drop_last()) + s.last().spec_encode()
    }
}

/// A decoded random-map header re-encodes to exactly the bytes it was read
/// from, provided the discarded id and the on-disk pointers held zero, as
/// the encoder writes them.
#[verifier::rlimit(50)]
pub proof fn lemma_map_header_encode_decode(v: &RandomMapInfo, b: Seq<u8>, p: int)
    requires
        0 <= p,
        p + MAP_HEADER_BYTES <= b.len(),
        v.id == i32_at(b, p),
        v.borders == (i32_at(b, p + 4), i32_at(b, p + 8), i32_at(b, p + 12), i32_at(b, p + 16)),
        v.border_fade == i32_at(b, p + 20),
        v.water_border == i32_at(b, p + 24),
        v.base_terrain == i32_at(b, p + 28),
        v.land_percent == i32_at(b, p + 32),
        v.lands@.len() == u32_at(b, p + 40),
        v.terrains@.len() == u32_at(b, p + 48),
        v.objects@.len() == u32_at(b, p + 56),
        v.elevations@.len() == u32_at(b, p + 64),
        u32_at(b, p + 36) == 0,
        u32_at(b, p + 44) == 0,
        u32_at(b, p + 52) == 0,
        u32_at(b, p + 60) == 0,
        u32_at(b, p + 68) == 0,
    ensures
        v.spec_encode_header() == b.subrange(p, p + MAP_HEADER_BYTES as int),
{
    lemma_map_header_scalar_bytes(v, b, p);
    lemma_map_header_count_bytes(v, b, p);
    assert(b.subrange(p, p + MAP_HEADER_BYTES as int) =~= b.subrange(p, p + 36) + b.subrange(
        p + 36,
        p + MAP_HEADER_BYTES as int,
    ));
}

/// The scalar half of a wire-matching header re-encodes to its bytes.
#[verifier::rlimit(50)]
proof fn lemma_map_header_scalar_bytes(v: &RandomMapInfo, b: Seq<u8>, p: int)
    requires
        0 <= p,
        p + 36 <= b.len(),
        v.id == i32_at(b, p),
        v.borders == (i32_at(b, p + 4), i32_at(b, p + 8), i32_at(b, p + 12), i32_at(b, p + 16)),
        v.border_fade == i32_at(b, p + 20),
        v.water_border == i32_at(b, p + 24),
        v.base_terrain == i32_at(b, p + 28),
        v.land_percent == i32_at(b, p + 32),
    ensures
        v.spec_header_scalars() == b.subrange(p, p + 36),
{
    lemma_reencode_i32(b, p);
    lemma_reencode_i32(b, p + 4);
    lemma_reencode_i32(b, p + 8);
    lemma_reencode_i32(b, p + 12);
    lemma_reencode_i32(b, p + 16);
    lemma_reencode_i32(b, p + 20);
    lemma_reencode_i32(b, p + 24);
    lemma_reencode_i32(b, p + 28);
    lemma_reencode_i32(b, p + 32);
    assert(v.spec_header_scalars() =~= b.subrange(p, p + 36));
}

/// The count half of a wire-matching header re-encodes to its bytes.
#[verifier::rlimit(50)]
proof fn lemma_map_header_count_bytes(v: &RandomMapInfo, b: Seq<u8>, p: int)
    requires
        0 <= p,
        p + MAP_HEADER_BYTES <= b.len(),
        v.lands@.len() == u32_at(b, p + 40),
        v.terrains@.len() == u32_at(b, p + 48),
        v.objects@.len() == u32_at(b, p + 56),
        v.elevations@.len() == u32_at(b, p + 64),
        u32_at(b, p + 36) == 0,
        u32_at(b, p + 44) == 0,
        u32_at(b, p + 52) == 0,
        u32_at(b, p + 60) == 0,
        u32_at(b, p + 68) == 0,
    ensures
        v.spec_header_counts() == b.subrange(p + 36, p + MAP_HEADER_BYTES as int),
{
    lemma_reencode_u32(b, p + 36);
    lemma_reencode_u32(b, p + 40);
    lemma_reencode_u32(b, p + 44);
    lemma_reencode_u32(b, p + 48);
    lemma_reencode_u32(b, p + 52);
    lemma_reencode_u32(b, p + 56);
    lemma_reencode_u32(b, p + 60);
    lemma_reencode_u32(b, p + 64);
    lemma_reencode_u32(b, p + 68);
    assert(v.lands@.len() as u32 == u32_at(b, p + 40));
    assert(v.terrains@.len() as u32 == u32_at(b, p + 48));
    assert(v.objects@.len() as u32 == u32_at(b, p + 56));
    assert(v.elevations@.len() as u32 == u32_at(b, p + 64));
    assert(v.spec_header_counts() =~= b.subrange(p + 36, p + MAP_HEADER_BYTES as int));
}

/// A terrain record's encoding decodes to that record, wherever the encoding
/// stands in a block.
pub proof fn lemma_map_terrain_decode_encode(v: RandomMapTerrain, b: Seq<u8>, p: int)
    requires
        0 <= p,
        p + MAP_TERRAIN_BYTES <= b.len(),
        b.subrange(p, p + MAP_TERRAIN_BYTES as int) == v.spec_encode(),
    ensures
        RandomMapTerrain::spec_decode(b, p) == v,
{
    let e = v.spec_encode();
    assert forall|j: int| 0 <= j < MAP_TERRAIN_BYTES implies b[p + j] == e[j] by {
        assert(e[j] == b.subrange(p, p + MAP_TERRAIN_BYTES as int)[j]);
    }
    lemma_field_le32i(v.percent, e, 0, b, p);
    lemma_field_le32i(v.terrain_type, e, 4, b, p);
    lemma_field_le32i(v.clumps, e, 8, b, p);
    lemma_field_le32i(v.spacing, e, 12, b, p);
    lemma_field_le32i(v.base_terrain_type, e, 16, b, p);
    lemma_field_le32i(v.clumpiness_factor, e, 20, b, p);
}

/// Decoding a terrain record and re-encoding it reproduces the bytes read.
#[verifier::rlimit(50)]
pub proof fn lemma_map_terrain_encode_decode(b: Seq<u8>, p: int)
    requires
        0 <= p,
        p + MAP_TERRAIN_BYTES <= b.len(),
    ensures
        RandomMapTerrain::spec_decode(b, p).spec_encode() == b.subrange(
            p,
            p + MAP_TERRAIN_BYTES as int,
        ),
{
    lemma_reencode_i32(b, p);
    lemma_reencode_i32(b, p + 4);
    lemma_reencode_i32(b, p + 8);
    lemma_reencode_i32(b, p + 12);
    lemma_reencode_i32(b, p + 16);
    lemma_reencode_i32(b, p + 20);
    assert(RandomMapTerrain::spec_decode(b, p).spec_encode() =~= b.subrange(
        p,
        p + MAP_TERRAIN_BYTES as int,
    ));
}

/// An elevation record's encoding decodes to that record, wherever the
/// encoding stands in a block.
pub proof fn lemma_map_elevation_decode_encode(v: RandomMapElevation, b: Seq<u8>, p: int)
    requires
        0 <= p,
        p + MAP_ELEVATION_BYTES <= b.len(),
        b.subrange(p, p + MAP_ELEVATION_BYTES as int) == v.spec_encode(),
    ensures
        RandomMapElevation::spec_decode(b, p) == v,
{
    let e = v.spec_encode();
    assert forall|j: int| 0 <= j < MAP_ELEVATION_BYTES implies b[p + j] == e[j] by {
        assert(e[j] == b.subrange(p, p + MAP_ELEVATION_BYTES as int)[j]);
    }
    lemma_field_le32i(v.percent, e, 0, b, p);
    lemma_field_le32i(v.height, e, 4, b, p);
    lemma_field_le32i(v.clumps, e, 8, b, p);
    lemma_field_le32i(v.spacing, e, 12, b, p);
    lemma_field_le32i(v.base_terrain_type, e, 16, b, p);
    lemma_field_le32i(v.base_elevation_type, e, 20, b, p);
}

/// Decoding an elevation record and re-encoding it reproduces the bytes read.
#[verifier::rlimit(50)]
pub proof fn lemma_map_elevation_encode_decode(b: Seq<u8>, p: int)
    requires
        0 <= p,
        p + MAP_ELEVATION_BYTES <= b.len(),
    ensures
        RandomMapElevation::spec_decode(b, p).spec_encode() == b.subrange(
            p,
            p + MAP_ELEVATION_BYTES as int,
        ),
{
    lemma_reencode_i32(b, p);
    lemma_reencode_i32(b, p + 4);
    lemma_reencode_i32(b, p + 8);
    lemma_reencode_i32(b, p + 12);
    lemma_reencode_i32(b, p + 16);
    lemma_reencode_i32(b, p + 20);
    assert(RandomMapElevation::spec_decode(b, p).spec_encode() =~= b.subrange(
        p,
        p + MAP_ELEVATION_BYTES as int,
    ));
}

/// An object record's encoding decodes to that record, wherever the encoding
/// stands in a block.
#[verifier::rlimit(50)]
pub proof fn lemma_map_object_decode_encode(v: RandomMapObject, b: Seq<u8>, p: int)
    requires
        0 <= p,
        p + MAP_OBJECT_BYTES <= b.len(),
        b.subrange(p, p + MAP_OBJECT_BYTES as int) == v.spec_encode(),
    ensures
        RandomMapObject::spec_decode(b, p) == v,
{
    let e = v.spec_encode();
    assert forall|j: int| 0 <= j < MAP_OBJECT_BYTES implies b[p + j] == e[j] by {
        assert(e[j] == b.subrange(p, p + MAP_OBJECT_BYTES as int)[j]);
    }
    lemma_field_le32(v.unit_type, e, 0, b, p);
    lemma_field_le32i(v.terrain_type, e, 4, b, p);
    lemma_field_i8(v.group_flag, e, 8, b, p);
    lemma_field_i8(v.scale_flag, e, 9, b, p);
    lemma_field_le32i(v.group_size, e, 12, b, p);
    lemma_field_le32i(v.group_size_variance, e, 16, b, p);
    lemma_field_le32i(v.group_count, e, 20, b, p);
    lemma_field_le32i(v.group_area, e, 24, b, p);
    lemma_field_le32i(v.player_id, e, 28, b, p);
    lemma_field_le32i(v.land_id, e, 32, b, p);
    lemma_field_le32i(v.min_distance_to_players, e, 36, b, p);
    lemma_field_le32i(v.max_distance_to_players, e, 40, b, p);
}

/// Decoding an object record and re-encoding it reproduces the bytes read,
/// provided the padding hole held zeroes, as the format prescribes.
#[verifier::rlimit(100)]
pub proof fn lemma_map_object_encode_decode(b: Seq<u8>, p: int)
    requires
        0 <= p,
        p + MAP_OBJECT_BYTES <= b.len(),
        b[p + 10] == 0,
        b[p + 11] == 0,
    ensures
        RandomMapObject::spec_decode(b, p).spec_encode() == b.subrange(
            p,
            p + MAP_OBJECT_BYTES as int,
        ),
{
    lemma_reencode_u32(b, p);
    lemma_reencode_i32(b, p + 4);
    crate::bytes::lemma_reencode_i8(b, p + 8);
    crate::bytes::lemma_reencode_i8(b, p + 9);
    lemma_reencode_i32(b, p + 12);
    lemma_reencode_i32(b, p + 16);
    lemma_reencode_i32(b, p + 20);
    lemma_reencode_i32(b, p + 24);
    lemma_reencode_i32(b, p + 28);
    lemma_reencode_i32(b, p + 32);
    lemma_reencode_i32(b, p + 36);
    lemma_reencode_i32(b, p + 40);
    assert(RandomMapObject::spec_decode(b, p).spec_encode() =~= b.subrange(
        p,
        p + MAP_OBJECT_BYTES as int,
    ));
}

} // verus!
