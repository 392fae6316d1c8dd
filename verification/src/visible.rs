//! The per-player visible map and visible resources.
//!
//! The visible map stores one tile per cell: the definitive edition stores
//! 16-bit tiles on disk, earlier editions store 8-bit tiles which the decoder
//! widens losslessly to 16 bits.

use vstd::prelude::*;

use crate::bytes::{bits_of_i8, i8_at, i16_at, le16, le16i, le32, u16_at, u32_at};
use crate::context::{HeaderContext, VERSION_EXPLORED_TILES};
use crate::error::{DecodeError, MAX_FIELD_BYTES};
use crate::reader::{Reader, Writer};

verus! {

broadcast use crate::reader::lemma_reader_bounds;

/// Number of bytes in an encoded visible resource.
pub const VISIBLE_RESOURCE_BYTES: usize = 8;

/// One resource sighting.
#[derive(Debug, Clone, Copy, PartialEq, Eq)]
pub struct VisibleResource {
    pub object_id: u32,
    pub distance: u8,
    pub zone: i8,
    pub location: (u8, u8),
}

impl VisibleResource {
    /// The resource sighting stored at offset `p` of `b`.
    pub open spec fn spec_decode(b: Seq<u8>, p: int) -> VisibleResource {
        VisibleResource {
            object_id: u32_at(b, p),
            distance: b[p + 4],
            zone: i8_at(b, p + 5),
            location: (b[p + 6], b[p + 7]),
        }
    }

    /// The bytes this sighting occupies on disk.
    pub open spec fn spec_encode(self) -> Seq<u8> {
        le32(self.object_id) + seq![
            self.distance,
            bits_of_i8(self.zone),
            self.location.0,
            self.location.1,
        ]
    }

    /// Decode one resource sighting from the reader's position.
    pub fn read_from(input: &mut Reader) -> (res: Result<VisibleResource, DecodeError>)
        ensures
            final(input).bytes() == old(input).bytes(),
            final(input).pos() >= old(input).pos(),
            old(input).can_read(VISIBLE_RESOURCE_BYTES as int) ==> (res matches Ok(v) && v
                == Self::spec_decode(old(input).bytes(), old(input).pos()) && final(input).pos()
                == old(input).pos() + VISIBLE_RESOURCE_BYTES),
            !old(input).can_read(VISIBLE_RESOURCE_BYTES as int) ==> (res matches Err(
                DecodeError::UnexpectedEnd { position },
            ) && position >= old(input).pos()),
    {
        let object_id = input.read_u32()?;
        let distance = input.read_u8()?;
        let zone = input.read_i8()?;
        let location = (input.read_u8()?, input.read_u8()?);
        Ok(VisibleResource { object_id, distance, zone, location })
    }

    /// Encode this sighting onto the writer.
    pub fn write_to(&self, output: &mut Writer)
        ensures
            final(output).bytes() == old(output).bytes() + self.spec_encode(),
    {
        output.write_u32(self.object_id);
        output.write_u8(self.distance);
        output.write_i8(self.zone);
        output.write_u8(self.location.0);
        output.write_u8(self.location.1);
        proof {
            assert(output.bytes() =~= old(output).bytes() + self.spec_encode());
        }
    }
}

/// A resource sighting's encoding decodes to that sighting, wherever the
/// encoding stands in a block.
pub proof fn lemma_visible_resource_decode_encode(v: VisibleResource, b: Seq<u8>, p: int)
    requires
        0 <= p,
        p + VISIBLE_RESOURCE_BYTES <= b.len(),
        b.subrange(p, p + VISIBLE_RESOURCE_BYTES as int) == v.spec_encode(),
    ensures
        VisibleResource::spec_decode(b, p) == v,
{
    let e = v.spec_encode();
    assert forall|j: int| 0 <= j < VISIBLE_RESOURCE_BYTES implies b[p + j] == e[j] by {
        assert(e[j] == b.subrange(p, p + VISIBLE_RESOURCE_BYTES as int)[j]);
    }
    crate::bytes::lemma_field_le32(v.object_id, e, 0, b, p);
    crate::bytes::lemma_field_i8(v.zone, e, 5, b, p);
    assert(b[p + 4] == e[4] && b[p + 6] == e[6] && b[p + 7] == e[7]);
}

/// Decoding a resource sighting and re-encoding it reproduces the bytes
/// read.
pub proof fn lemma_visible_resource_encode_decode(b: Seq<u8>, p: int)
    requires
        0 <= p,
        p + VISIBLE_RESOURCE_BYTES <= b.len(),
    ensures
        VisibleResource::spec_decode(b, p).spec_encode() == b.subrange(
            p,
            p + VISIBLE_RESOURCE_BYTES as int,
        ),
{
    crate::bytes::lemma_reencode_u32(b, p);
    crate::bytes::lemma_reencode_i8(b, p + 5);
    assert(VisibleResource::spec_decode(b, p).spec_encode() =~= b.subrange(
        p,
        p + VISIBLE_RESOURCE_BYTES as int,
    ));
}

/// The per-player lists of visible resources, one list per resource kind.
#[derive(Debug, PartialEq, Eq)]
pub struct VisibleResources {
    pub lists: Vec<Vec<VisibleResource>>,
}

/// Sum of the first `k` list sizes of the visible-resource size table whose
/// first pair stands at `q + 4`: the size of list `i` is the second word of
/// pair `i`, its capacity word is discarded.
pub open spec fn spec_vr_size_sum(b: Seq<u8>, q: int, k: int) -> int
    decreases k,
{
    if k <= 0 {
        0
    } else {
        spec_vr_size_sum(b, q, k - 1) + u32_at(b, q + 8 + 8 * (k - 1))
    }
}

/// Partial sums of the size table are never negative.
pub proof fn lemma_vr_size_sum_nonneg(b: Seq<u8>, q: int, k: int)
    ensures
        spec_vr_size_sum(b, q, k) >= 0,
    decreases k,
{
    if k > 0 {
        lemma_vr_size_sum_nonneg(b, q, k - 1);
    }
}

/// Partial sums of the size table grow with `k`.
pub proof fn lemma_vr_size_sum_mono(b: Seq<u8>, q: int, k1: int, k2: int)
    requires
        0 <= k1 <= k2,
    ensures
        spec_vr_size_sum(b, q, k1) <= spec_vr_size_sum(b, q, k2),
        spec_vr_size_sum(b, q, k1) >= 0,
    decreases k2 - k1,
{
    lemma_vr_size_sum_nonneg(b, q, k1);
    if k1 < k2 {
        lemma_vr_size_sum_mono(b, q, k1 + 1, k2);
    }
}

impl VisibleResources {
    /// Decode the visible-resource lists: a list count, then per list a
    /// discarded capacity and a size, then per list its sightings in stream
    /// order. The decode succeeds exactly when the stream holds the count,
    /// the size table and every announced sighting, and consumes exactly
    /// those bytes.
    #[verifier::loop_isolation(false)]
    pub fn read_from(input: &mut Reader) -> (res: Result<VisibleResources, DecodeError>)
        ensures
            final(input).bytes() == old(input).bytes(),
            final(input).pos() >= old(input).pos(),
            ({
                let b = old(input).bytes();
                let q = old(input).pos();
                let n = u32_at(b, q) as int;
                res is Ok <==> old(input).can_read(4) && old(input).can_read(
                    4 + 8 * n + VISIBLE_RESOURCE_BYTES * spec_vr_size_sum(b, q, n),
                )
            }),
            res matches Ok(v) ==> {
                let b = old(input).bytes();
                let q = old(input).pos();
                let n = u32_at(b, q) as int;
                let base = q + 4 + 8 * n;
                &&& v.lists@.len() == n
                &&& forall|i: int|
                    0 <= i < n ==> (#[trigger] v.lists@[i])@.len() == u32_at(b, q + 8 + 8 * i)
                &&& forall|i: int, j: int|
                    0 <= i < n && 0 <= j < v.lists@[i]@.len() ==> #[trigger] v.lists@[i]@[j]
                        == VisibleResource::spec_decode(
                        b,
                        base + VISIBLE_RESOURCE_BYTES * (spec_vr_size_sum(b, q, i) + j),
                    )
                &&& final(input).pos() == base + VISIBLE_RESOURCE_BYTES * spec_vr_size_sum(
                    b,
                    q,
                    n,
                )
            },
            res matches Err(e) ==> e is UnexpectedEnd,
    {
        let ghost q = input.pos();
        let ghost b = input.bytes();
        let num_lists = input.read_u32()?;
        let n = num_lists as usize;
        proof {
            lemma_vr_size_sum_mono(b, q, 0, n as int);
        }
        let mut sizes: Vec<u32> = Vec::new();
        while sizes.len() < n
            invariant
                sizes@.len() <= n,
                input.bytes() == b,
                q == old(input).pos(),
                input.pos() == q + 4 + 8 * sizes@.len(),
                input.pos() <= input.bytes().len(),
                forall|i: int|
                    0 <= i < sizes@.len() ==> sizes@[i] == u32_at(b, q + 8 + 8 * i),
            decreases n - sizes@.len(),
        {
            proof {
                lemma_vr_size_sum_mono(b, q, sizes@.len() as int, n as int);
            }
            let _capacity: u32 = input.read_u32()?;
            let size = input.read_u32()?;
            sizes.push(size);
        }
        let ghost base = q + 4 + 8 * (n as int);
        let mut lists: Vec<Vec<VisibleResource>> = Vec::new();
        let mut i: usize = 0;
        while i < n
            invariant
                i <= n,
                sizes@.len() == n,
                lists@.len() == i,
                input.bytes() == b,
                q == old(input).pos(),
                base == q + 4 + 8 * (n as int),
                input.pos() == base + VISIBLE_RESOURCE_BYTES * spec_vr_size_sum(b, q, i as int),
                input.pos() <= input.bytes().len(),
                forall|k: int| 0 <= k < n ==> sizes@[k] == u32_at(b, q + 8 + 8 * k),
                forall|k: int|
                    0 <= k < i ==> (#[trigger] lists@[k])@.len() == sizes@[k],
                forall|k: int, j: int|
                    0 <= k < i && 0 <= j < lists@[k]@.len() ==> #[trigger] lists@[k]@[j]
                        == VisibleResource::spec_decode(
                        b,
                        base + VISIBLE_RESOURCE_BYTES * (spec_vr_size_sum(b, q, k) + j),
                    ),
            decreases n - i,
        {
            let size = sizes[i] as usize;
            let ghost list_base = base + VISIBLE_RESOURCE_BYTES * spec_vr_size_sum(b, q, i as int);
            let mut list: Vec<VisibleResource> = Vec::new();
            while list.len() < size
                invariant
                    i < n,
                    size == sizes@[i as int],
                    list@.len() <= size,
                    input.bytes() == b,
                    q == old(input).pos(),
                    list_base == base + VISIBLE_RESOURCE_BYTES * spec_vr_size_sum(b, q, i as int),
                    input.pos() == list_base + VISIBLE_RESOURCE_BYTES * list@.len(),
                    input.pos() <= input.bytes().len(),
                    forall|j: int|
                        0 <= j < list@.len() ==> list@[j] == VisibleResource::spec_decode(
                            b,
                            list_base + VISIBLE_RESOURCE_BYTES * j,
                        ),
                decreases size - list@.len(),
            {
                proof {
                    lemma_vr_size_sum_mono(b, q, i as int + 1, n as int);
                }
                let vis = VisibleResource::read_from(input)?;
                list.push(vis);
            }
            lists.push(list);
            i = i + 1;
            proof {
                assert(spec_vr_size_sum(b, q, i as int) == spec_vr_size_sum(b, q, i as int - 1)
                    + sizes@[i as int - 1]);
            }
        }
        Ok(VisibleResources { lists })
    }
}

/// The per-player visible map.
#[derive(Debug, PartialEq, Eq)]
pub struct VisibleMap {
    pub width: u32,
    pub height: u32,
    /// Only present on disk at format versions with explored-tile counting;
    /// zero before that.
    pub explored_tiles_count: u32,
    pub player_id: u16,
    /// One tile per cell, row-major, `width * height` entries. The
    /// definitive edition stores each tile as 16 bits; earlier editions store
    /// 8 bits, widened losslessly here.
    pub tiles: Vec<i16>,
}

/// Bytes of the visible-map header at the given version.
pub open spec fn spec_vmap_header_len(version: u32) -> int {
    if version >= VERSION_EXPLORED_TILES {
        14
    } else {
        10
    }
}

/// Bytes of one tile on disk.
pub open spec fn spec_tile_len(de: bool) -> int {
    if de {
        2
    } else {
        1
    }
}

/// The concatenated encodings of the tiles: 16 bits each in the definitive
/// edition, 8 bits each before it. For earlier editions this is meaningful
/// only while every tile fits in 8 bits, which decoding guarantees.
pub open spec fn spec_encode_tiles(tiles: Seq<i16>, de: bool) -> Seq<u8>
    decreases tiles.len(),
{
    if tiles.len() == 0 {
        Seq::empty()
    } else if de {
        spec_encode_tiles(tiles.drop_last(), de) + le16i(tiles.last())
    } else {
        spec_encode_tiles(tiles.drop_last(), de) + seq![bits_of_i8(tiles.last() as i8)]
    }
}

impl VisibleMap {
    /// The bytes this visible map occupies on disk at the given version and
    /// edition.
    pub open spec fn spec_encode(self, version: u32, de: bool) -> Seq<u8> {
        le32(self.width) + le32(self.height) + (
        if version >= VERSION_EXPLORED_TILES {
            le32(self.explored_tiles_count)
        } else {
            Seq::empty()
        }) + le16(self.player_id) + spec_encode_tiles(self.tiles@, de)
    }

    /// Decode the visible map from the reader's position.
    #[verifier::loop_isolation(false)]
    pub fn read_from(input: &mut Reader, ctx: &HeaderContext) -> (res: Result<
        VisibleMap,
        DecodeError,
    >)
        ensures
            final(input).bytes() == old(input).bytes(),
            final(input).pos() >= old(input).pos(),
            res matches Ok(v) ==> {
                let b = old(input).bytes();
                let q = old(input).pos();
                let hdr = spec_vmap_header_len(ctx.version);
                let base = q + hdr;
                let de = ctx.spec_at_least_definitive();
                &&& v.width == u32_at(b, q)
                &&& v.height == u32_at(b, q + 4)
                &&& v.explored_tiles_count == if ctx.version >= VERSION_EXPLORED_TILES {
                    u32_at(b, q + 8)
                } else {
                    0
                }
                &&& v.player_id == u16_at(b, q + hdr - 2)
                &&& v.tiles@.len() == v.width * v.height
                &&& (de ==> forall|i: int|
                    0 <= i < v.tiles@.len() ==> v.tiles@[i] == i16_at(b, base + 2 * i))
                &&& (!de ==> forall|i: int|
                    0 <= i < v.tiles@.len() ==> v.tiles@[i] == i8_at(b, base + i) as i16)
                &&& final(input).pos() == base + v.tiles@.len() * spec_tile_len(de)
            },
            res matches Err(e) ==> (e is UnexpectedEnd || e is InvalidLength),
            res matches Err(DecodeError::InvalidLength { position, length }) ==> length
                > MAX_FIELD_BYTES as u64,
            ({
                let b = old(input).bytes();
                let q = old(input).pos();
                let area = u32_at(b, q) * u32_at(b, q + 4);
                &&& area <= MAX_FIELD_BYTES
                &&& q + spec_vmap_header_len(ctx.version) + area * spec_tile_len(
                    ctx.spec_at_least_definitive(),
                ) <= b.len()
            }) ==> res is Ok,
    {
        let ghost q = input.pos();
        let width = input.read_u32()?;
        let height = input.read_u32()?;
        proof {
            assert((width as u64) * (height as u64) <= 0xFFFF_FFFFu64 * 0xFFFF_FFFFu64)
                by (nonlinear_arith)
                requires
                    width <= 0xFFFF_FFFFu64,
                    height <= 0xFFFF_FFFFu64,
            ;
        }
        let area: u64 = (width as u64) * (height as u64);
        if area > MAX_FIELD_BYTES as u64 {
            return Err(DecodeError::InvalidLength { position: input.position(), length: area });
        }
        let explored_tiles_count = if ctx.version >= VERSION_EXPLORED_TILES {
            input.read_u32()?
        } else {
            0
        };
        let player_id = input.read_u16()?;
        let n = area as usize;
        let ghost base = input.pos();
        let mut tiles: Vec<i16> = Vec::new();
        if ctx.variant.at_least(&crate::context::GameVariant::DefinitiveEdition) {
            while tiles.len() < n
                invariant
                    tiles@.len() <= n,
                    input.bytes() == old(input).bytes(),
                    input.pos() == base + 2 * tiles@.len(),
                    input.pos() <= input.bytes().len(),
                    forall|i: int|
                        0 <= i < tiles@.len() ==> tiles@[i] == i16_at(
                            old(input).bytes(),
                            base + 2 * i,
                        ),
                decreases n - tiles@.len(),
            {
                let t = input.read_i16()?;
                tiles.push(t);
            }
        } else {
            while tiles.len() < n
                invariant
                    tiles@.len() <= n,
                    input.bytes() == old(input).bytes(),
                    input.pos() == base + tiles@.len(),
                    input.pos() <= input.bytes().len(),
                    forall|i: int|
                        0 <= i < tiles@.len() ==> tiles@[i] == i8_at(
                            old(input).bytes(),
                            base + i,
                        ) as i16,
                decreases n - tiles@.len(),
            {
                let t = input.read_i8()?;
                tiles.push(t as i16);
            }
        }
        Ok(VisibleMap { width, height, explored_tiles_count, player_id, tiles })
    }

    /// Encode this visible map onto the writer, in the layout of the given
    /// version and edition. Before the definitive edition each tile must fit
    /// in a signed byte, as decoded maps of those editions do.
    #[verifier::loop_isolation(false)]
    pub fn write_to(&self, output: &mut Writer, ctx: &HeaderContext)
        requires
            !ctx.spec_at_least_definitive() ==> forall|i: int|
                0 <= i < self.tiles@.len() ==> -128 <= #[trigger] self.tiles@[i] <= 127,
        ensures
            final(output).bytes() == old(output).bytes() + self.spec_encode(
                ctx.version,
                ctx.spec_at_least_definitive(),
            ),
    {
        output.write_u32(self.width);
        output.write_u32(self.height);
        if ctx.version >= VERSION_EXPLORED_TILES {
            output.write_u32(self.explored_tiles_count);
        }
        output.write_u16(self.player_id);
        let ghost prefix = output.bytes();
        let de = ctx.variant.at_least(&crate::context::GameVariant::DefinitiveEdition);
        let mut i: usize = 0;
        while i < self.tiles.len()
            invariant
                i <= self.tiles@.len(),
                de == ctx.spec_at_least_definitive(),
                output.bytes() == prefix + spec_encode_tiles(self.tiles@.take(i as int), de),
            decreases self.tiles@.len() - i,
        {
            let t = self.tiles[i];
            if de {
                output.write_i16(t);
            } else {
                output.write_i8(t as i8);
            }
            i = i + 1;
            proof {
                assert(self.tiles@.take(i as int).drop_last() =~= self.tiles@.take(i - 1));
                assert(output.bytes() =~= prefix + spec_encode_tiles(
                    self.tiles@.take(i as int),
                    de,
                ));
            }
        }
        proof {
            assert(self.tiles@.take(self.tiles@.len() as int) =~= self.tiles@);
            assert(output.bytes() =~= old(output).bytes() + self.spec_encode(
                ctx.version,
                ctx.spec_at_least_definitive(),
            ));
        }
    }
}

/// Tiles that were widened from signed bytes re-encode to exactly the bytes
/// they were read from.
pub proof fn lemma_tiles_reencode_narrow(tiles: Seq<i16>, b: Seq<u8>, base: int)
    requires
        0 <= base,
        base + tiles.len() <= b.len(),
        forall|i: int| 0 <= i < tiles.len() ==> tiles[i] == i8_at(b, base + i) as i16,
    ensures
        spec_encode_tiles(tiles, false) == b.subrange(base, base + tiles.len()),
    decreases tiles.len(),
{
    if tiles.len() == 0 {
        assert(spec_encode_tiles(tiles, false) =~= b.subrange(base, base));
    } else {
        let m = tiles.len() - 1;
        lemma_tiles_reencode_narrow(tiles.drop_last(), b, base);
        crate::bytes::lemma_reencode_i8(b, base + m);
        assert(bits_of_i8(tiles.last() as i8) == b[base + m]);
        assert(spec_encode_tiles(tiles, false) =~= b.subrange(base, base + tiles.len()));
    }
}

/// An earlier-edition visible map decoded from a block re-encodes, as the
/// same earlier edition, to exactly the bytes it was read from: the widening
/// of the 8-bit tiles is lossless.
pub proof fn lemma_visible_map_widening_roundtrip(
    v: VisibleMap,
    b: Seq<u8>,
    q: int,
    version: u32,
)
    requires
        0 <= q,
        q + spec_vmap_header_len(version) + v.tiles@.len() <= b.len(),
        v.width == u32_at(b, q),
        v.height == u32_at(b, q + 4),
        v.explored_tiles_count == if version >= VERSION_EXPLORED_TILES {
            u32_at(b, q + 8)
        } else {
            0
        },
        v.player_id == u16_at(b, q + spec_vmap_header_len(version) - 2),
        forall|i: int|
            0 <= i < v.tiles@.len() ==> v.tiles@[i] == i8_at(
                b,
                q + spec_vmap_header_len(version) + i,
            ) as i16,
    ensures
        v.spec_encode(version, false) == b.subrange(
            q,
            q + spec_vmap_header_len(version) + v.tiles@.len(),
        ),
{
    let hdr = spec_vmap_header_len(version);
    crate::bytes::lemma_reencode_u32(b, q);
    crate::bytes::lemma_reencode_u32(b, q + 4);
    if version >= VERSION_EXPLORED_TILES {
        crate::bytes::lemma_reencode_u32(b, q + 8);
    }
    crate::bytes::lemma_reencode_u16(b, q + hdr - 2);
    lemma_tiles_reencode_narrow(v.tiles@, b, q + hdr);
    assert(v.spec_encode(version, false) =~= b.subrange(q, q + hdr + v.tiles@.len()));
}

} // verus!
