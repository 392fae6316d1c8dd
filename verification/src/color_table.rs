//! Player colour data: a fixed-layout leaf record of nine little-endian
//! signed 32-bit palette indices, with no version branches.

use vstd::prelude::*;

use crate::bytes::{i32_at, le32i, lemma_field_le32i, lemma_reencode_i32};
use crate::error::DecodeError;
use crate::reader::{Reader, Writer};

verus! {

/// Number of bytes in an encoded colour table.
pub const COLOR_TABLE_BYTES: usize = 36;

/// Player colour data.
#[derive(Debug, PartialEq, Eq)]
pub struct ColorTable {
    pub id: i32,
    /// Base palette index for this player colour.
    pub base: i32,
    /// The palette index to use for unit outlines when they are obscured by
    /// buildings or trees.
    pub unit_outline_color: i32,
    pub unit_selection_colors: (i32, i32),
    /// Palette indices for this colour on the minimap.
    pub minimap_colors: (i32, i32, i32),
    /// Palette index to use for this player colour in the in-game statistics.
    pub statistics_text_color: i32,
}

impl ColorTable {
    /// The colour table stored at offset `p` of `b`.
    pub open spec fn spec_decode(b: Seq<u8>, p: int) -> ColorTable {
        ColorTable {
            id: i32_at(b, p),
            base: i32_at(b, p + 4),
            unit_outline_color: i32_at(b, p + 8),
            unit_selection_colors: (i32_at(b, p + 12), i32_at(b, p + 16)),
            minimap_colors: (i32_at(b, p + 20), i32_at(b, p + 24), i32_at(b, p + 28)),
            statistics_text_color: i32_at(b, p + 32),
        }
    }

    /// The bytes this colour table occupies on disk.
    pub open spec fn spec_encode(self) -> Seq<u8> {
        le32i(self.id) + le32i(self.base) + le32i(self.unit_outline_color) + le32i(
            self.unit_selection_colors.0,
        ) + le32i(self.unit_selection_colors.1) + le32i(self.minimap_colors.0) + le32i(
            self.minimap_colors.1,
        ) + le32i(self.minimap_colors.2) + le32i(self.statistics_text_color)
    }

    /// Decode a colour table from the reader's position.
    pub fn from(input: &mut Reader) -> (res: Result<ColorTable, DecodeError>)
        ensures
            final(input).bytes() == old(input).bytes(),
            final(input).pos() >= old(input).pos(),
            old(input).can_read(COLOR_TABLE_BYTES as int) ==> (res matches Ok(v) && v
                == Self::spec_decode(old(input).bytes(), old(input).pos()) && final(input).pos()
                == old(input).pos() + COLOR_TABLE_BYTES),
            !old(input).can_read(COLOR_TABLE_BYTES as int) ==> (res matches Err(
                DecodeError::UnexpectedEnd { position },
            ) && position >= old(input).pos()),
    {
        let id = input.read_i32()?;
        let base = input.read_i32()?;
        let unit_outline_color = input.read_i32()?;
        let unit_selection_colors = (input.read_i32()?, input.read_i32()?);
        let minimap_colors = (input.read_i32()?, input.read_i32()?, input.read_i32()?);
        let statistics_text_color = input.read_i32()?;

        Ok(
            ColorTable {
                id,
                base,
                unit_outline_color,
                unit_selection_colors,
                minimap_colors,
                statistics_text_color,
            },
        )
    }

    /// Encode this colour table onto the writer.
    pub fn write_to(&self, output: &mut Writer)
        ensures
            final(output).bytes() == old(output).bytes() + self.spec_encode(),
    {
        output.write_i32(self.id);
        output.write_i32(self.base);
        output.write_i32(self.unit_outline_color);
        output.write_i32(self.unit_selection_colors.0);
        output.write_i32(self.unit_selection_colors.1);
        output.write_i32(self.minimap_colors.0);
        output.write_i32(self.minimap_colors.1);
        output.write_i32(self.minimap_colors.2);
        output.write_i32(self.statistics_text_color);
        proof {
            assert(output.bytes() =~= old(output).bytes() + self.spec_encode());
        }
    }
}

/// A colour table's encoding decodes to that colour table, wherever the
/// encoding stands in a block.
pub proof fn lemma_color_table_decode_encode(v: ColorTable, b: Seq<u8>, p: int)
    requires
        0 <= p,
        p + COLOR_TABLE_BYTES <= b.len(),
        b.subrange(p, p + COLOR_TABLE_BYTES as int) == v.spec_encode(),
    ensures
        ColorTable::spec_decode(b, p) == v,
{
    let e = v.spec_encode();
    assert forall|j: int| 0 <= j < COLOR_TABLE_BYTES implies b[p + j] == e[j] by {
        assert(e[j] == b.subrange(p, p + COLOR_TABLE_BYTES as int)[j]);
    }
    lemma_field_le32i(v.id, e, 0, b, p);
    lemma_field_le32i(v.base, e, 4, b, p);
    lemma_field_le32i(v.unit_outline_color, e, 8, b, p);
    lemma_field_le32i(v.unit_selection_colors.0, e, 12, b, p);
    lemma_field_le32i(v.unit_selection_colors.1, e, 16, b, p);
    lemma_field_le32i(v.minimap_colors.0, e, 20, b, p);
    lemma_field_le32i(v.minimap_colors.1, e, 24, b, p);
    lemma_field_le32i(v.minimap_colors.2, e, 28, b, p);
    lemma_field_le32i(v.statistics_text_color, e, 32, b, p);
}

/// Decoding a colour table and re-encoding it reproduces the bytes read.
#[verifier::rlimit(50)]
pub proof fn lemma_color_table_encode_decode(b: Seq<u8>, p: int)
    requires
        0 <= p,
        p + COLOR_TABLE_BYTES <= b.len(),
    ensures
        ColorTable::spec_decode(b, p).spec_encode() == b.subrange(p, p + COLOR_TABLE_BYTES as int),
{
    let v = ColorTable::spec_decode(b, p);
    lemma_reencode_i32(b, p);
    lemma_reencode_i32(b, p + 4);
    lemma_reencode_i32(b, p + 8);
    lemma_reencode_i32(b, p + 12);
    lemma_reencode_i32(b, p + 16);
    lemma_reencode_i32(b, p + 20);
    lemma_reencode_i32(b, p + 24);
    lemma_reencode_i32(b, p + 28);
    lemma_reencode_i32(b, p + 32);
    assert(v.spec_encode() =~= b.subrange(p, p + COLOR_TABLE_BYTES as int));
}

} // verus!
