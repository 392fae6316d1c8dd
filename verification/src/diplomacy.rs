//! A diplomacy offer exchanged between players: a fixed group of scalar
//! fields plus a message prefixed by an 8-bit byte length.

use vstd::prelude::*;

use crate::bytes::{le32, u32_at};
use crate::error::DecodeError;
use crate::reader::{Reader, Writer};

verus! {

broadcast use crate::reader::lemma_reader_bounds;

/// Number of bytes in an encoded diplomacy offer besides the message.
pub const DIPLOMACY_OFFER_FIXED_BYTES: usize = 20;

/// A diplomacy offer.
///
/// `actual_time` is not on the wire: the decoder sets it to zero, and the
/// encoder does not emit it. The message is kept as the raw bytes of the
/// length-prefixed field, so that re-encoding reproduces the stream.
#[derive(Debug, PartialEq, Eq)]
pub struct DiplomacyOffer {
    pub sequence: u8,
    pub started_by: u8,
    pub actual_time: u32,
    pub game_time: u32,
    pub declare: u8,
    pub old_diplomacy: u8,
    pub new_diplomacy: u8,
    pub old_intelligence: u8,
    pub new_intelligence: u8,
    pub old_trade: u8,
    pub new_trade: u8,
    pub demand: u8,
    pub gold: u32,
    pub message: Vec<u8>,
    pub status: u8,
}

/// How many bytes the diplomacy offer at offset `p` of `b` occupies: the
/// fixed fields plus the message length read from its prefix byte.
pub open spec fn spec_offer_len(b: Seq<u8>, p: int) -> int {
    DIPLOMACY_OFFER_FIXED_BYTES + b[p + 18]
}

/// An offer spans at least its fixed fields.
pub proof fn lemma_offer_len_nonneg(b: Seq<u8>, p: int)
    ensures
        spec_offer_len(b, p) >= DIPLOMACY_OFFER_FIXED_BYTES,
{
}

/// Whether `v` is the diplomacy offer stored at offset `p` of `b`.
pub open spec fn spec_offer_matches(v: DiplomacyOffer, b: Seq<u8>, p: int) -> bool {
    &&& v.sequence == b[p]
    &&& v.started_by == b[p + 1]
    &&& v.actual_time == 0
    &&& v.game_time == u32_at(b, p + 2)
    &&& v.declare == b[p + 6]
    &&& v.old_diplomacy == b[p + 7]
    &&& v.new_diplomacy == b[p + 8]
    &&& v.old_intelligence == b[p + 9]
    &&& v.new_intelligence == b[p + 10]
    &&& v.old_trade == b[p + 11]
    &&& v.new_trade == b[p + 12]
    &&& v.demand == b[p + 13]
    &&& v.gold == u32_at(b, p + 14)
    &&& v.message@ == b.subrange(p + 19, p + 19 + b[p + 18])
    &&& v.status == b[p + 19 + b[p + 18]]
}

impl DiplomacyOffer {
    /// The bytes this offer occupies on disk.
    pub open spec fn spec_encode(self) -> Seq<u8> {
        seq![
            self.sequence,
            self.started_by,
            le32(self.game_time)[0],
            le32(self.game_time)[1],
            le32(self.game_time)[2],
            le32(self.game_time)[3],
            self.declare,
            self.old_diplomacy,
            self.new_diplomacy,
            self.old_intelligence,
            self.new_intelligence,
            self.old_trade,
            self.new_trade,
            self.demand,
            le32(self.gold)[0],
            le32(self.gold)[1],
            le32(self.gold)[2],
            le32(self.gold)[3],
            self.message@.len() as u8,
        ] + self.message@ + seq![self.status]
    }

    /// Decode one diplomacy offer from the reader's position.
    pub fn read_from(input: &mut Reader) -> (res: Result<DiplomacyOffer, DecodeError>)
        ensures
            final(input).bytes() == old(input).bytes(),
            final(input).pos() >= old(input).pos(),
            old(input).can_read(19) && old(input).can_read(
                spec_offer_len(old(input).bytes(), old(input).pos()),
            ) ==> (res matches Ok(v) && spec_offer_matches(
                v,
                old(input).bytes(),
                old(input).pos(),
            ) && final(input).pos() == old(input).pos() + spec_offer_len(
                old(input).bytes(),
                old(input).pos(),
            )),
            !(old(input).can_read(19) && old(input).can_read(
                spec_offer_len(old(input).bytes(), old(input).pos()),
            )) ==> (res matches Err(DecodeError::UnexpectedEnd { position }) && position >= old(
                input,
            ).pos()),
    {
        let sequence = input.read_u8()?;
        let started_by = input.read_u8()?;
        let game_time = input.read_u32()?;
        let declare = input.read_u8()?;
        let old_diplomacy = input.read_u8()?;
        let new_diplomacy = input.read_u8()?;
        let old_intelligence = input.read_u8()?;
        let new_intelligence = input.read_u8()?;
        let old_trade = input.read_u8()?;
        let new_trade = input.read_u8()?;
        let demand = input.read_u8()?;
        let gold = input.read_u32()?;
        let message_len = input.read_u8()?;
        let message = input.read_bytes(message_len as usize)?;
        let status = input.read_u8()?;
        Ok(
            DiplomacyOffer {
                sequence,
                started_by,
                actual_time: 0,
                game_time,
                declare,
                old_diplomacy,
                new_diplomacy,
                old_intelligence,
                new_intelligence,
                old_trade,
                new_trade,
                demand,
                gold,
                message,
                status,
            },
        )
    }

    /// Encode this offer onto the writer.
    pub fn write_to(&self, output: &mut Writer)
        requires
            self.message@.len() <= 255,
        ensures
            final(output).bytes() == old(output).bytes() + self.spec_encode(),
    {
        output.write_u8(self.sequence);
        output.write_u8(self.started_by);
        output.write_u32(self.game_time);
        output.write_u8(self.declare);
        output.write_u8(self.old_diplomacy);
        output.write_u8(self.new_diplomacy);
        output.write_u8(self.old_intelligence);
        output.write_u8(self.new_intelligence);
        output.write_u8(self.old_trade);
        output.write_u8(self.new_trade);
        output.write_u8(self.demand);
        output.write_u32(self.gold);
        output.write_u8(self.message.len() as u8);
        output.write_bytes(&self.message);
        output.write_u8(self.status);
        proof {
            assert(output.bytes() =~= old(output).bytes() + self.spec_encode());
        }
    }
}

/// An offer that matches the wire re-encodes to exactly the bytes it was
/// read from.
#[verifier::rlimit(50)]
pub proof fn lemma_offer_encode_decode(v: DiplomacyOffer, b: Seq<u8>, p: int)
    requires
        0 <= p,
        p + spec_offer_len(b, p) <= b.len(),
        spec_offer_matches(v, b, p),
    ensures
        v.spec_encode() == b.subrange(p, p + spec_offer_len(b, p)),
{
    crate::bytes::lemma_reencode_u32(b, p + 2);
    crate::bytes::lemma_reencode_u32(b, p + 14);
    assert(v.message@.len() == b[p + 18]);
    assert(v.spec_encode() =~= b.subrange(p, p + spec_offer_len(b, p)));
}

/// Decoding an offer's encoding gives back the offer's fields.
pub proof fn lemma_offer_decode_encode(v: DiplomacyOffer, b: Seq<u8>, p: int)
    requires
        0 <= p,
        v.message@.len() <= 255,
        v.actual_time == 0,
        p + 20 + v.message@.len() <= b.len(),
        b.subrange(p, p + 20 + v.message@.len()) == v.spec_encode(),
    ensures
        spec_offer_matches(v, b, p),
        spec_offer_len(b, p) == 20 + v.message@.len(),
{
    lemma_offer_scalars(v, b, p);
    lemma_offer_message(v, b, p);
}

/// The scalar fields of a wire-matching offer encoding.
#[verifier::rlimit(50)]
proof fn lemma_offer_scalars(v: DiplomacyOffer, b: Seq<u8>, p: int)
    requires
        0 <= p,
        v.message@.len() <= 255,
        p + 20 + v.message@.len() <= b.len(),
        b.subrange(p, p + 20 + v.message@.len()) == v.spec_encode(),
    ensures
        v.sequence == b[p],
        v.started_by == b[p + 1],
        v.game_time == u32_at(b, p + 2),
        v.declare == b[p + 6],
        v.old_diplomacy == b[p + 7],
        v.new_diplomacy == b[p + 8],
        v.old_intelligence == b[p + 9],
        v.new_intelligence == b[p + 10],
        v.old_trade == b[p + 11],
        v.new_trade == b[p + 12],
        v.demand == b[p + 13],
        v.gold == u32_at(b, p + 14),
        b[p + 18] == v.message@.len() as u8,
{
    let e = v.spec_encode();
    let n = v.message@.len() as int;
    assert forall|j: int| 0 <= j < 19 implies b[p + j] == e[j] by {
        assert(e[j] == b.subrange(p, p + 20 + n)[j]);
    }
    assert(b[p + 0] == e[0] && b[p + 1] == e[1]);
    assert(b[p + 6] == e[6] && b[p + 7] == e[7] && b[p + 8] == e[8] && b[p + 9] == e[9]);
    assert(b[p + 10] == e[10] && b[p + 11] == e[11] && b[p + 12] == e[12] && b[p + 13] == e[13]);
    crate::bytes::lemma_u32_le_roundtrip(v.game_time);
    assert(b[p + 2] == e[2] && b[p + 3] == e[3] && b[p + 4] == e[4] && b[p + 5] == e[5]);
    crate::bytes::lemma_u32_le_roundtrip(v.gold);
    assert(b[p + 14] == e[14] && b[p + 15] == e[15] && b[p + 16] == e[16] && b[p + 17] == e[17]);
    assert(b[p + 18] == e[18]);
}

/// The message bytes and status of a wire-matching offer encoding.
#[verifier::rlimit(50)]
proof fn lemma_offer_message(v: DiplomacyOffer, b: Seq<u8>, p: int)
    requires
        0 <= p,
        v.message@.len() <= 255,
        p + 20 + v.message@.len() <= b.len(),
        b.subrange(p, p + 20 + v.message@.len()) == v.spec_encode(),
        b[p + 18] == v.message@.len() as u8,
    ensures
        v.message@ == b.subrange(p + 19, p + 19 + b[p + 18]),
        v.status == b[p + 19 + b[p + 18]],
        spec_offer_len(b, p) == 20 + v.message@.len(),
{
    let e = v.spec_encode();
    let n = v.message@.len() as int;
    assert forall|k: int| 0 <= k < n implies b[p + 19 + k] == v.message@[k] by {
        assert(e[19 + k] == v.message@[k]);
        assert(b[p + (19 + k)] == e[19 + k]);
    }
    assert(v.message@ =~= b.subrange(p + 19, p + 19 + n));
    assert(e[19 + n] == v.status);
    assert(b[p + (19 + n)] == e[19 + n]);
}

} // verus!
