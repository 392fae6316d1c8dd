//! The peer codecs that the player block invokes at fixed points.
//!
//! Unit prototypes, the technology tree, computer-player state and unit
//! records are peer formats outside this codec: the player block hands the
//! reader to them and carries their results opaquely. Implementations of
//! [`PeerCodec`] supply them; a failure is reported through the returned
//! description and wrapped by the caller as
//! [`crate::error::DecodeError::DelegateFailed`].
//!
//! The victory-conditions record is supplied by an outside parser and wrapped
//! here.

use vstd::prelude::*;

use crate::context::HeaderContext;
use crate::error::DecodeError;
use crate::reader::Reader;

verus! {

/// The victory-conditions record of an outside parser, carried opaquely.
#[verifier::external_type_specification]
#[verifier::external_body]
pub struct ExVictoryConditions(genie_scx::VictoryConditions);

/// The peer codecs the player block dispatches into: unit prototypes (`U`),
/// the technology tree (`T`), computer-player state (`A`) and unit records
/// (`N`).
///
/// Each method consumes the peer's bytes from the reader and returns its
/// value, or a description of the failure. `read_unit` returns absent to
/// signal the end of a unit list.
pub trait PeerCodec<U, T, A, N> {
    /// Decode one compact unit prototype.
    fn read_unit_type(&mut self, input: &mut Reader, ctx: &HeaderContext) -> Result<U, String>;

    /// Decode the technology-tree catalogue.
    fn read_tech_tree(&mut self, input: &mut Reader, ctx: &HeaderContext) -> Result<T, String>;

    /// Decode the computer-player state record.
    fn read_player_ai(&mut self, input: &mut Reader, ctx: &HeaderContext) -> Result<A, String>;

    /// Decode one unit record, or absent at the end of a unit list.
    fn read_unit(&mut self, input: &mut Reader, ctx: &HeaderContext) -> Result<
        Option<N>,
        String,
    >;
}

/// How many bytes the outside victory-conditions parser consumes from the
/// front of `tail` when it accepts; absent when it rejects. The parse is a
/// function of the bytes alone.
pub uninterp spec fn victory_consumed_of(tail: Seq<u8>) -> Option<int>;

/// Whether the expanded victory-conditions record at the front of `tail`
/// declares a negative condition count: a signed 32-bit little-endian after
/// the four version bytes. The count's sign is reached only once the parser
/// has also read the one-byte victory flag, so a `tail` shorter than nine
/// bytes runs out before it matters.
pub open spec fn spec_victory_count_negative(tail: Seq<u8>) -> bool {
    tail.len() >= 9 && crate::bytes::i32_at(tail, 4) < 0
}

/// Relies on `genie_scx::VictoryConditions::read_from`: decodes the expanded
/// victory-conditions record from the front of `bytes`, deciding on the
/// bytes alone, and reports how many bytes it consumed. The parser sizes a
/// buffer from the signed condition count, which on a negative count panics
/// rather than failing; such inputs are excluded and the caller rejects them
/// first.
#[verifier::external_body]
fn parse_victory_conditions(bytes: &Vec<u8>) -> (res: Result<
    (genie_scx::VictoryConditions, usize),
    String,
>)
    requires
        !spec_victory_count_negative(bytes@),
    ensures
        res matches Ok(t) ==> victory_consumed_of(bytes@) == Some(t.1 as int) && t.1
            <= bytes@.len(),
        res is Err ==> victory_consumed_of(bytes@) is None,
{
    let mut cursor = std::io::Cursor::new(bytes.as_slice());
    match genie_scx::VictoryConditions::read_from(&mut cursor, true) {
        Ok(v) => Ok((v, cursor.position() as usize)),
        Err(e) => Err(format!("{}", e)),
    }
}

/// Decode the expanded victory-conditions record at the reader's position
/// and advance past it.
///
/// A record that declares a negative condition count is rejected as
/// [`DecodeError::InvalidLength`] before the outside parser runs; any other
/// rejection by the parser is wrapped as
/// [`DecodeError::DelegateFailed`]. The decode succeeds exactly when the
/// count is not negative and the parser accepts the tail, and then consumes
/// exactly the bytes the parser consumed.
pub fn read_victory_conditions(input: &mut Reader) -> (res: Result<
    genie_scx::VictoryConditions,
    DecodeError,
>)
    ensures
        final(input).bytes() == old(input).bytes(),
        final(input).pos() >= old(input).pos(),
        ({
            let b = old(input).bytes();
            let q = old(input).pos();
            let tail = b.subrange(q, b.len() as int);
            &&& (res is Ok <==> old(input).can_read(0) && !spec_victory_count_negative(tail)
                && victory_consumed_of(tail) is Some)
            &&& (res is Ok ==> final(input).pos() == q + victory_consumed_of(tail)->Some_0)
            &&& (res is Err ==> final(input).pos() == q)
            &&& (old(input).can_read(0) && spec_victory_count_negative(tail) ==> (res matches Err(
                DecodeError::InvalidLength { position, length },
            ) && position == q + 4 && length == crate::bytes::u32_at(tail, 4) as u64))
        }),
{
    let start = input.position();
    if !input.has(0) {
        return Err(DecodeError::UnexpectedEnd { position: start });
    }
    let tail = input.tail_copy();
    if tail.len() >= 9 {
        let raw = tail[4] as u32 + tail[5] as u32 * 0x100 + tail[6] as u32 * 0x1_0000 + tail[7]
            as u32 * 0x100_0000;
        let count = crate::reader::i32_from_wire(raw);
        if count < 0 {
            return Err(DecodeError::InvalidLength { position: start + 4, length: raw as u64 });
        }
    }
    match parse_victory_conditions(&tail) {
        Ok((victory, consumed)) => {
            input.advance(consumed);
            Ok(victory)
        },
        Err(message) => Err(
            DecodeError::DelegateFailed {
                component: crate::error::PeerComponent::Victory,
                position: start,
                message,
            },
        ),
    }
}

} // verus!
