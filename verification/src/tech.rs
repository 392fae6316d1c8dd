//! Per-technology research state and the per-player technology table.

use vstd::prelude::*;

use crate::bytes::{i16_at, le16i, le32, u16_at, u32_at};
use crate::context::HeaderContext;
use crate::error::DecodeError;
use crate::reader::{Reader, Writer};

verus! {

broadcast use crate::reader::lemma_reader_bounds;

/// Number of bytes in an encoded research state before the
/// definitive-edition extension.
pub const TECH_STATE_BYTES: usize = 14;

/// Number of extension bytes the definitive edition appends to each research
/// state.
pub const TECH_STATE_EXTRA_BYTES: usize = 15;

/// The research state of one technology.
#[derive(Debug, PartialEq, Eq)]
pub struct TechState {
    /// Research progress, as the raw bits of the on-disk 32-bit float.
    pub progress_bits: u32,
    pub state: i16,
    pub modifiers: (i16, i16, i16),
    pub time_modifier: i16,
    /// The extension bytes of the definitive edition, kept verbatim so that
    /// re-encoding reproduces the stream; empty for earlier editions.
    pub extra: Vec<u8>,
}

/// How many bytes one research state occupies on disk.
pub open spec fn spec_tech_state_len(de: bool) -> int {
    if de {
        TECH_STATE_BYTES + TECH_STATE_EXTRA_BYTES
    } else {
        TECH_STATE_BYTES as int
    }
}

/// Whether `v` is the research state stored at offset `p` of `b`.
pub open spec fn spec_tech_state_matches(v: TechState, b: Seq<u8>, p: int, de: bool) -> bool {
    &&& v.progress_bits == u32_at(b, p)
    &&& v.state == i16_at(b, p + 4)
    &&& v.modifiers == (i16_at(b, p + 6), i16_at(b, p + 8), i16_at(b, p + 10))
    &&& v.time_modifier == i16_at(b, p + 12)
    &&& v.extra@ == if de {
        b.subrange(p + 14, p + 29)
    } else {
        Seq::<u8>::empty()
    }
}

impl TechState {
    /// The bytes this research state occupies on disk.
    pub open spec fn spec_encode(self) -> Seq<u8> {
        le32(self.progress_bits) + le16i(self.state) + le16i(self.modifiers.0) + le16i(
            self.modifiers.1,
        ) + le16i(self.modifiers.2) + le16i(self.time_modifier) + self.extra@
    }

    /// Decode one research state from the reader's position.
    pub fn read_from(input: &mut Reader, ctx: &HeaderContext) -> (res: Result<
        TechState,
        DecodeError,
    >)
        ensures
            final(input).bytes() == old(input).bytes(),
            final(input).pos() >= old(input).pos(),
            old(input).can_read(spec_tech_state_len(ctx.spec_at_least_definitive())) ==> (
            res matches Ok(v) && spec_tech_state_matches(
                v,
                old(input).bytes(),
                old(input).pos(),
                ctx.spec_at_least_definitive(),
            ) && final(input).pos() == old(input).pos() + spec_tech_state_len(
                ctx.spec_at_least_definitive(),
            )),
            !old(input).can_read(spec_tech_state_len(ctx.spec_at_least_definitive())) ==> (
            res matches Err(DecodeError::UnexpectedEnd { position }) && position >= old(
                input,
            ).pos()),
    {
        let progress_bits = input.read_f32_bits()?;
        let state = input.read_i16()?;
        let modifiers = (input.read_i16()?, input.read_i16()?, input.read_i16()?);
        let time_modifier = input.read_i16()?;
        let extra = if ctx.variant.at_least(&crate::context::GameVariant::DefinitiveEdition) {
            input.read_bytes(TECH_STATE_EXTRA_BYTES)?
        } else {
            Vec::new()
        };
        Ok(TechState { progress_bits, state, modifiers, time_modifier, extra })
    }

    /// Encode this research state onto the writer.
    pub fn write_to(&self, output: &mut Writer)
        ensures
            final(output).bytes() == old(output).bytes() + self.spec_encode(),
    {
        output.write_f32_bits(self.progress_bits);
        output.write_i16(self.state);
        output.write_i16(self.modifiers.0);
        output.write_i16(self.modifiers.1);
        output.write_i16(self.modifiers.2);
        output.write_i16(self.time_modifier);
        output.write_bytes(&self.extra);
        proof {
            assert(output.bytes() =~= old(output).bytes() + self.spec_encode());
        }
    }
}

/// A research state that matches the wire re-encodes to exactly the bytes it
/// was read from.
pub proof fn lemma_tech_state_encode_decode(v: TechState, b: Seq<u8>, p: int, de: bool)
    requires
        0 <= p,
        p + spec_tech_state_len(de) <= b.len(),
        spec_tech_state_matches(v, b, p, de),
    ensures
        v.spec_encode() == b.subrange(p, p + spec_tech_state_len(de)),
{
    crate::bytes::lemma_reencode_u32(b, p);
    crate::bytes::lemma_reencode_i16(b, p + 4);
    crate::bytes::lemma_reencode_i16(b, p + 6);
    crate::bytes::lemma_reencode_i16(b, p + 8);
    crate::bytes::lemma_reencode_i16(b, p + 10);
    crate::bytes::lemma_reencode_i16(b, p + 12);
    assert(v.spec_encode() =~= b.subrange(p, p + spec_tech_state_len(de)));
}

/// Decoding a research state's encoding gives back the state.
pub proof fn lemma_tech_state_decode_encode(v: TechState, b: Seq<u8>, p: int, de: bool)
    requires
        0 <= p,
        v.extra@.len() == if de {
            TECH_STATE_EXTRA_BYTES as int
        } else {
            0
        },
        p + spec_tech_state_len(de) <= b.len(),
        b.subrange(p, p + spec_tech_state_len(de)) == v.spec_encode(),
    ensures
        u32_at(b, p) == v.progress_bits,
        i16_at(b, p + 4) == v.state,
        i16_at(b, p + 6) == v.modifiers.0,
        i16_at(b, p + 8) == v.modifiers.1,
        i16_at(b, p + 10) == v.modifiers.2,
        i16_at(b, p + 12) == v.time_modifier,
        de ==> b.subrange(p + 14, p + 29) == v.extra@,
{
    let e = v.spec_encode();
    assert forall|j: int| 0 <= j < spec_tech_state_len(de) implies b[p + j] == e[j] by {
        assert(e[j] == b.subrange(p, p + spec_tech_state_len(de))[j]);
    }
    crate::bytes::lemma_field_le32(v.progress_bits, e, 0, b, p);
    crate::bytes::lemma_field_le16i(v.state, e, 4, b, p);
    crate::bytes::lemma_field_le16i(v.modifiers.0, e, 6, b, p);
    crate::bytes::lemma_field_le16i(v.modifiers.1, e, 8, b, p);
    crate::bytes::lemma_field_le16i(v.modifiers.2, e, 10, b, p);
    crate::bytes::lemma_field_le16i(v.time_modifier, e, 12, b, p);
    if de {
        assert forall|k: int| 0 <= k < 15 implies b[p + 14 + k] == v.extra@[k] by {
            assert(b[p + (14 + k)] == e[14 + k]);
        }
        assert(b.subrange(p + 14, p + 29) =~= v.extra@);
    }
}

/// The per-player table of research states.
#[derive(Debug, PartialEq, Eq)]
pub struct PlayerTech {
    pub tech_states: Vec<TechState>,
}

impl PlayerTech {
    /// Decode the research table: a 16-bit count, then that many research
    /// states.
    #[verifier::loop_isolation(false)]
    pub fn read_from(input: &mut Reader, ctx: &HeaderContext) -> (res: Result<
        PlayerTech,
        DecodeError,
    >)
        ensures
            final(input).bytes() == old(input).bytes(),
            final(input).pos() >= old(input).pos(),
            old(input).can_read(
                2 + u16_at(old(input).bytes(), old(input).pos()) * spec_tech_state_len(
                    ctx.spec_at_least_definitive(),
                ),
            ) ==> (res matches Ok(v) && {
                let b = old(input).bytes();
                let q = old(input).pos();
                let n = u16_at(b, q) as int;
                let sz = spec_tech_state_len(ctx.spec_at_least_definitive());
                &&& v.tech_states@.len() == n
                &&& forall|i: int|
                    0 <= i < n ==> spec_tech_state_matches(
                        #[trigger] v.tech_states@[i],
                        b,
                        q + 2 + sz * i,
                        ctx.spec_at_least_definitive(),
                    )
                &&& final(input).pos() == q + 2 + n * sz
            }),
            !old(input).can_read(
                2 + u16_at(old(input).bytes(), old(input).pos()) * spec_tech_state_len(
                    ctx.spec_at_least_definitive(),
                ),
            ) ==> (res matches Err(DecodeError::UnexpectedEnd { position }) && position >= old(
                input,
            ).pos()),
    {
        let ghost q = input.pos();
        let num_techs = input.read_u16()?;
        let n = num_techs as usize;
        let ghost sz = spec_tech_state_len(ctx.spec_at_least_definitive());
        let mut tech_states: Vec<TechState> = Vec::new();
        while tech_states.len() < n
            invariant
                tech_states@.len() <= n,
                input.bytes() == old(input).bytes(),
                input.pos() == q + 2 + sz * tech_states@.len(),
                input.pos() <= input.bytes().len(),
                forall|i: int|
                    0 <= i < tech_states@.len() ==> spec_tech_state_matches(
                        #[trigger] tech_states@[i],
                        old(input).bytes(),
                        q + 2 + sz * i,
                        ctx.spec_at_least_definitive(),
                    ),
            decreases n - tech_states@.len(),
        {
            proof {
                let i = tech_states@.len() as int;
                let total = n as int;
                assert(sz * i + sz <= sz * total && sz * (i + 1) == sz * i + sz)
                    by (nonlinear_arith)
                    requires
                        i < total,
                        sz >= 0,
                ;
            }
            let state = match TechState::read_from(input, ctx) {
                Ok(s) => s,
                Err(e) => {
                    return Err(e);
                },
            };
            tech_states.push(state);
        }
        proof {
            assert(sz * (n as int) == (n as int) * sz) by (nonlinear_arith);
        }
        Ok(PlayerTech { tech_states })
    }
}

} // verus!
