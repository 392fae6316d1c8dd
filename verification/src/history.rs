//! Population history entries, history events, and the per-player history
//! block that carries them together with a bank of discarded statistics.

use vstd::prelude::*;

use crate::bytes::{bits_of_i8, i8_at, le16, le32, u16_at, u32_at};
use crate::error::DecodeError;
use crate::reader::{Reader, Writer};

verus! {

broadcast use crate::reader::lemma_reader_bounds;

/// Number of bytes in an encoded history entry.
pub const HISTORY_ENTRY_BYTES: usize = 4;

/// Number of bytes in an encoded history event.
pub const HISTORY_EVENT_BYTES: usize = 21;

/// Number of bytes in the discarded statistics bank that closes a history
/// block: seventeen 32-bit statistics, four 8-element kill and razing
/// tables, five trailing statistics and one padding byte.
pub const HISTORY_TAIL_BYTES: usize = 181;

/// One population sample of the match history.
#[derive(Debug, Clone, Copy, PartialEq, Eq, Structural)]
pub struct HistoryEntry {
    pub civilian_population: u16,
    pub military_population: u16,
}

impl HistoryEntry {
    /// The history entry stored at offset `p` of `b`.
    pub open spec fn spec_decode(b: Seq<u8>, p: int) -> HistoryEntry {
        HistoryEntry {
            civilian_population: u16_at(b, p),
            military_population: u16_at(b, p + 2),
        }
    }

    /// The bytes this entry occupies on disk.
    pub open spec fn spec_encode(self) -> Seq<u8> {
        le16(self.civilian_population) + le16(self.military_population)
    }

    /// Decode one history entry from the reader's position.
    pub fn read_from(input: &mut Reader) -> (res: Result<HistoryEntry, DecodeError>)
        ensures
            final(input).bytes() == old(input).bytes(),
            final(input).pos() >= old(input).pos(),
            old(input).can_read(HISTORY_ENTRY_BYTES as int) ==> (res matches Ok(v) && v
                == Self::spec_decode(old(input).bytes(), old(input).pos()) && final(input).pos()
                == old(input).pos() + HISTORY_ENTRY_BYTES),
            !old(input).can_read(HISTORY_ENTRY_BYTES as int) ==> (res matches Err(
                DecodeError::UnexpectedEnd { position },
            ) && position >= old(input).pos()),
    {
        let civilian_population = input.read_u16()?;
        let military_population = input.read_u16()?;
        Ok(HistoryEntry { civilian_population, military_population })
    }

    /// Encode this entry onto the writer.
    pub fn write_to(&self, output: &mut Writer)
        ensures
            final(output).bytes() == old(output).bytes() + self.spec_encode(),
    {
        output.write_u16(self.civilian_population);
        output.write_u16(self.military_population);
        proof {
            assert(output.bytes() =~= old(output).bytes() + self.spec_encode());
        }
    }
}

/// A history entry's encoding decodes to that entry, wherever the encoding
/// stands in a block.
pub proof fn lemma_history_entry_decode_encode(v: HistoryEntry, b: Seq<u8>, p: int)
    requires
        0 <= p,
        p + HISTORY_ENTRY_BYTES <= b.len(),
        b.subrange(p, p + HISTORY_ENTRY_BYTES as int) == v.spec_encode(),
    ensures
        HistoryEntry::spec_decode(b, p) == v,
{
    let e = v.spec_encode();
    assert forall|j: int| 0 <= j < HISTORY_ENTRY_BYTES implies b[p + j] == e[j] by {
        assert(e[j] == b.subrange(p, p + HISTORY_ENTRY_BYTES as int)[j]);
    }
    crate::bytes::lemma_field_le16(v.civilian_population, e, 0, b, p);
    crate::bytes::lemma_field_le16(v.military_population, e, 2, b, p);
}

/// Decoding a history entry and re-encoding it reproduces the bytes read.
pub proof fn lemma_history_entry_encode_decode(b: Seq<u8>, p: int)
    requires
        0 <= p,
        p + HISTORY_ENTRY_BYTES <= b.len(),
    ensures
        HistoryEntry::spec_decode(b, p).spec_encode() == b.subrange(
            p,
            p + HISTORY_ENTRY_BYTES as int,
        ),
{
    crate::bytes::lemma_reencode_u16(b, p);
    crate::bytes::lemma_reencode_u16(b, p + 2);
    assert(HistoryEntry::spec_decode(b, p).spec_encode() =~= b.subrange(
        p,
        p + HISTORY_ENTRY_BYTES as int,
    ));
}

/// One event of the match history.
#[derive(Debug, Clone, Copy, PartialEq, Eq)]
pub struct HistoryEvent {
    pub event_type: i8,
    pub time_slice: u32,
    pub world_time: u32,
    /// The three event parameters, as the raw bits of the on-disk 32-bit
    /// floats.
    pub params: (u32, u32, u32),
}

impl HistoryEvent {
    /// The history event stored at offset `p` of `b`.
    pub open spec fn spec_decode(b: Seq<u8>, p: int) -> HistoryEvent {
        HistoryEvent {
            event_type: i8_at(b, p),
            time_slice: u32_at(b, p + 1),
            world_time: u32_at(b, p + 5),
            params: (u32_at(b, p + 9), u32_at(b, p + 13), u32_at(b, p + 17)),
        }
    }

    /// The bytes this event occupies on disk.
    pub open spec fn spec_encode(self) -> Seq<u8> {
        seq![bits_of_i8(self.event_type)] + le32(self.time_slice) + le32(self.world_time) + le32(
            self.params.0,
        ) + le32(self.params.1) + le32(self.params.2)
    }

    /// Decode one history event from the reader's position.
    pub fn read_from(input: &mut Reader) -> (res: Result<HistoryEvent, DecodeError>)
        ensures
            final(input).bytes() == old(input).bytes(),
            final(input).pos() >= old(input).pos(),
            old(input).can_read(HISTORY_EVENT_BYTES as int) ==> (res matches Ok(v) && v
                == Self::spec_decode(old(input).bytes(), old(input).pos()) && final(input).pos()
                == old(input).pos() + HISTORY_EVENT_BYTES),
            !old(input).can_read(HISTORY_EVENT_BYTES as int) ==> (res matches Err(
                DecodeError::UnexpectedEnd { position },
            ) && position >= old(input).pos()),
    {
        let event_type = input.read_i8()?;
        let time_slice = input.read_u32()?;
        let world_time = input.read_u32()?;
        let params = (input.read_f32_bits()?, input.read_f32_bits()?, input.read_f32_bits()?);
        Ok(HistoryEvent { event_type, time_slice, world_time, params })
    }

    /// Encode this event onto the writer.
    pub fn write_to(&self, output: &mut Writer)
        ensures
            final(output).bytes() == old(output).bytes() + self.spec_encode(),
    {
        output.write_i8(self.event_type);
        output.write_u32(self.time_slice);
        output.write_u32(self.world_time);
        output.write_f32_bits(self.params.0);
        output.write_f32_bits(self.params.1);
        output.write_f32_bits(self.params.2);
        proof {
            assert(output.bytes() =~= old(output).bytes() + self.spec_encode());
        }
    }
}

/// A history event's encoding decodes to that event, wherever the encoding
/// stands in a block.
pub proof fn lemma_history_event_decode_encode(v: HistoryEvent, b: Seq<u8>, p: int)
    requires
        0 <= p,
        p + HISTORY_EVENT_BYTES <= b.len(),
        b.subrange(p, p + HISTORY_EVENT_BYTES as int) == v.spec_encode(),
    ensures
        HistoryEvent::spec_decode(b, p) == v,
{
    let e = v.spec_encode();
    assert forall|j: int| 0 <= j < HISTORY_EVENT_BYTES implies b[p + j] == e[j] by {
        assert(e[j] == b.subrange(p, p + HISTORY_EVENT_BYTES as int)[j]);
    }
    crate::bytes::lemma_field_i8(v.event_type, e, 0, b, p);
    crate::bytes::lemma_field_le32(v.time_slice, e, 1, b, p);
    crate::bytes::lemma_field_le32(v.world_time, e, 5, b, p);
    crate::bytes::lemma_field_le32(v.params.0, e, 9, b, p);
    crate::bytes::lemma_field_le32(v.params.1, e, 13, b, p);
    crate::bytes::lemma_field_le32(v.params.2, e, 17, b, p);
}

/// Decoding a history event and re-encoding it reproduces the bytes read.
#[verifier::rlimit(50)]
pub proof fn lemma_history_event_encode_decode(b: Seq<u8>, p: int)
    requires
        0 <= p,
        p + HISTORY_EVENT_BYTES <= b.len(),
    ensures
        HistoryEvent::spec_decode(b, p).spec_encode() == b.subrange(
            p,
            p + HISTORY_EVENT_BYTES as int,
        ),
{
    crate::bytes::lemma_reencode_i8(b, p);
    crate::bytes::lemma_reencode_u32(b, p + 1);
    crate::bytes::lemma_reencode_u32(b, p + 5);
    crate::bytes::lemma_reencode_u32(b, p + 9);
    crate::bytes::lemma_reencode_u32(b, p + 13);
    crate::bytes::lemma_reencode_u32(b, p + 17);
    assert(HistoryEvent::spec_decode(b, p).spec_encode() =~= b.subrange(
        p,
        p + HISTORY_EVENT_BYTES as int,
    ));
}

/// The per-player history block: entries, events, the discriminator byte
/// that separates them (22 in gaia histories, 0 in player histories; stored,
/// never asserted), and a discarded statistics bank.
#[derive(Debug, PartialEq, Eq)]
pub struct HistoryInfo {
    pub entries: Vec<HistoryEntry>,
    pub events: Vec<HistoryEvent>,
    pub discriminator: u8,
}

/// How many bytes the history block at offset `p` of `b` occupies: a twelve
/// byte header, the entries, the discriminator, the event count, the events
/// and the statistics bank.
pub open spec fn spec_history_total(b: Seq<u8>, p: int) -> int {
    let n_entries = u32_at(b, p) as int;
    let n_events = u32_at(b, p + 13 + 4 * n_entries) as int;
    17 + 4 * n_entries + 21 * n_events + HISTORY_TAIL_BYTES
}

impl HistoryInfo {
    /// Decode the history block from the reader's position. The capacity
    /// field of the header and the statistics bank are consumed and
    /// discarded.
    #[verifier::loop_isolation(false)]
    pub fn read_from(input: &mut Reader) -> (res: Result<HistoryInfo, DecodeError>)
        ensures
            final(input).bytes() == old(input).bytes(),
            final(input).pos() >= old(input).pos(),
            old(input).can_read(4) && old(input).can_read(
                spec_history_total(old(input).bytes(), old(input).pos()),
            ) ==> (res matches Ok(v) && {
                let b = old(input).bytes();
                let q = old(input).pos();
                let n_entries = u32_at(b, q) as int;
                let n_events = u32_at(b, q + 13 + 4 * n_entries) as int;
                &&& v.entries@.len() == n_entries
                &&& forall|i: int|
                    0 <= i < n_entries ==> #[trigger] v.entries@[i] == HistoryEntry::spec_decode(
                        b,
                        q + 12 + 4 * i,
                    )
                &&& v.discriminator == b[q + 12 + 4 * n_entries]
                &&& v.events@.len() == n_events
                &&& forall|i: int|
                    0 <= i < n_events ==> #[trigger] v.events@[i] == HistoryEvent::spec_decode(
                        b,
                        q + 17 + 4 * n_entries + 21 * i,
                    )
                &&& final(input).pos() == q + spec_history_total(b, q)
            }),
            !(old(input).can_read(4) && old(input).can_read(
                spec_history_total(old(input).bytes(), old(input).pos()),
            )) ==> (res matches Err(DecodeError::UnexpectedEnd { position }) && position >= old(
                input,
            ).pos()),
    {
        let ghost q = input.pos();
        let num_entries = input.read_u32()?;
        let _num_events_placeholder: u32 = input.read_u32()?;
        let _entries_capacity: u32 = input.read_u32()?;

        let n_entries = num_entries as usize;
        let mut entries: Vec<HistoryEntry> = Vec::new();
        while entries.len() < n_entries
            invariant
                entries@.len() <= n_entries,
                input.bytes() == old(input).bytes(),
                input.pos() == q + 12 + 4 * entries@.len(),
                input.pos() <= input.bytes().len(),
                forall|i: int|
                    0 <= i < entries@.len() ==> #[trigger] entries@[i]
                        == HistoryEntry::spec_decode(old(input).bytes(), q + 12 + 4 * i),
            decreases n_entries - entries@.len(),
        {
            let entry = HistoryEntry::read_from(input)?;
            entries.push(entry);
        }

        let discriminator = input.read_u8()?;
        let num_events = input.read_u32()?;
        let n_events = num_events as usize;
        let ghost events_base = input.pos();
        let mut events: Vec<HistoryEvent> = Vec::new();
        while events.len() < n_events
            invariant
                events@.len() <= n_events,
                input.bytes() == old(input).bytes(),
                input.pos() == events_base + 21 * events@.len(),
                input.pos() <= input.bytes().len(),
                forall|i: int|
                    0 <= i < events@.len() ==> #[trigger] events@[i] == HistoryEvent::spec_decode(
                        old(input).bytes(),
                        events_base + 21 * i,
                    ),
            decreases n_events - events@.len(),
        {
            let event = HistoryEvent::read_from(input)?;
            events.push(event);
        }

        input.skip(68)?;  // seventeen 32-bit statistics
        input.skip(16)?;  // eight 16-bit old kill counts
        input.skip(32)?;  // eight 32-bit old kill build values
        input.skip(16)?;  // eight 16-bit old razing counts
        input.skip(32)?;  // eight 32-bit old razing build values
        input.skip(16)?;  // five trailing statistics
        input.skip(1)?;  // padding

        Ok(HistoryInfo { entries, events, discriminator })
    }
}

} // verus!
