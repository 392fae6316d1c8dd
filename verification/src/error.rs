//! Error and diagnostic kinds of the codec.
//!
//! The codec returns the first failure it meets; no partial decode is ever
//! handed back. Each error carries the byte offset (from the start of the
//! block handed to the reader) at which it was noticed, so that callers can
//! locate corruption without re-reading.

use vstd::prelude::*;

verus! {

/// Cap on the bytes any one decoded field may ask to allocate. Decoded length
/// fields are untrusted; a count whose contents would exceed this cap is
/// rejected as [`DecodeError::InvalidLength`].
pub const MAX_FIELD_BYTES: u32 = 16 * 1024 * 1024;

/// The peer codec that was being run when a delegate failure happened.
#[derive(Clone, Copy, Debug, PartialEq, Eq, Structural)]
pub enum PeerComponent {
    /// A compact unit-type record.
    UnitType,
    /// The technology-tree catalogue.
    TechTree,
    /// A computer-player state record.
    PlayerAi,
    /// A unit record inside one of the three unit lists.
    Unit,
    /// The victory-conditions record.
    Victory,
}

/// Why a decode failed.
#[derive(Debug)]
pub enum DecodeError {
    /// The source ran out before a field was satisfied.
    UnexpectedEnd {
        /// Offset of the first byte that could not be supplied.
        position: usize,
    },
    /// A strict sentinel check failed.
    MissingMarker {
        /// Format version (in hundredths) under which the check ran.
        version: u32,
        /// The sentinel value that the format places here.
        expected: u8,
        /// The byte that was actually read.
        found: u8,
        /// Offset of the offending byte.
        position: usize,
        /// Distance from the offending byte to the next occurrence of the
        /// expected sentinel, counting the offending byte itself.
        skipped: usize,
    },
    /// A decoded length would overflow the platform size type or exceeds the
    /// configured cap.
    InvalidLength {
        /// Offset at which the length was read.
        position: usize,
        /// The offending length.
        length: u64,
    },
    /// A peer codec failed; its own report is preserved.
    DelegateFailed {
        /// Which peer was running.
        component: PeerComponent,
        /// Offset at which the peer was entered.
        position: usize,
        /// The peer's own description of the failure.
        message: String,
    },
}

/// A non-fatal observation surfaced beside a successful decode.
///
/// The resynchronising marker scan of the definitive edition may consume
/// bytes before it finds the expected marker pair; the count is reported here
/// rather than aborting the decode.
#[derive(Clone, Copy, Debug, PartialEq, Eq, Structural)]
pub struct DesyncRecovered {
    /// How many bytes the scan consumed before the marker pair.
    pub skipped: u32,
}

} // verus!
