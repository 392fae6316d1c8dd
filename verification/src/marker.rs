//! Sentinel discipline. From format version 10.55 on, sentinel bytes (11, 22
//! or 33) are interleaved between sub-structures.
//!
//! The strict check reads one byte and fails on disagreement; for the error
//! report it scans ahead to the next occurrence of the expected sentinel and
//! records the skip distance. The resynchronising scan of the definitive
//! edition skips a version-dependent distance and then consumes bytes until
//! two consecutive `11` bytes are read; the number of extra bytes consumed is
//! reported as a diagnostic, and only an excessive scan or the end of the
//! stream aborts the decode.

use vstd::prelude::*;

use crate::context::{VERSION_DE_SKIP_1, VERSION_DE_SKIP_4, VERSION_DE_SKIP_5, VERSION_DE_SKIP_8};
use crate::error::DecodeError;
use crate::reader::Reader;

verus! {

broadcast use crate::reader::lemma_reader_bounds;

/// Base pre-skip of the definitive-edition resynchronisation. The distances
/// are empirical: the upstream format is not publicly documented.
pub const RESYNC_PRE_SKIP_BASE: usize = 32435;

/// Policy threshold on how many bytes the resynchronising scan may consume
/// before the marker pair; beyond it the decode is abandoned.
pub const RESYNC_SKIP_LIMIT: u32 = 1024 * 1024;

/// The first offset at or after `from` where `b` holds `v`, or `b.len()` if
/// there is none.
pub open spec fn first_at(b: Seq<u8>, from: int, v: u8) -> int
    decreases b.len() - from when 0 <= from <= b.len()
{
    if from >= b.len() {
        b.len() as int
    } else if b[from] == v {
        from
    } else {
        first_at(b, from + 1, v)
    }
}

/// `first_at` returns `m` when `v` first occurs at `m`.
pub proof fn lemma_first_at_found(b: Seq<u8>, from: int, m: int, v: u8)
    requires
        0 <= from <= m,
        m < b.len(),
        b[m] == v,
        forall|j: int| from <= j < m ==> b[j] != v,
    ensures
        first_at(b, from, v) == m,
    decreases m - from,
{
    if from < m {
        lemma_first_at_found(b, from + 1, m, v);
    }
}

/// `first_at` returns the length when `v` does not occur at or after `from`.
pub proof fn lemma_first_at_none(b: Seq<u8>, from: int, v: u8)
    requires
        0 <= from <= b.len(),
        forall|j: int| from <= j < b.len() ==> b[j] != v,
    ensures
        first_at(b, from, v) == b.len(),
    decreases b.len() - from,
{
    if from < b.len() {
        lemma_first_at_none(b, from + 1, v);
    }
}

/// The first offset `m` at or after `from` with `b[m] == v && b[m + 1] == v`,
/// or `b.len()` if there is no such adjacent pair.
pub open spec fn first_pair_at(b: Seq<u8>, from: int, v: u8) -> int
    decreases b.len() - from when 0 <= from <= b.len()
{
    if from + 2 > b.len() {
        b.len() as int
    } else if b[from] == v && b[from + 1] == v {
        from
    } else {
        first_pair_at(b, from + 1, v)
    }
}

/// `first_pair_at` returns `m` when the first adjacent pair starts at `m`.
pub proof fn lemma_first_pair_at_found(b: Seq<u8>, from: int, m: int, v: u8)
    requires
        0 <= from <= m,
        m + 2 <= b.len(),
        b[m] == v,
        b[m + 1] == v,
        forall|j: int| from <= j < m ==> !(#[trigger] b[j] == v && b[j + 1] == v),
    ensures
        first_pair_at(b, from, v) == m,
    decreases m - from,
{
    if from < m {
        lemma_first_pair_at_found(b, from + 1, m, v);
    }
}

/// `first_pair_at` returns the length when no adjacent pair starts at or
/// after `from`.
pub proof fn lemma_first_pair_at_none(b: Seq<u8>, from: int, v: u8)
    requires
        0 <= from <= b.len(),
        forall|j: int| from <= j && j + 2 <= b.len() ==> !(#[trigger] b[j] == v && b[j + 1] == v),
    ensures
        first_pair_at(b, from, v) == b.len(),
    decreases b.len() - from,
{
    if from + 2 <= b.len() {
        lemma_first_pair_at_none(b, from + 1, v);
    }
}

/// Strict sentinel check: read one byte and demand `expected`.
///
/// On a mismatch the error reports the offset of the offending byte, the byte
/// found, and the distance to the next occurrence of the expected sentinel
/// (counting the offending byte itself); the reader is left after that
/// occurrence, but the decode has failed either way. If the stream ends
/// before the field or before the next occurrence, the failure is
/// [`DecodeError::UnexpectedEnd`].
pub fn expect_marker(input: &mut Reader, version: u32, expected: u8) -> (res: Result<
    (),
    DecodeError,
>)
    ensures
        final(input).bytes() == old(input).bytes(),
        final(input).pos() >= old(input).pos(),
        !old(input).can_read(1) ==> (res matches Err(DecodeError::UnexpectedEnd { position })
            && position == old(input).pos()),
        old(input).can_read(1) && old(input).bytes()[old(input).pos()] == expected ==> res is Ok
            && final(input).pos() == old(input).pos() + 1,
        old(input).can_read(1) && old(input).bytes()[old(input).pos()] != expected && first_at(
            old(input).bytes(),
            old(input).pos() + 1,
            expected,
        ) < old(input).bytes().len() ==> (res matches Err(
            DecodeError::MissingMarker { version: v2, expected: e2, found, position, skipped },
        ) && v2 == version && e2 == expected && found == old(input).bytes()[old(input).pos()]
            && position == old(input).pos() && skipped == first_at(
            old(input).bytes(),
            old(input).pos() + 1,
            expected,
        ) - old(input).pos()),
        old(input).can_read(1) && old(input).bytes()[old(input).pos()] != expected && first_at(
            old(input).bytes(),
            old(input).pos() + 1,
            expected,
        ) >= old(input).bytes().len() ==> (res matches Err(DecodeError::UnexpectedEnd { position })
            && position == old(input).bytes().len()),
{
    let start = input.position();
    let found = input.read_u8()?;
    if found == expected {
        return Ok(());
    }
    let mut skipped: usize = 1;
    loop
        invariant_except_break
            input.bytes() == old(input).bytes(),
            start == old(input).pos(),
            old(input).can_read(1),
            found == old(input).bytes()[old(input).pos()],
            found != expected,
            input.pos() == old(input).pos() + skipped,
            input.pos() <= input.bytes().len(),
            1 <= skipped,
            forall|j: int|
                old(input).pos() + 1 <= j < input.pos() ==> input.bytes()[j] != expected,
        ensures
            input.bytes() == old(input).bytes(),
            start == old(input).pos(),
            old(input).can_read(1),
            found == old(input).bytes()[old(input).pos()],
            found != expected,
            input.pos() >= old(input).pos() + 2,
            input.pos() <= input.bytes().len(),
            input.bytes()[input.pos() - 1] == expected,
            forall|j: int|
                old(input).pos() + 1 <= j < input.pos() - 1 ==> input.bytes()[j] != expected,
            skipped == input.pos() - 1 - old(input).pos(),
        decreases input.bytes().len() - input.pos(),
    {
        let next = match input.read_u8() {
            Ok(x) => x,
            Err(e) => {
                proof {
                    lemma_first_at_none(input.bytes(), old(input).pos() + 1, expected);
                }
                return Err(e);
            },
        };
        if next == expected {
            break;
        }
        skipped = skipped + 1;
    }
    proof {
        lemma_first_at_found(
            input.bytes(),
            old(input).pos() + 1,
            input.pos() - 1,
            expected,
        );
    }
    Err(DecodeError::MissingMarker { version, expected, found, position: start, skipped })
}

/// The version-dependent distance the definitive-edition resynchronisation
/// skips before scanning for the marker pair.
pub open spec fn spec_pre_skip(version: u32) -> int {
    RESYNC_PRE_SKIP_BASE + (
    if version >= VERSION_DE_SKIP_8 {
        8int
    } else {
        0int
    }) + (
    if version >= VERSION_DE_SKIP_1 {
        1int
    } else {
        0int
    }) + (
    if version >= VERSION_DE_SKIP_5 {
        5int
    } else {
        0int
    }) + (
    if version >= VERSION_DE_SKIP_4 {
        4int
    } else {
        0int
    })
}

/// Resynchronise onto the next pair of adjacent `11` bytes, after the
/// version-dependent pre-skip. Returns how many bytes the scan consumed
/// before the pair; a scan beyond [`RESYNC_SKIP_LIMIT`] or past the end of
/// the stream fails.
pub fn resync_to_double_marker(input: &mut Reader, version: u32) -> (res: Result<u32, DecodeError>)
    ensures
        final(input).bytes() == old(input).bytes(),
        final(input).pos() >= old(input).pos(),
        res matches Ok(k) ==> {
            let b = old(input).bytes();
            let s = old(input).pos() + spec_pre_skip(version);
            let m = first_pair_at(b, s, 11);
            &&& m + 2 <= b.len()
            &&& k == m - s
            &&& k <= RESYNC_SKIP_LIMIT
            &&& final(input).pos() == m + 2
        },
        res is Err ==> !({
            let b = old(input).bytes();
            let s = old(input).pos() + spec_pre_skip(version);
            let m = first_pair_at(b, s, 11);
            &&& old(input).can_read(spec_pre_skip(version))
            &&& m + 2 <= b.len()
            &&& m - s <= RESYNC_SKIP_LIMIT
        }),
        res is Err ==> (res matches Err(e) && (e is UnexpectedEnd || e is InvalidLength)),
{
    let mut pre: usize = RESYNC_PRE_SKIP_BASE;
    if version >= VERSION_DE_SKIP_8 {
        pre = pre + 8;
    }
    if version >= VERSION_DE_SKIP_1 {
        pre = pre + 1;
    }
    if version >= VERSION_DE_SKIP_5 {
        pre = pre + 5;
    }
    if version >= VERSION_DE_SKIP_4 {
        pre = pre + 4;
    }
    input.skip(pre)?;
    let ghost scan_start = input.pos();
    let mut prev_marker = false;
    let mut scanned: u32 = 0;
    loop
        invariant_except_break
            input.bytes() == old(input).bytes(),
            scan_start == old(input).pos() + spec_pre_skip(version),
            old(input).can_read(spec_pre_skip(version)),
            input.pos() == scan_start + scanned,
            input.pos() <= input.bytes().len(),
            scanned <= RESYNC_SKIP_LIMIT + 2,
            prev_marker == (scanned >= 1 && input.bytes()[input.pos() - 1] == 11),
            forall|j: int|
                scan_start <= j && j + 2 <= input.pos() ==> !(#[trigger] input.bytes()[j] == 11
                    && input.bytes()[j + 1] == 11),
        ensures
            input.bytes() == old(input).bytes(),
            scan_start == old(input).pos() + spec_pre_skip(version),
            old(input).can_read(spec_pre_skip(version)),
            input.pos() == scan_start + scanned,
            input.pos() <= input.bytes().len(),
            scanned <= RESYNC_SKIP_LIMIT + 2,
            2 <= scanned,
            input.bytes()[input.pos() - 2] == 11,
            input.bytes()[input.pos() - 1] == 11,
            forall|j: int|
                scan_start <= j && j + 2 <= input.pos() - 1 ==> !(#[trigger] input.bytes()[j] == 11
                    && input.bytes()[j + 1] == 11),
        decreases input.bytes().len() - input.pos(),
    {
        if scanned >= RESYNC_SKIP_LIMIT + 2 {
            proof {
                if first_pair_at(input.bytes(), scan_start, 11) + 2 <= input.bytes().len() {
                    lemma_first_pair_at_bound(input.bytes(), scan_start, input.pos() - 1, 11);
                }
            }
            return Err(
                DecodeError::InvalidLength { position: input.position(), length: scanned as u64 },
            );
        }
        let next = match input.read_u8() {
            Ok(x) => x,
            Err(e) => {
                proof {
                    lemma_first_pair_at_none_tail(input.bytes(), scan_start, 11);
                }
                return Err(e);
            },
        };
        scanned = scanned + 1;
        if prev_marker && next == 11 {
            break;
        }
        prev_marker = next == 11;
    }
    proof {
        lemma_first_pair_at_found(input.bytes(), scan_start, input.pos() - 2, 11);
    }
    Ok(scanned - 2)
}

/// `first_pair_at` stays between `from` and the length.
proof fn lemma_first_pair_at_range(b: Seq<u8>, from: int, v: u8)
    requires
        0 <= from <= b.len(),
    ensures
        from <= first_pair_at(b, from, v) <= b.len(),
    decreases b.len() - from,
{
    if from + 2 <= b.len() && !(b[from] == v && b[from + 1] == v) {
        lemma_first_pair_at_range(b, from + 1, v);
    }
}

/// If no adjacent pair starts before `m`, the first pair does not start
/// before `m`.
proof fn lemma_first_pair_at_bound(b: Seq<u8>, from: int, m: int, v: u8)
    requires
        0 <= from <= m <= b.len(),
        forall|j: int| from <= j < m ==> !(#[trigger] b[j] == v && b[j + 1] == v),
    ensures
        first_pair_at(b, from, v) >= m || first_pair_at(b, from, v) == b.len(),
    decreases m - from,
{
    if from == m {
        lemma_first_pair_at_range(b, from, v);
    } else if from + 2 > b.len() {
    } else {
        assert(!(b[from] == v && b[from + 1] == v));
        lemma_first_pair_at_bound(b, from + 1, m, v);
    }
}

/// At the end of the stream with no pair seen, there is no pair at all.
proof fn lemma_first_pair_at_none_tail(b: Seq<u8>, from: int, v: u8)
    requires
        0 <= from <= b.len(),
        forall|j: int| from <= j && j + 2 <= b.len() ==> !(#[trigger] b[j] == v && b[j + 1] == v),
    ensures
        first_pair_at(b, from, v) == b.len(),
{
    lemma_first_pair_at_none(b, from, v);
}

} // verus!
