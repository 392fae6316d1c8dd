//! Tests of the primitive stream, the optional-id encoding and the sentinel
//! discipline.

use genie_rec::error::DecodeError;
use genie_rec::marker::{expect_marker, resync_to_double_marker};
use genie_rec::reader::{Reader, Writer};

#[test]
fn primitive_readers_little_endian() {
    let mut r = Reader::new(vec![0x01, 0x02, 0x03, 0x04, 0xFF, 0xFF, 0x80]);
    assert_eq!(r.read_u16().unwrap(), 0x0201);
    assert_eq!(r.read_u32().unwrap(), 0xFFFF_0403);
    assert_eq!(r.read_i8().unwrap(), -128);
    assert!(matches!(
        r.read_u8().unwrap_err(),
        DecodeError::UnexpectedEnd { position: 7 }
    ));
}

#[test]
fn primitive_writers_little_endian() {
    let mut w = Writer::new();
    w.write_u16(0x0201);
    w.write_i32(-1);
    w.write_u8(0x7F);
    assert_eq!(w.into_vec(), vec![0x01, 0x02, 0xFF, 0xFF, 0xFF, 0xFF, 0x7F]);
}

#[test]
fn signed_readers_two_complement() {
    let mut r = Reader::new(vec![0xFE, 0xFF, 0xFF, 0xFF, 0x00, 0x80]);
    assert_eq!(r.read_i32().unwrap(), -2);
    assert_eq!(r.read_i16().unwrap(), i16::MIN);
}

#[test]
fn optional_id_sentinel_decodes_to_absent() {
    let mut r = Reader::new(vec![0xFF, 0xFF, 0xFF, 0xFF, 0x07, 0x00, 0x00, 0x00]);
    assert_eq!(r.read_opt_u32().unwrap(), None);
    assert_eq!(r.read_opt_u32().unwrap(), Some(7));
}

#[test]
fn optional_id_secondary_sentinel_decodes_to_absent() {
    let mut r = Reader::new(vec![0xFE, 0xFF, 0xFF, 0xFF]);
    assert_eq!(r.read_opt_u32().unwrap(), None);
}

#[test]
fn optional_id_absent_encodes_to_sentinel() {
    let mut w = Writer::new();
    w.write_opt_u32(None);
    w.write_opt_u32(Some(7));
    assert_eq!(w.into_vec(), vec![0xFF, 0xFF, 0xFF, 0xFF, 0x07, 0x00, 0x00, 0x00]);
}

#[test]
fn strict_marker_accepts_expected_byte() {
    let mut r = Reader::new(vec![11, 99]);
    assert!(expect_marker(&mut r, 1162, 11).is_ok());
    assert_eq!(r.position(), 1);
}

#[test]
fn corrupted_marker_reports_offset_and_skip() {
    // The expected sentinel is two bytes further on; the check must fail at
    // the offending byte and report the distance.
    let mut r = Reader::new(vec![0x00, 0x55, 0x66, 11, 0x77]);
    r.read_u8().unwrap();
    let err = expect_marker(&mut r, 1162, 11).unwrap_err();
    match err {
        DecodeError::MissingMarker {
            version,
            expected,
            found,
            position,
            skipped,
        } => {
            assert_eq!(version, 1162);
            assert_eq!(expected, 11);
            assert_eq!(found, 0x55);
            assert_eq!(position, 1);
            assert_eq!(skipped, 2);
        }
        other => panic!("expected a missing-marker failure, got {:?}", other),
    }
}

#[test]
fn stripped_marker_without_recovery_is_unexpected_end() {
    let mut r = Reader::new(vec![0x55, 0x66]);
    let err = expect_marker(&mut r, 1162, 11).unwrap_err();
    assert!(matches!(err, DecodeError::UnexpectedEnd { position: 2 }));
}

fn resync_fixture(version: u32, garbage: &[u8]) -> Vec<u8> {
    let mut pre = 32435usize;
    if version >= 1300 {
        pre += 8;
    }
    if version >= 1307 {
        pre += 1;
    }
    if version >= 1313 {
        pre += 5;
    }
    if version >= 1334 {
        pre += 4;
    }
    let mut bytes = vec![0u8; pre];
    bytes.extend_from_slice(garbage);
    bytes.push(11);
    bytes.push(11);
    bytes.push(0xAA); // a byte after the pair, untouched by the scan
    bytes
}

#[test]
fn resync_skips_version_dependent_distance() {
    // 32435 + 8 + 1 + 5 + 4 bytes are skipped before the scan at this
    // version.
    let bytes = resync_fixture(1334, &[]);
    let mut r = Reader::new(bytes);
    let skipped = resync_to_double_marker(&mut r, 1334).unwrap();
    assert_eq!(skipped, 0);
    assert_eq!(r.position(), 32435 + 8 + 1 + 5 + 4 + 2);
}

#[test]
fn resync_reports_bytes_scanned_before_pair() {
    let bytes = resync_fixture(1334, &[0x01, 0x02, 0x03, 0x04, 0x05]);
    let mut r = Reader::new(bytes);
    let skipped = resync_to_double_marker(&mut r, 1334).unwrap();
    assert_eq!(skipped, 5);
}

#[test]
fn resync_is_not_fooled_by_lone_marker_bytes() {
    // A single 11 followed by something else is not the pair.
    let bytes = resync_fixture(1300, &[11, 0x00, 0x07]);
    let mut r = Reader::new(bytes);
    let skipped = resync_to_double_marker(&mut r, 1300).unwrap();
    assert_eq!(skipped, 3);
}

#[test]
fn resync_at_end_of_stream_fails() {
    let mut bytes = resync_fixture(1300, &[]);
    bytes.truncate(bytes.len() - 3); // strip the pair and the trailing byte
    bytes.extend_from_slice(&[0x01, 0x02]); // no pair anywhere
    let mut r = Reader::new(bytes);
    let err = resync_to_double_marker(&mut r, 1300).unwrap_err();
    assert!(matches!(err, DecodeError::UnexpectedEnd { .. }));
}
