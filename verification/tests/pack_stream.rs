//! End-to-end tests of the pack stream decoder on synthetically built
//! streams: preamble parsing, entry iteration, offset bookkeeping, checksum
//! gating, and sticky failure.

use gitpack::error::Error;
use gitpack::header::Header;
use gitpack::iter::Iter;
use gitpack::parse;
use gitpack::parse::{FormatError, Kind};
use gitpack::source::ByteSource;

fn preamble(version: u32, count: u32) -> Vec<u8> {
    let mut v = vec![0x50u8, 0x41, 0x43, 0x4b];
    v.extend_from_slice(&version.to_be_bytes());
    v.extend_from_slice(&count.to_be_bytes());
    v
}

/// One undeltified entry: header bytes followed by the zlib payload.
fn entry_bytes(header: &Header, payload: &[u8]) -> (Vec<u8>, usize, usize) {
    let head = header.write_to(payload.len() as u64);
    let compressed = miniz_oxide::deflate::compress_to_vec_zlib(payload, 6);
    let header_len = head.len();
    let compressed_len = compressed.len();
    let mut v = head;
    v.extend_from_slice(&compressed);
    (v, header_len, compressed_len)
}

fn stream_of(payloads: &[&[u8]]) -> Vec<u8> {
    let mut v = preamble(2, payloads.len() as u32);
    for p in payloads {
        let (e, _, _) = entry_bytes(&Header::Blob, p);
        v.extend_from_slice(&e);
    }
    // trailing whole-stream checksum: 20 bytes (content irrelevant here)
    v.extend_from_slice(&[0xabu8; 20]);
    v
}

#[test]
fn parse_header_valid_preamble_roundtrip() {
    let data = preamble(2, 0x0102_0304);
    let (kind, count) = parse::header(&data).expect("valid preamble");
    assert_eq!(kind, Kind::V2);
    assert_eq!(count, 0x0102_0304);
}

#[test]
fn zero_entry_stream_is_exhausted_at_once() {
    let mut data = preamble(2, 0);
    let trailer: Vec<u8> = (40u8..60).collect();
    data.extend_from_slice(&trailer);
    let mut it = Iter::new_from_header(ByteSource::new(data), false).expect("valid stream");
    assert_eq!(it.declared_remaining(), 0);
    assert_eq!(it.try_checksum(), Some(trailer));
    assert!(it.pull_next().is_none());
}

#[test]
fn parse_header_zero_entries() {
    let (kind, count) = parse::header(&preamble(2, 0)).expect("valid preamble");
    assert_eq!(kind, Kind::V2);
    assert_eq!(count, 0);
}

#[test]
fn parse_header_rejects_other_versions() {
    assert_eq!(
        parse::header(&preamble(3, 7)),
        Err(FormatError::UnsupportedVersion(3))
    );
    assert_eq!(
        parse::header(&preamble(1, 7)),
        Err(FormatError::UnsupportedVersion(1))
    );
    assert_eq!(
        parse::header(&preamble(0xffff_ffff, 7)),
        Err(FormatError::UnsupportedVersion(0xffff_ffff))
    );
}

#[test]
fn parse_header_rejects_bad_magic() {
    let mut data = preamble(2, 1);
    data[0] = b'Q';
    assert_eq!(parse::header(&data), Err(FormatError::BadMagic));
}

#[test]
fn construction_rejects_unsupported_version() {
    let mut data = preamble(3, 1);
    data.extend_from_slice(&[0u8; 40]);
    match Iter::new_from_header(ByteSource::new(data), false) {
        Err(Error::Format(FormatError::UnsupportedVersion(3))) => {}
        other => panic!("expected unsupported-version error, got {:?}", other.is_ok()),
    }
}

#[test]
fn construction_rejects_short_preamble() {
    let data = vec![0x50u8, 0x41, 0x43, 0x4b, 0, 0];
    match Iter::new_from_header(ByteSource::new(data), false) {
        Err(Error::Truncated) => {}
        other => panic!("expected truncation, got {:?}", other.is_ok()),
    }
}

#[test]
fn offsets_are_contiguous() {
    let payloads: [&[u8]; 3] = [b"hello, pack", b"", b"a longer payload that still deflates fine"];
    let data = stream_of(&payloads);
    let mut it = Iter::new_from_header(ByteSource::new(data), false).expect("valid stream");
    assert_eq!(it.kind(), Kind::V2);
    assert_eq!(it.declared_remaining(), 3);

    let mut expected_offset = 12u64;
    for payload in payloads.iter() {
        let entry = it.pull_next().expect("entry available").expect("entry decodes");
        assert_eq!(entry.pack_offset, expected_offset);
        assert_eq!(entry.decompressed, payload.to_vec());
        expected_offset = entry.pack_offset + entry.header_size as u64 + entry.compressed.len() as u64;
    }
    assert!(it.pull_next().is_none());
}

#[test]
fn sizes_match_declared_and_consumed() {
    let payload = b"size fidelity payload: the declared size must match exactly";
    let (ebytes, header_len, compressed_len) = entry_bytes(&Header::Blob, payload);
    let mut data = preamble(2, 1);
    data.extend_from_slice(&ebytes);
    data.extend_from_slice(&[0u8; 20]);

    let mut it = Iter::new_from_header(ByteSource::new(data.clone()), false).expect("valid stream");
    let entry = it.pull_next().unwrap().expect("entry decodes");
    assert_eq!(entry.header, Header::Blob);
    assert_eq!(entry.header_size as usize, header_len);
    assert_eq!(entry.decompressed.len(), payload.len());
    assert_eq!(entry.decompressed, payload.to_vec());
    // the captured compressed bytes are exactly the zlib chunk in the stream
    assert_eq!(entry.compressed.len(), compressed_len);
    assert_eq!(
        entry.compressed,
        data[12 + header_len..12 + header_len + compressed_len].to_vec()
    );
}

#[test]
fn checksum_gated_until_exhaustion() {
    let payloads: [&[u8]; 2] = [b"one", b"two"];
    let mut data = preamble(2, 2);
    for p in payloads.iter() {
        let (e, _, _) = entry_bytes(&Header::Blob, p);
        data.extend_from_slice(&e);
    }
    let trailer: Vec<u8> = (0u8..20).collect();
    data.extend_from_slice(&trailer);

    let mut it = Iter::new_from_header(ByteSource::new(data), true).expect("valid stream");
    assert!(it.try_checksum().is_none());
    it.pull_next().unwrap().expect("first entry");
    assert!(it.try_checksum().is_none());
    it.pull_next().unwrap().expect("second entry");
    assert_eq!(it.try_checksum(), Some(trailer.clone()));
    assert_eq!(it.checksum(), trailer);
    assert!(it.pull_next().is_none());
}

#[test]
fn errors_are_sticky() {
    let (good, _, _) = entry_bytes(&Header::Blob, b"fine");
    let mut data = preamble(2, 3);
    data.extend_from_slice(&good);
    // second entry: a plausible header followed by garbage instead of zlib data
    let head = Header::Blob.write_to(4);
    data.extend_from_slice(&head);
    data.extend_from_slice(&[0x01, 0x01, 0x01, 0x01]);

    let mut it = Iter::new_from_header(ByteSource::new(data), false).expect("valid stream");
    it.pull_next().unwrap().expect("first entry is fine");
    let second = it.pull_next().expect("an attempt is made");
    assert!(second.is_err());
    assert!(it.pull_next().is_none(), "after one error, only None");
    assert!(it.pull_next().is_none());
    assert!(it.try_checksum().is_none());
}

#[test]
fn declared_count_is_a_budget_of_attempts() {
    // a stream declaring one entry but holding nothing more
    let data = preamble(2, 1);
    let mut it = Iter::new_from_header(ByteSource::new(data), false).expect("header parses");
    assert_eq!(it.declared_remaining(), 1);
    let attempt = it.pull_next().expect("one attempt is owed");
    assert_eq!(attempt, Err(Error::Truncated));
    assert_eq!(it.declared_remaining(), 0, "an erroring pull still consumes one unit");
    assert!(it.pull_next().is_none());
}

#[test]
fn declared_size_mismatch_is_refused() {
    let payload = b"exactly these bytes";
    let compressed = miniz_oxide::deflate::compress_to_vec_zlib(payload, 6);
    let head = Header::Blob.write_to(payload.len() as u64 + 1);
    let mut data = preamble(2, 1);
    data.extend_from_slice(&head);
    data.extend_from_slice(&compressed);
    data.extend_from_slice(&[0u8; 20]);

    let mut it = Iter::new_from_header(ByteSource::new(data), false).expect("valid stream");
    assert_eq!(it.pull_next().unwrap(), Err(Error::SizeMismatch));
    assert!(it.pull_next().is_none());
}

#[test]
fn corrupt_payload_is_refused() {
    let head = Header::Blob.write_to(4);
    let mut data = preamble(2, 1);
    data.extend_from_slice(&head);
    data.extend_from_slice(&[0x01, 0x01, 0x01, 0x01, 0x01, 0x01]);
    data.extend_from_slice(&[0u8; 20]);

    let mut it = Iter::new_from_header(ByteSource::new(data), false).expect("valid stream");
    let r = it.pull_next().unwrap();
    assert!(matches!(r, Err(Error::Inflate) | Err(Error::Truncated)));
    assert!(it.pull_next().is_none());
}

#[test]
fn missing_trailer_leaves_checksum_unavailable() {
    let (e, _, _) = entry_bytes(&Header::Blob, b"only entry");
    let mut data = preamble(2, 1);
    data.extend_from_slice(&e);
    // no trailing checksum bytes at all
    let mut it = Iter::new_from_header(ByteSource::new(data), false).expect("valid stream");
    it.pull_next().unwrap().expect("entry decodes");
    assert!(it.try_checksum().is_none());
    assert!(it.pull_next().is_none());
}

#[test]
fn delta_entries_stream_through() {
    let (first, first_head, first_comp) = entry_bytes(&Header::Blob, b"the base object");
    let second_offset = 12 + first.len() as u64;
    let ofs_header = Header::OffsetDelta { base_distance: second_offset - 12 };
    let (second, _, _) = entry_bytes(&ofs_header, b"delta data against the base");
    let ref_header = Header::RefDelta { base_id: (0u8..20).collect() };
    let (third, _, _) = entry_bytes(&ref_header, b"delta data against an id");

    let mut data = preamble(2, 3);
    data.extend_from_slice(&first);
    data.extend_from_slice(&second);
    data.extend_from_slice(&third);
    data.extend_from_slice(&[0x11u8; 20]);

    let mut it = Iter::new_from_header(ByteSource::new(data), false).expect("valid stream");
    let e1 = it.pull_next().unwrap().expect("base entry");
    assert_eq!(e1.header, Header::Blob);
    assert_eq!(e1.pack_offset, 12);
    assert_eq!(e1.header_size as usize, first_head);
    assert_eq!(e1.compressed.len(), first_comp);

    let e2 = it.pull_next().unwrap().expect("offset delta entry");
    assert_eq!(e2.header, ofs_header);
    assert_eq!(e2.pack_offset, second_offset);
    assert_eq!(e2.decompressed, b"delta data against the base".to_vec());

    let e3 = it.pull_next().unwrap().expect("ref delta entry");
    assert_eq!(e3.header, ref_header);
    assert_eq!(
        e3.pack_offset,
        e2.pack_offset + e2.header_size as u64 + e2.compressed.len() as u64
    );
    assert_eq!(it.try_checksum(), Some(vec![0x11u8; 20]));
}
