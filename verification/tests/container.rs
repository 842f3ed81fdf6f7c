//! Tests of the NFA0 container decoder against synthetic containers.

use nfa0::api::RdFormat;
use nfa0::archive::NemeaArchive;

const HEADER_LEN: usize = 16;
const RECORD_LEN: usize = 148;

fn masked_u32(x: u32) -> [u8; 4] {
    (x ^ 0x08080808).to_le_bytes()
}

fn name_field(units: &[u16]) -> [u8; 128] {
    let mut field = [0u8; 128];
    let mut i = 0;
    for u in units {
        let le = u.to_le_bytes();
        field[i] = le[0];
        field[i + 1] = le[1];
        i += 2;
    }
    for b in field.iter_mut() {
        *b ^= 0x08;
    }
    field
}

fn str_units(name: &str) -> Vec<u16> {
    name.encode_utf16().collect()
}

/// Builds a well-formed container: header, one record per entry, then the
/// XOR-masked payloads packed in order right after the index.
fn build_container(entries: &[(&str, &[u8])]) -> Vec<u8> {
    let data_start = HEADER_LEN + RECORD_LEN * entries.len();
    let mut recs: Vec<u8> = Vec::new();
    let mut payloads: Vec<u8> = Vec::new();
    let mut offset = data_start;
    for (name, payload) in entries {
        recs.extend_from_slice(&[0u8; 8]);
        recs.extend_from_slice(&masked_u32(payload.len() as u32));
        recs.extend_from_slice(&masked_u32(offset as u32));
        recs.extend_from_slice(&[0u8; 4]);
        recs.extend_from_slice(&name_field(&str_units(name)));
        payloads.extend(payload.iter().map(|b| b ^ 0x08));
        offset += payload.len();
    }
    let mut out = Vec::new();
    out.extend_from_slice(b"NFA0");
    out.extend_from_slice(&1u32.to_le_bytes());
    out.extend_from_slice(&(entries.len() as u32).to_le_bytes());
    out.extend_from_slice(&1u32.to_le_bytes());
    out.extend_from_slice(&recs);
    out.extend_from_slice(&payloads);
    out
}

#[test]
fn short_buffer_rejected() {
    for len in 0..HEADER_LEN {
        let buf = vec![0x4eu8; len];
        assert!(!NemeaArchive::can_handle_file(&buf, "bin"));
        assert!(NemeaArchive::try_open(&buf, "short.bin").is_none());
    }
}

#[test]
fn wrong_magic_rejected() {
    let mut buf = build_container(&[("a.txt", b"data")]);
    buf[0] = b'X';
    assert!(!NemeaArchive::can_handle_file(&buf, "bin"));
    assert!(NemeaArchive::try_open(&buf, "bad.bin").is_none());
}

#[test]
fn wrong_version_rejected() {
    let mut buf = build_container(&[("a.txt", b"data")]);
    buf[4] = 2;
    assert!(NemeaArchive::try_open(&buf, "bad.bin").is_none());
}

#[test]
fn wrong_secondary_rejected() {
    let mut buf = build_container(&[("a.txt", b"data")]);
    buf[12] = 0;
    assert!(NemeaArchive::try_open(&buf, "bad.bin").is_none());
}

#[test]
fn truncated_index_rejected() {
    let buf = build_container(&[("a.txt", b"data"), ("b.txt", b"more")]);
    let cut = &buf[..HEADER_LEN + RECORD_LEN + 20];
    assert!(NemeaArchive::try_open(cut, "cut.bin").is_none());
}

#[test]
fn can_handle_checks_extension() {
    let buf = build_container(&[("a.txt", b"data")]);
    assert!(NemeaArchive::can_handle_file(&buf, "bin"));
    assert!(!NemeaArchive::can_handle_file(&buf, "dat"));
    assert!(!NemeaArchive::can_handle_file(&buf, ""));
    assert!(!NemeaArchive::can_handle_file(&buf, "binx"));
}

#[test]
fn single_entry_scenario() {
    // Magic NFA0, version 1, one entry, secondary constant 1; the payload
    // sits right past the header and index, 4 masked bytes.
    let payload = [0x10u8, 0x20, 0x30, 0x40];
    let buf = build_container(&[("a.txt", &payload)]);
    let mut archive = NemeaArchive::try_open(&buf, "test.bin").expect("valid container");
    assert_eq!(archive.get_entry_count(), 1);
    assert_eq!(archive.get_entry_name(0), Some("a.txt"));
    assert_eq!(archive.get_entry_size(0), 4);
    let stream = archive.open_stream(0).expect("valid stream");
    assert_eq!(stream, payload.to_vec());
}

#[test]
fn entry_table_lookup() {
    let buf = build_container(&[
        ("one.txt", b"abc"),
        ("two.dat", b"defgh"),
        ("three", b""),
    ]);
    let archive = NemeaArchive::try_open(&buf, "t.bin").expect("valid container");
    assert_eq!(archive.get_entry_count(), 3);
    assert_eq!(archive.get_entry_name(0), Some("one.txt"));
    assert_eq!(archive.get_entry_name(1), Some("two.dat"));
    assert_eq!(archive.get_entry_name(2), Some("three"));
    assert_eq!(archive.get_entry_size(0), 3);
    assert_eq!(archive.get_entry_size(1), 5);
    assert_eq!(archive.get_entry_size(2), 0);
    assert_eq!(archive.get_entry_name(3), None);
    assert_eq!(archive.get_entry_size(3), 0);
    assert_eq!(archive.get_entry_name(usize::MAX), None);
}

#[test]
fn duplicate_names_retained() {
    let buf = build_container(&[("same", b"1"), ("same", b"2")]);
    let archive = NemeaArchive::try_open(&buf, "t.bin").expect("valid container");
    assert_eq!(archive.get_entry_count(), 2);
    assert_eq!(archive.get_entry_name(0), Some("same"));
    assert_eq!(archive.get_entry_name(1), Some("same"));
}

#[test]
fn open_stream_idempotent() {
    let buf = build_container(&[("a", b"hello"), ("b", b"world!")]);
    let mut archive = NemeaArchive::try_open(&buf, "t.bin").expect("valid container");
    let first = archive.open_stream(1).expect("valid stream");
    let second = archive.open_stream(1).expect("valid stream");
    assert_eq!(first, second);
    assert_eq!(first, b"world!".to_vec());
    assert_eq!(first.len(), archive.get_entry_size(1));
}

#[test]
fn open_stream_out_of_range_index() {
    let buf = build_container(&[("a", b"hello")]);
    let mut archive = NemeaArchive::try_open(&buf, "t.bin").expect("valid container");
    assert!(archive.open_stream(1).is_none());
    assert!(archive.open_stream(usize::MAX).is_none());
}

#[test]
fn open_stream_payload_out_of_bounds() {
    let mut buf = build_container(&[("a", b"ok"), ("b", b"xy")]);
    // Point the second entry far past the end of the buffer.
    let field = HEADER_LEN + RECORD_LEN + 12;
    buf[field..field + 4].copy_from_slice(&masked_u32(0x00ff_0000));
    let mut archive = NemeaArchive::try_open(&buf, "t.bin").expect("valid container");
    assert!(archive.open_stream(1).is_none());
    // The failure is local to that one entry; others still extract.
    assert_eq!(archive.open_stream(0), Some(b"ok".to_vec()));
}

#[test]
fn name_terminator_truncates() {
    // Units 'a', 'b', NUL, 'c': the decoded name stops before the NUL.
    let data_start = HEADER_LEN + RECORD_LEN;
    let mut buf = Vec::new();
    buf.extend_from_slice(b"NFA0");
    buf.extend_from_slice(&1u32.to_le_bytes());
    buf.extend_from_slice(&1u32.to_le_bytes());
    buf.extend_from_slice(&1u32.to_le_bytes());
    buf.extend_from_slice(&[0u8; 8]);
    buf.extend_from_slice(&masked_u32(0));
    buf.extend_from_slice(&masked_u32(data_start as u32));
    buf.extend_from_slice(&[0u8; 4]);
    buf.extend_from_slice(&name_field(&[b'a' as u16, b'b' as u16, 0, b'c' as u16]));
    let archive = NemeaArchive::try_open(&buf, "t.bin").expect("valid container");
    assert_eq!(archive.get_entry_name(0), Some("ab"));
}

#[test]
fn name_without_terminator_keeps_all_units() {
    // 64 units with no NUL: the full 128-byte field decodes, nothing more.
    let units = vec![b'x' as u16; 64];
    let data_start = HEADER_LEN + RECORD_LEN;
    let mut buf = Vec::new();
    buf.extend_from_slice(b"NFA0");
    buf.extend_from_slice(&1u32.to_le_bytes());
    buf.extend_from_slice(&1u32.to_le_bytes());
    buf.extend_from_slice(&1u32.to_le_bytes());
    buf.extend_from_slice(&[0u8; 8]);
    buf.extend_from_slice(&masked_u32(0));
    buf.extend_from_slice(&masked_u32(data_start as u32));
    buf.extend_from_slice(&[0u8; 4]);
    buf.extend_from_slice(&name_field(&units));
    let archive = NemeaArchive::try_open(&buf, "t.bin").expect("valid container");
    let name: String = std::iter::repeat('x').take(64).collect();
    assert_eq!(archive.get_entry_name(0), Some(name.as_str()));
}

#[test]
fn backslash_normalized_to_forward_slash() {
    let buf = build_container(&[("dir\\sub\\x.bin", b"p")]);
    let archive = NemeaArchive::try_open(&buf, "t.bin").expect("valid container");
    assert_eq!(archive.get_entry_name(0), Some("dir/sub/x.bin"));
}

#[test]
fn round_trip_reproduces_plaintext() {
    let payload: Vec<u8> = (0u8..=255).collect();
    let name = "assets/texture_01.png";
    let buf = build_container(&[(name, &payload), ("second", b"tail")]);
    let mut archive = NemeaArchive::try_open(&buf, "t.bin").expect("valid container");
    assert_eq!(archive.get_entry_name(0), Some(name));
    assert_eq!(archive.get_entry_size(0), payload.len());
    assert_eq!(archive.open_stream(0), Some(payload));
    assert_eq!(archive.open_stream(1), Some(b"tail".to_vec()));
}

#[test]
fn empty_container_has_no_entries() {
    let buf = build_container(&[]);
    let archive = NemeaArchive::try_open(&buf, "empty.bin").expect("valid container");
    assert_eq!(archive.get_entry_count(), 0);
    assert_eq!(archive.get_entry_name(0), None);
    assert_eq!(archive.get_entry_size(0), 0);
}

#[test]
fn plugin_identity() {
    assert_eq!(NemeaArchive::tag(), "NFA0");
    assert_eq!(
        NemeaArchive::description(),
        "NFA0 format as seen in Fushigi no Gensokyo CHRONICLE"
    );
    assert!(NemeaArchive::plugin_init());
    NemeaArchive::plugin_shutdown();
}
