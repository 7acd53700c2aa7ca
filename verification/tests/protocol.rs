use goqui::protocol::parse_datagram;
use goqui::protocol::read_u16_le;
use goqui::protocol::read_u64_le;
use goqui::SUBFRAME_SIZE;

/// Builds a datagram: the little-endian speaker key, one audio-batch
/// record holding the given sub-records, and the four trailing bytes
/// that sit past the sub-record boundary.
fn datagram(speaker: u64, sub_records: &[(u16, u16, Vec<u8>)]) -> Vec<u8> {
    let mut data = Vec::new();
    data.extend_from_slice(&speaker.to_le_bytes());
    data.push(6u8);
    for (len, march, payload) in sub_records {
        data.extend_from_slice(&len.to_le_bytes());
        data.extend_from_slice(&march.to_le_bytes());
        data.extend_from_slice(payload);
    }
    data.extend_from_slice(&[0u8; 4]);
    data
}

#[test]
fn short_datagram_is_dropped() {
    assert!(parse_datagram(&vec![1u8, 2, 3]).is_none());
    assert!(parse_datagram(&Vec::new()).is_none());
    assert!(parse_datagram(&vec![0u8; 7]).is_none());
}

#[test]
fn header_alone_parses_to_no_frames() {
    let parsed = parse_datagram(&vec![0u8; 8]).unwrap();
    assert_eq!(parsed.speaker, 0);
    assert_eq!(parsed.frames.len(), 0);
}

#[test]
fn speaker_key_is_little_endian() {
    let data = datagram(42, &[]);
    let parsed = parse_datagram(&data).unwrap();
    assert_eq!(parsed.speaker, 42);

    let mut data = vec![0x01u8, 0x02, 0x03, 0x04, 0x05, 0x06, 0x07, 0x08];
    data.push(0u8);
    let parsed = parse_datagram(&data).unwrap();
    assert_eq!(parsed.speaker, 0x0807060504030201);
}

#[test]
fn le_readers_match_known_values() {
    let data = vec![0x34u8, 0x12, 0xff, 0x00, 0x00, 0x00, 0x00, 0x00, 0x00, 0x01];
    assert_eq!(read_u16_le(&data, 0), 0x1234);
    assert_eq!(read_u16_le(&data, 1), 0xff12);
    assert_eq!(read_u64_le(&data, 2), 0x01000000000000ff);
}

#[test]
fn sub_record_is_zero_padded() {
    let data = datagram(7, &[(3, 1, vec![9, 8, 7])]);
    let parsed = parse_datagram(&data).unwrap();
    assert_eq!(parsed.speaker, 7);
    assert_eq!(parsed.frames.len(), 1);
    let frame = &parsed.frames[0].bytes;
    assert_eq!(frame.len(), SUBFRAME_SIZE);
    assert_eq!(&frame[..3], &[9, 8, 7]);
    assert!(frame[3..].iter().all(|b| *b == 0));
}

#[test]
fn length_two_never_produces_a_sub_frame() {
    // A lone empty sub-record yields nothing.
    let data = datagram(7, &[(2, 1, vec![])]);
    assert_eq!(parse_datagram(&data).unwrap().frames.len(), 0);

    // An empty sub-record between two real ones is skipped whole.
    let data = datagram(7, &[(1, 1, vec![5]), (2, 2, vec![]), (1, 3, vec![6])]);
    let parsed = parse_datagram(&data).unwrap();
    assert_eq!(parsed.frames.len(), 2);
    assert_eq!(parsed.frames[0].bytes[0], 5);
    assert_eq!(parsed.frames[1].bytes[0], 6);
}

#[test]
fn overrun_aborts_without_frames() {
    // The declared payload runs past the record boundary: nothing is
    // produced and nothing panics.
    let data = datagram(7, &[(50, 1, vec![1, 2, 3])]);
    assert_eq!(parse_datagram(&data).unwrap().frames.len(), 0);
}

#[test]
fn overrun_keeps_earlier_frames_and_drops_later_ones() {
    let tail = vec![4u8; 30];
    let data = datagram(7, &[(1, 1, vec![5]), (200, 2, tail), (1, 3, vec![6])]);
    let parsed = parse_datagram(&data).unwrap();
    assert_eq!(parsed.frames.len(), 1);
    assert_eq!(parsed.frames[0].bytes[0], 5);
}

#[test]
fn mis_sized_fragment_is_dropped_in_place() {
    // A fragment longer than a sub-frame is dropped; parsing goes on.
    let big = (SUBFRAME_SIZE + 10) as u16;
    let oversized = vec![1u8; SUBFRAME_SIZE + 10];
    let data = datagram(7, &[(big, 1, oversized), (1, 2, vec![6])]);
    let parsed = parse_datagram(&data).unwrap();
    assert_eq!(parsed.frames.len(), 1);
    assert_eq!(parsed.frames[0].bytes[0], 6);
}

#[test]
fn silence_records_are_skipped() {
    let mut data = Vec::new();
    data.extend_from_slice(&7u64.to_le_bytes());
    data.push(0u8);
    data.push(0u8);
    data.push(6u8);
    data.extend_from_slice(&1u16.to_le_bytes());
    data.extend_from_slice(&1u16.to_le_bytes());
    data.push(5u8);
    data.extend_from_slice(&[0u8; 4]);
    let parsed = parse_datagram(&data).unwrap();
    assert_eq!(parsed.frames.len(), 1);
    assert_eq!(parsed.frames[0].bytes[0], 5);
}

#[test]
fn unknown_opcode_ends_parsing() {
    let mut data = Vec::new();
    data.extend_from_slice(&7u64.to_le_bytes());
    data.push(11u8);
    data.push(6u8);
    data.extend_from_slice(&1u16.to_le_bytes());
    data.extend_from_slice(&1u16.to_le_bytes());
    data.push(5u8);
    data.extend_from_slice(&[0u8; 4]);
    let parsed = parse_datagram(&data).unwrap();
    assert_eq!(parsed.frames.len(), 0);
}
