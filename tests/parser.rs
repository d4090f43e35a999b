use pcapng_parse::block::{parse_block, parse_file, OptionType, Packet, ParseError};

fn block(tag: u32, body: &[u8]) -> Vec<u8> {
    let len = (12 + body.len()) as u32;
    let mut out = Vec::new();
    out.extend_from_slice(&tag.to_le_bytes());
    out.extend_from_slice(&len.to_le_bytes());
    out.extend_from_slice(body);
    out.extend_from_slice(&len.to_le_bytes());
    out
}

fn enhanced_body(iface: u32, ts: u64, cap: u32, orig: u32, content: &[u8]) -> Vec<u8> {
    let mut body = Vec::new();
    body.extend_from_slice(&iface.to_le_bytes());
    body.extend_from_slice(&ts.to_le_bytes());
    body.extend_from_slice(&cap.to_le_bytes());
    body.extend_from_slice(&orig.to_le_bytes());
    body.extend_from_slice(content);
    body
}

// The interface description fields sit at fixed offsets of the block: the
// link type is read at offset 4, the snapshot length at offset 8, and the
// options follow from offset 12.
fn iface_body(snap: u32, options: &[u8]) -> Vec<u8> {
    let mut body = Vec::new();
    body.extend_from_slice(&snap.to_le_bytes());
    body.extend_from_slice(options);
    body
}

#[test]
fn header_block_round_trip() {
    let buf = block(0x0A0D0D0A, &[]);
    assert_eq!(buf.len(), 12);
    let packets = parse_file(&buf).unwrap();
    assert_eq!(packets.len(), 1);
    assert!(matches!(packets[0], Packet::Header));
}

#[test]
fn empty_buffer_has_no_records() {
    let packets = parse_file(&[]).unwrap();
    assert!(packets.is_empty());
}

#[test]
fn padding_of_unaligned_length() {
    // declared length 13 is padded to 16; the next block starts there
    let mut buf = Vec::new();
    buf.extend_from_slice(&2u32.to_le_bytes());
    buf.extend_from_slice(&13u32.to_le_bytes());
    buf.extend_from_slice(&[0xEE, 0, 0, 0]);
    buf.extend_from_slice(&13u32.to_le_bytes());
    assert_eq!(buf.len(), 16);
    buf.extend_from_slice(&block(3, &[]));
    let packets = parse_file(&buf).unwrap();
    assert_eq!(packets.len(), 2);
    assert!(matches!(packets[0], Packet::Packet));
    assert!(matches!(packets[1], Packet::SimplePacket));
}

#[test]
fn padding_past_the_end_is_truncated() {
    // declared length 13 pads to 16, but only 13 bytes are there
    let mut buf = Vec::new();
    buf.extend_from_slice(&2u32.to_le_bytes());
    buf.extend_from_slice(&13u32.to_le_bytes());
    buf.extend_from_slice(&[0, 0, 0, 0, 0]);
    assert_eq!(parse_file(&buf).err(), Some(ParseError::TruncatedInput));
}

#[test]
fn multi_block_order_and_fields() {
    let mut buf = block(1, &iface_body(65535, &[9, 8, 7, 6]));
    buf.extend_from_slice(&block(6, &enhanced_body(0, 10, 4, 60, &[1, 2, 3, 4])));
    buf.extend_from_slice(&block(6, &enhanced_body(0, 11, 4, 4, &[5, 6, 7, 8])));
    let packets = parse_file(&buf).unwrap();
    assert_eq!(packets.len(), 3);
    match &packets[0] {
        Packet::IfaceDescr { link_type, snap_num, options } => {
            assert_eq!(*link_type, 20);
            assert_eq!(*snap_num, 65535);
            assert_eq!(options.0, vec![9, 8, 7, 6]);
        }
        _ => panic!("first record is not an interface description"),
    }
    match &packets[1] {
        Packet::EnhancedBlock { iface_id, timestamp, cap_len, orig_len, content } => {
            assert_eq!(*iface_id, 0);
            assert_eq!(*timestamp, 10);
            assert_eq!(*cap_len, 4);
            assert_eq!(*orig_len, 60);
            assert_eq!(content.0, vec![1, 2, 3, 4]);
        }
        _ => panic!("second record is not an enhanced packet"),
    }
    match &packets[2] {
        Packet::EnhancedBlock { timestamp, orig_len, content, .. } => {
            assert_eq!(*timestamp, 11);
            assert_eq!(*orig_len, 4);
            assert_eq!(content.0, vec![5, 6, 7, 8]);
        }
        _ => panic!("third record is not an enhanced packet"),
    }
}

#[test]
fn enhanced_packet_exact_fields() {
    let buf = block(6, &enhanced_body(1, 0x0102030405060708, 4, 4, &[0xAA, 0xBB, 0xCC, 0xDD]));
    let packets = parse_file(&buf).unwrap();
    assert_eq!(packets.len(), 1);
    match &packets[0] {
        Packet::EnhancedBlock { iface_id, timestamp, cap_len, orig_len, content } => {
            assert_eq!(*iface_id, 1);
            assert_eq!(*timestamp, 0x0102030405060708);
            assert_eq!(*cap_len, 4);
            assert_eq!(*orig_len, 4);
            assert_eq!(content.0, vec![0xAA, 0xBB, 0xCC, 0xDD]);
        }
        _ => panic!("record is not an enhanced packet"),
    }
}

#[test]
fn unknown_tag_fails_closed() {
    let mut buf = block(0x0A0D0D0A, &[]);
    buf.extend_from_slice(&block(0xFFFFFFFF, &[1, 2, 3, 4]));
    assert_eq!(parse_file(&buf).err(), Some(ParseError::UnknownBlockType));
    assert_eq!(parse_block(&block(0xFFFFFFFF, &[])).err(), Some(ParseError::UnknownBlockType));
}

#[test]
fn degenerate_length_is_rejected() {
    let mut buf = Vec::new();
    buf.extend_from_slice(&0x0A0D0D0Au32.to_le_bytes());
    buf.extend_from_slice(&0u32.to_le_bytes());
    buf.extend_from_slice(&0u32.to_le_bytes());
    assert_eq!(parse_file(&buf).err(), Some(ParseError::DegenerateLength));
    let mut four = Vec::new();
    four.extend_from_slice(&2u32.to_le_bytes());
    four.extend_from_slice(&4u32.to_le_bytes());
    assert_eq!(parse_file(&four).err(), Some(ParseError::DegenerateLength));
}

#[test]
fn short_buffers_are_truncated() {
    assert_eq!(parse_file(&[1, 2, 3]).err(), Some(ParseError::TruncatedInput));
    // the declared length runs past the end of the buffer
    let mut buf = block(0x0A0D0D0A, &[]);
    buf[4] = 16;
    assert_eq!(parse_file(&buf).err(), Some(ParseError::TruncatedInput));
    // an enhanced packet too short for its fixed fields
    let short = block(6, &[0, 0, 0, 0]);
    assert_eq!(parse_file(&short).err(), Some(ParseError::TruncatedInput));
    // an interface description too short for its fixed fields
    let mut tiny = Vec::new();
    tiny.extend_from_slice(&1u32.to_le_bytes());
    tiny.extend_from_slice(&8u32.to_le_bytes());
    assert_eq!(parse_file(&tiny).err(), Some(ParseError::TruncatedInput));
}

#[test]
fn plain_block_kinds() {
    for (tag, ok) in [(2u32, 0), (3, 1), (4, 2), (5, 3)] {
        let packets = parse_file(&block(tag, &[0; 8])).unwrap();
        assert_eq!(packets.len(), 1);
        let kind = match packets[0] {
            Packet::Packet => 0,
            Packet::SimplePacket => 1,
            Packet::NameResolution => 2,
            Packet::IfaceStatistics => 3,
            _ => 9,
        };
        assert_eq!(kind, ok);
    }
}

#[test]
fn parse_block_reads_body_fields() {
    // body as handed over by the file walk: the trailing length is excluded
    let buf = block(1, &iface_body(0x01020304, &[0x55]));
    let body = &buf[..buf.len() - 4];
    match parse_block(body).unwrap() {
        Packet::IfaceDescr { link_type, snap_num, options } => {
            assert_eq!(link_type, 17);
            assert_eq!(snap_num, 0x01020304);
            assert_eq!(options.0, vec![0x55]);
        }
        _ => panic!("record is not an interface description"),
    }
}

#[test]
fn option_codes() {
    assert_eq!(OptionType::EndOfOpts.code(), 0);
    assert_eq!(OptionType::Name.code(), 2);
    assert_eq!(OptionType::Descr.code(), 3);
    assert_eq!(OptionType::Ip4Addr.code(), 4);
    assert_eq!(OptionType::Ip6Addr.code(), 5);
    assert_eq!(OptionType::Unknown.code(), 255);
}
