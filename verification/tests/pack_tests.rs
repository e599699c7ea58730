use rngrok::pack::{encode_packet, PacketError, PacketReader};

fn frame(msg: &str) -> Vec<u8> {
    encode_packet(msg.to_string())[..].to_vec()
}

#[test]
fn encode_packet_puts_little_endian_length_first() {
    let bytes = frame("Hello,");
    assert_eq!(bytes, b"\x06\0\0\0\0\0\0\0Hello,".to_vec());
}

#[test]
fn encode_packet_counts_utf8_bytes() {
    let bytes = frame("h\u{e9}");
    assert_eq!(bytes[..8].to_vec(), vec![3, 0, 0, 0, 0, 0, 0, 0]);
    assert_eq!(bytes[8..].to_vec(), "h\u{e9}".as_bytes().to_vec());
}

#[test]
fn encode_empty_message() {
    assert_eq!(frame(""), vec![0u8; 8]);
}

#[test]
fn packet_roundtrip() {
    let mut reader = PacketReader::new();
    reader.push(&frame("{\"Type\":\"Ping\",\"Payload\":{}}"));
    assert_eq!(reader.read(), Ok(Some("{\"Type\":\"Ping\",\"Payload\":{}}".to_string())));
    assert_eq!(reader.read(), Ok(None));
    assert!(reader.get_buf().is_empty());
}

#[test]
fn two_packets_read_in_order_and_rest_stays() {
    let mut data = frame("Hello,");
    data.extend(frame("world!"));
    data.extend(b"abcdefg");
    let mut reader = PacketReader::new();
    reader.push(&data);
    assert_eq!(reader.read(), Ok(Some("Hello,".to_string())));
    assert_eq!(reader.read(), Ok(Some("world!".to_string())));
    assert_eq!(reader.read(), Ok(None));
    assert_eq!(&reader.get_buf()[..], b"abcdefg");
    assert_eq!(&reader.get_buf()[..], b"abcdefg");
}

#[test]
fn partial_packet_waits_for_more() {
    let data = frame("Hello, world");
    let mut reader = PacketReader::new();
    for (i, b) in data.iter().enumerate() {
        if i > 0 {
            assert_eq!(reader.read(), Ok(None));
        }
        reader.push(&[*b]);
    }
    assert_eq!(reader.read(), Ok(Some("Hello, world".to_string())));
}

#[test]
fn short_header_waits() {
    let mut reader = PacketReader::new();
    reader.push(&[5, 0, 0]);
    assert_eq!(reader.read(), Ok(None));
    assert_eq!(&reader.get_buf()[..], &[5u8, 0, 0][..]);
}

#[test]
fn huge_announced_length_waits() {
    let mut reader = PacketReader::new();
    reader.push(&[0xff; 8]);
    reader.push(b"abc");
    assert_eq!(reader.read(), Ok(None));
    assert_eq!(reader.get_buf().len(), 11);
}

#[test]
fn invalid_utf8_body_is_an_error_and_is_consumed() {
    let mut reader = PacketReader::new();
    reader.push(&[2, 0, 0, 0, 0, 0, 0, 0, 0xff, 0xfe]);
    reader.push(&frame("ok"));
    assert_eq!(reader.read(), Err(PacketError::InvalidUtf8));
    assert_eq!(reader.read(), Ok(Some("ok".to_string())));
}

#[test]
fn several_packets_in_any_chunking_read_back_in_order() {
    let msgs = ["Hello,", "", "world!", "h\u{e9}llo w\u{f6}rld", "{\"Type\":\"Pong\",\"Payload\":{}}"];
    let mut data = Vec::new();
    for m in msgs.iter() {
        data.extend(frame(m));
    }
    for cut in [1usize, 2, 3, 5, 7, 8, 9, 13, 64, data.len()] {
        let mut reader = PacketReader::new();
        let mut got = Vec::new();
        for chunk in data.chunks(cut) {
            loop {
                match reader.read() {
                    Ok(Some(s)) => got.push(s),
                    Ok(None) => break,
                    Err(e) => panic!("{:?}", e),
                }
            }
            reader.push(chunk);
        }
        while let Ok(Some(s)) = reader.read() {
            got.push(s);
        }
        assert_eq!(got, msgs.iter().map(|s| s.to_string()).collect::<Vec<_>>());
        assert_eq!(reader.read(), Ok(None));
        assert!(reader.get_buf().is_empty());
    }
}
