//! Frames of datagrams over a stream.
use realm_virt::vsock_proxy::frame::{
    ByteReader, DatagramHeader, FrameError, FrameReader, FrameStep,
};

#[test]
fn test_datagram_header_serialization() {
    let header = DatagramHeader {
        hostname: "example.com".to_string(),
        port: 443,
        payload_len: 100,
    };

    let bytes = header.to_bytes();
    // Header should be: 1 (hostname_len) + 11 (hostname) + 2 (port) + 4 (payload_len) = 18
    assert_eq!(bytes.len(), 18);

    let (parsed, size) = DatagramHeader::from_bytes(&bytes).unwrap();
    assert_eq!(parsed.hostname, "example.com");
    assert_eq!(parsed.port, 443);
    assert_eq!(parsed.payload_len, 100);
    assert_eq!(size, 18);
}

#[test]
fn test_datagram_header_with_payload() {
    let payload = b"Hello, World!";
    let header = DatagramHeader {
        hostname: "test.local".to_string(),
        port: 8080,
        payload_len: payload.len() as u32,
    };

    let mut bytes = header.to_bytes();
    bytes.extend_from_slice(payload);

    // Parse header only
    let (parsed, header_size) = DatagramHeader::from_bytes(&bytes).unwrap();

    assert_eq!(parsed.hostname, "test.local");
    assert_eq!(parsed.port, 8080);
    assert_eq!(parsed.payload_len, payload.len() as u32);
    assert_eq!(header_size, 1 + 10 + 2 + 4); // hostname_len + hostname + port + payload_len

    // Verify payload is intact
    assert_eq!(&bytes[header_size..], payload);
}

fn header(hostname: &str, port: u16, payload_len: u32) -> DatagramHeader {
    DatagramHeader { hostname: hostname.to_string(), port, payload_len }
}

#[test]
fn header_bytes_are_in_network_order() {
    let bytes = header("ab", 0x1234, 0x0a0b0c0d).to_bytes();
    assert_eq!(bytes, vec![2, b'a', b'b', 0x12, 0x34, 0x0a, 0x0b, 0x0c, 0x0d]);
}

#[test]
fn frame_size_counts_header_and_payload() {
    assert_eq!(header("example.com", 443, 100).frame_size(), 118);
    assert_eq!(header(&"a".repeat(255), 1, 20).frame_size(), 7 + 255 + 20);
    assert_eq!(header(&"a".repeat(300), 1, 20).frame_size(), 7 + 255 + 20);
}

#[test]
fn long_hostnames_are_cut_off() {
    let bytes = header(&"a".repeat(300), 1, 0).to_bytes();
    assert_eq!(bytes.len(), 7 + 255);
    assert_eq!(bytes[0], 255);
}

#[test]
fn malformed_headers_are_refused() {
    assert_eq!(DatagramHeader::from_bytes(&[]).unwrap_err(), FrameError::EmptyPacket);
    assert_eq!(
        DatagramHeader::from_bytes(&[3, b'a']).unwrap_err(),
        FrameError::HeaderTooShort { expected: 10, got: 2 }
    );
    assert_eq!(
        DatagramHeader::from_bytes(&[1, 0xff, 0, 1, 0, 0, 0, 0]).unwrap_err(),
        FrameError::InvalidHostname
    );
}

#[test]
fn written_frames_read_back_one_after_the_other() {
    let mut stream = Vec::new();
    header("one", 1, 2).write_to_stream(&mut stream, b"xy").unwrap();
    header("zw\u{f6}lf", 12, 0).write_to_stream(&mut stream, b"").unwrap();
    let mut reader = ByteReader::new(stream);
    let (first, payload) = DatagramHeader::read_from_stream(&mut reader).unwrap();
    assert_eq!((first.hostname.as_str(), first.port, payload.as_slice()), ("one", 1, &b"xy"[..]));
    let (second, payload) = DatagramHeader::read_from_stream(&mut reader).unwrap();
    assert_eq!((second.hostname.as_str(), second.port, payload.len()), ("zw\u{f6}lf", 12, 0));
    assert_eq!(reader.remaining(), 0);
    assert_eq!(
        DatagramHeader::read_from_stream(&mut reader).unwrap_err(),
        FrameError::UnexpectedEof
    );
}

#[test]
fn truncated_streams_end_unexpectedly() {
    let mut stream = Vec::new();
    header("host", 80, 5).write_to_stream(&mut stream, b"hello").unwrap();
    for n in 0..stream.len() {
        let mut reader = ByteReader::new(stream[..n].to_vec());
        assert_eq!(
            DatagramHeader::read_from_stream(&mut reader).unwrap_err(),
            FrameError::UnexpectedEof
        );
    }
}

#[test]
fn undecodable_hostname_is_noticed_before_the_rest() {
    let mut reader = ByteReader::new(vec![2, 0xc3, 0x28]);
    assert_eq!(
        DatagramHeader::read_from_stream(&mut reader).unwrap_err(),
        FrameError::InvalidHostname
    );
    assert_eq!(reader.remaining(), 0);
}

#[test]
fn frames_can_be_read_part_by_part() {
    let mut reader = FrameReader::new();
    for (wanted, part) in [(1, vec![1u8]), (1, vec![b'h']), (2, vec![0, 80]), (4, vec![0, 0, 0, 1])] {
        assert_eq!(reader.wanted(), wanted);
        reader = match reader.feed(part).unwrap() {
            FrameStep::More(next) => next,
            FrameStep::Done(..) => panic!("complete too early"),
        };
    }
    assert_eq!(reader.wanted(), 1);
    match reader.feed(vec![42]).unwrap() {
        FrameStep::Done(h, payload) => {
            assert_eq!((h.hostname.as_str(), h.port, payload), ("h", 80, vec![42]));
        }
        FrameStep::More(_) => panic!("not complete"),
    }
}

#[test]
fn cloned_headers_are_written_alike() {
    let original = header("example.com", 443, 7);
    let copy = original.clone();
    assert_eq!(copy.to_bytes(), original.to_bytes());
    assert_eq!((copy.hostname.as_str(), copy.port, copy.payload_len), ("example.com", 443, 7));
}
