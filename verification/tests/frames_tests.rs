use docker_direct::frames::{
    auth_accepted, build_console_packet, frame_size, parse_frame, ping_request, push_varint,
    read_varint, status_text_span, ConsoleReply, KIND_AUTH, KIND_COMMAND, KIND_REPLY,
    MAX_HOST_BYTES, MAX_PAYLOAD_BYTES,
};

fn varint(n: u32) -> Vec<u8> {
    let mut out = Vec::new();
    push_varint(&mut out, n);
    out
}

#[test]
fn variable_length_numbers_are_written_low_bits_first() {
    assert_eq!(varint(0), vec![0x00]);
    assert_eq!(varint(1), vec![0x01]);
    assert_eq!(varint(127), vec![0x7f]);
    assert_eq!(varint(128), vec![0x80, 0x01]);
    assert_eq!(varint(255), vec![0xff, 0x01]);
    assert_eq!(varint(300), vec![0xac, 0x02]);
    assert_eq!(varint(25565), vec![0xdd, 0xc7, 0x01]);
    assert_eq!(varint(2147483647), vec![0xff, 0xff, 0xff, 0xff, 0x07]);
    assert_eq!(varint(u32::MAX), vec![0xff, 0xff, 0xff, 0xff, 0x0f]);
}

#[test]
fn variable_length_numbers_are_appended() {
    let mut out = vec![9u8];
    push_varint(&mut out, 300);
    push_varint(&mut out, 0);
    assert_eq!(out, vec![9, 0xac, 0x02, 0x00]);
}

#[test]
fn variable_length_numbers_are_read_back() {
    for n in [0u32, 1, 127, 128, 300, 16383, 16384, 25565, 2097151, 2097152, 2147483647, u32::MAX] {
        let mut bytes = vec![0xaa];
        push_varint(&mut bytes, n);
        let used = bytes.len() - 1;
        bytes.push(0x55);
        assert_eq!(read_varint(&bytes, 1), Some((n, used)));
    }
}

#[test]
fn reading_stops_at_the_first_clear_high_bit() {
    assert_eq!(read_varint(&vec![0x80, 0x00, 0x7f], 0), Some((0, 2)));
    assert_eq!(read_varint(&vec![0x05, 0xff], 0), Some((5, 1)));
    assert_eq!(read_varint(&vec![0x05, 0x81, 0x01], 1), Some((129, 2)));
}

#[test]
fn reading_fails_without_an_end_or_beyond_32_bits() {
    assert_eq!(read_varint(&Vec::new(), 0), None);
    assert_eq!(read_varint(&vec![0x01], 1), None);
    assert_eq!(read_varint(&vec![0x80], 0), None);
    assert_eq!(read_varint(&vec![0xff, 0xff, 0xff, 0xff], 0), None);
    assert_eq!(read_varint(&vec![0xff, 0xff, 0xff, 0xff, 0xff, 0x01], 0), None);
    assert_eq!(read_varint(&vec![0xff, 0xff, 0xff, 0xff, 0x10], 0), None);
    assert_eq!(read_varint(&vec![0xff, 0xff, 0xff, 0xff, 0x7f], 0), None);
    assert_eq!(read_varint(&vec![0xff, 0xff, 0xff, 0xff, 0x0f], 0), Some((u32::MAX, 5)));
}

#[test]
fn ping_opens_with_handshake_and_request() {
    let bytes = ping_request(47, &b"localhost".to_vec(), 25565).expect("a request");
    let mut expected = vec![0x0f, 0x00, 0x2f, 0x09];
    expected.extend_from_slice(b"localhost");
    expected.extend_from_slice(&[0x63, 0xdd, 0x01, 0x01, 0x00]);
    assert_eq!(bytes, expected);
}

#[test]
fn ping_of_a_long_host_name() {
    let host = vec![b'a'; MAX_HOST_BYTES];
    let bytes = ping_request(765, &host, 1).expect("a request");
    // Body: number, two bytes of version, two bytes of length, the name, port, state.
    assert_eq!(bytes.len(), 2 + (1 + 2 + 2 + 255 + 2 + 1) + 2);
    assert_eq!(&bytes[..2], &[0x87, 0x02]);
    assert_eq!(&bytes[2..7], &[0x00, 0xfd, 0x05, 0xff, 0x01]);
    assert_eq!(&bytes[bytes.len() - 5..], &[0x00, 0x01, 0x01, 0x01, 0x00]);
    assert!(ping_request(765, &vec![b'a'; MAX_HOST_BYTES + 1], 1).is_none());
    assert!(ping_request(765, &Vec::new(), 1).is_some());
}

#[test]
fn status_text_lies_behind_number_and_length() {
    let mut body = vec![0x00, 0x02];
    body.extend_from_slice(b"{}");
    assert_eq!(status_text_span(&body), Some((2, 4)));
    let text = vec![b'x'; 300];
    let mut long = vec![0x00, 0xac, 0x02];
    long.extend_from_slice(&text);
    long.push(0xee);
    assert_eq!(status_text_span(&long), Some((3, 303)));
    assert_eq!(status_text_span(&vec![0x00, 0x00]), Some((2, 2)));
}

#[test]
fn status_reply_must_be_whole_and_number_zero() {
    assert_eq!(status_text_span(&Vec::new()), None);
    assert_eq!(status_text_span(&vec![0x00]), None);
    assert_eq!(status_text_span(&vec![0x01, 0x02, b'{', b'}']), None);
    assert_eq!(status_text_span(&vec![0x00, 0x03, b'{', b'}']), None);
    assert_eq!(status_text_span(&vec![0x00, 0x80]), None);
}

#[test]
fn console_packet_layout() {
    let bytes = build_console_packet(1, KIND_AUTH, &b"pw".to_vec()).expect("a packet");
    assert_eq!(
        bytes,
        vec![0x0c, 0, 0, 0, 0x01, 0, 0, 0, 0x03, 0, 0, 0, b'p', b'w', 0, 0]
    );
    let empty = build_console_packet(0x01020304, KIND_COMMAND, &Vec::new()).expect("a packet");
    assert_eq!(empty, vec![0x0a, 0, 0, 0, 0x04, 0x03, 0x02, 0x01, 0x02, 0, 0, 0, 0, 0]);
    assert_eq!((KIND_AUTH, KIND_COMMAND, KIND_REPLY), (3, 2, 0));
}

#[test]
fn console_packet_has_a_longest_payload() {
    let full = build_console_packet(7, KIND_COMMAND, &vec![b'x'; MAX_PAYLOAD_BYTES]).expect("a packet");
    assert_eq!(full.len(), MAX_PAYLOAD_BYTES + 14);
    assert_eq!(&full[..4], &[0x0a, 0x10, 0, 0]);
    assert!(build_console_packet(7, KIND_COMMAND, &vec![b'x'; MAX_PAYLOAD_BYTES + 1]).is_none());
}

#[test]
fn console_packet_is_read_back() {
    let payload = b"Steve has the following entity data: [1.0d, 2.0d, 3.0d]".to_vec();
    let bytes = build_console_packet(0xfffffffe, KIND_REPLY, &payload).expect("a packet");
    let size = frame_size(&bytes[..4].to_vec()).expect("a size");
    assert_eq!(size, payload.len() + 10);
    assert_eq!(bytes.len(), size + 4);
    let reply = parse_frame(&bytes[4..].to_vec()).expect("a reply");
    assert_eq!(reply.id, 0xfffffffe);
    assert_eq!(reply.kind, KIND_REPLY);
    assert_eq!(reply.body, payload);
}

#[test]
fn frame_size_has_bounds() {
    assert_eq!(frame_size(&vec![10, 0, 0, 0]), Some(10));
    assert_eq!(frame_size(&vec![9, 0, 0, 0]), None);
    assert_eq!(frame_size(&vec![0x0a, 0x10, 0, 0]), Some(4106));
    assert_eq!(frame_size(&vec![0x0b, 0x10, 0, 0]), None);
    assert_eq!(frame_size(&vec![0xff, 0xff, 0xff, 0xff]), None);
    assert_eq!(frame_size(&vec![10, 0, 0]), None);
    assert_eq!(frame_size(&vec![10, 0, 0, 0, 0]), None);
    assert_eq!(frame_size(&Vec::new()), None);
}

#[test]
fn frame_must_end_in_two_zero_bytes() {
    assert!(parse_frame(&vec![1, 0, 0, 0, 2, 0, 0, 0, 0, 0]).is_some());
    assert!(parse_frame(&vec![1, 0, 0, 0, 2, 0, 0, 0, 0]).is_none());
    assert!(parse_frame(&vec![1, 0, 0, 0, 2, 0, 0, 0, 1, 0]).is_none());
    assert!(parse_frame(&vec![1, 0, 0, 0, 2, 0, 0, 0, 0, 1]).is_none());
    assert!(parse_frame(&Vec::new()).is_none());
    let reply = parse_frame(&vec![1, 0, 0, 0, 2, 0, 0, 0, 0, b'a', 0, 0]).expect("a reply");
    assert_eq!(reply.body, vec![0, b'a']);
}

#[test]
fn sign_in_is_accepted_under_the_request_number() {
    let ok = ConsoleReply { id: 5, kind: KIND_COMMAND, body: Vec::new() };
    assert!(auth_accepted(&ok, 5));
    assert!(!auth_accepted(&ok, 6));
    let refused = ConsoleReply { id: 0xffffffff, kind: KIND_COMMAND, body: Vec::new() };
    assert!(!auth_accepted(&refused, 5));
    let other = ConsoleReply { id: 5, kind: KIND_REPLY, body: Vec::new() };
    assert!(!auth_accepted(&other, 5));
}
