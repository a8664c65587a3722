use icmp_echo::checksum::checksum;
use icmp_echo::errors::EchoError;
use icmp_echo::packet::{build_packet, parse_reply, reply_result};
use icmp_echo::payload::{build_payload, decompose_payload, IcmpBody, IcmpPayload};

/// One's-complement sum of the 16-bit big-endian words of a buffer, carries
/// folded back in, computed independently of the library.
fn ones_complement_sum(data: &[u8]) -> u16 {
    let mut sum: u32 = 0;
    let mut i = 0;
    while i < data.len() {
        let hi = data[i] as u32;
        let lo = if i + 1 < data.len() { data[i + 1] as u32 } else { 0 };
        sum += hi * 0x100 + lo;
        i += 2;
    }
    while sum > 0xFFFF {
        sum = (sum & 0xFFFF) + (sum >> 16);
    }
    sum as u16
}

#[test]
fn checksum_of_zeros_is_all_ones() {
    assert_eq!(checksum(&[0, 0]), 0xFFFF);
    assert_eq!(checksum(&[]), 0xFFFF);
}

#[test]
fn checksum_matches_classic_header_example() {
    // A well-known IPv4 header checksum worked example.
    let bytes = [
        0x45u8, 0x00, 0x00, 0x73, 0x00, 0x00, 0x40, 0x00, 0x40, 0x11, 0x00, 0x00, 0xc0, 0xa8,
        0x00, 0x01, 0xc0, 0xa8, 0x00, 0xc7,
    ];
    assert_eq!(checksum(&bytes), 0xb861);
}

#[test]
fn checksum_pads_odd_trailing_byte_high() {
    // Words 0x0102 and 0x0300; complement of their sum.
    assert_eq!(checksum(&[0x01, 0x02, 0x03]), 0xFFFF - 0x0402);
}

#[test]
fn packet_words_sum_to_negative_zero() {
    // Summing the checksum back into the complete packet's words must give
    // 0xFFFF, one's-complement zero.
    let payload = build_payload(1_700_000_000, 456, b"checksum property");
    let packet = build_packet(7, 3, &payload);
    assert_eq!(ones_complement_sum(&packet), 0xFFFF);

    let empty_packet = build_packet(0xFFFF, 0, &[]);
    assert_eq!(ones_complement_sum(&empty_packet), 0xFFFF);
}

#[test]
fn packet_layout_and_checksum_field() {
    let packet = build_packet(0x1234, 0x5678, &[0xAB, 0xCD]);
    assert_eq!(packet.len(), 10);
    assert_eq!(packet[0], 8); // Echo Request type
    assert_eq!(packet[1], 0); // code
    assert_eq!(&packet[4..6], &[0x12, 0x34]); // identifier, big-endian
    assert_eq!(&packet[6..8], &[0x56, 0x78]); // sequence, big-endian
    assert_eq!(&packet[8..], &[0xAB, 0xCD]); // payload
    // Checksum over the packet with a zeroed checksum field:
    // words 0x0800, 0x0000, 0x1234, 0x5678, 0xABCD sum to 0x11C79,
    // end-around carry gives 0x1C7A, complement 0xE385.
    assert_eq!(&packet[2..4], &[0xE3, 0x85]);
}

#[test]
fn payload_round_trip_recovers_all_fields() {
    let payload = build_payload(1_234_567_890, 123, b"abc");
    let (secs, millis, body) = decompose_payload(&payload).unwrap();
    assert_eq!(secs, 1_234_567_890);
    assert_eq!(millis, 123);
    assert_eq!(body, b"abc".to_vec());
}

#[test]
fn payload_round_trip_with_empty_body() {
    let payload = build_payload(0, 0, &[]);
    assert_eq!(payload.len(), 16);
    let (secs, millis, body) = decompose_payload(&payload).unwrap();
    assert_eq!(secs, 0);
    assert_eq!(millis, 0);
    assert!(body.is_empty());
}

#[test]
fn payload_length_is_sixteen_plus_body() {
    let sample = "0123456789!@#$%^&*()";
    let payload = build_payload(1_700_000_000, 999, sample.as_bytes());
    assert_eq!(payload.len(), 16 + sample.len());

    let body21 = b"0123456789!@#$%^&*()x";
    assert_eq!(body21.len(), 21);
    let payload21 = build_payload(1_700_000_000, 999, body21);
    assert_eq!(payload21.len(), 37);
    let packet = build_packet(0, 0, &payload21);
    assert_eq!(packet.len(), 45);
}

#[test]
fn decompose_rejects_short_payload() {
    assert!(decompose_payload(&[0u8; 15]).is_none());
}

#[test]
fn timestamped_payload_has_sane_fields() {
    let body = IcmpBody::new("0123456789!@#$%^&*()");
    let payload: IcmpPayload = body.to_payload().unwrap();
    let bytes = payload.bytes();
    assert_eq!(bytes.len(), 16 + 20);
    let (secs, millis, recovered) = decompose_payload(bytes).unwrap();
    assert!(secs > 0);
    assert!(millis < 1000);
    assert_eq!(recovered, b"0123456789!@#$%^&*()".to_vec());
}

#[test]
fn malformed_reply_is_rejected() {
    // Fewer than 28 bytes: no PingResult, the malformed-reply error instead.
    let short = [0u8; 27];
    assert_eq!(parse_reply(&short, 27).unwrap_err(), EchoError::MalformedReply);
    assert_eq!(
        reply_result(&short, 27, 1).unwrap_err(),
        EchoError::MalformedReply
    );
    let buffer = [0u8; 84];
    assert_eq!(parse_reply(&buffer, 20).unwrap_err(), EchoError::MalformedReply);
    assert_eq!(parse_reply(&buffer, 0).unwrap_err(), EchoError::MalformedReply);
    // 28 bytes are enough.
    assert!(parse_reply(&buffer, 28).is_ok());
}

#[test]
fn reply_echoes_identifier_and_sequence() {
    // A loopback-style reply to send_echo(identifier = 7, sequence = 3):
    // IPv4 header with TTL 64, then an Echo Reply header echoing the fields.
    let mut buffer = [0u8; 84];
    buffer[8] = 64; // TTL
    buffer[20] = 0; // ICMP type: Echo Reply
    buffer[21] = 0; // ICMP code
    buffer[24] = 0;
    buffer[25] = 7; // identifier, big-endian
    buffer[26] = 0;
    buffer[27] = 3; // sequence, big-endian
    let header = parse_reply(&buffer, 28).unwrap();
    assert_eq!(header.identifier, 7);
    assert_eq!(header.sequence, 3);
    assert_eq!(header.ttl, 64);
    assert_eq!(header.icmp_code, 0);
}

#[test]
fn reply_result_combines_count_time_and_fields() {
    let mut buffer = [0u8; 84];
    buffer[8] = 55;
    buffer[21] = 0;
    let result = reply_result(&buffer, 64, 1_500_000).unwrap();
    assert_eq!(result.bytes_received, 64);
    assert_eq!(result.round_trip_nanos, 1_500_000);
    assert_eq!(result.ttl, 55);
    assert_eq!(result.icmp_code, 0);
}
