//! The Echo Request wire format (RFC 792) and the raw reply format: a 20-byte
//! IPv4 header in front of an 8-byte ICMP header.

use vstd::prelude::*;
use vstd::pervasive::VecAdditionalExecFns;
use crate::checksum::{
    checksum, lemma_fold_props, lemma_fold_with_complement, lemma_sum_app, lemma_sum_bounds,
    lemma_words_app, spec_checksum, spec_fold, spec_sum, spec_words,
};
use crate::errors::EchoError;
use crate::wire::{push_u16_be, read_u16_be, spec_u16_from_be_bytes, spec_u16_to_be_bytes};

verus! {

/// ICMP message type of an Echo Request.
pub const ECHO_REQUEST_TYPE: u8 = 8;

/// ICMP code of an Echo Request (no code).
pub const ECHO_REQUEST_CODE: u8 = 0;

/// The 8-byte ICMP echo header: type, code, 16-bit checksum, 16-bit
/// identifier, 16-bit sequence number, the three fields big-endian.
pub open spec fn spec_header(ck: u16, id: u16, seqno: u16) -> Seq<u8> {
    seq![ECHO_REQUEST_TYPE, ECHO_REQUEST_CODE] + spec_u16_to_be_bytes(ck)
        + spec_u16_to_be_bytes(id) + spec_u16_to_be_bytes(seqno)
}

/// The Echo Request packet with its checksum field still zero, the form the
/// checksum is computed over.
pub open spec fn spec_packet_zeroed(id: u16, seqno: u16, payload: Seq<u8>) -> Seq<u8> {
    spec_header(0, id, seqno) + payload
}

/// The checksum an Echo Request with these fields carries.
pub open spec fn spec_echo_checksum(id: u16, seqno: u16, payload: Seq<u8>) -> int {
    spec_checksum(spec_packet_zeroed(id, seqno, payload))
}

/// The finished Echo Request packet as transmitted.
pub open spec fn spec_packet(id: u16, seqno: u16, payload: Seq<u8>) -> Seq<u8> {
    spec_header(spec_echo_checksum(id, seqno, payload) as u16, id, seqno) + payload
}

/// The word sum of an echo header is the sum of its four 16-bit words.
proof fn lemma_header_sum(ck: u16, id: u16, seqno: u16)
    ensures
        spec_sum(spec_words(spec_header(ck, id, seqno))) == ECHO_REQUEST_TYPE * 0x100
            + ECHO_REQUEST_CODE + ck + id + seqno,
{
    reveal_with_fuel(spec_words, 6);
    reveal_with_fuel(spec_sum, 6);
    let h = spec_header(ck, id, seqno);
    assert(h.len() == 8);
    assert(h[0] == ECHO_REQUEST_TYPE && h[1] == ECHO_REQUEST_CODE);
    assert(h[2] == ((ck >> 8) & 0xff) as u8 && h[3] == (ck & 0xff) as u8);
    assert(h[4] == ((id >> 8) & 0xff) as u8 && h[5] == (id & 0xff) as u8);
    assert(h[6] == ((seqno >> 8) & 0xff) as u8 && h[7] == (seqno & 0xff) as u8);
    let h2 = h.skip(2);
    let h4 = h2.skip(2);
    let h6 = h4.skip(2);
    assert(h2.len() == 6 && h4.len() == 4 && h6.len() == 2);
    assert(h2[0] == h[2] && h2[1] == h[3]);
    assert(h4[0] == h[4] && h4[1] == h[5]);
    assert(h6[0] == h[6] && h6[1] == h[7]);
    assert(h6.skip(2) =~= Seq::<u8>::empty());
    assert(spec_words(h) =~= seq![
        h[0] * 0x100 + h[1],
        h[2] * 0x100 + h[3],
        h[4] * 0x100 + h[5],
        h[6] * 0x100 + h[7],
    ]);
    assert((((ck >> 8) & 0xff) as u8) * 0x100 + ((ck & 0xff) as u8) == ck) by (bit_vector);
    assert((((id >> 8) & 0xff) as u8) * 0x100 + ((id & 0xff) as u8) == id) by (bit_vector);
    assert((((seqno >> 8) & 0xff) as u8) * 0x100 + ((seqno & 0xff) as u8) == seqno)
        by (bit_vector);
}

/// The checksum property of the finished packet: summing the checksum back
/// into the 16-bit words of the complete packet drives the one's-complement
/// sum to 0xFFFF ("negative zero"), whose complement is zero.
pub proof fn lemma_packet_sum_is_negative_zero(id: u16, seqno: u16, payload: Seq<u8>)
    ensures
        spec_fold(spec_sum(spec_words(spec_packet(id, seqno, payload)))) == 0xFFFF,
        0 <= spec_echo_checksum(id, seqno, payload) <= 0xFFFF,
{
    let zeroed = spec_packet_zeroed(id, seqno, payload);
    let t = spec_sum(spec_words(zeroed));
    lemma_sum_bounds(zeroed);
    lemma_fold_props(t);
    let ck = spec_echo_checksum(id, seqno, payload);
    assert(ck == 0xFFFF - spec_fold(t));
    lemma_words_app(spec_header(0, id, seqno), payload);
    lemma_sum_app(spec_words(spec_header(0, id, seqno)), spec_words(payload));
    lemma_header_sum(0, id, seqno);
    lemma_words_app(spec_header(ck as u16, id, seqno), payload);
    lemma_sum_app(spec_words(spec_header(ck as u16, id, seqno)), spec_words(payload));
    lemma_header_sum(ck as u16, id, seqno);
    let fin = spec_packet(id, seqno, payload);
    assert(spec_sum(spec_words(fin)) == t + ck);
    lemma_fold_with_complement(t);
}

/// Serializes a complete Echo Request: type 8, code 0, the given identifier
/// and sequence number, the payload, and the one's-complement checksum of the
/// whole buffer written into its checksum field. Always `8 + payload.len()`
/// bytes, and the words of the result sum (one's-complement) to "negative
/// zero": the receiver's checksum over the whole packet passes.
pub fn build_packet(identifier: u16, sequence: u16, payload: &[u8]) -> (r: Vec<u8>)
    requires
        payload@.len() <= 0xFFFF - 8,
    ensures
        r@ == spec_packet(identifier, sequence, payload@),
        r@.len() == 8 + payload@.len(),
        spec_fold(spec_sum(spec_words(r@))) == 0xFFFF,
{
    let mut buf: Vec<u8> = Vec::new();
    buf.push(ECHO_REQUEST_TYPE);
    buf.push(ECHO_REQUEST_CODE);
    push_u16_be(&mut buf, 0);
    push_u16_be(&mut buf, identifier);
    push_u16_be(&mut buf, sequence);
    assert(buf@ =~= spec_header(0, identifier, sequence));
    let mut j: usize = 0;
    while j < payload.len()
        invariant
            j <= payload@.len(),
            buf@ == spec_header(0, identifier, sequence) + payload@.subrange(0, j as int),
        decreases payload@.len() - j,
    {
        buf.push(payload[j]);
        j = j + 1;
        assert(buf@ =~= spec_header(0, identifier, sequence) + payload@.subrange(0, j as int));
    }
    assert(payload@.subrange(0, payload@.len() as int) =~= payload@);
    assert(buf@ == spec_packet_zeroed(identifier, sequence, payload@));
    let ck = checksum(buf.as_slice());
    proof {
        lemma_packet_sum_is_negative_zero(identifier, sequence, payload@);
    }
    let hi: u8 = ((ck >> 8) & 0xff) as u8;
    let lo: u8 = (ck & 0xff) as u8;
    buf.set(2, hi);
    buf.set(3, lo);
    proof {
        assert(ck as int == spec_echo_checksum(identifier, sequence, payload@));
        assert(spec_echo_checksum(identifier, sequence, payload@) as u16 == ck);
        assert(buf@ =~= spec_packet(identifier, sequence, payload@));
    }
    buf
}

/// The fields the session reads out of a raw reply: the TTL of the IPv4
/// header and the code, identifier and sequence number of the ICMP header
/// behind it.
#[derive(Debug)]
pub struct ReplyHeader {
    /// Remaining time-to-live, byte 8 of the IPv4 header.
    pub ttl: u8,
    /// The reply's ICMP code, byte 1 of the ICMP header.
    pub icmp_code: u8,
    /// The echoed identifier, bytes 4..6 of the ICMP header, big-endian.
    pub identifier: u16,
    /// The echoed sequence number, bytes 6..8 of the ICMP header, big-endian.
    pub sequence: u16,
}

/// Parses the first `len` received bytes of a raw reply buffer: the 20-byte
/// IPv4 header yields the TTL at its fixed offset 8, the ICMP header behind
/// it yields code, identifier and sequence number. A reply shorter than the
/// 28 bytes both headers need is malformed and yields no result.
pub fn parse_reply(buffer: &[u8], len: usize) -> (r: Result<ReplyHeader, EchoError>)
    requires
        len <= buffer@.len(),
    ensures
        len >= 28 ==> (r matches Ok(h) && h.ttl == buffer@[8] && h.icmp_code == buffer@[21]
            && h.identifier == spec_u16_from_be_bytes(buffer@.subrange(24, 26)) && h.sequence
            == spec_u16_from_be_bytes(buffer@.subrange(26, 28))),
        len < 28 ==> (r matches Err(e) && e == EchoError::MalformedReply),
{
    if len < 28 {
        Err(EchoError::MalformedReply)
    } else {
        let ttl = buffer[8];
        let icmp_code = buffer[21];
        let identifier = read_u16_be(buffer, 24);
        let sequence = read_u16_be(buffer, 26);
        Ok(ReplyHeader { ttl, icmp_code, identifier, sequence })
    }
}

/// The outcome of one completed echo exchange, owned by the caller.
#[derive(Debug)]
pub struct PingResult {
    /// How many reply bytes the transport handed back.
    pub bytes_received: usize,
    /// Elapsed wall time from just before the send to the arrival of the
    /// reply, in nanoseconds.
    pub round_trip_nanos: u64,
    /// Remaining time-to-live from the reply's IPv4 header.
    pub ttl: u8,
    /// The reply's ICMP code.
    pub icmp_code: u8,
}

/// Decodes one received reply into the session's result: `len` received
/// bytes, the measured round trip, and the TTL and ICMP code parsed out of
/// the buffer. A reply shorter than 28 bytes is malformed and yields no
/// result.
pub fn reply_result(buffer: &[u8], len: usize, round_trip_nanos: u64) -> (r: Result<
    PingResult,
    EchoError,
>)
    requires
        len <= buffer@.len(),
    ensures
        len >= 28 ==> (r matches Ok(p) && p.bytes_received == len && p.round_trip_nanos
            == round_trip_nanos && p.ttl == buffer@[8] && p.icmp_code == buffer@[21]),
        len < 28 ==> (r matches Err(e) && e == EchoError::MalformedReply),
{
    match parse_reply(buffer, len) {
        Ok(h) => Ok(
            PingResult {
                bytes_received: len,
                round_trip_nanos,
                ttl: h.ttl,
                icmp_code: h.icmp_code,
            },
        ),
        Err(e) => Err(e),
    }
}

} // verus!
