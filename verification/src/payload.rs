//! The Echo Request payload: eight big-endian bytes of whole seconds since
//! the Unix epoch, eight big-endian bytes of the sub-second millisecond
//! remainder, then the caller's body bytes, in that fixed order.

use vstd::prelude::*;
use vstd::utf8::encode_utf8;
use crate::errors::EchoError;
use crate::wire::{
    lemma_u64_be_bytes_roundtrip, push_u64_be, read_u64_be, spec_u64_from_be_bytes,
    spec_u64_to_be_bytes,
};

verus! {

/// The payload laid out for timestamp (`secs`, `millis`) and body `body`.
pub open spec fn spec_payload(secs: u64, millis: u64, body: Seq<u8>) -> Seq<u8> {
    spec_u64_to_be_bytes(secs) + spec_u64_to_be_bytes(millis) + body
}

/// Serializes the payload for an already-decomposed timestamp: always exactly
/// `16 + body.len()` bytes.
pub fn build_payload(secs: u64, millis: u64, body: &[u8]) -> (r: Vec<u8>)
    requires
        millis < 1000,
    ensures
        r@ == spec_payload(secs, millis, body@),
        r@.len() == 16 + body@.len(),
{
    let mut out: Vec<u8> = Vec::new();
    push_u64_be(&mut out, secs);
    push_u64_be(&mut out, millis);
    let mut j: usize = 0;
    while j < body.len()
        invariant
            j <= body@.len(),
            out@ == spec_u64_to_be_bytes(secs) + spec_u64_to_be_bytes(millis) + body@.subrange(
                0,
                j as int,
            ),
        decreases body@.len() - j,
    {
        out.push(body[j]);
        j = j + 1;
        assert(out@ =~= spec_u64_to_be_bytes(secs) + spec_u64_to_be_bytes(millis)
            + body@.subrange(0, j as int));
    }
    assert(body@.subrange(0, body@.len() as int) =~= body@);
    out
}

/// Splits a payload back into its two timestamp words and its body; a buffer
/// shorter than the 16-byte timestamp prefix has no decomposition.
pub fn decompose_payload(p: &[u8]) -> (r: Option<(u64, u64, Vec<u8>)>)
    ensures
        p@.len() >= 16 ==> (r matches Some(t) && t.0 == spec_u64_from_be_bytes(
            p@.subrange(0, 8),
        ) && t.1 == spec_u64_from_be_bytes(p@.subrange(8, 16)) && t.2@ == p@.skip(16)),
        p@.len() < 16 ==> r is None,
{
    if p.len() < 16 {
        None
    } else {
        let secs = read_u64_be(p, 0);
        let millis = read_u64_be(p, 8);
        let mut body: Vec<u8> = Vec::new();
        let mut j: usize = 16;
        while j < p.len()
            invariant
                16 <= j <= p@.len(),
                body@ == p@.subrange(16, j as int),
            decreases p@.len() - j,
        {
            body.push(p[j]);
            j = j + 1;
            assert(body@ =~= p@.subrange(16, j as int));
        }
        assert(p@.subrange(16, p@.len() as int) =~= p@.skip(16));
        Some((secs, millis, body))
    }
}

/// Round trip of the payload layout: a payload built for timestamp
/// (`secs`, `millis`) with `millis` below 1000 and body `body` decomposes
/// back to exactly those seconds, those milliseconds and that body.
pub proof fn lemma_payload_round_trip(secs: u64, millis: u64, body: Seq<u8>)
    requires
        millis < 1000,
    ensures
        spec_payload(secs, millis, body).len() == 16 + body.len(),
        spec_u64_from_be_bytes(spec_payload(secs, millis, body).subrange(0, 8)) == secs,
        spec_u64_from_be_bytes(spec_payload(secs, millis, body).subrange(8, 16)) == millis,
        spec_payload(secs, millis, body).skip(16) == body,
{
    lemma_u64_be_bytes_roundtrip(secs);
    lemma_u64_be_bytes_roundtrip(millis);
    let p = spec_payload(secs, millis, body);
    assert(p.subrange(0, 8) =~= spec_u64_to_be_bytes(secs));
    assert(p.subrange(8, 16) =~= spec_u64_to_be_bytes(millis));
    assert(p.skip(16) =~= body);
}

/// Relies on `std::time::SystemTime::now`: the wall clock, converted to whole
/// seconds and the sub-second millisecond remainder since the Unix epoch, or
/// `None` when the clock sits before the epoch. `Duration::subsec_millis` is
/// documented to lie below 1000.
#[verifier::external_body]
fn clock_since_epoch() -> (r: Option<(u64, u32)>)
    ensures
        r matches Some(p) ==> p.1 < 1000,
{
    match std::time::SystemTime::now().duration_since(std::time::UNIX_EPOCH) {
        Ok(d) => Some((d.as_secs(), d.subsec_millis())),
        Err(_) => None,
    }
}

/// Captures the wall clock and builds the timestamped payload around `body`.
/// Fails only when the clock reports a time before the epoch.
pub fn build(body: &[u8]) -> (r: Result<Vec<u8>, EchoError>)
    ensures
        r matches Ok(p) ==> exists|secs: u64, millis: u64|
            millis < 1000 && p@ == #[trigger] spec_payload(secs, millis, body@),
        r matches Ok(p) ==> p@.len() == 16 + body@.len(),
        r matches Err(e) ==> e == EchoError::Clock,
{
    match clock_since_epoch() {
        Some((secs, millis)) => {
            let p = build_payload(secs, millis as u64, body);
            proof {
                assert((millis as u64) < 1000 && p@ == spec_payload(secs, millis as u64, body@));
            }
            Ok(p)
        },
        None => Err(EchoError::Clock),
    }
}

/// The body text a caller hands in for embedding behind the timestamp.
pub struct IcmpBody {
    payload: String,
}

impl View for IcmpBody {
    type V = Seq<char>;

    closed spec fn view(&self) -> Seq<char> {
        self.payload@
    }
}

impl IcmpBody {
    /// Keeps the given text as the future payload body.
    pub fn new(payload: &str) -> (r: Self)
        ensures
            r@ == payload@,
    {
        IcmpBody { payload: payload.to_owned() }
    }

    /// Stamps the body with the wall clock, yielding the serialized payload.
    /// Fails only when the clock reports a time before the epoch.
    pub fn to_payload(&self) -> (r: Result<IcmpPayload, EchoError>)
        ensures
            r matches Ok(p) ==> exists|secs: u64, millis: u64|
                millis < 1000 && p@ == #[trigger] spec_payload(secs, millis, encode_utf8(self@)),
            r matches Err(e) ==> e == EchoError::Clock,
    {
        let body = self.payload.clone();
        let ghost chars = body@;
        match IcmpPayload::new(body) {
            Ok(p) => {
                proof {
                    let (s, m) = choose|s: u64, m: u64|
                        m < 1000 && p@ == #[trigger] spec_payload(s, m, encode_utf8(chars));
                    assert(m < 1000 && p@ == spec_payload(s, m, encode_utf8(self@)));
                }
                Ok(p)
            },
            Err(e) => Err(e),
        }
    }
}

/// A serialized Echo Request payload: the 16-byte big-endian timestamp pair
/// followed by the body bytes.
pub struct IcmpPayload {
    payload: Vec<u8>,
}

impl View for IcmpPayload {
    type V = Seq<u8>;

    closed spec fn view(&self) -> Seq<u8> {
        self.payload@
    }
}

impl IcmpPayload {
    /// Captures the wall clock and serializes the payload around the UTF-8
    /// bytes of `body`. Fails only when the clock reports a time before the
    /// epoch.
    pub fn new(body: String) -> (r: Result<IcmpPayload, EchoError>)
        ensures
            r matches Ok(p) ==> exists|secs: u64, millis: u64|
                millis < 1000 && p@ == #[trigger] spec_payload(secs, millis, encode_utf8(body@)),
            r matches Ok(p) ==> p@.len() == 16 + encode_utf8(body@).len(),
            r matches Err(e) ==> e == EchoError::Clock,
    {
        let bytes = body.as_str().as_bytes();
        match build(bytes) {
            Ok(p) => Ok(IcmpPayload { payload: p }),
            Err(e) => Err(e),
        }
    }

    /// The payload bytes exactly as they go on the wire.
    pub fn bytes(&self) -> (r: &Vec<u8>)
        ensures
            r@ == self@,
    {
        &self.payload
    }
}

} // verus!
