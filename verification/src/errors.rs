//! The failure taxonomy of a single echo exchange.

use vstd::prelude::*;

verus! {

/// Everything that can go wrong between parsing a target address and
/// decoding its reply. Each variant is produced at exactly one stage of the
/// exchange; none is recoverable within a single-shot probe.
#[derive(Clone, Copy, Debug, PartialEq, Eq, Structural)]
pub enum EchoError {
    /// The target string is not an IPv4 address.
    AddressParse,
    /// The platform refused to hand out an ICMP socket (usually privilege).
    Socket,
    /// Connecting the socket to the target failed at once (no route).
    Unreachable,
    /// The transport write of the request failed.
    Send,
    /// The transport read of the reply failed.
    Receive,
    /// The reply is too short to hold an IPv4 header and an ICMP header.
    MalformedReply,
    /// The wall clock reported a time before the epoch.
    Clock,
}

} // verus!
