//! The protocol state of a pinger: its identifier, the sequence number of the
//! last request, the requests it sends and the replies it accepts.

use vstd::prelude::*;
use crate::checksum::{spec_checksum, word_sum};
use crate::error::{is_invalid_packet, PingError};
use crate::packet::{IcmpHeader, IcmpPacket, IcmpType};
use crate::receive::{is_awaited_reply, match_echo_reply};

verus! {

/// The sequence number that follows `s` (`u16::wrapping_add(s, 1)`).
pub open spec fn next_sequence(s: u16) -> u16 {
    if s == 0xffff {
        0
    } else {
        (s + 1) as u16
    }
}

/// The identifier of a process: the low 16 bits of its id.
pub open spec fn identifier_of_process(pid: u32) -> u16 {
    (pid % 0x1_0000) as u16
}

/// The identifier of a process is its id modulo 2^16.
pub proof fn lemma_identifier_of_process(pid: u32)
    ensures
        identifier_of_process(pid) == pid % 0x1_0000,
{
}

fn low_half(pid: u32) -> (r: u16)
    ensures
        r == identifier_of_process(pid),
{
    (pid % 0x1_0000) as u16
}

/// Sequence numbers count up by one modulo 2^16, so that consecutive requests
/// never share one.
pub proof fn lemma_next_sequence(s: u16)
    ensures
        next_sequence(s) as int == (s as int + 1) % 0x1_0000,
        next_sequence(s) != s,
{
}

/// The state of a pinger: identifier and sequence number of the last request
/// (0 before the first).
pub struct PingerState {
    identifier: u16,
    sequence: u16,
}

impl View for PingerState {
    /// Identifier and last sequence number.
    type V = (u16, u16);

    closed spec fn view(&self) -> (u16, u16) {
        (self.identifier, self.sequence)
    }
}

impl PingerState {
    /// A state with the given identifier that has sent nothing yet.
    pub fn new(identifier: u16) -> (r: PingerState)
        ensures
            r@ == (identifier, 0u16),
    {
        PingerState { identifier, sequence: 0 }
    }

    /// The state of a pinger of the process `pid`, whose identifier is the low
    /// 16 bits of the process id.
    pub fn for_process(pid: u32) -> (r: PingerState)
        ensures
            r@ == (identifier_of_process(pid), 0u16),
    {
        PingerState { identifier: low_half(pid), sequence: 0 }
    }

    /// The identifier.
    pub fn identifier(&self) -> (r: u16)
        ensures
            r == self@.0,
    {
        self.identifier
    }

    /// The sequence number of the last request.
    pub fn sequence(&self) -> (r: u16)
        ensures
            r == self@.1,
    {
        self.sequence
    }

    /// Advances the sequence number (wrapping) and builds the echo request that
    /// carries it and the payload.
    pub fn next_request(&mut self, payload: Vec<u8>) -> (r: IcmpPacket)
        ensures
            final(self)@ == (old(self)@.0, next_sequence(old(self)@.1)),
            r.header == IcmpHeader::spec_new(
                IcmpType::EchoRequest,
                old(self)@.0,
                next_sequence(old(self)@.1),
            ),
            r.header.icmp_type == 8,
            r.header.code == 0,
            r.header.checksum == 0,
            r.header.identifier == old(self)@.0,
            r.header.sequence == final(self)@.1,
            final(self)@.1 == (old(self)@.1 + 1) % 0x1_0000,
            r.payload@ == payload@,
    {
        self.sequence = self.sequence.wrapping_add(1);
        IcmpPacket::new_echo_request(self.identifier, self.sequence, payload)
    }

    /// Decides on a received packet: the echo reply to the last request is
    /// accepted if its checksum holds and refused otherwise; any other packet
    /// is passed over (`None`).
    pub fn accept_reply(&self, packet: IcmpPacket) -> (r: Option<Result<IcmpPacket, PingError>>)
        requires
            is_awaited_reply(packet, self@.0, self@.1) ==> word_sum(packet.wire()) <= u32::MAX,
        ensures
            !is_awaited_reply(packet, self@.0, self@.1) ==> r is None,
            r is None <==> !(packet.header.icmp_type == 0 && packet.header.identifier == self@.0
                && packet.header.sequence == self@.1),
            is_awaited_reply(packet, self@.0, self@.1) && spec_checksum(packet.wire()) == 0 ==> r
                == Some(Ok::<IcmpPacket, PingError>(packet)),
            is_awaited_reply(packet, self@.0, self@.1) && spec_checksum(packet.wire()) != 0 ==> (r matches Some(e)
                && is_invalid_packet(e, "Invalid checksum"@)),
    {
        match_echo_reply(packet, self.identifier, self.sequence)
    }
}

/// The bytes of "pingrs" in ASCII, the tag that starts the default payload.
pub open spec fn payload_tag() -> Seq<u8> {
    seq![0x70u8, 0x69u8, 0x6eu8, 0x67u8, 0x72u8, 0x73u8]
}

/// The `count` low bytes of `n`, least significant first.
pub open spec fn le_bytes(n: nat, count: nat) -> Seq<u8>
    decreases count,
{
    if count == 0 {
        Seq::empty()
    } else {
        seq![(n % 256) as u8] + le_bytes(n / 256, (count - 1) as nat)
    }
}

/// The payload of a request sent without one: "pingrs" followed by the 16
/// little-endian bytes of a time in nanoseconds.
pub fn default_payload(elapsed_nanos: u128) -> (r: Vec<u8>)
    ensures
        r@ == payload_tag() + le_bytes(elapsed_nanos as nat, 16),
{
    let mut out: Vec<u8> = vec![0x70u8, 0x69u8, 0x6eu8, 0x67u8, 0x72u8, 0x73u8];
    let mut n: u128 = elapsed_nanos;
    let mut k: usize = 0;
    assert(out@ =~= payload_tag());
    while k < 16
        invariant
            k <= 16,
            out@ + le_bytes(n as nat, (16 - k) as nat) == payload_tag() + le_bytes(
                elapsed_nanos as nat,
                16,
            ),
        decreases 16 - k,
    {
        let ghost before = out@;
        out.push((n % 256) as u8);
        assert(le_bytes(n as nat, (16 - k) as nat) == seq![(n % 256) as u8] + le_bytes(
            (n / 256) as nat,
            (16 - k - 1) as nat,
        ));
        assert(out@ + le_bytes((n / 256) as nat, (16 - k - 1) as nat) =~= before + le_bytes(
            n as nat,
            (16 - k) as nat,
        ));
        n = n / 256;
        k = k + 1;
    }
    assert(out@ =~= out@ + le_bytes(n as nat, 0));
    out
}

} // verus!
