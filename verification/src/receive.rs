//! Decisions on datagrams received from a raw ICMP socket.
//!
//! On some systems a raw IPv4 socket hands over the IP header in front of the
//! ICMP message, on others it does not; the functions here find the message,
//! decode it, check its checksum and tell whether it is the awaited echo reply.

use vstd::prelude::*;
use vstd::string::*;
use vstd::slice::slice_subrange;
use crate::checksum::{spec_checksum, word_sum};
use crate::error::{is_invalid_packet, PingError};
use crate::packet::{lemma_packet_encode_decode, IcmpPacket};

verus! {

/// Where the ICMP message starts in a received datagram: on an IPv4 socket,
/// a datagram of at least 20 bytes whose first byte carries IP version 4 starts
/// with an IP header of `4 * IHL` bytes; otherwise the message starts at once.
pub open spec fn payload_offset(buf: Seq<u8>, is_ipv6: bool) -> int {
    if !is_ipv6 && buf.len() >= 20 && buf[0] / 16 == 4 {
        (buf[0] % 16) * 4
    } else {
        0
    }
}

/// The message starts after the IP header, of four times the header-length
/// nibble bytes, exactly for an IPv4 socket and a datagram of at least 20
/// bytes whose version nibble is 4; otherwise at the first byte.
pub proof fn lemma_payload_offset_cases(buf: Seq<u8>, is_ipv6: bool)
    ensures
        (!is_ipv6 && buf.len() >= 20 && buf[0] >= 0x40 && buf[0] < 0x50) ==> payload_offset(buf, is_ipv6)
            == 4 * (buf[0] - 0x40),
        !(!is_ipv6 && buf.len() >= 20 && buf[0] >= 0x40 && buf[0] < 0x50) ==> payload_offset(
            buf,
            is_ipv6,
        ) == 0,
{
}

/// Computes [`payload_offset`].
pub fn ip_payload_offset(buffer: &[u8], is_ipv6: bool) -> (r: usize)
    ensures
        r == payload_offset(buffer@, is_ipv6),
{
    if !is_ipv6 && buffer.len() >= 20 {
        let first: u8 = buffer[0];
        let version: u8 = (first >> 4u8) & 0xfu8;
        assert(version == first / 16) by (bit_vector)
            requires
                version == (first >> 4u8) & 0xfu8,
        ;
        if version == 4 {
            let ihl_bits: u8 = first & 0xfu8;
            assert(ihl_bits == first % 16) by (bit_vector)
                requires
                    ihl_bits == first & 0xfu8,
            ;
            let ihl: usize = ihl_bits as usize;
            ihl * 4
        } else {
            0
        }
    } else {
        0
    }
}

/// Finds and decodes the ICMP message of a received datagram, without looking
/// at its checksum.
pub fn decode_datagram(buffer: &[u8], is_ipv6: bool) -> (r: Result<IcmpPacket, PingError>)
    ensures
        buffer@.len() == 0 ==> is_invalid_packet(r, "Empty packet received"@),
        buffer@.len() > 0 && payload_offset(buffer@, is_ipv6) >= buffer@.len() ==> is_invalid_packet(
            r,
            "Packet too small after IP header"@,
        ),
        buffer@.len() > 0 && payload_offset(buffer@, is_ipv6) < buffer@.len()
            < payload_offset(buffer@, is_ipv6) + 8 ==> is_invalid_packet(
            r,
            "ICMP packet must be at least 8 bytes"@,
        ),
        buffer@.len() > 0 && payload_offset(buffer@, is_ipv6) + 8 <= buffer@.len() ==> (r matches Ok(
            p,
        ) && p.wire() == buffer@.skip(payload_offset(buffer@, is_ipv6))),
{
    if buffer.len() == 0 {
        return Err(PingError::InvalidPacket(String::from_str("Empty packet received")));
    }
    let start = ip_payload_offset(buffer, is_ipv6);
    if start >= buffer.len() {
        return Err(PingError::InvalidPacket(String::from_str("Packet too small after IP header")));
    }
    let data = slice_subrange(buffer, start, buffer.len());
    assert(data@ =~= buffer@.skip(payload_offset(buffer@, is_ipv6)));
    let r = IcmpPacket::from_bytes(data);
    proof {
        if data@.len() >= 8 {
            let p = r->Ok_0;
            lemma_packet_encode_decode(data@);
            assert(p.wire() =~= data@);
        }
    }
    r
}

/// Finds and decodes the ICMP message of a received datagram and checks its
/// checksum.
pub fn decode_checked_datagram(buffer: &[u8], is_ipv6: bool) -> (r: Result<IcmpPacket, PingError>)
    requires
        payload_offset(buffer@, is_ipv6) < buffer@.len() ==> word_sum(
            buffer@.skip(payload_offset(buffer@, is_ipv6)),
        ) <= u32::MAX,
    ensures
        buffer@.len() == 0 ==> is_invalid_packet(r, "Empty packet received"@),
        buffer@.len() > 0 && payload_offset(buffer@, is_ipv6) >= buffer@.len() ==> is_invalid_packet(
            r,
            "Packet too small after IP header"@,
        ),
        buffer@.len() > 0 && payload_offset(buffer@, is_ipv6) < buffer@.len()
            < payload_offset(buffer@, is_ipv6) + 8 ==> is_invalid_packet(
            r,
            "ICMP packet must be at least 8 bytes"@,
        ),
        buffer@.len() > 0 && payload_offset(buffer@, is_ipv6) + 8 <= buffer@.len() && spec_checksum(
            buffer@.skip(payload_offset(buffer@, is_ipv6)),
        ) != 0 ==> is_invalid_packet(r, "Invalid checksum"@),
        buffer@.len() > 0 && payload_offset(buffer@, is_ipv6) + 8 <= buffer@.len() && spec_checksum(
            buffer@.skip(payload_offset(buffer@, is_ipv6)),
        ) == 0 ==> (r matches Ok(p) && p.wire() == buffer@.skip(payload_offset(buffer@, is_ipv6))),
{
    let packet = match decode_datagram(buffer, is_ipv6) {
        Ok(p) => p,
        Err(e) => {
            return Err(e);
        },
    };
    if !packet.verify_checksum() {
        return Err(PingError::InvalidPacket(String::from_str("Invalid checksum")));
    }
    Ok(packet)
}

/// `packet` is the echo reply of the given identifier and sequence number.
pub open spec fn is_awaited_reply(packet: IcmpPacket, identifier: u16, sequence: u16) -> bool {
    &&& packet.header.icmp_type == 0
    &&& packet.header.identifier == identifier
    &&& packet.header.sequence == sequence
}

/// A packet is the awaited reply exactly when it is an echo reply (type 0)
/// carrying the awaited identifier and sequence number, all 16 bits of each.
pub proof fn lemma_awaited_reply_fields(packet: IcmpPacket, identifier: u16, sequence: u16)
    ensures
        is_awaited_reply(packet, identifier, sequence) <==> (packet.header.icmp_type == 0
            && packet.header.identifier == identifier && packet.header.sequence == sequence),
{
}

/// Tells whether `packet` is the echo reply of the given identifier and
/// sequence number.
pub fn is_awaited(packet: &IcmpPacket, identifier: u16, sequence: u16) -> (r: bool)
    ensures
        r == is_awaited_reply(*packet, identifier, sequence),
        r == (packet.header.icmp_type == 0 && packet.header.identifier == identifier
            && packet.header.sequence == sequence),
{
    packet.header.icmp_type == 0 && packet.header.identifier == identifier
        && packet.header.sequence == sequence
}

/// Decides on a packet received while awaiting the echo reply of the given
/// identifier and sequence number: any other packet is passed over (`None`);
/// the awaited reply is accepted if its checksum holds and refused otherwise.
pub fn match_echo_reply(packet: IcmpPacket, identifier: u16, sequence: u16) -> (r: Option<
    Result<IcmpPacket, PingError>,
>)
    requires
        is_awaited_reply(packet, identifier, sequence) ==> word_sum(packet.wire()) <= u32::MAX,
    ensures
        !is_awaited_reply(packet, identifier, sequence) ==> r is None,
        r is None <==> !(packet.header.icmp_type == 0 && packet.header.identifier == identifier
            && packet.header.sequence == sequence),
        is_awaited_reply(packet, identifier, sequence) && spec_checksum(packet.wire()) == 0 ==> r
            == Some(Ok::<IcmpPacket, PingError>(packet)),
        is_awaited_reply(packet, identifier, sequence) && spec_checksum(packet.wire()) != 0 ==> (r matches Some(e)
            && is_invalid_packet(e, "Invalid checksum"@)),
{
    if is_awaited(&packet, identifier, sequence) {
        if !packet.verify_checksum() {
            return Some(Err(PingError::InvalidPacket(String::from_str("Invalid checksum"))));
        }
        return Some(Ok(packet));
    }
    None
}

} // verus!
