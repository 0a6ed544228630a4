//! ICMP echo packets: the header, the packet, and their wire encoding.

use vstd::prelude::*;
use vstd::string::*;
use vstd::slice::{slice_subrange, slice_to_vec};
use crate::netorder::{be_high, be_low, be_u16, u16_from_be, u16_to_be};
use crate::checksum::{
    calculate, lemma_checksum_field_verifies, spec_checksum, verify, word_sum,
};
use crate::error::{is_invalid_packet, PingError};

verus! {

/// ICMP message types used by ping.
#[derive(Debug, Clone, Copy, PartialEq, Eq, Structural)]
pub enum IcmpType {
    /// Echo Reply (type 0).
    EchoReply,
    /// Echo Request (type 8).
    EchoRequest,
}

impl IcmpType {
    /// The type code that the message type carries on the wire.
    pub open spec fn code_of(self) -> u8 {
        match self {
            IcmpType::EchoReply => 0,
            IcmpType::EchoRequest => 8,
        }
    }

    /// The message type of a type code, where it is one of the known types.
    pub open spec fn of_code(value: u8) -> Option<IcmpType> {
        if value == 0 {
            Some(IcmpType::EchoReply)
        } else if value == 8 {
            Some(IcmpType::EchoRequest)
        } else {
            None
        }
    }

    /// Reads a type code.
    pub fn from_u8(value: u8) -> (r: Option<IcmpType>)
        ensures
            r == IcmpType::of_code(value),
    {
        match value {
            0 => Some(IcmpType::EchoReply),
            8 => Some(IcmpType::EchoRequest),
            _ => None,
        }
    }

    /// The type code of the message type.
    pub fn to_u8(self) -> (r: u8)
        ensures
            r == self.code_of(),
    {
        match self {
            IcmpType::EchoReply => 0,
            IcmpType::EchoRequest => 8,
        }
    }
}

/// Reading back the code of a message type gives that type, and a code that
/// reads as a type is that type's code.
pub proof fn lemma_type_code_roundtrip(t: IcmpType, value: u8)
    ensures
        IcmpType::of_code(t.code_of()) == Some(t),
        IcmpType::of_code(value) matches Some(u) ==> u.code_of() == value,
{
}

/// The ICMP header of an echo message.
#[derive(Debug, Clone, Copy)]
pub struct IcmpHeader {
    /// ICMP type.
    pub icmp_type: u8,
    /// ICMP code.
    pub code: u8,
    /// Checksum.
    pub checksum: u16,
    /// Identifier.
    pub identifier: u16,
    /// Sequence number.
    pub sequence: u16,
}

/// Length of the encoded header in bytes.
pub const HEADER_LEN: usize = 8;

impl IcmpHeader {
    /// The header that [`IcmpHeader::new`] builds.
    pub open spec fn spec_new(icmp_type: IcmpType, identifier: u16, sequence: u16) -> IcmpHeader {
        IcmpHeader {
            icmp_type: icmp_type.code_of(),
            code: 0,
            checksum: 0,
            identifier,
            sequence,
        }
    }

    /// The eight bytes of the header on the wire, 16-bit fields in network byte order.
    pub open spec fn spec_bytes(self) -> Seq<u8> {
        seq![
            self.icmp_type,
            self.code,
            be_high(self.checksum),
            be_low(self.checksum),
            be_high(self.identifier),
            be_low(self.identifier),
            be_high(self.sequence),
            be_low(self.sequence),
        ]
    }

    /// The header that the first eight bytes of `b` encode.
    pub open spec fn spec_parse(b: Seq<u8>) -> IcmpHeader
        recommends
            b.len() >= 8,
    {
        IcmpHeader {
            icmp_type: b[0],
            code: b[1],
            checksum: be_u16(b[2], b[3]),
            identifier: be_u16(b[4], b[5]),
            sequence: be_u16(b[6], b[7]),
        }
    }

    /// The header with another checksum.
    pub open spec fn with_checksum(self, checksum: u16) -> IcmpHeader {
        IcmpHeader { checksum, ..self }
    }

    /// A header of the given type, with code 0 and checksum 0.
    pub fn new(icmp_type: IcmpType, identifier: u16, sequence: u16) -> (r: IcmpHeader)
        ensures
            r == IcmpHeader::spec_new(icmp_type, identifier, sequence),
            r.icmp_type == icmp_type.code_of(),
            r.code == 0,
            r.checksum == 0,
            r.identifier == identifier,
            r.sequence == sequence,
    {
        IcmpHeader { icmp_type: icmp_type.to_u8(), code: 0, checksum: 0, identifier, sequence }
    }

    /// Encodes the header.
    pub fn to_bytes(&self) -> (r: [u8; 8])
        ensures
            r@ == self.spec_bytes(),
    {
        let checksum = u16_to_be(self.checksum);
        let identifier = u16_to_be(self.identifier);
        let sequence = u16_to_be(self.sequence);
        let bytes = [
            self.icmp_type,
            self.code,
            checksum.0,
            checksum.1,
            identifier.0,
            identifier.1,
            sequence.0,
            sequence.1,
        ];
        assert(bytes@ =~= self.spec_bytes());
        bytes
    }

    /// Decodes a header from the first eight bytes of `bytes`; fewer bytes are
    /// an error.
    pub fn from_bytes(bytes: &[u8]) -> (r: Result<IcmpHeader, PingError>)
        ensures
            bytes@.len() < 8 ==> is_invalid_packet(r, "ICMP header must be at least 8 bytes"@),
            bytes@.len() >= 8 ==> r == Ok::<IcmpHeader, PingError>(IcmpHeader::spec_parse(bytes@)),
    {
        if bytes.len() < 8 {
            return Err(PingError::InvalidPacket(String::from_str("ICMP header must be at least 8 bytes")));
        }
        Ok(IcmpHeader {
            icmp_type: bytes[0],
            code: bytes[1],
            checksum: u16_from_be(bytes[2], bytes[3]),
            identifier: u16_from_be(bytes[4], bytes[5]),
            sequence: u16_from_be(bytes[6], bytes[7]),
        })
    }
}

/// Decoding an encoded header gives it back.
pub proof fn lemma_header_decode_encode(h: IcmpHeader)
    ensures
        IcmpHeader::spec_parse(h.spec_bytes()) == h,
        h.spec_bytes().len() == 8,
{
}

/// Encoding the header decoded from eight bytes gives those bytes back.
pub proof fn lemma_header_encode_decode(b: Seq<u8>)
    requires
        b.len() == 8,
    ensures
        IcmpHeader::spec_parse(b).spec_bytes() == b,
{
    assert(IcmpHeader::spec_parse(b).spec_bytes() =~= b);
}

/// A new header carries exactly the given type code, identifier and sequence
/// number, with code 0 and checksum 0.
pub proof fn lemma_new_header_fields(icmp_type: IcmpType, identifier: u16, sequence: u16)
    ensures
        IcmpHeader::spec_new(icmp_type, identifier, sequence).identifier == identifier,
        IcmpHeader::spec_new(icmp_type, identifier, sequence).sequence == sequence,
        IcmpHeader::spec_new(icmp_type, identifier, sequence).code == 0,
        IcmpHeader::spec_new(icmp_type, identifier, sequence).checksum == 0,
        IcmpHeader::spec_new(IcmpType::EchoRequest, identifier, sequence).icmp_type == 8,
        IcmpHeader::spec_new(IcmpType::EchoReply, identifier, sequence).icmp_type == 0,
{
}

/// Replacing the checksum of a header changes nothing else.
pub proof fn lemma_with_checksum_fields(h: IcmpHeader, c: u16)
    ensures
        h.with_checksum(c).checksum == c,
        h.with_checksum(c).icmp_type == h.icmp_type,
        h.with_checksum(c).code == h.code,
        h.with_checksum(c).identifier == h.identifier,
        h.with_checksum(c).sequence == h.sequence,
{
}

/// The encoding of a header is its type code, its code, then checksum,
/// identifier and sequence number, each high byte first.
pub proof fn lemma_header_bytes_layout(h: IcmpHeader)
    ensures
        h.spec_bytes().len() == 8,
        h.spec_bytes()[0] == h.icmp_type,
        h.spec_bytes()[1] == h.code,
        h.spec_bytes()[2] * 256 + h.spec_bytes()[3] == h.checksum,
        h.spec_bytes()[4] * 256 + h.spec_bytes()[5] == h.identifier,
        h.spec_bytes()[6] * 256 + h.spec_bytes()[7] == h.sequence,
{
}

/// An ICMP packet: header and payload.
#[derive(Debug, Clone)]
pub struct IcmpPacket {
    /// The header.
    pub header: IcmpHeader,
    /// The payload.
    pub payload: Vec<u8>,
}

impl IcmpPacket {
    /// The bytes of the packet on the wire: the encoded header, then the payload.
    pub open spec fn wire(self) -> Seq<u8> {
        self.header.spec_bytes() + self.payload@
    }

    /// The bytes of the packet with a zero checksum field: those over which
    /// the checksum is computed.
    pub open spec fn unsummed_wire(self) -> Seq<u8> {
        self.header.with_checksum(0).spec_bytes() + self.payload@
    }

    /// The checksum that [`IcmpPacket::to_bytes`] writes into the packet.
    pub open spec fn spec_checksum_value(self) -> u16 {
        spec_checksum(self.unsummed_wire())
    }

    /// A new echo request of the given identifier, sequence number and payload.
    pub fn new_echo_request(identifier: u16, sequence: u16, payload: Vec<u8>) -> (r: IcmpPacket)
        ensures
            r.header == IcmpHeader::spec_new(IcmpType::EchoRequest, identifier, sequence),
            r.header.icmp_type == 8,
            r.header.code == 0,
            r.header.checksum == 0,
            r.header.identifier == identifier,
            r.header.sequence == sequence,
            r.payload@ == payload@,
    {
        IcmpPacket {
            header: IcmpHeader::new(IcmpType::EchoRequest, identifier, sequence),
            payload,
        }
    }

    /// Encodes the packet with the checksum that its header holds.
    pub fn to_bytes_without_checksum(&self) -> (r: Vec<u8>)
        ensures
            r@ == self.wire(),
    {
        let header_bytes = self.header.to_bytes();
        let mut bytes: Vec<u8> = Vec::new();
        bytes.extend_from_slice(vstd::array::array_as_slice(&header_bytes));
        bytes.extend_from_slice(self.payload.as_slice());
        assert(bytes@ =~= self.wire());
        bytes
    }

    /// Computes the checksum over the packet with a zero checksum field, stores
    /// it in the header and encodes the packet.
    pub fn to_bytes(&mut self) -> (r: Vec<u8>)
        requires
            word_sum(old(self).unsummed_wire()) <= u32::MAX,
        ensures
            final(self).header == old(self).header.with_checksum(old(self).spec_checksum_value()),
            final(self).header.icmp_type == old(self).header.icmp_type,
            final(self).header.code == old(self).header.code,
            final(self).header.identifier == old(self).header.identifier,
            final(self).header.sequence == old(self).header.sequence,
            final(self).header.checksum == spec_checksum(
                old(self).header.with_checksum(0).spec_bytes() + old(self).payload@,
            ),
            final(self).payload@ == old(self).payload@,
            IcmpHeader::spec_parse(r@).icmp_type == old(self).header.icmp_type,
            IcmpHeader::spec_parse(r@).code == old(self).header.code,
            IcmpHeader::spec_parse(r@).identifier == old(self).header.identifier,
            IcmpHeader::spec_parse(r@).sequence == old(self).header.sequence,
            r@.skip(8) == old(self).payload@,
            r@ == final(self).wire(),
            spec_checksum(r@) == 0,
    {
        self.header.checksum = 0;
        let bytes = self.to_bytes_without_checksum();
        let c = calculate(bytes.as_slice());
        self.header.checksum = c;
        let out = self.to_bytes_without_checksum();
        proof {
            let s = bytes@;
            lemma_checksum_field_verifies(s, 2);
            assert(out@ =~= s.update(2, be_high(c)).update(3, be_low(c)));
        }
        out
    }

    /// Decodes a packet: the first eight bytes are the header, the rest is the
    /// payload. Fewer than eight bytes are an error.
    pub fn from_bytes(bytes: &[u8]) -> (r: Result<IcmpPacket, PingError>)
        ensures
            bytes@.len() < 8 ==> is_invalid_packet(r, "ICMP packet must be at least 8 bytes"@),
            bytes@.len() >= 8 ==> (r matches Ok(p) && p.header == IcmpHeader::spec_parse(bytes@)
                && p.payload@ == bytes@.skip(8)),
    {
        if bytes.len() < 8 {
            return Err(PingError::InvalidPacket(String::from_str("ICMP packet must be at least 8 bytes")));
        }
        let header = match IcmpHeader::from_bytes(slice_subrange(bytes, 0, 8)) {
            Ok(h) => h,
            Err(e) => {
                return Err(e);
            },
        };
        let payload = slice_to_vec(slice_subrange(bytes, 8, bytes.len()));
        assert(bytes@.subrange(0, 8) =~= bytes@.take(8));
        Ok(IcmpPacket { header, payload })
    }

    /// Checks the checksum of the packet as it is encoded.
    pub fn verify_checksum(&self) -> (r: bool)
        requires
            word_sum(self.wire()) <= u32::MAX,
        ensures
            r == (spec_checksum(self.wire()) == 0),
    {
        let bytes = self.to_bytes_without_checksum();
        verify(bytes.as_slice())
    }
}

/// Decoding the encoding of a packet gives back its header and its payload.
pub proof fn lemma_packet_decode_encode(p: IcmpPacket)
    ensures
        p.wire().len() >= 8,
        IcmpHeader::spec_parse(p.wire()) == p.header,
        p.wire().skip(8) == p.payload@,
{
    assert(p.wire().skip(8) =~= p.payload@);
}

/// Encoding the packet decoded from at least eight bytes gives those bytes back.
pub proof fn lemma_packet_encode_decode(b: Seq<u8>)
    requires
        b.len() >= 8,
    ensures
        IcmpHeader::spec_parse(b).spec_bytes() + b.skip(8) == b,
{
    lemma_header_encode_decode(b.subrange(0, 8));
    assert(IcmpHeader::spec_parse(b) == IcmpHeader::spec_parse(b.subrange(0, 8)));
    assert(IcmpHeader::spec_parse(b).spec_bytes() + b.skip(8) =~= b);
}

/// A packet as [`IcmpPacket::to_bytes`] leaves it verifies: its encoding has
/// checksum zero.
pub proof fn lemma_summed_packet_verifies(p: IcmpPacket)
    ensures
        spec_checksum(
            IcmpPacket { header: p.header.with_checksum(p.spec_checksum_value()), payload: p.payload }.wire(),
        ) == 0,
{
    let s = p.unsummed_wire();
    let q = IcmpPacket { header: p.header.with_checksum(p.spec_checksum_value()), payload: p.payload };
    lemma_checksum_field_verifies(s, 2);
    assert(q.wire() =~= s.update(2, be_high(spec_checksum(s))).update(3, be_low(spec_checksum(s))));
}

} // verus!
