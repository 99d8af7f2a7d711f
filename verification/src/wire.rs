//! IPv4 and TCP header framing: reading the fields the stack needs out of a
//! received frame, and writing the headers of an outgoing segment. The byte
//! work is done by `etherparse`; the contracts below say what it does.

use vstd::prelude::*;

verus! {

/// The protocol number of TCP in the IPv4 header.
pub const IP_PROTOCOL_TCP: u8 = 6;

/// Length of an IPv4 header without options.
pub const IPV4_HEADER_LEN: usize = 20;

/// Length of a TCP header without options.
pub const TCP_HEADER_LEN: usize = 20;

/// The fields of a received IPv4 header that the stack reads.
#[derive(Clone, Copy, Debug, PartialEq, Eq, Structural)]
pub struct Ipv4Fields {
    /// Source address, as the big-endian number of its four bytes.
    pub source: u32,
    /// Destination address, as the big-endian number of its four bytes.
    pub destination: u32,
    /// The protocol number of the payload.
    pub protocol: u8,
    /// Length of the header, options included, in bytes.
    pub header_len: usize,
}

/// The fields of a received TCP header that the stack reads.
#[derive(Clone, Copy, Debug, PartialEq, Eq, Structural)]
pub struct TcpFields {
    pub source_port: u16,
    pub destination_port: u16,
    pub sequence_number: u32,
    pub syn: bool,
    pub ack: bool,
    /// Length of the header, options included, in bytes.
    pub header_len: usize,
}

/// The big-endian 16-bit number stored at `b[i..i+2]`.
pub open spec fn be16_at(b: Seq<u8>, i: int) -> int {
    b[i] * 0x100 + b[i + 1]
}

/// The big-endian 32-bit number stored at `b[i..i+4]`.
pub open spec fn be32_at(b: Seq<u8>, i: int) -> int {
    be16_at(b, i) * 0x1_0000 + be16_at(b, i + 2)
}

/// The two bytes of `x` in network order.
pub open spec fn u16_be(x: u16) -> Seq<u8> {
    seq![(x / 0x100) as u8, (x % 0x100) as u8]
}

/// The four bytes of `x` in network order.
pub open spec fn u32_be(x: u32) -> Seq<u8> {
    u16_be((x / 0x1_0000) as u16) + u16_be((x % 0x1_0000) as u16)
}

/// What `etherparse::Ipv4HeaderSlice::from_slice` accepts, and the fields read
/// from an accepted header: at least 20 bytes, version 4, an IHL of at least 5
/// words that fits in the slice, and a total length that covers the header.
pub open spec fn ipv4_parse(b: Seq<u8>) -> Option<Ipv4Fields> {
    if b.len() < 20 {
        None
    } else {
        let version = b[0] / 16;
        let ihl = b[0] % 16;
        if version != 4 || ihl < 5 || b.len() < ihl * 4 || be16_at(b, 2) < ihl * 4 {
            None
        } else {
            Some(
                Ipv4Fields {
                    source: be32_at(b, 12) as u32,
                    destination: be32_at(b, 16) as u32,
                    protocol: b[9],
                    header_len: (ihl * 4) as usize,
                },
            )
        }
    }
}

/// What `etherparse::TcpHeaderSlice::from_slice` accepts, and the fields read
/// from an accepted header: at least 20 bytes and a data offset of at least 5
/// words that fits in the slice.
pub open spec fn tcp_parse(b: Seq<u8>) -> Option<TcpFields> {
    if b.len() < 20 {
        None
    } else {
        let offset = b[12] / 16;
        if offset < 5 || b.len() < offset * 4 {
            None
        } else {
            Some(
                TcpFields {
                    source_port: be16_at(b, 0) as u16,
                    destination_port: be16_at(b, 2) as u16,
                    sequence_number: be32_at(b, 4) as u32,
                    syn: b[13] & 2 != 0,
                    ack: b[13] & 16 != 0,
                    header_len: (offset * 4) as usize,
                },
            )
        }
    }
}

/// The 20 bytes that `etherparse::TcpHeader::write` produces for a header made
/// by `TcpHeader::new` with the given acknowledgment number and SYN/ACK flags:
/// no options, a zero checksum and a zero urgent pointer.
pub open spec fn tcp_header_bytes(
    source_port: u16,
    destination_port: u16,
    sequence_number: u32,
    acknowledgment_number: u32,
    syn: bool,
    ack: bool,
    window_size: u16,
) -> Seq<u8> {
    let flags: u8 = ((if syn { 2int } else { 0int }) + (if ack { 16int } else { 0int })) as u8;
    u16_be(source_port) + u16_be(destination_port) + u32_be(sequence_number) + u32_be(
        acknowledgment_number,
    ) + seq![0x50u8, flags] + u16_be(window_size) + seq![0u8, 0u8, 0u8, 0u8]
}

/// Adds the upper 16 bits of `t` to its lower 16 bits (one end-around carry).
pub open spec fn fold16(t: int) -> int {
    t / 0x1_0000 + t % 0x1_0000
}

/// The IPv4 header checksum that `etherparse::Ipv4Header::write` computes for
/// a header made by `Ipv4Header::new`: the ones' complement of the ones'
/// complement sum of the header's 16-bit words other than the checksum itself
/// (RFC 791). The words are 0x4500, the total length, the identification 0,
/// 0x4000 (don't fragment), TTL and protocol, and the two halves of each address.
#[verifier::opaque]
pub open spec fn ipv4_checksum(
    payload_len: u16,
    time_to_live: u8,
    protocol: u8,
    source: u32,
    destination: u32,
) -> u16 {
    let total: int = 0x4500 + (payload_len + 20) + 0x4000 + time_to_live * 0x100 + protocol
        + source / 0x1_0000 + source % 0x1_0000 + destination / 0x1_0000 + destination % 0x1_0000;
    (0xffff - fold16(fold16(total))) as u16
}

/// The 20 bytes that `etherparse::Ipv4Header::write` produces for
/// `Ipv4Header::new(payload_len, time_to_live, protocol, source, destination)`:
/// version 4 with IHL 5, no DSCP/ECN, the total length, identification 0, the
/// don't-fragment flag, the TTL, the protocol, the header checksum and the two
/// addresses.
pub open spec fn ipv4_header_bytes(
    payload_len: u16,
    time_to_live: u8,
    protocol: u8,
    source: u32,
    destination: u32,
) -> Seq<u8> {
    seq![0x45u8, 0u8] + u16_be((payload_len + 20) as u16) + seq![
        0u8,
        0u8,
        0x40u8,
        0u8,
        time_to_live,
        protocol,
    ] + u16_be(ipv4_checksum(payload_len, time_to_live, protocol, source, destination))
        + u32_be(source) + u32_be(destination)
}

/// Calls `etherparse::Ipv4HeaderSlice::from_slice` and reads the source,
/// destination, protocol and header length of an accepted header. The contract
/// restates the checks and the field offsets of that function.
#[verifier::external_body]
pub(crate) fn parse_ipv4_header(bytes: &[u8]) -> (r: Option<Ipv4Fields>)
    ensures
        r == ipv4_parse(bytes@),
{
    match etherparse::Ipv4HeaderSlice::from_slice(bytes) {
        Ok(h) => Some(Ipv4Fields {
            source: u32::from_be_bytes(h.source()),
            destination: u32::from_be_bytes(h.destination()),
            protocol: h.protocol(),
            header_len: h.slice().len(),
        }),
        Err(_) => None,
    }
}

/// Calls `etherparse::TcpHeaderSlice::from_slice` and reads the ports, the
/// sequence number, the SYN and ACK flags and the header length of an accepted
/// header. The contract restates the checks and the field offsets of that function.
#[verifier::external_body]
pub(crate) fn parse_tcp_header(bytes: &[u8]) -> (r: Option<TcpFields>)
    ensures
        r == tcp_parse(bytes@),
{
    match etherparse::TcpHeaderSlice::from_slice(bytes) {
        Ok(h) => Some(TcpFields {
            source_port: h.source_port(),
            destination_port: h.destination_port(),
            sequence_number: h.sequence_number(),
            syn: h.syn(),
            ack: h.ack(),
            header_len: h.slice().len(),
        }),
        Err(_) => None,
    }
}

/// Builds a header with `etherparse::TcpHeader::new`, sets the acknowledgment
/// number and the SYN/ACK flags, and serialises it with `TcpHeader::write` into
/// a fresh vector (writing to a vector cannot fail). The contract restates the
/// byte layout that `write` produces; it computes no checksum.
#[verifier::external_body]
pub(crate) fn write_tcp_header(
    source_port: u16,
    destination_port: u16,
    sequence_number: u32,
    acknowledgment_number: u32,
    syn: bool,
    ack: bool,
    window_size: u16,
) -> (r: Vec<u8>)
    ensures
        r@ == tcp_header_bytes(source_port, destination_port, sequence_number, acknowledgment_number, syn, ack, window_size),
{
    let mut h = etherparse::TcpHeader::new(source_port, destination_port, sequence_number, window_size);
    h.acknowledgment_number = acknowledgment_number;
    h.syn = syn;
    h.ack = ack;
    let mut out: Vec<u8> = Vec::new();
    h.write(&mut out).unwrap();
    out
}

/// Builds a header with `etherparse::Ipv4Header::new` and serialises it with
/// `Ipv4Header::write`, which fills in the header checksum. `write` refuses a
/// payload length above 65515 (the total length must fit in 16 bits), hence the
/// `requires`. The contract restates the bytes `write` produces, checksum included.
#[verifier::external_body]
pub(crate) fn write_ipv4_header(
    payload_len: u16,
    time_to_live: u8,
    protocol: u8,
    source: u32,
    destination: u32,
) -> (r: Vec<u8>)
    requires
        payload_len <= 65515,
    ensures
        r@ == ipv4_header_bytes(payload_len, time_to_live, protocol, source, destination),
{
    let h = etherparse::Ipv4Header::new(payload_len, time_to_live, protocol, source.to_be_bytes(), destination.to_be_bytes());
    let mut out: Vec<u8> = Vec::new();
    h.write(&mut out).unwrap();
    out
}


/// How a received frame is handled by the packet loop.
#[derive(Clone, Copy, Debug, PartialEq, Eq, Structural)]
pub enum FrameKind {
    /// Not an IPv4 packet that `etherparse` accepts; ignored.
    NotIpv4,
    /// An IPv4 packet whose payload is not TCP; ignored.
    NotTcp,
    /// A TCP packet whose TCP header is malformed; ignored.
    BadTcp,
    /// A TCP segment with these headers.
    Segment(Ipv4Fields, TcpFields),
}

/// The classification of a received frame: IPv4 header first, then the
/// protocol, then the TCP header that follows the IPv4 header.
pub open spec fn classify(b: Seq<u8>) -> FrameKind {
    match ipv4_parse(b) {
        None => FrameKind::NotIpv4,
        Some(ip) => if ip.protocol != IP_PROTOCOL_TCP {
            FrameKind::NotTcp
        } else {
            match tcp_parse(b.skip(ip.header_len as int)) {
                None => FrameKind::BadTcp,
                Some(tcp) => FrameKind::Segment(ip, tcp),
            }
        },
    }
}

/// Reading back the two bytes of `x` in network order gives `x`.
proof fn lemma_be16_roundtrip(x: u16, b: Seq<u8>, i: int)
    requires
        0 <= i,
        i + 2 <= b.len(),
        b.subrange(i, i + 2) == u16_be(x),
    ensures
        be16_at(b, i) == x,
{
    assert(b[i] == b.subrange(i, i + 2)[0]);
    assert(b[i + 1] == b.subrange(i, i + 2)[1]);
}

/// Reading back the four bytes of `x` in network order gives `x`.
proof fn lemma_be32_roundtrip(x: u32, b: Seq<u8>, i: int)
    requires
        0 <= i,
        i + 4 <= b.len(),
        b.subrange(i, i + 4) == u32_be(x),
    ensures
        be32_at(b, i) == x,
{
    let hi = (x / 0x1_0000) as u16;
    let lo = (x % 0x1_0000) as u16;
    assert(b.subrange(i, i + 2) =~= b.subrange(i, i + 4).subrange(0, 2));
    assert(b.subrange(i + 2, i + 4) =~= b.subrange(i, i + 4).subrange(2, 4));
    assert(u32_be(x).subrange(0, 2) =~= u16_be(hi));
    assert(u32_be(x).subrange(2, 4) =~= u16_be(lo));
    lemma_be16_roundtrip(hi, b, i);
    lemma_be16_roundtrip(lo, b, i + 2);
}

/// The fields of a TCP header written with the SYN and ACK flags.
pub open spec fn syn_ack_fields(
    source_port: u16,
    destination_port: u16,
    sequence_number: u32,
) -> TcpFields {
    TcpFields { source_port, destination_port, sequence_number, syn: true, ack: true, header_len: 20 }
}

/// A segment made of an IPv4 header carrying TCP, followed by a SYN-ACK TCP
/// header, is read back as that TCP segment: what the stack writes, its own
/// parser reads as written.
pub proof fn lemma_segment_roundtrip(
    time_to_live: u8,
    source: u32,
    destination: u32,
    source_port: u16,
    destination_port: u16,
    sequence_number: u32,
    acknowledgment_number: u32,
    window_size: u16,
)
    ensures
        classify(
            ipv4_header_bytes(20, time_to_live, IP_PROTOCOL_TCP, source, destination)
                + tcp_header_bytes(
                source_port,
                destination_port,
                sequence_number,
                acknowledgment_number,
                true,
                true,
                window_size,
            ),
        ) == FrameKind::Segment(
            Ipv4Fields { source, destination, protocol: IP_PROTOCOL_TCP, header_len: 20 },
            syn_ack_fields(source_port, destination_port, sequence_number),
        ),
{
    let ipb = ipv4_header_bytes(20, time_to_live, IP_PROTOCOL_TCP, source, destination);
    assert(ipb.len() == 20);
    assert(ipb.subrange(2, 4) =~= u16_be(40u16));
    assert(ipb.subrange(12, 16) =~= u32_be(source));
    assert(ipb.subrange(16, 20) =~= u32_be(destination));
    let tb = tcp_header_bytes(
        source_port,
        destination_port,
        sequence_number,
        acknowledgment_number,
        true,
        true,
        window_size,
    );
    let b = ipb + tb;
    assert(tb.len() == 20);
    assert(b.subrange(0, 20) =~= ipb);
    assert(b.skip(20) =~= tb);
    assert(b[0] == 0x45u8);
    assert(b[9] == IP_PROTOCOL_TCP);
    assert(b.subrange(2, 4) =~= ipb.subrange(2, 4));
    assert(b.subrange(12, 16) =~= ipb.subrange(12, 16));
    assert(b.subrange(16, 20) =~= ipb.subrange(16, 20));
    lemma_be16_roundtrip(40u16, b, 2);
    lemma_be32_roundtrip(source, b, 12);
    lemma_be32_roundtrip(destination, b, 16);
    assert(tb.subrange(0, 2) =~= u16_be(source_port));
    assert(tb.subrange(2, 4) =~= u16_be(destination_port));
    assert(tb.subrange(4, 8) =~= u32_be(sequence_number));
    lemma_be16_roundtrip(source_port, tb, 0);
    lemma_be16_roundtrip(destination_port, tb, 2);
    lemma_be32_roundtrip(sequence_number, tb, 4);
    assert(tb[12] == 0x50u8);
    assert(tb[13] == 18u8);
    assert(18u8 & 2u8 != 0u8) by (bit_vector);
    assert(18u8 & 16u8 != 0u8) by (bit_vector);
}

/// How a frame is classified, in terms of the two header parsers: a frame the
/// IPv4 parser refuses is `NotIpv4`; an IPv4 packet not carrying TCP is
/// `NotTcp`; otherwise the TCP parser is given everything after the IPv4
/// header (options included), and the frame is a segment with exactly the
/// fields both parsers read, or `BadTcp` when the TCP parser refuses.
pub proof fn lemma_classify_by_parsers(b: Seq<u8>)
    ensures
        ipv4_parse(b) is None <==> classify(b) == FrameKind::NotIpv4,
        ipv4_parse(b) matches Some(ip) && ip.protocol != IP_PROTOCOL_TCP ==> classify(b)
            == FrameKind::NotTcp,
        (match ipv4_parse(b) {
            Some(ip) => ip.protocol == IP_PROTOCOL_TCP ==> (match tcp_parse(
                b.skip(ip.header_len as int),
            ) {
                Some(t) => classify(b) == FrameKind::Segment(ip, t),
                None => classify(b) == FrameKind::BadTcp,
            }),
            None => true,
        }),
        classify(b) matches FrameKind::Segment(ip, t) ==> ipv4_parse(b) == Some(ip) && tcp_parse(
            b.skip(ip.header_len as int),
        ) == Some(t),
{
}

/// A well-formed TCP header behind an IPv4 header carrying TCP is classified
/// as a segment, whatever options it carries: its header length is four times
/// its data offset, and its ports, sequence number and flags are read from the
/// bytes right after the IPv4 header.
pub proof fn lemma_classify_tcp_with_options(b: Seq<u8>, ip: Ipv4Fields)
    requires
        ipv4_parse(b) == Some(ip),
        ip.protocol == IP_PROTOCOL_TCP,
        b.skip(ip.header_len as int).len() >= 20,
        b.skip(ip.header_len as int)[12] / 16 >= 5,
        b.skip(ip.header_len as int).len() >= (b.skip(ip.header_len as int)[12] / 16) * 4,
    ensures
        classify(b) is Segment,
        classify(b)->Segment_0 == ip,
        classify(b)->Segment_1.header_len == (b.skip(ip.header_len as int)[12] / 16) * 4,
        classify(b)->Segment_1.source_port == be16_at(b.skip(ip.header_len as int), 0),
        classify(b)->Segment_1.destination_port == be16_at(b.skip(ip.header_len as int), 2),
        classify(b)->Segment_1.sequence_number == be32_at(b.skip(ip.header_len as int), 4),
        classify(b)->Segment_1.syn == (b.skip(ip.header_len as int)[13] & 2 != 0),
        classify(b)->Segment_1.ack == (b.skip(ip.header_len as int)[13] & 16 != 0),
{
}

/// Decides what to do with a frame read from the network device.
pub fn classify_frame(frame: &[u8]) -> (r: FrameKind)
    ensures
        r == classify(frame@),
        (match ipv4_parse(frame@) {
            Some(ip) => ip.protocol == IP_PROTOCOL_TCP ==> (match tcp_parse(
                frame@.skip(ip.header_len as int),
            ) {
                Some(t) => r == FrameKind::Segment(ip, t),
                None => r == FrameKind::BadTcp,
            }),
            None => r == FrameKind::NotIpv4,
        }),
{
    match parse_ipv4_header(frame) {
        None => FrameKind::NotIpv4,
        Some(ip) => {
            if ip.protocol != IP_PROTOCOL_TCP {
                return FrameKind::NotTcp;
            }
            let rest = &frame[ip.header_len..frame.len()];
            assert(rest@ =~= frame@.skip(ip.header_len as int));
            match parse_tcp_header(rest) {
                None => FrameKind::BadTcp,
                Some(tcp) => FrameKind::Segment(ip, tcp),
            }
        },
    }
}

} // verus!
