//! The per-connection TCP state machine (RFC 793): sequence spaces, the
//! passive-open handshake, and the closing transitions.

use std::collections::VecDeque;
use vstd::prelude::*;

use crate::seqnum;
use crate::wire;
use crate::wire::{
    FrameKind, IP_PROTOCOL_TCP, Ipv4Fields, TcpFields, write_ipv4_header, write_tcp_header,
};

verus! {

/// Size of the buffer an outgoing segment is written into.
pub const SEND_BUFFER_LEN: usize = 1500;

/// Time-to-live of the segments this stack sends.
pub const DEFAULT_TTL: u8 = 64;

/// Window size advertised by a fresh connection, in both directions.
pub const INITIAL_WINDOW: u16 = 10;

/// Errors that the stack reports to its users.
#[derive(Clone, Copy, Debug, PartialEq, Eq, Structural)]
pub enum TcpError {
    /// The port is already bound by a listener.
    AddrInUse,
    /// The stream's connection no longer exists.
    ConnectionAborted,
    /// The operation cannot complete without blocking.
    WouldBlock,
    /// The connection is already closed.
    NotConnected,
}

/// The states of a connection that was opened passively.
#[derive(Clone, Copy, Debug, PartialEq, Eq, Structural)]
pub enum State {
    SynRecv,
    Establish,
    /// First closing phase: our FIN is pending.
    FinWait1,
    /// Second closing phase: our FIN was acknowledged.
    FinWait2,
    /// Fully closed, waiting for the peer to see the last ACK.
    TimeWait,
}

/// Send sequence space (RFC 793, section 3.2).
#[derive(Clone, Copy, Debug, PartialEq, Eq, Structural)]
pub struct SendSequenceSpace {
    /// Oldest unacknowledged sequence number.
    pub una: u32,
    /// Next sequence number to send.
    pub nxt: u32,
    /// Send window.
    pub wnd: u16,
    /// Urgent data pending.
    pub up: bool,
    /// Sequence number of the segment that last updated the window.
    pub wl1: u32,
    /// Acknowledgment number of the segment that last updated the window.
    pub wl2: u32,
    /// Initial send sequence number.
    pub iss: u32,
}

/// Receive sequence space (RFC 793, section 3.2).
#[derive(Clone, Copy, Debug, PartialEq, Eq, Structural)]
pub struct RecvSequenceSpace {
    /// Next sequence number expected.
    pub nxt: u32,
    /// Receive window.
    pub wnd: u16,
    /// Urgent data received.
    pub up: bool,
    /// Initial receive sequence number.
    pub irs: u32,
}

/// One TCP connection.
pub struct Connection {
    pub state: State,
    pub send: SendSequenceSpace,
    pub recv: RecvSequenceSpace,
    /// Set once the user has asked to close the connection.
    pub closed: bool,
    /// Bytes received and not yet read by the user.
    pub incoming: VecDeque<u8>,
    /// Bytes written by the user and not yet acknowledged by the peer.
    pub unacked: VecDeque<u8>,
    /// Sequence number of our FIN, once sent.
    pub closed_at: Option<u32>,
}

/// The abstract value of a connection: its fields, with the two byte queues
/// seen as sequences.
pub struct ConnectionView {
    pub state: State,
    pub send: SendSequenceSpace,
    pub recv: RecvSequenceSpace,
    pub closed: bool,
    pub incoming: Seq<u8>,
    pub unacked: Seq<u8>,
    pub closed_at: Option<u32>,
}

impl View for Connection {
    type V = ConnectionView;

    open spec fn view(&self) -> ConnectionView {
        ConnectionView {
            state: self.state,
            send: self.send,
            recv: self.recv,
            closed: self.closed,
            incoming: self.incoming@,
            unacked: self.unacked@,
            closed_at: self.closed_at,
        }
    }
}

/// What handling one received segment produced.
pub struct PacketOutcome {
    /// The segment to send back (IPv4 header followed by TCP header), if any.
    pub reply: Option<Vec<u8>>,
    /// Room left in the send buffer after the reply was written into it, or 0
    /// when nothing was sent.
    pub written: usize,
}

/// The state a connection enters when the user closes it.
pub open spec fn state_after_close(s: State) -> State {
    match s {
        State::SynRecv | State::Establish => State::FinWait1,
        _ => s,
    }
}

/// What closing reports: only a connection in TIME-WAIT is already closed.
pub open spec fn close_result(s: State) -> Result<(), TcpError> {
    if s == State::TimeWait {
        Err(TcpError::NotConnected)
    } else {
        Ok(())
    }
}

/// The connection after the user closes it.
pub open spec fn close_view(v: ConnectionView) -> ConnectionView {
    ConnectionView { state: state_after_close(v.state), closed: true, ..v }
}

/// The connection created for an incoming SYN with sequence number `seq`.
pub open spec fn accepted_view(seq: u32) -> ConnectionView {
    ConnectionView {
        state: State::SynRecv,
        send: SendSequenceSpace { iss: 0, una: 0, nxt: 1, wnd: 10, up: false, wl1: 0, wl2: 0 },
        recv: RecvSequenceSpace { nxt: seqnum::seq_add(seq, 1), wnd: 10, up: false, irs: seq },
        closed: false,
        incoming: Seq::empty(),
        unacked: Seq::empty(),
        closed_at: None,
    }
}

/// A SYN arriving in SYN-RECEIVED is answered with a SYN-ACK.
pub open spec fn answers_syn(v: ConnectionView, tcp: TcpFields) -> bool {
    v.state == State::SynRecv && tcp.syn
}

/// An ACK (without SYN) arriving in SYN-RECEIVED completes the handshake.
pub open spec fn completes_handshake(v: ConnectionView, tcp: TcpFields) -> bool {
    v.state == State::SynRecv && !tcp.syn && tcp.ack
}

/// The connection after a segment with header `tcp` arrived.
pub open spec fn after_packet(v: ConnectionView, tcp: TcpFields) -> ConnectionView {
    if completes_handshake(v, tcp) {
        ConnectionView {
            state: State::Establish,
            recv: RecvSequenceSpace { nxt: seqnum::seq_add(v.recv.nxt, 1), ..v.recv },
            ..v
        }
    } else {
        v
    }
}

/// The SYN-ACK answering a SYN: an IPv4 header back to the sender, carrying a
/// TCP header with the ports swapped, our initial sequence number, the SYN's
/// sequence number plus one as acknowledgment, and our send window.
pub open spec fn syn_ack_reply(ip: Ipv4Fields, tcp: TcpFields, send: SendSequenceSpace) -> Seq<u8> {
    wire::ipv4_header_bytes(20, DEFAULT_TTL, IP_PROTOCOL_TCP, ip.destination, ip.source)
        + wire::tcp_header_bytes(
        tcp.destination_port,
        tcp.source_port,
        send.iss,
        seqnum::seq_add(tcp.sequence_number, 1),
        true,
        true,
        send.wnd,
    )
}

/// Lays out an outgoing segment in the send buffer: the IPv4 header followed
/// by the TCP header. Reports the room left in the buffer.
pub fn assemble_segment(ip_header: Vec<u8>, tcp_header: Vec<u8>) -> (r: PacketOutcome)
    requires
        ip_header@.len() + tcp_header@.len() <= SEND_BUFFER_LEN,
    ensures
        r.reply matches Some(b) && b@ == ip_header@ + tcp_header@,
        r.written == SEND_BUFFER_LEN - (ip_header@.len() + tcp_header@.len()),
{
    let mut reply = ip_header;
    let mut rest = tcp_header;
    reply.append(&mut rest);
    let written: usize = SEND_BUFFER_LEN - reply.len();
    PacketOutcome { reply: Some(reply), written }
}

impl Connection {
    /// Whether the peer has closed its direction of the connection.
    pub fn is_rsv_closed(&self) -> (r: bool)
        ensures
            r,
    {
        true
    }

    /// Whether the connection can be read from or written to.
    pub fn availablity(&self) -> (r: bool)
        ensures
            r,
    {
        true
    }

    /// Creates the connection for a SYN received on a listening port, in
    /// SYN-RECEIVED, with initial send sequence number 0 and windows of 10.
    pub fn accept(ip: &Ipv4Fields, tcp: &TcpFields) -> (c: Connection)
        ensures
            c@ == accepted_view(tcp.sequence_number),
    {
        Connection {
            state: State::SynRecv,
            send: SendSequenceSpace { iss: 0, una: 0, nxt: 1, wnd: INITIAL_WINDOW, up: false, wl1: 0, wl2: 0 },
            recv: RecvSequenceSpace {
                nxt: tcp.sequence_number.wrapping_add(1),
                wnd: INITIAL_WINDOW,
                up: false,
                irs: tcp.sequence_number,
            },
            closed: false,
            incoming: VecDeque::new(),
            unacked: VecDeque::new(),
            closed_at: None,
        }
    }

    /// Handles a received segment whose headers are `ip` and `tcp`. In
    /// SYN-RECEIVED a SYN is answered with a SYN-ACK and an ACK moves the
    /// connection to ESTABLISHED; any other segment changes nothing.
    pub fn on_packet(&mut self, ip: &Ipv4Fields, tcp: &TcpFields) -> (r: PacketOutcome)
        ensures
            final(self)@ == after_packet(old(self)@, *tcp),
            answers_syn(old(self)@, *tcp) ==> (r.reply matches Some(b) && b@ == syn_ack_reply(
                *ip,
                *tcp,
                old(self).send,
            ) && r.written == SEND_BUFFER_LEN - b@.len() && b@.len() == 40),
            answers_syn(old(self)@, *tcp) ==> (r.reply matches Some(b) && wire::classify(b@)
                == FrameKind::Segment(
                Ipv4Fields {
                    source: ip.destination,
                    destination: ip.source,
                    protocol: IP_PROTOCOL_TCP,
                    header_len: 20,
                },
                wire::syn_ack_fields(tcp.destination_port, tcp.source_port, old(self).send.iss),
            )),
            !answers_syn(old(self)@, *tcp) ==> r.reply is None && r.written == 0,
            answers_syn(old(self)@, *tcp) ==> (r.reply matches Some(b) && b@.subrange(28, 32)
                == wire::u32_be(((tcp.sequence_number + 1) % 0x1_0000_0000) as u32)),
            completes_handshake(old(self)@, *tcp) ==> final(self).state == State::Establish
                && final(self).recv.nxt == (old(self).recv.nxt + 1) % 0x1_0000_0000,
    {
        match self.state {
            State::SynRecv => {
                if tcp.syn {
                    let tcp_bytes = write_tcp_header(
                        tcp.destination_port,
                        tcp.source_port,
                        self.send.iss,
                        tcp.sequence_number.wrapping_add(1),
                        true,
                        true,
                        self.send.wnd,
                    );
                    let tcp_len: usize = tcp_bytes.len();
                    assert(tcp_len == 20);
                    let ip_bytes = write_ipv4_header(
                        tcp_len as u16,
                        DEFAULT_TTL,
                        IP_PROTOCOL_TCP,
                        ip.destination,
                        ip.source,
                    );
                    proof {
                        wire::lemma_segment_roundtrip(
                            DEFAULT_TTL,
                            ip.destination,
                            ip.source,
                            tcp.destination_port,
                            tcp.source_port,
                            self.send.iss,
                            seqnum::seq_add(tcp.sequence_number, 1),
                            self.send.wnd,
                        );
                    }
                    proof {
                        lemma_syn_ack_fields(*ip, *tcp, self.send, tcp.header_len);
                    }
                    return assemble_segment(ip_bytes, tcp_bytes);
                } else if tcp.ack {
                    self.state = State::Establish;
                    self.recv.nxt = self.recv.nxt.wrapping_add(1);
                }
                PacketOutcome { reply: None, written: 0 }
            },
            _ => PacketOutcome { reply: None, written: 0 },
        }
    }

    /// Sends queued data on the network; nothing is sent yet.
    pub fn write() {
    }

    /// Resets the connection with an RST segment; nothing is sent yet.
    pub fn send_rst() {
    }

    /// Periodic processing of the connection (retransmission); nothing to do yet.
    pub fn on_tick() {
    }

    /// Closes the connection from the user's side: marks it closed and, from
    /// SYN-RECEIVED or ESTABLISHED, moves it to FIN-WAIT-1. A connection
    /// already in TIME-WAIT reports `NotConnected`.
    pub fn close(&mut self) -> (r: Result<(), TcpError>)
        ensures
            final(self)@ == close_view(old(self)@),
            r == close_result(old(self).state),
    {
        self.closed = true;
        match self.state {
            State::SynRecv | State::Establish => {
                self.state = State::FinWait1;
            },
            State::FinWait1 | State::FinWait2 => {},
            State::TimeWait => {
                return Err(TcpError::NotConnected);
            },
        }
        Ok(())
    }
}

/// Closing twice leaves the connection as closing once does, and reports the
/// same outcome the second time as the first.
pub proof fn lemma_close_idempotent(v: ConnectionView)
    ensures
        close_view(close_view(v)) == close_view(v),
        close_result(close_view(v).state) == close_result(v.state),
{
}

/// Once the user has closed a connection it is in a closing state, whatever
/// state it was in.
pub proof fn lemma_close_reaches_closing_state(v: ConnectionView)
    ensures
        close_view(v).closed,
        close_view(v).state == State::FinWait1 || close_view(v).state == State::FinWait2
            || close_view(v).state == State::TimeWait,
        close_result(v.state) is Ok ==> close_view(v).state != State::TimeWait,
{
}

/// The passive-open handshake: a connection accepted for a SYN with sequence
/// number `seq` answers a repeated SYN without changing, and an ACK then
/// brings it to ESTABLISHED expecting `seq + 2` (modulo 2^32).
pub proof fn lemma_handshake(seq: u32, syn: TcpFields, ack: TcpFields)
    requires
        syn.syn,
        !ack.syn,
        ack.ack,
    ensures
        after_packet(accepted_view(seq), syn) == accepted_view(seq),
        after_packet(after_packet(accepted_view(seq), syn), ack).state == State::Establish,
        after_packet(after_packet(accepted_view(seq), syn), ack).recv.nxt == seqnum::seq_add(seq, 2),
{
}

/// A segment changes a connection only by completing the handshake: the state
/// either stays or goes from SYN-RECEIVED to ESTABLISHED, only `recv.nxt` moves
/// with it (by one, modulo 2^32), and the send space, the queues and the
/// closing fields never change.
pub proof fn lemma_packet_changes_only_handshake(v: ConnectionView, tcp: TcpFields)
    ensures
        after_packet(v, tcp) == v || (v.state == State::SynRecv && after_packet(v, tcp)
            == (ConnectionView {
            state: State::Establish,
            recv: RecvSequenceSpace { nxt: seqnum::seq_add(v.recv.nxt, 1), ..v.recv },
            ..v
        })),
        after_packet(v, tcp).send == v.send,
        after_packet(v, tcp).incoming == v.incoming,
        after_packet(v, tcp).unacked == v.unacked,
        after_packet(v, tcp).closed == v.closed,
        after_packet(v, tcp).closed_at == v.closed_at,
{
}

/// The SYN-ACK answering a SYN is 40 bytes: an IPv4 header back to the sender
/// followed by a TCP header that comes from the port the SYN went to, goes to
/// the port it came from, carries our initial sequence number, acknowledges
/// exactly the SYN's sequence number plus one (modulo 2^32), sets SYN and ACK,
/// and advertises our send window. None of this depends on the length of the
/// SYN's header (its options).
pub proof fn lemma_syn_ack_fields(ip: Ipv4Fields, tcp: TcpFields, send: SendSequenceSpace, other_len: usize)
    ensures
        syn_ack_reply(ip, tcp, send).len() == 40,
        syn_ack_reply(ip, tcp, send).subrange(20, 22) == wire::u16_be(tcp.destination_port),
        syn_ack_reply(ip, tcp, send).subrange(22, 24) == wire::u16_be(tcp.source_port),
        syn_ack_reply(ip, tcp, send).subrange(24, 28) == wire::u32_be(send.iss),
        syn_ack_reply(ip, tcp, send).subrange(28, 32) == wire::u32_be(
            ((tcp.sequence_number + 1) % 0x1_0000_0000) as u32,
        ),
        syn_ack_reply(ip, tcp, send)[33] == 0x12u8,
        syn_ack_reply(ip, tcp, send).subrange(34, 36) == wire::u16_be(send.wnd),
        syn_ack_reply(ip, tcp, send).subrange(0, 20) == wire::ipv4_header_bytes(
            20,
            DEFAULT_TTL,
            IP_PROTOCOL_TCP,
            ip.destination,
            ip.source,
        ),
        syn_ack_reply(ip, TcpFields { header_len: other_len, ..tcp }, send) == syn_ack_reply(
            ip,
            tcp,
            send,
        ),
{
    let r = syn_ack_reply(ip, tcp, send);
    let i = wire::ipv4_header_bytes(20, DEFAULT_TTL, IP_PROTOCOL_TCP, ip.destination, ip.source);
    assert(i.len() == 20);
    assert(r.subrange(20, 22) =~= wire::u16_be(tcp.destination_port));
    assert(r.subrange(22, 24) =~= wire::u16_be(tcp.source_port));
    assert(r.subrange(24, 28) =~= wire::u32_be(send.iss));
    assert(r.subrange(28, 32) =~= wire::u32_be(((tcp.sequence_number + 1) % 0x1_0000_0000) as u32));
    assert(r.subrange(34, 36) =~= wire::u16_be(send.wnd));
    assert(r.subrange(0, 20) =~= i);
}

/// A connection accepted for a SYN records the SYN's sequence number as the
/// initial receive sequence number and expects the next one (modulo 2^32); it
/// starts in SYN-RECEIVED with initial send sequence number 0, the next to
/// send 1, windows of 10, empty queues, and is not closed.
pub proof fn lemma_accept_fields(seq: u32)
    ensures
        accepted_view(seq).state == State::SynRecv,
        accepted_view(seq).recv.irs == seq,
        accepted_view(seq).recv.nxt == (seq + 1) % 0x1_0000_0000,
        seqnum::seq_lt(accepted_view(seq).recv.irs, accepted_view(seq).recv.nxt),
        accepted_view(seq).send.iss == 0 && accepted_view(seq).send.una == 0
            && accepted_view(seq).send.nxt == 1,
        accepted_view(seq).send.wnd == 10 && accepted_view(seq).recv.wnd == 10,
        accepted_view(seq).incoming.len() == 0 && accepted_view(seq).unacked.len() == 0,
        !accepted_view(seq).closed && accepted_view(seq).closed_at is None,
{
}

/// Closing changes only the state and the closed flag: SYN-RECEIVED and
/// ESTABLISHED go to FIN-WAIT-1, other states stay; it is refused with
/// `NotConnected` exactly in TIME-WAIT; received and unacknowledged bytes and
/// the sequence spaces are kept.
pub proof fn lemma_close_fields(v: ConnectionView)
    ensures
        close_view(v).closed,
        (v.state == State::SynRecv || v.state == State::Establish) ==> close_view(v).state
            == State::FinWait1,
        (v.state != State::SynRecv && v.state != State::Establish) ==> close_view(v).state
            == v.state,
        close_result(v.state) is Ok <==> v.state != State::TimeWait,
        close_result(v.state) is Err ==> close_result(v.state) == Err::<(), TcpError>(
            TcpError::NotConnected,
        ),
        close_view(v).incoming == v.incoming,
        close_view(v).unacked == v.unacked,
        close_view(v).send == v.send,
        close_view(v).recv == v.recv,
        close_view(v).closed_at == v.closed_at,
{
}

/// Outside SYN-RECEIVED a segment leaves the connection unchanged.
pub proof fn lemma_packet_outside_handshake(v: ConnectionView, tcp: TcpFields)
    requires
        v.state != State::SynRecv,
    ensures
        after_packet(v, tcp) == v,
        !answers_syn(v, tcp),
{
}

} // verus!
