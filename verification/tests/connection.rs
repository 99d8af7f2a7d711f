use tcp_rust::tcp::{Connection, State, TcpError, SEND_BUFFER_LEN};
use tcp_rust::wire::{classify_frame, FrameKind, Ipv4Fields, TcpFields};

fn ip() -> Ipv4Fields {
    Ipv4Fields { source: 0x0a000001, destination: 0x0a000002, protocol: 6, header_len: 20 }
}

fn segment(seq: u32, syn: bool, ack: bool) -> TcpFields {
    TcpFields { source_port: 12345, destination_port: 80, sequence_number: seq, syn, ack, header_len: 20 }
}

fn ipv4_checksum(h: &[u8]) -> u16 {
    let mut sum: u32 = 0;
    for i in (0..h.len()).step_by(2) {
        sum += u32::from(u16::from_be_bytes([h[i], h[i + 1]]));
    }
    while sum > 0xffff {
        sum = (sum & 0xffff) + (sum >> 16);
    }
    !(sum as u16)
}

#[test]
fn accept_starts_in_syn_recv() {
    let c = Connection::accept(&ip(), &segment(1000, true, false));
    assert_eq!(c.state, State::SynRecv);
    assert_eq!(c.send.iss, 0);
    assert_eq!(c.send.una, 0);
    assert_eq!(c.send.nxt, 1);
    assert_eq!(c.send.wnd, 10);
    assert_eq!(c.recv.irs, 1000);
    assert_eq!(c.recv.nxt, 1001);
    assert_eq!(c.recv.wnd, 10);
    assert!(!c.closed);
    assert!(c.incoming.is_empty());
    assert!(c.unacked.is_empty());
    assert_eq!(c.closed_at, None);
    assert!(c.is_rsv_closed());
    assert!(c.availablity());
}

#[test]
fn syn_is_answered_with_syn_ack() {
    let mut c = Connection::accept(&ip(), &segment(1000, true, false));
    let out = c.on_packet(&ip(), &segment(1000, true, false));
    let reply = out.reply.expect("a SYN-ACK");
    assert_eq!(reply.len(), 40);
    assert_eq!(out.written, SEND_BUFFER_LEN - 40);
    assert_eq!(out.written, 1460);
    // IPv4 header back to the peer.
    assert_eq!(&reply[0..10], &[0x45, 0x00, 0x00, 0x28, 0x00, 0x00, 0x40, 0x00, 64, 6]);
    assert_eq!(&reply[12..16], &[10, 0, 0, 2]);
    assert_eq!(&reply[16..20], &[10, 0, 0, 1]);
    assert_eq!(ipv4_checksum(&reply[0..20]), 0, "header checksum must verify");
    // TCP header: ports swapped, iss 0, ack 1001, SYN|ACK, window 10.
    assert_eq!(
        &reply[20..40],
        &[0x00, 0x50, 0x30, 0x39, 0, 0, 0, 0, 0x00, 0x00, 0x03, 0xe9, 0x50, 0x12, 0x00, 0x0a, 0, 0, 0, 0]
    );
    // The connection itself does not change.
    assert_eq!(c.state, State::SynRecv);
    assert_eq!(c.recv.nxt, 1001);
    // What is written parses back as the segment that was meant.
    match classify_frame(&reply) {
        FrameKind::Segment(rip, rtcp) => {
            assert_eq!(rip.source, 0x0a000002);
            assert_eq!(rip.destination, 0x0a000001);
            assert_eq!(rtcp.source_port, 80);
            assert_eq!(rtcp.destination_port, 12345);
            assert_eq!(rtcp.sequence_number, 0);
            assert!(rtcp.syn && rtcp.ack);
        }
        other => panic!("unexpected {:?}", other),
    }
}

#[test]
fn ack_completes_handshake() {
    let mut c = Connection::accept(&ip(), &segment(1000, true, false));
    let out = c.on_packet(&ip(), &segment(1001, false, true));
    assert!(out.reply.is_none());
    assert_eq!(out.written, 0);
    assert_eq!(c.state, State::Establish);
    assert_eq!(c.recv.nxt, 1002);
    // Once established, segments change nothing.
    let out = c.on_packet(&ip(), &segment(1002, true, true));
    assert!(out.reply.is_none());
    assert_eq!(out.written, 0);
    assert_eq!(c.state, State::Establish);
    assert_eq!(c.recv.nxt, 1002);
}

#[test]
fn segment_without_flags_changes_nothing() {
    let mut c = Connection::accept(&ip(), &segment(5, true, false));
    let out = c.on_packet(&ip(), &segment(6, false, false));
    assert!(out.reply.is_none());
    assert_eq!(out.written, 0);
    assert_eq!(c.state, State::SynRecv);
    assert_eq!(c.recv.nxt, 6);
}

#[test]
fn close_transitions() {
    let mut c = Connection::accept(&ip(), &segment(1, true, false));
    assert_eq!(c.close(), Ok(()));
    assert!(c.closed);
    assert_eq!(c.state, State::FinWait1);
    // Closing again is harmless and changes nothing.
    assert_eq!(c.close(), Ok(()));
    assert_eq!(c.state, State::FinWait1);

    let mut e = Connection::accept(&ip(), &segment(1, true, false));
    e.state = State::Establish;
    assert_eq!(e.close(), Ok(()));
    assert_eq!(e.state, State::FinWait1);

    let mut f = Connection::accept(&ip(), &segment(1, true, false));
    f.state = State::FinWait2;
    assert_eq!(f.close(), Ok(()));
    assert_eq!(f.state, State::FinWait2);
    assert!(f.closed);
}

#[test]
fn close_in_time_wait_is_refused() {
    let mut c = Connection::accept(&ip(), &segment(1, true, false));
    c.state = State::TimeWait;
    assert_eq!(c.close(), Err(TcpError::NotConnected));
    assert_eq!(c.state, State::TimeWait);
    assert!(c.closed);
}

#[test]
fn placeholder_operations_do_nothing() {
    Connection::write();
    Connection::send_rst();
    Connection::on_tick();
}

#[test]
fn assemble_segment_concatenates_headers() {
    let out = tcp_rust::tcp::assemble_segment(vec![1, 2, 3], vec![4, 5]);
    assert_eq!(out.reply, Some(vec![1, 2, 3, 4, 5]));
    assert_eq!(out.written, 1495);
}

#[test]
fn syn_at_largest_sequence_number_wraps() {
    let mut c = Connection::accept(&ip(), &segment(u32::MAX, true, false));
    assert_eq!(c.recv.irs, u32::MAX);
    assert_eq!(c.recv.nxt, 0);
    let out = c.on_packet(&ip(), &segment(u32::MAX, true, false));
    let reply = out.reply.expect("a SYN-ACK");
    assert_eq!(out.written, 1460);
    // Acknowledgment number wraps to 0.
    assert_eq!(&reply[28..32], &[0, 0, 0, 0]);
}

#[test]
fn handshake_ack_wraps_receive_next() {
    let mut c = Connection::accept(&ip(), &segment(u32::MAX - 1, true, false));
    assert_eq!(c.recv.nxt, u32::MAX);
    let out = c.on_packet(&ip(), &segment(u32::MAX, false, true));
    assert!(out.reply.is_none());
    assert_eq!(c.state, State::Establish);
    assert_eq!(c.recv.nxt, 0);
}

#[test]
fn syn_ack_ipv4_header_bytes() {
    let mut c = Connection::accept(&ip(), &segment(1000, true, false));
    let reply = c.on_packet(&ip(), &segment(1000, true, false)).reply.unwrap();
    // 0x4500 + 0x0028 + 0x4000 + 0x4006 + 0x0a00 + 0x0002 + 0x0a00 + 0x0001 = 0xd931,
    // whose ones' complement is 0x26ce.
    assert_eq!(
        &reply[0..20],
        &[0x45, 0x00, 0x00, 0x28, 0x00, 0x00, 0x40, 0x00, 0x40, 0x06, 0x26, 0xce, 10, 0, 0, 2, 10, 0, 0, 1]
    );
}

#[test]
fn syn_ack_checksum_with_carries() {
    let big = Ipv4Fields { source: 0xffff_fffe, destination: 0xffff_ffff, protocol: 6, header_len: 20 };
    let mut c = Connection::accept(&big, &segment(1, true, false));
    let reply = c.on_packet(&big, &segment(1, true, false)).reply.unwrap();
    let total: u64 = 0x4500 + 40 + 0x4000 + 64 * 0x100 + 6 + 0xffff + 0xffff + 0xffff + 0xfffe;
    let fold = |t: u64| t / 0x1_0000 + t % 0x1_0000;
    let expected = (0xffff - fold(fold(total))) as u16;
    assert_eq!(u16::from_be_bytes([reply[10], reply[11]]), expected);
    assert_eq!(ipv4_checksum(&reply[0..20]), 0);
}
