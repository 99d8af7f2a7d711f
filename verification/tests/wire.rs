use tcp_rust::wire::{classify_frame, FrameKind, Ipv4Fields, TcpFields};

fn tcp_frame(protocol: u8, tcp_flags: u8) -> Vec<u8> {
    let mut f = vec![
        0x45, 0x00, 0x00, 0x28, // version/ihl, tos, total length 40
        0x00, 0x01, 0x40, 0x00, // id, DF
        0x40, protocol, 0x00, 0x00, // ttl, protocol, checksum (not checked)
        10, 0, 0, 1, // source
        10, 0, 0, 2, // destination
    ];
    f.extend_from_slice(&[
        0x30, 0x39, 0x00, 0x50, // ports 12345 -> 80
        0x00, 0x00, 0x03, 0xe8, // seq 1000
        0x00, 0x00, 0x00, 0x00, // ack
        0x50, tcp_flags, 0x10, 0x00, // offset 5, flags, window
        0x00, 0x00, 0x00, 0x00,
    ]);
    f
}

#[test]
fn classify_syn_segment() {
    let f = tcp_frame(6, 0x02);
    let expected_ip = Ipv4Fields { source: 0x0a000001, destination: 0x0a000002, protocol: 6, header_len: 20 };
    let expected_tcp = TcpFields {
        source_port: 12345,
        destination_port: 80,
        sequence_number: 1000,
        syn: true,
        ack: false,
        header_len: 20,
    };
    assert_eq!(classify_frame(&f), FrameKind::Segment(expected_ip, expected_tcp));
}

#[test]
fn classify_ack_flag() {
    let f = tcp_frame(6, 0x10);
    match classify_frame(&f) {
        FrameKind::Segment(_, tcp) => {
            assert!(tcp.ack);
            assert!(!tcp.syn);
        }
        other => panic!("unexpected {:?}", other),
    }
}

#[test]
fn classify_not_tcp() {
    let f = tcp_frame(17, 0x02);
    assert_eq!(classify_frame(&f), FrameKind::NotTcp);
}

#[test]
fn classify_not_ipv4() {
    let mut f = tcp_frame(6, 0x02);
    f[0] = 0x65; // version 6
    assert_eq!(classify_frame(&f), FrameKind::NotIpv4);
    assert_eq!(classify_frame(&f[..19]), FrameKind::NotIpv4);
    let mut g = tcp_frame(6, 0x02);
    g[0] = 0x44; // ihl 4
    assert_eq!(classify_frame(&g), FrameKind::NotIpv4);
    let mut h = tcp_frame(6, 0x02);
    h[3] = 0x10; // total length 16 < header
    assert_eq!(classify_frame(&h), FrameKind::NotIpv4);
}

#[test]
fn classify_bad_tcp() {
    let f = tcp_frame(6, 0x02);
    assert_eq!(classify_frame(&f[..30]), FrameKind::BadTcp);
    let mut g = tcp_frame(6, 0x02);
    g[32] = 0x40; // data offset 4
    assert_eq!(classify_frame(&g), FrameKind::BadTcp);
    let mut h = tcp_frame(6, 0x02);
    h[32] = 0x60; // data offset 6, only 5 words present
    assert_eq!(classify_frame(&h), FrameKind::BadTcp);
}

#[test]
fn classify_ipv4_options_are_skipped() {
    // IHL 6: one option word before the TCP header.
    let base = tcp_frame(6, 0x12);
    let mut f = base[..20].to_vec();
    f[0] = 0x46;
    f[3] = 0x2c;
    f.extend_from_slice(&[1, 1, 1, 0]);
    f.extend_from_slice(&base[20..]);
    match classify_frame(&f) {
        FrameKind::Segment(ip, tcp) => {
            assert_eq!(ip.header_len, 24);
            assert_eq!(tcp.source_port, 12345);
            assert!(tcp.syn && tcp.ack);
        }
        other => panic!("unexpected {:?}", other),
    }
}
