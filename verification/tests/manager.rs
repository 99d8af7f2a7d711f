use tcp_rust::manager::{ConnectionManager, Quad, ReadStep, TcpStream, SENDQUEUE_SIZE};
use tcp_rust::tcp::{Connection, State, TcpError};
use tcp_rust::wire::{Ipv4Fields, TcpFields};

fn quad(port: u16) -> Quad {
    Quad { src: (0x0a000001, port), dst: (0x0a000002, 80) }
}

fn connection() -> Connection {
    let ip = Ipv4Fields { source: 0x0a000001, destination: 0x0a000002, protocol: 6, header_len: 20 };
    let tcp = TcpFields { source_port: 1, destination_port: 80, sequence_number: 7, syn: true, ack: false, header_len: 20 };
    Connection::accept(&ip, &tcp)
}

fn manager_with(q: Quad) -> ConnectionManager {
    let mut cm = ConnectionManager::new();
    cm.connections.insert(q.key(), connection());
    cm
}

#[test]
fn bind_twice_is_refused() {
    let mut cm = ConnectionManager::new();
    assert!(!cm.terminate);
    let l = cm.bind(80).expect("first bind");
    assert_eq!(l.port, 80);
    assert!(cm.pending.get(&80).unwrap().is_empty());
    assert!(matches!(cm.bind(80), Err(TcpError::AddrInUse)));
    let l2 = cm.bind(81).expect("other port");
    assert_eq!(l2.port, 81);
    assert_eq!(cm.pending.len(), 2);
}

#[test]
fn accept_in_arrival_order() {
    let mut cm = ConnectionManager::new();
    let mut l = cm.bind(80).unwrap();
    assert!(l.accept(&mut cm).is_none());
    cm.pending.get_mut(&80).unwrap().push_back(quad(1));
    cm.pending.get_mut(&80).unwrap().push_back(quad(2));
    cm.pending.get_mut(&80).unwrap().push_back(quad(3));
    assert_eq!(l.accept(&mut cm).unwrap().quad, quad(1));
    assert_eq!(l.accept(&mut cm).unwrap().quad, quad(2));
    assert_eq!(l.accept(&mut cm).unwrap().quad, quad(3));
    assert!(l.accept(&mut cm).is_none());
    assert!(cm.pending.get(&80).unwrap().is_empty());
    assert_eq!(l.port, 80);
}

#[test]
fn quad_keys_differ() {
    let a = Quad { src: (1, 2), dst: (3, 4) };
    let b = Quad { src: (1, 2), dst: (3, 5) };
    let c = Quad { src: (2, 2), dst: (3, 4) };
    assert_ne!(a.key(), b.key());
    assert_ne!(a.key(), c.key());
    assert_eq!(a.key(), (1u128 << 80) | (2u128 << 64) | (3u128 << 16) | 4);
}

#[test]
fn missing_connection_is_aborted() {
    let mut cm = ConnectionManager::new();
    let mut s = TcpStream { quad: quad(9) };
    assert!(matches!(s.read(&mut cm, 10), Err(TcpError::ConnectionAborted)));
    assert_eq!(s.write(&mut cm, b"abc"), Err(TcpError::ConnectionAborted));
    assert_eq!(s.flush(&mut cm), Err(TcpError::ConnectionAborted));
    assert_eq!(s.shutdown(&mut cm), Err(TcpError::ConnectionAborted));
    assert!(cm.connections.is_empty());
}

#[test]
fn read_returns_received_bytes_in_order() {
    let q = quad(5);
    let mut cm = manager_with(q);
    cm.connections.get_mut(&q.key()).unwrap().incoming.extend([1u8, 2, 3, 4, 5]);
    let mut s = TcpStream { quad: q };
    match s.read(&mut cm, 2) {
        Ok(ReadStep::Data(d)) => assert_eq!(d, vec![1, 2]),
        _ => panic!("expected data"),
    }
    match s.read(&mut cm, 10) {
        Ok(ReadStep::Data(d)) => assert_eq!(d, vec![3, 4, 5]),
        _ => panic!("expected data"),
    }
    // Nothing left: the end of the stream.
    match s.read(&mut cm, 10) {
        Ok(ReadStep::Data(d)) => assert!(d.is_empty()),
        _ => panic!("expected end of stream"),
    }
}

#[test]
fn read_into_empty_buffer_takes_nothing() {
    let q = quad(5);
    let mut cm = manager_with(q);
    cm.connections.get_mut(&q.key()).unwrap().incoming.extend([9u8]);
    let mut s = TcpStream { quad: q };
    match s.read(&mut cm, 0) {
        Ok(ReadStep::Data(d)) => assert!(d.is_empty()),
        _ => panic!("expected data"),
    }
    assert_eq!(cm.connections.get(&q.key()).unwrap().incoming.len(), 1);
}

#[test]
fn write_fills_send_queue_then_blocks() {
    let q = quad(6);
    let mut cm = manager_with(q);
    let mut s = TcpStream { quad: q };
    assert_eq!(s.flush(&mut cm), Ok(()));
    assert_eq!(s.write(&mut cm, b"hello"), Ok(5));
    assert_eq!(s.flush(&mut cm), Err(TcpError::WouldBlock));
    let big = vec![7u8; 2000];
    assert_eq!(s.write(&mut cm, &big), Ok(SENDQUEUE_SIZE - 5));
    let c = cm.connections.get(&q.key()).unwrap();
    assert_eq!(c.unacked.len(), SENDQUEUE_SIZE);
    assert_eq!(c.unacked.iter().take(5).copied().collect::<Vec<u8>>(), b"hello".to_vec());
    assert_eq!(s.write(&mut cm, b"x"), Err(TcpError::WouldBlock));
    assert_eq!(cm.connections.get(&q.key()).unwrap().unacked.len(), SENDQUEUE_SIZE);
}

#[test]
fn writes_do_not_touch_other_streams() {
    let a = quad(1);
    let b = quad(2);
    let mut cm = manager_with(a);
    cm.connections.insert(b.key(), connection());
    let mut sa = TcpStream { quad: a };
    assert_eq!(sa.write(&mut cm, b"abc"), Ok(3));
    assert!(cm.connections.get(&b.key()).unwrap().unacked.is_empty());
    assert_eq!(cm.connections.get(&a.key()).unwrap().unacked.len(), 3);
}

#[test]
fn shutdown_closes_connection() {
    let q = quad(7);
    let mut cm = manager_with(q);
    let mut s = TcpStream { quad: q };
    assert_eq!(s.shutdown(&mut cm), Ok(()));
    let c = cm.connections.get(&q.key()).unwrap();
    assert!(c.closed);
    assert_eq!(c.state, State::FinWait1);
    cm.connections.get_mut(&q.key()).unwrap().state = State::TimeWait;
    assert_eq!(s.shutdown(&mut cm), Err(TcpError::NotConnected));
}

#[test]
fn bound_port_stays_bound() {
    let q = quad(3);
    let mut cm = manager_with(q);
    let mut l = cm.bind(8080).unwrap();
    let _ = cm.bind(8081);
    let _ = cm.bind(8080);
    let mut s = TcpStream { quad: q };
    let _ = s.write(&mut cm, b"x");
    let _ = s.read(&mut cm, 1);
    let _ = s.flush(&mut cm);
    let _ = s.shutdown(&mut cm);
    assert!(l.accept(&mut cm).is_none());
    assert!(cm.pending.contains_key(&8080));
}
