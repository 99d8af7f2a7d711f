//! The connection manager shared by the socket-like handles: listening ports
//! with their queues of pending connections, the table of connections, and the
//! operations behind `TcpListener` and `TcpStream`.

use std::collections::{HashMap, VecDeque};
use vstd::prelude::*;

use crate::tcp;
use crate::tcp::{Connection, ConnectionView, TcpError};

verus! {

broadcast use vstd::std_specs::hash::group_hash_axioms;

/// Most bytes a stream keeps queued for sending.
pub const SENDQUEUE_SIZE: usize = 1024;

/// The two endpoints of a connection: (IPv4 address, port) of each side, the
/// address as the big-endian number of its four bytes.
#[derive(Clone, Copy, Debug, Hash, PartialEq, Eq)]
pub struct Quad {
    pub src: (u32, u16),
    pub dst: (u32, u16),
}

impl Quad {
    /// The number that identifies the quad in the connection table: the four
    /// fields side by side, 96 bits in all.
    pub open spec fn key_spec(self) -> u128 {
        (self.src.0 * 0x1_0000_0000_0000_0000_0000 + self.src.1 * 0x1_0000_0000_0000_0000
            + self.dst.0 * 0x1_0000 + self.dst.1) as u128
    }

    /// Computes `key_spec`.
    pub fn key(&self) -> (k: u128)
        ensures
            k == self.key_spec(),
    {
        (self.src.0 as u128) * 0x1_0000_0000_0000_0000_0000 + (self.src.1 as u128)
            * 0x1_0000_0000_0000_0000 + (self.dst.0 as u128) * 0x1_0000 + (self.dst.1 as u128)
    }
}

/// A number written as `q * d + r` with `0 <= r < d` determines `q` and `r`.
proof fn lemma_radix_unique(q1: int, r1: int, q2: int, r2: int, d: int)
    requires
        0 < d,
        0 <= r1 < d,
        0 <= r2 < d,
        q1 * d + r1 == q2 * d + r2,
    ensures
        q1 == q2,
        r1 == r2,
{
    vstd::arithmetic::div_mod::lemma_fundamental_div_mod_converse(q1 * d + r1, d, q1, r1);
    vstd::arithmetic::div_mod::lemma_fundamental_div_mod_converse(q2 * d + r2, d, q2, r2);
}

/// Distinct quads have distinct keys.
pub proof fn lemma_key_injective(a: Quad, b: Quad)
    requires
        a.key_spec() == b.key_spec(),
    ensures
        a == b,
{
    let ha: int = a.src.0 * 0x1_0000 + a.src.1;
    let hb: int = b.src.0 * 0x1_0000 + b.src.1;
    let ma: int = ha * 0x1_0000_0000_0000 + a.dst.0;
    let mb: int = hb * 0x1_0000_0000_0000 + b.dst.0;
    assert(a.key_spec() == ma * 0x1_0000 + a.dst.1);
    assert(b.key_spec() == mb * 0x1_0000 + b.dst.1);
    lemma_radix_unique(ma, a.dst.1 as int, mb, b.dst.1 as int, 0x1_0000);
    lemma_radix_unique(ha, a.dst.0 as int, hb, b.dst.0 as int, 0x1_0000_0000_0000);
    lemma_radix_unique(a.src.0 as int, a.src.1 as int, b.src.0 as int, b.src.1 as int, 0x1_0000);
}

/// The abstract value of the connection manager.
#[verifier::ext_equal]
pub struct ManagerView {
    pub terminate: bool,
    /// The connections, by the key of their quad.
    pub conns: Map<u128, ConnectionView>,
    /// The listening ports, each with its queue of connections waiting to be accepted.
    pub queues: Map<u16, Seq<Quad>>,
}

/// The state shared by the interface, its listeners and its streams.
pub struct ConnectionManager {
    /// Set when the interface shuts down.
    pub terminate: bool,
    /// The connections, by `Quad::key`.
    pub connections: HashMap<u128, Connection>,
    /// The bound ports, each with the quads of connections not yet accepted, oldest first.
    pub pending: HashMap<u16, VecDeque<Quad>>,
}

impl View for ConnectionManager {
    type V = ManagerView;

    open spec fn view(&self) -> ManagerView {
        ManagerView {
            terminate: self.terminate,
            conns: self.connections@.map_values(|c: Connection| c@),
            queues: self.pending@.map_values(|q: VecDeque<Quad>| q@),
        }
    }
}

/// A port on which connections are accepted.
pub struct TcpListener {
    pub port: u16,
}

/// One accepted connection, seen from the user's side.
pub struct TcpStream {
    pub quad: Quad,
}

/// What one attempt to read from a stream found.
pub enum ReadStep {
    /// These bytes were read; none means the end of the stream.
    Data(Vec<u8>),
    /// Nothing to read yet: wait for more data to arrive.
    Wait,
}

/// The manager after binding `port`: a new empty queue, unless the port is bound already.
pub open spec fn bind_view(m: ManagerView, port: u16) -> ManagerView {
    if m.queues.contains_key(port) {
        m
    } else {
        ManagerView { queues: m.queues.insert(port, Seq::empty()), ..m }
    }
}

/// The connection waiting longest on `port`, if any.
pub open spec fn accept_result(m: ManagerView, port: u16) -> Option<Quad> {
    if m.queues[port].len() == 0 {
        None
    } else {
        Some(m.queues[port][0])
    }
}

/// The manager after an accept on `port`: the oldest waiting connection leaves the queue.
pub open spec fn accept_view(m: ManagerView, port: u16) -> ManagerView {
    if m.queues[port].len() == 0 {
        m
    } else {
        ManagerView { queues: m.queues.insert(port, m.queues[port].drop_first()), ..m }
    }
}

/// The manager with connection `k` replaced by `c`.
pub open spec fn with_conn(m: ManagerView, k: u128, c: ConnectionView) -> ManagerView {
    ManagerView { conns: m.conns.insert(k, c), ..m }
}

/// How many bytes a read into a buffer of `buf_len` bytes takes.
pub open spec fn read_len(c: ConnectionView, buf_len: usize) -> int {
    if buf_len < c.incoming.len() {
        buf_len as int
    } else {
        c.incoming.len() as int
    }
}

/// The bytes such a read returns: the oldest received ones.
pub open spec fn read_data(c: ConnectionView, buf_len: usize) -> Seq<u8> {
    c.incoming.take(read_len(c, buf_len))
}

/// The connection after such a read.
pub open spec fn read_view(c: ConnectionView, buf_len: usize) -> ConnectionView {
    ConnectionView { incoming: c.incoming.skip(read_len(c, buf_len)), ..c }
}

/// How many of `buf_len` bytes fit in the send queue.
pub open spec fn write_len(c: ConnectionView, buf_len: usize) -> int {
    if buf_len < SENDQUEUE_SIZE - c.unacked.len() {
        buf_len as int
    } else {
        SENDQUEUE_SIZE - c.unacked.len()
    }
}

/// What a write reports: `WouldBlock` when the send queue is full, else how
/// many bytes were queued.
pub open spec fn write_result(c: ConnectionView, buf_len: usize) -> Result<usize, TcpError> {
    if c.unacked.len() >= SENDQUEUE_SIZE {
        Err(TcpError::WouldBlock)
    } else {
        Ok(write_len(c, buf_len) as usize)
    }
}

/// The connection after writing `buf`: as many leading bytes as fit are queued.
pub open spec fn write_view(c: ConnectionView, buf: Seq<u8>) -> ConnectionView {
    if c.unacked.len() >= SENDQUEUE_SIZE {
        c
    } else {
        ConnectionView { unacked: c.unacked + buf.take(write_len(c, buf.len() as usize)), ..c }
    }
}

/// What a flush reports: done when nothing is left unacknowledged.
pub open spec fn flush_result(c: ConnectionView) -> Result<(), TcpError> {
    if c.unacked.len() == 0 {
        Ok(())
    } else {
        Err(TcpError::WouldBlock)
    }
}

impl ConnectionManager {
    /// An empty manager: no connection, no bound port.
    pub fn new() -> (m: ConnectionManager)
        ensures
            m@ == (ManagerView { terminate: false, conns: Map::empty(), queues: Map::empty() }),
    {
        let m = ConnectionManager { terminate: false, connections: HashMap::new(), pending: HashMap::new() };
        assert(m@ =~= (ManagerView { terminate: false, conns: Map::empty(), queues: Map::empty() }));
        m
    }

    /// Starts listening on `port`. Fails with `AddrInUse` when the port is
    /// already bound, and then changes nothing.
    pub fn bind(&mut self, port: u16) -> (r: Result<TcpListener, TcpError>)
        ensures
            final(self)@ == bind_view(old(self)@, port),
            old(self)@.queues.contains_key(port) ==> final(self)@ == old(self)@,
            old(self)@.queues.contains_key(port) ==> r == Err::<TcpListener, TcpError>(
                TcpError::AddrInUse,
            ),
            !old(self)@.queues.contains_key(port) ==> (r matches Ok(l) && l.port == port),
    {
        if self.pending.contains_key(&port) {
            return Err(TcpError::AddrInUse);
        }
        self.pending.insert(port, VecDeque::new());
        assert(self@ =~= bind_view(old(self)@, port));
        Ok(TcpListener { port })
    }
}


impl TcpListener {
    /// Takes the connection that has waited longest on this listener's port,
    /// or `None` when no connection is waiting (the caller then waits for one).
    /// The port must be bound.
    pub fn accept(&mut self, cm: &mut ConnectionManager) -> (r: Option<TcpStream>)
        requires
            old(cm)@.queues.contains_key(old(self).port),
        ensures
            final(self).port == old(self).port,
            final(cm)@ == accept_view(old(cm)@, old(self).port),
            match accept_result(old(cm)@, old(self).port) {
                Some(q) => r matches Some(s) && s.quad == q,
                None => r is None,
            },
    {
        let port = self.port;
        let ghost m0 = cm@;
        let queue = cm.pending.remove(&port);
        match queue {
            None => None,
            Some(mut q) => {
                let first = q.pop_front();
                cm.pending.insert(port, q);
                match first {
                    Some(quad) => {
                        assert(cm@ =~= accept_view(m0, port));
                        Some(TcpStream { quad })
                    },
                    None => {
                        assert(cm@.queues =~= m0.queues);
                        assert(cm@ =~= accept_view(m0, port));
                        None
                    },
                }
            },
        }
    }
}

/// Takes up to `buf_len` of the oldest received bytes out of `c`.
fn read_from(c: &mut Connection, buf_len: usize) -> (r: ReadStep)
    ensures
        final(c)@ == read_view(old(c)@, buf_len),
        r matches ReadStep::Data(d) && d@ == read_data(old(c)@, buf_len),
{
    if c.is_rsv_closed() && c.incoming.len() == 0 {
        assert(old(c)@.incoming.skip(0) =~= old(c)@.incoming);
        assert(old(c)@.incoming.take(0) =~= Seq::<u8>::empty());
        return ReadStep::Data(Vec::new());
    }
    if c.incoming.len() > 0 {
        let n: usize = if buf_len < c.incoming.len() { buf_len } else { c.incoming.len() };
        let ghost orig = c@;
        let mut data: Vec<u8> = Vec::new();
        let mut i: usize = 0;
        while i < n
            invariant
                0 <= i <= n,
                n == read_len(orig, buf_len),
                data@ == orig.incoming.take(i as int),
                c.incoming@ == orig.incoming.skip(i as int),
                c@ == (ConnectionView { incoming: c.incoming@, ..orig }),
            decreases n - i,
        {
            let b = c.incoming.pop_front();
            match b {
                Some(byte) => {
                    data.push(byte);
                },
                None => {},
            }
            assert(orig.incoming.take(i + 1) =~= orig.incoming.take(i as int).push(orig.incoming[i as int]));
            assert(orig.incoming.skip(i + 1) =~= orig.incoming.skip(i as int).subrange(1, orig.incoming.skip(i as int).len() as int));
            i = i + 1;
        }
        return ReadStep::Data(data);
    }
    ReadStep::Wait
}

/// Queues as many leading bytes of `buf` as fit for sending on `c`.
fn write_into(c: &mut Connection, buf: &[u8]) -> (r: Result<usize, TcpError>)
    ensures
        final(c)@ == write_view(old(c)@, buf@),
        r == write_result(old(c)@, buf@.len() as usize),
{
    if c.unacked.len() >= SENDQUEUE_SIZE {
        return Err(TcpError::WouldBlock);
    }
    let room: usize = SENDQUEUE_SIZE - c.unacked.len();
    let n: usize = if buf.len() < room { buf.len() } else { room };
    let ghost orig = c@;
    let mut i: usize = 0;
    while i < n
        invariant
            0 <= i <= n,
            n == write_len(orig, buf@.len() as usize),
            n <= buf@.len(),
            c.unacked@ == orig.unacked + buf@.take(i as int),
            c@ == (ConnectionView { unacked: c.unacked@, ..orig }),
        decreases n - i,
    {
        c.unacked.push_back(buf[i]);
        assert(buf@.take(i + 1) =~= buf@.take(i as int).push(buf@[i as int]));
        i = i + 1;
    }
    Ok(n)
}

impl TcpStream {
    /// Reads up to `buf_len` of the oldest received bytes of this stream's
    /// connection; none when nothing was received. Fails with
    /// `ConnectionAborted` when the connection no longer exists.
    pub fn read(&mut self, cm: &mut ConnectionManager, buf_len: usize) -> (r: Result<ReadStep, TcpError>)
        ensures
            final(self).quad == old(self).quad,
            !old(cm)@.conns.contains_key(old(self).quad.key_spec()) ==> final(cm)@ == old(cm)@ && r
                is Err && r->Err_0 == TcpError::ConnectionAborted,
            old(cm)@.conns.contains_key(old(self).quad.key_spec()) ==> {
                let k = old(self).quad.key_spec();
                let c = old(cm)@.conns[k];
                &&& final(cm)@ == with_conn(old(cm)@, k, read_view(c, buf_len))
                &&& r matches Ok(ReadStep::Data(d)) && d@ == read_data(c, buf_len)
            },
    {
        let k = self.quad.key();
        let ghost m0 = cm@;
        match cm.connections.remove(&k) {
            None => {
                assert(cm@ =~= m0);
                Err(TcpError::ConnectionAborted)
            },
            Some(mut c) => {
                let step = read_from(&mut c, buf_len);
                cm.connections.insert(k, c);
                assert(cm@ =~= with_conn(m0, k, read_view(m0.conns[k], buf_len)));
                Ok(step)
            },
        }
    }

    /// Queues as many leading bytes of `buf` as fit in the send queue (at most
    /// `SENDQUEUE_SIZE` bytes in all) and reports how many. Fails with
    /// `WouldBlock` when the queue is full and with `ConnectionAborted` when the
    /// connection no longer exists; then nothing changes.
    pub fn write(&mut self, cm: &mut ConnectionManager, buf: &[u8]) -> (r: Result<usize, TcpError>)
        ensures
            final(self).quad == old(self).quad,
            !old(cm)@.conns.contains_key(old(self).quad.key_spec()) ==> final(cm)@ == old(cm)@ && r
                == Err::<usize, TcpError>(TcpError::ConnectionAborted),
            old(cm)@.conns.contains_key(old(self).quad.key_spec()) ==> {
                let k = old(self).quad.key_spec();
                let c = old(cm)@.conns[k];
                &&& final(cm)@ == with_conn(old(cm)@, k, write_view(c, buf@))
                &&& r == write_result(c, buf@.len() as usize)
            },
    {
        let k = self.quad.key();
        let ghost m0 = cm@;
        match cm.connections.remove(&k) {
            None => {
                assert(cm@ =~= m0);
                Err(TcpError::ConnectionAborted)
            },
            Some(mut c) => {
                let r = write_into(&mut c, buf);
                cm.connections.insert(k, c);
                assert(cm@ =~= with_conn(m0, k, write_view(m0.conns[k], buf@)));
                r
            },
        }
    }

    /// Reports whether everything written has been acknowledged: `WouldBlock`
    /// while bytes are queued, `ConnectionAborted` when the connection no
    /// longer exists. Changes nothing.
    pub fn flush(&mut self, cm: &mut ConnectionManager) -> (r: Result<(), TcpError>)
        ensures
            final(self).quad == old(self).quad,
            final(cm)@ == old(cm)@,
            !old(cm)@.conns.contains_key(old(self).quad.key_spec()) ==> r == Err::<(), TcpError>(
                TcpError::ConnectionAborted,
            ),
            old(cm)@.conns.contains_key(old(self).quad.key_spec()) ==> r == flush_result(
                old(cm)@.conns[old(self).quad.key_spec()],
            ),
            old(cm)@.conns.contains_key(old(self).quad.key_spec()) ==> (r is Ok <==> old(
                cm,
            )@.conns[old(self).quad.key_spec()].unacked.len() == 0),
    {
        let k = self.quad.key();
        match cm.connections.get(&k) {
            None => Err(TcpError::ConnectionAborted),
            Some(c) => {
                if c.unacked.len() == 0 {
                    Ok(())
                } else {
                    Err(TcpError::WouldBlock)
                }
            },
        }
    }

    /// Closes this stream's connection (see `Connection::close`). Fails with
    /// `ConnectionAborted` when the connection no longer exists.
    pub fn shutdown(&mut self, cm: &mut ConnectionManager) -> (r: Result<(), TcpError>)
        ensures
            final(self).quad == old(self).quad,
            !old(cm)@.conns.contains_key(old(self).quad.key_spec()) ==> final(cm)@ == old(cm)@ && r
                == Err::<(), TcpError>(TcpError::ConnectionAborted),
            old(cm)@.conns.contains_key(old(self).quad.key_spec()) ==> {
                let k = old(self).quad.key_spec();
                let c = old(cm)@.conns[k];
                &&& final(cm)@ == with_conn(old(cm)@, k, tcp::close_view(c))
                &&& r == tcp::close_result(c.state)
            },
    {
        let k = self.quad.key();
        let ghost m0 = cm@;
        match cm.connections.remove(&k) {
            None => {
                assert(cm@ =~= m0);
                Err(TcpError::ConnectionAborted)
            },
            Some(mut c) => {
                let r = c.close();
                cm.connections.insert(k, c);
                assert(cm@ =~= with_conn(m0, k, tcp::close_view(m0.conns[k])));
                r
            },
        }
    }
}


/// Binding a port makes it bound, so binding it again is refused with
/// `AddrInUse` and changes nothing; other ports and the connections are untouched.
pub proof fn lemma_bind_twice(m: ManagerView, port: u16)
    ensures
        bind_view(m, port).queues.contains_key(port),
        bind_view(bind_view(m, port), port) == bind_view(m, port),
        bind_view(m, port).conns == m.conns,
        forall|p: u16| p != port ==> #[trigger] bind_view(m, port).queues.contains_key(p)
            == m.queues.contains_key(p) && bind_view(m, port).queues[p] == m.queues[p],
{
}

/// A bound port stays bound, whatever the manager does afterwards: binding
/// any port, accepting on a bound port, or any stream operation (read, write
/// and shutdown replace one connection; flush and a failed operation change
/// nothing). So a listener's port is always bound when it accepts.
pub proof fn lemma_bound_port_stays_bound(
    m: ManagerView,
    port: u16,
    other: u16,
    k: u128,
    c: ConnectionView,
)
    requires
        m.queues.contains_key(port),
    ensures
        bind_view(m, other).queues.contains_key(port),
        m.queues.contains_key(other) ==> accept_view(m, other).queues.contains_key(port),
        with_conn(m, k, c).queues.contains_key(port),
{
}

/// Binding a port that is already bound changes nothing at all: its queue of
/// waiting connections is kept. Binding a free port adds an empty queue for it
/// and nothing else: every other port keeps its queue and the connections are
/// untouched.
pub proof fn lemma_bind_keeps_existing(m: ManagerView, port: u16)
    ensures
        m.queues.contains_key(port) ==> bind_view(m, port) == m,
        !m.queues.contains_key(port) ==> bind_view(m, port).queues[port] == Seq::<Quad>::empty(),
        bind_view(m, port).queues.dom() == m.queues.dom().insert(port),
        forall|p: u16| #[trigger] m.queues.contains_key(p) ==> bind_view(m, port).queues[p] == m.queues[p],
        bind_view(m, port).conns == m.conns,
        bind_view(m, port).terminate == m.terminate,
{
    assert(bind_view(m, port).queues.dom() =~= m.queues.dom().insert(port));
}

/// Accepting takes exactly the first waiting connection of the port: the
/// returned quad followed by the remaining queue is the old queue. It touches
/// no other port and no connection, and an empty queue gives nothing.
pub proof fn lemma_accept_takes_head(m: ManagerView, port: u16)
    requires
        m.queues.contains_key(port),
    ensures
        (accept_result(m, port) is None) <==> m.queues[port].len() == 0,
        accept_result(m, port) matches Some(q) ==> seq![q] + accept_view(m, port).queues[port]
            == m.queues[port],
        accept_result(m, port) is None ==> accept_view(m, port) == m,
        accept_view(m, port).queues.dom() == m.queues.dom(),
        forall|p: u16| p != port && #[trigger] m.queues.contains_key(p) ==> accept_view(
            m,
            port,
        ).queues[p] == m.queues[p],
        accept_view(m, port).conns == m.conns,
{
    if m.queues[port].len() > 0 {
        assert(seq![m.queues[port][0]] + m.queues[port].drop_first() =~= m.queues[port]);
        assert(accept_view(m, port).queues.dom() =~= m.queues.dom());
    }
}

/// Flushing completes exactly when nothing is left unacknowledged, whatever
/// the connection's state or closed flag; otherwise it would block.
pub proof fn lemma_flush_iff_empty(c: ConnectionView)
    ensures
        flush_result(c) is Ok <==> c.unacked.len() == 0,
        flush_result(c) is Err ==> flush_result(c) == Err::<(), TcpError>(TcpError::WouldBlock),
        flush_result(tcp::close_view(c)) == flush_result(c),
        forall|s: crate::tcp::State| #[trigger] flush_result(ConnectionView { state: s, ..c }) == flush_result(c),
{
}

/// A read takes the `min(buf_len, available)` oldest received bytes and keeps
/// the rest: what it returns followed by what remains is what was there.
pub proof fn lemma_read_takes_oldest(c: ConnectionView, buf_len: usize)
    ensures
        read_data(c, buf_len).len() == if buf_len < c.incoming.len() { buf_len as int } else { c.incoming.len() as int },
        read_data(c, buf_len) + read_view(c, buf_len).incoming == c.incoming,
        read_view(c, buf_len).unacked == c.unacked,
        read_view(c, buf_len).state == c.state && read_view(c, buf_len).closed == c.closed,
{
    assert(c.incoming.take(read_len(c, buf_len)) + c.incoming.skip(read_len(c, buf_len)) =~= c.incoming);
}

/// A write queues as many leading bytes of the buffer as fit: all of them when
/// they fit, else exactly enough to fill the queue to `SENDQUEUE_SIZE`; it is
/// refused with `WouldBlock` exactly when the queue is already full, and the
/// received bytes are never touched.
pub proof fn lemma_write_fills(c: ConnectionView, buf: Seq<u8>)
    requires
        buf.len() <= usize::MAX,
    ensures
        write_result(c, buf.len() as usize) is Err <==> c.unacked.len() >= SENDQUEUE_SIZE,
        write_result(c, buf.len() as usize) is Err ==> write_result(c, buf.len() as usize)
            == Err::<usize, TcpError>(TcpError::WouldBlock),
        c.unacked.len() < SENDQUEUE_SIZE && c.unacked.len() + buf.len() <= SENDQUEUE_SIZE ==> write_view(c, buf).unacked == c.unacked
            + buf && write_result(c, buf.len() as usize) == Ok::<usize, TcpError>(buf.len() as usize),
        c.unacked.len() < SENDQUEUE_SIZE < c.unacked.len() + buf.len() ==> write_view(c, buf).unacked.len()
            == SENDQUEUE_SIZE && write_view(c, buf).unacked == c.unacked + buf.take(SENDQUEUE_SIZE - c.unacked.len()),
        write_view(c, buf).incoming == c.incoming,
        write_view(c, buf).state == c.state && write_view(c, buf).closed == c.closed,
{
    assert(buf.take(buf.len() as int) =~= buf);
}

/// The manager after `n` accepts on `port`.
pub open spec fn accept_repeated(m: ManagerView, port: u16, n: nat) -> ManagerView
    decreases n,
{
    if n == 0 {
        m
    } else {
        accept_view(accept_repeated(m, port, (n - 1) as nat), port)
    }
}

/// Connections are accepted in the order they were queued: after `n` accepts
/// the queue holds what followed the first `n`, and the next accept returns
/// the `n`-th queued connection (counting from 0).
pub proof fn lemma_accept_fifo(m: ManagerView, port: u16, n: nat)
    requires
        m.queues.contains_key(port),
        n <= m.queues[port].len(),
    ensures
        accept_repeated(m, port, n).queues.contains_key(port),
        accept_repeated(m, port, n).queues[port] == m.queues[port].skip(n as int),
        n < m.queues[port].len() ==> accept_result(accept_repeated(m, port, n), port) == Some(
            m.queues[port][n as int],
        ),
    decreases n,
{
    if n > 0 {
        lemma_accept_fifo(m, port, (n - 1) as nat);
        let prev = accept_repeated(m, port, (n - 1) as nat);
        assert(prev.queues[port].drop_first() =~= m.queues[port].skip(n as int));
    } else {
        assert(m.queues[port].skip(0) =~= m.queues[port]);
    }
}

/// An operation on one stream leaves every other stream's connection as it was.
pub proof fn lemma_streams_independent(m: ManagerView, a: Quad, b: Quad, c: ConnectionView)
    requires
        a != b,
    ensures
        with_conn(m, a.key_spec(), c).conns.contains_key(b.key_spec()) == m.conns.contains_key(
            b.key_spec(),
        ),
        with_conn(m, a.key_spec(), c).conns[b.key_spec()] == m.conns[b.key_spec()],
        with_conn(m, a.key_spec(), c).queues == m.queues,
{
    if a.key_spec() == b.key_spec() {
        lemma_key_injective(a, b);
    }
}

/// Successive reads return the received bytes in order, without loss or
/// repetition: two reads together return the first bytes of what was received.
pub proof fn lemma_reads_concatenate(c: ConnectionView, n1: usize, n2: usize)
    ensures
        read_data(c, n1) + read_data(read_view(c, n1), n2) == c.incoming.take(
            read_len(c, n1) + read_len(read_view(c, n1), n2),
        ),
        read_data(c, n1).len() <= n1,
        n1 >= c.incoming.len() ==> read_data(c, n1) == c.incoming && read_view(c, n1).incoming.len()
            == 0,
{
    let k1 = read_len(c, n1);
    let k2 = read_len(read_view(c, n1), n2);
    assert(c.incoming.take(k1) + c.incoming.skip(k1).take(k2) =~= c.incoming.take(k1 + k2));
    assert(n1 >= c.incoming.len() ==> c.incoming.take(k1) =~= c.incoming);
}

/// The send queue never grows beyond `SENDQUEUE_SIZE`, and what a write adds is
/// the beginning of the written buffer.
pub proof fn lemma_write_bounded(c: ConnectionView, buf: Seq<u8>)
    requires
        buf.len() <= usize::MAX,
    ensures
        c.unacked.len() <= SENDQUEUE_SIZE ==> write_view(c, buf).unacked.len() <= SENDQUEUE_SIZE,
        write_result(c, buf.len() as usize) matches Ok(n) ==> n <= buf.len() && write_view(
            c,
            buf,
        ).unacked == c.unacked + buf.take(n as int),
        write_result(c, buf.len() as usize) is Err ==> write_view(c, buf) == c,
{
}

/// After a write that queued at least one byte, a flush cannot complete.
pub proof fn lemma_write_then_flush(c: ConnectionView, buf: Seq<u8>)
    requires
        buf.len() <= usize::MAX,
        write_result(c, buf.len() as usize) matches Ok(n) && n > 0,
    ensures
        flush_result(write_view(c, buf)) == Err::<(), TcpError>(TcpError::WouldBlock),
{
}

/// Reading and writing use separate queues: a write does not change what a
/// read returns, and a read does not change what is queued for sending.
pub proof fn lemma_read_write_independent(c: ConnectionView, buf: Seq<u8>, n: usize)
    ensures
        read_data(write_view(c, buf), n) == read_data(c, n),
        read_view(c, n).unacked == c.unacked,
        flush_result(read_view(c, n)) == flush_result(c),
{
}

} // verus!
