use vstd::prelude::*;

use rand::Rng;

use crate::packet::{
    spec_acknowledgment_number, spec_checksum_valid, spec_destination_port, spec_flags,
    spec_payload, spec_sequence_number, spec_source_port, spec_window_size, TcpPacket,
};
use crate::socket::{
    ReceiveSequenceVariables, SendSequenceVariables, TcpSocket, TcpSocketId, TcpState,
    TCP_SOCKET_BUFFER_SIZE,
};
use crate::tcp_flags;

verus! {

/// First port of the ephemeral range.
pub const TCP_PORT_RANGE_START: u16 = 49152;

/// One past the last port of the ephemeral range.
pub const TCP_PORT_RANGE_END: u16 = 65535;

/// Wildcard port of a listening socket.
pub const TCP_UNSPECIFIED_PORT: u16 = 0;

/// Wildcard address of a listening socket.
pub const TCP_UNSPECIFIED_ADDRESS: u32 = 0;

/// Fixed local source address for outbound connections: 10.0.0.1. Resolving
/// the egress interface for the destination is out of scope.
pub const TCP_LOCAL_ADDRESS: u32 = 0x0A00_0001;

/// How many random draws the port allocator makes before giving up: the size
/// of the ephemeral range.
pub const TCP_PORT_ATTEMPTS: u16 = TCP_PORT_RANGE_END - TCP_PORT_RANGE_START + 1;

/// Initial send sequence numbers are drawn below this bound, a safety margin
/// against wrap arithmetic during the handshake.
pub const TCP_ISS_BOUND: u32 = 0x8000_0000;

/// A notification passed from the receiver to blocked callers.
#[derive(Debug, PartialEq, Eq, Structural, Clone, Copy)]
pub enum TcpEvent {
    ConnectionEstablished(TcpSocketId),
}

/// The error kinds of the transport core.
#[derive(Debug, PartialEq, Eq, Structural, Clone, Copy)]
pub enum TcpError {
    /// A raw send or receive failed.
    IoError,
    /// The ephemeral port range is exhausted.
    NoFreePort,
    /// accept was called on an unknown socket id.
    NoSuchSocket,
    /// accept woke but no child was queued.
    QueueEmpty,
    /// A shared lock was poisoned by an earlier panic.
    LockPoisoned,
    /// A state/flag combination outside the handshake table.
    Unimplemented,
}

/// The single-slot event rendezvous: the receiver overwrites the slot, a
/// blocked caller clears it when the stored event is the one waited for.
/// The mutex and condition variable that make callers block around this
/// slot live with the unverified shell.
pub struct TcpEventSlot {
    pub event: Option<TcpEvent>,
}

impl TcpEventSlot {
    pub fn new() -> (r: Self)
        ensures
            r.event is None,
    {
        Self { event: None }
    }

    /// Overwrite the slot with the event and let the waiters look again.
    pub fn notify_event(&mut self, event: TcpEvent)
        ensures
            final(self).event == Some(event),
    {
        self.event = Some(event);
    }

    /// One waiting round: when the slot holds the waited-for event, clear it
    /// and report success; otherwise leave the slot alone.
    pub fn try_take(&mut self, event: TcpEvent) -> (r: bool)
        ensures
            r == (old(self).event == Some(event)),
            r ==> final(self).event is None,
            !r ==> *final(self) == *old(self),
    {
        match self.event {
            Some(e) => {
                if e == event {
                    self.event = None;
                    true
                } else {
                    false
                }
            },
            None => false,
        }
    }
}

/// Relies on rand::thread_rng and rand::Rng::gen_range: the draw lies in the
/// given half-open range, and the call panics only on an empty range, which
/// the precondition rules out. Nothing more is assumed of a random draw.
#[verifier::external_body]
fn random_in_range(low: u32, high: u32) -> (r: u32)
    requires
        low < high,
    ensures
        low <= r < high,
{
    rand::thread_rng().gen_range(low..high)
}

/// The successor of a sequence number, modulo 2^32.
pub open spec fn wrap_inc(v: u32) -> u32 {
    if v == 0xFFFF_FFFF {
        0
    } else {
        (v + 1) as u32
    }
}

/// Increment a sequence number, wrapping modulo 2^32.
pub fn wrapping_increment(v: u32) -> (r: u32)
    ensures
        r == wrap_inc(v),
{
    if v == 0xFFFF_FFFF {
        0
    } else {
        v + 1
    }
}

/// The id under which a listening socket for this local pair is stored.
pub open spec fn spec_listen_id(local_address: u32, local_port: u16) -> TcpSocketId {
    TcpSocketId {
        local_address,
        local_port,
        remote_address: TCP_UNSPECIFIED_ADDRESS,
        remote_port: TCP_UNSPECIFIED_PORT,
    }
}

/// Some entry of the table carries this id.
pub open spec fn has_id(t: Seq<TcpSocket>, id: TcpSocketId) -> bool {
    exists|i: int| 0 <= i < t.len() && (#[trigger] t[i]).spec_id() == id
}

/// The index of the entry carrying this id; meaningful only under has_id
/// together with the table invariant, which makes it unique.
pub open spec fn index_of_id(t: Seq<TcpSocket>, id: TcpSocketId) -> int {
    choose|i: int| 0 <= i < t.len() && (#[trigger] t[i]).spec_id() == id
}

/// The entry of the table carrying this id.
pub open spec fn socket_with_id(t: Seq<TcpSocket>, id: TcpSocketId) -> TcpSocket {
    t[index_of_id(t, id)]
}

/// Some entry of the table has this local port.
pub open spec fn port_in_use(t: Seq<TcpSocket>, port: u16) -> bool {
    exists|i: int| 0 <= i < t.len() && (#[trigger] t[i]).local_port == port
}

/// Invariants of a single table entry: a socket is in the Listen state
/// exactly when both remote fields are wildcards; past creation its send
/// variables satisfy iss <= una <= nxt = iss + 1 with iss inside the safety
/// margin; and only listening sockets queue children.
pub open spec fn socket_wf(s: TcpSocket) -> bool {
    &&& (s.state == TcpState::Listen <==> (s.remote_address == TCP_UNSPECIFIED_ADDRESS
        && s.remote_port == TCP_UNSPECIFIED_PORT))
    &&& (s.state != TcpState::Listen ==> {
        &&& s.snd.iss < TCP_ISS_BOUND
        &&& s.snd.iss <= s.snd.una <= s.snd.nxt
        &&& s.snd.nxt == s.snd.iss + 1
        &&& s.connected_socket_queue@.len() == 0
    })
}

/// No two entries of the table carry the same id.
pub open spec fn ids_unique(t: Seq<TcpSocket>) -> bool {
    forall|i: int, j: int|
        0 <= i < j < t.len() ==> (#[trigger] t[i]).spec_id() != (#[trigger] t[j]).spec_id()
}

/// Invariants of the socket table: every entry is well formed, ids are
/// unique, a back-reference to a parent names a listening socket that is
/// present in the table, and every id queued on a listener names a table
/// entry that has reached the Established state.
pub open spec fn table_wf(t: Seq<TcpSocket>) -> bool {
    &&& (forall|i: int| 0 <= i < t.len() ==> socket_wf(#[trigger] t[i]))
    &&& ids_unique(t)
    &&& (forall|i: int| 0 <= i < t.len() ==> ((#[trigger] t[i]).listening_socket matches Some(lid)
        ==> has_id(t, lid) && lid.remote_address == TCP_UNSPECIFIED_ADDRESS
            && lid.remote_port == TCP_UNSPECIFIED_PORT))
    &&& (forall|i: int, k: int| #![trigger t[i].connected_socket_queue@[k]]
        0 <= i < t.len() && 0 <= k < t[i].connected_socket_queue@.len()
        ==> has_id(t, t[i].connected_socket_queue@[k])
            && socket_with_id(t, t[i].connected_socket_queue@[k]).state
                == TcpState::Established)
}

/// The table after storing a socket under its id: the entry with that id is
/// the given socket, and every other id maps exactly as before.
pub open spec fn table_updated(
    t0: Seq<TcpSocket>,
    t1: Seq<TcpSocket>,
    id: TcpSocketId,
    s: TcpSocket,
) -> bool {
    &&& s.spec_id() == id
    &&& has_id(t1, id)
    &&& socket_with_id(t1, id) == s
    &&& (forall|id2: TcpSocketId| #![trigger has_id(t0, id2)] #![trigger has_id(t1, id2)]
        id2 != id ==> (has_id(t1, id2) <==> has_id(t0, id2)))
    &&& (forall|id2: TcpSocketId| #![trigger socket_with_id(t1, id2)] #![trigger socket_with_id(t0, id2)]
        id2 != id && has_id(t0, id2)
        ==> socket_with_id(t1, id2) == socket_with_id(t0, id2))
}

/// Under unique ids the entry at any index is the unique carrier of its id.
pub proof fn lemma_id_at(t: Seq<TcpSocket>, i: int)
    requires
        ids_unique(t),
        0 <= i < t.len(),
    ensures
        has_id(t, t[i].spec_id()),
        index_of_id(t, t[i].spec_id()) == i,
        socket_with_id(t, t[i].spec_id()) == t[i],
{
    let id = t[i].spec_id();
    assert(has_id(t, id));
    let j = index_of_id(t, id);
    assert(0 <= j < t.len() && t[j].spec_id() == id);
    if j < i {
        assert(t[j].spec_id() != t[i].spec_id());
    } else if i < j {
        assert(t[i].spec_id() != t[j].spec_id());
    }
}

/// Replacing the entry at an index by a well-formed socket with the same id
/// keeps the table well formed and stores the socket under that id. The
/// replacement's queued ids must name established entries, and an entry that
/// may sit on some queue, that is an established one, may only be replaced
/// by an established socket.
pub proof fn lemma_table_update(t: Seq<TcpSocket>, i: int, s: TcpSocket)
    requires
        table_wf(t),
        0 <= i < t.len(),
        s.spec_id() == t[i].spec_id(),
        socket_wf(s),
        s.listening_socket matches Some(lid) ==> has_id(t, lid)
            && lid.remote_address == TCP_UNSPECIFIED_ADDRESS
            && lid.remote_port == TCP_UNSPECIFIED_PORT,
        forall|k: int| 0 <= k < s.connected_socket_queue@.len()
            ==> has_id(t, #[trigger] s.connected_socket_queue@[k])
                && socket_with_id(t, s.connected_socket_queue@[k]).state
                    == TcpState::Established,
        t[i].state == TcpState::Established ==> s.state == TcpState::Established,
    ensures
        table_wf(t.update(i, s)),
        table_updated(t, t.update(i, s), s.spec_id(), s),
{
    let t1 = t.update(i, s);
    let id = s.spec_id();
    assert forall|id2: TcpSocketId| has_id(t, id2) implies has_id(t1, id2) by {
        let j = index_of_id(t, id2);
        if j == i {
            assert(t1[i].spec_id() == id2);
        } else {
            assert(t1[j].spec_id() == id2);
        }
    };
    assert forall|id2: TcpSocketId| has_id(t1, id2) implies has_id(t, id2) by {
        let j = index_of_id(t1, id2);
        if j == i {
            assert(t[i].spec_id() == id2);
        } else {
            assert(t[j].spec_id() == id2);
        }
    };
    assert(ids_unique(t1));
    lemma_id_at(t, i);
    lemma_id_at(t1, i);
    assert forall|id2: TcpSocketId| id2 != id && #[trigger] has_id(t, id2) implies
        socket_with_id(t1, id2) == socket_with_id(t, id2) by {
        let j = index_of_id(t, id2);
        lemma_id_at(t, j);
        assert(j != i);
        assert(t1[j].spec_id() == id2);
        lemma_id_at(t1, j);
    };
    assert forall|j: int, k: int| #![trigger t1[j].connected_socket_queue@[k]]
        0 <= j < t1.len() && 0 <= k < t1[j].connected_socket_queue@.len()
        implies has_id(t1, t1[j].connected_socket_queue@[k])
            && socket_with_id(t1, t1[j].connected_socket_queue@[k]).state
                == TcpState::Established by {
        let qid = t1[j].connected_socket_queue@[k];
        if j != i {
            assert(t[j].connected_socket_queue@[k] == qid);
        }
        assert(has_id(t, qid) && socket_with_id(t, qid).state == TcpState::Established);
        if qid == id {
            assert(socket_with_id(t, id) == t[i]);
            assert(socket_with_id(t1, id) == s);
        } else {
            assert(socket_with_id(t1, qid) == socket_with_id(t, qid));
        }
    };
    assert(table_wf(t1));
}

/// Appending a well-formed socket under a fresh id keeps the table well
/// formed and stores the socket under that id. The new socket's queued ids
/// must name established entries.
pub proof fn lemma_table_push(t: Seq<TcpSocket>, s: TcpSocket)
    requires
        table_wf(t),
        !has_id(t, s.spec_id()),
        socket_wf(s),
        s.listening_socket matches Some(lid) ==> has_id(t, lid)
            && lid.remote_address == TCP_UNSPECIFIED_ADDRESS
            && lid.remote_port == TCP_UNSPECIFIED_PORT,
        forall|k: int| 0 <= k < s.connected_socket_queue@.len()
            ==> has_id(t, #[trigger] s.connected_socket_queue@[k])
                && socket_with_id(t, s.connected_socket_queue@[k]).state
                    == TcpState::Established,
    ensures
        table_wf(t.push(s)),
        table_updated(t, t.push(s), s.spec_id(), s),
{
    let t1 = t.push(s);
    let id = s.spec_id();
    let n = t.len() as int;
    assert(t1[n] == s);
    assert forall|id2: TcpSocketId| has_id(t, id2) implies has_id(t1, id2) by {
        let j = index_of_id(t, id2);
        assert(t1[j].spec_id() == id2);
    };
    assert forall|id2: TcpSocketId| id2 != id && has_id(t1, id2) implies has_id(t, id2) by {
        let j = index_of_id(t1, id2);
        assert(j != n);
        assert(t[j].spec_id() == id2);
    };
    assert forall|i: int| 0 <= i < t1.len() implies socket_wf(#[trigger] t1[i]) by {
        if i < n {
            assert(socket_wf(t[i]));
        }
    };
    assert forall|i: int, j: int| 0 <= i < j < t1.len() implies
        (#[trigger] t1[i]).spec_id() != (#[trigger] t1[j]).spec_id() by {
        if j < n {
            assert(t[i].spec_id() != t[j].spec_id());
        } else {
            if t1[i].spec_id() == id {
                assert(t[i].spec_id() == id);
                assert(has_id(t, id));
            }
        }
    };
    assert forall|i: int| 0 <= i < t1.len() implies
        ((#[trigger] t1[i]).listening_socket matches Some(lid) ==> has_id(t1, lid)
            && lid.remote_address == TCP_UNSPECIFIED_ADDRESS
            && lid.remote_port == TCP_UNSPECIFIED_PORT) by {
        if t1[i].listening_socket is Some {
            let lid = t1[i].listening_socket->Some_0;
            if i < n {
                assert(has_id(t, lid));
            }
            if has_id(t, lid) {
                let j = index_of_id(t, lid);
                assert(t1[j].spec_id() == lid);
            }
        }
    };
    assert(ids_unique(t1));
    lemma_id_at(t1, n);
    assert forall|id2: TcpSocketId| id2 != id && #[trigger] has_id(t, id2) implies
        socket_with_id(t1, id2) == socket_with_id(t, id2) by {
        let j = index_of_id(t, id2);
        lemma_id_at(t, j);
        assert(t1[j].spec_id() == id2);
        lemma_id_at(t1, j);
    };
    assert forall|j: int, k: int| #![trigger t1[j].connected_socket_queue@[k]]
        0 <= j < t1.len() && 0 <= k < t1[j].connected_socket_queue@.len()
        implies has_id(t1, t1[j].connected_socket_queue@[k])
            && socket_with_id(t1, t1[j].connected_socket_queue@[k]).state
                == TcpState::Established by {
        let qid = t1[j].connected_socket_queue@[k];
        if j < n {
            assert(t[j].connected_socket_queue@[k] == qid);
        }
        assert(has_id(t, qid) && socket_with_id(t, qid).state == TcpState::Established);
        assert(qid != id);
        assert(socket_with_id(t1, qid) == socket_with_id(t, qid));
    };
    assert(table_wf(t1));
}

/// The transport engine: the socket table, keyed by each socket's
/// four-tuple. The receiver loop, the raw channels, and the locks that
/// share this engine across threads live with the unverified shell; every
/// state transition happens here.
pub struct TcpStream {
    sockets: Vec<TcpSocket>,
}

impl View for TcpStream {
    type V = Seq<TcpSocket>;

    closed spec fn view(&self) -> Seq<TcpSocket> {
        self.sockets@
    }
}

impl TcpStream {
    /// The table invariants, §3 of the design: entry ids match their
    /// sockets and are unique, listening sockets and only they carry
    /// wildcard remotes, send variables stay ordered inside the iss margin,
    /// and only listening sockets queue children.
    pub open spec fn wf(&self) -> bool {
        table_wf(self@)
    }

    pub fn new() -> (r: Self)
        ensures
            r.wf(),
            r@ == Seq::<TcpSocket>::empty(),
    {
        Self { sockets: Vec::new() }
    }

    /// The index of the entry with this id, if any.
    fn find_index(&self, id: TcpSocketId) -> (r: Option<usize>)
        ensures
            match r {
                Some(i) => i < self@.len() && self@[i as int].spec_id() == id && has_id(self@, id),
                None => !has_id(self@, id),
            },
    {
        let n = self.sockets.len();
        let mut i: usize = 0;
        while i < n
            invariant
                n == self@.len(),
                i <= n,
                forall|j: int| 0 <= j < i ==> (#[trigger] self@[j]).spec_id() != id,
            decreases n - i,
        {
            if self.sockets[i].id() == id {
                return Some(i);
            }
            i = i + 1;
        }
        None
    }

    /// The socket stored under this id, if any.
    pub fn get_socket(&self, id: TcpSocketId) -> (r: Option<&TcpSocket>)
        requires
            self.wf(),
        ensures
            match r {
                Some(s) => has_id(self@, id) && *s == socket_with_id(self@, id),
                None => !has_id(self@, id),
            },
    {
        let ghost t = self@;
        match self.find_index(id) {
            Some(i) => {
                proof {
                    lemma_id_at(t, i as int);
                }
                Some(&self.sockets[i])
            },
            None => None,
        }
    }

    /// Store a socket under its id, replacing any entry with the same id.
    fn insert_socket(&mut self, socket: TcpSocket)
        requires
            old(self).wf(),
            socket_wf(socket),
            socket.listening_socket matches Some(lid) ==> has_id(old(self)@, lid)
                && lid.remote_address == TCP_UNSPECIFIED_ADDRESS
                && lid.remote_port == TCP_UNSPECIFIED_PORT,
            forall|k: int| 0 <= k < socket.connected_socket_queue@.len()
                ==> has_id(old(self)@, #[trigger] socket.connected_socket_queue@[k])
                    && socket_with_id(old(self)@, socket.connected_socket_queue@[k]).state
                        == TcpState::Established,
            has_id(old(self)@, socket.spec_id())
                && socket_with_id(old(self)@, socket.spec_id()).state == TcpState::Established
                ==> socket.state == TcpState::Established,
        ensures
            final(self).wf(),
            table_updated(old(self)@, final(self)@, socket.spec_id(), socket),
            final(self)@.len() <= old(self)@.len() + 1,
    {
        let ghost t0 = self@;
        match self.find_index(socket.id()) {
            Some(i) => {
                proof {
                    lemma_id_at(t0, i as int);
                    lemma_table_update(t0, i as int, socket);
                }
                self.sockets.set(i, socket);
            },
            None => {
                proof {
                    lemma_table_push(t0, socket);
                }
                self.sockets.push(socket);
            },
        }
    }

    /// Create a listening socket for the local pair and store it; its id,
    /// with wildcard remote fields, is returned. An existing socket under
    /// the same id is replaced.
    pub fn listen(&mut self, local_address: u32, local_port: u16) -> (r: TcpSocketId)
        requires
            old(self).wf(),
        ensures
            final(self).wf(),
            r == spec_listen_id(local_address, local_port),
            has_id(final(self)@, r),
            ({
                let s = socket_with_id(final(self)@, r);
                &&& s.state == TcpState::Listen
                &&& s.local_address == local_address
                &&& s.local_port == local_port
                &&& s.remote_address == TCP_UNSPECIFIED_ADDRESS
                &&& s.remote_port == TCP_UNSPECIFIED_PORT
                &&& s.snd == SendSequenceVariables::spec_initial()
                &&& s.rcv == ReceiveSequenceVariables::spec_initial()
                &&& s.listening_socket is None
                &&& s.connected_socket_queue@.len() == 0
            }),
            table_updated(old(self)@, final(self)@, r, socket_with_id(final(self)@, r)),
    {
        let mut listening_socket = TcpSocket::new(
            local_address,
            local_port,
            TCP_UNSPECIFIED_ADDRESS,
            TCP_UNSPECIFIED_PORT,
        );
        listening_socket.state = TcpState::Listen;
        let socket_id = listening_socket.id();
        proof {
            // An entry already stored under the wildcard id is itself a
            // listening socket, so no established entry is replaced here.
            if has_id(self@, socket_id) {
                let j = index_of_id(self@, socket_id);
                assert(socket_wf(self@[j]));
            }
        }
        self.insert_socket(listening_socket);
        socket_id
    }

    /// Whether some entry already uses this local port.
    fn is_port_in_use(&self, port: u16) -> (r: bool)
        ensures
            r == port_in_use(self@, port),
    {
        let n = self.sockets.len();
        let mut i: usize = 0;
        while i < n
            invariant
                n == self@.len(),
                i <= n,
                forall|j: int| 0 <= j < i ==> (#[trigger] self@[j]).local_port != port,
            decreases n - i,
        {
            if self.sockets[i].local_port == port {
                return true;
            }
            i = i + 1;
        }
        false
    }

    /// Draw random candidates from the ephemeral range, as many times as the
    /// range has ports, and return the first one no table entry uses as its
    /// local port. On a table that uses no ephemeral port at all, the first
    /// draw is free, so the allocator cannot fail there; with ports in use,
    /// unlucky draws may exhaust the attempts even while some port is free.
    fn select_unused_port(&self) -> (r: Result<u16, TcpError>)
        ensures
            match r {
                Ok(p) => TCP_PORT_RANGE_START <= p < TCP_PORT_RANGE_END
                    && !port_in_use(self@, p),
                Err(e) => e == TcpError::NoFreePort,
            },
            (forall|p: u16| TCP_PORT_RANGE_START <= p < TCP_PORT_RANGE_END
                ==> !port_in_use(self@, p)) ==> r is Ok,
    {
        let mut attempt: u16 = 0;
        while attempt < TCP_PORT_ATTEMPTS
            invariant
                attempt <= TCP_PORT_ATTEMPTS,
                (forall|p: u16| TCP_PORT_RANGE_START <= p < TCP_PORT_RANGE_END
                    ==> !port_in_use(self@, p)) ==> attempt == 0,
            decreases TCP_PORT_ATTEMPTS - attempt,
        {
            let candidate = random_in_range(
                TCP_PORT_RANGE_START as u32,
                TCP_PORT_RANGE_END as u32,
            ) as u16;
            if !self.is_port_in_use(candidate) {
                return Ok(candidate);
            }
            attempt = attempt + 1;
        }
        Err(TcpError::NoFreePort)
    }

    /// Create a socket for an outbound connection: an unused ephemeral local
    /// port under the fixed local address, a random initial send sequence
    /// number inside the safety margin, state SynSent. The returned segment
    /// is the SYN opening the handshake, to be transmitted to the remote
    /// address; the caller then blocks until the receiver establishes the
    /// connection. Fails only when the port allocator gives up, which cannot
    /// happen on a table that uses no ephemeral port.
    pub fn connect(&mut self, remote_address: u32, remote_port: u16) -> (r: Result<
        (TcpSocketId, TcpPacket),
        TcpError,
    >)
        requires
            old(self).wf(),
            remote_address != TCP_UNSPECIFIED_ADDRESS,
            remote_port != TCP_UNSPECIFIED_PORT,
        ensures
            final(self).wf(),
            match r {
                Ok(ok) => ({
                    let id = ok.0;
                    let syn = ok.1;
                    let s = socket_with_id(final(self)@, id);
                    &&& id.local_address == TCP_LOCAL_ADDRESS
                    &&& TCP_PORT_RANGE_START <= id.local_port < TCP_PORT_RANGE_END
                    &&& !port_in_use(old(self)@, id.local_port)
                    &&& id.remote_address == remote_address
                    &&& id.remote_port == remote_port
                    &&& has_id(final(self)@, id)
                    &&& table_updated(old(self)@, final(self)@, id, s)
                    &&& s.state == TcpState::SynSent
                    &&& s.snd.iss < TCP_ISS_BOUND
                    &&& s.snd.una == s.snd.iss
                    &&& s.snd.nxt == s.snd.iss + 1
                    &&& s.snd.wnd == TCP_SOCKET_BUFFER_SIZE
                    &&& s.rcv == ReceiveSequenceVariables::spec_initial()
                    &&& s.listening_socket is None
                    &&& s.connected_socket_queue@.len() == 0
                    &&& syn.wf()
                    &&& spec_flags(syn@) == tcp_flags::SYN
                    &&& spec_sequence_number(syn@) == s.snd.iss
                    &&& spec_acknowledgment_number(syn@) == 0
                    &&& spec_source_port(syn@) == id.local_port
                    &&& spec_destination_port(syn@) == remote_port
                    &&& spec_window_size(syn@) == TCP_SOCKET_BUFFER_SIZE
                    &&& spec_payload(syn@).len() == 0
                    &&& spec_checksum_valid(syn@, TCP_LOCAL_ADDRESS, remote_address)
                }),
                Err(e) => e == TcpError::NoFreePort && final(self)@ == old(self)@,
            },
            (forall|p: u16| TCP_PORT_RANGE_START <= p < TCP_PORT_RANGE_END
                ==> !port_in_use(old(self)@, p)) ==> r is Ok,
    {
        let local_port = match self.select_unused_port() {
            Ok(p) => p,
            Err(e) => {
                return Err(e);
            },
        };
        let mut socket = TcpSocket::new(TCP_LOCAL_ADDRESS, local_port, remote_address, remote_port);

        // First step of the three-way handshake: send a SYN carrying the
        // initial send sequence number.
        let initial_sequence_number = random_in_range(0, TCP_ISS_BOUND);
        socket.snd.una = initial_sequence_number;
        socket.snd.nxt = initial_sequence_number + 1;
        socket.snd.iss = initial_sequence_number;

        let empty_payload: Vec<u8> = Vec::new();
        let syn = socket.build_tcp_packet(
            initial_sequence_number,
            0,
            tcp_flags::SYN,
            empty_payload.as_slice(),
        );
        socket.state = TcpState::SynSent;

        let socket_id = socket.id();
        proof {
            // A socket under this id would use the freshly drawn port, which
            // no entry does: nothing is replaced.
            if has_id(self@, socket_id) {
                let j = index_of_id(self@, socket_id);
                assert(self@[j].local_port == local_port);
                assert(port_in_use(self@, local_port));
            }
        }
        self.insert_socket(socket);
        Ok((socket_id, syn))
    }

    /// Process one received, already parsed TCP segment: the body of the
    /// receiver loop. `local_address` is the destination of the carrying
    /// IPv4 packet, `remote_address` its source; a response, when one is
    /// returned, goes back to `remote_address`.
    pub fn handle_segment(
        &mut self,
        packet: &TcpPacket,
        local_address: u32,
        remote_address: u32,
    ) -> (r: Result<SegmentOutcome, TcpError>)
        requires
            old(self).wf(),
            packet.wf(),
            remote_address != TCP_UNSPECIFIED_ADDRESS,
        ensures
            final(self).wf(),
            handle_segment_spec(old(self)@, final(self)@, packet@, local_address, remote_address, r),
    {
        let ghost t0 = self@;

        // A segment whose checksum does not verify is dropped before
        // dispatch.
        if !packet.verify_packet(local_address, remote_address) {
            return Ok(SegmentOutcome { emission: None, event: None });
        }

        // Demultiplex: exact four-tuple first, the listening entry second.
        let exact_id = TcpSocketId {
            local_address,
            local_port: packet.destination_port(),
            remote_address,
            remote_port: packet.source_port(),
        };
        let wildcard_id = TcpSocketId {
            local_address,
            local_port: packet.destination_port(),
            remote_address: TCP_UNSPECIFIED_ADDRESS,
            remote_port: TCP_UNSPECIFIED_PORT,
        };
        let idx: usize;
        match self.find_index(exact_id) {
            Some(i) => {
                idx = i;
            },
            None => {
                match self.find_index(wildcard_id) {
                    Some(i) => {
                        idx = i;
                    },
                    None => {
                        // No matching socket: drop silently.
                        return Ok(SegmentOutcome { emission: None, event: None });
                    },
                }
            },
        }
        proof {
            lemma_id_at(t0, idx as int);
        }

        let state = self.sockets[idx].state;
        match state {
            TcpState::Listen => self.handle_listen(idx, packet, remote_address),
            TcpState::SynSent => self.handle_syn_sent(idx, packet),
            TcpState::SynReceived => self.handle_syn_received(idx, packet),
            _ => Err(TcpError::Unimplemented),
        }
    }

    /// A segment for a listening socket: a SYN spawns a child socket and
    /// answers SYN|ACK; everything else is dropped.
    fn handle_listen(&mut self, idx: usize, packet: &TcpPacket, remote_address: u32) -> (r: Result<
        SegmentOutcome,
        TcpError,
    >)
        requires
            old(self).wf(),
            idx < old(self)@.len(),
            old(self)@[idx as int].state == TcpState::Listen,
            packet.wf(),
            remote_address != TCP_UNSPECIFIED_ADDRESS,
            // The demultiplexer reaches a listening socket only when the
            // exact four-tuple misses, so the spawned child replaces nothing.
            !has_id(old(self)@, TcpSocketId {
                local_address: old(self)@[idx as int].local_address,
                local_port: old(self)@[idx as int].local_port,
                remote_address,
                remote_port: spec_source_port(packet@),
            }),
        ensures
            final(self).wf(),
            listen_step(
                old(self)@,
                final(self)@,
                old(self)@[idx as int].spec_id(),
                packet@,
                remote_address,
                r,
            ),
    {
        let ghost t0 = self@;
        proof {
            lemma_id_at(t0, idx as int);
        }
        let seg_flags = packet.flags();
        if seg_flags != tcp_flags::SYN {
            // An ACK in Listen ought to draw a RST; this core drops it, as
            // it drops every other non-SYN segment here.
            return Ok(SegmentOutcome { emission: None, event: None });
        }

        // Spawn the socket that will carry the connection; it becomes a
        // connected socket when the handshake's final ACK arrives.
        let remote_port = packet.source_port();
        let mut connected_socket = TcpSocket::new(
            self.sockets[idx].local_address,
            self.sockets[idx].local_port,
            remote_address,
            remote_port,
        );
        connected_socket.state = TcpState::SynReceived;

        connected_socket.rcv.nxt = wrapping_increment(packet.sequence_number());
        connected_socket.rcv.irs = packet.sequence_number();

        let child_iss = random_in_range(0, TCP_ISS_BOUND);
        connected_socket.snd.iss = child_iss;
        connected_socket.snd.una = child_iss;
        connected_socket.snd.nxt = child_iss + 1;
        connected_socket.snd.wnd = packet.window_size();

        let empty_payload: Vec<u8> = Vec::new();
        let syn_ack = connected_socket.build_tcp_packet(
            child_iss,
            connected_socket.rcv.nxt,
            tcp_flags::SYN | tcp_flags::ACK,
            empty_payload.as_slice(),
        );

        connected_socket.listening_socket = Some(self.sockets[idx].id());
        self.insert_socket(connected_socket);

        Ok(SegmentOutcome { emission: Some(syn_ack), event: None })
    }

    /// A segment for a socket that has sent a SYN: a SYN|ACK inside the
    /// send window answers with an ACK and either establishes the
    /// connection or, when our own SYN is still unacknowledged, turns the
    /// exchange into a simultaneous open; everything else is dropped.
    fn handle_syn_sent(&mut self, idx: usize, packet: &TcpPacket) -> (r: Result<
        SegmentOutcome,
        TcpError,
    >)
        requires
            old(self).wf(),
            idx < old(self)@.len(),
            old(self)@[idx as int].state == TcpState::SynSent,
            packet.wf(),
        ensures
            final(self).wf(),
            syn_sent_step(
                old(self)@,
                final(self)@,
                old(self)@[idx as int].spec_id(),
                packet@,
                r,
            ),
    {
        let ghost t0 = self@;
        proof {
            lemma_id_at(t0, idx as int);
        }
        let seg_flags = packet.flags();
        let seg_seq = packet.sequence_number();
        let seg_ack = packet.acknowledgment_number();
        let seg_window = packet.window_size();

        if !(seg_flags == tcp_flags::SYN | tcp_flags::ACK
            && self.sockets[idx].snd.una <= seg_ack && seg_ack <= self.sockets[idx].snd.nxt) {
            return Ok(SegmentOutcome { emission: None, event: None });
        }

        let socket = &mut self.sockets[idx];

        // The segment acknowledges our data and carries the peer's SYN.
        socket.snd.una = seg_ack;
        socket.snd.wnd = seg_window;
        socket.rcv.nxt = wrapping_increment(seg_seq);
        socket.rcv.irs = seg_seq;

        let empty_payload: Vec<u8> = Vec::new();
        if socket.snd.iss < seg_ack {
            // Basic three-way handshake: acknowledge and establish.
            let ack_packet = socket.build_tcp_packet(
                socket.snd.nxt,
                socket.rcv.nxt,
                tcp_flags::ACK,
                empty_payload.as_slice(),
            );
            socket.state = TcpState::Established;
            let socket_id = socket.id();
            proof {
                lemma_table_update(t0, idx as int, self@[idx as int]);
            }
            Ok(SegmentOutcome {
                emission: Some(ack_packet),
                event: Some(TcpEvent::ConnectionEstablished(socket_id)),
            })
        } else {
            // Simultaneous open: both sides sent a SYN; acknowledge theirs
            // and wait for the acknowledgment of ours.
            let ack_packet = socket.build_tcp_packet(
                socket.snd.iss,
                socket.rcv.nxt,
                tcp_flags::ACK,
                empty_payload.as_slice(),
            );
            socket.state = TcpState::SynReceived;
            proof {
                lemma_table_update(t0, idx as int, self@[idx as int]);
            }
            Ok(SegmentOutcome { emission: Some(ack_packet), event: None })
        }
    }

    /// A segment for a socket awaiting the handshake's final ACK: an ACK
    /// inside the send window establishes the connection; a child spawned
    /// by a listener is enqueued there and the listener's waiters are
    /// woken. Everything else is dropped.
    fn handle_syn_received(&mut self, idx: usize, packet: &TcpPacket) -> (r: Result<
        SegmentOutcome,
        TcpError,
    >)
        requires
            old(self).wf(),
            idx < old(self)@.len(),
            old(self)@[idx as int].state == TcpState::SynReceived,
            packet.wf(),
        ensures
            final(self).wf(),
            syn_received_step(
                old(self)@,
                final(self)@,
                old(self)@[idx as int].spec_id(),
                packet@,
                r,
            ),
    {
        let ghost t0 = self@;
        let ghost id = self@[idx as int].spec_id();
        proof {
            lemma_id_at(t0, idx as int);
        }
        let seg_flags = packet.flags();
        let seg_seq = packet.sequence_number();
        let seg_ack = packet.acknowledgment_number();

        if !(seg_flags == tcp_flags::ACK
            && self.sockets[idx].snd.una <= seg_ack && seg_ack <= self.sockets[idx].snd.nxt) {
            return Ok(SegmentOutcome { emission: None, event: None });
        }

        let socket = &mut self.sockets[idx];
        socket.rcv.nxt = wrapping_increment(seg_seq);
        socket.snd.una = seg_ack;
        socket.state = TcpState::Established;
        let connected_socket_id = socket.id();
        let parent = socket.listening_socket;

        proof {
            lemma_table_update(t0, idx as int, self@[idx as int]);
        }
        let ghost t_mid = self@;

        let listening_socket_id = match parent {
            Some(lid) => lid,
            None => {
                // A simultaneous open has no listener to notify.
                return Ok(SegmentOutcome { emission: None, event: None });
            },
        };

        // Enqueue the established child on its listener, so that accept can
        // dequeue it after the wake-up.
        let pidx = match self.find_index(listening_socket_id) {
            Some(i) => i,
            None => {
                proof {
                    assert(has_id(t_mid, listening_socket_id));
                }
                return Err(TcpError::NoSuchSocket);
            },
        };
        proof {
            lemma_id_at(t_mid, pidx as int);
        }
        let listener = &mut self.sockets[pidx];
        listener.connected_socket_queue.push(connected_socket_id);
        proof {
            let l1q = self@[pidx as int].connected_socket_queue@;
            let l0q = t_mid[pidx as int].connected_socket_queue@;
            // The grown queue still names only established entries: the old
            // ids by the table invariant, the new one by the step above.
            assert forall|k: int| 0 <= k < l1q.len() implies has_id(t_mid, #[trigger] l1q[k])
                && socket_with_id(t_mid, l1q[k]).state == TcpState::Established by {
                if k < l0q.len() {
                    assert(t_mid[pidx as int].connected_socket_queue@[k] == l1q[k]);
                } else {
                    assert(l1q[k] == connected_socket_id);
                }
            };
            lemma_table_update(t_mid, pidx as int, self@[pidx as int]);
        }
        Ok(SegmentOutcome {
            emission: None,
            event: Some(TcpEvent::ConnectionEstablished(listening_socket_id)),
        })
    }

    /// Hand out the oldest established child of a listening socket. The
    /// caller blocks on the event rendezvous first; by the time the wake-up
    /// arrives the child has been established and enqueued by the receiver.
    pub fn accept(&mut self, listening_socket_id: TcpSocketId) -> (r: Result<TcpSocketId, TcpError>)
        requires
            old(self).wf(),
        ensures
            final(self).wf(),
            match r {
                Ok(id) => ({
                    let l0 = socket_with_id(old(self)@, listening_socket_id);
                    let l1 = socket_with_id(final(self)@, listening_socket_id);
                    &&& has_id(old(self)@, listening_socket_id)
                    &&& l0.connected_socket_queue@.len() > 0
                    &&& id == l0.connected_socket_queue@[0]
                    &&& has_id(final(self)@, listening_socket_id)
                    &&& l1.connected_socket_queue@ == l0.connected_socket_queue@.drop_first()
                    &&& socket_fields_except_queue(l1, l0)
                    &&& table_updated(old(self)@, final(self)@, listening_socket_id, l1)
                    // The id handed out names a socket that has completed
                    // its handshake, untouched by the dequeue.
                    &&& has_id(final(self)@, id)
                    &&& socket_with_id(final(self)@, id)
                        == socket_with_id(old(self)@, id)
                    &&& socket_with_id(final(self)@, id).state == TcpState::Established
                }),
                Err(e) => final(self)@ == old(self)@ && ((e == TcpError::NoSuchSocket
                    && !has_id(old(self)@, listening_socket_id)) || (e == TcpError::QueueEmpty
                    && has_id(old(self)@, listening_socket_id)
                    && socket_with_id(old(self)@, listening_socket_id)
                        .connected_socket_queue@.len() == 0)),
            },
    {
        let ghost t0 = self@;
        let idx = match self.find_index(listening_socket_id) {
            Some(i) => i,
            None => {
                return Err(TcpError::NoSuchSocket);
            },
        };
        proof {
            lemma_id_at(t0, idx as int);
        }
        if self.sockets[idx].connected_socket_queue.len() == 0 {
            return Err(TcpError::QueueEmpty);
        }
        let socket = &mut self.sockets[idx];
        let connected_socket_id = socket.connected_socket_queue.remove(0);
        proof {
            assert(self@[idx as int].connected_socket_queue@
                =~= t0[idx as int].connected_socket_queue@.drop_first());
            // The shortened queue still names only established entries.
            let l1q = self@[idx as int].connected_socket_queue@;
            assert forall|k: int| 0 <= k < l1q.len() implies has_id(t0, #[trigger] l1q[k])
                && socket_with_id(t0, l1q[k]).state == TcpState::Established by {
                assert(t0[idx as int].connected_socket_queue@[k + 1] == l1q[k]);
            };
            // The dequeued head is an established entry distinct from the
            // listener, so the update leaves it untouched.
            assert(t0[idx as int].connected_socket_queue@[0] == connected_socket_id);
            assert(has_id(t0, connected_socket_id)
                && socket_with_id(t0, connected_socket_id).state == TcpState::Established);
            assert(connected_socket_id != listening_socket_id);
            lemma_table_update(t0, idx as int, self@[idx as int]);
        }
        Ok(connected_socket_id)
    }
}

/// What handling one segment asks of the transport shell: at most one
/// response segment to transmit to the segment's sender, and at most one
/// event to post on the rendezvous.
pub struct SegmentOutcome {
    pub emission: Option<TcpPacket>,
    pub event: Option<TcpEvent>,
}

/// The segment was dropped: nothing changed, nothing is sent, nothing is
/// signalled.
pub open spec fn segment_dropped(
    t0: Seq<TcpSocket>,
    t1: Seq<TcpSocket>,
    r: Result<SegmentOutcome, TcpError>,
) -> bool {
    &&& t1 == t0
    &&& r matches Ok(o) && o.emission is None && o.event is None
}

/// The socket a listening socket spawns for a received SYN: local pair from
/// the listener, remote pair from the segment's source, receive variables
/// primed from the segment's sequence number, fresh initial send sequence
/// number, peer window recorded, back-linked to the listener.
pub open spec fn is_child_socket(
    c: TcpSocket,
    listener: TcpSocket,
    remote_address: u32,
    remote_port: u16,
    seg_seq: u32,
    seg_window: u16,
    child_iss: u32,
) -> bool {
    &&& c.local_address == listener.local_address
    &&& c.local_port == listener.local_port
    &&& c.remote_address == remote_address
    &&& c.remote_port == remote_port
    &&& c.state == TcpState::SynReceived
    &&& c.rcv.irs == seg_seq
    &&& c.rcv.nxt == wrap_inc(seg_seq)
    &&& c.rcv.wnd == TCP_SOCKET_BUFFER_SIZE
    &&& c.rcv.up == 0
    &&& c.snd.iss == child_iss
    &&& c.snd.una == child_iss
    &&& c.snd.nxt == child_iss + 1
    &&& c.snd.wnd == seg_window
    &&& c.snd.up == 0
    &&& c.snd.wl1 == 0
    &&& c.snd.wl2 == 0
    &&& c.listening_socket == Some(listener.spec_id())
    &&& c.connected_socket_queue@.len() == 0
}

/// A socket in SynSent after processing a SYN|ACK: the acknowledgment moves
/// una, the peer window is recorded, the receive variables are primed from
/// the segment's sequence number, and the state moves as the guard decides.
pub open spec fn is_syn_sent_update(
    s1: TcpSocket,
    s0: TcpSocket,
    seg_seq: u32,
    seg_ack: u32,
    seg_window: u16,
    new_state: TcpState,
) -> bool {
    &&& s1.local_address == s0.local_address
    &&& s1.local_port == s0.local_port
    &&& s1.remote_address == s0.remote_address
    &&& s1.remote_port == s0.remote_port
    &&& s1.snd.una == seg_ack
    &&& s1.snd.nxt == s0.snd.nxt
    &&& s1.snd.wnd == seg_window
    &&& s1.snd.up == s0.snd.up
    &&& s1.snd.wl1 == s0.snd.wl1
    &&& s1.snd.wl2 == s0.snd.wl2
    &&& s1.snd.iss == s0.snd.iss
    &&& s1.rcv.nxt == wrap_inc(seg_seq)
    &&& s1.rcv.irs == seg_seq
    &&& s1.rcv.wnd == s0.rcv.wnd
    &&& s1.rcv.up == s0.rcv.up
    &&& s1.state == new_state
    &&& s1.listening_socket == s0.listening_socket
    &&& s1.connected_socket_queue@ == s0.connected_socket_queue@
}

/// A socket in SynReceived after processing the handshake's final ACK: the
/// acknowledgment moves una, the next expected sequence number follows the
/// segment, and the socket is established.
pub open spec fn is_establish_update(s1: TcpSocket, s0: TcpSocket, seg_seq: u32, seg_ack: u32) -> bool {
    &&& s1.local_address == s0.local_address
    &&& s1.local_port == s0.local_port
    &&& s1.remote_address == s0.remote_address
    &&& s1.remote_port == s0.remote_port
    &&& s1.snd.una == seg_ack
    &&& s1.snd.nxt == s0.snd.nxt
    &&& s1.snd.wnd == s0.snd.wnd
    &&& s1.snd.up == s0.snd.up
    &&& s1.snd.wl1 == s0.snd.wl1
    &&& s1.snd.wl2 == s0.snd.wl2
    &&& s1.snd.iss == s0.snd.iss
    &&& s1.rcv.nxt == wrap_inc(seg_seq)
    &&& s1.rcv.irs == s0.rcv.irs
    &&& s1.rcv.wnd == s0.rcv.wnd
    &&& s1.rcv.up == s0.rcv.up
    &&& s1.state == TcpState::Established
    &&& s1.listening_socket == s0.listening_socket
    &&& s1.connected_socket_queue@ == s0.connected_socket_queue@
}

/// A response segment from a socket to its peer: ports from the socket's
/// four-tuple, our advertised window, no payload, a checksum valid for the
/// socket's pair of addresses.
pub open spec fn is_response_packet(
    b: Seq<u8>,
    s: TcpSocket,
    flags: u8,
    seq: u32,
    ack: u32,
) -> bool {
    &&& spec_flags(b) == flags
    &&& spec_sequence_number(b) == seq
    &&& spec_acknowledgment_number(b) == ack
    &&& spec_source_port(b) == s.local_port
    &&& spec_destination_port(b) == s.remote_port
    &&& spec_window_size(b) == s.rcv.wnd
    &&& spec_payload(b).len() == 0
    &&& spec_checksum_valid(b, s.local_address, s.remote_address)
}

/// A SYN received on a listening socket spawns a child in SynReceived and
/// answers SYN|ACK; anything else is dropped (an ACK ought to draw a RST,
/// which this core does not generate).
pub open spec fn listen_step(
    t0: Seq<TcpSocket>,
    t1: Seq<TcpSocket>,
    id: TcpSocketId,
    b: Seq<u8>,
    remote_address: u32,
    r: Result<SegmentOutcome, TcpError>,
) -> bool {
    let listener = socket_with_id(t0, id);
    let remote_port = spec_source_port(b);
    let child_id = TcpSocketId {
        local_address: listener.local_address,
        local_port: listener.local_port,
        remote_address,
        remote_port,
    };
    if spec_flags(b) == tcp_flags::SYN {
        let child = socket_with_id(t1, child_id);
        &&& has_id(t1, child_id)
        &&& child.snd.iss < TCP_ISS_BOUND
        &&& is_child_socket(
            child,
            listener,
            remote_address,
            remote_port,
            spec_sequence_number(b),
            spec_window_size(b),
            child.snd.iss,
        )
        &&& table_updated(t0, t1, child_id, child)
        &&& r matches Ok(o) && (o.event is None && (o.emission matches Some(p)
            && is_response_packet(
                p@,
                child,
                tcp_flags::SYN | tcp_flags::ACK,
                child.snd.iss,
                wrap_inc(spec_sequence_number(b)),
            )))
    } else {
        segment_dropped(t0, t1, r)
    }
}

/// A SYN|ACK whose acknowledgment lies between una and nxt completes the
/// active open when it acknowledges our SYN, or turns the socket into a
/// simultaneous open in SynReceived when it does not; anything else is
/// dropped.
pub open spec fn syn_sent_step(
    t0: Seq<TcpSocket>,
    t1: Seq<TcpSocket>,
    id: TcpSocketId,
    b: Seq<u8>,
    r: Result<SegmentOutcome, TcpError>,
) -> bool {
    let s = socket_with_id(t0, id);
    let seg_seq = spec_sequence_number(b);
    let seg_ack = spec_acknowledgment_number(b);
    let seg_window = spec_window_size(b);
    if spec_flags(b) == (tcp_flags::SYN | tcp_flags::ACK) && s.snd.una <= seg_ack <= s.snd.nxt {
        &&& has_id(t1, id)
        &&& table_updated(t0, t1, id, socket_with_id(t1, id))
        &&& if s.snd.iss < seg_ack {
            // Basic three-way handshake: our SYN is acknowledged.
            &&& is_syn_sent_update(
                socket_with_id(t1, id),
                s,
                seg_seq,
                seg_ack,
                seg_window,
                TcpState::Established,
            )
            &&& r matches Ok(o) && (o.event == Some(TcpEvent::ConnectionEstablished(id))
                && (o.emission matches Some(p) && is_response_packet(
                    p@,
                    socket_with_id(t1, id),
                    tcp_flags::ACK,
                    s.snd.nxt,
                    wrap_inc(seg_seq),
                )))
        } else {
            // Simultaneous open: the peer has not seen our SYN yet.
            &&& is_syn_sent_update(
                socket_with_id(t1, id),
                s,
                seg_seq,
                seg_ack,
                seg_window,
                TcpState::SynReceived,
            )
            &&& r matches Ok(o) && (o.event is None && (o.emission matches Some(p)
                && is_response_packet(
                    p@,
                    socket_with_id(t1, id),
                    tcp_flags::ACK,
                    s.snd.iss,
                    wrap_inc(seg_seq),
                )))
        }
    } else {
        segment_dropped(t0, t1, r)
    }
}

/// An ACK whose acknowledgment lies between una and nxt establishes a
/// socket in SynReceived; a child spawned by a listener is enqueued on it
/// and the listener's waiters are signalled. Anything else is dropped.
pub open spec fn syn_received_step(
    t0: Seq<TcpSocket>,
    t1: Seq<TcpSocket>,
    id: TcpSocketId,
    b: Seq<u8>,
    r: Result<SegmentOutcome, TcpError>,
) -> bool {
    let s = socket_with_id(t0, id);
    let seg_seq = spec_sequence_number(b);
    let seg_ack = spec_acknowledgment_number(b);
    if spec_flags(b) == tcp_flags::ACK && s.snd.una <= seg_ack <= s.snd.nxt {
        &&& has_id(t1, id)
        &&& is_establish_update(socket_with_id(t1, id), s, seg_seq, seg_ack)
        &&& match s.listening_socket {
            Some(lid) => {
                let l0 = socket_with_id(t0, lid);
                let l1 = socket_with_id(t1, lid);
                &&& has_id(t0, lid)
                &&& has_id(t1, lid)
                &&& l1.connected_socket_queue@ == l0.connected_socket_queue@.push(id)
                &&& socket_fields_except_queue(l1, l0)
                &&& (forall|id2: TcpSocketId| #![trigger has_id(t0, id2)] #![trigger has_id(t1, id2)]
                    id2 != id && id2 != lid
                    ==> (has_id(t1, id2) <==> has_id(t0, id2)))
                &&& (forall|id2: TcpSocketId|
                    #![trigger socket_with_id(t1, id2)] #![trigger socket_with_id(t0, id2)]
                    id2 != id && id2 != lid && has_id(t0, id2)
                    ==> socket_with_id(t1, id2) == socket_with_id(t0, id2))
                &&& t1.len() == t0.len()
                &&& r matches Ok(o) && o.emission is None
                    && o.event == Some(TcpEvent::ConnectionEstablished(lid))
            },
            None => {
                &&& table_updated(t0, t1, id, socket_with_id(t1, id))
                &&& r matches Ok(o) && o.emission is None && o.event is None
            },
        }
    } else {
        segment_dropped(t0, t1, r)
    }
}

/// What one received segment does to the engine: a segment that fails the
/// checksum is dropped before dispatch; the table is then demultiplexed,
/// preferring the exact four-tuple over the listening entry, and a miss
/// drops the segment; the matched socket moves by the handshake table, and
/// a state outside it is refused.
pub open spec fn handle_segment_spec(
    t0: Seq<TcpSocket>,
    t1: Seq<TcpSocket>,
    b: Seq<u8>,
    local_address: u32,
    remote_address: u32,
    r: Result<SegmentOutcome, TcpError>,
) -> bool {
    if !spec_checksum_valid(b, local_address, remote_address) {
        segment_dropped(t0, t1, r)
    } else {
        match demux_id(t0, local_address, spec_destination_port(b), remote_address, spec_source_port(b)) {
            Some(id) => {
                match socket_with_id(t0, id).state {
                    TcpState::Listen => listen_step(t0, t1, id, b, remote_address, r),
                    TcpState::SynSent => syn_sent_step(t0, t1, id, b, r),
                    TcpState::SynReceived => syn_received_step(t0, t1, id, b, r),
                    _ => t1 == t0 && r == Err::<SegmentOutcome, TcpError>(TcpError::Unimplemented),
                }
            },
            None => segment_dropped(t0, t1, r),
        }
    }
}

/// The socket a received segment is dispatched to: the exact four-tuple
/// when the table holds it, the listening entry for the local pair
/// otherwise, nothing when both miss.
pub open spec fn demux_id(
    t: Seq<TcpSocket>,
    local_address: u32,
    local_port: u16,
    remote_address: u32,
    remote_port: u16,
) -> Option<TcpSocketId> {
    let exact = TcpSocketId { local_address, local_port, remote_address, remote_port };
    let wildcard = spec_listen_id(local_address, local_port);
    if has_id(t, exact) {
        Some(exact)
    } else if has_id(t, wildcard) {
        Some(wildcard)
    } else {
        None
    }
}

/// The invariant of an established socket: our SYN has been acknowledged,
/// and we have received the peer's SYN.
pub open spec fn established_inv(s: TcpSocket) -> bool {
    s.state == TcpState::Established ==> s.snd.una > s.snd.iss && s.rcv.nxt > s.rcv.irs
}

/// When the table holds a socket under the exact four-tuple, the
/// demultiplexer selects it, whether or not a matching listening socket
/// exists as well.
pub proof fn lemma_demux_prefers_exact(
    t: Seq<TcpSocket>,
    local_address: u32,
    local_port: u16,
    remote_address: u32,
    remote_port: u16,
)
    requires
        has_id(t, TcpSocketId { local_address, local_port, remote_address, remote_port }),
    ensures
        demux_id(t, local_address, local_port, remote_address, remote_port)
            == Some(TcpSocketId { local_address, local_port, remote_address, remote_port }),
{
}

/// A connection-established event is signalled exactly once per successful
/// handshake: a handled segment never touches a socket that is already
/// established, and when it signals an event, some socket has newly entered
/// the established state in that very step.
pub proof fn lemma_connection_established_once(
    t0: Seq<TcpSocket>,
    t1: Seq<TcpSocket>,
    b: Seq<u8>,
    local_address: u32,
    remote_address: u32,
    r: Result<SegmentOutcome, TcpError>,
)
    requires
        table_wf(t0),
        handle_segment_spec(t0, t1, b, local_address, remote_address, r),
    ensures
        forall|id: TcpSocketId| #[trigger] has_id(t0, id)
            && socket_with_id(t0, id).state == TcpState::Established
            ==> has_id(t1, id) && socket_with_id(t1, id) == socket_with_id(t0, id),
        (r matches Ok(o) && o.event is Some) ==> exists|cid: TcpSocketId|
            #[trigger] has_id(t0, cid) && has_id(t1, cid)
            && socket_with_id(t0, cid).state != TcpState::Established
            && socket_with_id(t1, cid).state == TcpState::Established,
{
    let dp = spec_destination_port(b);
    let sp = spec_source_port(b);
    if spec_checksum_valid(b, local_address, remote_address) {
        match demux_id(t0, local_address, dp, remote_address, sp) {
            Some(id) => {
                let s = socket_with_id(t0, id);
                match s.state {
                    TcpState::Listen => {
                        assert forall|id2: TcpSocketId| #[trigger] has_id(t0, id2)
                            && socket_with_id(t0, id2).state == TcpState::Established
                            implies has_id(t1, id2)
                            && socket_with_id(t1, id2) == socket_with_id(t0, id2) by {
                            if spec_flags(b) == tcp_flags::SYN {
                                let child_id = TcpSocketId {
                                    local_address: s.local_address,
                                    local_port: s.local_port,
                                    remote_address,
                                    remote_port: sp,
                                };
                                assert(id2 != child_id);
                            }
                        };
                    },
                    TcpState::SynSent => {
                        assert(s.state != TcpState::Established);
                    },
                    TcpState::SynReceived => {
                        let seg_ack = spec_acknowledgment_number(b);
                        if spec_flags(b) == tcp_flags::ACK && s.snd.una <= seg_ack <= s.snd.nxt {
                            match s.listening_socket {
                                Some(lid) => {
                                    let l0 = socket_with_id(t0, lid);
                                    assert(l0.state == TcpState::Listen);
                                    assert forall|id2: TcpSocketId| #[trigger] has_id(t0, id2)
                                        && socket_with_id(t0, id2).state == TcpState::Established
                                        implies has_id(t1, id2)
                                        && socket_with_id(t1, id2) == socket_with_id(t0, id2) by {
                                        assert(id2 != id);
                                        assert(id2 != lid);
                                    };
                                    assert(has_id(t1, id)
                                        && socket_with_id(t1, id).state == TcpState::Established);
                                },
                                None => {},
                            }
                        }
                    },
                    _ => {},
                }
            },
            None => {},
        }
    }
}

/// After every handled segment the established invariant holds across the
/// table, provided the segment completing a passive open is not a stale
/// duplicate of the initial exchange (its acknowledgment must not equal the
/// initial send sequence number, and the sequence number it announces must
/// stay ahead of the initial receive sequence number), and the segment
/// completing an active open does not wrap the sequence space.
pub proof fn lemma_established_invariant(
    t0: Seq<TcpSocket>,
    t1: Seq<TcpSocket>,
    b: Seq<u8>,
    local_address: u32,
    remote_address: u32,
    r: Result<SegmentOutcome, TcpError>,
)
    requires
        table_wf(t0),
        table_wf(t1),
        forall|i: int| 0 <= i < t0.len() ==> established_inv(#[trigger] t0[i]),
        handle_segment_spec(t0, t1, b, local_address, remote_address, r),
        ({
            let d = demux_id(
                t0,
                local_address,
                spec_destination_port(b),
                remote_address,
                spec_source_port(b),
            );
            d matches Some(id) ==> ({
                let s = socket_with_id(t0, id);
                let seg_ack = spec_acknowledgment_number(b);
                &&& (s.state == TcpState::SynSent
                    && spec_flags(b) == (tcp_flags::SYN | tcp_flags::ACK)
                    && s.snd.una <= seg_ack <= s.snd.nxt && s.snd.iss < seg_ack
                    ==> spec_sequence_number(b) != 0xFFFF_FFFF)
                &&& (s.state == TcpState::SynReceived
                    && spec_flags(b) == tcp_flags::ACK
                    && s.snd.una <= seg_ack <= s.snd.nxt
                    ==> seg_ack != s.snd.iss
                        && wrap_inc(spec_sequence_number(b)) > s.rcv.irs)
            })
        }),
    ensures
        forall|i: int| 0 <= i < t1.len() ==> established_inv(#[trigger] t1[i]),
{
    let dp = spec_destination_port(b);
    let sp = spec_source_port(b);
    assert forall|i: int| 0 <= i < t1.len() implies established_inv(#[trigger] t1[i]) by {
        let id2 = t1[i].spec_id();
        lemma_id_at(t1, i);
        if spec_checksum_valid(b, local_address, remote_address) {
            match demux_id(t0, local_address, dp, remote_address, sp) {
                Some(id) => {
                    let s = socket_with_id(t0, id);
                    match s.state {
                        TcpState::Listen => {
                            if spec_flags(b) == tcp_flags::SYN {
                                let child_id = TcpSocketId {
                                    local_address: s.local_address,
                                    local_port: s.local_port,
                                    remote_address,
                                    remote_port: sp,
                                };
                                if id2 != child_id {
                                    lemma_unchanged_entry_inv(t0, t1, id2);
                                }
                            } else {
                                lemma_unchanged_entry_inv(t0, t1, id2);
                            }
                        },
                        TcpState::SynSent => {
                            let seg_ack = spec_acknowledgment_number(b);
                            if spec_flags(b) == (tcp_flags::SYN | tcp_flags::ACK)
                                && s.snd.una <= seg_ack <= s.snd.nxt {
                                if id2 != id {
                                    lemma_unchanged_entry_inv(t0, t1, id2);
                                }
                            } else {
                                lemma_unchanged_entry_inv(t0, t1, id2);
                            }
                        },
                        TcpState::SynReceived => {
                            let seg_ack = spec_acknowledgment_number(b);
                            if spec_flags(b) == tcp_flags::ACK
                                && s.snd.una <= seg_ack <= s.snd.nxt {
                                match s.listening_socket {
                                    Some(lid) => {
                                        let l0 = socket_with_id(t0, lid);
                                        assert(l0.state == TcpState::Listen);
                                        if id2 != id && id2 != lid {
                                            lemma_unchanged_entry_inv(t0, t1, id2);
                                        }
                                    },
                                    None => {
                                        if id2 != id {
                                            lemma_unchanged_entry_inv(t0, t1, id2);
                                        }
                                    },
                                }
                            } else {
                                lemma_unchanged_entry_inv(t0, t1, id2);
                            }
                        },
                        _ => {
                            lemma_unchanged_entry_inv(t0, t1, id2);
                        },
                    }
                },
                None => {
                    lemma_unchanged_entry_inv(t0, t1, id2);
                },
            }
        } else {
            lemma_unchanged_entry_inv(t0, t1, id2);
        }
    };
}

/// An entry that kept its socket across a step keeps the established
/// invariant it had before.
proof fn lemma_unchanged_entry_inv(t0: Seq<TcpSocket>, t1: Seq<TcpSocket>, id: TcpSocketId)
    requires
        table_wf(t0),
        has_id(t1, id),
        has_id(t1, id) ==> has_id(t0, id) && socket_with_id(t1, id) == socket_with_id(t0, id),
        forall|i: int| 0 <= i < t0.len() ==> established_inv(#[trigger] t0[i]),
    ensures
        established_inv(socket_with_id(t1, id)),
{
    let j = index_of_id(t0, id);
    assert(0 <= j < t0.len() && t0[j].spec_id() == id);
    lemma_id_at(t0, j);
}

/// Two sockets agree on everything but the child queue.
pub open spec fn socket_fields_except_queue(s1: TcpSocket, s0: TcpSocket) -> bool {
    &&& s1.local_address == s0.local_address
    &&& s1.local_port == s0.local_port
    &&& s1.remote_address == s0.remote_address
    &&& s1.remote_port == s0.remote_port
    &&& s1.snd == s0.snd
    &&& s1.rcv == s0.rcv
    &&& s1.state == s0.state
    &&& s1.listening_socket == s0.listening_socket
}

} // verus!
