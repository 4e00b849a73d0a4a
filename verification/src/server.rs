//! What the tasks of a server share: the port allocator and the table of
//! sessions, kept consistent with one another.

use crate::port_allocator::{AllocError, PortAllocator};
use std::ops::Range;
use vstd::prelude::*;

verus! {

/// First port of the range from which the server hands out public ports.
pub const PORT_RANGE_START: u16 = 35100;

/// First port past that range.
pub const PORT_RANGE_END: u16 = 35200;

/// Capacity of each of the two queues of a session.
pub const QUEUE_CAPACITY: usize = 32;

/// The remote socket address of a connection, as plain numbers. An IPv4
/// address stands in its IPv6-mapped form.
#[derive(Clone, Copy, Debug, PartialEq, Eq, Hash, Structural)]
pub struct PeerAddr {
    pub ip: u128,
    pub port: u16,
}

/// The server's record of one tunnel. `handle` is whatever the caller needs
/// to reach the session's tasks, typically the sending ends of its queues.
pub struct ClientInfo<H> {
    pub peer: PeerAddr,
    pub assigned_port: u16,
    pub handle: H,
}

/// Why a session could not be entered in the table.
#[derive(Clone, Copy, Debug, PartialEq, Eq, Structural)]
pub enum RegisterError {
    /// The port is not one that the allocator has handed out.
    PortNotAllocated,
    /// A session of another peer already stands under the port.
    PortInUse,
}

/// What the loop that listens on the server's own address is told.
#[derive(Clone, Copy, Debug, PartialEq, Eq, Structural)]
pub enum ListenEvent {
    /// A connection came in.
    Accepted,
    /// Accepting failed.
    AcceptFailed,
    /// Shutdown is requested.
    Shutdown,
}

/// What that loop does next.
#[derive(Clone, Copy, Debug, PartialEq, Eq, Structural)]
pub enum ListenAction {
    /// Hand the connection to a task of its own, then accept the next one.
    ServeThenAccept,
    /// Accept the next connection.
    Accept,
    /// Stop listening and return.
    Stop,
}

/// Decides how the listening loop goes on. Every connection is served by a
/// task of its own, a failed accept costs nothing but itself, and only
/// shutdown ends the loop.
pub fn on_listen_event(event: ListenEvent) -> (r: ListenAction)
    ensures
        r == match event {
            ListenEvent::Accepted => ListenAction::ServeThenAccept,
            ListenEvent::AcceptFailed => ListenAction::Accept,
            ListenEvent::Shutdown => ListenAction::Stop,
        },
{
    match event {
        ListenEvent::Accepted => ListenAction::ServeThenAccept,
        ListenEvent::AcceptFailed => ListenAction::Accept,
        ListenEvent::Shutdown => ListenAction::Stop,
    }
}

/// The table that `clients` spells: each record under its peer.
pub open spec fn table_of<H>(clients: Seq<ClientInfo<H>>) -> Map<PeerAddr, ClientInfo<H>> {
    Map::new(
        |peer: PeerAddr| exists|i: int| 0 <= i < clients.len() && #[trigger] clients[i].peer == peer,
        |peer: PeerAddr|
            clients[choose|i: int| 0 <= i < clients.len() && #[trigger] clients[i].peer == peer],
    )
}

/// No two records are of the same peer.
pub open spec fn distinct_peers<H>(clients: Seq<ClientInfo<H>>) -> bool {
    forall|i: int, j: int|
        0 <= i < j < clients.len() ==> #[trigger] clients[i].peer != #[trigger] clients[j].peer
}

proof fn lemma_table_entry<H>(clients: Seq<ClientInfo<H>>, i: int)
    requires
        distinct_peers(clients),
        0 <= i < clients.len(),
    ensures
        table_of(clients).contains_key(clients[i].peer),
        table_of(clients)[clients[i].peer] == clients[i],
{
    let peer = clients[i].peer;
    let k = choose|k: int| 0 <= k < clients.len() && #[trigger] clients[k].peer == peer;
    assert(k == i) by {
        if k < i {
            assert(clients[k].peer != clients[i].peer);
        }
        if i < k {
            assert(clients[i].peer != clients[k].peer);
        }
    }
}

proof fn lemma_table_push<H>(clients: Seq<ClientInfo<H>>, entry: ClientInfo<H>)
    requires
        distinct_peers(clients),
        !table_of(clients).contains_key(entry.peer),
    ensures
        distinct_peers(clients.push(entry)),
        table_of(clients.push(entry)) =~= table_of(clients).insert(entry.peer, entry),
{
    let longer = clients.push(entry);
    assert forall|i: int, j: int| 0 <= i < j < longer.len() implies #[trigger] longer[i].peer
        != #[trigger] longer[j].peer by {
        if j < clients.len() {
            assert(clients[i].peer != clients[j].peer);
        } else {
            assert(clients[i].peer == longer[i].peer);
        }
    }
    assert forall|peer: PeerAddr|
        table_of(longer).contains_key(peer) <==> #[trigger] table_of(clients).insert(
            entry.peer,
            entry,
        ).contains_key(peer) by {
        if table_of(longer).contains_key(peer) {
            let i = choose|i: int| 0 <= i < longer.len() && #[trigger] longer[i].peer == peer;
            if i < clients.len() {
                assert(clients[i].peer == peer);
            }
        }
        if table_of(clients).contains_key(peer) {
            let i = choose|i: int| 0 <= i < clients.len() && #[trigger] clients[i].peer == peer;
            assert(longer[i].peer == peer);
        }
        if peer == entry.peer {
            assert(longer[clients.len() as int].peer == peer);
        }
    }
    assert forall|peer: PeerAddr| #[trigger]
        table_of(longer).contains_key(peer) implies table_of(longer)[peer] == table_of(
        clients,
    ).insert(entry.peer, entry)[peer] by {
        let i = choose|i: int| 0 <= i < longer.len() && #[trigger] longer[i].peer == peer;
        lemma_table_entry(longer, i);
        if i < clients.len() {
            assert(clients[i].peer == peer);
            lemma_table_entry(clients, i);
        }
    }
}

proof fn lemma_table_remove<H>(clients: Seq<ClientInfo<H>>, at: int)
    requires
        distinct_peers(clients),
        0 <= at < clients.len(),
    ensures
        distinct_peers(clients.remove(at)),
        table_of(clients.remove(at)) =~= table_of(clients).remove(clients[at].peer),
{
    let shorter = clients.remove(at);
    assert forall|i: int| 0 <= i < shorter.len() implies #[trigger] shorter[i] == clients[if i
        < at {
        i
    } else {
        i + 1
    }] by {}
    assert forall|i: int, j: int| 0 <= i < j < shorter.len() implies #[trigger] shorter[i].peer
        != #[trigger] shorter[j].peer by {
        let a = if i < at {
            i
        } else {
            i + 1
        };
        let b = if j < at {
            j
        } else {
            j + 1
        };
        assert(shorter[i] == clients[a]);
        assert(shorter[j] == clients[b]);
        assert(clients[a].peer != clients[b].peer);
    }
    assert forall|peer: PeerAddr|
        table_of(shorter).contains_key(peer) <==> #[trigger] table_of(clients).remove(
            clients[at].peer,
        ).contains_key(peer) by {
        if table_of(shorter).contains_key(peer) {
            let i = choose|i: int| 0 <= i < shorter.len() && #[trigger] shorter[i].peer == peer;
            let a = if i < at {
                i
            } else {
                i + 1
            };
            assert(shorter[i] == clients[a]);
            assert(clients[a].peer == peer);
            if a < at {
                assert(clients[a].peer != clients[at].peer);
            } else {
                assert(clients[at].peer != clients[a].peer);
            }
        }
        if table_of(clients).contains_key(peer) && peer != clients[at].peer {
            let a = choose|a: int| 0 <= a < clients.len() && #[trigger] clients[a].peer == peer;
            let i = if a < at {
                a
            } else {
                a - 1
            };
            assert(shorter[i] == clients[a]);
            assert(shorter[i].peer == peer);
        }
    }
    assert forall|peer: PeerAddr| #[trigger]
        table_of(shorter).contains_key(peer) implies table_of(shorter)[peer] == table_of(
        clients,
    ).remove(clients[at].peer)[peer] by {
        let i = choose|i: int| 0 <= i < shorter.len() && #[trigger] shorter[i].peer == peer;
        let a = if i < at {
            i
        } else {
            i + 1
        };
        assert(shorter[i] == clients[a]);
        lemma_table_entry(shorter, i);
        lemma_table_entry(clients, a);
    }
}

/// The shared state of a tunnel server: the port allocator and the table of
/// sessions, keyed by the remote address of each session's control channel.
pub struct Server<H> {
    allocator: PortAllocator,
    clients: Vec<ClientInfo<H>>,
}

impl<H> Server<H> {
    /// The allocator's range and busy ports.
    pub closed spec fn allocator(&self) -> PortAllocator {
        self.allocator
    }

    /// The sessions, each under the address of its peer.
    pub closed spec fn sessions(&self) -> Map<PeerAddr, ClientInfo<H>> {
        table_of(self.clients@)
    }

    /// The ports that the allocator considers busy.
    pub open spec fn busy(&self) -> Set<u16> {
        self.allocator().busy()
    }

    /// Whether some session stands under `port`.
    pub open spec fn port_in_use(&self, port: u16) -> bool {
        exists|peer: PeerAddr|
            self.sessions().contains_key(peer) && (#[trigger] self.sessions()[peer]).assigned_port
                == port
    }

    /// Whether a session of another peer than `peer` stands under `port`.
    pub open spec fn port_taken_by_other(&self, peer: PeerAddr, port: u16) -> bool {
        exists|other: PeerAddr|
            other != peer && self.sessions().contains_key(other) && (
            #[trigger] self.sessions()[other]).assigned_port == port
    }

    /// The table is keyed by each record's own peer, every session stands
    /// under a busy port, and no two sessions share a port.
    pub open spec fn wf(&self) -> bool {
        &&& self.allocator().wf()
        &&& self.unique_keys()
        &&& self.sessions().dom().finite()
        &&& forall|peer: PeerAddr| #[trigger]
            self.sessions().contains_key(peer) ==> {
                &&& self.sessions()[peer].peer == peer
                &&& self.busy().contains(self.sessions()[peer].assigned_port)
            }
        &&& forall|a: PeerAddr, b: PeerAddr|
            #![trigger self.sessions()[a], self.sessions()[b]]
            self.sessions().contains_key(a) && self.sessions().contains_key(b) && a != b
                ==> self.sessions()[a].assigned_port != self.sessions()[b].assigned_port
    }

    /// No peer has two records.
    pub closed spec fn unique_keys(&self) -> bool {
        distinct_peers(self.clients@)
    }

    proof fn lemma_finite_table(clients: Seq<ClientInfo<H>>)
        ensures
            table_of(clients).dom().finite(),
        decreases clients.len(),
    {
        if clients.len() == 0 {
            assert(table_of(clients).dom() =~= Set::<PeerAddr>::empty());
        } else {
            let shorter = clients.drop_last();
            Self::lemma_finite_table(shorter);
            let last = clients.last();
            assert forall|peer: PeerAddr|
                table_of(clients).dom().contains(peer) <==> #[trigger] table_of(
                    shorter,
                ).dom().insert(last.peer).contains(peer) by {
                if table_of(clients).dom().contains(peer) {
                    let i = choose|i: int|
                        0 <= i < clients.len() && #[trigger] clients[i].peer == peer;
                    if i < shorter.len() {
                        assert(shorter[i].peer == peer);
                    }
                }
                if table_of(shorter).dom().contains(peer) {
                    let i = choose|i: int|
                        0 <= i < shorter.len() && #[trigger] shorter[i].peer == peer;
                    assert(clients[i].peer == peer);
                }
                if peer == last.peer {
                    assert(clients[clients.len() - 1].peer == peer);
                }
            }
            assert(table_of(clients).dom() =~= table_of(shorter).dom().insert(last.peer));
        }
    }

    /// A server over `range` with no session and no busy port.
    pub fn new(range: Range<u16>) -> (r: Self)
        ensures
            r.wf(),
            r.allocator().lo() == range.start,
            r.allocator().hi() == range.end,
            r.busy() == Set::<u16>::empty(),
            r.sessions() == Map::<PeerAddr, ClientInfo<H>>::empty(),
    {
        let r = Server { allocator: PortAllocator::new(range), clients: Vec::new() };
        assert(r.sessions() =~= Map::<PeerAddr, ClientInfo<H>>::empty());
        r
    }

    /// The index of the record of `peer`, if it has one.
    fn position(&self, peer: PeerAddr) -> (r: Option<usize>)
        requires
            self.unique_keys(),
        ensures
            match r {
                Some(i) => i < self.clients.len() && self.clients[i as int].peer == peer
                    && self.sessions().contains_key(peer) && self.sessions()[peer]
                    == self.clients[i as int],
                None => !self.sessions().contains_key(peer),
            },
    {
        let mut i: usize = 0;
        while i < self.clients.len()
            invariant
                i <= self.clients.len(),
                self.unique_keys(),
                forall|k: int| 0 <= k < i ==> (#[trigger] self.clients[k]).peer != peer,
            decreases self.clients.len() - i,
        {
            if self.clients[i].peer == peer {
                proof {
                    lemma_table_entry(self.clients@, i as int);
                }
                return Some(i);
            }
            i = i + 1;
        }
        None
    }

    /// The index of a record that stands under `port` and belongs to another
    /// peer than `peer`, if there is one.
    fn other_owner(&self, peer: PeerAddr, port: u16) -> (r: Option<usize>)
        requires
            self.unique_keys(),
        ensures
            r is Some <==> self.port_taken_by_other(peer, port),
    {
        let mut i: usize = 0;
        while i < self.clients.len()
            invariant
                i <= self.clients.len(),
                self.unique_keys(),
                forall|k: int|
                    0 <= k < i ==> !((#[trigger] self.clients[k]).assigned_port == port
                        && self.clients[k].peer != peer),
            decreases self.clients.len() - i,
        {
            if self.clients[i].assigned_port == port && self.clients[i].peer != peer {
                proof {
                    lemma_table_entry(self.clients@, i as int);
                    let other = self.clients[i as int].peer;
                    assert(self.sessions().contains_key(other) && self.sessions()[other].assigned_port
                        == port);
                }
                return Some(i);
            }
            i = i + 1;
        }
        proof {
            if self.port_taken_by_other(peer, port) {
                let other = choose|other: PeerAddr|
                    other != peer && self.sessions().contains_key(other) && (
                    #[trigger] self.sessions()[other]).assigned_port == port;
                let k = choose|k: int|
                    0 <= k < self.clients.len() && #[trigger] self.clients[k].peer == other;
                lemma_table_entry(self.clients@, k);
                assert(self.clients[k].assigned_port == port);
            }
        }
        None
    }

    /// Takes a port from the allocator; see `PortAllocator::allocate`. The
    /// table of sessions stays as it is.
    pub fn allocate<F: Fn(u16) -> bool>(&mut self, probe: F) -> (r: Result<u16, AllocError>)
        requires
            old(self).wf(),
            forall|p: u16| old(self).allocator().is_candidate(p) ==> call_requires(probe, (p,)),
        ensures
            final(self).wf(),
            final(self).sessions() == old(self).sessions(),
            final(self).allocator().lo() == old(self).allocator().lo(),
            final(self).allocator().hi() == old(self).allocator().hi(),
            match r {
                Ok(port) => {
                    &&& old(self).allocator().is_candidate(port)
                    &&& call_ensures(probe, (port,), true)
                    &&& forall|q: u16|
                        q < port && old(self).allocator().is_candidate(q) ==> call_ensures(
                            probe,
                            (q,),
                            false,
                        )
                    &&& final(self).busy() == old(self).busy().insert(port)
                    &&& !final(self).port_in_use(port)
                },
                Err(e) => {
                    &&& e == AllocError::NoPortsAvailable
                    &&& forall|q: u16|
                        old(self).allocator().is_candidate(q) ==> call_ensures(probe, (q,), false)
                    &&& final(self).busy() == old(self).busy()
                },
            },
    {
        self.allocator.allocate(probe)
    }

    /// Enters the session of `peer` under `port`. The port must be busy and
    /// no other peer's session may stand under it. A session that `peer`
    /// already has is replaced; the port of the replaced session stays busy
    /// until it is closed.
    pub fn register(&mut self, peer: PeerAddr, port: u16, handle: H) -> (r: Result<
        (),
        RegisterError,
    >)
        requires
            old(self).wf(),
        ensures
            final(self).wf(),
            final(self).allocator() == old(self).allocator(),
            match r {
                Ok(_) => {
                    &&& old(self).busy().contains(port)
                    &&& !old(self).port_taken_by_other(peer, port)
                    &&& final(self).sessions() == old(self).sessions().insert(
                        peer,
                        ClientInfo { peer, assigned_port: port, handle },
                    )
                },
                Err(RegisterError::PortNotAllocated) => {
                    &&& !old(self).busy().contains(port)
                    &&& final(self).sessions() == old(self).sessions()
                },
                Err(RegisterError::PortInUse) => {
                    &&& old(self).busy().contains(port)
                    &&& old(self).port_taken_by_other(peer, port)
                    &&& final(self).sessions() == old(self).sessions()
                },
            },
    {
        if !self.allocator.is_allocated(port) {
            return Err(RegisterError::PortNotAllocated);
        }
        if self.other_owner(peer, port).is_some() {
            return Err(RegisterError::PortInUse);
        }
        let entry = ClientInfo { peer, assigned_port: port, handle };
        match self.position(peer) {
            Some(i) => {
                proof {
                    lemma_table_remove(self.clients@, i as int);
                }
                self.clients.remove(i);
            },
            None => {},
        }
        proof {
            lemma_table_push(self.clients@, entry);
            Self::lemma_finite_table(self.clients@.push(entry));
            assert(old(self).sessions().remove(peer).insert(peer, entry) =~= old(
                self,
            ).sessions().insert(peer, entry));
        }
        self.clients.push(entry);
        proof {
            assert forall|a: PeerAddr, b: PeerAddr|
                #![trigger self.sessions()[a], self.sessions()[b]]
                self.sessions().contains_key(a) && self.sessions().contains_key(b) && a
                    != b implies self.sessions()[a].assigned_port
                != self.sessions()[b].assigned_port by {
                if a == peer {
                    assert(old(self).sessions().contains_key(b));
                } else if b == peer {
                    assert(old(self).sessions().contains_key(a));
                }
            }
        }
        Ok(())
    }

    /// The session of `peer`, if it has one. This is how a data channel
    /// finds the control channel it belongs to.
    pub fn lookup(&self, peer: PeerAddr) -> (r: Option<&ClientInfo<H>>)
        requires
            self.wf(),
        ensures
            match r {
                Some(info) => self.sessions().contains_key(peer) && *info == self.sessions()[peer],
                None => !self.sessions().contains_key(peer),
            },
    {
        match self.position(peer) {
            Some(i) => Some(&self.clients[i]),
            None => None,
        }
    }

    /// Ends the tunnel that `peer` holds on `port`: takes the session of
    /// `peer` out of the table if it stands under `port`, then releases the
    /// port unless a session still stands under it. Returns whether a
    /// session was taken out.
    pub fn close_session(&mut self, peer: PeerAddr, port: u16) -> (r: bool)
        requires
            old(self).wf(),
        ensures
            final(self).wf(),
            final(self).allocator().lo() == old(self).allocator().lo(),
            final(self).allocator().hi() == old(self).allocator().hi(),
            r == (old(self).sessions().contains_key(peer) && old(self).sessions()[peer].assigned_port
                == port),
            final(self).sessions() == if r {
                old(self).sessions().remove(peer)
            } else {
                old(self).sessions()
            },
            final(self).busy() == if old(self).port_taken_by_other(peer, port) {
                old(self).busy()
            } else {
                old(self).busy().remove(port)
            },
            !final(self).sessions().contains_key(peer) || final(self).sessions()[peer].assigned_port
                != port,
            !old(self).port_taken_by_other(peer, port) ==> !final(self).busy().contains(port)
                && !final(self).port_in_use(port),
    {
        let removed = match self.position(peer) {
            Some(i) => {
                if self.clients[i].assigned_port == port {
                    proof {
                        lemma_table_remove(self.clients@, i as int);
                        Self::lemma_finite_table(self.clients@.remove(i as int));
                    }
                    self.clients.remove(i);
                    true
                } else {
                    false
                }
            },
            None => false,
        };
        let kept = self.other_owner(peer, port).is_some();
        proof {
            if kept {
                let other = choose|other: PeerAddr|
                    other != peer && self.sessions().contains_key(other) && (
                    #[trigger] self.sessions()[other]).assigned_port == port;
                assert(old(self).sessions().contains_key(other) && old(self).sessions()[other].assigned_port
                    == port);
            }
            if old(self).port_taken_by_other(peer, port) {
                let other = choose|other: PeerAddr|
                    other != peer && old(self).sessions().contains_key(other) && (
                    #[trigger] old(self).sessions()[other]).assigned_port == port;
                assert(self.sessions().contains_key(other) && self.sessions()[other].assigned_port
                    == port);
            }
        }
        if !kept {
            self.allocator.release(port);
            proof {
                assert forall|q: PeerAddr| #[trigger]
                    self.sessions().contains_key(q) implies self.sessions()[q].assigned_port
                    != port by {
                    if self.sessions()[q].assigned_port == port {
                        assert(q != peer);
                        assert(self.port_taken_by_other(peer, port));
                    }
                }
            }
        }
        removed
    }

    /// The number of sessions in the table.
    pub fn session_count(&self) -> (r: usize)
        requires
            self.wf(),
        ensures
            r == self.sessions().dom().len(),
    {
        proof {
            Self::lemma_table_len(self.clients@);
        }
        self.clients.len()
    }

    proof fn lemma_table_len(clients: Seq<ClientInfo<H>>)
        requires
            distinct_peers(clients),
        ensures
            table_of(clients).dom().finite(),
            table_of(clients).dom().len() == clients.len(),
        decreases clients.len(),
    {
        Self::lemma_finite_table(clients);
        if clients.len() == 0 {
            assert(table_of(clients).dom() =~= Set::<PeerAddr>::empty());
        } else {
            let at = clients.len() - 1;
            lemma_table_remove(clients, at);
            assert(clients.remove(at) =~= clients.drop_last());
            Self::lemma_table_len(clients.drop_last());
            lemma_table_entry(clients, at);
            assert(table_of(clients).dom().remove(clients[at].peer) =~= table_of(
                clients.drop_last(),
            ).dom());
        }
    }

    /// The number of busy ports.
    pub fn allocated_count(&self) -> (r: usize)
        requires
            self.wf(),
        ensures
            r == self.busy().len(),
    {
        self.allocator.allocated_count()
    }
}

/// Each assigned port belongs to exactly one session: the port of a session
/// is busy, it lies in the allocator's range, and no other session stands
/// under it.
pub proof fn lemma_one_session_per_port<H>(server: Server<H>, a: PeerAddr, b: PeerAddr)
    requires
        server.wf(),
        server.sessions().contains_key(a),
        server.sessions().contains_key(b),
        server.sessions()[a].assigned_port == server.sessions()[b].assigned_port,
    ensures
        a == b,
        server.busy().contains(server.sessions()[a].assigned_port),
        server.allocator().in_range(server.sessions()[a].assigned_port),
        server.port_in_use(server.sessions()[a].assigned_port),
{
}

/// A port under which no session stands and which is not busy is free to be
/// handed out and bound again; this is how `close_session` leaves the port
/// of the session it ends.
pub proof fn lemma_closed_port_is_free<H>(server: Server<H>, port: u16)
    requires
        server.wf(),
        server.allocator().in_range(port),
        !server.busy().contains(port),
    ensures
        server.allocator().is_candidate(port),
        !server.port_in_use(port),
{
    if server.port_in_use(port) {
        let peer = choose|peer: PeerAddr|
            server.sessions().contains_key(peer) && (
            #[trigger] server.sessions()[peer]).assigned_port == port;
        assert(server.busy().contains(server.sessions()[peer].assigned_port));
    }
}

} // verus!
