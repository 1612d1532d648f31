//! The ways back to a peer: which open websocket, or which connection that was put aside, an
//! address stands for.
//!
//! A connection is known here by a number. The socket itself stays with the task that owns it, so
//! that nothing in these tables can keep a socket open.
use vstd::prelude::*;

use crate::addr::SocketAddress;

verus! {

/// A map from addresses to connections.
pub struct AddrTable {
    entries: Vec<(SocketAddress, u64)>,
}

/// The entries of a list without a repeated address, as a map.
closed spec fn entries_map(entries: Seq<(SocketAddress, u64)>) -> Map<SocketAddress, u64>
    decreases entries.len(),
{
    if entries.len() == 0 {
        Map::empty()
    } else {
        entries_map(entries.drop_last()).insert(entries.last().0, entries.last().1)
    }
}

closed spec fn entries_distinct(entries: Seq<(SocketAddress, u64)>) -> bool {
    forall|i: int, j: int|
        0 <= i < j < entries.len() ==> (#[trigger] entries[i]).0 != (#[trigger] entries[j]).0
}

proof fn lemma_entries(entries: Seq<(SocketAddress, u64)>)
    requires
        entries_distinct(entries),
    ensures
        entries_map(entries).dom().finite(),
        entries_map(entries).len() == entries.len(),
        forall|k: SocketAddress| #[trigger]
            entries_map(entries).contains_key(k) <==> exists|i: int|
                0 <= i < entries.len() && (#[trigger] entries[i]).0 == k,
        forall|i: int|
            0 <= i < entries.len() ==> entries_map(entries).contains_key(
                (#[trigger] entries[i]).0,
            ) && entries_map(entries)[entries[i].0] == entries[i].1,
    decreases entries.len(),
{
    if entries.len() > 0 {
        let front = entries.drop_last();
        let last = entries.len() - 1;
        assert(entries_distinct(front)) by {
            assert forall|i: int, j: int| 0 <= i < j < front.len() implies (
            #[trigger] front[i]).0 != (#[trigger] front[j]).0 by {
                assert(entries[i].0 != entries[j].0);
            }
        }
        lemma_entries(front);
        let m = entries_map(front);
        assert(!m.contains_key(entries[last].0)) by {
            if m.contains_key(entries[last].0) {
                let i = choose|i: int|
                    0 <= i < front.len() && (#[trigger] front[i]).0 == entries[last].0;
                assert(entries[i].0 != entries[last].0);
            }
        }
        assert(entries_map(entries).dom() =~= m.dom().insert(entries[last].0));
        assert forall|k: SocketAddress| #[trigger]
            entries_map(entries).contains_key(k) implies exists|i: int|
            0 <= i < entries.len() && (#[trigger] entries[i]).0 == k by {
            if k == entries[last].0 {
                assert(entries[last].0 == k);
            } else {
                let i = choose|i: int| 0 <= i < front.len() && (#[trigger] front[i]).0 == k;
                assert(entries[i].0 == k);
            }
        }
        assert forall|i: int| 0 <= i < entries.len() implies entries_map(entries).contains_key(
            (#[trigger] entries[i]).0,
        ) && entries_map(entries)[entries[i].0] == entries[i].1 by {
            if i < last {
                assert(front[i] == entries[i]);
                assert(entries[i].0 != entries[last].0);
            }
        }
    }
}

impl View for AddrTable {
    type V = Map<SocketAddress, u64>;

    closed spec fn view(&self) -> Map<SocketAddress, u64> {
        entries_map(self.entries@)
    }
}

impl AddrTable {
    /// No address occurs twice.
    pub closed spec fn wf(&self) -> bool {
        entries_distinct(self.entries@)
    }

    pub fn new() -> (r: AddrTable)
        ensures
            r.wf(),
            r@ == Map::<SocketAddress, u64>::empty(),
    {
        AddrTable { entries: Vec::new() }
    }

    pub fn len(&self) -> (n: usize)
        requires
            self.wf(),
        ensures
            n == self@.len(),
            self@.dom().finite(),
    {
        proof {
            lemma_entries(self.entries@);
        }
        self.entries.len()
    }

    fn position(&self, k: SocketAddress) -> (r: Option<usize>)
        requires
            self.wf(),
        ensures
            match r {
                Some(i) => i < self.entries@.len() && self.entries@[i as int].0 == k
                    && self@.contains_key(k) && self@[k] == self.entries@[i as int].1,
                None => !self@.contains_key(k),
            },
    {
        proof {
            lemma_entries(self.entries@);
        }
        let mut i: usize = 0;
        while i < self.entries.len()
            invariant
                i <= self.entries@.len(),
                forall|j: int| 0 <= j < i ==> (#[trigger] self.entries@[j]).0 != k,
                forall|j: int|
                    0 <= j < self.entries@.len() ==> entries_map(self.entries@).contains_key(
                        (#[trigger] self.entries@[j]).0,
                    ) && entries_map(self.entries@)[self.entries@[j].0] == self.entries@[j].1,
            decreases self.entries@.len() - i,
        {
            if self.entries[i].0 == k {
                return Some(i);
            }
            i += 1;
        }
        None
    }

    /// The connection filed under `k`.
    pub fn get(&self, k: SocketAddress) -> (r: Option<u64>)
        requires
            self.wf(),
        ensures
            r == if self@.contains_key(k) {
                Some(self@[k])
            } else {
                None
            },
    {
        match self.position(k) {
            Some(i) => Some(self.entries[i].1),
            None => None,
        }
    }

    /// Files `conn` under `k`, and returns what was there.
    pub fn insert(&mut self, k: SocketAddress, conn: u64) -> (r: Option<u64>)
        requires
            old(self).wf(),
        ensures
            final(self).wf(),
            r == if old(self)@.contains_key(k) {
                Some(old(self)@[k])
            } else {
                None
            },
            final(self)@ == old(self)@.insert(k, conn),
    {
        let ghost before = self.entries@;
        proof {
            lemma_entries(before);
        }
        match self.position(k) {
            Some(i) => {
                let was: u64 = self.entries[i].1;
                self.entries.set(i, (k, conn));
                proof {
                    let now = self.entries@;
                    assert forall|x: int| 0 <= x < now.len() implies (#[trigger] now[x]).0
                        == before[x].0 by {}
                    assert(entries_distinct(now));
                    lemma_entries(now);
                    assert forall|q: SocketAddress|
                        entries_map(now).contains_key(q) == entries_map(before).insert(
                            k,
                            conn,
                        ).contains_key(q) by {
                        if entries_map(before).contains_key(q) {
                            let x = choose|x: int|
                                0 <= x < before.len() && (#[trigger] before[x]).0 == q;
                            assert(now[x].0 == q);
                        }
                        if entries_map(now).contains_key(q) {
                            let x = choose|x: int| 0 <= x < now.len() && (#[trigger] now[x]).0 == q;
                            assert(before[x].0 == q);
                        }
                        assert(now[i as int].0 == k);
                    }
                    assert forall|q: SocketAddress|
                        entries_map(now).contains_key(q) implies entries_map(now)[q]
                        == entries_map(before).insert(k, conn)[q] by {
                        let x = choose|x: int| 0 <= x < now.len() && (#[trigger] now[x]).0 == q;
                        assert(before[x].0 == q);
                        if x != i {
                            assert(now[x] == before[x]);
                            assert(now[x].0 != now[i as int].0);
                        }
                    }
                    assert(entries_map(now) =~= entries_map(before).insert(k, conn));
                }
                Some(was)
            },
            None => {
                self.entries.push((k, conn));
                proof {
                    let now = self.entries@;
                    assert(now.drop_last() =~= before);
                    assert forall|x: int, y: int| 0 <= x < y < now.len() implies (
                    #[trigger] now[x]).0 != (#[trigger] now[y]).0 by {
                        assert(now[x] == before[x]);
                        if y < before.len() {
                            assert(now[y] == before[y]);
                        } else {
                            assert(entries_map(before).contains_key(before[x].0));
                        }
                    }
                }
                None
            },
        }
    }

    /// Takes out what is filed under `k`, and returns it.
    pub fn remove(&mut self, k: SocketAddress) -> (r: Option<u64>)
        requires
            old(self).wf(),
        ensures
            final(self).wf(),
            r == if old(self)@.contains_key(k) {
                Some(old(self)@[k])
            } else {
                None
            },
            final(self)@ == old(self)@.remove(k),
    {
        let ghost before = self.entries@;
        proof {
            lemma_entries(before);
        }
        match self.position(k) {
            Some(i) => {
                let e = self.entries.remove(i);
                proof {
                    let now = self.entries@;
                    assert(now =~= before.remove(i as int));
                    assert forall|x: int| 0 <= x < now.len() implies #[trigger] now[x] == before[if x
                        < i {
                        x
                    } else {
                        x + 1
                    }] by {}
                    assert(entries_distinct(now)) by {
                        assert forall|x: int, y: int| 0 <= x < y < now.len() implies (
                        #[trigger] now[x]).0 != (#[trigger] now[y]).0 by {
                            let a = if x < i { x } else { x + 1 };
                            let b = if y < i { y } else { y + 1 };
                            assert(before[a].0 != before[b].0);
                        }
                    }
                    lemma_entries(now);
                    assert forall|q: SocketAddress|
                        entries_map(now).contains_key(q) == entries_map(before).remove(
                            k,
                        ).contains_key(q) by {
                        if entries_map(now).contains_key(q) {
                            let x = choose|x: int| 0 <= x < now.len() && (#[trigger] now[x]).0 == q;
                            let a = if x < i { x } else { x + 1 };
                            assert(before[a].0 == q);
                            if a < i {
                                assert(before[a].0 != before[i as int].0);
                            } else {
                                assert(before[i as int].0 != before[a].0);
                            }
                        }
                        if entries_map(before).contains_key(q) && q != k {
                            let a = choose|a: int|
                                0 <= a < before.len() && (#[trigger] before[a]).0 == q;
                            let x = if a < i { a } else { a - 1 };
                            assert(now[x].0 == q);
                        }
                    }
                    assert forall|q: SocketAddress|
                        entries_map(now).contains_key(q) implies entries_map(now)[q]
                        == entries_map(before).remove(k)[q] by {
                        let x = choose|x: int| 0 <= x < now.len() && (#[trigger] now[x]).0 == q;
                        let a = if x < i { x } else { x + 1 };
                        assert(now[x] == before[a]);
                    }
                    assert(entries_map(now) =~= entries_map(before).remove(k));
                }
                Some(e.1)
            },
            None => {
                assert(entries_map(before).remove(k) =~= entries_map(before));
                None
            },
        }
    }
}

/// Where a message to a registered peer goes.
#[derive(Clone, Copy, Debug, PartialEq, Eq, Structural)]
pub enum PeerRoute {
    /// To the task that owns this websocket.
    Push { conn: u64 },
    /// Out as a datagram.
    Datagram,
}

/// Where a message to a peer that asked earlier goes.
#[derive(Clone, Copy, Debug, PartialEq, Eq, Structural)]
#[allow(inconsistent_fields)]
pub enum TcpRoute {
    /// To the task that owns this websocket.
    Push { conn: u64 },
    /// Over this connection, which was put aside for it and is now used up.
    Parked { conn: u64 },
    /// Nowhere: the peer is gone.
    Nowhere,
}

/// All ways back to peers.
pub struct Routes {
    /// Websockets, by the normal form of the peer's address.
    pub ws_peers: AddrTable,
    /// Connections that were put aside for an answer, by the normal form of the peer's address.
    pub tcp_punch: AddrTable,
    /// The number of the next connection.
    pub next_conn: u64,
}

#[verifier::ext_equal]
pub struct RoutesView {
    pub ws_peers: Map<SocketAddress, u64>,
    pub tcp_punch: Map<SocketAddress, u64>,
    pub next_conn: u64,
}

impl View for Routes {
    type V = RoutesView;

    open spec fn view(&self) -> RoutesView {
        RoutesView {
            ws_peers: self.ws_peers@,
            tcp_punch: self.tcp_punch@,
            next_conn: self.next_conn,
        }
    }
}

impl RoutesView {
    /// One more connection has a number.
    pub open spec fn accepted(self) -> RoutesView {
        RoutesView {
            next_conn: if self.next_conn == u64::MAX {
                0
            } else {
                (self.next_conn + 1) as u64
            },
            ..self
        }
    }

    /// The websocket `conn` answers for `key`, in place of an older one.
    pub open spec fn registered(self, key: SocketAddress, conn: u64) -> RoutesView {
        RoutesView { ws_peers: self.ws_peers.insert(key, conn), ..self }
    }

    /// The connection `conn` is put aside for `key`, in place of an older one.
    pub open spec fn parked(self, key: SocketAddress, conn: u64) -> RoutesView {
        RoutesView { tcp_punch: self.tcp_punch.insert(key, conn), ..self }
    }

    /// The websocket `conn` no longer answers for `key`. A newer one that does is left alone.
    pub open spec fn without_ws(self, key: SocketAddress, conn: u64) -> RoutesView {
        if self.ws_peers.contains_key(key) && self.ws_peers[key] == conn {
            RoutesView { ws_peers: self.ws_peers.remove(key), ..self }
        } else {
            self
        }
    }

    /// Nothing is put aside for `key` any more.
    pub open spec fn without_parked(self, key: SocketAddress) -> RoutesView {
        RoutesView { tcp_punch: self.tcp_punch.remove(key), ..self }
    }

    pub open spec fn peer_route(self, key: SocketAddress) -> PeerRoute {
        if self.ws_peers.contains_key(key) {
            PeerRoute::Push { conn: self.ws_peers[key] }
        } else {
            PeerRoute::Datagram
        }
    }

    pub open spec fn tcp_route(self, key: SocketAddress) -> TcpRoute {
        if self.ws_peers.contains_key(key) {
            TcpRoute::Push { conn: self.ws_peers[key] }
        } else if self.tcp_punch.contains_key(key) {
            TcpRoute::Parked { conn: self.tcp_punch[key] }
        } else {
            TcpRoute::Nowhere
        }
    }

    /// The routes after a message has been sent along [`Self::tcp_route`].
    pub open spec fn tcp_routed(self, key: SocketAddress) -> RoutesView {
        if self.ws_peers.contains_key(key) {
            self
        } else {
            self.without_parked(key)
        }
    }
}

impl Routes {
    pub open spec fn wf(&self) -> bool {
        self.ws_peers.wf() && self.tcp_punch.wf()
    }

    pub fn new() -> (r: Routes)
        ensures
            r.wf(),
            r@ == (RoutesView { ws_peers: Map::empty(), tcp_punch: Map::empty(), next_conn: 0 }),
    {
        Routes { ws_peers: AddrTable::new(), tcp_punch: AddrTable::new(), next_conn: 0 }
    }

    /// Gives a connection its number. Numbers start again at 0 after the last.
    pub fn accept(&mut self) -> (conn: u64)
        requires
            old(self).wf(),
        ensures
            final(self).wf(),
            conn == old(self)@.next_conn,
            final(self)@ == old(self)@.accepted(),
    {
        let conn: u64 = self.next_conn;
        self.next_conn = conn.wrapping_add(1);
        conn
    }

    /// Records how to reach a websocket peer. An older entry for the same address is overwritten.
    pub fn register_ws_peer(&mut self, key: SocketAddress, conn: u64)
        requires
            old(self).wf(),
        ensures
            final(self).wf(),
            final(self)@ == old(self)@.registered(key, conn),
    {
        let _ = self.ws_peers.insert(key, conn);
    }

    /// Puts a connection aside, and returns the one that it replaces.
    pub fn park(&mut self, key: SocketAddress, conn: u64) -> (r: Option<u64>)
        requires
            old(self).wf(),
        ensures
            final(self).wf(),
            r == if old(self)@.tcp_punch.contains_key(key) {
                Some(old(self)@.tcp_punch[key])
            } else {
                None
            },
            final(self)@ == old(self)@.parked(key, conn),
    {
        self.tcp_punch.insert(key, conn)
    }

    /// Where a message to a registered peer goes.
    pub fn route_to_peer(&self, key: SocketAddress) -> (r: PeerRoute)
        requires
            self.wf(),
        ensures
            r == self@.peer_route(key),
    {
        match self.ws_peers.get(key) {
            Some(conn) => PeerRoute::Push { conn },
            None => PeerRoute::Datagram,
        }
    }

    /// Where a message to a peer that asked earlier goes. A connection that was put aside for it
    /// is used up.
    pub fn route_to_tcp(&mut self, key: SocketAddress) -> (r: TcpRoute)
        requires
            old(self).wf(),
        ensures
            final(self).wf(),
            r == old(self)@.tcp_route(key),
            final(self)@ == old(self)@.tcp_routed(key),
    {
        match self.ws_peers.get(key) {
            Some(conn) => TcpRoute::Push { conn },
            None => match self.tcp_punch.remove(key) {
                Some(conn) => TcpRoute::Parked { conn },
                None => TcpRoute::Nowhere,
            },
        }
    }

    /// Forgets that the websocket `conn` answers for `key`: its task has ended, or takes no more
    /// messages. A reconnect that has already claimed the same address is left alone.
    pub fn remove_ws_peer(&mut self, key: SocketAddress, conn: u64)
        requires
            old(self).wf(),
        ensures
            final(self).wf(),
            final(self)@ == old(self)@.without_ws(key, conn),
    {
        if let Some(c) = self.ws_peers.get(key) {
            if c == conn {
                let _ = self.ws_peers.remove(key);
            }
        }
    }

    /// Takes out the connection that is put aside for `key`, and returns it.
    pub fn unpark(&mut self, key: SocketAddress) -> (r: Option<u64>)
        requires
            old(self).wf(),
        ensures
            final(self).wf(),
            r == if old(self)@.tcp_punch.contains_key(key) {
                Some(old(self)@.tcp_punch[key])
            } else {
                None
            },
            final(self)@ == old(self)@.without_parked(key),
    {
        self.tcp_punch.remove(key)
    }

    /// How many websocket peers are registered.
    pub fn ws_peer_count(&self) -> (n: usize)
        requires
            self.wf(),
        ensures
            n == self@.ws_peers.len(),
            self@.ws_peers.dom().finite(),
    {
        self.ws_peers.len()
    }
}

/// Every entry of the websocket registry belongs to an open connection, and to the address of that
/// connection.
pub open spec fn only_open(
    ws_peers: Map<SocketAddress, u64>,
    open: Map<u64, SocketAddress>,
) -> bool {
    forall|k: SocketAddress| #[trigger]
        ws_peers.contains_key(k) ==> open.contains_key(ws_peers[k]) && open[ws_peers[k]] == k
}

/// The registry holds only open connections, whatever happens: a new connection, a registration by
/// one that is open, a push that fails, a connection that was put aside or taken back, and the end
/// of a connection each keep it so. A newly opened connection must not have the number of one that
/// is still open.
pub proof fn law_registry_holds_only_open_connections(
    r: RoutesView,
    open: Map<u64, SocketAddress>,
    key: SocketAddress,
    conn: u64,
)
    requires
        only_open(r.ws_peers, open),
    ensures
        !open.contains_key(conn) ==> only_open(r.accepted().ws_peers, open.insert(conn, key)),
        open.contains_key(conn) && open[conn] == key ==> only_open(
            r.registered(key, conn).ws_peers,
            open,
        ),
        only_open(r.without_ws(key, conn).ws_peers, open),
        only_open(r.tcp_routed(key).ws_peers, open),
        only_open(r.parked(key, conn).ws_peers, open),
        open.contains_key(conn) && open[conn] == key ==> only_open(
            r.without_ws(key, conn).ws_peers,
            open.remove(conn),
        ),
{
}

/// When every connection has ended, the registry is empty.
pub proof fn law_registry_is_empty_when_all_connections_have_ended(
    r: RoutesView,
    open: Map<u64, SocketAddress>,
)
    requires
        only_open(r.ws_peers, open),
        open == Map::<u64, SocketAddress>::empty(),
    ensures
        r.ws_peers == Map::<SocketAddress, u64>::empty(),
        r.ws_peers.len() == 0,
{
    assert(r.ws_peers =~= Map::<SocketAddress, u64>::empty());
}

/// A registration adds one to the count where the address had none, and nothing where it replaces
/// an older one.
pub proof fn law_registration_counts_once(r: RoutesView, key: SocketAddress, conn: u64)
    requires
        r.ws_peers.dom().finite(),
    ensures
        r.registered(key, conn).ws_peers.len() == if r.ws_peers.contains_key(key) {
            r.ws_peers.len()
        } else {
            r.ws_peers.len() + 1
        },
{
    if r.ws_peers.contains_key(key) {
        assert(r.ws_peers.insert(key, conn).dom() =~= r.ws_peers.dom());
    } else {
        assert(r.ws_peers.insert(key, conn).dom() =~= r.ws_peers.dom().insert(key));
    }
}

/// The end of a connection undoes its registration, and nothing else.
pub proof fn law_close_undoes_registration(r: RoutesView, key: SocketAddress, conn: u64)
    ensures
        r.registered(key, conn).without_ws(key, conn).ws_peers == r.ws_peers.remove(key),
        r.registered(key, conn).without_ws(key, conn).tcp_punch == r.tcp_punch,
{
    assert(r.ws_peers.insert(key, conn).remove(key) =~= r.ws_peers.remove(key));
}

/// A reconnect that has claimed an address keeps it when the older connection ends.
pub proof fn law_reconnect_survives_the_older_connection(
    r: RoutesView,
    key: SocketAddress,
    older: u64,
    newer: u64,
)
    requires
        older != newer,
    ensures
        r.registered(key, older).registered(key, newer).without_ws(key, older) == r.registered(
            key,
            newer,
        ),
{
    assert(r.ws_peers.insert(key, older).insert(key, newer) =~= r.ws_peers.insert(key, newer));
}

/// A push does not use up a websocket: once it is registered, message after message goes to it.
pub proof fn law_push_keeps_the_connection(r: RoutesView, key: SocketAddress, conn: u64)
    ensures
        r.registered(key, conn).peer_route(key) == (PeerRoute::Push { conn }),
        r.registered(key, conn).tcp_route(key) == (TcpRoute::Push { conn }),
        r.registered(key, conn).tcp_routed(key) == r.registered(key, conn),
{
}

/// After a push to a websocket has failed, its entry is gone and the message goes the other way.
pub proof fn law_failed_push_falls_back(r: RoutesView, key: SocketAddress)
    requires
        r.ws_peers.contains_key(key),
    ensures
        r.without_ws(key, r.ws_peers[key]).peer_route(key) is Datagram,
        r.without_ws(key, r.ws_peers[key]).tcp_route(key) == if r.tcp_punch.contains_key(key) {
            TcpRoute::Parked { conn: r.tcp_punch[key] }
        } else {
            TcpRoute::Nowhere
        },
{
}

/// A connection that was put aside serves one answer.
pub proof fn law_parked_connection_serves_once(r: RoutesView, key: SocketAddress, conn: u64)
    requires
        !r.ws_peers.contains_key(key),
    ensures
        r.parked(key, conn).tcp_route(key) == (TcpRoute::Parked { conn }),
        r.parked(key, conn).tcp_routed(key).tcp_route(key) is Nowhere,
{
}

/// What happens to one address leaves the routes to every other alone.
pub proof fn law_routes_are_independent(
    r: RoutesView,
    key: SocketAddress,
    conn: u64,
    other: SocketAddress,
)
    requires
        key != other,
    ensures
        r.registered(key, conn).tcp_route(other) == r.tcp_route(other),
        r.parked(key, conn).tcp_route(other) == r.tcp_route(other),
        r.without_ws(key, conn).tcp_route(other) == r.tcp_route(other),
        r.tcp_routed(key).tcp_route(other) == r.tcp_route(other),
        r.without_parked(key).tcp_route(other) == r.tcp_route(other),
        r.registered(key, conn).peer_route(other) == r.peer_route(other),
        r.without_ws(key, conn).peer_route(other) == r.peer_route(other),
{
}

/// A message to a registered peer is handed to its websocket where it has one, and goes out as a
/// datagram otherwise. A message to a peer that asked earlier is handed to its websocket where it has
/// one, or else to the connection that was put aside for it, if there is one.
pub proof fn law_websocket_comes_first(r: RoutesView, key: SocketAddress)
    ensures
        r.ws_peers.contains_key(key) ==> r.peer_route(key) == (PeerRoute::Push {
            conn: r.ws_peers[key],
        }) && r.tcp_route(key) == (TcpRoute::Push { conn: r.ws_peers[key] }),
        !r.ws_peers.contains_key(key) ==> r.peer_route(key) is Datagram,
        !r.ws_peers.contains_key(key) && r.tcp_punch.contains_key(key) ==> r.tcp_route(key) == (
        TcpRoute::Parked { conn: r.tcp_punch[key] }),
        !r.ws_peers.contains_key(key) && !r.tcp_punch.contains_key(key) ==> r.tcp_route(
            key,
        ) is Nowhere,
{
}

/// A new connection gets a number that the one before it did not have, and changes no route.
pub proof fn law_connections_are_numbered_apart(r: RoutesView)
    ensures
        r.next_conn < u64::MAX ==> r.accepted().next_conn == r.next_conn + 1,
        r.next_conn == u64::MAX ==> r.accepted().next_conn == 0,
        r.accepted().ws_peers == r.ws_peers,
        r.accepted().tcp_punch == r.tcp_punch,
{
}

/// What is done about websockets leaves alone what was put aside, and the other way round; and
/// nothing but a new connection uses up a number.
pub proof fn law_the_two_tables_are_apart(r: RoutesView, key: SocketAddress, conn: u64)
    ensures
        r.registered(key, conn).tcp_punch == r.tcp_punch,
        r.without_ws(key, conn).tcp_punch == r.tcp_punch,
        r.parked(key, conn).ws_peers == r.ws_peers,
        r.without_parked(key).ws_peers == r.ws_peers,
        r.tcp_routed(key).ws_peers == r.ws_peers,
        !r.without_parked(key).tcp_punch.contains_key(key),
        r.registered(key, conn).next_conn == r.next_conn,
        r.without_ws(key, conn).next_conn == r.next_conn,
        r.parked(key, conn).next_conn == r.next_conn,
        r.without_parked(key).next_conn == r.next_conn,
        r.tcp_routed(key).next_conn == r.next_conn,
        !(r.ws_peers.contains_key(key) && r.ws_peers[key] == conn) ==> r.without_ws(key, conn) == r,
{
}

} // verus!
