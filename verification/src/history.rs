//! What holds of the routes and of the open connections in every state that the server can reach.
use vstd::prelude::*;

use crate::addr::{EndpointView, SocketAddress};
use crate::clock::Now;
use crate::message::Incoming;
use crate::routes::RoutesView;
use crate::server::ServerView;
use crate::state::SharedView;
use crate::tcp::{handled, law_handling_changes_only_the_senders_route, Conn, Outcome};
use crate::ws::ended;

verus! {

/// A message on a connection, with all that goes into its handling and what it comes to.
pub struct Turn {
    pub o: Outcome,
    pub srv: ServerView,
    pub sh: SharedView,
    pub msg: Incoming,
    pub from: EndpointView,
    pub key: Seq<char>,
    pub secret: Seq<char>,
    pub now: Now,
    pub dur: u64,
    /// Whether a sealed key could be opened, where the message brought one.
    pub opened: bool,
}

impl Turn {
    /// It is what the handling of the message on `conn` comes to.
    pub open spec fn is_handled_on(self, conn: Conn) -> bool {
        handled(
            self.o,
            self.srv,
            self.sh,
            conn,
            self.msg,
            self.from,
            self.key,
            self.secret,
            self.now,
            self.dur,
        )
    }

    /// The connection afterwards.
    pub open spec fn conn_after(self) -> Conn {
        if self.o.next is OpenKey {
            self.o.conn.with_key(self.opened)
        } else {
            self.o.conn
        }
    }
}

/// A connection that is open, and the normal form of its address.
pub struct Link {
    pub conn: Conn,
    pub key: SocketAddress,
}

/// The routes, together with the connections that are open, by number.
#[verifier::ext_equal]
pub struct World {
    pub routes: RoutesView,
    pub open: Map<u64, Link>,
}

/// What can happen.
#[allow(inconsistent_fields)]
pub enum Happening {
    /// A connection was accepted.
    Opened { ws: bool, key: SocketAddress },
    /// A message came in on a connection, and was handled.
    Handled { id: u64, turn: Turn },
    /// A message could not be handed to a websocket.
    PushFailed { key: SocketAddress, conn: u64 },
    /// A message was sent to a peer that asked earlier.
    Answered { key: SocketAddress },
    /// A connection ended: it was closed from either side, broke, or was given up.
    Ended { id: u64 },
}

impl World {
    /// Nothing has happened yet.
    pub open spec fn start() -> World {
        World {
            routes: RoutesView {
                ws_peers: Map::empty(),
                tcp_punch: Map::empty(),
                next_conn: 0,
            },
            open: Map::empty(),
        }
    }

    /// It can happen now. The number of a new connection is the next one, and must not be that of
    /// an open one: numbers start again after the largest.
    pub open spec fn allows(self, h: Happening) -> bool {
        match h {
            Happening::Opened { .. } => !self.open.contains_key(self.routes.next_conn),
            Happening::Handled { id, turn } => {
                &&& self.open.contains_key(id)
                &&& turn.sh.routes == self.routes
                &&& turn.from.key == self.open[id].key
                &&& turn.is_handled_on(self.open[id].conn)
            },
            Happening::Ended { id } => self.open.contains_key(id),
            _ => true,
        }
    }

    pub open spec fn after(self, h: Happening) -> World {
        match h {
            Happening::Opened { ws, key } => {
                let id = self.routes.next_conn;
                World {
                    routes: self.routes.accepted(),
                    open: self.open.insert(
                        id,
                        Link { conn: Conn { id, ws, sink_here: true, keyed: false }, key },
                    ),
                }
            },
            Happening::Handled { id, turn } => World {
                routes: turn.o.state.routes,
                open: self.open.insert(id, Link { conn: turn.conn_after(), ..self.open[id] }),
            },
            Happening::PushFailed { key, conn } => World {
                routes: self.routes.without_ws(key, conn),
                ..self
            },
            Happening::Answered { key } => World { routes: self.routes.tcp_routed(key), ..self },
            Happening::Ended { id } => World {
                routes: ended(self.routes, self.open[id].conn, self.open[id].key),
                open: self.open.remove(id),
            },
        }
    }

    /// Every route leads to a connection that is open, under that connection's own address: the
    /// registry to a websocket, and what was put aside to a plain connection whose write half is
    /// no longer with it. There are finitely many.
    pub open spec fn in_order(self) -> bool {
        &&& forall|id: u64| #[trigger]
            self.open.contains_key(id) ==> self.open[id].conn.id == id && (self.open[id].conn.ws
                ==> self.open[id].conn.sink_here)
        &&& forall|k: SocketAddress| #[trigger]
            self.routes.ws_peers.contains_key(k) ==> {
                let id = self.routes.ws_peers[k];
                &&& self.open.contains_key(id)
                &&& self.open[id].conn.ws
                &&& self.open[id].key == k
            }
        &&& forall|k: SocketAddress| #[trigger]
            self.routes.tcp_punch.contains_key(k) ==> {
                let id = self.routes.tcp_punch[k];
                &&& self.open.contains_key(id)
                &&& !self.open[id].conn.ws
                &&& !self.open[id].conn.sink_here
                &&& self.open[id].key == k
            }
        &&& self.routes.ws_peers.dom().finite()
        &&& self.routes.tcp_punch.dom().finite()
    }

    /// No route leads to the connection `id`.
    pub open spec fn has_no_route_to(self, id: u64) -> bool {
        &&& forall|k: SocketAddress| #[trigger]
            self.routes.ws_peers.contains_key(k) ==> self.routes.ws_peers[k] != id
        &&& forall|k: SocketAddress| #[trigger]
            self.routes.tcp_punch.contains_key(k) ==> self.routes.tcp_punch[k] != id
    }
}

/// The world after a history.
pub open spec fn world_after(hs: Seq<Happening>) -> World
    decreases hs.len(),
{
    if hs.len() == 0 {
        World::start()
    } else {
        world_after(hs.drop_last()).after(hs.last())
    }
}

/// Each thing in the history could happen when it did.
pub open spec fn possible(hs: Seq<Happening>) -> bool
    decreases hs.len(),
{
    hs.len() > 0 ==> possible(hs.drop_last()) && world_after(hs.drop_last()).allows(hs.last())
}

/// Whatever can happen keeps the world in order, and the key of a connection that stays open.
proof fn lemma_stays_in_order(w: World, h: Happening)
    requires
        w.in_order(),
        w.allows(h),
    ensures
        w.after(h).in_order(),
        forall|id: u64|
            #![trigger w.after(h).open.contains_key(id)]
            w.open.contains_key(id) && h != (Happening::Ended { id }) ==> w.after(
                h,
            ).open.contains_key(id) && (w.open[id].conn.keyed ==> w.after(
                h,
            ).open[id].conn.keyed) && w.after(h).open[id].key == w.open[id].key && w.after(
                h,
            ).open[id].conn.ws == w.open[id].conn.ws,
{
    if let Happening::Handled { id, turn } = h {
        law_handling_changes_only_the_senders_route(
            turn.o,
            turn.srv,
            turn.sh,
            w.open[id].conn,
            turn.msg,
            turn.from,
            turn.key,
            turn.secret,
            turn.now,
            turn.dur,
        );
    }
}

/// No route outlives its connection, whatever the history: every entry of the registry belongs to
/// a websocket that is open, and every connection that was put aside to one that is open, each
/// under its own address. When all have ended, nothing is left.
pub proof fn law_no_registration_outlives_its_connection(hs: Seq<Happening>)
    requires
        possible(hs),
    ensures
        world_after(hs).in_order(),
        world_after(hs).open == Map::<u64, Link>::empty() ==> world_after(
            hs,
        ).routes.ws_peers.len() == 0 && world_after(hs).routes.tcp_punch.len() == 0,
    decreases hs.len(),
{
    let w = world_after(hs);
    if hs.len() > 0 {
        law_no_registration_outlives_its_connection(hs.drop_last());
        lemma_stays_in_order(world_after(hs.drop_last()), hs.last());
    }
    if w.open == Map::<u64, Link>::empty() {
        assert(w.routes.ws_peers.dom() =~= Set::empty());
        assert(w.routes.tcp_punch.dom() =~= Set::empty());
    }
}

/// The end of a connection, in whatever state, leaves no route to it: no registration, and nothing
/// put aside. The registration of every other websocket stays, such as that of a newer one at the
/// same address; and the end of a websocket leaves all that was put aside.
pub proof fn law_ended_connection_leaves_no_route(hs: Seq<Happening>, id: u64)
    requires
        possible(hs),
        world_after(hs).open.contains_key(id),
    ensures
        ({
            let w = world_after(hs);
            let v = world_after(hs.push(Happening::Ended { id }));
            &&& possible(hs.push(Happening::Ended { id }))
            &&& v.routes == ended(w.routes, w.open[id].conn, w.open[id].key)
            &&& v.has_no_route_to(id)
            &&& !v.open.contains_key(id)
            &&& forall|k: SocketAddress| #[trigger]
                w.routes.ws_peers.contains_key(k) && w.routes.ws_peers[k] != id
                    ==> v.routes.ws_peers.contains_key(k) && v.routes.ws_peers[k]
                    == w.routes.ws_peers[k]
            &&& w.open[id].conn.ws ==> v.routes.tcp_punch == w.routes.tcp_punch
        }),
{
    let all = hs.push(Happening::Ended { id });
    assert(all.drop_last() =~= hs);
    law_no_registration_outlives_its_connection(hs);
    law_no_registration_outlives_its_connection(all);
}

/// Once a connection has a key, everything that is written to it is encrypted for as long as it
/// lasts, whatever comes in on it or on others.
pub proof fn law_key_is_kept(hs: Seq<Happening>, n: int, id: u64)
    requires
        possible(hs),
        0 <= n <= hs.len(),
        world_after(hs.take(n)).open.contains_key(id),
        world_after(hs.take(n)).open[id].conn.spec_writes_encrypted(),
        forall|i: int| n <= i < hs.len() ==> #[trigger] hs[i] != (Happening::Ended { id }),
    ensures
        world_after(hs).open.contains_key(id),
        world_after(hs).open[id].conn.spec_writes_encrypted(),
    decreases hs.len(),
{
    if n == hs.len() {
        assert(hs.take(n) =~= hs);
    } else {
        let front = hs.drop_last();
        assert(front.take(n) =~= hs.take(n));
        assert forall|i: int| n <= i < front.len() implies #[trigger] front[i] != (
        Happening::Ended { id }) by {
            assert(front[i] == hs[i]);
        }
        law_key_is_kept(front, n, id);
        law_no_registration_outlives_its_connection(front);
        lemma_stays_in_order(world_after(front), hs.last());
        assert(hs[hs.len() - 1] == hs.last());
        assert(world_after(front).after(hs.last()).open.contains_key(id));
    }
}

} // verus!
