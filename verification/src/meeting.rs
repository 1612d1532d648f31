//! How two peers come to meet: what holds of the messages of one attempt, taken together.
//!
//! A message names a peer by its socket address. The network layer makes the same endpoint of the
//! same address every time, which is what the laws ask of the endpoints that they speak of.
use vstd::prelude::*;

use crate::addr::{EndpointView, SocketAddress};
use crate::clock::Now;
use crate::message::{
    ActionView, Incoming, LocalAddr, OutgoingView, PunchHoleRequest, PunchHoleSent, RegisterPeer,
    RegisterPk, RelayResponse, RequestRelay, ResponseAddrView,
};
use crate::punch::{punched, request_refusal};
use crate::routes::TcpRoute;
use crate::server::ServerView;
use crate::state::{registration, SharedView};
use crate::tcp::{handled, Conn, Outcome};
use crate::udp::datagram_state;

verus! {

/// A message that came in on a connection, with all that goes into its handling and what it came to.
pub struct Exchange {
    pub o: Outcome,
    pub srv: ServerView,
    pub sh: SharedView,
    pub conn: Conn,
    pub from: EndpointView,
    pub key: Seq<char>,
    pub secret: Seq<char>,
    pub now: Now,
    pub dur: u64,
}

impl Exchange {
    /// It is what the handling of `msg` comes to.
    pub open spec fn handles(self, msg: Incoming) -> bool {
        handled(
            self.o,
            self.srv,
            self.sh,
            self.conn,
            msg,
            self.from,
            self.key,
            self.secret,
            self.now,
            self.dur,
        )
    }

    /// The last thing that is sent.
    pub open spec fn sent(self) -> ActionView {
        self.o.actions.last()
    }

    /// Where an answer to the sender goes afterwards.
    pub open spec fn way_back(self) -> TcpRoute {
        self.o.state.routes.tcp_route(self.from.key)
    }
}

/// The address that a peer is told of, in a message about a requester.
pub open spec fn told_address(a: ActionView) -> Option<SocketAddress> {
    match a {
        ActionView::ToPeer { msg: OutgoingView::PunchHole { socket_addr, .. }, .. } => Some(
            socket_addr,
        ),
        ActionView::ToPeer { msg: OutgoingView::FetchLocalAddr { socket_addr, .. }, .. } => Some(
            socket_addr,
        ),
        ActionView::ToPeer { msg: OutgoingView::RequestRelay { socket_addr, .. }, .. } => Some(
            socket_addr,
        ),
        _ => None,
    }
}

/// A peer that keeps sending heartbeats stays within reach: after one by datagram that was not asked
/// for the key, a request for that peer goes to where the heartbeat came from, for thirty seconds.
pub proof fn law_request_follows_the_heartbeat(
    srv: ServerView,
    sh: SharedView,
    rp: RegisterPeer,
    home: EndpointView,
    then: u64,
    dur: u64,
    nat_type: i32,
    from: EndpointView,
    ws: bool,
    now: u64,
)
    requires
        rp.id@.len() > 0,
        sh.peers.contains_key(rp.id@),
        !sh.peers[rp.id@].must_show_key(home),
    ensures
        ({
            let s = datagram_state(sh, Incoming::RegisterPeer(rp), home, then, dur);
            let r = punched(srv, s, rp.id@, nat_type, from, ws, now);
            &&& now - then < 30_000_000_000 ==> r.to == Some(home)
            &&& now - then >= 30_000_000_000 ==> r.to is None
        }),
{
}

/// The same on connections: after a heartbeat that was not asked for the key, a request for that
/// peer that is let in goes to where the heartbeat came from, for thirty seconds.
pub proof fn law_request_follows_the_heartbeat_on_a_connection(
    beat: Exchange,
    rp: RegisterPeer,
    ask: Exchange,
    ph: PunchHoleRequest,
)
    requires
        beat.handles(Incoming::RegisterPeer(rp)),
        rp.id@.len() > 0,
        beat.sh.peers.contains_key(rp.id@),
        !beat.sh.peers[rp.id@].must_show_key(beat.from),
        ask.handles(Incoming::PunchHoleRequest(ph)),
        ph.id@ == rp.id@,
        ask.sh.peers == beat.o.state.peers,
        ask.now.mono - beat.now.mono < 30_000_000_000,
        request_refusal(ph, ask.key, ask.sh.must_login, ask.secret, ask.now) is None,
    ensures
        ask.sent() matches ActionView::ToPeer { to, .. } && to == beat.from,
        told_address(ask.sent()) == Some(ask.from.addr),
{
}

/// A peer that was loaded from the store can be reached as soon as it is heard from the IP on record,
/// at the address and port that it is heard from.
pub proof fn law_loaded_peer_is_reached_where_it_is_heard(
    srv: ServerView,
    sh: SharedView,
    rp: RegisterPeer,
    home: EndpointView,
    then: u64,
    dur: u64,
    nat_type: i32,
    from: EndpointView,
    ws: bool,
    now: u64,
)
    requires
        rp.id@.len() > 0,
        sh.peers.contains_key(rp.id@),
        sh.peers[rp.id@].pk.len() > 0,
        sh.peers[rp.id@].socket_addr.addr.spec_port() == 0,
        sh.peers[rp.id@].ip == home.ip_text,
        now - then < 30_000_000_000,
    ensures
        punched(
            srv,
            datagram_state(sh, Incoming::RegisterPeer(rp), home, then, dur),
            rp.id@,
            nat_type,
            from,
            ws,
            now,
        ).to == Some(home),
{
}

/// A key that was accepted and filed is the one that the server vouches for from then on: in the
/// answers of its peer to requesters, under the peer's id.
pub proof fn law_registered_key_is_vouched_for(
    sh: SharedView,
    rk: RegisterPk,
    home: EndpointView,
    ws: bool,
    now: u64,
    dur: u64,
    answer: Exchange,
    phs: PunchHoleSent,
)
    requires
        registration(sh, rk, home, ws, now, dur).stored,
        answer.handles(Incoming::PunchHoleSent(phs)),
        answer.sh.peers == registration(sh, rk, home, ws, now, dur).state.peers,
        answer.srv.sk is Some,
        phs.version@.len() > 0,
        phs.id@ == rk.id@,
    ensures
        answer.sent() matches ActionView::ToTcp { msg: OutgoingView::PunchHoleResponse(p), .. }
            && p.pk matches Some(k) && k.id == rk.id@ && k.pk == rk.pk@,
{
}

/// A peer's answer that it has punched a hole finds the requester: it goes to the address that the
/// peer was told of, and that leads back to the connection that the request came on. The requester
/// learns the address that the peer answered from.
pub proof fn law_punched_hole_reaches_the_requester(
    ask: Exchange,
    ph: PunchHoleRequest,
    answer: Exchange,
    phs: PunchHoleSent,
)
    requires
        ask.handles(Incoming::PunchHoleRequest(ph)),
        ask.conn.sink_here,
        !ask.conn.ws ==> !ask.sh.routes.ws_peers.contains_key(ask.from.key),
        told_address(ask.sent()) == Some(phs.to@.addr),
        answer.handles(Incoming::PunchHoleSent(phs)),
        phs.to@.addr == ask.from.addr ==> phs.to@ == ask.from,
    ensures
        answer.sent() matches ActionView::ToTcp { to, msg: OutgoingView::PunchHoleResponse(p) } && to
            == ask.from && p.socket_addr == ResponseAddrView::Of(answer.from.addr),
        ask.way_back() == if ask.conn.ws {
            TcpRoute::Push { conn: ask.conn.id }
        } else {
            TcpRoute::Parked { conn: ask.conn.id }
        },
{
}

/// A peer's local addresses find the requester in the same way, as they are.
pub proof fn law_local_addresses_reach_the_requester(
    ask: Exchange,
    ph: PunchHoleRequest,
    answer: Exchange,
    la: LocalAddr,
)
    requires
        ask.handles(Incoming::PunchHoleRequest(ph)),
        ask.conn.sink_here,
        !ask.conn.ws ==> !ask.sh.routes.ws_peers.contains_key(ask.from.key),
        told_address(ask.sent()) == Some(la.to@.addr),
        answer.handles(Incoming::LocalAddr(la)),
        la.to@.addr == ask.from.addr ==> la.to@ == ask.from,
    ensures
        answer.sent() matches ActionView::ToTcp { to, msg: OutgoingView::PunchHoleResponse(p) } && to
            == ask.from && p.socket_addr == ResponseAddrView::Raw(la.local_addr@),
        ask.way_back() == if ask.conn.ws {
            TcpRoute::Push { conn: ask.conn.id }
        } else {
            TcpRoute::Parked { conn: ask.conn.id }
        },
{
}

/// The answer to a relay request finds the requester: it goes to the address that the peer was told
/// of, and that leads back to the connection that the request came on.
pub proof fn law_relay_response_reaches_the_requester(
    ask: Exchange,
    rf: RequestRelay,
    answer: Exchange,
    rr: RelayResponse,
)
    requires
        ask.handles(Incoming::RequestRelay(rf)),
        ask.sh.peers.contains_key(rf.id@),
        ask.conn.sink_here,
        !ask.conn.ws ==> !ask.sh.routes.ws_peers.contains_key(ask.from.key),
        told_address(ask.sent()) == Some(rr.to@.addr),
        answer.handles(Incoming::RelayResponse(rr)),
        rr.to@.addr == ask.from.addr ==> rr.to@ == ask.from,
    ensures
        answer.sent() matches ActionView::ToTcp { to, msg: OutgoingView::RelayResponse { .. } } && to
            == ask.from,
        ask.way_back() == if ask.conn.ws {
            TcpRoute::Push { conn: ask.conn.id }
        } else {
            TcpRoute::Parked { conn: ask.conn.id }
        },
{
}

} // verus!
