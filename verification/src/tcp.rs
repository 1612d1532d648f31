//! What a connection, plain or a websocket, brings in and gets back.
use vstd::prelude::*;
use vstd::utf8::encode_utf8;

use crate::addr::{Endpoint, EndpointView, SocketAddress};
use crate::clock::Now;
use crate::limits::ip_allows;
use crate::message::{
    dup_bytes, lemma_orders_push, opt_view, orders, texts, Action, ActionView, ConfigUpdateView,
    IdPkView, Incoming, KeyExchange, LocalAddr, NatType, OnlineRequest, Outgoing, OutgoingView,
    PunchFailure, PunchHoleRequest, PunchHoleResponse, PunchHoleResponseView, PunchHoleSent,
    PunchUnion, RegisterPeer, RegisterPk, RegisterPkResult, RelayResponse, RequestRelay,
    ResponseAddr, ResponseAddrView, TestNatRequest,
};
use crate::peer::{are_online_states, PeerView};
use crate::punch::{
    check_request, judges_token, refusal_response, request_answered, request_refusal,
    token_is_judged,
};
use crate::punch_log::PunchReqView;
use crate::relay::{get_relay_server, relay_next, relay_turn};
use crate::routes::{only_open, PeerRoute, RoutesView, TcpRoute};
use crate::server::{RendezvousServer, ServerView};
use crate::state::{registration, store_order, Shared, SharedView, MIN_ID_LEN};

verus! {

broadcast use lemma_orders_push;

/// A connection, as its task knows it.
#[derive(Clone, Copy, Debug, PartialEq, Eq, Structural)]
pub struct Conn {
    /// Its number.
    pub id: u64,
    /// It is a websocket.
    pub ws: bool,
    /// Its write half is here, and not put aside for an answer.
    pub sink_here: bool,
    /// Its write half has a symmetric key.
    pub keyed: bool,
}

/// What becomes of a connection after a message.
#[derive(Debug)]
pub enum Next {
    Keep,
    Close,
    /// The peer has sealed a symmetric key to ours. It has to be opened; then see
    /// [`Conn::key_opened`].
    OpenKey { their_pk: Vec<u8>, sealed: Vec<u8> },
}

#[verifier::ext_equal]
pub enum NextView {
    Keep,
    Close,
    OpenKey { their_pk: Seq<u8>, sealed: Seq<u8> },
}

impl View for Next {
    type V = NextView;

    open spec fn view(&self) -> NextView {
        match self {
            Next::Keep => NextView::Keep,
            Next::Close => NextView::Close,
            Next::OpenKey { their_pk, sealed } =>
                NextView::OpenKey { their_pk: their_pk@, sealed: sealed@ },
        }
    }
}

/// What a message comes to: the orders that it leads to, in their order, and what becomes of the
/// connection.
#[derive(Debug)]
pub struct Step {
    pub actions: Vec<Action>,
    pub next: Next,
}

/// What a message comes to, with the state and the connection afterwards.
#[verifier::ext_equal]
pub struct Outcome {
    pub state: SharedView,
    pub conn: Conn,
    pub actions: Seq<ActionView>,
    pub next: NextView,
}

impl Conn {
    /// What is read from the connection is encrypted.
    pub open spec fn spec_reads_encrypted(self) -> bool {
        !self.ws && self.sink_here && self.keyed
    }

    /// Whether what is read from the connection is encrypted.
    pub fn reads_encrypted(&self) -> (r: bool)
        ensures
            r == self.spec_reads_encrypted(),
    {
        !self.ws && self.sink_here && self.keyed
    }

    /// What is written to the connection is encrypted, be it from here or after its write half was
    /// put aside: the key stays with the write half.
    pub open spec fn spec_writes_encrypted(self) -> bool {
        self.keyed
    }

    /// Whether what is written to the connection is encrypted.
    pub fn writes_encrypted(&self) -> (r: bool)
        ensures
            r == self.spec_writes_encrypted(),
    {
        self.keyed
    }

    /// The connection after it was tried to open a sealed key. A write half that is not here gets
    /// no key, and none loses the one that it has.
    pub open spec fn with_key(self, opened: bool) -> Conn {
        Conn { keyed: self.keyed || (opened && self.sink_here), ..self }
    }

    /// Takes note of whether the sealed key could be opened, and says whether the connection stays
    /// open. From then on what is written to it is encrypted, if its write half is still here.
    pub fn key_opened(&mut self, opened: bool) -> (r: bool)
        ensures
            r == opened,
            *final(self) == old(self).with_key(opened),
    {
        if opened && self.sink_here {
            self.keyed = true;
        }
        opened
    }

    /// What becomes of the connection after a message that leaves it as it is: a websocket stays
    /// open, and a plain connection is done.
    pub open spec fn stays(self) -> NextView {
        if self.ws {
            NextView::Keep
        } else {
            NextView::Close
        }
    }

    fn stay(&self) -> (r: Next)
        ensures
            r@ == self.stays(),
    {
        if self.ws {
            Next::Keep
        } else {
            Next::Close
        }
    }
}

/// A message to the connection itself, which can only be written while its write half is here.
pub open spec fn reply(conn: Conn, msg: OutgoingView) -> Seq<ActionView> {
    if conn.sink_here {
        seq![ActionView::Reply(msg)]
    } else {
        Seq::empty()
    }
}

/// The routes after a way back to a requester was recorded: its websocket is registered, or its
/// connection is put aside. There may be several attempts, so that it may be gone already.
pub open spec fn way_back(r: RoutesView, conn: Conn, from: EndpointView) -> RoutesView {
    if conn.ws {
        r.registered(from.key, conn.id)
    } else if conn.sink_here {
        r.parked(from.key, conn.id)
    } else {
        r
    }
}

/// The orders that go with it.
pub open spec fn way_back_orders(r: RoutesView, conn: Conn, from: EndpointView) -> Seq<ActionView> {
    if !conn.ws && conn.sink_here {
        seq![
            ActionView::Park {
                replaced: if r.tcp_punch.contains_key(from.key) {
                    Some(r.tcp_punch[from.key])
                } else {
                    None
                },
            },
        ]
    } else {
        Seq::empty()
    }
}

/// The connection after it.
pub open spec fn way_back_conn(conn: Conn) -> Conn {
    Conn { sink_here: conn.ws && conn.sink_here, ..conn }
}

/// The routes after a websocket has registered; a plain connection leaves them.
pub open spec fn ws_registered(r: RoutesView, conn: Conn, from: EndpointView) -> RoutesView {
    if conn.ws {
        r.registered(from.key, conn.id)
    } else {
        r
    }
}

/// The list of rendezvous servers, for a peer whose serial is older than ours.
pub open spec fn newer_config(srv: ServerView, serial: i32, conn: Conn) -> Seq<ActionView> {
    if srv.serial > serial {
        reply(conn, OutgoingView::ConfigureUpdate(srv.config_update()))
    } else {
        Seq::empty()
    }
}

/// What the requester is told when the peer has punched its hole.
pub open spec fn hole_sent(
    srv: ServerView,
    sh: SharedView,
    phs: PunchHoleSent,
    from: EndpointView,
) -> ActionView {
    ActionView::ToTcp {
        to: phs.to@,
        msg: OutgoingView::PunchHoleResponse(
            PunchHoleResponseView {
                socket_addr: ResponseAddrView::Of(from.addr),
                pk: srv.get_pk(sh.peers, phs.version@, phs.id@),
                failure: PunchFailure::Unset,
                union: match phs.nat_type {
                    Some(t) => PunchUnion::NatType(t),
                    None => PunchUnion::Unset,
                },
                relay_server: phs.relay_server@,
                other_failure: Seq::empty(),
            },
        ),
    }
}

/// What the requester is told of the peer's local addresses.
pub open spec fn local_addr_sent(srv: ServerView, sh: SharedView, la: LocalAddr) -> ActionView {
    ActionView::ToTcp {
        to: la.to@,
        msg: OutgoingView::PunchHoleResponse(
            PunchHoleResponseView {
                socket_addr: ResponseAddrView::Raw(la.local_addr@),
                pk: srv.get_pk(sh.peers, la.version@, la.id@),
                failure: PunchFailure::Unset,
                union: PunchUnion::IsLocal(true),
                relay_server: la.relay_server@,
                other_failure: Seq::empty(),
            },
        ),
    }
}

/// What the peer is told when a relay to it is requested: the request as it came in, with the
/// requester's address.
pub open spec fn relay_requested(rf: RequestRelay, from: EndpointView) -> OutgoingView {
    OutgoingView::RequestRelay { id: rf.id@, socket_addr: from.addr, rest: rf.rest@ }
}

/// The server's own local address was given for a relay, to a requester outside the local network.
pub open spec fn relay_replaced(srv: ServerView, rr: RelayResponse) -> bool {
    rr.relay_server@.len() > 0 && !srv.is_lan(rr.to@.addr) && rr.relay_server@ == srv.local_ip
}

/// The relay server that the requester is told of: none where none was named; the server's own
/// local address on the local network, and never outside of it.
pub open spec fn relay_for_requester(
    srv: ServerView,
    rotation: usize,
    rr: RelayResponse,
) -> Seq<char> {
    if rr.relay_server@.len() > 0 && srv.is_lan(rr.to@.addr) {
        srv.local_ip
    } else if relay_replaced(srv, rr) {
        relay_turn(srv.relay_servers, rotation)
    } else {
        rr.relay_server@
    }
}

/// What the requester is told when the peer agrees to a relay.
pub open spec fn relay_answered(srv: ServerView, sh: SharedView, rr: RelayResponse) -> ActionView {
    ActionView::ToTcp {
        to: rr.to@,
        msg: OutgoingView::RelayResponse {
            socket_addr: ResponseAddrView::Empty,
            pk: if rr.id@.len() > 0 {
                Some(srv.get_pk(sh.peers, rr.version@, rr.id@))
            } else {
                None
            },
            version: rr.version@,
            relay_server: relay_for_requester(srv, sh.rotation, rr),
            rest: rr.rest@,
        },
    }
}

/// The message is the answer to an online query.
pub open spec fn answers_online(
    a: Seq<ActionView>,
    conn: Conn,
    sh: SharedView,
    ids: Seq<Seq<char>>,
    now: u64,
) -> bool {
    if conn.sink_here {
        &&& a.len() == 1
        &&& a[0] matches ActionView::Reply(OutgoingView::OnlineResponse { states })
        &&& are_online_states(states, sh.peers, ids, now)
    } else {
        a.len() == 0
    }
}

/// `o` is what the message `msg` comes to, on the connection `conn` from `from`.
pub open spec fn handled(
    o: Outcome,
    srv: ServerView,
    sh: SharedView,
    conn: Conn,
    msg: Incoming,
    from: EndpointView,
    key: Seq<char>,
    secret: Seq<char>,
    now: Now,
    dur: u64,
) -> bool {
    match msg {
        Incoming::PunchHoleRequest(ph) => {
            let routed = SharedView { routes: way_back(sh.routes, conn, from), ..sh };
            let r = request_answered(srv, routed, ph, from, key, secret, conn.ws, now);
            o == Outcome {
                state: r.state,
                conn: way_back_conn(conn),
                actions: way_back_orders(sh.routes, conn, from).push(
                    match r.to {
                        Some(to) => ActionView::ToPeer { to, msg: r.msg },
                        None => ActionView::ToTcp { to: from, msg: r.msg },
                    },
                ),
                next: NextView::Keep,
            }
        },
        Incoming::RequestRelay(rf) => {
            let parked = way_back_orders(sh.routes, conn, from);
            o == Outcome {
                state: SharedView { routes: way_back(sh.routes, conn, from), ..sh },
                conn: way_back_conn(conn),
                actions: if sh.peers.contains_key(rf.id@) {
                    parked.push(
                        ActionView::ToPeer {
                            to: sh.peers[rf.id@].socket_addr,
                            msg: relay_requested(rf, from),
                        },
                    )
                } else {
                    parked
                },
                next: NextView::Keep,
            }
        },
        Incoming::RelayResponse(rr) => o == Outcome {
            state: SharedView {
                rotation: if relay_replaced(srv, rr) {
                    relay_next(srv.relay_servers, sh.rotation)
                } else {
                    sh.rotation
                },
                ..sh
            },
            conn,
            actions: seq![relay_answered(srv, sh, rr)],
            next: conn.stays(),
        },
        Incoming::PunchHoleSent(phs) => o == Outcome {
            state: sh,
            conn,
            actions: seq![hole_sent(srv, sh, phs, from)],
            next: conn.stays(),
        },
        Incoming::LocalAddr(la) => o == Outcome {
            state: sh,
            conn,
            actions: seq![local_addr_sent(srv, sh, la)],
            next: conn.stays(),
        },
        Incoming::TestNatRequest(tar) => o == Outcome {
            state: sh,
            conn,
            actions: reply(
                conn,
                OutgoingView::TestNatResponse {
                    port: from.addr.spec_port(),
                    cu: if srv.serial > tar.serial {
                        Some(srv.config_update())
                    } else {
                        None
                    },
                },
            ),
            next: conn.stays(),
        },
        Incoming::KeyExchange(ex) => o == Outcome {
            state: sh,
            conn,
            actions: Seq::empty(),
            next: if ex.keys@.len() == 2 {
                NextView::OpenKey { their_pk: ex.keys@[0]@, sealed: ex.keys@[1]@ }
            } else {
                NextView::Close
            },
        },
        Incoming::OnlineRequest(or) => {
            &&& o.state == sh
            &&& o.conn == conn
            &&& o.next == conn.stays()
            &&& answers_online(o.actions, conn, sh, texts(or.peers@), now.mono)
        },
        Incoming::RegisterPeer(rp) => o == if rp.id@.len() == 0 {
            Outcome { state: sh, conn, actions: Seq::empty(), next: conn.stays() }
        } else {
            let known = sh.peers.contains_key(rp.id@);
            Outcome {
                state: SharedView {
                    peers: if known {
                        sh.peers.insert(rp.id@, sh.peers[rp.id@].heard(from, now.mono))
                    } else {
                        sh.peers
                    },
                    routes: ws_registered(sh.routes, conn, from),
                    ..sh
                },
                conn,
                actions: reply(
                    conn,
                    OutgoingView::RegisterPeerResponse {
                        request_pk: known ==> sh.peers[rp.id@].must_show_key(from),
                    },
                ) + newer_config(srv, rp.serial, conn),
                next: conn.stays(),
            }
        },
        Incoming::RegisterPk(rk) => {
            let r = registration(sh, rk, from, conn.ws, now.mono, dur);
            let stored = if r.stored {
                seq![store_order(rk, from)]
            } else {
                Seq::empty()
            };
            o == match r.result {
                None => Outcome {
                    state: r.state,
                    conn,
                    actions: Seq::empty(),
                    next: NextView::Close,
                },
                Some(result) => Outcome {
                    state: if result == RegisterPkResult::Accepted {
                        SharedView { routes: ws_registered(sh.routes, conn, from), ..r.state }
                    } else {
                        r.state
                    },
                    conn,
                    actions: stored + reply(conn, OutgoingView::RegisterPkResponse { result }),
                    next: if result == RegisterPkResult::Accepted {
                        NextView::Keep
                    } else {
                        NextView::Close
                    },
                },
            }
        },
        _ => o == Outcome { state: sh, conn, actions: Seq::empty(), next: conn.stays() },
    }
}

/// The message takes the calendar's time: it is a request whose token has to be judged.
pub open spec fn clock_needed(
    msg: Incoming,
    key: Seq<char>,
    must_login: bool,
    secret: Seq<char>,
) -> bool {
    msg matches Incoming::PunchHoleRequest(ph) && token_is_judged(ph, key, must_login, secret)
}

/// Whether the message takes the calendar's time.
pub fn needs_clock(msg: &Incoming, key: &str, must_login: bool, secret: &str) -> (r: bool)
    ensures
        r == clock_needed(*msg, key@, must_login, secret@),
{
    match msg {
        Incoming::PunchHoleRequest(ph) => judges_token(ph, key, must_login, secret),
        _ => false,
    }
}

/// The peer whose record a message asks for and that is not in memory.
pub open spec fn needed(
    srv: ServerView,
    sh: SharedView,
    msg: Incoming,
    from: EndpointView,
    key: Seq<char>,
    secret: Seq<char>,
    now: Now,
) -> Option<Seq<char>> {
    match msg {
        Incoming::PunchHoleRequest(ph) => if request_refusal(
            ph,
            key,
            sh.must_login,
            secret,
            now,
        ) is None && !sh.peers.contains_key(ph.id@) {
            Some(ph.id@)
        } else {
            None
        },
        Incoming::RelayResponse(rr) => if rr.id@.len() > 0 {
            srv.get_pk_needs(sh.peers, rr.version@, rr.id@)
        } else {
            None
        },
        Incoming::PunchHoleSent(phs) => srv.get_pk_needs(sh.peers, phs.version@, phs.id@),
        Incoming::LocalAddr(la) => srv.get_pk_needs(sh.peers, la.version@, la.id@),
        Incoming::RegisterPk(rk) => if rk.uuid@.len() > 0 && rk.pk@.len() > 0
            && encode_utf8(rk.id@).len() >= MIN_ID_LEN && ip_allows(
            sh.ip_blocker,
            from.ip_text,
            rk.id@,
            now.mono,
        ) && !sh.peers.contains_key(rk.id@) {
            Some(rk.id@)
        } else {
            None
        },
        _ => None,
    }
}

impl RendezvousServer {
    fn get_pk_needs(&self, sh: &Shared, version: &String, id: &String) -> (r: Option<String>)
        requires
            sh.wf(),
        ensures
            opt_view(r) == self@.get_pk_needs(sh@.peers, version@, id@),
    {
        if version.as_str().is_empty() || self.inner.sk.is_none() || sh.peers.has(id.as_str()) {
            None
        } else {
            Some(id.clone())
        }
    }

    /// The peer whose record a message asks for and that is not in memory. It is to be loaded from
    /// the store, if it is there, before the message is handled.
    pub fn needed_peer(
        &self,
        sh: &Shared,
        msg: &Incoming,
        from: &Endpoint,
        key: &str,
        secret: &str,
        now: Now,
    ) -> (r: Option<String>)
        requires
            self.wf(),
            sh.wf(),
            clock_needed(*msg, key@, sh@.must_login, secret@) ==> now.wf(),
        ensures
            opt_view(r) == needed(self@, sh@, *msg, from@, key@, secret@, now),
    {
        match msg {
            Incoming::PunchHoleRequest(ph) => {
                if check_request(ph, key, sh.must_login, secret, now).is_none() && !sh.peers.has(
                    ph.id.as_str(),
                ) {
                    Some(ph.id.clone())
                } else {
                    None
                }
            },
            Incoming::RelayResponse(rr) => {
                if rr.id.as_str().is_empty() {
                    None
                } else {
                    self.get_pk_needs(sh, &rr.version, &rr.id)
                }
            },
            Incoming::PunchHoleSent(phs) => self.get_pk_needs(sh, &phs.version, &phs.id),
            Incoming::LocalAddr(la) => self.get_pk_needs(sh, &la.version, &la.id),
            Incoming::RegisterPk(rk) => {
                if sh.registration_needs(rk, from, now.mono) {
                    Some(rk.id.clone())
                } else {
                    None
                }
            },
            _ => None,
        }
    }
}


impl RendezvousServer {
    /// Records a way back to the requester: the answer may come from a different connection.
    fn record_way_back(
        &self,
        sh: &mut Shared,
        conn: &mut Conn,
        from: &Endpoint,
        actions: &mut Vec<Action>,
    )
        requires
            old(sh).wf(),
        ensures
            final(sh).wf(),
            final(sh)@ == (SharedView {
                routes: way_back(old(sh)@.routes, *old(conn), from@),
                ..old(sh)@
            }),
            *final(conn) == way_back_conn(*old(conn)),
            orders(final(actions)@) == orders(old(actions)@) + way_back_orders(
                old(sh)@.routes,
                *old(conn),
                from@,
            ),
    {
        let ghost before = orders(actions@);
        let ghost routes = sh@.routes;
        let ghost was = *conn;
        if conn.ws {
            sh.routes.register_ws_peer(from.key, conn.id);
        } else if conn.sink_here {
            let replaced = sh.routes.park(from.key, conn.id);
            conn.sink_here = false;
            actions.push(Action::Park { replaced });
        }
        assert(orders(actions@) =~= before + way_back_orders(routes, was, from@));
    }

    /// Writes to the connection itself, if its write half is here.
    fn send_to_sink(&self, conn: &Conn, msg: Outgoing, actions: &mut Vec<Action>)
        ensures
            orders(final(actions)@) == orders(old(actions)@) + reply(*conn, msg@),
    {
        let ghost before = orders(actions@);
        if conn.sink_here {
            actions.push(Action::Reply(msg));
        }
        assert(orders(actions@) =~= before + reply(*conn, msg@));
    }

    /// Answers a request to be connected to a peer, to that peer or to the requester.
    pub fn handle_tcp_punch_hole_request(
        &self,
        sh: &mut Shared,
        ph: &PunchHoleRequest,
        from: &Endpoint,
        key: &str,
        secret: &str,
        ws: bool,
        now: Now,
    ) -> (r: Action)
        requires
            self.wf(),
            old(sh).wf(),
            token_is_judged(*ph, key@, old(sh)@.must_login, secret@) ==> now.wf(),
        ensures
            final(sh).wf(),
            ({
                let p = request_answered(self@, old(sh)@, *ph, from@, key@, secret@, ws, now);
                &&& final(sh)@ == p.state
                &&& r@ == match p.to {
                    Some(to) => ActionView::ToPeer { to, msg: p.msg },
                    None => ActionView::ToTcp { to: from@, msg: p.msg },
                }
            }),
    {
        let (msg, to) = self.handle_punch_hole_request(sh, ph, from, key, secret, ws, now);
        match to {
            Some(to) => Action::ToPeer { to, msg },
            None => Action::ToTcp { to: from.dup(), msg },
        }
    }

    /// Answers a request to be connected to a peer with datagrams.
    pub fn handle_udp_punch_hole_request(
        &self,
        sh: &mut Shared,
        ph: &PunchHoleRequest,
        from: &Endpoint,
        key: &str,
        secret: &str,
        now: Now,
    ) -> (r: Action)
        requires
            self.wf(),
            old(sh).wf(),
            token_is_judged(*ph, key@, old(sh)@.must_login, secret@) ==> now.wf(),
        ensures
            final(sh).wf(),
            ({
                let p = request_answered(self@, old(sh)@, *ph, from@, key@, secret@, false, now);
                &&& final(sh)@ == p.state
                &&& r@ == (ActionView::Udp {
                    to: match p.to {
                        Some(to) => to.addr,
                        None => from@.addr,
                    },
                    msg: p.msg,
                })
            }),
    {
        let (msg, to) = self.handle_punch_hole_request(sh, ph, from, key, secret, false, now);
        let to = match to {
            Some(to) => to.addr,
            None => from.addr,
        };
        Action::Udp { to, msg }
    }

    /// A peer has punched its hole: tells the requester that it is ready to be connected.
    pub fn handle_hole_sent(&self, sh: &Shared, phs: &PunchHoleSent, from: &Endpoint) -> (r: Action)
        requires
            sh.wf(),
        ensures
            r@ == hole_sent(self@, sh@, *phs, from@),
            r@ matches ActionView::ToTcp { to, msg: OutgoingView::PunchHoleResponse(p) } && to
                == phs.to@ && p.socket_addr == ResponseAddrView::Of(from@.addr),
    {
        let p = PunchHoleResponse {
            socket_addr: ResponseAddr::Of(from.addr),
            pk: self.get_pk(&sh.peers, &phs.version, &phs.id),
            failure: PunchFailure::Unset,
            union: match phs.nat_type {
                Some(t) => PunchUnion::NatType(t),
                None => PunchUnion::Unset,
            },
            relay_server: phs.relay_server.clone(),
            other_failure: String::new(),
        };
        assert(p@.other_failure =~= Seq::<char>::empty());
        Action::ToTcp { to: phs.to.dup(), msg: Outgoing::PunchHoleResponse(p) }
    }

    /// A peer gives its local addresses: passes them on to the requester.
    pub fn handle_local_addr(&self, sh: &Shared, la: &LocalAddr) -> (r: Action)
        requires
            sh.wf(),
        ensures
            r@ == local_addr_sent(self@, sh@, *la),
            r@ matches ActionView::ToTcp { to, msg: OutgoingView::PunchHoleResponse(p) } && to
                == la.to@ && p.socket_addr == ResponseAddrView::Raw(la.local_addr@) && (
            self@.sk is Some && la.version@.len() > 0 && sh@.peers.contains_key(la.id@) ==> p.pk
                == Some(IdPkView { id: la.id@, pk: sh@.peers[la.id@].pk })),
    {
        let p = PunchHoleResponse {
            socket_addr: ResponseAddr::Raw(dup_bytes(&la.local_addr)),
            pk: self.get_pk(&sh.peers, &la.version, &la.id),
            failure: PunchFailure::Unset,
            union: PunchUnion::IsLocal(true),
            relay_server: la.relay_server.clone(),
            other_failure: String::new(),
        };
        assert(p@.other_failure =~= Seq::<char>::empty());
        Action::ToTcp { to: la.to.dup(), msg: Outgoing::PunchHoleResponse(p) }
    }

    /// A peer agrees to a relay: tells the requester.
    pub fn handle_relay_response(&self, sh: &mut Shared, rr: &RelayResponse) -> (r: Action)
        requires
            self.wf(),
            old(sh).wf(),
        ensures
            final(sh).wf(),
            r@ == relay_answered(self@, old(sh)@, *rr),
            final(sh)@ == (SharedView {
                rotation: if relay_replaced(self@, *rr) {
                    relay_next(self@.relay_servers, old(sh)@.rotation)
                } else {
                    old(sh)@.rotation
                },
                ..old(sh)@
            }),
    {
        let pk = if rr.id.as_str().is_empty() {
            None
        } else {
            Some(self.get_pk(&sh.peers, &rr.version, &rr.id))
        };
        let mut relay_server = rr.relay_server.clone();
        if !rr.relay_server.as_str().is_empty() {
            if self.is_lan(rr.to.addr) {
                relay_server = self.inner.local_ip.clone();
            } else if rr.relay_server == self.inner.local_ip {
                relay_server = get_relay_server(&self.relay_servers, &mut sh.rotation);
            }
        }
        Action::ToTcp {
            to: rr.to.dup(),
            msg: Outgoing::RelayResponse {
                socket_addr: ResponseAddr::Empty,
                pk,
                version: rr.version.clone(),
                relay_server,
                rest: dup_bytes(&rr.rest),
            },
        }
    }

    /// The answer to an online query.
    pub fn handle_online_request(&self, sh: &Shared, peers: &Vec<String>, now: u64) -> (r: Outgoing)
        requires
            sh.wf(),
        ensures
            r matches Outgoing::OnlineResponse { states } && are_online_states(
                states@,
                sh@.peers,
                texts(peers@),
                now,
            ),
    {
        Outgoing::OnlineResponse { states: sh.peers.peers_online_state(peers, now) }
    }

    /// Handles a message that came in on a connection, plain or a websocket. A websocket is there
    /// to stay: anything that is handled keeps it open. A plain connection is closed after most
    /// messages.
    pub fn handle_tcp(
        &self,
        sh: &mut Shared,
        conn: &mut Conn,
        msg: Incoming,
        from: &Endpoint,
        key: &str,
        secret: &str,
        now: Now,
        dur: u64,
    ) -> (r: Step)
        requires
            self.wf(),
            old(sh).wf(),
            clock_needed(msg, key@, old(sh)@.must_login, secret@) ==> now.wf(),
        ensures
            final(sh).wf(),
            handled(
                (Outcome {
                    state: final(sh)@,
                    conn: *final(conn),
                    actions: orders(r.actions@),
                    next: r.next@,
                }),
                self@,
                old(sh)@,
                *old(conn),
                msg,
                from@,
                key@,
                secret@,
                now,
                dur,
            ),
    {
        let mut actions: Vec<Action> = Vec::new();
        assert(orders(actions@) =~= Seq::<ActionView>::empty());
        match msg {
            Incoming::PunchHoleRequest(ph) => {
                self.record_way_back(sh, conn, from, &mut actions);
                let answer = self.handle_tcp_punch_hole_request(
                    sh,
                    &ph,
                    from,
                    key,
                    secret,
                    conn.ws,
                    now,
                );
                actions.push(answer);
                Step { actions, next: Next::Keep }
            },
            Incoming::RequestRelay(rf) => {
                self.record_way_back(sh, conn, from, &mut actions);
                if let Some(p) = sh.peers.get(rf.id.as_str()) {
                    actions.push(
                        Action::ToPeer {
                            to: p.socket_addr.dup(),
                            msg: Outgoing::RequestRelay {
                                id: rf.id.clone(),
                                socket_addr: from.addr,
                                rest: dup_bytes(&rf.rest),
                            },
                        },
                    );
                }
                Step { actions, next: Next::Keep }
            },
            Incoming::RelayResponse(rr) => {
                actions.push(self.handle_relay_response(sh, &rr));
                Step { actions, next: conn.stay() }
            },
            Incoming::PunchHoleSent(phs) => {
                actions.push(self.handle_hole_sent(sh, &phs, from));
                Step { actions, next: conn.stay() }
            },
            Incoming::LocalAddr(la) => {
                actions.push(self.handle_local_addr(sh, &la));
                Step { actions, next: conn.stay() }
            },
            Incoming::TestNatRequest(tar) => {
                let cu = if self.inner.serial > tar.serial {
                    Some(self.config_update())
                } else {
                    None
                };
                let answer = Outgoing::TestNatResponse { port: from.addr.port(), cu };
                self.send_to_sink(conn, answer, &mut actions);
                Step { actions, next: conn.stay() }
            },
            Incoming::KeyExchange(ex) => {
                if ex.keys.len() != 2 {
                    return Step { actions, next: Next::Close };
                }
                let their_pk = dup_bytes(&ex.keys[0]);
                let sealed = dup_bytes(&ex.keys[1]);
                Step { actions, next: Next::OpenKey { their_pk, sealed } }
            },
            Incoming::OnlineRequest(or) => {
                let answer = self.handle_online_request(sh, &or.peers, now.mono);
                self.send_to_sink(conn, answer, &mut actions);
                Step { actions, next: conn.stay() }
            },
            Incoming::RegisterPeer(rp) => {
                if !rp.id.as_str().is_empty() {
                    let request_pk = sh.peers.update_addr(rp.id.as_str(), from, now.mono);
                    self.send_to_sink(
                        conn,
                        Outgoing::RegisterPeerResponse { request_pk },
                        &mut actions,
                    );
                    if conn.ws {
                        sh.routes.register_ws_peer(from.key, conn.id);
                    }
                    if self.inner.serial > rp.serial {
                        let newer = Outgoing::ConfigureUpdate(self.config_update());
                        self.send_to_sink(conn, newer, &mut actions);
                    }
                }
                Step { actions, next: conn.stay() }
            },
            Incoming::RegisterPk(rk) => {
                let (result, store) = sh.handle_register_pk(rk, from, conn.ws, now.mono, dur);
                let result = match result {
                    Some(result) => result,
                    None => {
                        return Step { actions, next: Next::Close };
                    },
                };
                if let Some(store) = store {
                    actions.push(store);
                }
                self.send_to_sink(conn, Outgoing::RegisterPkResponse { result }, &mut actions);
                if result != RegisterPkResult::Accepted {
                    return Step { actions, next: Next::Close };
                }
                if conn.ws {
                    sh.routes.register_ws_peer(from.key, conn.id);
                }
                Step { actions, next: Next::Keep }
            },
            _ => Step { actions, next: conn.stay() },
        }
    }
}


/// A websocket survives everything that is not a registration of a key or a key exchange:
/// heartbeats, online queries, requests and answers, and messages that make no sense. It survives
/// an accepted registration too.
pub proof fn law_websocket_stays_open(
    o: Outcome,
    srv: ServerView,
    sh: SharedView,
    conn: Conn,
    msg: Incoming,
    from: EndpointView,
    key: Seq<char>,
    secret: Seq<char>,
    now: Now,
    dur: u64,
)
    requires
        handled(o, srv, sh, conn, msg, from, key, secret, now, dur),
        conn.ws,
        msg !is KeyExchange,
        msg matches Incoming::RegisterPk(rk) ==> registration(
            sh,
            rk,
            from,
            true,
            now.mono,
            dur,
        ).result == Some(RegisterPkResult::Accepted),
    ensures
        o.next is Keep,
        o.conn == conn,
{
}

/// A websocket that has sent a heartbeat, or an accepted key, is how its peer is reached.
pub proof fn law_heartbeat_registers_the_websocket(
    o: Outcome,
    srv: ServerView,
    sh: SharedView,
    conn: Conn,
    msg: Incoming,
    from: EndpointView,
    key: Seq<char>,
    secret: Seq<char>,
    now: Now,
    dur: u64,
)
    requires
        handled(o, srv, sh, conn, msg, from, key, secret, now, dur),
        conn.ws,
        match msg {
            Incoming::RegisterPeer(rp) => rp.id@.len() > 0,
            Incoming::RegisterPk(_) => o.next is Keep,
            _ => false,
        },
    ensures
        o.state.routes.peer_route(from.key) == (PeerRoute::Push { conn: conn.id }),
{
}

/// After a request the requester can be reached: over its websocket; or, where no websocket has
/// its address, over the connection that the request came on.
pub proof fn law_requester_can_be_reached(
    o: Outcome,
    srv: ServerView,
    sh: SharedView,
    conn: Conn,
    msg: Incoming,
    from: EndpointView,
    key: Seq<char>,
    secret: Seq<char>,
    now: Now,
    dur: u64,
)
    requires
        handled(o, srv, sh, conn, msg, from, key, secret, now, dur),
        msg is PunchHoleRequest || msg is RequestRelay,
        conn.sink_here,
    ensures
        o.next is Keep,
        conn.ws ==> o.state.routes.tcp_route(from.key) == (TcpRoute::Push {
            conn: conn.id,
        }),
        !conn.ws && !sh.routes.ws_peers.contains_key(from.key) ==> o.state.routes.tcp_route(
            from.key,
        ) == (TcpRoute::Parked { conn: conn.id }),
{
}

/// A request that is turned away is answered to the requester, with the refusal's own message, and
/// nothing but the way back to the requester is changed by it.
pub proof fn law_refusal_is_answered_to_the_requester(
    o: Outcome,
    srv: ServerView,
    sh: SharedView,
    conn: Conn,
    ph: PunchHoleRequest,
    from: EndpointView,
    key: Seq<char>,
    secret: Seq<char>,
    now: Now,
    dur: u64,
)
    requires
        handled(
            o,
            srv,
            sh,
            conn,
            Incoming::PunchHoleRequest(ph),
            from,
            key,
            secret,
            now,
            dur,
        ),
        request_refusal(ph, key, sh.must_login, secret, now) is Some,
    ensures
        o.actions.last() == (ActionView::ToTcp {
            to: from,
            msg: refusal_response(
                request_refusal(ph, key, sh.must_login, secret, now)->0,
            ),
        }),
        o.state == (SharedView { routes: way_back(sh.routes, conn, from), ..sh }),
{
}

/// A request for a relay goes to the peer it is for, over the peer's websocket where it has one.
pub proof fn law_relay_request_reaches_a_websocket_peer(
    o: Outcome,
    srv: ServerView,
    sh: SharedView,
    conn: Conn,
    rf: RequestRelay,
    from: EndpointView,
    key: Seq<char>,
    secret: Seq<char>,
    now: Now,
    dur: u64,
)
    requires
        handled(o, srv, sh, conn, Incoming::RequestRelay(rf), from, key, secret, now, dur),
        sh.peers.contains_key(rf.id@),
    ensures
        o.actions.last() == (ActionView::ToPeer {
            to: sh.peers[rf.id@].socket_addr,
            msg: relay_requested(rf, from),
        }),
        sh.routes.ws_peers.contains_key(sh.peers[rf.id@].socket_addr.key)
            ==> o.state.routes.peer_route(sh.peers[rf.id@].socket_addr.key) is Push,
{
}

/// A message changes at most one route, the sender's own: a websocket's is its registration, a
/// plain connection's is that it is put aside. Nothing else changes about the connection.
pub proof fn law_handling_changes_only_the_senders_route(
    o: Outcome,
    srv: ServerView,
    sh: SharedView,
    conn: Conn,
    msg: Incoming,
    from: EndpointView,
    key: Seq<char>,
    secret: Seq<char>,
    now: Now,
    dur: u64,
)
    requires
        handled(o, srv, sh, conn, msg, from, key, secret, now, dur),
    ensures
        ({
            ||| o.state.routes == sh.routes && o.conn == conn
            ||| conn.ws && o.state.routes == sh.routes.registered(from.key, conn.id) && o.conn
                == conn
            ||| !conn.ws && conn.sink_here && o.state.routes == sh.routes.parked(
                from.key,
                conn.id,
            ) && o.conn == (Conn { sink_here: false, ..conn })
        }),
{
}

/// A key exchange that brings two keys sends nothing. It asks for the key that the peer sealed to be
/// opened; and once that is done, where the write half is still here, everything that is written is
/// encrypted, and the connection stays open.
pub proof fn law_key_exchange_encrypts_the_connection(
    o: Outcome,
    srv: ServerView,
    sh: SharedView,
    conn: Conn,
    ex: KeyExchange,
    from: EndpointView,
    key: Seq<char>,
    secret: Seq<char>,
    now: Now,
    dur: u64,
)
    requires
        handled(o, srv, sh, conn, Incoming::KeyExchange(ex), from, key, secret, now, dur),
        ex.keys@.len() == 2,
    ensures
        o.actions.len() == 0,
        o.state == sh,
        o.conn == conn,
        o.next == (NextView::OpenKey { their_pk: ex.keys@[0]@, sealed: ex.keys@[1]@ }),
        conn.sink_here ==> o.conn.with_key(true).spec_writes_encrypted(),
        conn.sink_here && !conn.ws ==> o.conn.with_key(true).spec_reads_encrypted(),
{
}

/// Whatever comes in on an open connection, the registry of websockets holds only open
/// connections afterwards.
pub proof fn law_handling_registers_only_open_connections(
    o: Outcome,
    srv: ServerView,
    sh: SharedView,
    conn: Conn,
    msg: Incoming,
    from: EndpointView,
    key: Seq<char>,
    secret: Seq<char>,
    now: Now,
    dur: u64,
    open: Map<u64, SocketAddress>,
)
    requires
        handled(o, srv, sh, conn, msg, from, key, secret, now, dur),
        only_open(sh.routes.ws_peers, open),
        conn.ws ==> open.contains_key(conn.id) && open[conn.id] == from.key,
    ensures
        only_open(o.state.routes.ws_peers, open),
{
}

/// A key exchange that does not bring two keys closes the connection, and changes nothing else.
pub proof fn law_malformed_key_exchange_only_closes(
    o: Outcome,
    srv: ServerView,
    sh: SharedView,
    conn: Conn,
    ex: KeyExchange,
    from: EndpointView,
    key: Seq<char>,
    secret: Seq<char>,
    now: Now,
    dur: u64,
)
    requires
        handled(o, srv, sh, conn, Incoming::KeyExchange(ex), from, key, secret, now, dur),
        ex.keys@.len() != 2,
    ensures
        o.next is Close,
        o.actions.len() == 0,
        o.state == sh,
        o.conn == conn,
{
}

/// One look at the store is enough: once the peer that a message asks for is in memory, the
/// message asks for no other.
pub proof fn law_one_lookup_is_enough(
    srv: ServerView,
    sh: SharedView,
    msg: Incoming,
    from: EndpointView,
    key: Seq<char>,
    secret: Seq<char>,
    now: Now,
    p: PeerView,
)
    requires
        needed(srv, sh, msg, from, key, secret, now) is Some,
    ensures
        needed(
            srv,
            (SharedView {
                peers: sh.peers.insert(needed(srv, sh, msg, from, key, secret, now)->0, p),
                ..sh
            }),
            msg,
            from,
            key,
            secret,
            now,
        ) is None,
{
}

/// When a peer has punched its hole, the requester is told where the hole is: the response carries
/// the address that the message came from, IP and port. It goes to the requester that the message
/// names and to nobody else, with the peer's NAT type and relay as the peer gave them, and with the
/// peer's key where the server can vouch for it. Nothing changes.
pub proof fn law_requester_learns_where_the_hole_is(
    o: Outcome,
    srv: ServerView,
    sh: SharedView,
    conn: Conn,
    phs: PunchHoleSent,
    from: EndpointView,
    key: Seq<char>,
    secret: Seq<char>,
    now: Now,
    dur: u64,
)
    requires
        handled(o, srv, sh, conn, Incoming::PunchHoleSent(phs), from, key, secret, now, dur),
    ensures
        o.actions.len() == 1,
        o.actions[0] matches ActionView::ToTcp { to, msg: OutgoingView::PunchHoleResponse(p) } && to
            == phs.to@ && p.socket_addr == ResponseAddrView::Of(from.addr) && p.pk == (if srv.sk
            is Some && phs.version@.len() > 0 && sh.peers.contains_key(phs.id@) {
            Some(IdPkView { id: phs.id@, pk: sh.peers[phs.id@].pk })
        } else {
            None
        }) && p.relay_server == phs.relay_server@ && (match phs.nat_type {
            Some(t) => p.union == PunchUnion::NatType(t),
            None => p.union is Unset,
        }) && p.failure == PunchFailure::Unset && p.other_failure.len() == 0,
        o.state == sh,
        o.conn == conn,
        o.next == if conn.ws {
            NextView::Keep
        } else {
            NextView::Close
        },
{
}

/// When a peer gives its local addresses, they are passed on to the requester as they are, marked as
/// local, with the peer's relay. Where the server has a secret key, the peer says its version and
/// is known, the key that is filed for it goes with them under its id; and otherwise no key does.
/// Nothing changes.
pub proof fn law_requester_learns_the_local_addresses(
    o: Outcome,
    srv: ServerView,
    sh: SharedView,
    conn: Conn,
    la: LocalAddr,
    from: EndpointView,
    key: Seq<char>,
    secret: Seq<char>,
    now: Now,
    dur: u64,
)
    requires
        handled(o, srv, sh, conn, Incoming::LocalAddr(la), from, key, secret, now, dur),
    ensures
        o.actions.len() == 1,
        o.actions[0] matches ActionView::ToTcp { to, msg: OutgoingView::PunchHoleResponse(p) } && to
            == la.to@ && p.socket_addr == ResponseAddrView::Raw(la.local_addr@) && p.pk == (
        if srv.sk is Some && la.version@.len() > 0 && sh.peers.contains_key(la.id@) {
            Some(IdPkView { id: la.id@, pk: sh.peers[la.id@].pk })
        } else {
            None
        }) && p.relay_server == la.relay_server@ && p.union == PunchUnion::IsLocal(true) && p.failure
            == PunchFailure::Unset && p.other_failure.len() == 0,
        o.state == sh,
        o.conn == conn,
        o.next == if conn.ws {
            NextView::Keep
        } else {
            NextView::Close
        },
{
}

/// A request for a relay goes to the peer that it is for, where that one is in memory, with the
/// requester's own address, IP and port, and with all else as it came in. It is the last order; the
/// only other one puts the requester's connection aside. The connection stays open.
pub proof fn law_relay_request_carries_the_requesters_address(
    o: Outcome,
    srv: ServerView,
    sh: SharedView,
    conn: Conn,
    rf: RequestRelay,
    from: EndpointView,
    key: Seq<char>,
    secret: Seq<char>,
    now: Now,
    dur: u64,
)
    requires
        handled(o, srv, sh, conn, Incoming::RequestRelay(rf), from, key, secret, now, dur),
    ensures
        sh.peers.contains_key(rf.id@) ==> o.actions.len() > 0 && (o.actions.last() matches
            ActionView::ToPeer { to, msg: OutgoingView::RequestRelay { id, socket_addr, rest } }
            && to == sh.peers[rf.id@].socket_addr && id == rf.id@ && socket_addr == from.addr
            && rest == rf.rest@),
        !sh.peers.contains_key(rf.id@) ==> forall|i: int|
            0 <= i < o.actions.len() ==> (#[trigger] o.actions[i]) is Park,
        o.actions.len() == (if sh.peers.contains_key(rf.id@) {
            1int
        } else {
            0
        }) + (if !conn.ws && conn.sink_here {
            1int
        } else {
            0
        }),
        !conn.ws && conn.sink_here ==> o.actions[0] is Park,
        o.state == (SharedView { routes: o.state.routes, ..sh }),
        o.next is Keep,
{
}

/// When a peer agrees to a relay, the requester that it names is told, and nobody else. The address
/// is taken out. Where the response names the peer, the key that the server vouches for takes the
/// name's place, if it can vouch for one; version and rest are as they came in.
pub proof fn law_requester_learns_of_the_relay(
    o: Outcome,
    srv: ServerView,
    sh: SharedView,
    conn: Conn,
    rr: RelayResponse,
    from: EndpointView,
    key: Seq<char>,
    secret: Seq<char>,
    now: Now,
    dur: u64,
)
    requires
        handled(o, srv, sh, conn, Incoming::RelayResponse(rr), from, key, secret, now, dur),
    ensures
        o.actions.len() == 1,
        o.actions[0] matches ActionView::ToTcp {
            to,
            msg: OutgoingView::RelayResponse { socket_addr, pk, version, rest, .. },
        } && to == rr.to@ && socket_addr is Empty && version == rr.version@ && rest == rr.rest@ && (
        rr.id@.len() == 0 ==> pk is None) && (rr.id@.len() > 0 ==> pk == Some(
            if srv.sk is Some && rr.version@.len() > 0 && sh.peers.contains_key(rr.id@) {
                Some(IdPkView { id: rr.id@, pk: sh.peers[rr.id@].pk })
            } else {
                None
            },
        )),
        o.conn == conn,
        o.state == (SharedView { rotation: o.state.rotation, ..sh }),
        o.next == if conn.ws {
            NextView::Keep
        } else {
            NextView::Close
        },
{
}

/// The relay that the requester is told of is the peer's choice, with two exceptions: a requester in
/// the network that the mask names is told the server's own local address; and one outside of it is
/// never told that address, but a relay server in its place, whose turn is then used up. Where the
/// peer names no relay, neither does the server.
pub proof fn law_local_relay_is_for_the_local_network(
    o: Outcome,
    srv: ServerView,
    sh: SharedView,
    conn: Conn,
    rr: RelayResponse,
    from: EndpointView,
    key: Seq<char>,
    secret: Seq<char>,
    now: Now,
    dur: u64,
)
    requires
        handled(o, srv, sh, conn, Incoming::RelayResponse(rr), from, key, secret, now, dur),
    ensures
        ({
            let inside = srv.mask matches Some(n) && n.spec_contains(rr.to@.addr.spec_ip());
            let told = o.actions[0]->ToTcp_msg->RelayResponse_relay_server;
            &&& o.actions[0] is ToTcp && o.actions[0]->ToTcp_msg is RelayResponse
            &&& rr.relay_server@.len() == 0 ==> told.len() == 0 && o.state == sh
            &&& rr.relay_server@.len() > 0 && inside ==> told == srv.local_ip && o.state == sh
            &&& rr.relay_server@.len() > 0 && !inside && rr.relay_server@ != srv.local_ip ==> told
                == rr.relay_server@ && o.state == sh
            &&& rr.relay_server@.len() > 0 && !inside && rr.relay_server@ == srv.local_ip ==> told
                == relay_turn(srv.relay_servers, sh.rotation) && o.state == (SharedView {
                rotation: relay_next(srv.relay_servers, sh.rotation),
                ..sh
            })
        }),
{
}

/// Who asks how its address looks from here is told the port that it comes from, and the list of
/// rendezvous servers, with its serial, where its own is older. Nothing changes.
pub proof fn law_nat_test_tells_the_port(
    o: Outcome,
    srv: ServerView,
    sh: SharedView,
    conn: Conn,
    tar: TestNatRequest,
    from: EndpointView,
    key: Seq<char>,
    secret: Seq<char>,
    now: Now,
    dur: u64,
)
    requires
        handled(o, srv, sh, conn, Incoming::TestNatRequest(tar), from, key, secret, now, dur),
    ensures
        conn.sink_here ==> o.actions.len() == 1 && (o.actions[0] matches ActionView::Reply(
            OutgoingView::TestNatResponse { port, cu },
        ) && port == from.addr.spec_port() && cu == (if tar.serial < srv.serial {
            Some(
                ConfigUpdateView {
                    serial: srv.serial,
                    rendezvous_servers: srv.rendezvous_servers,
                },
            )
        } else {
            None
        })),
        !conn.sink_here ==> o.actions.len() == 0,
        o.state == sh,
        o.conn == conn,
{
}

/// A heartbeat of a peer in memory that is not asked for its key makes the address that it came
/// from the one at which the peer is reached, from now on; every other record, and whatever else is
/// on record of this one, stays. Any other heartbeat leaves all records as they were. The answer
/// says which of the two it was.
pub proof fn law_heartbeat_on_a_connection_is_heard(
    o: Outcome,
    srv: ServerView,
    sh: SharedView,
    conn: Conn,
    rp: RegisterPeer,
    from: EndpointView,
    key: Seq<char>,
    secret: Seq<char>,
    now: Now,
    dur: u64,
    id: Seq<char>,
)
    requires
        handled(o, srv, sh, conn, Incoming::RegisterPeer(rp), from, key, secret, now, dur),
    ensures
        ({
            let asked = sh.peers.contains_key(rp.id@) ==> sh.peers[rp.id@].must_show_key(from);
            let was = sh.peers[rp.id@];
            let is = o.state.peers[rp.id@];
            &&& rp.id@.len() > 0 && !asked ==> o.state.peers.contains_key(rp.id@) && is.socket_addr
                == from && is.last_reg == Some(now.mono) && is.uuid == was.uuid && is.pk == was.pk
                && is.ip == was.ip && is.reg_pk == was.reg_pk
            &&& rp.id@.len() == 0 || asked ==> o.state.peers == sh.peers
            &&& o.state.peers.contains_key(id) == sh.peers.contains_key(id)
            &&& id != rp.id@ ==> o.state.peers[id] == sh.peers[id]
            &&& rp.id@.len() > 0 && conn.sink_here ==> o.actions.len() > 0 && o.actions[0]
                == ActionView::Reply(OutgoingView::RegisterPeerResponse { request_pk: asked })
            &&& rp.id@.len() == 0 || !conn.sink_here ==> o.actions.len() == 0
            &&& o.state == (SharedView { peers: o.state.peers, routes: o.state.routes, ..sh })
            &&& !conn.ws || rp.id@.len() == 0 ==> o.state.routes == sh.routes
            &&& o.conn == conn
        }),
{
    if sh.peers.contains_key(rp.id@) && sh.peers[rp.id@].must_show_key(from) {
        assert(sh.peers.insert(rp.id@, sh.peers[rp.id@]) =~= sh.peers);
    }
}

/// A heartbeat whose serial is older than ours is told the list of rendezvous servers, after the
/// answer; any other heartbeat gets the answer alone.
pub proof fn law_heartbeat_brings_the_newer_list(
    o: Outcome,
    srv: ServerView,
    sh: SharedView,
    conn: Conn,
    rp: RegisterPeer,
    from: EndpointView,
    key: Seq<char>,
    secret: Seq<char>,
    now: Now,
    dur: u64,
)
    requires
        handled(o, srv, sh, conn, Incoming::RegisterPeer(rp), from, key, secret, now, dur),
        rp.id@.len() > 0,
        conn.sink_here,
    ensures
        rp.serial >= srv.serial ==> o.actions.len() == 1,
        rp.serial < srv.serial ==> o.actions.len() == 2 && o.actions[1] == ActionView::Reply(
            OutgoingView::ConfigureUpdate(
                ConfigUpdateView {
                    serial: srv.serial,
                    rendezvous_servers: srv.rendezvous_servers,
                },
            ),
        ),
{
}

/// What a key registration comes to is what its sender is told, and the record goes to the store
/// before that, where it is to be stored. A connection whose registration was not accepted is
/// closed; one that was malformed gets no answer, and is closed too.
pub proof fn law_registration_is_answered(
    o: Outcome,
    srv: ServerView,
    sh: SharedView,
    conn: Conn,
    rk: RegisterPk,
    from: EndpointView,
    key: Seq<char>,
    secret: Seq<char>,
    now: Now,
    dur: u64,
)
    requires
        handled(o, srv, sh, conn, Incoming::RegisterPk(rk), from, key, secret, now, dur),
        conn.sink_here,
    ensures
        ({
            let r = registration(sh, rk, from, conn.ws, now.mono, dur);
            &&& r.result is None ==> o.actions.len() == 0
            &&& r.result matches Some(result) ==> o.actions.len() > 0 && o.actions.last()
                == ActionView::Reply(OutgoingView::RegisterPkResponse { result })
            &&& r.result is Some ==> o.actions.len() == (if r.stored {
                2int
            } else {
                1
            })
            &&& r.result is Some && r.stored ==> o.actions[0] == (ActionView::Store {
                id: rk.id@,
                uuid: rk.uuid@,
                pk: rk.pk@,
                ip: from.ip_text,
            })
            &&& o.next == if r.result == Some(RegisterPkResult::Accepted) {
                NextView::Keep
            } else {
                NextView::Close
            }
            &&& o.state == (SharedView { routes: o.state.routes, ..r.state })
            &&& !conn.ws || r.result != Some(RegisterPkResult::Accepted) ==> o.state.routes
                == sh.routes
            &&& o.conn == conn
        }),
{
}

/// A request that is let in, for a peer that is online, goes to that peer at the address that is on
/// record for it, and tells it the requester's own address. Over a websocket, and wherever the two
/// IPs differ and the mask does not hold both, it asks for a hole: under the requester's NAT type,
/// or, where only a relay will do, under the one that forces it. Otherwise it asks for the peer's
/// local address, unless a relay is insisted on. The request is logged, unless it resembles one in
/// the log, and takes a turn among the relay servers; beyond that, and the way back, nothing changes.
pub proof fn law_request_goes_to_the_online_peer(
    o: Outcome,
    srv: ServerView,
    sh: SharedView,
    conn: Conn,
    ph: PunchHoleRequest,
    from: EndpointView,
    key: Seq<char>,
    secret: Seq<char>,
    now: Now,
    dur: u64,
)
    requires
        handled(o, srv, sh, conn, Incoming::PunchHoleRequest(ph), from, key, secret, now, dur),
        request_refusal(ph, key, sh.must_login, secret, now) is None,
        sh.peers.contains_key(ph.id@),
        sh.peers[ph.id@].online(now.mono),
    ensures
        ({
            let peer = sh.peers[ph.id@].socket_addr;
            let both_inside = srv.mask matches Some(n) && n.spec_contains(peer.addr.spec_ip())
                && n.spec_contains(from.addr.spec_ip());
            let peer_inside = srv.mask matches Some(n) && n.spec_contains(peer.addr.spec_ip());
            let inside = srv.mask matches Some(n) && n.spec_contains(from.addr.spec_ip());
            let entry = PunchReqView {
                tm: now.mono,
                from_ip: from.key_ip_text,
                to_ip: peer.key_ip_text,
                to_id: ph.id@,
            };
            &&& o.actions.last() matches ActionView::ToPeer { to, msg } && to == peer && (match msg {
                OutgoingView::PunchHole { socket_addr, nat_type, relay_server } => socket_addr
                    == from.addr && nat_type == (if sh.always_use_relay || peer_inside != inside {
                    NatType::Symmetric
                } else {
                    NatType::Given(ph.nat_type)
                }) && relay_server == (if peer_inside && (sh.always_use_relay || !inside) {
                    srv.local_ip
                } else {
                    relay_turn(srv.relay_servers, sh.rotation)
                }),
                OutgoingView::FetchLocalAddr { socket_addr, relay_server } => socket_addr
                    == from.addr && relay_server == relay_turn(srv.relay_servers, sh.rotation)
                    && !conn.ws && !sh.always_use_relay && (peer.addr.spec_ip()
                    == from.addr.spec_ip() || both_inside),
                _ => false,
            })
            &&& !conn.ws && !sh.always_use_relay && (peer.addr.spec_ip() == from.addr.spec_ip()
                || both_inside) ==> o.actions.last()->ToPeer_msg is FetchLocalAddr
            &&& (forall|i: int|
                0 <= i < sh.punch_reqs.len() ==> (#[trigger] sh.punch_reqs[i]).from_ip
                    != from.key_ip_text || sh.punch_reqs[i].to_id != ph.id@) ==> o.state.punch_reqs
                == sh.punch_reqs.push(entry)
            &&& o.state.punch_reqs == sh.punch_reqs || o.state.punch_reqs == sh.punch_reqs.push(
                entry,
            )
            &&& o.state == (SharedView {
                routes: o.state.routes,
                punch_reqs: o.state.punch_reqs,
                rotation: relay_next(srv.relay_servers, sh.rotation),
                ..sh
            })
            &&& o.next is Keep
        }),
{
}

/// A request that is let in, for a peer that is not there or is offline, is answered to the
/// requester, with that reason.
pub proof fn law_request_for_an_absent_peer_is_answered(
    o: Outcome,
    srv: ServerView,
    sh: SharedView,
    conn: Conn,
    ph: PunchHoleRequest,
    from: EndpointView,
    key: Seq<char>,
    secret: Seq<char>,
    now: Now,
    dur: u64,
)
    requires
        handled(o, srv, sh, conn, Incoming::PunchHoleRequest(ph), from, key, secret, now, dur),
        request_refusal(ph, key, sh.must_login, secret, now) is None,
        !sh.peers.contains_key(ph.id@) || !sh.peers[ph.id@].online(now.mono),
    ensures
        o.actions.last() matches ActionView::ToTcp { to, msg: OutgoingView::PunchHoleResponse(p) }
            && to == from && p.failure == (if sh.peers.contains_key(ph.id@) {
            PunchFailure::Offline
        } else {
            PunchFailure::IdNotExist
        }) && p.socket_addr is Empty && p.pk is None,
        o.state == (SharedView { routes: o.state.routes, ..sh }),
        o.next is Keep,
{
}

/// A request leaves a way back to whom it came from, under the normal form of that address: a
/// websocket is registered, and a plain connection whose write half is still here is put aside, in
/// place of the one that was there, which is named in the order. Every other way back stays.
pub proof fn law_request_leaves_a_way_back(
    o: Outcome,
    srv: ServerView,
    sh: SharedView,
    conn: Conn,
    msg: Incoming,
    from: EndpointView,
    key: Seq<char>,
    secret: Seq<char>,
    now: Now,
    dur: u64,
)
    requires
        handled(o, srv, sh, conn, msg, from, key, secret, now, dur),
        msg is PunchHoleRequest || msg is RequestRelay,
    ensures
        conn.ws ==> o.state.routes.ws_peers == sh.routes.ws_peers.insert(from.key, conn.id)
            && o.state.routes.tcp_punch == sh.routes.tcp_punch && o.conn == conn,
        !conn.ws && conn.sink_here ==> o.state.routes.tcp_punch == sh.routes.tcp_punch.insert(
            from.key,
            conn.id,
        ) && o.state.routes.ws_peers == sh.routes.ws_peers && !o.conn.sink_here && o.actions.len()
            > 0 && o.actions[0] == (ActionView::Park {
            replaced: if sh.routes.tcp_punch.contains_key(from.key) {
                Some(sh.routes.tcp_punch[from.key])
            } else {
                None
            },
        }),
        !conn.ws && !conn.sink_here ==> o.state.routes == sh.routes && o.conn == conn,
        forall|i: int|
            0 <= i < o.actions.len() ==> ((#[trigger] o.actions[i]) is Park <==> i == 0 && !conn.ws
                && conn.sink_here),
{
}

/// A plain connection is done after one message, but for a request, an accepted key or a key
/// exchange that goes on.
pub proof fn law_plain_connection_serves_one_message(
    o: Outcome,
    srv: ServerView,
    sh: SharedView,
    conn: Conn,
    msg: Incoming,
    from: EndpointView,
    key: Seq<char>,
    secret: Seq<char>,
    now: Now,
    dur: u64,
)
    requires
        handled(o, srv, sh, conn, msg, from, key, secret, now, dur),
        !conn.ws,
    ensures
        msg is PunchHoleRequest || msg is RequestRelay ==> o.next is Keep,
        msg !is PunchHoleRequest && msg !is RequestRelay && msg !is RegisterPk && msg !is KeyExchange
            ==> o.next is Close,
{
}

/// A message that the server has no use for on a connection has no effect.
pub proof fn law_useless_message_has_no_effect(
    o: Outcome,
    srv: ServerView,
    sh: SharedView,
    conn: Conn,
    msg: Incoming,
    from: EndpointView,
    key: Seq<char>,
    secret: Seq<char>,
    now: Now,
    dur: u64,
)
    requires
        handled(o, srv, sh, conn, msg, from, key, secret, now, dur),
        msg is Other || msg is ConfigureUpdate || msg is SoftwareUpdate,
    ensures
        o.actions.len() == 0,
        o.state == sh,
        o.conn == conn,
{
}

/// An online query is answered on the connection that it came on, with one bit for each id, in the
/// order that they were asked for; and nothing changes.
pub proof fn law_online_query_is_answered(
    o: Outcome,
    srv: ServerView,
    sh: SharedView,
    conn: Conn,
    or: OnlineRequest,
    from: EndpointView,
    key: Seq<char>,
    secret: Seq<char>,
    now: Now,
    dur: u64,
)
    requires
        handled(o, srv, sh, conn, Incoming::OnlineRequest(or), from, key, secret, now, dur),
    ensures
        conn.sink_here ==> o.actions.len() == 1 && (o.actions[0] matches ActionView::Reply(
            OutgoingView::OnlineResponse { states },
        ) && are_online_states(states, sh.peers, texts(or.peers@), now.mono)),
        !conn.sink_here ==> o.actions.len() == 0,
        o.state == sh,
        o.conn == conn,
{
}

/// What is read from a plain connection is encrypted once its write half, still here, has a key; a
/// websocket is read as it is. What is written is encrypted on either. A key that could not be
/// opened, or comes after the write half was put aside, changes nothing.
pub proof fn law_key_belongs_to_the_write_half(conn: Conn, opened: bool)
    ensures
        conn.ws ==> !conn.spec_reads_encrypted(),
        !conn.ws ==> (conn.spec_reads_encrypted() <==> conn.sink_here
            && conn.spec_writes_encrypted()),
        opened && conn.sink_here ==> conn.with_key(opened).spec_writes_encrypted(),
        !opened || !conn.sink_here ==> conn.with_key(opened) == conn,
        conn.with_key(opened).id == conn.id,
        conn.with_key(opened).ws == conn.ws,
        conn.with_key(opened).sink_here == conn.sink_here,
        conn.spec_writes_encrypted() ==> conn.with_key(opened).spec_writes_encrypted(),
{
}

/// What has to be looked up for a message: the peer that a request is for, once it is let in; the
/// peer whose key would be vouched for, where the server has a secret key and the message says its
/// version; the peer that registers, once its address may do so; and never one that is in memory
/// already.
pub proof fn law_what_is_looked_up(
    srv: ServerView,
    sh: SharedView,
    msg: Incoming,
    from: EndpointView,
    key: Seq<char>,
    secret: Seq<char>,
    now: Now,
)
    ensures
        needed(srv, sh, msg, from, key, secret, now) matches Some(id) ==> !sh.peers.contains_key(
            id,
        ),
        match msg {
            Incoming::PunchHoleRequest(ph) => request_refusal(ph, key, sh.must_login, secret, now)
                is None && !sh.peers.contains_key(ph.id@) <==> needed(
                srv,
                sh,
                msg,
                from,
                key,
                secret,
                now,
            ) == Some(ph.id@),
            Incoming::PunchHoleSent(phs) => srv.sk is Some && phs.version@.len() > 0
                && !sh.peers.contains_key(phs.id@) <==> needed(
                srv,
                sh,
                msg,
                from,
                key,
                secret,
                now,
            ) == Some(phs.id@),
            Incoming::LocalAddr(la) => srv.sk is Some && la.version@.len() > 0
                && !sh.peers.contains_key(la.id@) <==> needed(
                srv,
                sh,
                msg,
                from,
                key,
                secret,
                now,
            ) == Some(la.id@),
            Incoming::RelayResponse(rr) => srv.sk is Some && rr.version@.len() > 0 && rr.id@.len()
                > 0 && !sh.peers.contains_key(rr.id@) <==> needed(
                srv,
                sh,
                msg,
                from,
                key,
                secret,
                now,
            ) == Some(rr.id@),
            Incoming::RegisterPk(rk) => rk.uuid@.len() > 0 && rk.pk@.len() > 0 && encode_utf8(
                rk.id@,
            ).len() >= 6 && ip_allows(sh.ip_blocker, from.ip_text, rk.id@, now.mono)
                && !sh.peers.contains_key(rk.id@) <==> needed(
                srv,
                sh,
                msg,
                from,
                key,
                secret,
                now,
            ) == Some(rk.id@),
            _ => needed(srv, sh, msg, from, key, secret, now) is None,
        },
{
}

/// The record of a registering peer is looked up wherever it could make a difference: where it is
/// not looked up, and is not in memory, no record that the store could hold would change how the
/// registration is answered.
pub proof fn law_registration_looks_up_what_it_needs(
    srv: ServerView,
    sh: SharedView,
    rk: RegisterPk,
    from: EndpointView,
    key: Seq<char>,
    secret: Seq<char>,
    now: Now,
    ws: bool,
    dur: u64,
    p: PeerView,
)
    requires
        needed(srv, sh, Incoming::RegisterPk(rk), from, key, secret, now) is None,
        !sh.peers.contains_key(rk.id@),
    ensures
        registration(
            (SharedView { peers: sh.peers.insert(rk.id@, p), ..sh }),
            rk,
            from,
            ws,
            now.mono,
            dur,
        ).result == registration(sh, rk, from, ws, now.mono, dur).result,
{
}

/// Where no token is judged, the calendar makes no difference to what a message comes to; so that
/// its clock need not be set.
pub proof fn law_calendar_only_matters_to_a_token(
    o: Outcome,
    srv: ServerView,
    sh: SharedView,
    conn: Conn,
    msg: Incoming,
    from: EndpointView,
    key: Seq<char>,
    secret: Seq<char>,
    now: Now,
    dur: u64,
    wall: u64,
)
    requires
        handled(o, srv, sh, conn, msg, from, key, secret, now, dur),
        !clock_needed(msg, key, sh.must_login, secret),
    ensures
        handled(o, srv, sh, conn, msg, from, key, secret, (Now { wall, ..now }), dur),
        !(msg is PunchHoleRequest && sh.must_login && secret.len() > 0) ==> !clock_needed(
            msg,
            key,
            sh.must_login,
            secret,
        ),
{
}

} // verus!
