//! Requests to be connected to a peer: who is let in, and what the peer is told.
use vstd::prelude::*;

use crate::addr::{Endpoint, EndpointView};
use crate::clock::{spec_elapsed_secs, Now};
use crate::jwt::{carries, signed_claims, token_verdict, verify_token, Claims};
use crate::keys::presented_key;
use crate::message::{
    opt_view, NatType, Outgoing, OutgoingView, PunchFailure, PunchHoleRequest, PunchHoleResponse,
    PunchHoleResponseView, PunchUnion, ResponseAddr, ResponseAddrView,
};
use crate::peer::is_online;
use crate::punch_log::{is_latest, is_repeated, request_logged, PunchReq, PunchReqView};
use crate::relay::{get_relay_server, relay_next, relay_turn};
use crate::server::{RendezvousServer, ServerView};
use crate::state::{Shared, SharedView};
use crate::text::same_text;

verus! {

/// Why a request is turned away before anything is looked up.
#[derive(Clone, Copy, Debug, PartialEq, Eq, Structural)]
pub enum Refusal {
    /// It does not present the server's key.
    Licence,
    /// It carries no token, and the server insists on a login.
    NoToken,
    /// It carries a token that is not good.
    BadToken,
}

/// A response that says nothing.
pub open spec fn blank_response() -> PunchHoleResponseView {
    PunchHoleResponseView {
        socket_addr: ResponseAddrView::Empty,
        pk: None,
        failure: PunchFailure::Unset,
        union: PunchUnion::Unset,
        relay_server: Seq::empty(),
        other_failure: Seq::empty(),
    }
}

/// A response that gives a reason.
pub open spec fn failure_response(failure: PunchFailure) -> OutgoingView {
    OutgoingView::PunchHoleResponse(PunchHoleResponseView { failure, ..blank_response() })
}

/// What a refused request is answered.
pub open spec fn refusal_response(r: Refusal) -> OutgoingView {
    match r {
        Refusal::Licence => failure_response(PunchFailure::LicenseMismatch),
        Refusal::NoToken => OutgoingView::PunchHoleResponse(
            PunchHoleResponseView {
                other_failure: "Connection failed, please login!"@,
                ..blank_response()
            },
        ),
        Refusal::BadToken => OutgoingView::PunchHoleResponse(
            PunchHoleResponseView {
                other_failure: "Token error, please log out and log back in!"@,
                ..blank_response()
            },
        ),
    }
}

fn blank() -> (r: PunchHoleResponse)
    ensures
        r@ == blank_response(),
{
    let r = PunchHoleResponse {
        socket_addr: ResponseAddr::Empty,
        pk: None,
        failure: PunchFailure::Unset,
        union: PunchUnion::Unset,
        relay_server: String::new(),
        other_failure: String::new(),
    };
    assert(r@.relay_server =~= Seq::<char>::empty());
    r
}

fn failed(failure: PunchFailure) -> (r: Outgoing)
    ensures
        r@ == failure_response(failure),
{
    let mut response = blank();
    response.failure = failure;
    Outgoing::PunchHoleResponse(response)
}

/// What a refused request is answered.
pub fn refuse(refusal: Refusal) -> (r: Outgoing)
    ensures
        r@ == refusal_response(refusal),
{
    match refusal {
        Refusal::Licence => failed(PunchFailure::LicenseMismatch),
        Refusal::NoToken => {
            let mut response = blank();
            response.other_failure = "Connection failed, please login!".to_owned();
            Outgoing::PunchHoleResponse(response)
        },
        Refusal::BadToken => {
            let mut response = blank();
            response.other_failure = "Token error, please log out and log back in!".to_owned();
            Outgoing::PunchHoleResponse(response)
        },
    }
}

/// Whether a request is turned away. The licence comes first: where the server has a key, it has
/// to be presented. After that, where a login is required, there has to be a token; and where the
/// server can verify tokens (`verified`), it has to be a good one.
pub open spec fn spec_refusal(
    ph: PunchHoleRequest,
    key: Seq<char>,
    must_login: bool,
    verified: bool,
    token_good: bool,
) -> Option<Refusal> {
    if key.len() > 0 && ph.licence_key@ != key {
        Some(Refusal::Licence)
    } else if must_login && ph.token@.len() == 0 {
        Some(Refusal::NoToken)
    } else if must_login && verified && !token_good {
        Some(Refusal::BadToken)
    } else {
        None
    }
}

/// Whether a request is turned away, given what its token is worth.
pub fn refusal(
    ph: &PunchHoleRequest,
    key: &str,
    must_login: bool,
    verified: bool,
    token_good: bool,
) -> (r: Option<Refusal>)
    ensures
        r == spec_refusal(*ph, key@, must_login, verified, token_good),
{
    if !key.is_empty() && !same_text(ph.licence_key.as_str(), key) {
        return Some(Refusal::Licence);
    }
    if must_login {
        if ph.token.as_str().is_empty() {
            return Some(Refusal::NoToken);
        } else if verified && !token_good {
            return Some(Refusal::BadToken);
        }
    }
    None
}

/// The token is good under this secret, at this time.
pub open spec fn token_good(token: Seq<char>, secret: Seq<char>, now: Now) -> bool {
    token_verdict(signed_claims(token, secret), now.spec_unix_secs()) is Accepted
}

/// The refusal that a request meets, under the server's key, its login rule and the secret that
/// tokens are signed with. No secret means that tokens are not verified.
pub open spec fn request_refusal(
    ph: PunchHoleRequest,
    key: Seq<char>,
    must_login: bool,
    secret: Seq<char>,
    now: Now,
) -> Option<Refusal> {
    spec_refusal(ph, key, must_login, secret.len() > 0, token_good(ph.token@, secret, now))
}

/// The token of the request has to be judged, and that takes the time: it has one, a login is
/// required, the server has the secret, and the licence is right.
pub open spec fn token_is_judged(
    ph: PunchHoleRequest,
    key: Seq<char>,
    must_login: bool,
    secret: Seq<char>,
) -> bool {
    &&& key.len() == 0 || ph.licence_key@ == key
    &&& must_login
    &&& secret.len() > 0
    &&& ph.token@.len() > 0
}

/// Whether the token of the request has to be judged.
pub fn judges_token(ph: &PunchHoleRequest, key: &str, must_login: bool, secret: &str) -> (r: bool)
    ensures
        r == token_is_judged(*ph, key@, must_login, secret@),
{
    (key.is_empty() || same_text(ph.licence_key.as_str(), key)) && must_login && !secret.is_empty()
        && !ph.token.as_str().is_empty()
}

/// Whether a request is turned away.
pub fn check_request(
    ph: &PunchHoleRequest,
    key: &str,
    must_login: bool,
    secret: &str,
    now: Now,
) -> (r: Option<Refusal>)
    requires
        token_is_judged(*ph, key@, must_login, secret@) ==> now.wf(),
    ensures
        r == request_refusal(*ph, key@, must_login, secret@, now),
{
    let good = if judges_token(ph, key, must_login, secret) {
        verify_token(ph.token.as_str(), secret, now.unix_secs()).is_ok()
    } else {
        true
    };
    refusal(ph, key, must_login, !secret.is_empty(), good)
}

/// What comes of a request: the message, the peer that it goes to (`None` is the requester), and
/// the state afterwards.
#[verifier::ext_equal]
pub struct Punched {
    pub msg: OutgoingView,
    pub to: Option<EndpointView>,
    pub state: SharedView,
}

/// The two sides can only meet through a relay: the server insists on it, or one of them is on the
/// local network and the other is not.
pub open spec fn relay_forced(
    srv: ServerView,
    always_use_relay: bool,
    peer: EndpointView,
    from: EndpointView,
) -> bool {
    always_use_relay || srv.is_lan(peer.addr) != srv.is_lan(from.addr)
}

/// The two sides are on the same intranet, where a hole cannot be punched. A websocket tells
/// nothing about that.
pub open spec fn same_intranet(
    srv: ServerView,
    ws: bool,
    peer: EndpointView,
    from: EndpointView,
) -> bool {
    !ws && (srv.is_lan(peer.addr) && srv.is_lan(from.addr) || peer.addr.spec_ip()
        == from.addr.spec_ip())
}

/// What comes of an admitted request for the peer `id` from `from`: the requester is told that
/// there is no such peer, or that it is offline; or else the peer is told where the requester is,
/// and is asked for its local address or to punch a hole. A peer on the local network that needs a
/// relay is given the server's own local address for it. Where the server insists on a relay, no
/// direct connection is offered, not even on the same intranet.
pub open spec fn punched(
    srv: ServerView,
    sh: SharedView,
    id: Seq<char>,
    nat_type: i32,
    from: EndpointView,
    ws: bool,
    now: u64,
) -> Punched {
    if !sh.peers.contains_key(id) {
        Punched { msg: failure_response(PunchFailure::IdNotExist), to: None, state: sh }
    } else if !sh.peers[id].online(now) {
        Punched { msg: failure_response(PunchFailure::Offline), to: None, state: sh }
    } else {
        let peer = sh.peers[id].socket_addr;
        let forced = relay_forced(srv, sh.always_use_relay, peer, from);
        let relay_server = if forced && srv.is_lan(peer.addr) {
            srv.local_ip
        } else {
            relay_turn(srv.relay_servers, sh.rotation)
        };
        Punched {
            msg: if !sh.always_use_relay && same_intranet(srv, ws, peer, from) {
                OutgoingView::FetchLocalAddr { socket_addr: from.addr, relay_server }
            } else {
                OutgoingView::PunchHole {
                    socket_addr: from.addr,
                    nat_type: if forced {
                        NatType::Symmetric
                    } else {
                        NatType::Given(nat_type)
                    },
                    relay_server,
                }
            },
            to: Some(peer),
            state: SharedView {
                punch_reqs: request_logged(
                    sh.punch_reqs,
                    PunchReqView {
                        tm: now,
                        from_ip: from.key_ip_text,
                        to_ip: peer.key_ip_text,
                        to_id: id,
                    },
                ),
                rotation: relay_next(srv.relay_servers, sh.rotation),
                ..sh
            },
        }
    }
}

/// What comes of a request, admitted or not.
pub open spec fn request_answered(
    srv: ServerView,
    sh: SharedView,
    ph: PunchHoleRequest,
    from: EndpointView,
    key: Seq<char>,
    secret: Seq<char>,
    ws: bool,
    now: Now,
) -> Punched {
    match request_refusal(ph, key, sh.must_login, secret, now) {
        Some(r) => Punched { msg: refusal_response(r), to: None, state: sh },
        None => punched(srv, sh, ph.id@, ph.nat_type, from, ws, now.mono),
    }
}

impl RendezvousServer {
    /// Answers a request that was admitted.
    pub fn punch(
        &self,
        sh: &mut Shared,
        id: &String,
        nat_type: i32,
        from: &Endpoint,
        ws: bool,
        now: u64,
    ) -> (r: (Outgoing, Option<Endpoint>))
        requires
            self.wf(),
            old(sh).wf(),
        ensures
            final(sh).wf(),
            r.0@ == punched(self@, old(sh)@, id@, nat_type, from@, ws, now).msg,
            opt_view(r.1) == punched(self@, old(sh)@, id@, nat_type, from@, ws, now).to,
            final(sh)@ == punched(self@, old(sh)@, id@, nat_type, from@, ws, now).state,
    {
        let (peer_addr, online) = match sh.peers.get(id.as_str()) {
            None => {
                return (failed(PunchFailure::IdNotExist), None);
            },
            Some(p) => (p.socket_addr.dup(), p.online(now)),
        };
        if !online {
            return (failed(PunchFailure::Offline), None);
        }
        sh.punch_reqs.record(
            PunchReq {
                tm: now,
                from_ip: from.key_ip_text.clone(),
                to_ip: peer_addr.key_ip_text.clone(),
                to_id: id.clone(),
            },
        );
        let peer_is_lan = self.is_lan(peer_addr.addr);
        let is_lan = self.is_lan(from.addr);
        let mut relay_server = get_relay_server(&self.relay_servers, &mut sh.rotation);
        let forced = sh.always_use_relay || peer_is_lan != is_lan;
        if forced && peer_is_lan {
            relay_server = self.inner.local_ip.clone();
        }
        let same_intranet = !ws && (peer_is_lan && is_lan || peer_addr.addr.ip()
            == from.addr.ip());
        let msg = if !sh.always_use_relay && same_intranet {
            Outgoing::FetchLocalAddr { socket_addr: from.addr, relay_server }
        } else {
            Outgoing::PunchHole {
                socket_addr: from.addr,
                nat_type: if forced {
                    NatType::Symmetric
                } else {
                    NatType::Given(nat_type)
                },
                relay_server,
            }
        };
        (msg, Some(peer_addr))
    }

    /// Answers a request to be connected to a peer. With the message comes the peer that it goes
    /// to; `None` is the requester itself.
    pub fn handle_punch_hole_request(
        &self,
        sh: &mut Shared,
        ph: &PunchHoleRequest,
        from: &Endpoint,
        key: &str,
        secret: &str,
        ws: bool,
        now: Now,
    ) -> (r: (Outgoing, Option<Endpoint>))
        requires
            self.wf(),
            old(sh).wf(),
            token_is_judged(*ph, key@, old(sh)@.must_login, secret@) ==> now.wf(),
        ensures
            final(sh).wf(),
            r.0@ == request_answered(self@, old(sh)@, *ph, from@, key@, secret@, ws, now).msg,
            opt_view(r.1) == request_answered(
                self@,
                old(sh)@,
                *ph,
                from@,
                key@,
                secret@,
                ws,
                now,
            ).to,
            final(sh)@ == request_answered(
                self@,
                old(sh)@,
                *ph,
                from@,
                key@,
                secret@,
                ws,
                now,
            ).state,
    {
        match check_request(ph, key, sh.must_login, secret, now) {
            Some(r) => (refuse(r), None),
            None => self.punch(sh, &ph.id, ph.nat_type, from, ws, now.mono),
        }
    }
}

/// Where a login is required, a request without a token is refused with its own text, whatever
/// else it says and whatever the server knows of the peer; unless its licence is wrong, which is
/// told first.
pub proof fn law_no_token_no_connection(
    srv: ServerView,
    sh: SharedView,
    ph: PunchHoleRequest,
    from: EndpointView,
    key: Seq<char>,
    secret: Seq<char>,
    ws: bool,
    now: Now,
)
    requires
        sh.must_login,
        ph.token@.len() == 0,
        key.len() == 0 || ph.licence_key@ == key,
    ensures
        request_answered(srv, sh, ph, from, key, secret, ws, now) == (Punched {
            msg: refusal_response(Refusal::NoToken),
            to: None,
            state: sh,
        }),
{
}

/// Where a login is required and the server has the secret, a token that is not good is refused
/// with its own text.
pub proof fn law_bad_token_no_connection(
    srv: ServerView,
    sh: SharedView,
    ph: PunchHoleRequest,
    from: EndpointView,
    key: Seq<char>,
    secret: Seq<char>,
    ws: bool,
    now: Now,
)
    requires
        sh.must_login,
        ph.token@.len() > 0,
        secret.len() > 0,
        !token_good(ph.token@, secret, now),
        key.len() == 0 || ph.licence_key@ == key,
    ensures
        request_answered(srv, sh, ph, from, key, secret, ws, now) == (Punched {
            msg: refusal_response(Refusal::BadToken),
            to: None,
            state: sh,
        }),
{
}

/// A good token lets a request in, and so does any token where the server has no secret to verify
/// it with: the request is then judged on its merits, as if no login were required.
pub proof fn law_good_token_is_admitted(
    srv: ServerView,
    sh: SharedView,
    ph: PunchHoleRequest,
    from: EndpointView,
    key: Seq<char>,
    secret: Seq<char>,
    ws: bool,
    now: Now,
)
    requires
        ph.token@.len() > 0,
        secret.len() == 0 || token_good(ph.token@, secret, now),
        key.len() == 0 || ph.licence_key@ == key,
    ensures
        request_answered(srv, sh, ph, from, key, secret, ws, now) == punched(
            srv,
            sh,
            ph.id@,
            ph.nat_type,
            from,
            ws,
            now.mono,
        ),
{
}

/// A token that was minted under the server's secret lets a request in for as long as it has not
/// expired, and no longer; a token that was not signed with the secret never does.
pub proof fn law_minted_token_lets_in_until_it_expires(
    ph: PunchHoleRequest,
    key: Seq<char>,
    secret: Seq<char>,
    claims: Claims,
    now: Now,
)
    requires
        secret.len() > 0,
        key.len() == 0 || ph.licence_key@ == key,
    ensures
        carries(ph.token@, secret, claims) ==> request_refusal(ph, key, true, secret, now) == (
        if claims.exp > now.spec_unix_secs() {
            None
        } else {
            Some(Refusal::BadToken)
        }),
        ph.token@.len() > 0 && signed_claims(ph.token@, secret) is None ==> request_refusal(
            ph,
            key,
            true,
            secret,
            now,
        ) == Some(Refusal::BadToken),
{
}

/// A request that does not present the server's key is told so, before its token is looked at.
pub proof fn law_licence_is_checked_first(
    srv: ServerView,
    sh: SharedView,
    ph: PunchHoleRequest,
    from: EndpointView,
    key: Seq<char>,
    secret: Seq<char>,
    ws: bool,
    now: Now,
)
    requires
        key.len() > 0,
        ph.licence_key@ != key,
    ensures
        request_answered(srv, sh, ph, from, key, secret, ws, now) == (Punched {
            msg: refusal_response(Refusal::Licence),
            to: None,
            state: sh,
        }),
{
}

/// A request that is answered to the requester has changed nothing.
pub proof fn law_failed_request_changes_nothing(
    srv: ServerView,
    sh: SharedView,
    ph: PunchHoleRequest,
    from: EndpointView,
    key: Seq<char>,
    secret: Seq<char>,
    ws: bool,
    now: Now,
)
    requires
        request_answered(srv, sh, ph, from, key, secret, ws, now).to is None,
    ensures
        request_answered(srv, sh, ph, from, key, secret, ws, now).state == sh,
{
}

/// Where the server insists on a relay, a peer is never offered a direct connection: whatever the
/// two addresses are, it is told to punch a hole as a peer that cannot, which makes both sides use
/// the relay.
pub proof fn law_no_direct_connection_where_relay_is_required(
    srv: ServerView,
    sh: SharedView,
    id: Seq<char>,
    nat_type: i32,
    from: EndpointView,
    ws: bool,
    now: u64,
)
    requires
        sh.always_use_relay,
        punched(srv, sh, id, nat_type, from, ws, now).to is Some,
    ensures
        punched(srv, sh, id, nat_type, from, ws, now).msg matches OutgoingView::PunchHole {
            nat_type: told,
            socket_addr,
            ..
        } && told == NatType::Symmetric && socket_addr == from.addr,
{
}

/// An admitted request for a peer that is online goes to that peer, and tells it where the
/// requester is.
pub proof fn law_online_peer_is_told_of_the_requester(
    srv: ServerView,
    sh: SharedView,
    id: Seq<char>,
    nat_type: i32,
    from: EndpointView,
    ws: bool,
    now: u64,
)
    requires
        is_online(sh.peers, id, now),
    ensures
        ({
            let r = punched(srv, sh, id, nat_type, from, ws, now);
            &&& r.to == Some(sh.peers[id].socket_addr)
            &&& match r.msg {
                OutgoingView::PunchHole { socket_addr, .. } => socket_addr == from.addr,
                OutgoingView::FetchLocalAddr { socket_addr, .. } => socket_addr == from.addr,
                _ => false,
            }
            &&& ws ==> r.msg is PunchHole
        }),
{
}

/// Two sides that are not on one intranet cannot use each other's local addresses: where their IPs
/// differ and the server's mask does not hold both, the peer is asked to punch a hole for the
/// requester, over a plain connection as over a websocket. It is told where the requester is, and
/// the requester's own NAT type unless the server insists on a relay or the mask holds one of the
/// two.
pub proof fn law_peer_elsewhere_is_asked_to_punch_a_hole(
    srv: ServerView,
    sh: SharedView,
    id: Seq<char>,
    nat_type: i32,
    from: EndpointView,
    ws: bool,
    now: u64,
)
    requires
        sh.peers.contains_key(id),
        sh.peers[id].online(now),
        sh.peers[id].socket_addr.addr.spec_ip() != from.addr.spec_ip(),
        !(srv.mask matches Some(n) && n.spec_contains(sh.peers[id].socket_addr.addr.spec_ip())
            && n.spec_contains(from.addr.spec_ip())),
    ensures
        ({
            let r = punched(srv, sh, id, nat_type, from, ws, now);
            &&& r.to == Some(sh.peers[id].socket_addr)
            &&& r.msg matches OutgoingView::PunchHole { socket_addr, nat_type: told, .. }
                && socket_addr == from.addr && (!sh.always_use_relay && (srv.mask matches Some(n)
                ==> !n.spec_contains(sh.peers[id].socket_addr.addr.spec_ip()) && !n.spec_contains(
                from.addr.spec_ip(),
            )) ==> told == NatType::Given(nat_type))
        }),
{
}

/// A peer is asked for its local address only where that can be of use: the request came on a plain
/// connection, no relay is insisted on, and the two sides have one IP or are both in the network
/// that the server's mask names. There it always is asked for it.
pub proof fn law_local_address_is_for_the_same_intranet(
    srv: ServerView,
    sh: SharedView,
    id: Seq<char>,
    nat_type: i32,
    from: EndpointView,
    ws: bool,
    now: u64,
)
    requires
        sh.peers.contains_key(id),
        sh.peers[id].online(now),
    ensures
        ({
            let r = punched(srv, sh, id, nat_type, from, ws, now);
            let peer_ip = sh.peers[id].socket_addr.addr.spec_ip();
            let ip = from.addr.spec_ip();
            &&& r.msg is FetchLocalAddr || r.msg is PunchHole
            &&& r.msg is FetchLocalAddr <==> !ws && !sh.always_use_relay && (peer_ip == ip || (
            srv.mask matches Some(n) && n.spec_contains(peer_ip) && n.spec_contains(ip)))
            &&& r.msg matches OutgoingView::FetchLocalAddr { socket_addr, relay_server }
                ==> socket_addr == from.addr && r.to == Some(sh.peers[id].socket_addr)
                && relay_server == relay_turn(srv.relay_servers, sh.rotation)
        }),
{
}

/// Who asks for whom does not matter to where a hole is punched: whether two sides are taken to be
/// on one intranet is the same both ways.
pub proof fn law_same_intranet_is_mutual(
    srv: ServerView,
    sh: SharedView,
    a: Seq<char>,
    b: Seq<char>,
    nat_a: i32,
    nat_b: i32,
    now: u64,
)
    requires
        sh.peers.contains_key(a),
        sh.peers[a].online(now),
        sh.peers.contains_key(b),
        sh.peers[b].online(now),
    ensures
        punched(srv, sh, a, nat_a, sh.peers[b].socket_addr, false, now).msg is FetchLocalAddr
            == punched(srv, sh, b, nat_b, sh.peers[a].socket_addr, false, now).msg is FetchLocalAddr,
{
}

/// A side in the network that the mask names and one outside of it can only meet through a relay:
/// the peer is asked to punch a hole as if its NAT allowed none. The relay is the server's own local
/// address for a peer inside, and the one whose turn it is for a peer outside.
pub proof fn law_relay_between_inside_and_outside(
    srv: ServerView,
    sh: SharedView,
    id: Seq<char>,
    nat_type: i32,
    from: EndpointView,
    ws: bool,
    now: u64,
)
    requires
        sh.peers.contains_key(id),
        sh.peers[id].online(now),
        srv.mask is Some,
        srv.mask->0.spec_contains(sh.peers[id].socket_addr.addr.spec_ip())
            != srv.mask->0.spec_contains(from.addr.spec_ip()),
    ensures
        punched(srv, sh, id, nat_type, from, ws, now).msg == (OutgoingView::PunchHole {
            socket_addr: from.addr,
            nat_type: NatType::Symmetric,
            relay_server: if srv.mask->0.spec_contains(
                sh.peers[id].socket_addr.addr.spec_ip(),
            ) {
                srv.local_ip
            } else {
                relay_turn(srv.relay_servers, sh.rotation)
            },
        }),
{
}

/// The relay that a peer is told of is the one whose turn it is, but for a peer in the network that
/// the mask names: where that one has to use a relay, it is told the server's own local address.
pub proof fn law_peer_is_told_of_a_relay(
    srv: ServerView,
    sh: SharedView,
    id: Seq<char>,
    nat_type: i32,
    from: EndpointView,
    ws: bool,
    now: u64,
)
    requires
        sh.peers.contains_key(id),
        sh.peers[id].online(now),
    ensures
        ({
            let r = punched(srv, sh, id, nat_type, from, ws, now);
            let peer_ip = sh.peers[id].socket_addr.addr.spec_ip();
            let inside = srv.mask matches Some(n) && n.spec_contains(peer_ip);
            let relay = match r.msg {
                OutgoingView::PunchHole { relay_server, .. } => relay_server,
                OutgoingView::FetchLocalAddr { relay_server, .. } => relay_server,
                _ => Seq::empty(),
            };
            &&& !inside ==> relay == relay_turn(srv.relay_servers, sh.rotation)
            &&& inside && sh.always_use_relay ==> relay == srv.local_ip
            &&& r.msg matches OutgoingView::PunchHole { nat_type: told, .. } ==> told
                == NatType::Given(nat_type) || told == NatType::Symmetric
            &&& r.msg matches OutgoingView::PunchHole { nat_type: NatType::Symmetric, .. }
                ==> sh.always_use_relay || (srv.mask matches Some(n) && n.spec_contains(peer_ip)
                != n.spec_contains(from.addr.spec_ip()))
            &&& r.msg matches OutgoingView::PunchHole { nat_type: NatType::Given(_), .. } ==> relay
                == relay_turn(srv.relay_servers, sh.rotation)
        }),
{
}

/// A request for a peer that does not exist, or is offline, is answered to the requester: with that
/// very reason, and with nothing else.
pub proof fn law_requester_is_told_why_there_is_no_peer(
    srv: ServerView,
    sh: SharedView,
    id: Seq<char>,
    nat_type: i32,
    from: EndpointView,
    ws: bool,
    now: u64,
)
    requires
        !sh.peers.contains_key(id) || !sh.peers[id].online(now),
    ensures
        ({
            let r = punched(srv, sh, id, nat_type, from, ws, now);
            &&& r.to is None
            &&& r.state == sh
            &&& r.msg matches OutgoingView::PunchHoleResponse(p) && p.failure
                == (if sh.peers.contains_key(id) {
                PunchFailure::Offline
            } else {
                PunchFailure::IdNotExist
            }) && p.socket_addr is Empty && p.pk is None && p.union is Unset
                && p.relay_server.len() == 0 && p.other_failure.len() == 0
        }),
{
}

/// A request that is passed on to a peer is logged, under the time, the two IPs and the peer's id,
/// or is already in the log; and it takes one turn among the relay servers. Nothing else changes.
pub proof fn law_request_passed_on_is_logged(
    srv: ServerView,
    sh: SharedView,
    id: Seq<char>,
    nat_type: i32,
    from: EndpointView,
    ws: bool,
    now: u64,
)
    requires
        sh.peers.contains_key(id),
        sh.peers[id].online(now),
    ensures
        ({
            let s = punched(srv, sh, id, nat_type, from, ws, now).state;
            let entry = PunchReqView {
                tm: now,
                from_ip: from.key_ip_text,
                to_ip: sh.peers[id].socket_addr.key_ip_text,
                to_id: id,
            };
            &&& s.punch_reqs == sh.punch_reqs.push(entry) || s.punch_reqs == sh.punch_reqs && exists|
                i: int,
            |
                0 <= i < sh.punch_reqs.len() && (#[trigger] sh.punch_reqs[i]).from_ip
                    == from.key_ip_text && sh.punch_reqs[i].to_id == id && now
                    - sh.punch_reqs[i].tm < 60_000_000_000
            &&& (forall|i: int|
                0 <= i < sh.punch_reqs.len() ==> (#[trigger] sh.punch_reqs[i]).from_ip
                    != from.key_ip_text || sh.punch_reqs[i].to_id != id) ==> s.punch_reqs
                == sh.punch_reqs.push(entry)
            &&& s.rotation == relay_next(srv.relay_servers, sh.rotation)
            &&& s.always_use_relay == sh.always_use_relay && s.must_login == sh.must_login
                && s.routes == sh.routes && s.ip_blocker == sh.ip_blocker && s.ip_changes
                == sh.ip_changes && s.peers == sh.peers
        }),
{
    let log = sh.punch_reqs;
    if is_repeated(log, from.key_ip_text, id, now) {
        let i = choose|i: int| #[trigger]
            is_latest(log, i, from.key_ip_text, id) && spec_elapsed_secs(now, log[i].tm) < 60;
        assert(log[i].from_ip == from.key_ip_text && log[i].to_id == id);
    }
}

/// A request is let in exactly where it presents the server's key, if there is one, and, where a
/// login is required, a token; which has to be a good one if the server has a secret to tell.
pub proof fn law_who_is_let_in(
    ph: PunchHoleRequest,
    key: Seq<char>,
    must_login: bool,
    secret: Seq<char>,
    now: Now,
)
    ensures
        request_refusal(ph, key, must_login, secret, now) is None <==> (key.len() > 0
            ==> ph.licence_key@ == key) && (must_login ==> ph.token@.len() > 0 && (secret.len() > 0
            ==> token_good(ph.token@, secret, now))),
{
}

/// A token is good where it is signed with the secret, and carries a user id and an expiry, each a
/// number of its size, and the expiry is yet to come.
pub proof fn law_good_token_carries_its_claims(token: Seq<char>, secret: Seq<char>, now: Now)
    ensures
        token_good(token, secret, now) <==> (signed_claims(token, secret) matches Some(
            (Some(user_id), Some(exp)),
        ) && user_id <= u32::MAX && exp <= usize::MAX && exp * 1_000_000_000 > now.wall),
{
}

/// Where no token is judged, the time makes no difference to who is let in; so that the calendar's
/// clock need not be set.
pub proof fn law_time_only_matters_to_a_token(
    ph: PunchHoleRequest,
    key: Seq<char>,
    must_login: bool,
    secret: Seq<char>,
    now: Now,
    later: Now,
)
    ensures
        !token_is_judged(ph, key, must_login, secret) ==> request_refusal(
            ph,
            key,
            must_login,
            secret,
            now,
        ) == request_refusal(ph, key, must_login, secret, later),
        token_is_judged(ph, key, must_login, secret) ==> must_login && secret.len() > 0
            && ph.token@.len() > 0 && (key.len() > 0 ==> ph.licence_key@ == key),
{
}

/// A refused request is told why, and nothing but that: a wrong licence in the response's failure,
/// a missing or a bad token in a text of its own.
pub proof fn law_refusal_tells_the_reason(r: Refusal)
    ensures
        refusal_response(r) matches OutgoingView::PunchHoleResponse(p) && p.socket_addr is Empty
            && p.pk is None && p.union is Unset && p.relay_server.len() == 0 && (match r {
            Refusal::Licence => p.failure == PunchFailure::LicenseMismatch && p.other_failure.len()
                == 0,
            Refusal::NoToken => p.failure == PunchFailure::Unset && p.other_failure
                == "Connection failed, please login!"@,
            Refusal::BadToken => p.failure == PunchFailure::Unset && p.other_failure
                == "Token error, please log out and log back in!"@,
        }),
{
}

/// Where the server uses its own key and shows it, who does not present its public half is turned
/// away for that; where it does not show it, nobody is.
pub proof fn law_shown_key_has_to_be_presented(
    shown: bool,
    pk: Seq<char>,
    ph: PunchHoleRequest,
    must_login: bool,
    secret: Seq<char>,
    now: Now,
)
    requires
        pk.len() > 0,
    ensures
        request_refusal(ph, presented_key(shown, pk), must_login, secret, now) == Some(
            Refusal::Licence,
        ) <==> shown && ph.licence_key@ != pk,
{
}

} // verus!
