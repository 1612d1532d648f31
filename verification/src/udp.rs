//! What datagrams, and the helper port, bring in and get back.
use vstd::prelude::*;

use crate::addr::{Endpoint, EndpointView};
use crate::message::{
    lemma_orders_push, opt_view, orders, texts, Action, ActionView, ConfigUpdateView, ConfigureUpdate,
    Incoming, Outgoing, OutgoingView, RegisterPeer, RegisterPk, SoftwareUpdate,
};
use crate::peer::are_online_states;
use crate::server::{RendezvousServer, ServerView};
use crate::state::{registration, store_order, Shared, SharedView};

verus! {

broadcast use lemma_orders_push;

/// A datagram to whom it came from.
pub open spec fn answer(from: EndpointView, msg: OutgoingView) -> ActionView {
    ActionView::Udp { to: from.addr, msg }
}

/// Those of `servers` that are not empty.
pub open spec fn named_servers(servers: Seq<Seq<char>>) -> Seq<Seq<char>> {
    servers.filter(|s: Seq<char>| s.len() > 0)
}

/// The state after a datagram.
pub open spec fn datagram_state(
    sh: SharedView,
    msg: Incoming,
    from: EndpointView,
    now: u64,
    dur: u64,
) -> SharedView {
    match msg {
        Incoming::RegisterPeer(rp) => if rp.id@.len() > 0 && sh.peers.contains_key(rp.id@) {
            SharedView {
                peers: sh.peers.insert(rp.id@, sh.peers[rp.id@].heard(from, now)),
                ..sh
            }
        } else {
            sh
        },
        Incoming::RegisterPk(rk) => registration(sh, rk, from, false, now, dur).state,
        _ => sh,
    }
}

/// The orders that a datagram leads to. A heartbeat is answered, and so is a registration unless it
/// is malformed. A new list of servers is only taken from this machine, and only where it is newer.
/// A peer whose software is not the current one is told where to find that. Requests to be
/// connected, and answers to them, are not taken as datagrams, whose sender could be anybody.
pub open spec fn datagram_orders(
    srv: ServerView,
    sh: SharedView,
    msg: Incoming,
    from: EndpointView,
    now: u64,
    dur: u64,
) -> Seq<ActionView> {
    match msg {
        Incoming::RegisterPeer(rp) => if rp.id@.len() == 0 {
            Seq::empty()
        } else {
            let response = answer(
                from,
                OutgoingView::RegisterPeerResponse {
                    request_pk: sh.peers.contains_key(rp.id@)
                        ==> sh.peers[rp.id@].must_show_key(from),
                },
            );
            if srv.serial > rp.serial {
                seq![response, answer(from, OutgoingView::ConfigureUpdate(srv.config_update()))]
            } else {
                seq![response]
            }
        },
        Incoming::RegisterPk(rk) => {
            let r = registration(sh, rk, from, false, now, dur);
            let stored = if r.stored {
                seq![store_order(rk, from)]
            } else {
                Seq::empty()
            };
            match r.result {
                Some(result) => stored.push(
                    answer(from, OutgoingView::RegisterPkResponse { result }),
                ),
                None => Seq::empty(),
            }
        },
        Incoming::ConfigureUpdate(cu) => if from.key.spec_ip().spec_is_loopback() && cu.serial
            > srv.serial {
            seq![
                ActionView::CheckServers {
                    serial: cu.serial,
                    servers: named_servers(texts(cu.rendezvous_servers@)),
                },
            ]
        } else {
            Seq::empty()
        },
        Incoming::SoftwareUpdate(su) => if srv.version.len() > 0 && su.url@ != srv.version {
            seq![answer(from, OutgoingView::SoftwareUpdate { url: srv.software_url })]
        } else {
            Seq::empty()
        },
        _ => Seq::empty(),
    }
}

/// `r` is what the helper port answers to the message: how the sender's address looks from here, or
/// who is online; and nothing to any other message.
pub open spec fn is_helpers_answer(
    r: Option<OutgoingView>,
    sh: SharedView,
    msg: Incoming,
    from: EndpointView,
    now: u64,
) -> bool {
    match msg {
        Incoming::TestNatRequest(_) => r == Some(
            OutgoingView::TestNatResponse { port: from.addr.spec_port(), cu: None },
        ),
        Incoming::OnlineRequest(or) => r matches Some(OutgoingView::OnlineResponse { states })
            && are_online_states(states, sh.peers, texts(or.peers@), now),
        _ => r is None,
    }
}

/// Those of the servers that are not empty.
fn named(servers: &Vec<String>) -> (r: Vec<String>)
    ensures
        texts(r@) == named_servers(texts(servers@)),
{
    let ghost all = texts(servers@);
    let ghost p = |s: Seq<char>| s.len() > 0;
    let mut r: Vec<String> = Vec::new();
    let mut i: usize = 0;
    proof {
        reveal(Seq::filter);
        assert(texts(r@) =~= all.take(0).filter(p));
    }
    while i < servers.len()
        invariant
            i <= servers@.len(),
            all == texts(servers@),
            p == (|s: Seq<char>| s.len() > 0),
            texts(r@) == all.take(i as int).filter(p),
        decreases servers@.len() - i,
    {
        let ghost before = texts(r@);
        proof {
            reveal(Seq::filter);
            assert(all.take(i + 1).drop_last() =~= all.take(i as int));
            assert(all.take(i + 1).last() == all[i as int]);
        }
        if !servers[i].as_str().is_empty() {
            r.push(servers[i].clone());
            assert(texts(r@) =~= before.push(all[i as int]));
        }
        i += 1;
    }
    assert(all.take(i as int) =~= all);
    r
}

impl RendezvousServer {
    /// Handles a datagram.
    pub fn handle_udp(
        &self,
        sh: &mut Shared,
        msg: Incoming,
        from: &Endpoint,
        now: u64,
        dur: u64,
    ) -> (r: Vec<Action>)
        requires
            old(sh).wf(),
        ensures
            final(sh).wf(),
            final(sh)@ == datagram_state(old(sh)@, msg, from@, now, dur),
            orders(r@) == datagram_orders(self@, old(sh)@, msg, from@, now, dur),
    {
        let mut actions: Vec<Action> = Vec::new();
        assert(orders(actions@) =~= Seq::<ActionView>::empty());
        match msg {
            Incoming::RegisterPeer(rp) => {
                if !rp.id.as_str().is_empty() {
                    let request_pk = sh.peers.update_addr(rp.id.as_str(), from, now);
                    actions.push(
                        Action::Udp {
                            to: from.addr,
                            msg: Outgoing::RegisterPeerResponse { request_pk },
                        },
                    );
                    if self.inner.serial > rp.serial {
                        actions.push(
                            Action::Udp {
                                to: from.addr,
                                msg: Outgoing::ConfigureUpdate(self.config_update()),
                            },
                        );
                    }
                }
            },
            Incoming::RegisterPk(rk) => {
                let (result, store) = sh.handle_register_pk(rk, from, false, now, dur);
                if let Some(store) = store {
                    actions.push(store);
                }
                if let Some(result) = result {
                    actions.push(
                        Action::Udp {
                            to: from.addr,
                            msg: Outgoing::RegisterPkResponse { result },
                        },
                    );
                }
            },
            Incoming::ConfigureUpdate(cu) => {
                if from.key.ip().is_loopback() && cu.serial > self.inner.serial {
                    actions.push(
                        Action::CheckServers {
                            serial: cu.serial,
                            servers: named(&cu.rendezvous_servers),
                        },
                    );
                }
            },
            Incoming::SoftwareUpdate(su) => {
                if !self.inner.version.as_str().is_empty() && su.url != self.inner.version {
                    actions.push(
                        Action::Udp {
                            to: from.addr,
                            msg: Outgoing::SoftwareUpdate { url: self.inner.software_url.clone() },
                        },
                    );
                }
            },
            _ => {},
        }
        assert(orders(actions@) =~= datagram_orders(self@, old(sh)@, msg, from@, now, dur));
        actions
    }

    /// Handles a message to the helper port, which answers anybody: how the sender's address looks
    /// from here, and who is online.
    pub fn handle_listener2(&self, sh: &Shared, msg: Incoming, from: &Endpoint, now: u64) -> (r:
        Option<Outgoing>)
        requires
            sh.wf(),
        ensures
            is_helpers_answer(opt_view(r), sh@, msg, from@, now),
    {
        match msg {
            Incoming::TestNatRequest(_) => Some(
                Outgoing::TestNatResponse { port: from.addr.port(), cu: None },
            ),
            Incoming::OnlineRequest(or) => Some(self.handle_online_request(sh, &or.peers, now)),
            _ => None,
        }
    }
}

/// Whether a connection to the helper port is one to the console: it comes from this machine.
pub fn is_console(from: &Endpoint) -> (r: bool)
    ensures
        r == from@.key.spec_ip().spec_is_loopback(),
{
    from.key.ip().is_loopback()
}

/// A datagram is never answered to anyone but its sender, and to the sender with no more than two
/// datagrams.
pub proof fn law_datagrams_only_answer_their_sender(
    srv: ServerView,
    sh: SharedView,
    msg: Incoming,
    from: EndpointView,
    now: u64,
    dur: u64,
    i: int,
)
    requires
        0 <= i < datagram_orders(srv, sh, msg, from, now, dur).len(),
    ensures
        datagram_orders(srv, sh, msg, from, now, dur).len() <= 2,
        match datagram_orders(srv, sh, msg, from, now, dur)[i] {
            ActionView::Udp { to, .. } => to == from.addr,
            ActionView::Store { .. } => msg is RegisterPk,
            ActionView::CheckServers { .. } => from.key.spec_ip().spec_is_loopback(),
            _ => false,
        },
{
}

/// Requests to be connected, and the answers to them, have no effect as datagrams.
pub proof fn law_punching_is_not_done_by_datagram(
    srv: ServerView,
    sh: SharedView,
    msg: Incoming,
    from: EndpointView,
    now: u64,
    dur: u64,
)
    requires
        msg is PunchHoleRequest || msg is PunchHoleSent || msg is LocalAddr || msg is RequestRelay
            || msg is RelayResponse,
    ensures
        datagram_state(sh, msg, from, now, dur) == sh,
        datagram_orders(srv, sh, msg, from, now, dur).len() == 0,
{
}

/// The list of servers only moves forward, and only at the word of this machine.
pub proof fn law_configuration_only_moves_forward(
    srv: ServerView,
    sh: SharedView,
    msg: Incoming,
    from: EndpointView,
    now: u64,
    dur: u64,
    i: int,
)
    requires
        0 <= i < datagram_orders(srv, sh, msg, from, now, dur).len(),
    ensures
        datagram_orders(srv, sh, msg, from, now, dur)[i] matches ActionView::CheckServers {
            serial,
            servers,
        } ==> serial > srv.serial && from.key.spec_ip().spec_is_loopback(),
{
}

/// A heartbeat by datagram of a peer in memory that is not asked for its key makes the address that
/// it came from the one at which the peer is reached, from now on; every other record, and whatever
/// else is on record of this one, stays. Any other heartbeat leaves all as it was. The answer, which
/// goes back to where the heartbeat came from, says which of the two it was.
pub proof fn law_heartbeat_by_datagram_is_heard(
    srv: ServerView,
    sh: SharedView,
    rp: RegisterPeer,
    from: EndpointView,
    now: u64,
    dur: u64,
    id: Seq<char>,
)
    ensures
        ({
            let s = datagram_state(sh, Incoming::RegisterPeer(rp), from, now, dur);
            let a = datagram_orders(srv, sh, Incoming::RegisterPeer(rp), from, now, dur);
            let asked = sh.peers.contains_key(rp.id@) ==> sh.peers[rp.id@].must_show_key(from);
            let was = sh.peers[rp.id@];
            let is = s.peers[rp.id@];
            &&& rp.id@.len() > 0 && !asked ==> s.peers.contains_key(rp.id@) && is.socket_addr == from
                && is.last_reg == Some(now) && is.uuid == was.uuid && is.pk == was.pk && is.ip
                == was.ip && is.reg_pk == was.reg_pk
            &&& rp.id@.len() == 0 || asked ==> s == sh
            &&& s.peers.contains_key(id) == sh.peers.contains_key(id)
            &&& id != rp.id@ ==> s.peers[id] == sh.peers[id]
            &&& s == (SharedView { peers: s.peers, ..sh })
            &&& rp.id@.len() > 0 ==> a.len() > 0 && a[0] == (ActionView::Udp {
                to: from.addr,
                msg: OutgoingView::RegisterPeerResponse { request_pk: asked },
            })
            &&& rp.id@.len() == 0 ==> a.len() == 0
        }),
{
    if sh.peers.contains_key(rp.id@) && sh.peers[rp.id@].must_show_key(from) {
        assert(sh.peers.insert(rp.id@, sh.peers[rp.id@]) =~= sh.peers);
    }
}

/// A heartbeat whose serial is older than ours is told the list of rendezvous servers, after the
/// answer; any other heartbeat gets the answer alone.
pub proof fn law_heartbeat_by_datagram_brings_the_newer_list(
    srv: ServerView,
    sh: SharedView,
    rp: RegisterPeer,
    from: EndpointView,
    now: u64,
    dur: u64,
)
    requires
        rp.id@.len() > 0,
    ensures
        ({
            let a = datagram_orders(srv, sh, Incoming::RegisterPeer(rp), from, now, dur);
            &&& rp.serial >= srv.serial ==> a.len() == 1
            &&& rp.serial < srv.serial ==> a.len() == 2 && a[1] == (ActionView::Udp {
                to: from.addr,
                msg: OutgoingView::ConfigureUpdate(
                    ConfigUpdateView {
                        serial: srv.serial,
                        rendezvous_servers: srv.rendezvous_servers,
                    },
                ),
            })
        }),
{
}

/// A key that is registered by datagram is treated as on a plain connection, and what that comes to
/// is what its sender is told; the record goes to the store before that, where it is to be stored.
/// A malformed registration gets no answer.
pub proof fn law_registration_by_datagram_is_answered(
    srv: ServerView,
    sh: SharedView,
    rk: RegisterPk,
    from: EndpointView,
    now: u64,
    dur: u64,
)
    ensures
        ({
            let r = registration(sh, rk, from, false, now, dur);
            let a = datagram_orders(srv, sh, Incoming::RegisterPk(rk), from, now, dur);
            &&& datagram_state(sh, Incoming::RegisterPk(rk), from, now, dur) == r.state
            &&& r.result is None ==> a.len() == 0
            &&& r.result matches Some(result) ==> a.len() == (if r.stored {
                2int
            } else {
                1
            }) && a.last() == (ActionView::Udp {
                to: from.addr,
                msg: OutgoingView::RegisterPkResponse { result },
            })
            &&& r.result is Some && r.stored ==> a[0] == (ActionView::Store {
                id: rk.id@,
                uuid: rk.uuid@,
                pk: rk.pk@,
                ip: from.ip_text,
            })
        }),
{
}

/// A list of servers that comes from this machine, with a newer serial than ours, is taken up under
/// that serial: those of the servers that are named at all, in their order, are to be looked at. Any
/// other list is dropped.
pub proof fn law_newer_list_from_here_is_taken_up(
    srv: ServerView,
    sh: SharedView,
    cu: ConfigureUpdate,
    from: EndpointView,
    now: u64,
    dur: u64,
)
    ensures
        ({
            let a = datagram_orders(srv, sh, Incoming::ConfigureUpdate(cu), from, now, dur);
            let all = texts(cu.rendezvous_servers@);
            &&& from.key.spec_ip().spec_is_loopback() && cu.serial > srv.serial ==> a.len() == 1 && (
            a[0] matches ActionView::CheckServers { serial, servers } && serial == cu.serial && (
            forall|s: Seq<char>| #[trigger]
                servers.contains(s) <==> all.contains(s) && s.len() > 0) && ((forall|i: int|
                0 <= i < all.len() ==> (#[trigger] all[i]).len() > 0) ==> servers == all))
            &&& !(from.key.spec_ip().spec_is_loopback() && cu.serial > srv.serial) ==> a.len() == 0
            &&& datagram_state(sh, Incoming::ConfigureUpdate(cu), from, now, dur) == sh
        }),
{
    let all = texts(cu.rendezvous_servers@);
    lemma_named_servers(all);
}

/// Leaving the empty names out leaves the others, and all of them where none is empty.
proof fn lemma_named_servers(all: Seq<Seq<char>>)
    ensures
        forall|s: Seq<char>| #[trigger]
            named_servers(all).contains(s) <==> all.contains(s) && s.len() > 0,
        (forall|i: int| 0 <= i < all.len() ==> (#[trigger] all[i]).len() > 0) ==> named_servers(all)
            == all,
    decreases all.len(),
{
    let p = |s: Seq<char>| s.len() > 0;
    reveal(Seq::filter);
    if all.len() > 0 {
        let front = all.drop_last();
        lemma_named_servers(front);
        assert(all =~= front.push(all.last()));
        assert forall|s: Seq<char>| #[trigger]
            named_servers(all).contains(s) <==> all.contains(s) && s.len() > 0 by {
            let kept = named_servers(front);
            if all.last().len() > 0 {
                assert(named_servers(all) == kept.push(all.last()));
                assert(kept.push(all.last()).contains(s) <==> kept.contains(s) || s == all.last())
                    by {
                    if s == all.last() {
                        assert(kept.push(all.last())[kept.len() as int] == s);
                    }
                    if kept.contains(s) {
                        let i = choose|i: int| 0 <= i < kept.len() && kept[i] == s;
                        assert(kept.push(all.last())[i] == s);
                    }
                }
            }
            if s == all.last() {
                assert(all[all.len() - 1] == s);
            }
            if front.contains(s) {
                let i = choose|i: int| 0 <= i < front.len() && front[i] == s;
                assert(all[i] == s);
            }
            if all.contains(s) && s != all.last() {
                let i = choose|i: int| 0 <= i < all.len() && all[i] == s;
                assert(front[i] == s);
            }
        }
        if forall|i: int| 0 <= i < all.len() ==> (#[trigger] all[i]).len() > 0 {
            assert forall|i: int| 0 <= i < front.len() implies (#[trigger] front[i]).len() > 0 by {
                assert(all[i] == front[i]);
            }
            assert(all[all.len() - 1].len() > 0);
            assert(named_servers(all) == named_servers(front).push(all.last()));
        }
    } else {
        assert(named_servers(all) =~= all);
    }
}

/// Who asks whether there is newer software, and does not have the version that the server knows of,
/// is told where to find that; anybody else gets no answer.
pub proof fn law_older_software_is_told_of_the_newer(
    srv: ServerView,
    sh: SharedView,
    su: SoftwareUpdate,
    from: EndpointView,
    now: u64,
    dur: u64,
)
    ensures
        ({
            let a = datagram_orders(srv, sh, Incoming::SoftwareUpdate(su), from, now, dur);
            &&& srv.version.len() > 0 && su.url@ != srv.version ==> a.len() == 1 && a[0] == (
            ActionView::Udp {
                to: from.addr,
                msg: OutgoingView::SoftwareUpdate { url: srv.software_url },
            })
            &&& srv.version.len() == 0 || su.url@ == srv.version ==> a.len() == 0
        }),
{
}

/// Only heartbeats and registrations change anything.
pub proof fn law_only_registrations_change_the_state(
    sh: SharedView,
    msg: Incoming,
    from: EndpointView,
    now: u64,
    dur: u64,
)
    requires
        msg !is RegisterPeer,
        msg !is RegisterPk,
    ensures
        datagram_state(sh, msg, from, now, dur) == sh,
{
}

/// The helper port tells who asks for it the port that the question came from, and nothing of the
/// configuration. It answers an online query as a connection does, and nothing else at all.
pub proof fn law_helper_answers_two_questions(
    r: Option<OutgoingView>,
    sh: SharedView,
    msg: Incoming,
    from: EndpointView,
    now: u64,
)
    requires
        is_helpers_answer(r, sh, msg, from, now),
    ensures
        msg is TestNatRequest ==> (r matches Some(OutgoingView::TestNatResponse { port, cu }) && port
            == from.addr.spec_port() && cu is None),
        msg matches Incoming::OnlineRequest(or) ==> (r matches Some(
            OutgoingView::OnlineResponse { states },
        ) && are_online_states(states, sh.peers, texts(or.peers@), now)),
        msg !is TestNatRequest && msg !is OnlineRequest ==> r is None,
{
}

} // verus!
