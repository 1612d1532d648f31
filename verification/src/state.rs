//! What all connections share, and the registration of a peer's key.
use vstd::prelude::*;
use vstd::utf8::encode_utf8;

use crate::addr::{Endpoint, EndpointView};
use crate::clock::spec_elapsed_secs;
use crate::limits::{
    change_noted, ip_allows, ip_counted, IpBlocker, IpChangeView, IpChanges, IpCountersView,
};
use crate::message::{dup_bytes, Action, ActionView, RegisterPk, RegisterPkResult};
use crate::peer::{
    is_online, peer_or_unknown, KeyCheck, PeerMap, PeerView, KEY_REGISTRATION_DUR,
};
use crate::punch_log::{PunchLog, PunchReqView};
use crate::routes::{Routes, RoutesView};

verus! {

/// An id of fewer bytes than this belongs to nobody.
pub const MIN_ID_LEN: usize = 6;

/// The state that all connections share.
pub struct Shared {
    pub always_use_relay: bool,
    pub must_login: bool,
    /// Whose turn it is among the relay servers.
    pub rotation: usize,
    pub routes: Routes,
    pub punch_reqs: PunchLog,
    pub ip_blocker: IpBlocker,
    pub ip_changes: IpChanges,
    pub peers: PeerMap,
}

#[verifier::ext_equal]
pub struct SharedView {
    pub always_use_relay: bool,
    pub must_login: bool,
    pub rotation: usize,
    pub routes: RoutesView,
    pub punch_reqs: Seq<PunchReqView>,
    pub ip_blocker: Seq<(Seq<char>, IpCountersView)>,
    pub ip_changes: Seq<(Seq<char>, IpChangeView)>,
    pub peers: Map<Seq<char>, PeerView>,
}

impl View for Shared {
    type V = SharedView;

    open spec fn view(&self) -> SharedView {
        SharedView {
            always_use_relay: self.always_use_relay,
            must_login: self.must_login,
            rotation: self.rotation,
            routes: self.routes@,
            punch_reqs: self.punch_reqs@,
            ip_blocker: self.ip_blocker@,
            ip_changes: self.ip_changes@,
            peers: self.peers@,
        }
    }
}

/// What a key registration comes to.
#[verifier::ext_equal]
pub struct Registration {
    /// The answer; `None` is silence.
    pub result: Option<RegisterPkResult>,
    /// The state afterwards.
    pub state: SharedView,
    /// The record goes to the store.
    pub stored: bool,
}

/// What comes of `rk`, presented from `from` over a websocket (`ws`) or otherwise. `dur` is the
/// time in seconds over which a peer's changes of address are collected.
///
/// A registration without a uuid or a key is met with silence. An id that is too short, a uuid
/// other than the known one, and an IP and key that both changed are a mismatch. An address, or a
/// peer, that registers too often is told so. Otherwise the key is taken; the record is written
/// where it changed, and in any case over a websocket, whose registration is its heartbeat too.
pub open spec fn registration(
    sh: SharedView,
    rk: RegisterPk,
    from: EndpointView,
    ws: bool,
    now: u64,
    dur: u64,
) -> Registration {
    let id = rk.id@;
    let ip = from.ip_text;
    if rk.uuid@.len() == 0 || rk.pk@.len() == 0 {
        Registration { result: None, state: sh, stored: false }
    } else if encode_utf8(id).len() < MIN_ID_LEN {
        Registration { result: Some(RegisterPkResult::UuidMismatch), state: sh, stored: false }
    } else {
        let counted = SharedView { ip_blocker: ip_counted(sh.ip_blocker, ip, id, now), ..sh };
        let p = peer_or_unknown(sh.peers, id);
        if !ip_allows(sh.ip_blocker, ip, id, now) {
            Registration {
                result: Some(RegisterPkResult::TooFrequent),
                state: counted,
                stored: false,
            }
        } else {
            match p.key_check(rk.uuid@, rk.pk@, ip) {
                KeyCheck::Mismatch => Registration {
                    result: Some(RegisterPkResult::UuidMismatch),
                    state: counted,
                    stored: false,
                },
                KeyCheck::Fine { changed, ip_changed } => if p.key_too_frequent(now) {
                    Registration {
                        result: Some(RegisterPkResult::TooFrequent),
                        state: counted,
                        stored: false,
                    }
                } else {
                    let stored = changed || ws;
                    let q = if stored {
                        p.key_counted(now).key_filed(from, rk.uuid@, rk.pk@, now)
                    } else {
                        p.key_counted(now)
                    };
                    Registration {
                        result: Some(RegisterPkResult::Accepted),
                        state: SharedView {
                            peers: sh.peers.insert(id, q),
                            ip_changes: if ip_changed {
                                change_noted(sh.ip_changes, id, ip, now, dur)
                            } else {
                                sh.ip_changes
                            },
                            ..counted
                        },
                        stored,
                    }
                },
            }
        }
    }
}

/// The order to write the record of `rk` to the store.
pub open spec fn store_order(rk: RegisterPk, from: EndpointView) -> ActionView {
    ActionView::Store { id: rk.id@, uuid: rk.uuid@, pk: rk.pk@, ip: from.ip_text }
}

impl Shared {
    /// The parts are as they should be.
    pub open spec fn wf(&self) -> bool {
        &&& self.routes.wf()
        &&& self.ip_blocker.wf()
        &&& self.ip_changes.wf()
        &&& self.peers.wf()
    }

    /// The state at the start.
    pub fn new(always_use_relay: bool, must_login: bool) -> (r: Shared)
        ensures
            r.wf(),
            r@ == (SharedView {
                always_use_relay,
                must_login,
                rotation: 0,
                routes: RoutesView {
                    ws_peers: Map::empty(),
                    tcp_punch: Map::empty(),
                    next_conn: 0,
                },
                punch_reqs: Seq::empty(),
                ip_blocker: Seq::empty(),
                ip_changes: Seq::empty(),
                peers: Map::empty(),
            }),
    {
        Shared {
            always_use_relay,
            must_login,
            rotation: 0,
            routes: Routes::new(),
            punch_reqs: PunchLog::new(),
            ip_blocker: IpBlocker::new(),
            ip_changes: IpChanges::new(),
            peers: PeerMap::new(),
        }
    }

    /// Whether the peer's record would be looked up to register `rk`, and is not in memory.
    pub fn registration_needs(&self, rk: &RegisterPk, from: &Endpoint, now: u64) -> (r: bool)
        requires
            self.wf(),
        ensures
            r == (rk.uuid@.len() > 0 && rk.pk@.len() > 0 && encode_utf8(rk.id@).len() >= MIN_ID_LEN
                && ip_allows(self@.ip_blocker, from@.ip_text, rk.id@, now)
                && !self@.peers.contains_key(rk.id@)),
    {
        rk.uuid.len() > 0 && rk.pk.len() > 0 && rk.id.as_str().as_bytes().len() >= MIN_ID_LEN
            && self.ip_blocker.allows(from.ip_text.as_str(), rk.id.as_str(), now)
            && !self.peers.has(rk.id.as_str())
    }

    /// Validates and records a key registration. No answer means that none is to be given: a
    /// malformed registration may come from a source that is not what it says. The order, if there
    /// is one, is to write the record to the store.
    pub fn handle_register_pk(
        &mut self,
        rk: RegisterPk,
        from: &Endpoint,
        ws: bool,
        now: u64,
        dur: u64,
    ) -> (r: (Option<RegisterPkResult>, Option<Action>))
        requires
            old(self).wf(),
        ensures
            final(self).wf(),
            r.0 == registration(old(self)@, rk, from@, ws, now, dur).result,
            final(self)@ == registration(old(self)@, rk, from@, ws, now, dur).state,
            match r.1 {
                Some(a) => registration(old(self)@, rk, from@, ws, now, dur).stored && a@
                    == store_order(rk, from@),
                None => !registration(old(self)@, rk, from@, ws, now, dur).stored,
            },
    {
        let ghost before = self@;
        if rk.uuid.len() == 0 || rk.pk.len() == 0 {
            return (None, None);
        }
        if rk.id.as_str().as_bytes().len() < MIN_ID_LEN {
            return (Some(RegisterPkResult::UuidMismatch), None);
        }
        let ip = from.ip_text.clone();
        if !self.ip_blocker.check_ip_blocker(ip.as_str(), rk.id.as_str(), now) {
            return (Some(RegisterPkResult::TooFrequent), None);
        }
        let ghost p = peer_or_unknown(before.peers, rk.id@);
        proof {
            if before.peers.contains_key(rk.id@) {
                assert(before.peers.insert(rk.id@, p) =~= before.peers);
            }
        }
        let peer = self.peers.get_or(rk.id.as_str());
        let check = peer.check_key(&rk.uuid, &rk.pk, &ip);
        match check {
            KeyCheck::Mismatch => (Some(RegisterPkResult::UuidMismatch), None),
            KeyCheck::Fine { changed, ip_changed } => {
                if !peer.count_key(now) {
                    return (Some(RegisterPkResult::TooFrequent), None);
                }
                let stored = changed || ws;
                let order = if stored {
                    peer.file_key(from, dup_bytes(&rk.uuid), dup_bytes(&rk.pk), now);
                    Some(
                        Action::Store {
                            id: rk.id.clone(),
                            uuid: dup_bytes(&rk.uuid),
                            pk: dup_bytes(&rk.pk),
                            ip: ip.clone(),
                        },
                    )
                } else {
                    None
                };
                if ip_changed {
                    self.ip_changes.note(rk.id.as_str(), ip.as_str(), now, dur);
                }
                (Some(RegisterPkResult::Accepted), order)
            },
        }
    }
}

/// A registration without a uuid or a key is met with silence, and leaves no trace.
pub proof fn law_malformed_registration_leaves_no_trace(
    sh: SharedView,
    rk: RegisterPk,
    from: EndpointView,
    ws: bool,
    now: u64,
    dur: u64,
)
    requires
        rk.uuid@.len() == 0 || rk.pk@.len() == 0,
    ensures
        registration(sh, rk, from, ws, now, dur).result is None,
        registration(sh, rk, from, ws, now, dur).state == sh,
        !registration(sh, rk, from, ws, now, dur).stored,
{
}

/// Nobody takes over an id: a registration that is refused leaves every peer's record as it was,
/// and one with another uuid than the known one is refused.
pub proof fn law_refused_registration_changes_no_peer(
    sh: SharedView,
    rk: RegisterPk,
    from: EndpointView,
    ws: bool,
    now: u64,
    dur: u64,
)
    ensures
        registration(sh, rk, from, ws, now, dur).result != Some(RegisterPkResult::Accepted)
            ==> registration(sh, rk, from, ws, now, dur).state.peers == sh.peers && registration(
            sh,
            rk,
            from,
            ws,
            now,
            dur,
        ).state.ip_changes == sh.ip_changes && !registration(sh, rk, from, ws, now, dur).stored,
        sh.peers.contains_key(rk.id@) && sh.peers[rk.id@].uuid.len() > 0 && sh.peers[rk.id@].uuid
            != rk.uuid@ ==> registration(sh, rk, from, ws, now, dur).result != Some(
            RegisterPkResult::Accepted,
        ),
{
}

/// A registration touches the record of its own id and no other, and nothing of the routes, the
/// options and the log.
pub proof fn law_registration_is_local(
    sh: SharedView,
    rk: RegisterPk,
    from: EndpointView,
    ws: bool,
    now: u64,
    dur: u64,
    other: Seq<char>,
)
    requires
        other != rk.id@,
    ensures
        registration(sh, rk, from, ws, now, dur).state.peers.contains_key(other)
            == sh.peers.contains_key(other),
        sh.peers.contains_key(other) ==> registration(sh, rk, from, ws, now, dur).state.peers[other]
            == sh.peers[other],
        registration(sh, rk, from, ws, now, dur).state.routes == sh.routes,
        registration(sh, rk, from, ws, now, dur).state.punch_reqs == sh.punch_reqs,
        registration(sh, rk, from, ws, now, dur).state.must_login == sh.must_login,
        registration(sh, rk, from, ws, now, dur).state.always_use_relay == sh.always_use_relay,
        registration(sh, rk, from, ws, now, dur).state.rotation == sh.rotation,
{
}

/// An accepted registration that is filed puts the peer online, under the address that it came
/// from; over a websocket every accepted registration is filed.
pub proof fn law_accepted_websocket_registration_is_a_heartbeat(
    sh: SharedView,
    rk: RegisterPk,
    from: EndpointView,
    now: u64,
    dur: u64,
)
    requires
        registration(sh, rk, from, true, now, dur).result == Some(RegisterPkResult::Accepted),
    ensures
        registration(sh, rk, from, true, now, dur).stored,
        is_online(registration(sh, rk, from, true, now, dur).state.peers, rk.id@, now),
        registration(sh, rk, from, true, now, dur).state.peers[rk.id@].socket_addr == from,
        registration(sh, rk, from, true, now, dur).state.peers[rk.id@].pk == rk.pk@,
{
}

/// A peer whose key was filed is not asked for it when it is heard from the same address again,
/// and then counts as online.
pub proof fn law_heartbeat_after_registration_needs_no_key(
    sh: SharedView,
    rk: RegisterPk,
    from: EndpointView,
    ws: bool,
    now: u64,
    dur: u64,
    later: u64,
)
    requires
        registration(sh, rk, from, ws, now, dur).stored,
    ensures
        ({
            let p = registration(sh, rk, from, ws, now, dur).state.peers[rk.id@];
            &&& !p.must_show_key(from)
            &&& p.heard(from, later).online(later)
        }),
{
}

/// A peer may present its key three times within a few seconds, and not a fourth time.
pub proof fn law_fourth_key_in_a_row_is_too_frequent(p: PeerView, t1: u64, t2: u64, t3: u64, t4: u64)
    requires
        p.reg_pk.0 == 0 || spec_elapsed_secs(t1, p.reg_pk.1)
            > KEY_REGISTRATION_DUR,
        spec_elapsed_secs(t2, t1) <= KEY_REGISTRATION_DUR,
        spec_elapsed_secs(t3, t2) <= KEY_REGISTRATION_DUR,
        spec_elapsed_secs(t4, t3) <= KEY_REGISTRATION_DUR,
    ensures
        !p.key_too_frequent(t1),
        !p.key_counted(t1).key_too_frequent(t2),
        !p.key_counted(t1).key_counted(t2).key_too_frequent(t3),
        p.key_counted(t1).key_counted(t2).key_counted(t3).key_too_frequent(t4),
{
}

/// A key registration is accepted exactly where it is well formed, the id is one, its address may
/// register it, the peer has not registered too often of late, and it does not contradict what is on
/// record of the peer: the uuid is the same, and so is the IP or the key.
pub proof fn law_which_registrations_are_accepted(
    sh: SharedView,
    rk: RegisterPk,
    from: EndpointView,
    ws: bool,
    now: u64,
    dur: u64,
)
    ensures
        registration(sh, rk, from, ws, now, dur).result == Some(RegisterPkResult::Accepted)
            <==> rk.uuid@.len() > 0 && rk.pk@.len() > 0 && encode_utf8(rk.id@).len() >= 6
            && ip_allows(sh.ip_blocker, from.ip_text, rk.id@, now) && (sh.peers.contains_key(rk.id@)
            ==> {
            let p = sh.peers[rk.id@];
            &&& p.uuid.len() > 0 ==> p.uuid == rk.uuid@ && (p.ip == from.ip_text || p.pk == rk.pk@)
            &&& p.reg_pk.0 < 3 || now - p.reg_pk.1 >= 7_000_000_000
        }),
{
}

/// Every registration that is not accepted is told why. One without a uuid or a key gets no answer.
/// Then an id that is too short is a mismatch; an address that may not register is told that it is
/// too frequent; what contradicts the record is a mismatch; and what is left is too frequent.
pub proof fn law_why_registrations_are_refused(
    sh: SharedView,
    rk: RegisterPk,
    from: EndpointView,
    ws: bool,
    now: u64,
    dur: u64,
)
    ensures
        ({
            let r = registration(sh, rk, from, ws, now, dur);
            let formed = rk.uuid@.len() > 0 && rk.pk@.len() > 0;
            let long = encode_utf8(rk.id@).len() >= 6;
            let allowed = ip_allows(sh.ip_blocker, from.ip_text, rk.id@, now);
            let p = sh.peers[rk.id@];
            let contradicts = sh.peers.contains_key(rk.id@) && p.uuid.len() > 0 && (p.uuid
                != rk.uuid@ || (p.ip != from.ip_text && p.pk != rk.pk@));
            &&& r.result is None <==> !formed
            &&& formed && !long ==> r.result == Some(RegisterPkResult::UuidMismatch)
            &&& formed && long && !allowed ==> r.result == Some(RegisterPkResult::TooFrequent)
            &&& formed && long && allowed && contradicts ==> r.result == Some(
                RegisterPkResult::UuidMismatch,
            )
            &&& formed && long && allowed && !contradicts ==> r.result == Some(
                RegisterPkResult::Accepted,
            ) || r.result == Some(RegisterPkResult::TooFrequent)
        }),
{
}

/// A peer that nobody has heard of is taken in, where its address may register it: with its uuid and
/// key, at the address that it came from, online, and with its record on the way to the store.
pub proof fn law_new_peer_is_taken_in(
    sh: SharedView,
    rk: RegisterPk,
    from: EndpointView,
    ws: bool,
    now: u64,
    dur: u64,
)
    requires
        rk.uuid@.len() > 0,
        rk.pk@.len() > 0,
        encode_utf8(rk.id@).len() >= 6,
        ip_allows(sh.ip_blocker, from.ip_text, rk.id@, now),
        !sh.peers.contains_key(rk.id@),
    ensures
        ({
            let r = registration(sh, rk, from, ws, now, dur);
            let q = r.state.peers[rk.id@];
            &&& r.result == Some(RegisterPkResult::Accepted)
            &&& r.stored
            &&& r.state.peers.contains_key(rk.id@)
            &&& q.uuid == rk.uuid@ && q.pk == rk.pk@ && q.ip == from.ip_text
            &&& q.socket_addr == from && q.last_reg == Some(now) && q.reg_pk == (1u32, now)
            &&& r.state.ip_changes == sh.ip_changes
        }),
{
}

/// An accepted registration is stored where it tells something new of the peer (it is its first one,
/// or the key or the IP is another), and in any case over a websocket. The record then says what was
/// registered, and that the peer is here. Otherwise it is as before. Either way it is counted.
pub proof fn law_accepted_registration_is_on_record(
    sh: SharedView,
    rk: RegisterPk,
    from: EndpointView,
    ws: bool,
    now: u64,
    dur: u64,
)
    requires
        registration(sh, rk, from, ws, now, dur).result == Some(RegisterPkResult::Accepted),
    ensures
        ({
            let r = registration(sh, rk, from, ws, now, dur);
            let known = sh.peers.contains_key(rk.id@) && sh.peers[rk.id@].uuid.len() > 0;
            let p = sh.peers[rk.id@];
            let q = r.state.peers[rk.id@];
            &&& r.state.peers.contains_key(rk.id@)
            &&& r.stored <==> ws || !known || p.pk != rk.pk@ || p.ip != from.ip_text
            &&& r.stored ==> q.uuid == rk.uuid@ && q.pk == rk.pk@ && q.ip == from.ip_text
                && q.socket_addr == from && q.last_reg == Some(now)
            &&& !r.stored ==> q.uuid == p.uuid && q.pk == p.pk && q.ip == p.ip && q.socket_addr
                == p.socket_addr && q.last_reg == p.last_reg
            &&& q.reg_pk.1 == now
            &&& q.reg_pk.0 == if sh.peers.contains_key(rk.id@) && now - p.reg_pk.1
                < 7_000_000_000 {
                (p.reg_pk.0 + 1) as u32
            } else {
                1u32
            }
        }),
{
}

/// A peer on record that registers from another IP has moved, and the move is noted under its id; no
/// other registration is taken for a move.
pub proof fn law_change_of_address_is_noted(
    sh: SharedView,
    rk: RegisterPk,
    from: EndpointView,
    ws: bool,
    now: u64,
    dur: u64,
)
    ensures
        ({
            let r = registration(sh, rk, from, ws, now, dur);
            let moved = r.result == Some(RegisterPkResult::Accepted) && sh.peers.contains_key(rk.id@)
                && sh.peers[rk.id@].uuid.len() > 0 && sh.peers[rk.id@].ip != from.ip_text;
            &&& moved ==> r.state.ip_changes == change_noted(
                sh.ip_changes,
                rk.id@,
                from.ip_text,
                now,
                dur,
            )
            &&& !moved ==> r.state.ip_changes == sh.ip_changes
        }),
{
}

/// Each registration that is well formed and for a possible id is counted for the address that it
/// came from, accepted or not.
pub proof fn law_registrations_count_for_their_address(
    sh: SharedView,
    rk: RegisterPk,
    from: EndpointView,
    ws: bool,
    now: u64,
    dur: u64,
)
    ensures
        ({
            let r = registration(sh, rk, from, ws, now, dur);
            let counts = rk.uuid@.len() > 0 && rk.pk@.len() > 0 && encode_utf8(rk.id@).len() >= 6;
            &&& counts ==> r.state.ip_blocker == ip_counted(
                sh.ip_blocker,
                from.ip_text,
                rk.id@,
                now,
            )
            &&& !counts ==> r.state == sh && !r.stored
        }),
{
}

/// What goes to the store is what was registered, under the peer's id and with the IP that it came
/// from.
pub proof fn law_what_is_stored(rk: RegisterPk, from: EndpointView)
    ensures
        store_order(rk, from) matches ActionView::Store { id, uuid, pk, ip } && id == rk.id@ && uuid
            == rk.uuid@ && pk == rk.pk@ && ip == from.ip_text,
{
}

} // verus!
