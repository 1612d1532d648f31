//! The life of a connection: how it starts, when a silent one is given up, and what is left of it
//! in the routes when it ends.
use vstd::prelude::*;

use crate::addr::SocketAddress;
use crate::clock::{elapsed_millis, spec_elapsed_millis};
use crate::keys::signed_message;
use crate::message::{opt_view, Outgoing, OutgoingView};
use crate::routes::{only_open, Routes, RoutesView};
use crate::server::{RendezvousServer, ServerView};
use crate::tcp::Conn;
use crate::text::has_char;

verus! {

/// Milliseconds of silence after which a websocket is asked for a sign of life.
pub const WS_PING_INTERVAL_MS: u64 = 30_000;

/// Milliseconds that a plain connection may take for a message.
pub const TCP_READ_TIMEOUT_MS: u64 = 30_000;

/// What happens on a websocket.
#[derive(Clone, Copy, Debug, PartialEq, Eq, Structural)]
pub enum WsEvent {
    /// Another task hands in a message for the peer.
    Pushed,
    /// No other task can hand in a message any more.
    Deaf,
    /// A frame has come in. A binary one is a message; others, such as the answer to a ping, are
    /// only a sign of life.
    Frame { binary: bool },
    /// The peer has closed the connection, or it broke.
    Ended,
    /// Nothing has come in for a while.
    Quiet,
}

/// What is to be done about it.
#[derive(Clone, Copy, Debug, PartialEq, Eq, Structural)]
pub enum WsAction {
    /// Write the message to the peer.
    Write,
    /// Handle the message.
    Handle,
    /// Go on waiting.
    Wait,
    /// Ask the peer for a sign of life, and go on waiting.
    Ping,
    /// Close the connection.
    Close,
}

/// When a websocket was last heard from, when its silence was last looked at, and how long it may be
/// silent.
#[derive(Clone, Copy, Debug, PartialEq, Eq, Structural)]
pub struct WsWatch {
    pub last_seen: u64,
    pub last_look: u64,
    pub idle_ms: u64,
}

impl WsWatch {
    /// A connection that was just accepted.
    pub fn new(idle_ms: u64, now: u64) -> (r: WsWatch)
        ensures
            r == (WsWatch { last_seen: now, last_look: now, idle_ms }),
    {
        WsWatch { last_seen: now, last_look: now, idle_ms }
    }

    /// How long a silence may go on before it is looked at, in milliseconds. A short timeout is
    /// looked at as often as it asks for.
    pub open spec fn spec_poll_ms(self) -> u64 {
        if self.idle_ms < WS_PING_INTERVAL_MS {
            self.idle_ms
        } else {
            WS_PING_INTERVAL_MS
        }
    }

    pub fn poll_ms(&self) -> (r: u64)
        ensures
            r == self.spec_poll_ms(),
    {
        if self.idle_ms < WS_PING_INTERVAL_MS {
            self.idle_ms
        } else {
            WS_PING_INTERVAL_MS
        }
    }

    /// Milliseconds until the silence is to be looked at. Only a frame or a look starts the wait
    /// anew: what is written to the peer does not.
    pub open spec fn spec_due_ms(self, now: u64) -> int {
        let waited = spec_elapsed_millis(now, self.last_look);
        if waited < self.spec_poll_ms() {
            self.spec_poll_ms() - waited
        } else {
            0
        }
    }

    /// Milliseconds to wait for a frame, and after which there is a look at the silence.
    pub fn due_ms(&self, now: u64) -> (r: u64)
        ensures
            r == self.spec_due_ms(now),
    {
        let waited: u64 = elapsed_millis(now, self.last_look);
        let poll: u64 = self.poll_ms();
        if waited < poll {
            poll - waited
        } else {
            0
        }
    }

    /// The peer has been silent for too long.
    pub open spec fn given_up(self, now: u64) -> bool {
        spec_elapsed_millis(now, self.last_seen) >= self.idle_ms
    }

    pub open spec fn action(self, event: WsEvent, now: u64) -> WsAction {
        match event {
            WsEvent::Pushed => WsAction::Write,
            WsEvent::Deaf => WsAction::Close,
            WsEvent::Frame { binary } => if binary {
                WsAction::Handle
            } else {
                WsAction::Wait
            },
            WsEvent::Ended => WsAction::Close,
            WsEvent::Quiet => if self.given_up(now) {
                WsAction::Close
            } else {
                WsAction::Ping
            },
        }
    }

    /// Any frame is a sign of life, and nothing else is.
    pub open spec fn after(self, event: WsEvent, now: u64) -> WsWatch {
        match event {
            WsEvent::Frame { .. } => WsWatch { last_seen: now, last_look: now, ..self },
            WsEvent::Quiet => WsWatch { last_look: now, ..self },
            _ => self,
        }
    }

    /// Decides what to do about what happened.
    pub fn step(&mut self, event: WsEvent, now: u64) -> (r: WsAction)
        ensures
            r == old(self).action(event, now),
            *final(self) == old(self).after(event, now),
    {
        match event {
            WsEvent::Pushed => WsAction::Write,
            WsEvent::Deaf => WsAction::Close,
            WsEvent::Frame { binary } => {
                self.last_seen = now;
                self.last_look = now;
                if binary {
                    WsAction::Handle
                } else {
                    WsAction::Wait
                }
            },
            WsEvent::Ended => WsAction::Close,
            WsEvent::Quiet => {
                self.last_look = now;
                if elapsed_millis(now, self.last_seen) >= self.idle_ms {
                    WsAction::Close
                } else {
                    WsAction::Ping
                }
            },
        }
    }
}

/// The watch after a series of events, each with its time.
pub open spec fn watched(w: WsWatch, events: Seq<(WsEvent, u64)>) -> WsWatch
    decreases events.len(),
{
    if events.len() == 0 {
        w
    } else {
        watched(w, events.drop_last()).after(events.last().0, events.last().1)
    }
}

/// A websocket that has sent no frame at all is closed the first time that the silence is looked at
/// after its idle timeout, however many messages were pushed to it in between and however often it
/// was pinged; and not before.
pub proof fn law_silent_websocket_is_closed(
    w: WsWatch,
    events: Seq<(WsEvent, u64)>,
    now: u64,
)
    requires
        forall|i: int| 0 <= i < events.len() ==> (#[trigger] events[i]).0 !is Frame,
    ensures
        watched(w, events).action(WsEvent::Quiet, now) is Close <==> spec_elapsed_millis(
            now,
            w.last_seen,
        ) >= w.idle_ms,
    decreases events.len(),
{
    if events.len() > 0 {
        let front = events.drop_last();
        assert forall|i: int| 0 <= i < front.len() implies (#[trigger] front[i]).0 !is Frame by {
            assert(front[i] == events[i]);
        }
        law_silent_websocket_is_closed(w, front, now);
        assert(events[events.len() - 1].0 !is Frame);
    }
}

/// A live but quiet client is kept: as long as the last frame, such as the answer to a ping, is
/// less than the idle timeout ago, the connection is pinged and not closed.
pub proof fn law_answered_ping_keeps_the_websocket(
    w: WsWatch,
    binary: bool,
    seen: u64,
    now: u64,
)
    requires
        spec_elapsed_millis(now, seen) < w.idle_ms,
    ensures
        w.after(WsEvent::Frame { binary }, seen).action(WsEvent::Quiet, now) is Ping,
{
}

/// The silence is looked at no less often than the peer is to be pinged, and no less often than
/// the idle timeout; and a message that is pushed does not put the look off.
pub proof fn law_silence_is_looked_at_in_time(w: WsWatch, pushed: u64, now: u64)
    ensures
        w.spec_poll_ms() <= WS_PING_INTERVAL_MS,
        w.spec_poll_ms() <= w.idle_ms,
        0 <= w.spec_due_ms(now) <= w.spec_poll_ms(),
        w.after(WsEvent::Pushed, pushed).spec_due_ms(now) == w.spec_due_ms(now),
{
}

/// The time of the last of a series of events; `start` where there is none.
pub open spec fn last_time(start: u64, events: Seq<(WsEvent, u64)>) -> u64 {
    if events.len() == 0 {
        start
    } else {
        events.last().1
    }
}

/// No event is a frame, none closes the connection, and their times run forward from `start`.
pub open spec fn silent_and_open(w: WsWatch, start: u64, events: Seq<(WsEvent, u64)>) -> bool
    decreases events.len(),
{
    events.len() > 0 ==> {
        let front = events.drop_last();
        &&& silent_and_open(w, start, front)
        &&& last_time(start, front) <= events.last().1
        &&& events.last().0 !is Frame
        &&& watched(w, front).action(events.last().0, events.last().1) !is Close
    }
}

/// A websocket that sends no frame is closed within its idle timeout and one interval between
/// looks, whatever is pushed to it meanwhile: as long as it is open, and no look is overdue, less
/// than that has gone by since its last frame.
pub proof fn law_silent_websocket_is_closed_in_time(
    w: WsWatch,
    events: Seq<(WsEvent, u64)>,
    now: u64,
)
    requires
        w.last_look == w.last_seen,
        silent_and_open(w, w.last_seen, events),
        last_time(w.last_seen, events) <= now,
        watched(w, events).spec_due_ms(now) > 0,
    ensures
        spec_elapsed_millis(now, w.last_seen) < w.idle_ms + w.spec_poll_ms(),
{
    lemma_looks_are_early(w, events);
}

/// As long as a silent websocket is open, each look at it came before its idle timeout.
proof fn lemma_looks_are_early(w: WsWatch, events: Seq<(WsEvent, u64)>)
    requires
        w.last_look == w.last_seen,
        silent_and_open(w, w.last_seen, events),
    ensures
        ({
            let v = watched(w, events);
            &&& v.last_seen == w.last_seen
            &&& v.idle_ms == w.idle_ms
            &&& w.last_seen <= v.last_look <= last_time(w.last_seen, events)
            &&& v.last_look == w.last_seen || spec_elapsed_millis(v.last_look, w.last_seen)
                < w.idle_ms
        }),
    decreases events.len(),
{
    if events.len() > 0 {
        lemma_looks_are_early(w, events.drop_last());
    }
}

/// A header of the websocket handshake.
#[derive(Debug)]
pub enum Header {
    Absent,
    /// It is there, and is not plain text.
    Unreadable,
    Text(String),
}

/// The text of the address that a reverse proxy reports, with port 0, from the IP in its header:
/// an IPv4 address as it is, an IPv6 address in brackets.
pub open spec fn proxied(ip: Seq<char>) -> Seq<char> {
    if ip.contains('.') {
        ip + ":0"@
    } else {
        "["@ + ip + "]:0"@
    }
}

/// The text of the address in the headers `X-Real-IP` and `X-Forwarded-For`. The second is only
/// looked at where the first is absent.
pub open spec fn spec_real_address(real_ip: Header, forwarded: Header) -> Option<Seq<char>> {
    match real_ip {
        Header::Text(ip) => Some(proxied(ip@)),
        Header::Unreadable => None,
        Header::Absent => match forwarded {
            Header::Text(ip) => Some(proxied(ip@)),
            _ => None,
        },
    }
}

fn with_port(ip: &String) -> (r: String)
    ensures
        r@ == proxied(ip@),
{
    if has_char(ip.as_str(), '.') {
        let mut r = ip.clone();
        r.append(":0");
        r
    } else {
        let mut r = "[".to_owned();
        r.append(ip.as_str());
        r.append("]:0");
        r
    }
}

/// The text of the address that a reverse proxy reports for a websocket. The headers are taken at
/// their word: only a proxy that overwrites them should be able to reach the port.
pub fn real_address(real_ip: &Header, forwarded: &Header) -> (r: Option<String>)
    ensures
        opt_view(r) == spec_real_address(*real_ip, *forwarded),
{
    match real_ip {
        Header::Text(ip) => Some(with_port(ip)),
        Header::Unreadable => None,
        Header::Absent => match forwarded {
            Header::Text(ip) => Some(with_port(ip)),
            _ => None,
        },
    }
}

/// The routes when a connection has ended: the registration of a websocket is taken back, unless a
/// newer one has its address; and what was put aside for a plain connection's address is dropped,
/// where the connection was put aside itself.
pub open spec fn ended(r: RoutesView, conn: Conn, key: SocketAddress) -> RoutesView {
    let left = if conn.ws {
        r.without_ws(key, conn.id)
    } else {
        r
    };
    if conn.sink_here {
        left
    } else {
        left.without_parked(key)
    }
}

/// The connection that was put aside for the address of one that has ended, and is to be dropped.
pub open spec fn dropped(r: RoutesView, conn: Conn, key: SocketAddress) -> Option<u64> {
    if !conn.sink_here && r.tcp_punch.contains_key(key) {
        Some(r.tcp_punch[key])
    } else {
        None
    }
}

impl Conn {
    /// A connection that was just accepted, under the number `id`.
    pub fn new(id: u64, ws: bool) -> (r: Conn)
        ensures
            r == (Conn { id, ws, sink_here: true, keyed: false }),
    {
        Conn { id, ws, sink_here: true, keyed: false }
    }

    /// Takes leave of a connection that has ended. Returns the connection that was put aside for
    /// its address and is to be dropped.
    pub fn end(&self, routes: &mut Routes, key: SocketAddress) -> (r: Option<u64>)
        requires
            old(routes).wf(),
        ensures
            final(routes).wf(),
            final(routes)@ == ended(old(routes)@, *self, key),
            r == dropped(old(routes)@, *self, key),
    {
        if self.ws {
            routes.remove_ws_peer(key, self.id);
        }
        if self.sink_here {
            None
        } else {
            routes.unpark(key)
        }
    }
}

impl ServerView {
    /// The first message to a plain connection, where clients have to present a key.
    pub open spec fn greeting(self, key: Seq<char>) -> Option<OutgoingView> {
        if key.len() > 0 {
            self.first_key()
        } else {
            None
        }
    }
}

impl RendezvousServer {
    /// The first message to a plain connection, where clients have to present a key.
    pub fn greeting(&self, key: &str) -> (r: Option<Outgoing>)
        requires
            self.wf(),
        ensures
            opt_view(r) == self@.greeting(key@),
    {
        if key.is_empty() {
            None
        } else {
            self.key_exchange_phase1()
        }
    }
}

/// The end of a websocket leaves no entry of its own behind, and only open connections in the
/// registry.
pub proof fn law_ended_websocket_leaves_nothing(
    r: RoutesView,
    conn: Conn,
    key: SocketAddress,
    open: Map<u64, SocketAddress>,
)
    requires
        conn.ws,
        only_open(r.ws_peers, open),
        open.contains_key(conn.id),
        open[conn.id] == key,
    ensures
        only_open(ended(r, conn, key).ws_peers, open.remove(conn.id)),
        forall|k: SocketAddress| #[trigger]
            ended(r, conn, key).ws_peers.contains_key(k) ==> ended(r, conn, key).ws_peers[k]
                != conn.id,
{
}

/// The end of a plain connection that was put aside leaves nothing put aside for its address, and
/// no websocket is touched by the end of a plain connection.
pub proof fn law_ended_connection_is_not_kept_aside(r: RoutesView, conn: Conn, key: SocketAddress)
    requires
        !conn.ws,
    ensures
        !conn.sink_here ==> !ended(r, conn, key).tcp_punch.contains_key(key),
        conn.sink_here ==> ended(r, conn, key) == r,
        ended(r, conn, key).ws_peers == r.ws_peers,
{
}

/// What happens on a websocket has one consequence each: a message for the peer is written, one from
/// the peer is handled, any other frame is only waited past; the end of either side closes it; and a
/// silence closes it once it has lasted as long as the idle timeout, and is answered with a ping
/// before that.
pub proof fn law_what_follows_an_event(w: WsWatch, now: u64)
    ensures
        w.action(WsEvent::Pushed, now) is Write,
        w.action(WsEvent::Frame { binary: true }, now) is Handle,
        w.action(WsEvent::Frame { binary: false }, now) is Wait,
        w.action(WsEvent::Ended, now) is Close,
        w.action(WsEvent::Deaf, now) is Close,
        w.idle_ms > 0 && now - w.last_seen >= w.idle_ms * 1_000_000 ==> w.action(
            WsEvent::Quiet,
            now,
        ) is Close,
        now - w.last_seen < w.idle_ms * 1_000_000 && w.idle_ms > 0 ==> w.action(
            WsEvent::Quiet,
            now,
        ) is Ping,
{
}

/// Every frame, of whatever kind, is a sign of life, and nothing else is. The timeout never changes.
pub proof fn law_frames_are_signs_of_life(w: WsWatch, event: WsEvent, now: u64)
    ensures
        event is Frame ==> w.after(event, now).last_seen == now && w.after(event, now).last_look
            == now,
        event !is Frame ==> w.after(event, now).last_seen == w.last_seen,
        event is Quiet ==> w.after(event, now).last_look == now,
        event !is Frame && event !is Quiet ==> w.after(event, now).last_look == w.last_look,
        w.after(event, now).idle_ms == w.idle_ms,
{
}

/// A silence is looked at after half a minute, or after the idle timeout where that is shorter:
/// counted from the last frame or look, and at once where that is overdue.
pub proof fn law_silence_is_looked_at_after_half_a_minute(w: WsWatch, now: u64)
    ensures
        w.idle_ms >= 30_000 ==> w.spec_poll_ms() == 30_000,
        w.idle_ms < 30_000 ==> w.spec_poll_ms() == w.idle_ms,
        now - w.last_look >= w.spec_poll_ms() * 1_000_000 ==> w.spec_due_ms(now) == 0,
        now >= w.last_look && now - w.last_look < w.spec_poll_ms() * 1_000_000 ==> w.spec_due_ms(now)
            > 0 && w.spec_due_ms(now) * 1_000_000 >= w.spec_poll_ms() * 1_000_000 - (now
            - w.last_look) && (w.spec_due_ms(now) - 1) * 1_000_000 < w.spec_poll_ms() * 1_000_000 - (
        now - w.last_look),
        now < w.last_look ==> w.spec_due_ms(now) == w.spec_poll_ms(),
{
}

/// The address that a proxy reports is the IP in its first header, or in its second one where the
/// first is not there, with port 0: an IPv4 address as it is, any other in brackets. A first header
/// that cannot be read counts as there.
pub proof fn law_reported_address_is_in_the_headers(ip: String, other: Header)
    ensures
        spec_real_address(Header::Text(ip), other) == spec_real_address(
            Header::Absent,
            Header::Text(ip),
        ),
        ip@.contains('.') ==> spec_real_address(Header::Text(ip), other) == Some(
            ip@ + seq![':', '0'],
        ),
        !ip@.contains('.') ==> spec_real_address(Header::Text(ip), other) == Some(
            seq!['['] + ip@ + seq![']', ':', '0'],
        ),
        spec_real_address(Header::Unreadable, other) is None,
        spec_real_address(Header::Absent, Header::Absent) is None,
        spec_real_address(Header::Absent, Header::Unreadable) is None,
{
    reveal_strlit(":0");
    reveal_strlit("[");
    reveal_strlit("]:0");
    assert(":0"@ =~= seq![':', '0']);
    assert("["@ =~= seq!['[']);
    assert("]:0"@ =~= seq![']', ':', '0']);
}

/// The end of a connection touches its own address alone: every other way back stays.
pub proof fn law_end_touches_its_own_address_alone(
    r: RoutesView,
    conn: Conn,
    key: SocketAddress,
    other: SocketAddress,
)
    requires
        other != key,
    ensures
        ended(r, conn, key).tcp_route(other) == r.tcp_route(other),
        ended(r, conn, key).peer_route(other) == r.peer_route(other),
        ended(r, conn, key).next_conn == r.next_conn,
        conn.sink_here ==> ended(r, conn, key).tcp_punch == r.tcp_punch,
        conn.ws && r.ws_peers.contains_key(key) && r.ws_peers[key] != conn.id ==> ended(
            r,
            conn,
            key,
        ).ws_peers == r.ws_peers,
        conn.ws && r.ws_peers.contains_key(key) && r.ws_peers[key] == conn.id ==> !ended(
            r,
            conn,
            key,
        ).ws_peers.contains_key(key),
{
}

/// A plain connection is greeted exactly where clients have to present a key and the server has one
/// to sign with: with the one key that an encrypted connection is opened with, under the server's
/// signature.
pub proof fn law_greeting_is_the_signed_key(srv: ServerView, key: Seq<char>)
    ensures
        srv.greeting(key) is Some <==> key.len() > 0 && srv.sk is Some,
        srv.greeting(key) matches Some(m) ==> (m matches OutgoingView::KeyExchange { keys }
            && keys.len() == 1 && keys[0] == signed_message(srv.secure_tcp_pk_b, srv.sk->0)),
{
}

/// What is dropped at the end of a connection is what was put aside for its address, and is taken out
/// of the routes; where nothing is dropped, all that was put aside stays. A connection that still has
/// its write half drops nothing.
pub proof fn law_what_was_put_aside_is_dropped(r: RoutesView, conn: Conn, key: SocketAddress)
    ensures
        dropped(r, conn, key) matches Some(c) ==> r.tcp_punch.contains_key(key) && r.tcp_punch[key]
            == c && ended(r, conn, key).tcp_punch == r.tcp_punch.remove(key),
        dropped(r, conn, key) is None ==> ended(r, conn, key).tcp_punch == r.tcp_punch,
        conn.sink_here ==> dropped(r, conn, key) is None,
        !conn.sink_here ==> !ended(r, conn, key).tcp_punch.contains_key(key),
{
    if dropped(r, conn, key) is None {
        assert(ended(r, conn, key).tcp_punch =~= r.tcp_punch);
    }
}

} // verus!
