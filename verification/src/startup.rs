//! What the options ask for, and what to do when a socket fails.
use vstd::prelude::*;

use crate::addr::{parsed_network, IpAddress, Network, SocketAddress};
use crate::clock::{elapsed_secs, spec_elapsed_secs};
use crate::keys::{decoded_base64, get_server_sk, spec_server_key, ServerKey, ServerKeyView};
use crate::server::{RendezvousServer, ServerView};
use crate::text::{
    decimal, is_no, is_yes, law_written_number_is_read_back, parse_u64, parsed_unsigned, spec_is_no,
    spec_is_yes, within,
};

verus! {

/// Milliseconds between two looks at which relay servers answer, and for which one may take.
pub const CHECK_RELAY_TIMEOUT: u64 = 3_000;

/// Seconds that a websocket may be silent, where nothing else is said.
pub const WS_IDLE_TIMEOUT_DEFAULT_SEC: u64 = 90;

/// Seconds without an answer after which the server has failed its own test.
pub const SELF_TEST_TIMEOUT_SEC: u64 = 12;

/// The ports that the server listens on.
#[derive(Clone, Copy, Debug, PartialEq, Eq, Structural)]
pub struct Ports {
    /// For datagrams and plain connections.
    pub main: u16,
    /// The helper port, and the console.
    pub nat: u16,
    /// For websockets.
    pub ws: u16,
}

/// A number as a port: its lowest 16 bits.
pub open spec fn spec_port_number(n: int) -> u16 {
    (n % 0x1_0000) as u16
}

fn port_number(n: i32) -> (r: u16)
    ensures
        r == spec_port_number(n as int),
{
    let up: u64 = (n as i64 + 0x8000_0000) as u64;
    proof {
        vstd::arithmetic::div_mod::lemma_mod_multiples_vanish(0x8000, n as int, 0x1_0000);
    }
    (up % 0x1_0000) as u16
}

impl Ports {
    pub open spec fn spec_of(port: i32) -> Ports {
        Ports {
            main: spec_port_number(port as int),
            nat: spec_port_number(port - 1),
            ws: spec_port_number(port + 2),
        }
    }

    /// The ports that go with the port that was asked for.
    pub fn of(port: i32) -> (r: Ports)
        requires
            i32::MIN < port,
            port + 2 <= i32::MAX,
        ensures
            r == Ports::spec_of(port),
    {
        Ports { main: port_number(port), nat: port_number(port - 1), ws: port_number(port + 2) }
    }
}

/// A login is required: the option says so, or, where it says nothing, the environment does.
pub open spec fn spec_must_login(flag: Seq<char>, env: Seq<char>) -> bool {
    spec_is_yes(flag) || (flag.len() == 0 && spec_is_yes(env))
}

/// Whether a login is required.
pub fn must_login(flag: &str, env: &str) -> (r: bool)
    ensures
        r == spec_must_login(flag@, env@),
{
    is_yes(flag) || (flag.is_empty() && is_yes(env))
}

/// How long a websocket may be silent, in seconds: what the option says, or, where it says nothing,
/// the environment; and the usual time where that is not a positive number.
pub open spec fn spec_idle_secs(flag: Seq<char>, env: Seq<char>) -> nat {
    let said = if flag.len() == 0 {
        env
    } else {
        flag
    };
    match within(parsed_unsigned(said), u64::MAX as nat) {
        Some(n) if n > 0 => n,
        _ => WS_IDLE_TIMEOUT_DEFAULT_SEC as nat,
    }
}

/// How long a websocket may be silent, in seconds.
pub fn idle_secs(flag: &str, env: &str) -> (r: u64)
    ensures
        r == spec_idle_secs(flag@, env@),
        r > 0,
{
    let said = if flag.is_empty() {
        env
    } else {
        flag
    };
    match parse_u64(said) {
        Some(n) => if n > 0 {
            n
        } else {
            WS_IDLE_TIMEOUT_DEFAULT_SEC
        },
        None => WS_IDLE_TIMEOUT_DEFAULT_SEC,
    }
}

/// Whether and where the server tests itself.
#[derive(Debug)]
pub enum SelfTest {
    Off,
    /// At the address that it listens on.
    Here,
    /// At the address that this text stands for.
    At(String),
}

#[verifier::ext_equal]
pub enum SelfTestView {
    Off,
    Here,
    At(Seq<char>),
}

impl View for SelfTest {
    type V = SelfTestView;

    open spec fn view(&self) -> SelfTestView {
        match self {
            SelfTest::Off => SelfTestView::Off,
            SelfTest::Here => SelfTestView::Here,
            SelfTest::At(s) => SelfTestView::At(s@),
        }
    }
}

pub open spec fn spec_self_test(option: Seq<char>) -> SelfTestView {
    if spec_is_no(option) {
        SelfTestView::Off
    } else if option.len() == 0 {
        SelfTestView::Here
    } else {
        SelfTestView::At(option)
    }
}

/// Whether and where the server tests itself.
pub fn self_test(option: &str) -> (r: SelfTest)
    ensures
        r@ == spec_self_test(option@),
{
    if is_no(option) {
        SelfTest::Off
    } else if option.is_empty() {
        SelfTest::Here
    } else {
        SelfTest::At(option.to_owned())
    }
}

impl SocketAddress {
    /// The address with the loopback address of the same family for its IP.
    pub open spec fn spec_localhost(self) -> SocketAddress {
        match self {
            SocketAddress::V4 { port, .. } => SocketAddress::V4 { ip: 0x7f00_0001, port },
            SocketAddress::V6 { port, flowinfo, scope_id, .. } =>
                SocketAddress::V6 { ip: 1, port, flowinfo, scope_id },
        }
    }
}

/// Where a test of `addr` is sent: an address that stands for all of this machine's cannot be sent
/// to, but the loopback address can.
pub open spec fn spec_self_test_target(addr: SocketAddress) -> SocketAddress {
    if addr.spec_ip().spec_is_unspecified() {
        addr.spec_localhost()
    } else {
        addr
    }
}

/// Where a test of `addr` is sent.
pub fn self_test_target(addr: SocketAddress) -> (r: SocketAddress)
    ensures
        r == spec_self_test_target(addr),
{
    if !addr.ip().is_unspecified() {
        return addr;
    }
    match addr {
        SocketAddress::V4 { port, .. } => SocketAddress::V4 { ip: 0x7f00_0001, port },
        SocketAddress::V6 { port, flowinfo, scope_id, .. } =>
            SocketAddress::V6 { ip: 1, port, flowinfo, scope_id },
    }
}

/// What to test after a test of `addr` has failed: where that was all of this machine's IPv6
/// addresses, the IPv4 ones. `None` is nothing, and the server has to stop.
pub open spec fn spec_self_test_retry(addr: SocketAddress) -> Option<SocketAddress> {
    if addr is V6 && addr.spec_ip().spec_is_unspecified() {
        Some(SocketAddress::V4 { ip: 0, port: addr.spec_port() })
    } else {
        None
    }
}

/// What to test after a test of `addr` has failed.
pub fn self_test_retry(addr: SocketAddress) -> (r: Option<SocketAddress>)
    ensures
        r == spec_self_test_retry(addr),
{
    match addr {
        SocketAddress::V6 { ip, port, .. } => if ip == 0 {
            Some(SocketAddress::V4 { ip: 0, port })
        } else {
            None
        },
        SocketAddress::V4 { .. } => None,
    }
}

/// Whether the server has failed its own test, having last answered at `last`.
pub fn self_test_failed(last: u64, now: u64) -> (r: bool)
    ensures
        r == (spec_elapsed_secs(now, last) > SELF_TEST_TIMEOUT_SEC),
        r == (now - last >= 13_000_000_000),
{
    elapsed_secs(now, last) > SELF_TEST_TIMEOUT_SEC
}

/// The addresses to try for datagrams, in their order: the one that was asked for, or else all of
/// this machine's, IPv6 first.
pub open spec fn spec_udp_bind_addrs(bind: Option<IpAddress>, port: u16) -> Seq<SocketAddress> {
    match bind {
        Some(ip) => seq![SocketAddress::spec_new(ip, port)],
        None => seq![
            SocketAddress::spec_new(IpAddress::V6(0), port),
            SocketAddress::spec_new(IpAddress::V4(0), port),
        ],
    }
}

/// The addresses to try for datagrams.
pub fn udp_bind_addrs(bind: Option<IpAddress>, port: u16) -> (r: Vec<SocketAddress>)
    ensures
        r@ == spec_udp_bind_addrs(bind, port),
{
    let mut r: Vec<SocketAddress> = Vec::new();
    match bind {
        Some(ip) => {
            r.push(SocketAddress::new(ip, port));
        },
        None => {
            r.push(SocketAddress::new(IpAddress::V6(0), port));
            r.push(SocketAddress::new(IpAddress::V4(0), port));
        },
    }
    assert(r@ =~= spec_udp_bind_addrs(bind, port));
    r
}

/// What the options say.
pub struct Options {
    pub mask: String,
    pub always_use_relay: String,
    pub must_login: String,
    /// The same, in the environment.
    pub must_login_env: String,
    pub ws_idle_timeout: String,
    /// The same, in the environment.
    pub ws_idle_timeout_env: String,
    pub test_hbbs: String,
}

/// What the server is to do.
#[derive(Debug)]
pub struct Plan {
    pub ports: Ports,
    pub udp: Vec<SocketAddress>,
    pub key: ServerKey,
    pub mask: Option<Network>,
    pub always_use_relay: bool,
    pub must_login: bool,
    /// Milliseconds that a websocket may be silent.
    pub idle_ms: u64,
    pub self_test: SelfTest,
}

impl Plan {
    /// It is what the arguments and the options ask for.
    pub open spec fn follows(
        &self,
        bind: Option<IpAddress>,
        port: i32,
        key: Seq<char>,
        o: Options,
    ) -> bool {
        &&& self.ports == Ports::spec_of(port)
        &&& self.udp@ == spec_udp_bind_addrs(bind, self.ports.main)
        &&& self.key@ == spec_server_key(key, decoded_base64(key))
        &&& self.mask == match parsed_network(o.mask@) {
            Some(n) => Some(Network { addr: n.0, prefix: n.1 }),
            None => None,
        }
        &&& self.mask matches Some(n) ==> n.wf()
        &&& self.always_use_relay == spec_is_yes(o.always_use_relay@)
        &&& self.must_login == spec_must_login(o.must_login@, o.must_login_env@)
        &&& self.idle_ms == spec_idle_secs(o.ws_idle_timeout@, o.ws_idle_timeout_env@) * 1000
        &&& self.self_test@ == spec_self_test(o.test_hbbs@)
    }
}

impl RendezvousServer {
    /// What it takes to start on all of this machine's addresses.
    pub fn start(port: i32, key: &str, options: &Options) -> (r: Plan)
        requires
            i32::MIN < port,
            port + 2 <= i32::MAX,
            spec_idle_secs(options.ws_idle_timeout@, options.ws_idle_timeout_env@) * 1000
                <= u64::MAX,
        ensures
            r.follows(None, port, key@, *options),
    {
        RendezvousServer::start_with_bind(None, port, key, options)
    }

    /// What it takes to start on one address, or on all of this machine's.
    pub fn start_with_bind(
        bind: Option<IpAddress>,
        port: i32,
        key: &str,
        options: &Options,
    ) -> (r: Plan)
        requires
            i32::MIN < port,
            port + 2 <= i32::MAX,
            spec_idle_secs(options.ws_idle_timeout@, options.ws_idle_timeout_env@) * 1000
                <= u64::MAX,
        ensures
            r.follows(bind, port, key@, *options),
    {
        let ports = Ports::of(port);
        let idle: u64 = idle_secs(
            options.ws_idle_timeout.as_str(),
            options.ws_idle_timeout_env.as_str(),
        );
        Plan {
            ports,
            udp: udp_bind_addrs(bind, ports.main),
            key: get_server_sk(key),
            mask: Network::parse(options.mask.as_str()),
            always_use_relay: is_yes(options.always_use_relay.as_str()),
            must_login: must_login(options.must_login.as_str(), options.must_login_env.as_str()),
            idle_ms: idle * 1000,
            self_test: self_test(options.test_hbbs.as_str()),
        }
    }
}

/// Where something comes in from.
#[derive(Clone, Copy, Debug, PartialEq, Eq, Structural)]
pub enum Source {
    Udp,
    /// Plain connections.
    Main,
    /// The helper port.
    Nat,
    /// The console's own listener.
    Console,
    Websocket,
}

/// What comes in, or fails to.
#[derive(Clone, Copy, Debug, PartialEq, Eq, Structural)]
#[allow(inconsistent_fields)]
pub enum LoopEvent {
    /// It is time to look at the relay servers.
    Tick,
    /// A datagram or a connection.
    Arrived { from: Source },
    /// The socket failed.
    Failed { from: Source },
}

/// What to do about it.
#[derive(Clone, Copy, Debug, PartialEq, Eq, Structural)]
pub enum LoopAction {
    /// Find out which relay servers answer.
    CheckRelays,
    /// Handle a datagram.
    Datagram,
    /// Serve a connection, plain or a websocket.
    Serve { ws: bool },
    /// Serve a connection to the helper port.
    ServeHelper,
    /// Open this socket anew.
    Reopen(LoopFailure),
    Nothing,
}

/// The socket that failed.
#[derive(Clone, Copy, Debug, PartialEq, Eq, Structural)]
pub enum LoopFailure {
    UdpSocket,
    Listener3,
    Listener2,
    Listener,
    ConsoleListener,
}

pub open spec fn loop_failure(from: Source) -> LoopFailure {
    match from {
        Source::Udp => LoopFailure::UdpSocket,
        Source::Main => LoopFailure::Listener,
        Source::Nat => LoopFailure::Listener2,
        Source::Console => LoopFailure::ConsoleListener,
        Source::Websocket => LoopFailure::Listener3,
    }
}

/// What to do about what came in. The relay servers are only tried where there is a choice between
/// them.
pub open spec fn loop_action(srv: ServerView, event: LoopEvent) -> LoopAction {
    match event {
        LoopEvent::Tick => if srv.relay_servers0.len() > 1 {
            LoopAction::CheckRelays
        } else {
            LoopAction::Nothing
        },
        LoopEvent::Arrived { from } => match from {
            Source::Udp => LoopAction::Datagram,
            Source::Main => LoopAction::Serve { ws: false },
            Source::Websocket => LoopAction::Serve { ws: true },
            Source::Nat => LoopAction::ServeHelper,
            Source::Console => LoopAction::ServeHelper,
        },
        LoopEvent::Failed { from } => LoopAction::Reopen(loop_failure(from)),
    }
}

impl LoopFailure {
    /// The port to open the socket on.
    pub open spec fn spec_port(self, ports: Ports) -> u16 {
        match self {
            LoopFailure::UdpSocket => ports.main,
            LoopFailure::Listener => ports.main,
            LoopFailure::Listener2 => ports.nat,
            LoopFailure::ConsoleListener => ports.nat,
            LoopFailure::Listener3 => ports.ws,
        }
    }

    /// The port to open the socket on.
    pub fn port(&self, ports: &Ports) -> (r: u16)
        ensures
            r == self.spec_port(*ports),
    {
        match self {
            LoopFailure::UdpSocket => ports.main,
            LoopFailure::Listener => ports.main,
            LoopFailure::Listener2 => ports.nat,
            LoopFailure::ConsoleListener => ports.nat,
            LoopFailure::Listener3 => ports.ws,
        }
    }
}

impl RendezvousServer {
    /// Decides what to do about what came in. The relay servers are only tried where there is a
    /// choice between them.
    pub fn io_loop(&self, event: LoopEvent) -> (r: LoopAction)
        ensures
            r == loop_action(self@, event),
    {
        match event {
            LoopEvent::Tick => if self.relay_servers0.len() > 1 {
                LoopAction::CheckRelays
            } else {
                LoopAction::Nothing
            },
            LoopEvent::Arrived { from } => match from {
                Source::Udp => LoopAction::Datagram,
                Source::Main => LoopAction::Serve { ws: false },
                Source::Websocket => LoopAction::Serve { ws: true },
                Source::Nat => LoopAction::ServeHelper,
                Source::Console => LoopAction::ServeHelper,
            },
            LoopEvent::Failed { from } => LoopAction::Reopen(
                match from {
                    Source::Udp => LoopFailure::UdpSocket,
                    Source::Main => LoopFailure::Listener,
                    Source::Nat => LoopFailure::Listener2,
                    Source::Console => LoopFailure::ConsoleListener,
                    Source::Websocket => LoopFailure::Listener3,
                },
            ),
        }
    }
}

/// A failed test is retried at most once, at the same port; and no test is sent to an address that
/// stands for all of this machine's.
pub proof fn law_self_test_is_retried_at_most_once(addr: SocketAddress)
    ensures
        spec_self_test_retry(addr) matches Some(b) ==> spec_self_test_retry(b) is None
            && b.spec_port() == addr.spec_port(),
        !spec_self_test_target(addr).spec_ip().spec_is_unspecified(),
        spec_self_test_target(addr).spec_port() == addr.spec_port(),
{
}

/// The helper port is the one before the port that was asked for, and websockets are served two
/// after it; all three are ports as they are where there are such ports, and otherwise differ from
/// them by whole rounds of all ports.
pub proof fn law_three_ports(port: i32)
    ensures
        1 <= port <= 65_533 ==> Ports::spec_of(port).main == port && Ports::spec_of(port).nat == port
            - 1 && Ports::spec_of(port).ws == port + 2,
        (port - Ports::spec_of(port).main) % 65_536 == 0,
        (port - 1 - Ports::spec_of(port).nat) % 65_536 == 0,
        (port + 2 - Ports::spec_of(port).ws) % 65_536 == 0,
{
}

/// The option decides whether a login is required, and the environment only where the option says
/// nothing; both by the letter for yes.
pub proof fn law_option_comes_before_the_environment(flag: Seq<char>, env: Seq<char>)
    ensures
        flag.len() > 0 ==> spec_must_login(flag, env) == spec_is_yes(flag),
        flag.len() == 0 ==> spec_must_login(flag, env) == spec_is_yes(env),
        flag.len() > 0 ==> spec_idle_secs(flag, env) == spec_idle_secs(Seq::empty(), flag),
{
    reveal_strlit("Y");
    reveal_strlit("y");
}

/// The time that a websocket may be silent is the number of seconds that was asked for, from one on;
/// ninety where that is not a number, or too large for one, or 0.
pub proof fn law_idle_timeout_is_the_one_asked_for(n: nat, text: Seq<char>)
    ensures
        0 < n <= u64::MAX ==> spec_idle_secs(Seq::empty(), decimal(n)) == n,
        n == 0 || n > u64::MAX ==> spec_idle_secs(Seq::empty(), decimal(n)) == 90,
        parsed_unsigned(text) is None ==> spec_idle_secs(Seq::empty(), text) == 90,
        spec_idle_secs(Seq::empty(), Seq::empty()) == 90,
{
    law_written_number_is_read_back(n);
}

/// The server tests itself where it listens, or where the option says, and not at all where the
/// option says no.
pub proof fn law_self_test_is_where_it_was_asked_for(option: Seq<char>)
    ensures
        option.len() == 0 ==> spec_self_test(option) is Here,
        spec_is_no(option) ==> spec_self_test(option) is Off,
        option.len() > 0 && !spec_is_no(option) ==> spec_self_test(option) == SelfTestView::At(
            option,
        ),
{
    reveal_strlit("no");
    reveal_strlit("No");
    reveal_strlit("nO");
    reveal_strlit("NO");
}

/// A test of an address that stands for all of this machine's is sent to the loopback address of the
/// same family, and a test of any other to that address. Only a failed test of all IPv6 addresses is
/// followed by another one: of all IPv4 addresses, at the same port.
pub proof fn law_self_test_is_sent_to_this_machine(addr: SocketAddress)
    ensures
        addr.spec_ip() != IpAddress::V4(0) && addr.spec_ip() != IpAddress::V6(0)
            ==> spec_self_test_target(addr) == addr && spec_self_test_retry(addr) is None,
        addr.spec_ip() == IpAddress::V4(0) ==> spec_self_test_target(addr).spec_ip()
            == IpAddress::V4(0x7f00_0001) && spec_self_test_retry(addr) is None,
        addr.spec_ip() == IpAddress::V6(0) ==> spec_self_test_target(addr).spec_ip()
            == IpAddress::V6(1) && (spec_self_test_retry(addr) matches Some(b) && b.spec_ip()
            == IpAddress::V4(0) && b.spec_port() == addr.spec_port()),
        addr.spec_ip() is V6 == spec_self_test_target(addr).spec_ip() is V6,
{
}

/// Datagrams are taken at the address that was asked for and at no other; or else at all of this
/// machine's, of which the IPv6 ones are tried first and the IPv4 ones only after them. The port is
/// the same everywhere.
pub proof fn law_datagrams_are_taken_where_it_was_asked_for(
    bind: Option<IpAddress>,
    port: u16,
    i: int,
)
    ensures
        ({
            let addrs = spec_udp_bind_addrs(bind, port);
            &&& bind matches Some(ip) ==> addrs.len() == 1 && addrs[0].spec_ip() == ip
            &&& bind is None ==> addrs.len() == 2 && addrs[0].spec_ip() == IpAddress::V6(0)
                && addrs[1].spec_ip() == IpAddress::V4(0)
            &&& 0 <= i < addrs.len() ==> addrs[i].spec_port() == port
        }),
{
}

/// What the server is to do is what it was asked for, option by option.
pub proof fn law_plan_is_what_was_asked_for(
    plan: Plan,
    bind: Option<IpAddress>,
    port: i32,
    key: Seq<char>,
    o: Options,
)
    requires
        plan.follows(bind, port, key, o),
        1 <= port <= 65_533,
    ensures
        plan.ports.main == port && plan.ports.nat == port - 1 && plan.ports.ws == port + 2,
        forall|i: int|
            0 <= i < plan.udp@.len() ==> (#[trigger] plan.udp@[i]).spec_port() == port,
        bind matches Some(ip) ==> plan.udp@.len() == 1 && plan.udp@[0].spec_ip() == ip,
        bind is None ==> plan.udp@.len() == 2 && plan.udp@[0].spec_ip() == IpAddress::V6(0)
            && plan.udp@[1].spec_ip() == IpAddress::V4(0),
        plan.key@ == spec_server_key(key, decoded_base64(key)),
        plan.always_use_relay <==> spec_is_yes(o.always_use_relay@),
        plan.must_login <==> spec_is_yes(o.must_login@) || o.must_login@.len() == 0 && spec_is_yes(
            o.must_login_env@,
        ),
        plan.mask is Some <==> parsed_network(o.mask@) is Some,
        plan.mask matches Some(n) ==> parsed_network(o.mask@) == Some((n.addr, n.prefix)),
        plan.idle_ms >= 1000,
        plan.idle_ms == 1000 * spec_idle_secs(o.ws_idle_timeout@, o.ws_idle_timeout_env@),
        plan.self_test@ is Off <==> spec_is_no(o.test_hbbs@),
        plan.self_test@ is Here <==> o.test_hbbs@.len() == 0,
        plan.self_test@ matches SelfTestView::At(text) ==> text == o.test_hbbs@,
        decoded_base64(key) matches Some(sk) && sk.len() == 64 ==> (plan.key@
            matches ServerKeyView::Given { sk: Some(k), .. } && k == decoded_base64(key)->0),
        key.len() == 0 && decoded_base64(key) is None ==> plan.key@ == (ServerKeyView::Own {
            shown: false,
        }),
{
    reveal_strlit("no");
    reveal_strlit("No");
    reveal_strlit("nO");
    reveal_strlit("NO");
}

/// A socket that failed is opened anew on the port that it was on: datagrams and plain connections on
/// the main port, the helper and the console on the helper port, websockets on their own.
pub proof fn law_failed_socket_is_opened_where_it_was(ports: Ports)
    ensures
        loop_failure(Source::Udp).spec_port(ports) == ports.main,
        loop_failure(Source::Main).spec_port(ports) == ports.main,
        loop_failure(Source::Nat).spec_port(ports) == ports.nat,
        loop_failure(Source::Console).spec_port(ports) == ports.nat,
        loop_failure(Source::Websocket).spec_port(ports) == ports.ws,
        forall|a: Source, b: Source| #[trigger] loop_failure(a) == #[trigger] loop_failure(b) ==> a == b,
{
}

/// The relay servers are tried where there are several, and only at the tick. What comes in is served
/// by where it came in: a datagram as one, a plain connection as one, a websocket as one, and the
/// rest by the helper. What fails is opened anew, on its own port.
pub proof fn law_each_source_is_served_in_its_way(
    srv: ServerView,
    event: LoopEvent,
    from: Source,
    ports: Ports,
)
    ensures
        loop_action(srv, event) is CheckRelays <==> event is Tick && srv.relay_servers0.len() >= 2,
        loop_action(srv, event) is Nothing <==> event is Tick && srv.relay_servers0.len() <= 1,
        loop_action(srv, event) is Datagram <==> event == (LoopEvent::Arrived { from: Source::Udp }),
        loop_action(srv, event) == (LoopAction::Serve { ws: true }) <==> event == (
        LoopEvent::Arrived { from: Source::Websocket }),
        loop_action(srv, event) == (LoopAction::Serve { ws: false }) <==> event == (
        LoopEvent::Arrived { from: Source::Main }),
        loop_action(srv, event) is ServeHelper <==> event == (LoopEvent::Arrived {
            from: Source::Nat,
        }) || event == (LoopEvent::Arrived { from: Source::Console }),
        loop_action(srv, LoopEvent::Failed { from }) matches LoopAction::Reopen(f) && f.spec_port(
            ports,
        ) == (match from {
            Source::Udp => ports.main,
            Source::Main => ports.main,
            Source::Nat => ports.nat,
            Source::Console => ports.nat,
            Source::Websocket => ports.ws,
        }),
{
}

} // verus!
