use hbbs::addr::{Endpoint, IpAddress, Network, SocketAddress};
use hbbs::clock::Now;
use hbbs::jwt::generate_token;
use hbbs::message::{
    Action, ConfigureUpdate, Incoming, KeyExchange, LocalAddr, NatType, OnlineRequest, Outgoing,
    PunchFailure, PunchHoleRequest, PunchHoleSent, PunchUnion, RegisterPeer, RegisterPk,
    RegisterPkResult, RelayResponse, RequestRelay, ResponseAddr, SoftwareUpdate, TestNatRequest,
};
use hbbs::routes::{PeerRoute, TcpRoute};
use hbbs::server::RendezvousServer;
use hbbs::state::Shared;
use hbbs::tcp::{needs_clock, Conn, Next, Step};
use hbbs::udp::is_console;

const SEC: u64 = 1_000_000_000;
const START: u64 = 1_700_000_000;
const DUR: u64 = 180;

fn later(secs: u64) -> Now {
    Now { mono: 1000 * SEC + secs * SEC, wall: (START + secs) * SEC }
}

fn v4(ip: &str, port: u16) -> SocketAddress {
    let parts: Vec<u8> = ip.split('.').map(|p| p.parse().unwrap()).collect();
    let ip = u32::from_be_bytes([parts[0], parts[1], parts[2], parts[3]]);
    SocketAddress::V4 { ip, port }
}

fn at(ip: &str, port: u16) -> Endpoint {
    Endpoint {
        addr: v4(ip, port),
        key: v4(ip, port),
        ip_text: ip.to_owned(),
        key_ip_text: ip.to_owned(),
    }
}

/// An IPv4 address that came in through an IPv6 socket.
fn mapped(ip: &str, port: u16) -> Endpoint {
    let v4_ip = match v4(ip, port) {
        SocketAddress::V4 { ip, .. } => ip,
        _ => unreachable!(),
    };
    Endpoint {
        addr: SocketAddress::V6 {
            ip: 0xffff_0000_0000 + v4_ip as u128,
            port,
            flowinfo: 0,
            scope_id: 0,
        },
        key: v4(ip, port),
        ip_text: format!("::ffff:{ip}"),
        key_ip_text: ip.to_owned(),
    }
}

fn server_with(
    serial: i32,
    mask: Option<Network>,
    sk: Option<Vec<u8>>,
    relays: &[&str],
) -> RendezvousServer {
    RendezvousServer::new(
        serial,
        "1.2.3".to_owned(),
        "https://example.com/1.2.3".to_owned(),
        mask,
        "192.168.1.1".to_owned(),
        sk,
        vec![5; 32],
        vec!["rs1".to_owned(), "rs2".to_owned()],
        relays.iter().map(|r| r.to_string()).collect(),
    )
}

fn server() -> RendezvousServer {
    server_with(0, None, None, &["relay-a", "relay-b"])
}

fn register_pk(id: &str) -> RegisterPk {
    RegisterPk {
        id: id.to_owned(),
        uuid: format!("uuid-{id}").into_bytes(),
        pk: format!("pk-{id}").into_bytes(),
    }
}

fn punch(id: &str, key: &str, token: &str) -> Incoming {
    Incoming::PunchHoleRequest(PunchHoleRequest {
        id: id.to_owned(),
        nat_type: 1,
        licence_key: key.to_owned(),
        token: token.to_owned(),
    })
}

/// A connection, and what it says.
struct Client {
    conn: Conn,
    from: Endpoint,
    key: String,
    secret: String,
}

impl Client {
    fn new(sh: &mut Shared, ws: bool, from: Endpoint) -> Client {
        let conn = Conn::new(sh.routes.accept(), ws);
        Client { conn, from, key: String::new(), secret: String::new() }
    }

    fn say(&mut self, rs: &RendezvousServer, sh: &mut Shared, msg: Incoming, now: Now) -> Step {
        rs.handle_tcp(sh, &mut self.conn, msg, &self.from, &self.key, &self.secret, now, DUR)
    }

    fn register(&mut self, rs: &RendezvousServer, sh: &mut Shared, id: &str, now: Now) {
        let step = self.say(rs, sh, Incoming::RegisterPk(register_pk(id)), now);
        assert!(matches!(step.next, Next::Keep), "registration of {id} refused");
        assert!(matches!(
            step.actions.last(),
            Some(Action::Reply(Outgoing::RegisterPkResponse { result: RegisterPkResult::Accepted }))
        ));
    }
}

fn only(step: Step) -> Action {
    assert_eq!(step.actions.len(), 1, "{:?}", step.actions);
    step.actions.into_iter().next().unwrap()
}

fn punch_response(a: Action) -> hbbs::message::PunchHoleResponse {
    match a {
        Action::ToTcp { msg: Outgoing::PunchHoleResponse(r), .. } => r,
        other => panic!("expected a punch hole response, got {other:?}"),
    }
}

#[test]
fn must_login_gates_punch_hole_requests() {
    let rs = server();
    let mut sh = Shared::new(false, true);
    let secret = "must-login-test-secret";
    let mut ask = |token: &str| {
        let mut c = Client::new(&mut sh, true, at("10.0.0.1", 5));
        c.secret = secret.to_owned();
        let step = c.say(&rs, &mut sh, punch("does-not-matter", "", token), later(0));
        assert!(matches!(step.next, Next::Keep));
        punch_response(only(step))
    };
    assert_eq!(ask("").other_failure, "Connection failed, please login!");
    assert_eq!(ask("not.a.jwt").other_failure, "Token error, please log out and log back in!");
    let forged = generate_token(1, 3600, START as i64, "some-other-secret").unwrap();
    assert_eq!(ask(&forged).other_failure, "Token error, please log out and log back in!");
    let token = generate_token(1, 3600, START as i64, secret).unwrap();
    let r = ask(&token);
    assert!(r.other_failure.is_empty(), "a valid token must not be refused");
    assert_eq!(r.failure, PunchFailure::IdNotExist);
    let expired = generate_token(1, 0, START as i64, secret).unwrap();
    assert_eq!(ask(&expired).other_failure, "Token error, please log out and log back in!");
}

#[test]
fn any_token_will_do_without_a_secret() {
    let rs = server();
    let mut sh = Shared::new(false, true);
    let mut c = Client::new(&mut sh, true, at("10.0.0.1", 5));
    let r = punch_response(only(c.say(&rs, &mut sh, punch("nobody", "", "anything"), later(0))));
    assert_eq!(r.failure, PunchFailure::IdNotExist);
    let r = punch_response(only(c.say(&rs, &mut sh, punch("nobody", "", ""), later(0))));
    assert_eq!(r.other_failure, "Connection failed, please login!");
}

#[test]
fn licence_comes_before_the_token() {
    let rs = server();
    let mut sh = Shared::new(false, true);
    let mut c = Client::new(&mut sh, true, at("10.0.0.1", 5));
    c.key = "the-key".to_owned();
    let r = punch_response(only(c.say(&rs, &mut sh, punch("nobody", "other", ""), later(0))));
    assert_eq!(r.failure, PunchFailure::LicenseMismatch);
    assert!(r.other_failure.is_empty());
    let r = punch_response(only(c.say(&rs, &mut sh, punch("nobody", "the-key", ""), later(0))));
    assert_eq!(r.failure, PunchFailure::Unset);
    assert_eq!(r.other_failure, "Connection failed, please login!");
}

#[test]
fn websocket_peers_are_served_over_one_persistent_connection() {
    let rs = server();
    let mut sh = Shared::new(false, false);
    let mut b = Client::new(&mut sh, true, at("127.0.0.1", 1001));
    b.register(&rs, &mut sh, "wsfeat-b", later(0));

    // A heartbeat must not end the connection.
    for round in 0..3 {
        let beat = Incoming::RegisterPeer(RegisterPeer { id: "wsfeat-b".to_owned(), serial: 0 });
        let step = b.say(&rs, &mut sh, beat, later(1));
        assert!(matches!(step.next, Next::Keep), "round {round}");
        assert!(matches!(
            only(step),
            Action::Reply(Outgoing::RegisterPeerResponse { request_pk: false })
        ));
    }

    // The same connection still answers an online query.
    let query = Incoming::OnlineRequest(OnlineRequest {
        peers: vec!["wsfeat-b".to_owned(), "nobody-here".to_owned()],
    });
    let step = b.say(&rs, &mut sh, query, later(2));
    assert!(matches!(step.next, Next::Keep));
    match only(step) {
        Action::Reply(Outgoing::OnlineResponse { states }) => {
            assert_eq!(states.len(), 1, "two peers pack into one byte");
            assert_eq!(states[0], 0b1000_0000);
        }
        other => panic!("expected OnlineResponse, got {other:?}"),
    }

    // A request reaches B on that same connection, and B's registration survives it.
    let mut a = Client::new(&mut sh, true, at("127.0.0.1", 1002));
    a.register(&rs, &mut sh, "wsfeat-a", later(3));
    for _ in 0..2 {
        match only(a.say(&rs, &mut sh, punch("wsfeat-b", "", ""), later(3))) {
            Action::ToPeer { to, msg: Outgoing::PunchHole { socket_addr, nat_type, .. } } => {
                assert_eq!(sh.routes.route_to_peer(to.key), PeerRoute::Push { conn: b.conn.id });
                assert_eq!(socket_addr, v4("127.0.0.1", 1002));
                assert_eq!(nat_type, NatType::Given(1));
            }
            other => panic!("expected B to be woken with PunchHole, got {other:?}"),
        }
    }
    assert_eq!(sh.punch_reqs.entries.len(), 1);
    assert_eq!(sh.routes.ws_peer_count(), 2);

    // B is still usable afterwards: the push must not consume its connection.
    let query = Incoming::OnlineRequest(OnlineRequest { peers: vec!["wsfeat-b".to_owned()] });
    let step = b.say(&rs, &mut sh, query, later(4));
    assert!(matches!(step.next, Next::Keep));
    assert!(matches!(
        only(step),
        Action::Reply(Outgoing::OnlineResponse { states }) if states == vec![0b1000_0000]
    ));
}

#[test]
fn rendezvous_handshake_end_to_end() {
    let (_pk, sk) = sodiumoxide::crypto::sign::gen_keypair();
    let rs = server_with(0, None, Some(sk.0.to_vec()), &["127.0.0.1:38117"]);
    let mut sh = Shared::new(false, false);
    let mut b = Client::new(&mut sh, true, at("10.20.0.2", 0));
    b.key = "pk".to_owned();
    b.register(&rs, &mut sh, "smoke-peer-b", later(0));
    let mut a = Client::new(&mut sh, true, at("10.20.0.1", 0));
    a.key = "pk".to_owned();
    a.register(&rs, &mut sh, "smoke-peer-a", later(0));

    // Direct: A asks to punch a hole to B.
    match only(a.say(&rs, &mut sh, punch("smoke-peer-b", "pk", ""), later(1))) {
        Action::ToPeer { to, msg: Outgoing::PunchHole { socket_addr, relay_server, .. } } => {
            assert_eq!(sh.routes.route_to_peer(to.key), PeerRoute::Push { conn: b.conn.id });
            assert_eq!(socket_addr, v4("10.20.0.1", 0), "B should be told A's real address");
            assert_eq!(relay_server, "127.0.0.1:38117");
        }
        other => panic!("expected PunchHole at B, got {other:?}"),
    }
    // B is ready; that is carried back to A.
    let sent = Incoming::PunchHoleSent(PunchHoleSent {
        to: at("10.20.0.1", 0),
        id: "smoke-peer-b".to_owned(),
        relay_server: String::new(),
        nat_type: Some(0),
        version: "1.4.1".to_owned(),
    });
    match only(b.say(&rs, &mut sh, sent, later(1))) {
        Action::ToTcp { to, msg: Outgoing::PunchHoleResponse(r) } => {
            assert_eq!(sh.routes.route_to_tcp(to.key), TcpRoute::Push { conn: a.conn.id });
            assert!(r.other_failure.is_empty());
            assert!(matches!(r.socket_addr, ResponseAddr::Of(x) if x == v4("10.20.0.2", 0)));
            assert_eq!(r.union, PunchUnion::NatType(0));
            let pk = r.pk.expect("B's key is vouched for");
            assert_eq!(pk.id, "smoke-peer-b");
            assert_eq!(pk.pk, b"pk-smoke-peer-b".to_vec());
        }
        other => panic!("expected PunchHoleResponse at A, got {other:?}"),
    }

    // Relayed: A asks for a relay to B.
    let relay = Incoming::RequestRelay(RequestRelay {
        id: "smoke-peer-b".to_owned(),
        rest: vec![1, 2],
    });
    match only(a.say(&rs, &mut sh, relay, later(1))) {
        Action::ToPeer { to, msg: Outgoing::RequestRelay { id, socket_addr, rest } } => {
            assert_eq!((id.as_str(), rest), ("smoke-peer-b", vec![1, 2]));
            assert_eq!(sh.routes.route_to_peer(to.key), PeerRoute::Push { conn: b.conn.id });
            assert_eq!(socket_addr, v4("10.20.0.1", 0));
        }
        other => panic!("expected RequestRelay at B, got {other:?}"),
    }
    let answer = Incoming::RelayResponse(RelayResponse {
        to: at("10.20.0.1", 0),
        id: "smoke-peer-b".to_owned(),
        version: "1.4.1".to_owned(),
        relay_server: "127.0.0.1:38117".to_owned(),
        rest: vec![3, 4],
    });
    match only(b.say(&rs, &mut sh, answer, later(1))) {
        Action::ToTcp {
            to,
            msg: Outgoing::RelayResponse { socket_addr, pk: Some(Some(_)), version, relay_server, rest },
        } => {
            assert!(matches!(socket_addr, ResponseAddr::Empty), "A is not told its own address");
            assert_eq!((version.as_str(), rest), ("1.4.1", vec![3, 4]));
            assert_eq!(sh.routes.route_to_tcp(to.key), TcpRoute::Push { conn: a.conn.id });
            assert_eq!(relay_server, "127.0.0.1:38117");
        }
        other => panic!("expected RelayResponse at A, got {other:?}"),
    }
}

#[test]
fn key_exchange_offers_a_signed_key() {
    let (pk, sk) = sodiumoxide::crypto::sign::gen_keypair();
    let rs = server_with(0, None, Some(sk.0.to_vec()), &[]);
    let signed = match rs.greeting("a key") {
        Some(Outgoing::KeyExchange { keys }) => {
            assert_eq!(keys.len(), 1, "one signed key");
            keys[0].clone()
        }
        other => panic!("expected KeyExchange, got {other:?}"),
    };
    assert_eq!(sodiumoxide::crypto::sign::verify(&signed, &pk), Ok(vec![5; 32]));
    let mut tampered = signed.clone();
    tampered[0] ^= 0xff;
    assert!(sodiumoxide::crypto::sign::verify(&tampered, &pk).is_err());
    // Without a key to present, or one to sign with, nothing is offered.
    assert!(rs.greeting("").is_none());
    assert!(server().greeting("a key").is_none());
    assert!(rs.sign(&vec![1, 2, 3]).ends_with(&[1, 2, 3]));
    assert!(server().sign(&vec![1, 2, 3]).is_empty());
}

#[test]
fn key_exchange_encrypts_from_then_on() {
    let rs = server();
    let mut sh = Shared::new(false, false);
    let mut c = Client::new(&mut sh, false, at("10.0.0.1", 5));
    assert!(!c.conn.reads_encrypted());
    let keys = vec![vec![1; 32], vec![2; 48]];
    let step = c.say(&rs, &mut sh, Incoming::KeyExchange(KeyExchange { keys }), later(0));
    assert!(step.actions.is_empty());
    match step.next {
        Next::OpenKey { their_pk, sealed } => {
            assert_eq!(their_pk, vec![1; 32]);
            assert_eq!(sealed, vec![2; 48]);
        }
        other => panic!("{other:?}"),
    }
    assert!(c.conn.key_opened(true));
    assert!(c.conn.reads_encrypted());
    c.register(&rs, &mut sh, "kex-peer", later(0));
    // A key that does not open closes the connection.
    let mut d = Client::new(&mut sh, false, at("10.0.0.1", 6));
    assert!(!d.conn.key_opened(false));
    assert!(!d.conn.reads_encrypted());
}

#[test]
fn malformed_key_exchange_closes_the_connection() {
    let rs = server();
    let mut sh = Shared::new(false, false);
    for keys in [vec![], vec![b"one key only".to_vec()], vec![vec![], vec![], vec![]]] {
        let mut c = Client::new(&mut sh, true, at("10.0.0.1", 5));
        let step = c.say(&rs, &mut sh, Incoming::KeyExchange(KeyExchange { keys }), later(0));
        assert!(matches!(step.next, Next::Close));
        assert!(step.actions.is_empty());
    }
}

#[test]
fn plain_requester_is_put_aside_and_answered_once() {
    let rs = server();
    let mut sh = Shared::new(false, false);
    let from = mapped("10.0.0.1", 5);
    let mut c = Client::new(&mut sh, false, from.dup());
    let step = c.say(&rs, &mut sh, punch("nobody", "", ""), later(0));
    assert!(matches!(step.next, Next::Keep));
    assert_eq!(step.actions.len(), 2);
    assert!(matches!(step.actions[0], Action::Park { replaced: None }));
    assert!(!c.conn.sink_here);
    // A second attempt has nothing left to put aside, and cannot be written to.
    let step = c.say(&rs, &mut sh, punch("nobody", "", ""), later(0));
    assert_eq!(step.actions.len(), 1);
    let nat = Incoming::TestNatRequest(TestNatRequest { serial: 0 });
    assert!(c.say(&rs, &mut sh, nat, later(0)).actions.is_empty());
    // It is found under the normal form of its address.
    assert_eq!(sh.routes.route_to_tcp(v4("10.0.0.1", 5)), TcpRoute::Parked { conn: c.conn.id });
    assert_eq!(sh.routes.route_to_tcp(v4("10.0.0.1", 5)), TcpRoute::Nowhere);
    // Another connection from there replaces one that is still aside.
    let mut d = Client::new(&mut sh, false, from.dup());
    d.say(&rs, &mut sh, Incoming::RequestRelay(RequestRelay { id: "x".to_owned(), rest: vec![] }), later(0));
    let mut e = Client::new(&mut sh, false, from.dup());
    let step = e.say(&rs, &mut sh, punch("nobody", "", ""), later(0));
    assert!(matches!(step.actions[0], Action::Park { replaced: Some(n) } if n == d.conn.id));
    // When a connection that was put aside ends, nothing is left aside.
    assert_eq!(e.conn.end(&mut sh.routes, from.key), Some(e.conn.id));
    assert_eq!(sh.routes.route_to_tcp(from.key), TcpRoute::Nowhere);
}

#[test]
fn relay_request_for_an_unknown_peer_is_dropped() {
    let rs = server();
    let mut sh = Shared::new(false, false);
    let mut a = Client::new(&mut sh, true, at("10.0.0.1", 5));
    let ask = Incoming::RequestRelay(RequestRelay { id: "nobody".to_owned(), rest: vec![] });
    let step = a.say(&rs, &mut sh, ask, later(0));
    assert!(step.actions.is_empty());
    assert!(matches!(step.next, Next::Keep));
}

#[test]
fn offline_peer_is_reported() {
    let rs = server();
    let mut sh = Shared::new(false, false);
    let mut b = Client::new(&mut sh, true, at("10.0.0.2", 5));
    b.register(&rs, &mut sh, "peer-b", later(0));
    let mut a = Client::new(&mut sh, true, at("10.0.0.1", 5));
    let r = punch_response(only(a.say(&rs, &mut sh, punch("peer-b", "", ""), later(30))));
    assert_eq!(r.failure, PunchFailure::Offline);
    assert!(sh.punch_reqs.entries.is_empty());
    assert_eq!(sh.rotation, 0);
}

#[test]
fn same_intranet_asks_for_the_local_address() {
    let rs = server();
    let mut sh = Shared::new(false, false);
    let mut b = Client::new(&mut sh, true, at("10.0.0.2", 5));
    b.register(&rs, &mut sh, "peer-b", later(0));
    let mut a = Client::new(&mut sh, false, at("10.0.0.2", 9));
    let step = a.say(&rs, &mut sh, punch("peer-b", "", ""), later(1));
    match &step.actions[1] {
        Action::ToPeer { msg: Outgoing::FetchLocalAddr { socket_addr, relay_server }, .. } => {
            assert_eq!(*socket_addr, v4("10.0.0.2", 9));
            assert_eq!(relay_server, "relay-a");
        }
        other => panic!("{other:?}"),
    }
    // Over a websocket that tells nothing.
    let mut w = Client::new(&mut sh, true, at("10.0.0.2", 10));
    assert!(matches!(
        only(w.say(&rs, &mut sh, punch("peer-b", "", ""), later(1))),
        Action::ToPeer { msg: Outgoing::PunchHole { relay_server, .. }, .. }
            if relay_server == "relay-b"
    ));
}

#[test]
fn relay_is_forced_between_the_local_network_and_outside() {
    let mask = Network::parse("192.168.1.0/24");
    let rs = server_with(0, mask, None, &["relay-a", "relay-b"]);
    let mut sh = Shared::new(false, false);
    let mut lan = Client::new(&mut sh, true, at("192.168.1.5", 5));
    lan.register(&rs, &mut sh, "lan-peer", later(0));
    let mut wan = Client::new(&mut sh, true, at("8.8.8.8", 5));
    wan.register(&rs, &mut sh, "wan-peer", later(0));
    match only(wan.say(&rs, &mut sh, punch("lan-peer", "", ""), later(1))) {
        Action::ToPeer { msg: Outgoing::PunchHole { nat_type, relay_server, .. }, .. } => {
            assert_eq!(nat_type, NatType::Symmetric);
            assert_eq!(relay_server, "192.168.1.1");
        }
        other => panic!("{other:?}"),
    }
    match only(lan.say(&rs, &mut sh, punch("wan-peer", "", ""), later(1))) {
        Action::ToPeer { msg: Outgoing::PunchHole { nat_type, relay_server, .. }, .. } => {
            assert_eq!(nat_type, NatType::Symmetric);
            assert_eq!(relay_server, "relay-b");
        }
        other => panic!("{other:?}"),
    }
    // Always.
    sh.always_use_relay = true;
    let mut other = Client::new(&mut sh, true, at("9.9.9.9", 5));
    assert!(matches!(
        only(other.say(&rs, &mut sh, punch("wan-peer", "", ""), later(1))),
        Action::ToPeer { msg: Outgoing::PunchHole { nat_type: NatType::Symmetric, .. }, .. }
    ));
}

#[test]
fn relay_response_fits_the_requester() {
    let mask = Network::parse("192.168.1.0/24");
    let rs = server_with(0, mask, None, &["relay-a", "relay-b"]);
    let mut sh = Shared::new(false, false);
    let mut b = Client::new(&mut sh, false, at("8.8.8.8", 5));
    let mut ask = |to: &str, relay: &str| {
        let rr = Incoming::RelayResponse(RelayResponse {
            to: at(to, 5),
            id: String::new(),
            version: String::new(),
            relay_server: relay.to_owned(),
            rest: vec![],
        });
        let step = b.say(&rs, &mut sh, rr, later(0));
        assert!(matches!(step.next, Next::Close));
        match only(step) {
            Action::ToTcp { msg: Outgoing::RelayResponse { pk: None, relay_server, .. }, .. } => {
                relay_server
            }
            other => panic!("{other:?}"),
        }
    };
    assert_eq!(ask("192.168.1.9", "relay-x"), "192.168.1.1");
    assert_eq!(ask("9.9.9.9", "relay-x"), "relay-x");
    assert_eq!(ask("9.9.9.9", "192.168.1.1"), "relay-a");
    assert_eq!(ask("9.9.9.9", "192.168.1.1"), "relay-b");
    assert_eq!(ask("192.168.1.9", ""), "");
}

#[test]
fn local_addresses_are_passed_on() {
    let rs = server();
    let mut sh = Shared::new(false, false);
    let mut b = Client::new(&mut sh, true, at("10.0.0.2", 5));
    let la = Incoming::LocalAddr(LocalAddr {
        to: at("10.0.0.1", 5),
        local_addr: vec![1, 2, 3],
        relay_server: "relay".to_owned(),
        id: "peer-b".to_owned(),
        version: "1".to_owned(),
    });
    let step = b.say(&rs, &mut sh, la, later(0));
    assert!(matches!(step.next, Next::Keep));
    let r = punch_response(only(step));
    assert!(matches!(r.socket_addr, ResponseAddr::Raw(b) if b == vec![1, 2, 3]));
    assert_eq!(r.union, PunchUnion::IsLocal(true));
    assert_eq!(r.relay_server, "relay");
    assert!(r.pk.is_none(), "the server has no key to vouch with");
}

#[test]
fn nat_test_tells_port_and_newer_servers() {
    let rs = server_with(7, None, None, &[]);
    let mut sh = Shared::new(false, false);
    let mut c = Client::new(&mut sh, false, at("10.0.0.1", 4321));
    let step = c.say(&rs, &mut sh, Incoming::TestNatRequest(TestNatRequest { serial: 6 }), later(0));
    assert!(matches!(step.next, Next::Close));
    match only(step) {
        Action::Reply(Outgoing::TestNatResponse { port: 4321, cu: Some(cu) }) => {
            assert_eq!(cu.serial, 7);
            assert_eq!(cu.rendezvous_servers, vec!["rs1".to_owned(), "rs2".to_owned()]);
        }
        other => panic!("{other:?}"),
    }
    let step = c.say(&rs, &mut sh, Incoming::TestNatRequest(TestNatRequest { serial: 7 }), later(0));
    assert!(matches!(
        only(step),
        Action::Reply(Outgoing::TestNatResponse { port: 4321, cu: None })
    ));
}

#[test]
fn heartbeat_tells_of_newer_servers() {
    let rs = server_with(7, None, None, &[]);
    let mut sh = Shared::new(false, false);
    let mut c = Client::new(&mut sh, true, at("10.0.0.1", 5));
    let beat = Incoming::RegisterPeer(RegisterPeer { id: "peer-a".to_owned(), serial: 3 });
    let step = c.say(&rs, &mut sh, beat, later(0));
    assert_eq!(step.actions.len(), 2);
    assert!(matches!(
        step.actions[0],
        Action::Reply(Outgoing::RegisterPeerResponse { request_pk: true })
    ));
    assert!(
        matches!(&step.actions[1], Action::Reply(Outgoing::ConfigureUpdate(cu)) if cu.serial == 7)
    );
    // The heartbeat is enough to be reached.
    assert_eq!(sh.routes.ws_peer_count(), 1);
    let empty = Incoming::RegisterPeer(RegisterPeer { id: String::new(), serial: 3 });
    assert!(c.say(&rs, &mut sh, empty, later(0)).actions.is_empty());
}

#[test]
fn unknown_messages_only_close_plain_connections() {
    let rs = server();
    let mut sh = Shared::new(false, false);
    let mut ws = Client::new(&mut sh, true, at("10.0.0.1", 5));
    assert!(matches!(ws.say(&rs, &mut sh, Incoming::Other, later(0)).next, Next::Keep));
    let mut tcp = Client::new(&mut sh, false, at("10.0.0.1", 5));
    assert!(matches!(tcp.say(&rs, &mut sh, Incoming::Other, later(0)).next, Next::Close));
}

// Registration.

fn try_pk(sh: &mut Shared, rk: RegisterPk, from: &str, ws: bool, t: u64) -> Option<RegisterPkResult> {
    sh.handle_register_pk(rk, &at(from, 5), ws, later(t).mono, DUR).0
}

#[test]
fn malformed_registration_is_met_with_silence() {
    let mut sh = Shared::new(false, false);
    for (uuid, pk) in [(vec![], vec![1]), (vec![1], vec![])] {
        let rk = RegisterPk { id: "peer-1".to_owned(), uuid, pk };
        assert_eq!(try_pk(&mut sh, rk, "1.1.1.1", false, 0), None);
    }
    assert_eq!(sh.ip_blocker.table.len(), 0);
    let rs = server();
    let mut c = Client::new(&mut sh, true, at("1.1.1.1", 5));
    let rk = RegisterPk { id: "peer-1".to_owned(), uuid: vec![], pk: vec![1] };
    let step = c.say(&rs, &mut sh, Incoming::RegisterPk(rk), later(0));
    assert!(step.actions.is_empty());
    assert!(matches!(step.next, Next::Close));
    assert_eq!(sh.routes.ws_peer_count(), 0);
}

#[test]
fn short_ids_are_refused() {
    let mut sh = Shared::new(false, false);
    let mismatch = Some(RegisterPkResult::UuidMismatch);
    assert_eq!(try_pk(&mut sh, register_pk("peer1"), "1.1.1.1", false, 0), mismatch);
    // Bytes count, not characters.
    let accepted = Some(RegisterPkResult::Accepted);
    assert_eq!(try_pk(&mut sh, register_pk("ééé"), "1.1.1.1", false, 0), accepted);
}

#[test]
fn id_cannot_be_taken_over() {
    let mut sh = Shared::new(false, false);
    let accepted = Some(RegisterPkResult::Accepted);
    let mismatch = Some(RegisterPkResult::UuidMismatch);
    assert_eq!(try_pk(&mut sh, register_pk("peer-1"), "1.1.1.1", false, 0), accepted);
    let mut other = register_pk("peer-1");
    other.uuid = b"other".to_vec();
    assert_eq!(try_pk(&mut sh, other, "1.1.1.1", false, 1), mismatch);
    // A new key from the same address, or the same key from a new one, but not both.
    let mut both = register_pk("peer-1");
    both.pk = b"new".to_vec();
    assert_eq!(try_pk(&mut sh, both, "2.2.2.2", false, 1), mismatch);
    assert_eq!(sh.peers.get("peer-1").unwrap().pk, b"pk-peer-1".to_vec());
    let mut fresh = register_pk("peer-1");
    fresh.pk = b"new".to_vec();
    assert_eq!(try_pk(&mut sh, fresh, "1.1.1.1", false, 1), accepted);
    let mut moved = register_pk("peer-1");
    moved.pk = b"new".to_vec();
    assert_eq!(sh.ip_changes.table.len(), 0);
    assert_eq!(try_pk(&mut sh, moved, "2.2.2.2", false, 1), accepted);
    assert_eq!(sh.peers.get("peer-1").unwrap().ip, "2.2.2.2");
    assert_eq!(sh.ip_changes.table.get("peer-1").unwrap().ips.get("2.2.2.2").copied(), Some(1));
}

#[test]
fn fourth_registration_in_a_row_is_too_frequent() {
    let mut sh = Shared::new(false, false);
    for t in 0..3 {
        assert_eq!(
            try_pk(&mut sh, register_pk("peer-1"), "1.1.1.1", false, t),
            Some(RegisterPkResult::Accepted)
        );
    }
    let frequent = Some(RegisterPkResult::TooFrequent);
    assert_eq!(try_pk(&mut sh, register_pk("peer-1"), "1.1.1.1", false, 3), frequent);
    assert_eq!(try_pk(&mut sh, register_pk("peer-1"), "1.1.1.1", false, 8), frequent);
    assert_eq!(
        try_pk(&mut sh, register_pk("peer-1"), "1.1.1.1", false, 9),
        Some(RegisterPkResult::Accepted)
    );
}

#[test]
fn busy_address_is_too_frequent() {
    let mut sh = Shared::new(false, false);
    for i in 0..30 {
        assert_eq!(
            try_pk(&mut sh, register_pk(&format!("peer-{i:03}")), "1.1.1.1", false, 0),
            Some(RegisterPkResult::Accepted)
        );
    }
    assert_eq!(
        try_pk(&mut sh, register_pk("peer-999"), "1.1.1.1", false, 0),
        Some(RegisterPkResult::TooFrequent)
    );
    assert!(!sh.peers.has("peer-999"));
}

#[test]
fn unchanged_registration_is_stored_over_a_websocket_only() {
    let mut sh = Shared::new(false, false);
    let from = at("1.1.1.1", 5);
    let first = sh.handle_register_pk(register_pk("peer-1"), &from, false, later(0).mono, DUR);
    match first.1 {
        Some(Action::Store { id, uuid, pk, ip }) => {
            assert_eq!(id, "peer-1");
            assert_eq!(uuid, b"uuid-peer-1".to_vec());
            assert_eq!(pk, b"pk-peer-1".to_vec());
            assert_eq!(ip, "1.1.1.1");
        }
        other => panic!("{other:?}"),
    }
    let again = sh.handle_register_pk(register_pk("peer-1"), &from, false, later(40).mono, DUR);
    assert!(again.1.is_none());
    assert!(!sh.peers.get("peer-1").unwrap().online(later(40).mono));
    let ws = sh.handle_register_pk(register_pk("peer-1"), &from, true, later(50).mono, DUR);
    assert!(ws.1.is_some());
    assert!(sh.peers.get("peer-1").unwrap().online(later(50).mono));
}

#[test]
fn records_are_looked_up_only_where_needed() {
    let (_, sk) = sodiumoxide::crypto::sign::gen_keypair();
    let rs = server_with(0, None, Some(sk.0.to_vec()), &[]);
    let mut sh = Shared::new(false, true);
    let from = at("1.1.1.1", 5);
    let needs = |sh: &Shared, msg: &Incoming| rs.needed_peer(sh, msg, &from, "", "", later(0));
    assert_eq!(needs(&sh, &punch("peer-1", "", "")), None);
    assert_eq!(needs(&sh, &punch("peer-1", "", "token")), Some("peer-1".to_owned()));
    let reg = Incoming::RegisterPk(register_pk("peer-1"));
    assert_eq!(needs(&sh, &reg), Some("peer-1".to_owned()));
    assert_eq!(needs(&sh, &Incoming::RegisterPk(register_pk("p"))), None);
    let sent = |version: &str| {
        Incoming::PunchHoleSent(PunchHoleSent {
            to: at("2.2.2.2", 5),
            id: "peer-1".to_owned(),
            relay_server: String::new(),
            nat_type: None,
            version: version.to_owned(),
        })
    };
    assert_eq!(needs(&sh, &sent("1")), Some("peer-1".to_owned()));
    assert_eq!(needs(&sh, &sent("")), None);
    sh.peers.load("peer-1".to_owned(), vec![1], vec![2], "1.1.1.1".to_owned());
    assert_eq!(needs(&sh, &punch("peer-1", "", "token")), None);
    assert_eq!(needs(&sh, &reg), None);
    assert_eq!(needs(&sh, &sent("1")), None);
    assert_eq!(needs(&sh, &Incoming::Other), None);
}

// Datagrams and the helper port.

#[test]
fn heartbeat_datagram_is_answered() {
    let rs = server_with(7, None, None, &[]);
    let mut sh = Shared::new(false, false);
    let from = at("1.1.1.1", 5);
    let beat = |serial| Incoming::RegisterPeer(RegisterPeer { id: "peer-1".to_owned(), serial });
    let out = rs.handle_udp(&mut sh, beat(0), &from, later(0).mono, DUR);
    assert_eq!(out.len(), 2);
    assert!(matches!(&out[0], Action::Udp { to, msg: Outgoing::RegisterPeerResponse { request_pk: true } } if *to == from.addr));
    assert!(matches!(&out[1], Action::Udp { to, msg: Outgoing::ConfigureUpdate(_) } if *to == from.addr));
    let out = rs.handle_udp(&mut sh, Incoming::RegisterPk(register_pk("peer-1")), &from, later(0).mono, DUR);
    assert_eq!(out.len(), 2);
    assert!(matches!(out[0], Action::Store { .. }));
    assert!(matches!(out[1], Action::Udp { msg: Outgoing::RegisterPkResponse { result: RegisterPkResult::Accepted }, .. }));
    let out = rs.handle_udp(&mut sh, beat(7), &from, later(1).mono, DUR);
    assert_eq!(out.len(), 1);
    assert!(matches!(out[0], Action::Udp { msg: Outgoing::RegisterPeerResponse { request_pk: false }, .. }));
}

#[test]
fn requests_are_not_taken_as_datagrams() {
    let rs = server();
    let mut sh = Shared::new(false, false);
    let from = at("1.1.1.1", 5);
    for msg in [
        punch("peer-1", "", ""),
        Incoming::RequestRelay(RequestRelay { id: "peer-1".to_owned(), rest: vec![] }),
        Incoming::Other,
    ] {
        assert!(rs.handle_udp(&mut sh, msg, &from, later(0).mono, DUR).is_empty());
    }
}

#[test]
fn configuration_is_taken_from_this_machine_only() {
    let mut rs = server_with(3, None, None, &[]);
    let mut sh = Shared::new(false, false);
    let update = |serial| {
        Incoming::ConfigureUpdate(ConfigureUpdate {
            serial,
            rendezvous_servers: vec!["a".to_owned(), String::new(), "b".to_owned(), "c".to_owned()],
        })
    };
    assert!(rs.handle_udp(&mut sh, update(4), &at("1.1.1.1", 5), later(0).mono, DUR).is_empty());
    assert!(rs.handle_udp(&mut sh, update(3), &at("127.0.0.1", 5), later(0).mono, DUR).is_empty());
    let mut out = rs.handle_udp(&mut sh, update(4), &mapped("127.0.0.1", 5), later(0).mono, DUR);
    match out.pop() {
        Some(Action::CheckServers { serial: 4, servers }) => {
            assert_eq!(servers, vec!["a".to_owned(), "b".to_owned(), "c".to_owned()]);
            rs.configure(4, servers, vec![true, false, true]);
        }
        other => panic!("{other:?}"),
    }
    assert_eq!(rs.inner.serial, 4);
    assert_eq!(rs.rendezvous_servers, vec!["a".to_owned(), "c".to_owned()]);
}

#[test]
fn other_software_is_told_of_the_current_one() {
    let rs = server();
    let mut sh = Shared::new(false, false);
    let from = at("1.1.1.1", 5);
    let ask = |url: &str| Incoming::SoftwareUpdate(SoftwareUpdate { url: url.to_owned() });
    let out = rs.handle_udp(&mut sh, ask("1.0.0"), &from, later(0).mono, DUR);
    assert!(matches!(&out[0], Action::Udp { msg: Outgoing::SoftwareUpdate { url }, .. } if url == "https://example.com/1.2.3"));
    assert!(rs.handle_udp(&mut sh, ask("1.2.3"), &from, later(0).mono, DUR).is_empty());
}

#[test]
fn helper_port_answers_two_questions() {
    let rs = server_with(9, None, None, &[]);
    let sh = Shared::new(false, false);
    let from = at("1.1.1.1", 77);
    let nat = Incoming::TestNatRequest(TestNatRequest { serial: 0 });
    assert!(matches!(
        rs.handle_listener2(&sh, nat, &from, later(0).mono),
        Some(Outgoing::TestNatResponse { port: 77, cu: None })
    ));
    let online = Incoming::OnlineRequest(OnlineRequest { peers: vec!["x".to_owned()] });
    assert!(matches!(
        rs.handle_listener2(&sh, online, &from, later(0).mono),
        Some(Outgoing::OnlineResponse { states }) if states == vec![0]
    ));
    assert!(rs.handle_listener2(&sh, Incoming::Other, &from, later(0).mono).is_none());
    assert!(is_console(&mapped("127.0.0.1", 5)));
    assert!(!is_console(&from));
}

#[test]
fn datagram_request_answers_by_datagram() {
    let rs = server();
    let mut sh = Shared::new(false, false);
    let ph = PunchHoleRequest {
        id: "nobody".to_owned(),
        nat_type: 0,
        licence_key: String::new(),
        token: String::new(),
    };
    let from = at("1.1.1.1", 5);
    match rs.handle_udp_punch_hole_request(&mut sh, &ph, &from, "", "", later(0)) {
        Action::Udp { to, msg: Outgoing::PunchHoleResponse(r) } => {
            assert_eq!(to, from.addr);
            assert_eq!(r.failure, PunchFailure::IdNotExist);
        }
        other => panic!("{other:?}"),
    }
}

#[test]
fn relay_servers_that_answer_are_kept() {
    let mut rs = server();
    rs.relays_checked(vec!["relay-b".to_owned()]);
    assert_eq!(rs.relay_servers, vec!["relay-b".to_owned()]);
    assert_eq!(rs.relay_servers0.len(), 2);
    rs.relays_checked(Vec::new());
    assert_eq!(rs.relay_servers, vec!["relay-b".to_owned()]);
    rs.parse_relay_servers(vec!["x".to_owned()]);
    assert_eq!(rs.relay_servers, vec!["x".to_owned()]);
    assert_eq!(rs.relay_servers0, vec!["x".to_owned()]);
    assert_eq!(rs.dup().relay_servers, rs.relay_servers);
}

#[test]
fn local_address_needs_a_mask() {
    assert_eq!(server().inner.local_ip, "");
    let mask = Network::parse("10.0.0.0/8");
    let rs = server_with(0, mask, None, &[]);
    assert_eq!(rs.inner.local_ip, "192.168.1.1");
    assert!(rs.is_lan(v4("10.9.9.9", 0)));
    assert!(!rs.is_lan(v4("11.9.9.9", 0)));
    assert!(rs.is_lan(SocketAddress::new(IpAddress::V6(0xffff_0a00_0001), 5)));
    assert!(!server().is_lan(v4("10.9.9.9", 0)));
}

#[test]
fn registration_touches_only_its_own_id() {
    let mut sh = Shared::new(false, false);
    try_pk(&mut sh, register_pk("peer-1"), "1.1.1.1", false, 0);
    try_pk(&mut sh, register_pk("peer-2"), "2.2.2.2", false, 1);
    try_pk(&mut sh, register_pk("peer-2"), "3.3.3.3", false, 2);
    let p = sh.peers.get("peer-1").unwrap();
    assert_eq!((p.ip.as_str(), p.reg_pk), ("1.1.1.1", (1, later(0).mono)));
    let q = sh.peers.get("peer-2").unwrap();
    assert_eq!((q.ip.as_str(), q.reg_pk), ("3.3.3.3", (2, later(2).mono)));
    assert!(sh.punch_reqs.entries.is_empty());
    assert_eq!(sh.routes.ws_peer_count(), 0);
}

#[test]
fn message_changes_only_the_route_of_its_sender() {
    let rs = server();
    let mut sh = Shared::new(false, false);
    let mut a = Client::new(&mut sh, true, at("10.0.0.1", 5));
    a.register(&rs, &mut sh, "peer-a", later(0));
    let mut b = Client::new(&mut sh, true, at("10.0.0.2", 5));
    b.register(&rs, &mut sh, "peer-b", later(0));
    b.say(&rs, &mut sh, punch("peer-a", "", ""), later(0));
    b.say(&rs, &mut sh, Incoming::Other, later(0));
    let push = |c: &Client| PeerRoute::Push { conn: c.conn.id };
    assert_eq!(sh.routes.route_to_peer(a.from.key), push(&a));
    assert_eq!(sh.routes.route_to_peer(b.from.key), push(&b));
    b.conn.end(&mut sh.routes, b.from.key);
    assert_eq!(sh.routes.route_to_peer(a.from.key), push(&a));
    assert_eq!(sh.routes.ws_peer_count(), 1);
}

#[test]
fn minted_token_lets_in_until_it_expires() {
    let rs = server();
    let mut sh = Shared::new(false, true);
    let token = generate_token(1, 100, START as i64, "secret").unwrap();
    let mut c = Client::new(&mut sh, true, at("10.0.0.1", 5));
    c.secret = "secret".to_owned();
    let r = punch_response(only(c.say(&rs, &mut sh, punch("nobody", "", &token), later(99))));
    assert_eq!(r.failure, PunchFailure::IdNotExist);
    let r = punch_response(only(c.say(&rs, &mut sh, punch("nobody", "", &token), later(100))));
    assert_eq!(r.other_failure, "Token error, please log out and log back in!");
}

#[test]
fn required_relay_leaves_no_direct_connection() {
    let mask = Network::parse("192.168.1.0/24");
    let rs = server_with(0, mask, None, &["relay-a"]);
    let mut sh = Shared::new(true, false);
    let mut b = Client::new(&mut sh, true, at("10.0.0.2", 5));
    b.register(&rs, &mut sh, "peer-b", later(0));
    let mut l = Client::new(&mut sh, true, at("192.168.1.5", 5));
    l.register(&rs, &mut sh, "lan-peer", later(0));
    // From the peer's own address, and between two addresses of the local network.
    for (from, id, relay) in
        [("10.0.0.2", "peer-b", "relay-a"), ("192.168.1.6", "lan-peer", "192.168.1.1")]
    {
        let mut a = Client::new(&mut sh, false, at(from, 9));
        let step = a.say(&rs, &mut sh, punch(id, "", ""), later(1));
        match &step.actions[1] {
            Action::ToPeer { msg: Outgoing::PunchHole { nat_type, relay_server, .. }, .. } => {
                assert_eq!(*nat_type, NatType::Symmetric);
                assert_eq!(relay_server, relay);
            }
            other => panic!("{other:?}"),
        }
    }
    // Without the option both are asked for their local address.
    sh.always_use_relay = false;
    for (from, id) in [("10.0.0.2", "peer-b"), ("192.168.1.6", "lan-peer")] {
        let mut a = Client::new(&mut sh, false, at(from, 9));
        let step = a.say(&rs, &mut sh, punch(id, "", ""), later(1));
        assert!(matches!(
            &step.actions[1],
            Action::ToPeer { msg: Outgoing::FetchLocalAddr { .. }, .. }
        ));
    }
}

#[test]
fn key_is_kept_when_the_write_half_is_put_aside() {
    let rs = server();
    let mut sh = Shared::new(false, false);
    let mut c = Client::new(&mut sh, false, at("10.0.0.1", 5));
    assert!(!c.conn.writes_encrypted());
    assert!(c.conn.key_opened(true));
    assert!(c.conn.writes_encrypted() && c.conn.reads_encrypted());
    c.say(&rs, &mut sh, punch("nobody", "", ""), later(0));
    assert!(!c.conn.sink_here && c.conn.writes_encrypted());
    // A key that does not open takes nothing away.
    assert!(!c.conn.key_opened(false));
    assert!(c.conn.writes_encrypted());
    // A write half that is not here gets no key.
    let mut d = Client::new(&mut sh, false, at("10.0.0.1", 6));
    d.say(&rs, &mut sh, punch("nobody", "", ""), later(0));
    assert!(d.conn.key_opened(true));
    assert!(!d.conn.writes_encrypted());
}

#[test]
fn two_hundred_connections_leave_no_route() {
    let rs = server();
    let mut sh = Shared::new(false, false);
    for i in 0..200u64 {
        let ip = format!("10.0.0.{i}");
        let ws = i % 2 == 0;
        let mut c = Client::new(&mut sh, ws, at(&ip, 5));
        c.register(&rs, &mut sh, &format!("peer-{i:03}"), later(0));
        c.say(&rs, &mut sh, punch("nobody", "", ""), later(0));
        let left = c.conn.end(&mut sh.routes, c.from.key);
        assert_eq!(left, if ws { None } else { Some(c.conn.id) });
        assert_eq!(sh.routes.route_to_tcp(c.from.key), TcpRoute::Nowhere);
    }
    assert_eq!(sh.routes.ws_peer_count(), 0);
}

#[test]
fn clock_is_only_needed_to_judge_a_token() {
    assert!(needs_clock(&punch("peer-1", "key", "token"), "key", true, "secret"));
    assert!(needs_clock(&punch("peer-1", "any", "token"), "", true, "secret"));
    assert!(!needs_clock(&punch("peer-1", "other", "token"), "key", true, "secret"));
    assert!(!needs_clock(&punch("peer-1", "key", ""), "key", true, "secret"));
    assert!(!needs_clock(&punch("peer-1", "key", "token"), "key", false, "secret"));
    assert!(!needs_clock(&punch("peer-1", "key", "token"), "key", true, ""));
    assert!(!needs_clock(&Incoming::Other, "key", true, "secret"));
    // All else is served at the start of 1970 too.
    let rs = server();
    let mut sh = Shared::new(false, true);
    let mut c = Client::new(&mut sh, true, at("10.0.0.1", 5));
    let early = Now { mono: 0, wall: 0 };
    c.register(&rs, &mut sh, "peer-1", early);
    let r = punch_response(only(c.say(&rs, &mut sh, punch("peer-1", "", ""), early)));
    assert_eq!(r.other_failure, "Connection failed, please login!");
}
