use hbbs::addr::{Endpoint, IpAddress, SocketAddress};
use hbbs::clock::Now;
use hbbs::keys::ServerKey;
use hbbs::limits::IpChange;
use hbbs::punch_log::PunchReq;
use hbbs::server::RendezvousServer;
use hbbs::startup::{
    idle_secs, must_login, self_test, self_test_failed, self_test_retry, self_test_target,
    udp_bind_addrs, LoopAction, LoopEvent, LoopFailure, Options, Ports, SelfTest, Source,
};
use hbbs::state::Shared;
use hbbs::table::Table;
use hbbs::tcp::Conn;
use hbbs::ws::{real_address, Header, WsAction, WsEvent, WsWatch};

const SEC: u64 = 1_000_000_000;

fn now(secs: u64) -> Now {
    Now { mono: secs * SEC, wall: (1_700_000_000 + secs) * SEC }
}

fn server(relays: &[&str]) -> RendezvousServer {
    RendezvousServer::new(
        0,
        String::new(),
        String::new(),
        None,
        String::new(),
        None,
        vec![0; 32],
        Vec::new(),
        relays.iter().map(|r| r.to_string()).collect(),
    )
}

fn say(rs: &RendezvousServer, sh: &mut Shared, cmd: &str, at: u64) -> String {
    let r = rs.check_cmd(sh, cmd, (true, true), now(at), 360);
    assert!(r.relays.is_none());
    r.text
}

// Console.

#[test]
fn help_lists_the_commands() {
    let text = say(&server(&[]), &mut Shared::new(false, false), "h\n", 0);
    let lines: Vec<&str> = text.lines().collect();
    assert_eq!(
        lines,
        vec![
            "relay-servers(rs) <separated by ,>",
            "reload-geo(rg)",
            "ip-blocker(ib) [<ip>|<number>] [-]",
            "ip-changes(ic) [<id>|<number>] [-]",
            "punch-requests(pr) [<number>] [-]",
            "always-use-relay(aur) [Y|N]",
            "test-geo(tg) <ip1> <ip2>",
            "must-login(ml) [Y|N]",
            "ws-peers(wp)",
        ]
    );
    assert!(text.ends_with('\n'));
}

#[test]
fn unknown_commands_are_answered_with_nothing() {
    let (rs, mut sh) = (server(&["a"]), Shared::new(false, false));
    for cmd in ["", "  ", "x", "H", "reload-geo", "rg"] {
        assert_eq!(say(&rs, &mut sh, cmd, 0), "");
    }
}

#[test]
fn relay_servers_are_shown_and_set() {
    let (rs, mut sh) = (server(&["a", "b"]), Shared::new(false, false));
    assert_eq!(say(&rs, &mut sh, "rs", 0), "a\nb\n");
    assert_eq!(say(&rs, &mut sh, "relay-servers", 0), "a\nb\n");
    let r = rs.check_cmd(&mut sh, "rs x,y", (false, false), now(0), 360);
    assert_eq!(r.text, "");
    assert_eq!(r.relays, Some("x,y".to_owned()));
}

#[test]
fn switches_are_shown_and_set() {
    let (rs, mut sh) = (server(&[]), Shared::new(false, false));
    assert_eq!(say(&rs, &mut sh, "ml", 0), "MUST_LOGIN: false\n");
    assert_eq!(say(&rs, &mut sh, "ml y", 0), "");
    assert!(sh.must_login);
    assert_eq!(say(&rs, &mut sh, "must-login", 0), "MUST_LOGIN: true\n");
    assert_eq!(say(&rs, &mut sh, "ml anything", 0), "");
    assert!(!sh.must_login);
    assert_eq!(say(&rs, &mut sh, "aur", 0), "ALWAYS_USE_RELAY: false\n");
    let r = rs.check_cmd(&mut sh, "aur Y", (false, false), now(0), 360);
    assert_eq!(r.relays, Some("Y".to_owned()));
    assert!(sh.always_use_relay);
    let r = rs.check_cmd(&mut sh, "always-use-relay N", (false, false), now(0), 360);
    assert_eq!(r.relays, Some("N".to_owned()));
    assert!(!sh.always_use_relay);
}

#[test]
fn websocket_peers_are_counted() {
    let (rs, mut sh) = (server(&[]), Shared::new(false, false));
    assert_eq!(say(&rs, &mut sh, "wp", 0), "ws peers: 0\n");
    for port in 0..12u16 {
        sh.routes.register_ws_peer(SocketAddress::V4 { ip: 1, port }, port as u64);
    }
    assert_eq!(say(&rs, &mut sh, "ws-peers", 0), "ws peers: 12\n");
}

#[test]
fn relay_turns_can_be_tried() {
    let (rs, mut sh) = (server(&["a", "b \"c\""]), Shared::new(false, false));
    assert_eq!(say(&rs, &mut sh, "tg 1.1.1.1", 0), "\"a\"");
    assert_eq!(say(&rs, &mut sh, "test-geo 1.1.1.1 2.2.2.2", 0), "\"b \\\"c\\\"\"");
    assert_eq!(say(&rs, &mut sh, "tg", 0), "");
    let bad = rs.check_cmd(&mut sh, "tg x", (false, false), now(0), 360);
    assert_eq!(bad.text, "");
    let bad = rs.check_cmd(&mut sh, "tg 1.1.1.1 x", (true, false), now(0), 360);
    assert_eq!(bad.text, "");
    assert_eq!(sh.rotation, 2);
    // A second word that is not there does not count.
    let ok = rs.check_cmd(&mut sh, "tg 1.1.1.1", (true, false), now(0), 360);
    assert_eq!(ok.text, "\"a\"");
}

#[test]
fn addresses_are_listed_by_page_and_by_name() {
    let (rs, mut sh) = (server(&[]), Shared::new(false, false));
    for i in 0..12 {
        sh.ip_blocker.check_ip_blocker(&format!("1.1.1.{i}"), "peer-1", 0);
    }
    sh.ip_blocker.check_ip_blocker("1.1.1.0", "peer-1", 2 * SEC);
    let first = say(&rs, &mut sh, "ib", 5);
    let lines: Vec<&str> = first.lines().collect();
    assert_eq!(lines.len(), 11);
    assert_eq!(lines[0], "12");
    assert_eq!(lines[1], "1.1.1.0: 2/3s 1/3s");
    assert_eq!(lines[2], "1.1.1.1: 1/5s 0/5s");
    assert_eq!(say(&rs, &mut sh, "ib 10", 5), "12\n1.1.1.10: 1/5s 0/5s\n1.1.1.11: 1/5s 0/5s\n");
    assert_eq!(say(&rs, &mut sh, "ib 12", 5), "12\n");
    assert_eq!(say(&rs, &mut sh, "ib 2147483647", 5), "12\n");
    assert_eq!(say(&rs, &mut sh, "ip-blocker 1.1.1.0", 5), "12\n2/3s 1/3s\n");
    assert_eq!(say(&rs, &mut sh, "ib 9.9.9.9", 5), "12\n");
    // Shown and removed.
    assert_eq!(say(&rs, &mut sh, "ib 1.1.1.0 -", 5), "12\n2/3s 1/3s\n");
    assert_eq!(say(&rs, &mut sh, "ib 1.1.1.0", 5), "11\n");
    assert_eq!(say(&rs, &mut sh, "ib -1", 5), "11\n");
    // A number is a place, whatever follows.
    assert_eq!(say(&rs, &mut sh, "ib 10 -", 5), "11\n1.1.1.11: 1/5s 0/5s\n");
    // A day later they are gone.
    assert_eq!(say(&rs, &mut sh, "ib", 86_401), "0\n");
}

#[test]
fn moves_are_listed_by_page_and_by_name() {
    let (rs, mut sh) = (server(&[]), Shared::new(false, false));
    for id in ["123456789", "peer-2"] {
        sh.ip_changes.note(id, "1.1.1.1", 0, 180);
        sh.ip_changes.note(id, "2.2.2.2", 0, 180);
        sh.ip_changes.note(id, "2.2.2.2", 0, 180);
    }
    sh.ip_changes.note("never-moved", "1.1.1.1", 0, 180);
    let line = "7s {\"1.1.1.1\": 1, \"2.2.2.2\": 2}";
    assert_eq!(
        say(&rs, &mut sh, "ic", 7),
        format!("2\n123456789: {line}\npeer-2: {line}\n")
    );
    assert_eq!(say(&rs, &mut sh, "ic 1", 7), format!("2\npeer-2: {line}\n"));
    assert_eq!(say(&rs, &mut sh, "ip-changes peer-2", 7), format!("2\n{line}\n"));
    // A large number is an id.
    assert_eq!(say(&rs, &mut sh, "ic 123456789", 7), format!("2\n{line}\n"));
    assert_eq!(say(&rs, &mut sh, "ic 123456789 -", 7), format!("2\n{line}\n"));
    assert_eq!(say(&rs, &mut sh, "ic 123456789", 7), "1\n");
    assert_eq!(say(&rs, &mut sh, "ic", 360), "0\n");
}

#[test]
fn single_move_is_written_without_a_comma() {
    let (rs, mut sh) = (server(&[]), Shared::new(false, false));
    let mut ips = Table::new();
    ips.put("a".to_owned(), 5u64);
    ips.put("b".to_owned(), 6u64);
    sh.ip_changes.table.put("peer-1".to_owned(), IpChange { at: 0, ips });
    assert_eq!(say(&rs, &mut sh, "ic peer-1", 0), "1\n0s {\"a\": 5, \"b\": 6}\n");
}

#[test]
fn requests_are_listed_with_their_time() {
    let (rs, mut sh) = (server(&[]), Shared::new(false, false));
    for i in 0..12u64 {
        sh.punch_reqs.record(PunchReq {
            tm: i * SEC,
            from_ip: "1.1.1.1".to_owned(),
            to_ip: "2.2.2.2".to_owned(),
            to_id: format!("peer-{i}"),
        });
    }
    let text = say(&rs, &mut sh, "pr", 20);
    let lines: Vec<&str> = text.lines().collect();
    assert_eq!(lines.len(), 10);
    assert_eq!(lines[0], "2023-11-14T22:13:20Z 1.1.1.1 -> peer-0@2.2.2.2");
    assert_eq!(lines[9], "2023-11-14T22:13:29Z 1.1.1.1 -> peer-9@2.2.2.2");
    assert_eq!(
        say(&rs, &mut sh, "punch-requests 11", 20),
        "2023-11-14T22:13:31Z 1.1.1.1 -> peer-11@2.2.2.2\n"
    );
    assert_eq!(say(&rs, &mut sh, "pr 2 3", 20).lines().count(), 3);
    assert_eq!(say(&rs, &mut sh, "pr 0 0", 20).lines().count(), 10);
    assert_eq!(say(&rs, &mut sh, "pr x 20", 20).lines().count(), 12);
    assert_eq!(say(&rs, &mut sh, "pr 18446744073709551615 5", 20), "");
    assert_eq!(say(&rs, &mut sh, "pr -", 20), "");
    assert!(sh.punch_reqs.entries.is_empty());
}

#[test]
fn request_before_1970_has_a_time_too() {
    let (rs, mut sh) = (server(&[]), Shared::new(false, false));
    sh.punch_reqs.record(PunchReq {
        tm: 0,
        from_ip: "a".to_owned(),
        to_ip: "b".to_owned(),
        to_id: "c".to_owned(),
    });
    let late = Now { mono: 100 * SEC + SEC / 2, wall: 60 * SEC };
    let r = rs.check_cmd(&mut sh, "pr", (false, false), late, 360);
    assert_eq!(r.text, "1969-12-31T23:59:19Z a -> c@b\n");
}

// Websockets.

#[test]
fn idle_websockets_are_closed() {
    // One second.
    let idle = idle_secs("", "1") * 1000;
    let mut w = WsWatch::new(idle, 0);
    assert_eq!(w.poll_ms(), 1000);
    assert_eq!(w.step(WsEvent::Frame { binary: true }, 10), WsAction::Handle);
    assert_eq!(w.step(WsEvent::Pushed, SEC / 2), WsAction::Write);
    assert_eq!(w.step(WsEvent::Quiet, SEC), WsAction::Ping);
    assert_eq!(w.step(WsEvent::Quiet, SEC + 10), WsAction::Close);
}

#[test]
fn answered_pings_keep_a_websocket_open() {
    let mut w = WsWatch::new(90_000, 0);
    assert_eq!(w.poll_ms(), 30_000);
    for i in 1..10 {
        assert_eq!(w.step(WsEvent::Quiet, i * 30 * SEC), WsAction::Ping);
        assert_eq!(w.step(WsEvent::Frame { binary: false }, i * 30 * SEC + 5), WsAction::Wait);
    }
    // Then it falls silent.
    assert_eq!(w.step(WsEvent::Quiet, 300 * SEC), WsAction::Ping);
    assert_eq!(w.step(WsEvent::Quiet, 330 * SEC), WsAction::Ping);
    assert_eq!(w.step(WsEvent::Quiet, 360 * SEC + 5), WsAction::Close);
}

#[test]
fn ended_websockets_are_closed() {
    let mut w = WsWatch::new(90_000, 0);
    assert_eq!(w.step(WsEvent::Ended, 0), WsAction::Close);
    assert_eq!(w.step(WsEvent::Deaf, 0), WsAction::Close);
}

#[test]
fn proxy_headers_give_the_address() {
    let text = |s: &str| Header::Text(s.to_owned());
    let none = Header::Absent;
    assert_eq!(real_address(&text("10.20.0.1"), &none), Some("10.20.0.1:0".to_owned()));
    assert_eq!(real_address(&text("fe80::1"), &none), Some("[fe80::1]:0".to_owned()));
    assert_eq!(real_address(&none, &text("1.2.3.4")), Some("1.2.3.4:0".to_owned()));
    assert_eq!(real_address(&text("1.1.1.1"), &text("2.2.2.2")), Some("1.1.1.1:0".to_owned()));
    assert_eq!(real_address(&Header::Unreadable, &text("2.2.2.2")), None);
    assert_eq!(real_address(&none, &Header::Unreadable), None);
    assert_eq!(real_address(&none, &Header::Absent), None);
}

#[test]
fn ended_connections_are_forgotten() {
    let mut sh = Shared::new(false, false);
    let key = SocketAddress::V4 { ip: 1, port: 2 };
    let old = Conn::new(sh.routes.accept(), true);
    let new = Conn::new(sh.routes.accept(), true);
    sh.routes.register_ws_peer(key, old.id);
    sh.routes.register_ws_peer(key, new.id);
    assert_eq!(old.end(&mut sh.routes, key), None);
    assert_eq!(sh.routes.ws_peer_count(), 1);
    assert_eq!(new.end(&mut sh.routes, key), None);
    assert_eq!(sh.routes.ws_peer_count(), 0);
    // A plain connection whose write half is still here leaves what others put aside.
    sh.routes.park(key, 77);
    let plain = Conn::new(sh.routes.accept(), false);
    assert_eq!(plain.end(&mut sh.routes, key), None);
    assert_eq!(sh.routes.unpark(key), Some(77));
}

// Start-up.

fn options() -> Options {
    Options {
        mask: String::new(),
        always_use_relay: String::new(),
        must_login: String::new(),
        must_login_env: String::new(),
        ws_idle_timeout: String::new(),
        ws_idle_timeout_env: String::new(),
        test_hbbs: String::new(),
    }
}

#[test]
fn udp_listener_uses_bind_address() {
    let localhost = IpAddress::V4(0x7f00_0001);
    assert_eq!(
        udp_bind_addrs(Some(localhost), 0),
        vec![SocketAddress::V4 { ip: 0x7f00_0001, port: 0 }]
    );
    assert_eq!(
        udp_bind_addrs(None, 5),
        vec![
            SocketAddress::V6 { ip: 0, port: 5, flowinfo: 0, scope_id: 0 },
            SocketAddress::V4 { ip: 0, port: 5 },
        ]
    );
}

#[test]
fn ports_go_with_the_port() {
    assert_eq!(Ports::of(21116), Ports { main: 21116, nat: 21115, ws: 21118 });
    assert_eq!(Ports::of(0), Ports { main: 0, nat: 65535, ws: 2 });
    assert_eq!(Ports::of(65_537), Ports { main: 1, nat: 0, ws: 3 });
    assert_eq!(Ports::of(-65_536), Ports { main: 0, nat: 65535, ws: 2 });
}

#[test]
fn login_option_comes_before_the_environment() {
    assert!(must_login("Y", "") && must_login("y", "N") && must_login("", "Y"));
    assert!(!must_login("", "") && !must_login("N", "Y") && !must_login("", "yes"));
}

#[test]
fn idle_timeout_option_comes_before_the_environment() {
    assert_eq!(idle_secs("", ""), 90);
    assert_eq!(idle_secs("5", ""), 5);
    assert_eq!(idle_secs("5", "7"), 5);
    assert_eq!(idle_secs("", "7"), 7);
    assert_eq!(idle_secs("0", ""), 90);
    assert_eq!(idle_secs("x", "7"), 90);
    assert_eq!(idle_secs("-1", ""), 90);
}

#[test]
fn plan_follows_the_options() {
    let mut o = options();
    o.mask = "10.0.0.0/8".to_owned();
    o.always_use_relay = "y".to_owned();
    o.must_login_env = "Y".to_owned();
    o.ws_idle_timeout = "2".to_owned();
    o.test_hbbs = "NO".to_owned();
    let plan = RendezvousServer::start_with_bind(Some(IpAddress::V6(1)), 21116, "-", &o);
    assert_eq!(plan.ports, Ports { main: 21116, nat: 21115, ws: 21118 });
    assert_eq!(
        plan.udp,
        vec![SocketAddress::V6 { ip: 1, port: 21116, flowinfo: 0, scope_id: 0 }]
    );
    assert!(matches!(plan.key, ServerKey::Own { shown: true }));
    assert_eq!(plan.mask.unwrap().prefix, 8);
    assert!(plan.always_use_relay && plan.must_login);
    assert_eq!(plan.idle_ms, 2000);
    assert!(matches!(plan.self_test, SelfTest::Off));
    let plan = RendezvousServer::start(21116, "", &options());
    assert_eq!(plan.udp.len(), 2);
    assert!(matches!(plan.key, ServerKey::Own { shown: false }));
    assert!(plan.mask.is_none() && !plan.always_use_relay && !plan.must_login);
    assert_eq!(plan.idle_ms, 90_000);
    assert!(matches!(plan.self_test, SelfTest::Here));
}

#[test]
fn self_test_goes_to_an_address_that_can_be_reached() {
    assert!(matches!(self_test("1.2.3.4:5"), SelfTest::At(a) if a == "1.2.3.4:5"));
    let any6 = SocketAddress::V6 { ip: 0, port: 5, flowinfo: 3, scope_id: 4 };
    let any4 = SocketAddress::V4 { ip: 0, port: 5 };
    assert_eq!(
        self_test_target(any6),
        SocketAddress::V6 { ip: 1, port: 5, flowinfo: 3, scope_id: 4 }
    );
    assert_eq!(self_test_target(any4), SocketAddress::V4 { ip: 0x7f00_0001, port: 5 });
    let one = SocketAddress::V4 { ip: 7, port: 5 };
    assert_eq!(self_test_target(one), one);
    assert_eq!(self_test_retry(any6), Some(any4));
    assert_eq!(self_test_retry(any4), None);
    assert_eq!(self_test_retry(one), None);
    assert!(!self_test_failed(0, 12 * SEC + 999_999_999));
    assert!(self_test_failed(0, 13 * SEC));
}

#[test]
fn failed_sockets_are_opened_anew() {
    let rs = server(&["a", "b"]);
    let ports = Ports::of(21116);
    for (from, failure, port) in [
        (Source::Udp, LoopFailure::UdpSocket, 21116),
        (Source::Main, LoopFailure::Listener, 21116),
        (Source::Nat, LoopFailure::Listener2, 21115),
        (Source::Console, LoopFailure::ConsoleListener, 21115),
        (Source::Websocket, LoopFailure::Listener3, 21118),
    ] {
        assert_eq!(rs.io_loop(LoopEvent::Failed { from }), LoopAction::Reopen(failure));
        assert_eq!(failure.port(&ports), port);
    }
    assert_eq!(rs.io_loop(LoopEvent::Tick), LoopAction::CheckRelays);
    assert_eq!(server(&["a"]).io_loop(LoopEvent::Tick), LoopAction::Nothing);
    let arrived = |from| rs.io_loop(LoopEvent::Arrived { from });
    assert_eq!(arrived(Source::Udp), LoopAction::Datagram);
    assert_eq!(arrived(Source::Main), LoopAction::Serve { ws: false });
    assert_eq!(arrived(Source::Websocket), LoopAction::Serve { ws: true });
    assert_eq!(arrived(Source::Nat), LoopAction::ServeHelper);
    assert_eq!(arrived(Source::Console), LoopAction::ServeHelper);
}

#[test]
fn endpoint_copies_are_equal() {
    let e = Endpoint {
        addr: SocketAddress::V4 { ip: 1, port: 2 },
        key: SocketAddress::V4 { ip: 1, port: 2 },
        ip_text: "0.0.0.1".to_owned(),
        key_ip_text: "0.0.0.1".to_owned(),
    };
    let d = e.dup();
    assert_eq!((d.addr, d.key), (e.addr, e.key));
    assert_eq!((d.ip_text, d.key_ip_text), (e.ip_text, e.key_ip_text));
}

#[test]
fn console_leaves_peers_and_routes_alone() {
    let (rs, mut sh) = (server(&["a", "b"]), Shared::new(false, false));
    sh.peers.load("peer-1".to_owned(), vec![1], vec![2], "1.1.1.1".to_owned());
    sh.routes.register_ws_peer(SocketAddress::V4 { ip: 1, port: 1 }, 1);
    for cmd in ["h", "rs", "ib - -", "ic - -", "pr -", "aur Y", "ml Y", "wp", "tg 1.1.1.1", "peer-1"] {
        rs.check_cmd(&mut sh, cmd, (true, true), now(0), 360);
    }
    assert!(sh.peers.has("peer-1"));
    assert_eq!(sh.routes.ws_peer_count(), 1);
}

#[test]
fn blocked_address_stays_listed() {
    let (rs, mut sh) = (server(&[]), Shared::new(false, false));
    for _ in 0..30 {
        sh.ip_blocker.check_ip_blocker("1.1.1.1", "peer-1", 0);
    }
    assert_eq!(say(&rs, &mut sh, "ib", 60), "1\n1.1.1.1: 30/60s 1/60s\n");
    assert!(!sh.ip_blocker.allows("1.1.1.1", "peer-1", 60 * SEC));
    // Until it is taken off.
    say(&rs, &mut sh, "ib 1.1.1.1 -", 60);
    assert!(sh.ip_blocker.allows("1.1.1.1", "peer-1", 60 * SEC));
}

#[test]
fn pushes_do_not_keep_a_silent_websocket() {
    // Nothing comes in any more, and something is pushed twice in every interval between looks.
    for idle in [1_000, 40_000, 90_000] {
        let mut w = WsWatch::new(idle, 0);
        let poll = w.poll_ms();
        let mut now_ms = 0;
        let closed = loop {
            let due = w.due_ms(now_ms * 1_000_000);
            assert!(due <= poll);
            if due <= poll / 2 {
                now_ms += due;
                if w.step(WsEvent::Quiet, now_ms * 1_000_000) == WsAction::Close {
                    break now_ms;
                }
            } else {
                now_ms += poll / 2;
                assert_eq!(w.step(WsEvent::Pushed, now_ms * 1_000_000), WsAction::Write);
            }
            assert!(now_ms < idle + poll);
        };
        assert!(idle <= closed && closed < idle + poll, "{idle}: {closed}");
    }
}

#[test]
fn frames_put_the_look_off() {
    let mut w = WsWatch::new(90_000, 0);
    assert_eq!(w.due_ms(0), 30_000);
    assert_eq!(w.due_ms(29 * SEC), 1_000);
    assert_eq!(w.due_ms(31 * SEC), 0);
    w.step(WsEvent::Frame { binary: true }, 29 * SEC);
    assert_eq!(w.due_ms(29 * SEC), 30_000);
    w.step(WsEvent::Quiet, 59 * SEC);
    assert_eq!(w.due_ms(60 * SEC), 29_000);
}
