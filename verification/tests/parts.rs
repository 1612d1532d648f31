use hbbs::addr::{embedded_v4, Endpoint, IpAddress, Network, SocketAddress};
use hbbs::clock::{elapsed_millis, elapsed_secs};
use hbbs::keys::{get_server_sk, own_key, server_key_of, sign, ServerKey};
use hbbs::limits::{IpBlocker, IpChanges};
use hbbs::peer::PeerMap;
use hbbs::punch_log::{PunchLog, PunchReq};
use hbbs::relay::{get_relay_server, relay_host, relay_hosts};
use hbbs::routes::{PeerRoute, Routes, TcpRoute};
use hbbs::text::{
    decimal_text, has_char, is_no, is_yes, parse_i32, parse_u64, parse_usize, same_text,
    split_command, split_on,
};

const SEC: u64 = 1_000_000_000;

fn v4(a: u8, b: u8, c: u8, d: u8, port: u16) -> SocketAddress {
    SocketAddress::V4 { ip: u32::from_be_bytes([a, b, c, d]), port }
}

fn at(a: u8, b: u8, c: u8, d: u8, port: u16) -> Endpoint {
    let text = format!("{a}.{b}.{c}.{d}");
    Endpoint {
        addr: v4(a, b, c, d, port),
        key: v4(a, b, c, d, port),
        ip_text: text.clone(),
        key_ip_text: text,
    }
}

fn owned(words: &[&str]) -> Vec<String> {
    words.iter().map(|w| w.to_string()).collect()
}

// Addresses.

#[test]
fn loopback_and_unspecified() {
    assert!(v4(127, 0, 0, 1, 1).ip().is_loopback());
    assert!(v4(127, 255, 0, 1, 1).ip().is_loopback());
    assert!(!v4(128, 0, 0, 1, 1).ip().is_loopback());
    assert!(IpAddress::V6(1).is_loopback());
    assert!(!IpAddress::V6(0xffff_7f00_0001).is_loopback());
    assert!(IpAddress::V4(0).is_unspecified());
    assert!(IpAddress::V6(0).is_unspecified());
    assert!(!IpAddress::V6(1).is_unspecified());
    assert_eq!(v4(1, 2, 3, 4, 99).port(), 99);
}

#[test]
fn ipv4_inside_ipv6() {
    assert_eq!(embedded_v4(0xffff_0a00_0001), Some(0x0a00_0001));
    assert_eq!(embedded_v4(0x0a00_0001), Some(0x0a00_0001));
    assert_eq!(embedded_v4(0xfffe_0a00_0001), None);
    assert_eq!(embedded_v4(1 << 100), None);
}

#[test]
fn network_is_parsed_and_contains() {
    let n = Network::parse("192.168.1.0/24").unwrap();
    assert_eq!(n, Network { addr: 0xc0a8_0100, prefix: 24 });
    assert!(n.contains(v4(192, 168, 1, 77, 0).ip()));
    assert!(!n.contains(v4(192, 168, 2, 77, 0).ip()));
    assert!(n.contains(IpAddress::V6(0xffff_c0a8_0105)));
    assert!(!n.contains(IpAddress::V6(0xfffe_c0a8_0105)));
    let all = Network::parse("10.1.2.3/0").unwrap();
    assert!(all.contains(v4(200, 1, 1, 1, 0).ip()));
    let one = Network::parse("10.1.2.3/32").unwrap();
    assert!(one.contains(v4(10, 1, 2, 3, 0).ip()));
    assert!(!one.contains(v4(10, 1, 2, 2, 0).ip()));
    assert_eq!(Network::parse(""), None);
    assert_eq!(Network::parse("10.0.0.0/33"), None);
    assert_eq!(Network::parse("fe80::/10"), None);
}

#[test]
fn elapsed_time_does_not_run_backwards() {
    assert_eq!(elapsed_secs(5 * SEC + 999_999_999, 3 * SEC), 2);
    assert_eq!(elapsed_secs(3 * SEC, 5 * SEC), 0);
    assert_eq!(elapsed_millis(2_999_999, 1_000_000), 1);
    assert_eq!(elapsed_millis(1, 2), 0);
}

// Text.

#[test]
fn commands_are_trimmed_and_split() {
    assert_eq!(split_command("ib 1.2.3.4 -\n"), owned(&["ib", "1.2.3.4", "-"]));
    assert_eq!(split_command(" \t pr  5\u{2003}\r\n"), owned(&["pr", "", "5"]));
    assert_eq!(split_command(""), owned(&[""]));
    assert_eq!(split_command("   "), owned(&[""]));
    assert_eq!(split_command("a\tb"), owned(&["a\tb"]));
    assert_eq!(split_command("é ü"), owned(&["é", "ü"]));
}

#[test]
fn trimming_and_splitting_agree_with_the_standard_library() {
    for s in ["x", " x y ", "\u{85}x\u{a0}", "\u{1680}a b\u{3000}", "\u{200b}x", "\u{b}\u{c}q  "] {
        let words: Vec<String> = s.trim().split(' ').map(|w| w.to_owned()).collect();
        assert_eq!(split_command(s), words, "{:?}", s);
    }
}

#[test]
fn numbers_are_read_like_the_standard_library_reads_them() {
    for s in [
        "", "0", "-0", "+0", "7", "+7", "-7", "007", "--7", "+-7", "7a", " 7", "-", "+",
        "2147483647", "2147483648", "-2147483648", "-2147483649", "18446744073709551615",
        "18446744073709551616", "99999999999999999999999", "\u{664}",
    ] {
        assert_eq!(parse_i32(s), s.parse::<i32>().ok(), "{:?}", s);
        assert_eq!(parse_u64(s), s.parse::<u64>().ok(), "{:?}", s);
        assert_eq!(parse_usize(s), s.parse::<usize>().ok(), "{:?}", s);
    }
}

#[test]
fn numbers_are_written_in_decimal() {
    for n in [0u64, 7, 10, 99, 100, 12345, u64::MAX] {
        assert_eq!(decimal_text(n), n.to_string());
    }
}

#[test]
fn yes_and_no() {
    assert!(is_yes("Y") && is_yes("y"));
    assert!(!is_yes("") && !is_yes("yes") && !is_yes("N"));
    assert!(is_no("no") && is_no("NO") && is_no("nO") && is_no("No"));
    assert!(!is_no("") && !is_no("n"));
    assert!(has_char("a:b", ':') && !has_char("ab", ':'));
}

// Limits.

#[test]
fn busy_address_is_blocked_after_thirty() {
    let mut b = IpBlocker::new();
    let mut now = 1000 * SEC;
    for i in 0..30 {
        assert!(b.check_ip_blocker("1.1.1.1", "peer-1", now), "registration {i}");
        now += SEC;
    }
    assert!(!b.allows("1.1.1.1", "peer-1", now));
    assert!(!b.check_ip_blocker("1.1.1.1", "peer-1", now));
    // Another address is not.
    assert!(b.check_ip_blocker("2.2.2.2", "peer-1", now));
    // Still within the minute, then a minute of quiet later.
    assert!(!b.check_ip_blocker("1.1.1.1", "peer-1", now + 59 * SEC));
    assert!(b.check_ip_blocker("1.1.1.1", "peer-1", now + 60 * SEC));
}

#[test]
fn address_may_name_only_so_many_ids() {
    let mut b = IpBlocker::new();
    let mut now = 1000 * SEC;
    assert!(b.check_ip_blocker("1.1.1.1", "first0", now));
    for i in 0..301 {
        now += 61 * SEC;
        assert!(b.check_ip_blocker("1.1.1.1", &format!("peer-{i}"), now), "{i}");
    }
    now += 61 * SEC;
    assert!(!b.check_ip_blocker("1.1.1.1", "one-more", now));
    now += 61 * SEC;
    assert!(b.check_ip_blocker("1.1.1.1", "peer-7", now));
    // The list is as old as the last id that was let in.
    assert!(b.check_ip_blocker("1.1.1.1", "one-more", now + 86_401 * SEC));
}

#[test]
fn pruning_keeps_what_is_recent() {
    let mut b = IpBlocker::new();
    b.check_ip_blocker("1.1.1.1", "a", 0);
    b.check_ip_blocker("2.2.2.2", "a", 86_401 * SEC);
    b.prune(86_401 * SEC);
    assert!(b.table.get("1.1.1.1").is_none());
    assert_eq!(b.table.get("2.2.2.2").unwrap().count, 1);
    assert_eq!(b.table.len(), 1);
}

#[test]
fn address_changes_are_counted() {
    let mut c = IpChanges::new();
    c.note("peer-1", "1.1.1.1", 0, 180);
    c.note("peer-1", "1.1.1.1", SEC, 180);
    c.note("peer-1", "2.2.2.2", 180 * SEC, 180);
    let e = c.table.get("peer-1").unwrap();
    assert_eq!(e.at, 0);
    assert_eq!(e.ips.get("1.1.1.1").copied(), Some(2));
    assert_eq!(e.ips.get("2.2.2.2").copied(), Some(1));
    // After that it starts anew.
    c.note("peer-1", "3.3.3.3", 181 * SEC, 180);
    let e = c.table.get("peer-1").unwrap();
    assert_eq!(e.at, 181 * SEC);
    assert_eq!(e.ips.len(), 1);
    c.prune(182 * SEC, 360);
    assert_eq!(c.table.len(), 0);
}

// Peers.

#[test]
fn heartbeat_of_an_unknown_peer_asks_for_its_key() {
    let mut p = PeerMap::new();
    assert!(p.update_addr("peer-1", &at(1, 1, 1, 1, 5), 0));
    assert!(!p.has("peer-1"));
}

#[test]
fn heartbeat_of_a_stored_peer_goes_by_its_ip() {
    let mut p = PeerMap::new();
    p.load("peer-1".to_owned(), vec![1], vec![2], "1.1.1.1".to_owned());
    assert!(p.update_addr("peer-1", &at(2, 2, 2, 2, 5), 7 * SEC));
    assert!(!p.get("peer-1").unwrap().online(7 * SEC));
    assert!(!p.update_addr("peer-1", &at(1, 1, 1, 1, 5), 7 * SEC));
    assert!(p.get("peer-1").unwrap().online(7 * SEC));
    // From now on the socket address counts; the loopback address says nothing.
    assert!(p.update_addr("peer-1", &at(2, 2, 2, 2, 5), 8 * SEC));
    assert!(!p.update_addr("peer-1", &at(127, 0, 0, 1, 5), 8 * SEC));
    // A peer without a key is always asked.
    p.load("peer-2".to_owned(), vec![1], vec![], "1.1.1.1".to_owned());
    assert!(p.update_addr("peer-2", &at(1, 1, 1, 1, 5), 8 * SEC));
    // Loading does not overwrite.
    p.load("peer-1".to_owned(), vec![9], vec![9], "9.9.9.9".to_owned());
    assert_eq!(p.get("peer-1").unwrap().pk, vec![2]);
}

#[test]
fn peer_is_online_for_thirty_seconds() {
    let mut p = PeerMap::new();
    p.load("peer-1".to_owned(), vec![1], vec![2], "1.1.1.1".to_owned());
    p.update_addr("peer-1", &at(1, 1, 1, 1, 5), 0);
    assert!(p.get("peer-1").unwrap().online(30 * SEC - 1));
    assert!(!p.get("peer-1").unwrap().online(30 * SEC));
    // Fifty days are not taken for a moment.
    assert!(!p.get("peer-1").unwrap().online(50 * 86_400 * SEC));
}

#[test]
fn online_states_start_at_the_top_bit() {
    let mut p = PeerMap::new();
    for id in ["a", "c", "i", "j"] {
        p.load(id.to_owned(), vec![1], vec![2], "1.1.1.1".to_owned());
        p.update_addr(id, &at(1, 1, 1, 1, 5), 0);
    }
    let ids = owned(&["a", "b", "c", "d", "e", "f", "g", "h", "i", "j"]);
    assert_eq!(p.peers_online_state(&ids, SEC), vec![0b1010_0000, 0b1100_0000]);
    assert_eq!(p.peers_online_state(&Vec::new(), SEC), Vec::<u8>::new());
    assert_eq!(p.peers_online_state(&owned(&["b"]), SEC), vec![0]);
    assert_eq!(p.peers_online_state(&ids, 31 * SEC), vec![0, 0]);
    let eight = owned(&["b", "b", "b", "b", "b", "b", "b", "a"]);
    assert_eq!(p.peers_online_state(&eight, SEC), vec![1]);
}

// Log.

fn req(tm: u64, from: &str, to: &str) -> PunchReq {
    PunchReq {
        tm,
        from_ip: from.to_owned(),
        to_ip: "9.9.9.9".to_owned(),
        to_id: to.to_owned(),
    }
}

#[test]
fn repeated_request_is_logged_once_a_minute() {
    let mut log = PunchLog::new();
    log.record(req(0, "1.1.1.1", "peer-1"));
    log.record(req(59 * SEC, "1.1.1.1", "peer-1"));
    assert_eq!(log.entries.len(), 1);
    log.record(req(59 * SEC, "1.1.1.1", "peer-2"));
    log.record(req(59 * SEC, "2.2.2.2", "peer-1"));
    assert_eq!(log.entries.len(), 3);
    log.record(req(60 * SEC, "1.1.1.1", "peer-1"));
    assert_eq!(log.entries.len(), 4);
    // The latest one counts.
    log.record(req(61 * SEC, "1.1.1.1", "peer-1"));
    assert_eq!(log.entries.len(), 4);
}

#[test]
fn only_the_tail_of_the_log_is_searched() {
    let mut log = PunchLog::new();
    log.record(req(0, "1.1.1.1", "peer-1"));
    for i in 0..29 {
        log.record(req(0, "2.2.2.2", &format!("other-{i}")));
    }
    log.record(req(0, "1.1.1.1", "peer-1"));
    assert_eq!(log.entries.len(), 30);
    log.record(req(0, "2.2.2.2", "other-29"));
    log.record(req(0, "1.1.1.1", "peer-1"));
    assert_eq!(log.entries.len(), 32);
}

// Relays.

#[test]
fn relay_servers_take_turns() {
    let servers = owned(&["a", "b", "c"]);
    let mut rotation = 0;
    let turns: Vec<String> = (0..4).map(|_| get_relay_server(&servers, &mut rotation)).collect();
    assert_eq!(turns, owned(&["a", "b", "c", "a"]));
    assert_eq!(rotation, 4);
    rotation = usize::MAX;
    get_relay_server(&servers, &mut rotation);
    assert_eq!(rotation, 0);
    assert_eq!(get_relay_server(&owned(&["a"]), &mut rotation), "a");
    assert_eq!(get_relay_server(&Vec::new(), &mut rotation), "");
    assert_eq!(rotation, 0);
}

#[test]
fn relay_host_has_a_port() {
    assert_eq!(relay_host(&"relay".to_owned()), "relay:21117");
    assert_eq!(relay_host(&"relay:5".to_owned()), "relay:5");
    assert_eq!(relay_hosts(&owned(&["a", "b:1"])), owned(&["a:21117", "b:1"]));
}

// Routes.

#[test]
fn closing_takes_back_only_the_own_registration() {
    let mut r = Routes::new();
    let key = v4(1, 1, 1, 1, 0);
    let (a, b) = (r.accept(), r.accept());
    assert_eq!((a, b), (0, 1));
    r.register_ws_peer(key, a);
    r.register_ws_peer(key, b);
    r.remove_ws_peer(key, a);
    assert_eq!(r.route_to_peer(key), PeerRoute::Push { conn: b });
    r.remove_ws_peer(key, b);
    assert_eq!(r.route_to_peer(key), PeerRoute::Datagram);
    assert_eq!(r.ws_peer_count(), 0);
}

#[test]
fn two_hundred_websockets_leave_an_empty_registry() {
    let mut r = Routes::new();
    for i in 0..200u16 {
        let conn = r.accept();
        r.register_ws_peer(v4(10, 0, 0, 1, i), conn);
    }
    assert_eq!(r.ws_peer_count(), 200);
    for i in 0..200u16 {
        r.remove_ws_peer(v4(10, 0, 0, 1, i), i as u64);
    }
    assert_eq!(r.ws_peer_count(), 0);
}

#[test]
fn push_comes_before_the_connection_put_aside() {
    let mut r = Routes::new();
    let key = v4(1, 1, 1, 1, 5);
    assert_eq!(r.park(key, 7), None);
    assert_eq!(r.park(key, 8), Some(7));
    r.register_ws_peer(key, 9);
    assert_eq!(r.route_to_tcp(key), TcpRoute::Push { conn: 9 });
    assert_eq!(r.route_to_tcp(key), TcpRoute::Push { conn: 9 });
    // The push fails.
    r.remove_ws_peer(key, 9);
    assert_eq!(r.route_to_tcp(key), TcpRoute::Parked { conn: 8 });
    assert_eq!(r.route_to_tcp(key), TcpRoute::Nowhere);
}

#[test]
fn flow_label_and_scope_are_part_of_the_address() {
    let mut r = Routes::new();
    r.register_ws_peer(SocketAddress::V6 { ip: 5, port: 6, flowinfo: 0, scope_id: 1 }, 3);
    let other = SocketAddress::V6 { ip: 5, port: 6, flowinfo: 0, scope_id: 2 };
    assert_eq!(r.route_to_peer(other), PeerRoute::Datagram);
}

#[test]
fn connection_numbers_start_again() {
    let mut r = Routes::new();
    r.next_conn = u64::MAX;
    assert_eq!(r.accept(), u64::MAX);
    assert_eq!(r.accept(), 0);
}

// Keys.

#[test]
fn secret_key_shows_its_public_half() {
    let (pk, sk) = sodiumoxide::crypto::sign::gen_keypair();
    match get_server_sk(&base64::encode(&sk.0[..])) {
        ServerKey::Given { key, sk: Some(bytes) } => {
            assert_eq!(key, base64::encode(pk.0));
            assert_eq!(bytes, sk.0.to_vec());
        }
        other => panic!("{other:?}"),
    }
}

#[test]
fn own_key_is_asked_for() {
    assert!(matches!(get_server_sk(""), ServerKey::Own { shown: false }));
    assert!(matches!(get_server_sk("-"), ServerKey::Own { shown: true }));
    assert!(matches!(get_server_sk("_"), ServerKey::Own { shown: true }));
    assert_eq!(own_key(true, "pk".to_owned(), Some(vec![1])), ("pk".to_owned(), Some(vec![1])));
    assert_eq!(own_key(false, "pk".to_owned(), None), (String::new(), None));
}

#[test]
fn other_keys_are_presented_as_they_are() {
    for text in ["secret!", "aGVsbG8=", "--"] {
        match get_server_sk(text) {
            ServerKey::Given { key, sk: None } => assert_eq!(key, text),
            other => panic!("{other:?}"),
        }
    }
    match server_key_of("x", Some(vec![7; 64])) {
        ServerKey::Given { key, sk: Some(sk) } => {
            assert_eq!(key, base64::encode([7u8; 32]));
            assert_eq!(sk, vec![7; 64]);
        }
        other => panic!("{other:?}"),
    }
    match server_key_of("x", Some(vec![7; 63])) {
        ServerKey::Given { key, sk: None } => assert_eq!(key, "x"),
        other => panic!("{other:?}"),
    }
}

#[test]
fn signature_verifies_and_ends_in_the_message() {
    let (pk, sk) = sodiumoxide::crypto::sign::gen_keypair();
    let signed = sign(&b"hello".to_vec(), &sk.0.to_vec());
    assert_eq!(signed.len(), 69);
    assert_eq!(&signed[64..], b"hello");
    assert_eq!(sodiumoxide::crypto::sign::verify(&signed, &pk), Ok(b"hello".to_vec()));
    assert_eq!(signed, sign(&b"hello".to_vec(), &sk.0.to_vec()));
}

#[test]
fn routes_to_other_addresses_are_left_alone() {
    let mut r = Routes::new();
    let (a, b) = (v4(1, 1, 1, 1, 5), v4(2, 2, 2, 2, 5));
    r.register_ws_peer(b, 1);
    r.register_ws_peer(a, 2);
    r.park(a, 3);
    r.remove_ws_peer(a, 2);
    r.route_to_tcp(a);
    r.unpark(a);
    assert_eq!(r.route_to_peer(b), PeerRoute::Push { conn: 1 });
    assert_eq!(r.ws_peer_count(), 1);
}

#[test]
fn registration_counts_once() {
    let mut r = Routes::new();
    r.register_ws_peer(v4(1, 1, 1, 1, 5), 1);
    assert_eq!(r.ws_peer_count(), 1);
    r.register_ws_peer(v4(1, 1, 1, 1, 5), 2);
    assert_eq!(r.ws_peer_count(), 1);
    r.register_ws_peer(v4(1, 1, 1, 1, 6), 3);
    assert_eq!(r.ws_peer_count(), 2);
}

#[test]
fn texts_are_compared_by_their_characters() {
    assert!(same_text("", "") && same_text("é", "\u{e9}") && same_text("abc", "abc"));
    assert!(!same_text("e\u{301}", "é") && !same_text("abc", "abd") && !same_text("ab", "abc"));
}

#[test]
fn text_is_cut_at_each_separator() {
    assert_eq!(split_on("a.b..c", '.'), owned(&["a", "b", "", "c"]));
    assert_eq!(split_on("", '.'), owned(&[""]));
    assert_eq!(split_on(".", '.'), owned(&["", ""]));
    assert_eq!(split_on("a b", '.'), owned(&["a b"]));
}
