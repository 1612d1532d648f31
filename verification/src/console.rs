//! The console: commands from this machine, and the texts that answer them.
use vstd::prelude::*;

use crate::clock::{elapsed_secs, spec_elapsed_secs, Now};
use crate::limits::{
    blocker_pruned, changes_pruned, IpBlocker, IpChange, IpChangeView, IpChanges, IpCounters,
    IpCountersView,
};
use crate::message::{opt_view, texts};
use crate::punch_log::{PunchLog, PunchReq, PunchReqView};
use crate::relay::{get_relay_server, relay_next, relay_turn};
use crate::server::{RendezvousServer, ServerView};
use crate::state::{Shared, SharedView};
use crate::table::{drop_row, keys_distinct, law_dropped_row_is_gone, lookup, Table};
use crate::text::{
    command_words, decimal, decimal_text, is_yes, law_written_number_is_read_back, parse_i32,
    parse_usize, parsed_i32, parsed_unsigned, same_text, spec_is_yes, split_command, within,
};

verus! {

/// How many rows of a list are shown at a time.
pub const PAGE: usize = 10;

/// The largest number that counts as a place in the list of address changes. Larger ones are ids.
pub const LAST_PLACE: i32 = 10_000_000;

/// A text in quotes, with escapes where it needs them.
pub uninterp spec fn quoted(text: Seq<char>) -> Seq<char>;

/// A moment of the calendar, in UTC, to the second.
pub uninterp spec fn utc_time(secs: i64) -> Seq<char>;

/// A letter, a digit or a sign that stands for itself between quotes.
pub open spec fn is_plain(c: char) -> bool {
    ' ' <= c <= '~' && c != '"' && c != '\\' && c != '\''
}

/// The standard library's `Debug` of a string: a function of the text. A text of plain characters
/// is put between quotes as it is; how others are escaped is not said.
#[verifier::external_body]
fn quote(text: &str) -> (r: String)
    ensures
        r@ == quoted(text@),
        (forall|i: int| 0 <= i < text@.len() ==> is_plain(#[trigger] text@[i])) ==> r@ == seq!['"']
            + text@ + seq!['"'],
{
    format!("{:?}", text)
}

/// `chrono`'s `DateTime::from_timestamp` and `to_rfc3339_opts`, to the second and with a `Z`: a
/// function of the number of seconds since 1970. The bounds are well within chrono's calendar.
#[verifier::external_body]
fn utc_time_text(secs: i64) -> (r: String)
    requires
        -20_000_000_000 <= secs <= 20_000_000_000,
    ensures
        r@ == utc_time(secs),
{
    chrono::DateTime::<chrono::Utc>::from_timestamp(secs, 0)
        .unwrap()
        .to_rfc3339_opts(chrono::SecondsFormat::Secs, true)
}

/// What a command comes to: the text that answers it, and a list of relay servers to be read from
/// another text.
#[derive(Debug)]
pub struct Console {
    pub text: String,
    pub relays: Option<String>,
}

/// What a command comes to, with the state afterwards.
#[verifier::ext_equal]
pub struct ConsoleView {
    pub text: Seq<char>,
    pub relays: Option<Seq<char>>,
    pub state: SharedView,
}

/// Lines, each with its end.
pub open spec fn lines(ls: Seq<Seq<char>>) -> Seq<char>
    decreases ls.len(),
{
    if ls.len() == 0 {
        Seq::empty()
    } else {
        lines(ls.drop_last()) + ls.last() + "\n"@
    }
}

/// Up to `n` items, from place `start` on.
pub open spec fn window<T>(s: Seq<T>, start: int, n: int) -> Seq<T> {
    let a = if start < s.len() {
        start
    } else {
        s.len() as int
    };
    let b = if a + n < s.len() {
        a + n
    } else {
        s.len() as int
    };
    s.subrange(a, b)
}

/// How often an address registered and for how many ids, and how long ago.
pub open spec fn counters_line(c: IpCountersView, now: u64) -> Seq<char> {
    decimal(c.count as nat) + "/"@ + decimal(spec_elapsed_secs(now, c.count_at) as nat) + "s "@
        + decimal(c.ids.len()) + "/"@ + decimal(spec_elapsed_secs(now, c.ids_at) as nat) + "s"@
}

/// An address, and how often a peer moved to it.
pub open spec fn move_item(row: (Seq<char>, u64)) -> Seq<char> {
    quoted(row.0) + ": "@ + decimal(row.1 as nat)
}

/// All addresses of a peer, with a comma between each two.
pub open spec fn move_items(ips: Seq<(Seq<char>, u64)>) -> Seq<char>
    decreases ips.len(),
{
    if ips.len() == 0 {
        Seq::empty()
    } else if ips.len() == 1 {
        move_item(ips[0])
    } else {
        move_items(ips.drop_last()) + ", "@ + move_item(ips.last())
    }
}

/// How long ago a peer started to move, and the addresses that it moved to.
pub open spec fn change_line(c: IpChangeView, now: u64) -> Seq<char> {
    decimal(spec_elapsed_secs(now, c.at) as nat) + "s "@ + "{"@ + move_items(c.ips) + "}"@
}

/// When, by the calendar, something happened at `tm` on the clock that only runs forward: seconds
/// since 1970.
pub open spec fn event_secs(tm: u64, now: Now) -> int {
    (now.wall - (if now.mono >= tm {
        now.mono - tm
    } else {
        0
    })) / 1_000_000_000
}

/// A request to be connected, with its time.
pub open spec fn request_line(e: PunchReqView, now: Now) -> Seq<char> {
    utc_time(event_secs(e.tm, now) as i64) + " "@ + e.from_ip + " -> "@ + e.to_id + "@"@ + e.to_ip
}

/// `true` or `false`.
pub open spec fn bool_word(b: bool) -> Seq<char> {
    if b {
        "true"@
    } else {
        "false"@
    }
}

/// The word at place `i`.
pub open spec fn word(words: Seq<Seq<char>>, i: int) -> Option<Seq<char>> {
    if i < words.len() {
        Some(words[i])
    } else {
        None
    }
}

/// The text of an optional word.
pub open spec fn word_of(arg: Option<&String>) -> Option<Seq<char>> {
    match arg {
        Some(w) => Some(w@),
        None => None,
    }
}

/// Where a list starts: at the place that the argument names, at the first one without an argument,
/// and at -1 where the argument is no number.
pub open spec fn list_start(arg: Option<Seq<char>>) -> int {
    match arg {
        None => 0,
        Some(w) => match parsed_i32(w) {
            Some(n) => n as int,
            None => -1,
        },
    }
}

/// The answer to a command that lists rows or picks one out: the number of rows, the row that the
/// argument names, and a page of them. A row that is named and followed by a minus sign is removed,
/// before the page.
pub open spec fn listing<T>(
    rows: Seq<(Seq<char>, T)>,
    arg: Option<Seq<char>>,
    named: bool,
    minus: bool,
    line: spec_fn(T) -> Seq<char>,
) -> (Seq<char>, Seq<(Seq<char>, T)>) {
    let start = list_start(arg);
    let found = if named {
        match lookup(rows, arg->0) {
            Some(v) => lines(seq![line(v)]),
            None => Seq::empty(),
        }
    } else {
        Seq::empty()
    };
    let kept = if named && minus {
        drop_row(rows, arg->0)
    } else {
        rows
    };
    let page = if start >= 0 {
        lines(
            window(kept, start, PAGE as int).map_values(
                |row: (Seq<char>, T)| row.0 + ": "@ + line(row.1),
            ),
        )
    } else {
        Seq::empty()
    };
    (decimal(rows.len()) + "\n"@ + found + page, kept)
}

/// The command that lists how often addresses registered.
pub open spec fn blocker_listing(
    rows: Seq<(Seq<char>, IpCountersView)>,
    arg: Option<Seq<char>>,
    minus: bool,
    now: u64,
) -> (Seq<char>, Seq<(Seq<char>, IpCountersView)>) {
    listing(
        blocker_pruned(rows, now),
        arg,
        list_start(arg) < 0,
        minus,
        |c: IpCountersView| counters_line(c, now),
    )
}

/// The command that lists which peers moved. A number that is too large for a place is an id, and
/// a place as well.
pub open spec fn changes_listing(
    rows: Seq<(Seq<char>, IpChangeView)>,
    arg: Option<Seq<char>>,
    minus: bool,
    now: u64,
    dur: u64,
) -> (Seq<char>, Seq<(Seq<char>, IpChangeView)>) {
    listing(
        changes_pruned(rows, now, dur),
        arg,
        arg is Some && !(0 <= list_start(arg) <= LAST_PLACE),
        minus,
        |c: IpChangeView| change_line(c, now),
    )
}

/// An optional number, and what stands for it where there is none.
pub open spec fn number_or(arg: Option<Seq<char>>, default: int) -> int {
    match arg {
        Some(w) => match within(parsed_unsigned(w), usize::MAX as nat) {
            Some(n) => n as int,
            None => default,
        },
        None => default,
    }
}

/// How many requests are shown at a time.
pub open spec fn page_size(arg: Option<Seq<char>>) -> int {
    if number_or(arg, PAGE as int) == 0 {
        PAGE as int
    } else {
        number_or(arg, PAGE as int)
    }
}

/// What the commands are.
pub open spec fn help_text() -> Seq<char> {
    "relay-servers(rs) <separated by ,>\nreload-geo(rg)\nip-blocker(ib) [<ip>|<number>] [-]\nip-changes(ic) [<id>|<number>] [-]\npunch-requests(pr) [<number>] [-]\nalways-use-relay(aur) [Y|N]\ntest-geo(tg) <ip1> <ip2>\nmust-login(ml) [Y|N]\nws-peers(wp)\n"@
}

/// What a command comes to. `ips` says of its second and its third word whether they are IP
/// addresses; `dur` is how long, in seconds, a peer's changes of address are worth showing.
pub open spec fn console_answer(
    srv: ServerView,
    sh: SharedView,
    words: Seq<Seq<char>>,
    ips: (bool, bool),
    now: Now,
    dur: u64,
) -> ConsoleView {
    let nothing = ConsoleView { text: Seq::empty(), relays: None, state: sh };
    let cmd = words[0];
    let arg = word(words, 1);
    let minus = word(words, 2) == Some("-"@);
    if cmd == "h"@ {
        ConsoleView { text: help_text(), ..nothing }
    } else if cmd == "relay-servers"@ || cmd == "rs"@ {
        match arg {
            Some(rs) => ConsoleView { relays: Some(rs), ..nothing },
            None => ConsoleView { text: lines(srv.relay_servers), ..nothing },
        }
    } else if cmd == "ip-blocker"@ || cmd == "ib"@ {
        let l = blocker_listing(sh.ip_blocker, arg, minus, now.mono);
        ConsoleView { text: l.0, relays: None, state: SharedView { ip_blocker: l.1, ..sh } }
    } else if cmd == "ip-changes"@ || cmd == "ic"@ {
        let l = changes_listing(sh.ip_changes, arg, minus, now.mono, dur);
        ConsoleView { text: l.0, relays: None, state: SharedView { ip_changes: l.1, ..sh } }
    } else if cmd == "punch-requests"@ || cmd == "pr"@ {
        if arg == Some("-"@) {
            ConsoleView { state: SharedView { punch_reqs: Seq::empty(), ..sh }, ..nothing }
        } else {
            ConsoleView {
                text: lines(
                    window(
                        sh.punch_reqs,
                        number_or(arg, 0),
                        page_size(word(words, 2)),
                    ).map_values(|e: PunchReqView| request_line(e, now)),
                ),
                ..nothing
            }
        }
    } else if cmd == "always-use-relay"@ || cmd == "aur"@ {
        match arg {
            Some(rs) => ConsoleView {
                text: Seq::empty(),
                relays: Some(rs),
                state: SharedView { always_use_relay: spec_is_yes(rs), ..sh },
            },
            None => ConsoleView {
                text: "ALWAYS_USE_RELAY: "@ + bool_word(sh.always_use_relay) + "\n"@,
                ..nothing
            },
        }
    } else if cmd == "ws-peers"@ || cmd == "wp"@ {
        ConsoleView {
            text: "ws peers: "@ + decimal(sh.routes.ws_peers.len()) + "\n"@,
            ..nothing
        }
    } else if cmd == "must-login"@ || cmd == "ml"@ {
        match arg {
            Some(v) => ConsoleView {
                state: SharedView { must_login: spec_is_yes(v), ..sh },
                ..nothing
            },
            None => ConsoleView {
                text: "MUST_LOGIN: "@ + bool_word(sh.must_login) + "\n"@,
                ..nothing
            },
        }
    } else if (cmd == "test-geo"@ || cmd == "tg"@) && words.len() > 1 && ips.0 && (words.len() > 2
        ==> ips.1) {
        ConsoleView {
            text: quoted(relay_turn(srv.relay_servers, sh.rotation)),
            relays: None,
            state: SharedView { rotation: relay_next(srv.relay_servers, sh.rotation), ..sh },
        }
    } else {
        nothing
    }
}

fn counters_text(c: &IpCounters, now: u64) -> (r: String)
    ensures
        r@ == counters_line(c@, now),
{
    let mut r = decimal_text(c.count as u64);
    r.append("/");
    r.append(decimal_text(elapsed_secs(now, c.count_at)).as_str());
    r.append("s ");
    r.append(decimal_text(c.ids.len() as u64).as_str());
    r.append("/");
    r.append(decimal_text(elapsed_secs(now, c.ids_at)).as_str());
    r.append("s");
    r
}

fn move_text(ips: &Table<u64>, i: usize) -> (r: String)
    requires
        i < ips@.len(),
    ensures
        r@ == move_item(ips@[i as int]),
{
    let mut r = quote(ips.key_at(i).as_str());
    r.append(": ");
    r.append(decimal_text(*ips.at(i)).as_str());
    r
}

fn moves_text(ips: &Table<u64>) -> (r: String)
    ensures
        r@ == move_items(ips@),
{
    let n: usize = ips.len();
    if n == 0 {
        let r = String::new();
        assert(r@ =~= Seq::<char>::empty());
        return r;
    }
    let mut r = move_text(ips, 0);
    let mut i: usize = 1;
    assert(ips@.take(1)[0] == ips@[0]);
    while i < n
        invariant
            1 <= i <= n,
            n == ips@.len(),
            r@ == move_items(ips@.take(i as int)),
        decreases n - i,
    {
        r.append(", ");
        r.append(move_text(ips, i).as_str());
        proof {
            assert(ips@.take(i + 1).drop_last() =~= ips@.take(i as int));
            assert(ips@.take(i + 1).last() == ips@[i as int]);
        }
        i += 1;
    }
    assert(ips@.take(n as int) =~= ips@);
    r
}

fn change_text(c: &IpChange, now: u64) -> (r: String)
    ensures
        r@ == change_line(c@, now),
{
    let mut r = decimal_text(elapsed_secs(now, c.at));
    r.append("s ");
    r.append("{");
    r.append(moves_text(&c.ips).as_str());
    r.append("}");
    r
}

/// The seconds since 1970 at which something happened.
fn event_time(tm: u64, now: Now) -> (r: i64)
    ensures
        r == event_secs(tm, now),
        -20_000_000_000 <= r <= 20_000_000_000,
{
    let age: u64 = if now.mono >= tm {
        now.mono - tm
    } else {
        0
    };
    if now.wall >= age {
        ((now.wall - age) / 1_000_000_000) as i64
    } else {
        let before: u64 = age - now.wall;
        let whole: i64 = (before / 1_000_000_000) as i64;
        if before % 1_000_000_000 == 0 {
            -whole
        } else {
            -whole - 1
        }
    }
}

fn request_text(e: &PunchReq, now: Now) -> (r: String)
    ensures
        r@ == request_line(e@, now),
{
    let mut r = utc_time_text(event_time(e.tm, now));
    r.append(" ");
    r.append(e.from_ip.as_str());
    r.append(" -> ");
    r.append(e.to_id.as_str());
    r.append("@");
    r.append(e.to_ip.as_str());
    r
}

fn bool_text(b: bool) -> (r: &'static str)
    ensures
        r@ == bool_word(b),
{
    if b {
        "true"
    } else {
        "false"
    }
}

/// A line is added at the end.
proof fn lemma_lines_push(ls: Seq<Seq<char>>, l: Seq<char>)
    ensures
        lines(ls.push(l)) == lines(ls) + l + "\n"@,
{
    assert(ls.push(l).drop_last() =~= ls);
}

/// Where the window on `len` items begins and ends.
fn window_bounds(len: usize, start: usize, n: usize) -> (r: (usize, usize))
    ensures
        r.0 <= r.1 <= len,
        r.0 == if start < len {
            start
        } else {
            len
        },
        r.1 == if r.0 + n < len {
            (r.0 + n) as usize
        } else {
            len
        },
{
    let a: usize = if start < len {
        start
    } else {
        len
    };
    let b: usize = if len - a > n {
        a + n
    } else {
        len
    };
    (a, b)
}

fn server_lines(servers: &Vec<String>) -> (r: String)
    ensures
        r@ == lines(texts(servers@)),
{
    let ghost all = texts(servers@);
    let mut r = String::new();
    let mut i: usize = 0;
    assert(r@ =~= lines(all.take(0)));
    while i < servers.len()
        invariant
            i <= servers@.len(),
            all == texts(servers@),
            r@ == lines(all.take(i as int)),
        decreases servers@.len() - i,
    {
        r.append(servers[i].as_str());
        r.append("\n");
        proof {
            assert(all.take(i + 1) =~= all.take(i as int).push(all[i as int]));
            lemma_lines_push(all.take(i as int), all[i as int]);
        }
        i += 1;
    }
    assert(all.take(i as int) =~= all);
    r
}

fn list_start_of(arg: Option<&String>) -> (r: i32)
    ensures
        r == list_start(word_of(arg)),
{
    match arg {
        None => 0,
        Some(w) => match parse_i32(w.as_str()) {
            Some(n) => n,
            None => -1,
        },
    }
}

fn number_of(arg: Option<&String>, default: usize) -> (r: usize)
    ensures
        r == number_or(word_of(arg), default as int),
{
    match arg {
        None => default,
        Some(w) => match parse_usize(w.as_str()) {
            Some(n) => n,
            None => default,
        },
    }
}

fn word_at(words: &Vec<String>, i: usize) -> (r: Option<&String>)
    ensures
        word(texts(words@), i as int) == word_of(r),
{
    if i < words.len() {
        Some(&words[i])
    } else {
        None
    }
}

fn is_word(w: Option<&String>, what: &str) -> (r: bool)
    ensures
        r == (w matches Some(s) && s@ == what@),
{
    match w {
        Some(s) => same_text(s.as_str(), what),
        None => false,
    }
}

/// Lists rows, or picks one out. `line` writes what a row holds, as `l` says.
fn list_rows<V: View, F: Fn(&V) -> String>(
    table: &mut Table<V>,
    arg: Option<&String>,
    named: bool,
    minus: bool,
    line: F,
    Ghost(l): Ghost<spec_fn(V::V) -> Seq<char>>,
) -> (r: String)
    requires
        old(table).wf(),
        named ==> arg is Some,
        forall|v: &V| #[trigger] call_requires(line, (v,)),
        forall|v: &V, s: String| #[trigger] call_ensures(line, (v,), s) ==> s@ == l(v@),
    ensures
        final(table).wf(),
        (r@, final(table)@) == listing(old(table)@, word_of(arg), named, minus, l),
{
    let start: i32 = list_start_of(arg);
    let mut text = decimal_text(table.len() as u64);
    text.append("\n");
    let mut found = String::new();
    assert(found@ =~= Seq::<char>::empty());
    if let Some(w) = arg {
        if named {
            if let Some(v) = table.get(w.as_str()) {
                let shown = line(v);
                found.append(shown.as_str());
                found.append("\n");
                proof {
                    let ls = seq![l(v@)];
                    assert(ls =~= Seq::<Seq<char>>::empty().push(l(v@)));
                    lemma_lines_push(Seq::empty(), l(v@));
                    assert(found@ =~= lines(ls));
                }
            }
            if minus {
                table.remove(w.as_str());
            }
        }
    }
    text.append(found.as_str());
    let ghost kept = table@;
    let mut page = String::new();
    assert(page@ =~= Seq::<char>::empty());
    if start >= 0 {
        let (a, b) = window_bounds(table.len(), start as usize, PAGE);
        let ghost all = window(kept, start as int, PAGE as int).map_values(
            |row: (Seq<char>, V::V)| row.0 + ": "@ + l(row.1),
        );
        let mut i: usize = a;
        assert(page@ =~= lines(all.take(0)));
        while i < b
            invariant
                a <= i <= b <= kept.len(),
                kept == table@,
                all.len() == b - a,
                forall|k: int| 0 <= k < b - a ==> #[trigger] all[k] == kept[a + k].0 + ": "@ + l(
                    kept[a + k].1,
                ),
                forall|v: &V| #[trigger] call_requires(line, (v,)),
                forall|v: &V, s: String| #[trigger] call_ensures(line, (v,), s) ==> s@ == l(v@),
                page@ == lines(all.take(i - a)),
            decreases b - i,
        {
            let ghost before = page@;
            let shown = line(table.at(i));
            page.append(table.key_at(i).as_str());
            page.append(": ");
            page.append(shown.as_str());
            page.append("\n");
            proof {
                let k = i - a;
                assert(all.take(k + 1) =~= all.take(k).push(all[k]));
                lemma_lines_push(all.take(k), all[k]);
                assert(page@ =~= before + all[k] + "\n"@);
            }
            i += 1;
        }
        assert(all.take(b - a) =~= all);
    }
    text.append(page.as_str());
    assert(text@ =~= listing(old(table)@, word_of(arg), named, minus, l).0);
    text
}

/// Lists how often addresses registered.
fn list_blocker(blocker: &mut IpBlocker, arg: Option<&String>, minus: bool, now: u64) -> (r: String)
    requires
        old(blocker).wf(),
    ensures
        final(blocker).wf(),
        (r@, final(blocker)@) == blocker_listing(old(blocker)@, word_of(arg), minus, now),
{
    blocker.prune(now);
    let ghost l = |c: IpCountersView| counters_line(c, now);
    let line = |c: &IpCounters| -> (s: String)
        ensures
            s@ == l(c@),
        { counters_text(c, now) };
    let named = list_start_of(arg) < 0;
    list_rows(&mut blocker.table, arg, named, minus, line, Ghost(l))
}

/// Lists which peers moved.
fn list_changes(
    changes: &mut IpChanges,
    arg: Option<&String>,
    minus: bool,
    now: u64,
    dur: u64,
) -> (r: String)
    requires
        old(changes).wf(),
    ensures
        final(changes).wf(),
        (r@, final(changes)@) == changes_listing(old(changes)@, word_of(arg), minus, now, dur),
{
    changes.prune(now, dur);
    let ghost l = |c: IpChangeView| change_line(c, now);
    let line = |c: &IpChange| -> (s: String)
        ensures
            s@ == l(c@),
        { change_text(c, now) };
    let start: i32 = list_start_of(arg);
    let named = arg.is_some() && (start < 0 || start > LAST_PLACE);
    list_rows(&mut changes.table, arg, named, minus, line, Ghost(l))
}

/// Lists requests to be connected.
fn list_requests(entries: &Vec<PunchReq>, start: usize, n: usize, now: Now) -> (r: String)
    ensures
        r@ == lines(
            window(
                entries@.map_values(|e: PunchReq| e@),
                start as int,
                n as int,
            ).map_values(|e: PunchReqView| request_line(e, now)),
        ),
{
    let ghost log = entries@.map_values(|e: PunchReq| e@);
    let ghost all = window(log, start as int, n as int).map_values(
        |e: PunchReqView| request_line(e, now),
    );
    let (a, b) = window_bounds(entries.len(), start, n);
    let mut text = String::new();
    let mut i: usize = a;
    assert(text@ =~= lines(all.take(0)));
    while i < b
        invariant
            a <= i <= b <= entries@.len(),
            all.len() == b - a,
            forall|k: int| 0 <= k < b - a ==> #[trigger] all[k] == request_line(
                entries@[a + k]@,
                now,
            ),
            text@ == lines(all.take(i - a)),
        decreases b - i,
    {
        text.append(request_text(&entries[i], now).as_str());
        text.append("\n");
        proof {
            let k = i - a;
            assert(all.take(k + 1) =~= all.take(k).push(all[k]));
            lemma_lines_push(all.take(k), all[k]);
        }
        i += 1;
    }
    assert(all.take(b - a) =~= all);
    text
}

fn say(text: String) -> (r: Console)
    ensures
        r.text@ == text@,
        r.relays is None,
{
    Console { text, relays: None }
}

fn say_nothing() -> (r: Console)
    ensures
        r.text@ == Seq::<char>::empty(),
        r.relays is None,
{
    let text = String::new();
    assert(text@ =~= Seq::<char>::empty());
    Console { text, relays: None }
}

impl RendezvousServer {
    /// Obeys a command, and answers it. `ips` says of its second and its third word whether they
    /// are IP addresses; `dur` is how long, in seconds, a peer's changes of address are worth
    /// showing.
    pub fn check_cmd(
        &self,
        sh: &mut Shared,
        cmd: &str,
        ips: (bool, bool),
        now: Now,
        dur: u64,
    ) -> (r: Console)
        requires
            old(sh).wf(),
        ensures
            final(sh).wf(),
            (ConsoleView {
                text: r.text@,
                relays: opt_view(r.relays),
                state: final(sh)@,
            }) == console_answer(self@, old(sh)@, command_words(cmd@), ips, now, dur),
    {
        let words = split_command(cmd);
        let arg = word_at(&words, 1);
        let minus = is_word(word_at(&words, 2), "-");
        let name = words[0].as_str();
        assert(name@ == texts(words@)[0]);
        if same_text(name, "h") {
            say(
                "relay-servers(rs) <separated by ,>\nreload-geo(rg)\nip-blocker(ib) [<ip>|<number>] [-]\nip-changes(ic) [<id>|<number>] [-]\npunch-requests(pr) [<number>] [-]\nalways-use-relay(aur) [Y|N]\ntest-geo(tg) <ip1> <ip2>\nmust-login(ml) [Y|N]\nws-peers(wp)\n".to_owned(),
            )
        } else if same_text(name, "relay-servers") || same_text(name, "rs") {
            match arg {
                Some(rs) => Console { text: say_nothing().text, relays: Some(rs.clone()) },
                None => say(server_lines(&self.relay_servers)),
            }
        } else if same_text(name, "ip-blocker") || same_text(name, "ib") {
            say(list_blocker(&mut sh.ip_blocker, arg, minus, now.mono))
        } else if same_text(name, "ip-changes") || same_text(name, "ic") {
            say(list_changes(&mut sh.ip_changes, arg, minus, now.mono, dur))
        } else if same_text(name, "punch-requests") || same_text(name, "pr") {
            if is_word(arg, "-") {
                sh.punch_reqs = PunchLog::new();
                say_nothing()
            } else {
                let start: usize = number_of(arg, 0);
                let mut n: usize = number_of(word_at(&words, 2), PAGE);
                if n == 0 {
                    n = PAGE;
                }
                say(list_requests(&sh.punch_reqs.entries, start, n, now))
            }
        } else if same_text(name, "always-use-relay") || same_text(name, "aur") {
            match arg {
                Some(rs) => {
                    sh.always_use_relay = is_yes(rs.as_str());
                    Console { text: say_nothing().text, relays: Some(rs.clone()) }
                },
                None => {
                    let mut text = "ALWAYS_USE_RELAY: ".to_owned();
                    text.append(bool_text(sh.always_use_relay));
                    text.append("\n");
                    say(text)
                },
            }
        } else if same_text(name, "ws-peers") || same_text(name, "wp") {
            let mut text = "ws peers: ".to_owned();
            text.append(decimal_text(sh.routes.ws_peer_count() as u64).as_str());
            text.append("\n");
            say(text)
        } else if same_text(name, "must-login") || same_text(name, "ml") {
            match arg {
                Some(v) => {
                    sh.must_login = is_yes(v.as_str());
                    say_nothing()
                },
                None => {
                    let mut text = "MUST_LOGIN: ".to_owned();
                    text.append(bool_text(sh.must_login));
                    text.append("\n");
                    say(text)
                },
            }
        } else if (same_text(name, "test-geo") || same_text(name, "tg")) && words.len() > 1 && ips.0
            && (words.len() <= 2 || ips.1) {
            let server = get_relay_server(&self.relay_servers, &mut sh.rotation);
            say(quote(server.as_str()))
        } else {
            say_nothing()
        }
    }
}

/// The console leaves the peers and the routes to them alone, whatever it is told.
pub proof fn law_console_leaves_peers_and_routes(
    srv: ServerView,
    sh: SharedView,
    words: Seq<Seq<char>>,
    ips: (bool, bool),
    now: Now,
    dur: u64,
)
    ensures
        console_answer(srv, sh, words, ips, now, dur).state.peers == sh.peers,
        console_answer(srv, sh, words, ips, now, dur).state.routes == sh.routes,
{
}

/// The console forgets no address that is still blocked, unless it is told to.
pub proof fn law_listing_forgets_no_blocked_address(
    rows: Seq<(Seq<char>, IpCountersView)>,
    arg: Option<Seq<char>>,
    now: u64,
    i: int,
)
    requires
        0 <= i < rows.len(),
        rows[i].1.blocked(now),
    ensures
        blocker_listing(rows, arg, false, now).1.contains(rows[i]),
{
    let q = |row: (Seq<char>, IpCountersView)| row.1.recent(now);
    broadcast use vstd::seq_lib::group_filter_ensures;

    assert(rows.contains(rows[i]) && q(rows[i]));
}

/// A login rule that is set is the one that is shown, and the one that requests are held to.
pub proof fn law_login_rule_is_set(
    srv: ServerView,
    sh: SharedView,
    words: Seq<Seq<char>>,
    ips: (bool, bool),
    now: Now,
    dur: u64,
)
    requires
        words.len() >= 2,
        words[0] == "ml"@ || words[0] == "must-login"@,
    ensures
        console_answer(srv, sh, words, ips, now, dur).state == (SharedView {
            must_login: spec_is_yes(words[1]),
            ..sh
        }),
        console_answer(srv, sh, words, ips, now, dur).text.len() == 0,
        console_answer(
            srv,
            console_answer(srv, sh, words, ips, now, dur).state,
            seq![words[0]],
            ips,
            now,
            dur,
        ).text == "MUST_LOGIN: "@ + bool_word(spec_is_yes(words[1])) + "\n"@,
{
    reveal_strlit("h");
    reveal_strlit("relay-servers");
    reveal_strlit("rs");
    reveal_strlit("ip-blocker");
    reveal_strlit("ib");
    reveal_strlit("ip-changes");
    reveal_strlit("ic");
    reveal_strlit("punch-requests");
    reveal_strlit("pr");
    reveal_strlit("always-use-relay");
    reveal_strlit("aur");
    reveal_strlit("ws-peers");
    reveal_strlit("wp");
    reveal_strlit("ml");
    reveal_strlit("must-login");
    let m = words[0];
    assert(m[0] == 'm');
    assert("h"@[0] == 'h' && "relay-servers"@[0] == 'r' && "rs"@[0] == 'r');
    assert("ip-blocker"@[0] == 'i' && "ib"@[0] == 'i' && "ip-changes"@[0] == 'i' && "ic"@[0]
        == 'i');
    assert("punch-requests"@[0] == 'p' && "pr"@[0] == 'p' && "always-use-relay"@[0] == 'a'
        && "aur"@[0] == 'a');
    assert("ws-peers"@[0] == 'w' && "wp"@[0] == 'w');
}

/// What tells the commands' names apart.
proof fn lemma_command_names()
    ensures
        "h"@.len() == 1 && "h"@[0] == 'h',
        "relay-servers"@.len() == 13 && "relay-servers"@[0] == 'r',
        "rs"@.len() == 2 && "rs"@[0] == 'r' && "rs"@[1] == 's',
        "ip-blocker"@.len() == 10 && "ip-blocker"@[0] == 'i' && "ip-blocker"@[3] == 'b',
        "ib"@.len() == 2 && "ib"@[0] == 'i' && "ib"@[1] == 'b',
        "ip-changes"@.len() == 10 && "ip-changes"@[0] == 'i' && "ip-changes"@[3] == 'c',
        "ic"@.len() == 2 && "ic"@[0] == 'i' && "ic"@[1] == 'c',
        "punch-requests"@.len() == 14 && "punch-requests"@[0] == 'p',
        "pr"@.len() == 2 && "pr"@[0] == 'p' && "pr"@[1] == 'r',
        "always-use-relay"@.len() == 16 && "always-use-relay"@[0] == 'a',
        "aur"@.len() == 3 && "aur"@[0] == 'a',
        "ws-peers"@.len() == 8 && "ws-peers"@[0] == 'w',
        "wp"@.len() == 2 && "wp"@[0] == 'w' && "wp"@[1] == 'p',
        "must-login"@.len() == 10 && "must-login"@[0] == 'm',
        "ml"@.len() == 2 && "ml"@[0] == 'm' && "ml"@[1] == 'l',
        "test-geo"@.len() == 8 && "test-geo"@[0] == 't',
        "tg"@.len() == 2 && "tg"@[0] == 't' && "tg"@[1] == 'g',
{
    reveal_strlit("h");
    reveal_strlit("relay-servers");
    reveal_strlit("rs");
    reveal_strlit("ip-blocker");
    reveal_strlit("ib");
    reveal_strlit("ip-changes");
    reveal_strlit("ic");
    reveal_strlit("punch-requests");
    reveal_strlit("pr");
    reveal_strlit("always-use-relay");
    reveal_strlit("aur");
    reveal_strlit("ws-peers");
    reveal_strlit("wp");
    reveal_strlit("must-login");
    reveal_strlit("ml");
    reveal_strlit("test-geo");
    reveal_strlit("tg");
}

/// Each command has a short name, which stands for the long one.
pub proof fn law_short_names_stand_for_long_ones(
    srv: ServerView,
    sh: SharedView,
    words: Seq<Seq<char>>,
    ips: (bool, bool),
    now: Now,
    dur: u64,
)
    requires
        words.len() >= 1,
    ensures
        words[0] == "rs"@ ==> console_answer(srv, sh, words, ips, now, dur) == console_answer(
            srv,
            sh,
            words.update(0, "relay-servers"@),
            ips,
            now,
            dur,
        ),
        words[0] == "ib"@ ==> console_answer(srv, sh, words, ips, now, dur) == console_answer(
            srv,
            sh,
            words.update(0, "ip-blocker"@),
            ips,
            now,
            dur,
        ),
        words[0] == "ic"@ ==> console_answer(srv, sh, words, ips, now, dur) == console_answer(
            srv,
            sh,
            words.update(0, "ip-changes"@),
            ips,
            now,
            dur,
        ),
        words[0] == "pr"@ ==> console_answer(srv, sh, words, ips, now, dur) == console_answer(
            srv,
            sh,
            words.update(0, "punch-requests"@),
            ips,
            now,
            dur,
        ),
        words[0] == "aur"@ ==> console_answer(srv, sh, words, ips, now, dur) == console_answer(
            srv,
            sh,
            words.update(0, "always-use-relay"@),
            ips,
            now,
            dur,
        ),
        words[0] == "wp"@ ==> console_answer(srv, sh, words, ips, now, dur) == console_answer(
            srv,
            sh,
            words.update(0, "ws-peers"@),
            ips,
            now,
            dur,
        ),
        words[0] == "ml"@ ==> console_answer(srv, sh, words, ips, now, dur) == console_answer(
            srv,
            sh,
            words.update(0, "must-login"@),
            ips,
            now,
            dur,
        ),
        words[0] == "tg"@ ==> console_answer(srv, sh, words, ips, now, dur) == console_answer(
            srv,
            sh,
            words.update(0, "test-geo"@),
            ips,
            now,
            dur,
        ),
{
    lemma_command_names();
}

/// A command changes what it is about and nothing else: each part of the state stays, unless the
/// command is the one for it.
pub proof fn law_commands_change_only_what_they_are_about(
    srv: ServerView,
    sh: SharedView,
    words: Seq<Seq<char>>,
    ips: (bool, bool),
    now: Now,
    dur: u64,
)
    requires
        words.len() >= 1,
    ensures
        ({
            let cmd = words[0];
            let s = console_answer(srv, sh, words, ips, now, dur).state;
            &&& cmd != "ib"@ && cmd != "ip-blocker"@ ==> s.ip_blocker == sh.ip_blocker
            &&& cmd != "ic"@ && cmd != "ip-changes"@ ==> s.ip_changes == sh.ip_changes
            &&& cmd != "pr"@ && cmd != "punch-requests"@ || words.len() == 1 || words[1] != "-"@
                ==> s.punch_reqs == sh.punch_reqs
            &&& cmd != "aur"@ && cmd != "always-use-relay"@ || words.len() == 1
                ==> s.always_use_relay == sh.always_use_relay
            &&& cmd != "ml"@ && cmd != "must-login"@ || words.len() == 1 ==> s.must_login
                == sh.must_login
            &&& cmd != "tg"@ && cmd != "test-geo"@ ==> s.rotation == sh.rotation
            &&& cmd != "rs"@ && cmd != "relay-servers"@ && cmd != "aur"@ && cmd
                != "always-use-relay"@ || words.len() == 1 ==> console_answer(
                srv,
                sh,
                words,
                ips,
                now,
                dur,
            ).relays is None
        }),
{
}

/// A command that is none is not answered, and changes nothing.
pub proof fn law_unknown_command_has_no_effect(
    srv: ServerView,
    sh: SharedView,
    words: Seq<Seq<char>>,
    ips: (bool, bool),
    now: Now,
    dur: u64,
)
    requires
        words.len() >= 1,
        words[0] != "h"@,
        words[0] != "rs"@ && words[0] != "relay-servers"@,
        words[0] != "ib"@ && words[0] != "ip-blocker"@,
        words[0] != "ic"@ && words[0] != "ip-changes"@,
        words[0] != "pr"@ && words[0] != "punch-requests"@,
        words[0] != "aur"@ && words[0] != "always-use-relay"@,
        words[0] != "wp"@ && words[0] != "ws-peers"@,
        words[0] != "ml"@ && words[0] != "must-login"@,
        words[0] != "tg"@ && words[0] != "test-geo"@,
    ensures
        console_answer(srv, sh, words, ips, now, dur).text.len() == 0,
        console_answer(srv, sh, words, ips, now, dur).state == sh,
        console_answer(srv, sh, words, ips, now, dur).relays is None,
{
}

/// The relay servers are listed, one to a line, where none are given; and where some are given they
/// are handed over, and nothing is said.
pub proof fn law_relay_servers_are_listed_or_set(
    srv: ServerView,
    sh: SharedView,
    words: Seq<Seq<char>>,
    ips: (bool, bool),
    now: Now,
    dur: u64,
)
    requires
        words.len() >= 1,
        words[0] == "rs"@ || words[0] == "relay-servers"@,
    ensures
        ({
            let r = console_answer(srv, sh, words, ips, now, dur);
            &&& words.len() == 1 ==> r.text == lines(srv.relay_servers) && r.relays is None
            &&& words.len() >= 2 ==> r.text.len() == 0 && r.relays == Some(words[1])
            &&& r.state == sh
        }),
{
    lemma_command_names();
}

/// A relay rule that is set is the one that is shown, and the one that requests are held to: yes
/// turns it on, and anything else off. The word is handed over as a list of relay servers too.
pub proof fn law_relay_rule_is_set(
    srv: ServerView,
    sh: SharedView,
    words: Seq<Seq<char>>,
    ips: (bool, bool),
    now: Now,
    dur: u64,
)
    requires
        words.len() >= 2,
        words[0] == "aur"@ || words[0] == "always-use-relay"@,
    ensures
        ({
            let r = console_answer(srv, sh, words, ips, now, dur);
            let shown = console_answer(srv, r.state, seq![words[0]], ips, now, dur);
            &&& r.state == (SharedView { always_use_relay: spec_is_yes(words[1]), ..sh })
            &&& r.text.len() == 0
            &&& r.relays == Some(words[1])
            &&& shown.text == "ALWAYS_USE_RELAY: "@ + (if spec_is_yes(words[1]) {
                "true"@
            } else {
                "false"@
            }) + seq!['\n']
            &&& shown.state == r.state
        }),
{
    lemma_command_names();
    reveal_strlit("\n");
    assert("\n"@ =~= seq!['\n']);
}

/// The count of websocket peers is that of the registry.
pub proof fn law_websocket_peers_are_counted(
    srv: ServerView,
    sh: SharedView,
    words: Seq<Seq<char>>,
    ips: (bool, bool),
    now: Now,
    dur: u64,
)
    requires
        words.len() >= 1,
        words[0] == "wp"@ || words[0] == "ws-peers"@,
    ensures
        console_answer(srv, sh, words, ips, now, dur).text == "ws peers: "@ + decimal(
            sh.routes.ws_peers.dom().len(),
        ) + seq!['\n'],
        console_answer(srv, sh, words, ips, now, dur).state == sh,
{
    lemma_command_names();
    reveal_strlit("\n");
    assert("\n"@ =~= seq!['\n']);
}

/// The test of the relay servers names the one whose turn it is, in quotes, and takes the turn; but
/// only between addresses that are some.
pub proof fn law_relay_test_takes_a_turn(
    srv: ServerView,
    sh: SharedView,
    words: Seq<Seq<char>>,
    ips: (bool, bool),
    now: Now,
    dur: u64,
)
    requires
        words.len() >= 1,
        words[0] == "tg"@ || words[0] == "test-geo"@,
    ensures
        ({
            let r = console_answer(srv, sh, words, ips, now, dur);
            let fit = words.len() == 2 && ips.0 || words.len() > 2 && ips.0 && ips.1;
            &&& fit ==> r.text == quoted(relay_turn(srv.relay_servers, sh.rotation)) && r.state == (
            SharedView { rotation: relay_next(srv.relay_servers, sh.rotation), ..sh })
            &&& !fit ==> r.text.len() == 0 && r.state == sh
            &&& r.relays is None
        }),
{
    lemma_command_names();
}

/// The log of requests is emptied at a minus sign. Otherwise it is shown, from the place that is
/// named, or else from the first on: as many entries as are asked for, or else ten; one to a line.
pub proof fn law_log_is_shown_or_emptied(
    srv: ServerView,
    sh: SharedView,
    words: Seq<Seq<char>>,
    ips: (bool, bool),
    now: Now,
    dur: u64,
)
    requires
        words.len() >= 1,
        words[0] == "pr"@ || words[0] == "punch-requests"@,
    ensures
        ({
            let r = console_answer(srv, sh, words, ips, now, dur);
            let line = |e: PunchReqView| request_line(e, now);
            &&& words.len() >= 2 && words[1] == "-"@ ==> r.state == (SharedView {
                punch_reqs: Seq::empty(),
                ..sh
            }) && r.text.len() == 0
            &&& words.len() < 2 || words[1] != "-"@ ==> r.state == sh
            &&& words.len() == 1 ==> r.text == lines(window(sh.punch_reqs, 0, 10).map_values(line))
            &&& words.len() == 2 && words[1] != "-"@ ==> r.text == lines(
                window(sh.punch_reqs, number_or(Some(words[1]), 0), 10).map_values(line),
            )
            &&& words.len() > 2 && words[1] != "-"@ ==> r.text == lines(
                window(
                    sh.punch_reqs,
                    number_or(Some(words[1]), 0),
                    page_size(Some(words[2])),
                ).map_values(line),
            )
        }),
{
    lemma_command_names();
}

/// A number that is named is that number; what is no number counts as if nothing was said, and so
/// does a page of none.
pub proof fn law_numbers_that_are_named(n: nat, text: Seq<char>, default: int)
    ensures
        n <= usize::MAX ==> number_or(Some(decimal(n)), default) == n,
        n > usize::MAX ==> number_or(Some(decimal(n)), default) == default,
        parsed_unsigned(text) is None ==> number_or(Some(text), default) == default,
        number_or(None, default) == default,
        0 < n <= usize::MAX ==> page_size(Some(decimal(n))) == n,
        page_size(Some(decimal(0))) == 10,
        page_size(None) == 10,
        n <= i32::MAX ==> list_start(Some(decimal(n))) == n,
        list_start(None) == 0,
        parsed_i32(text) is None ==> list_start(Some(text)) == -1,
{
    law_written_number_is_read_back(n);
    law_written_number_is_read_back(0);
}

/// A window shows the items from its start on, in their order: as many as it is wide, or all that
/// are left.
pub proof fn law_window_shows_what_follows<T>(s: Seq<T>, start: int, n: int, i: int)
    requires
        0 <= start,
        0 <= n,
    ensures
        window(s, start, n).len() <= n,
        start + n <= s.len() ==> window(s, start, n).len() == n,
        start <= s.len() < start + n ==> window(s, start, n).len() == s.len() - start,
        start >= s.len() ==> window(s, start, n).len() == 0,
        0 <= i < window(s, start, n).len() ==> window(s, start, n)[i] == s[start + i],
{
}

/// Lines stand one after the other, each with its end.
pub proof fn law_lines_follow_each_other(ls: Seq<Seq<char>>, l: Seq<char>)
    ensures
        lines(Seq::empty()).len() == 0,
        lines(ls.push(l)) == lines(ls) + l + seq!['\n'],
        lines(seq![l]) == l + seq!['\n'],
{
    reveal_strlit("\n");
    assert("\n"@ =~= seq!['\n']);
    lemma_lines_push(ls, l);
    lemma_lines_push(Seq::empty(), l);
    assert(Seq::<Seq<char>>::empty().push(l) =~= seq![l]);
    assert(lines(seq![l]) =~= l + seq!['\n']);
}

/// What is listed of an address: how often it registered and how long ago it last did, for how many
/// ids and how long ago the last of them was named.
pub proof fn law_counters_are_shown(c: IpCountersView, now: u64)
    ensures
        counters_line(c, now) == decimal(c.count as nat) + seq!['/'] + decimal(
            spec_elapsed_secs(now, c.count_at) as nat,
        ) + seq!['s', ' '] + decimal(c.ids.len()) + seq!['/'] + decimal(
            spec_elapsed_secs(now, c.ids_at) as nat,
        ) + seq!['s'],
{
    reveal_strlit("/");
    reveal_strlit("s ");
    reveal_strlit("s");
    assert("/"@ =~= seq!['/']);
    assert("s "@ =~= seq!['s', ' ']);
    assert("s"@ =~= seq!['s']);
}

/// What is listed of a peer that moved: how long ago its record was started, and each address that it
/// moved to, in quotes and with the number of moves.
pub proof fn law_moves_are_shown(c: IpChangeView, row: (Seq<char>, u64), now: u64)
    ensures
        change_line(c, now) == decimal(spec_elapsed_secs(now, c.at) as nat) + seq!['s', ' ', '{']
            + move_items(c.ips) + seq!['}'],
        move_items(Seq::empty()).len() == 0,
        move_items(seq![row]) == quoted(row.0) + seq![':', ' '] + decimal(row.1 as nat),
        c.ips.len() > 0 ==> move_items(c.ips.push(row)) == move_items(c.ips) + seq![',', ' ']
            + move_items(seq![row]),
{
    reveal_strlit("s ");
    reveal_strlit("{");
    reveal_strlit("}");
    reveal_strlit(": ");
    reveal_strlit(", ");
    let t = decimal(spec_elapsed_secs(now, c.at) as nat);
    assert(t + "s "@ + "{"@ =~= t + seq!['s', ' ', '{']);
    assert("}"@ =~= seq!['}']);
    assert(": "@ =~= seq![':', ' ']);
    assert(", "@ =~= seq![',', ' ']);
    assert(c.ips.push(row).drop_last() =~= c.ips);
}

/// What is shown of a request: when it came, from which IP, for which id, and where that peer was.
pub proof fn law_request_is_shown(e: PunchReqView, now: Now)
    ensures
        request_line(e, now) == utc_time(event_secs(e.tm, now) as i64) + seq![' '] + e.from_ip
            + seq![' ', '-', '>', ' '] + e.to_id + seq!['@'] + e.to_ip,
{
    reveal_strlit(" ");
    reveal_strlit(" -> ");
    reveal_strlit("@");
    assert(" "@ =~= seq![' ']);
    assert(" -> "@ =~= seq![' ', '-', '>', ' ']);
    assert("@"@ =~= seq!['@']);
}

/// The time that is shown is now less the request's age, in whole seconds, rounded down.
pub proof fn law_request_is_shown_at_its_time(tm: u64, now: Now)
    ensures
        now.mono >= tm ==> event_secs(tm, now) * 1_000_000_000 <= now.wall - (now.mono - tm) < (
        event_secs(tm, now) + 1) * 1_000_000_000,
        now.mono < tm ==> event_secs(tm, now) * 1_000_000_000 <= now.wall < (event_secs(tm, now)
            + 1) * 1_000_000_000,
{
}

/// Without an argument, the addresses of which something recent is known are counted, and the first
/// ten of them listed; the others are forgotten.
pub proof fn law_addresses_are_listed(
    srv: ServerView,
    sh: SharedView,
    words: Seq<Seq<char>>,
    ips: (bool, bool),
    now: Now,
    dur: u64,
)
    requires
        words.len() == 1,
        words[0] == "ib"@ || words[0] == "ip-blocker"@,
    ensures
        ({
            let r = console_answer(srv, sh, words, ips, now, dur);
            let rows = blocker_pruned(sh.ip_blocker, now.mono);
            &&& r.text == decimal(rows.len()) + seq!['\n'] + lines(
                window(rows, 0, 10).map_values(
                    |row: (Seq<char>, IpCountersView)|
                        row.0 + seq![':', ' '] + counters_line(row.1, now.mono),
                ),
            )
            &&& r.state == (SharedView { ip_blocker: rows, ..sh })
        }),
{
    lemma_command_names();
    let rows = blocker_pruned(sh.ip_blocker, now.mono);
    let line = |c: IpCountersView| counters_line(c, now.mono);
    lemma_page(rows, 0, line);
    let w = window(rows, 0, 10);
    assert(w.map_values(
        |row: (Seq<char>, IpCountersView)| row.0 + seq![':', ' '] + counters_line(row.1, now.mono),
    ) =~= w.map_values(|row: (Seq<char>, IpCountersView)| row.0 + seq![':', ' '] + line(row.1)));
}

/// With an address for an argument, what is known of that address is shown; with a minus sign after
/// it, it is forgotten. Every other address stays.
pub proof fn law_one_address_is_shown(
    srv: ServerView,
    sh: SharedView,
    words: Seq<Seq<char>>,
    ips: (bool, bool),
    now: Now,
    dur: u64,
    other: Seq<char>,
)
    requires
        words.len() >= 2,
        words[0] == "ib"@ || words[0] == "ip-blocker"@,
        parsed_i32(words[1]) matches Some(n) ==> n < 0,
        keys_distinct(blocker_pruned(sh.ip_blocker, now.mono)),
    ensures
        ({
            let r = console_answer(srv, sh, words, ips, now, dur);
            let rows = blocker_pruned(sh.ip_blocker, now.mono);
            let minus = words.len() >= 3 && words[2] == "-"@;
            &&& lookup(rows, words[1]) matches Some(c) ==> r.text == decimal(rows.len()) + seq!['\n']
                + counters_line(c, now.mono) + seq!['\n']
            &&& lookup(rows, words[1]) is None ==> r.text == decimal(rows.len()) + seq!['\n']
            &&& r.state == (SharedView { ip_blocker: r.state.ip_blocker, ..sh })
            &&& !minus ==> r.state.ip_blocker == rows
            &&& minus ==> lookup(r.state.ip_blocker, words[1]) is None
            &&& other != words[1] ==> lookup(r.state.ip_blocker, other) == lookup(rows, other)
        }),
{
    lemma_command_names();
    let rows = blocker_pruned(sh.ip_blocker, now.mono);
    let line = |c: IpCountersView| counters_line(c, now.mono);
    lemma_named_row(rows, words[1], line);
    law_dropped_row_is_gone(rows, words[1], other);
}

/// With a number for an argument, ten addresses are listed from that place on.
pub proof fn law_addresses_are_listed_from_a_place(
    srv: ServerView,
    sh: SharedView,
    words: Seq<Seq<char>>,
    ips: (bool, bool),
    now: Now,
    dur: u64,
)
    requires
        words.len() >= 2,
        words[0] == "ib"@ || words[0] == "ip-blocker"@,
        parsed_i32(words[1]) matches Some(start) && start >= 0,
    ensures
        ({
            let r = console_answer(srv, sh, words, ips, now, dur);
            let rows = blocker_pruned(sh.ip_blocker, now.mono);
            &&& r.text == decimal(rows.len()) + seq!['\n'] + lines(
                window(rows, parsed_i32(words[1])->0 as int, 10).map_values(
                    |row: (Seq<char>, IpCountersView)|
                        row.0 + seq![':', ' '] + counters_line(row.1, now.mono),
                ),
            )
            &&& r.state == (SharedView { ip_blocker: rows, ..sh })
        }),
{
    lemma_command_names();
    let rows = blocker_pruned(sh.ip_blocker, now.mono);
    let start = parsed_i32(words[1])->0 as int;
    let line = |c: IpCountersView| counters_line(c, now.mono);
    lemma_page(rows, start, line);
    let w = window(rows, start, 10);
    assert(w.map_values(
        |row: (Seq<char>, IpCountersView)| row.0 + seq![':', ' '] + counters_line(row.1, now.mono),
    ) =~= w.map_values(|row: (Seq<char>, IpCountersView)| row.0 + seq![':', ' '] + line(row.1)));
}

/// Without an argument, the peers that moved of late are counted, and the first ten of them listed;
/// the others are forgotten. With a number of up to ten million, ten are listed from that place on.
pub proof fn law_moved_peers_are_listed(
    srv: ServerView,
    sh: SharedView,
    words: Seq<Seq<char>>,
    ips: (bool, bool),
    now: Now,
    dur: u64,
)
    requires
        words.len() >= 1,
        words[0] == "ic"@ || words[0] == "ip-changes"@,
        words.len() >= 2 ==> (parsed_i32(words[1]) matches Some(start) && 0 <= start
            <= 10_000_000),
    ensures
        ({
            let r = console_answer(srv, sh, words, ips, now, dur);
            let rows = changes_pruned(sh.ip_changes, now.mono, dur);
            let start = if words.len() == 1 {
                0
            } else {
                parsed_i32(words[1])->0 as int
            };
            &&& r.text == decimal(rows.len()) + seq!['\n'] + lines(
                window(rows, start, 10).map_values(
                    |row: (Seq<char>, IpChangeView)|
                        row.0 + seq![':', ' '] + change_line(row.1, now.mono),
                ),
            )
            &&& r.state == (SharedView { ip_changes: rows, ..sh })
        }),
{
    lemma_command_names();
    let rows = changes_pruned(sh.ip_changes, now.mono, dur);
    let start = if words.len() == 1 {
        0
    } else {
        parsed_i32(words[1])->0 as int
    };
    let line = |c: IpChangeView| change_line(c, now.mono);
    lemma_page(rows, start, line);
    let w = window(rows, start, 10);
    assert(w.map_values(
        |row: (Seq<char>, IpChangeView)| row.0 + seq![':', ' '] + change_line(row.1, now.mono),
    ) =~= w.map_values(|row: (Seq<char>, IpChangeView)| row.0 + seq![':', ' '] + line(row.1)));
}

/// With an id for an argument, what is known of that peer's moves is shown; with a minus sign after
/// it, it is forgotten. Every other peer stays.
pub proof fn law_one_peers_moves_are_shown(
    srv: ServerView,
    sh: SharedView,
    words: Seq<Seq<char>>,
    ips: (bool, bool),
    now: Now,
    dur: u64,
    other: Seq<char>,
)
    requires
        words.len() >= 2,
        words[0] == "ic"@ || words[0] == "ip-changes"@,
        parsed_i32(words[1]) matches Some(n) ==> n < 0,
        keys_distinct(changes_pruned(sh.ip_changes, now.mono, dur)),
    ensures
        ({
            let r = console_answer(srv, sh, words, ips, now, dur);
            let rows = changes_pruned(sh.ip_changes, now.mono, dur);
            let minus = words.len() >= 3 && words[2] == "-"@;
            &&& lookup(rows, words[1]) matches Some(c) ==> r.text == decimal(rows.len()) + seq!['\n']
                + change_line(c, now.mono) + seq!['\n']
            &&& lookup(rows, words[1]) is None ==> r.text == decimal(rows.len()) + seq!['\n']
            &&& r.state == (SharedView { ip_changes: r.state.ip_changes, ..sh })
            &&& !minus ==> r.state.ip_changes == rows
            &&& minus ==> lookup(r.state.ip_changes, words[1]) is None
            &&& other != words[1] ==> lookup(r.state.ip_changes, other) == lookup(rows, other)
        }),
{
    lemma_command_names();
    let rows = changes_pruned(sh.ip_changes, now.mono, dur);
    let line = |c: IpChangeView| change_line(c, now.mono);
    lemma_named_row(rows, words[1], line);
    law_dropped_row_is_gone(rows, words[1], other);
}

/// An id that is a number over ten million is looked up like any other, for a minus sign too.
pub proof fn law_large_numbers_are_ids(
    srv: ServerView,
    sh: SharedView,
    words: Seq<Seq<char>>,
    ips: (bool, bool),
    now: Now,
    dur: u64,
    other: Seq<char>,
)
    requires
        words.len() >= 2,
        words[0] == "ic"@ || words[0] == "ip-changes"@,
        parsed_i32(words[1]) matches Some(n) && n > 10_000_000,
        keys_distinct(changes_pruned(sh.ip_changes, now.mono, dur)),
    ensures
        ({
            let r = console_answer(srv, sh, words, ips, now, dur);
            let rows = changes_pruned(sh.ip_changes, now.mono, dur);
            let minus = words.len() >= 3 && words[2] == "-"@;
            let shown = decimal(rows.len()) + seq!['\n'] + (match lookup(rows, words[1]) {
                Some(c) => change_line(c, now.mono) + seq!['\n'],
                None => Seq::empty(),
            });
            &&& r.text.len() >= shown.len() && r.text.take(shown.len() as int) == shown
            &&& !minus ==> r.state == (SharedView { ip_changes: rows, ..sh })
            &&& minus ==> lookup(r.state.ip_changes, words[1]) is None
            &&& other != words[1] ==> lookup(r.state.ip_changes, other) == lookup(rows, other)
        }),
{
    lemma_command_names();
    let rows = changes_pruned(sh.ip_changes, now.mono, dur);
    let line = |c: IpChangeView| change_line(c, now.mono);
    lemma_named_row(rows, words[1], line);
    law_dropped_row_is_gone(rows, words[1], other);
    let r = console_answer(srv, sh, words, ips, now, dur);
    let shown = decimal(rows.len()) + seq!['\n'] + (match lookup(rows, words[1]) {
        Some(c) => change_line(c, now.mono) + seq!['\n'],
        None => Seq::empty(),
    });
    assert(r.text.take(shown.len() as int) =~= shown);
}

/// A listing that names no row is the count and a page.
proof fn lemma_page<T>(rows: Seq<(Seq<char>, T)>, start: int, line: spec_fn(T) -> Seq<char>)
    ensures
        decimal(rows.len()) + "\n"@ + Seq::<char>::empty() + lines(
            window(rows, start, PAGE as int).map_values(
                |row: (Seq<char>, T)| row.0 + ": "@ + line(row.1),
            ),
        ) == decimal(rows.len()) + seq!['\n'] + lines(
            window(rows, start, 10).map_values(
                |row: (Seq<char>, T)| row.0 + seq![':', ' '] + line(row.1),
            ),
        ),
{
    reveal_strlit("\n");
    reveal_strlit(": ");
    assert("\n"@ =~= seq!['\n']);
    assert(": "@ =~= seq![':', ' ']);
    let w = window(rows, start, 10);
    assert(w.map_values(|row: (Seq<char>, T)| row.0 + ": "@ + line(row.1)) =~= w.map_values(
        |row: (Seq<char>, T)| row.0 + seq![':', ' '] + line(row.1),
    ));
    assert(decimal(rows.len()) + "\n"@ + Seq::<char>::empty() =~= decimal(rows.len()) + seq!['\n']);
}

/// A row that is named is shown in a line of its own.
proof fn lemma_named_row<T>(
    rows: Seq<(Seq<char>, T)>,
    k: Seq<char>,
    line: spec_fn(T) -> Seq<char>,
)
    ensures
        "\n"@ == seq!['\n'],
        lookup(rows, k) matches Some(v) ==> decimal(rows.len()) + "\n"@ + lines(seq![line(v)]) + Seq::<
            char,
        >::empty() == decimal(rows.len()) + seq!['\n'] + line(v) + seq!['\n'],
        decimal(rows.len()) + "\n"@ + Seq::<char>::empty() + Seq::<char>::empty() == decimal(
            rows.len(),
        ) + seq!['\n'],
        lookup(rows, k) matches Some(v) ==> lines(seq![line(v)]) == line(v) + seq!['\n'],
{
    reveal_strlit("\n");
    assert("\n"@ =~= seq!['\n']);
    let n = decimal(rows.len());
    assert(n + "\n"@ + Seq::<char>::empty() + Seq::<char>::empty() =~= n + seq!['\n']);
    if let Some(v) = lookup(rows, k) {
        law_lines_follow_each_other(Seq::empty(), line(v));
        assert(n + "\n"@ + lines(seq![line(v)]) + Seq::<char>::empty() =~= n + seq!['\n'] + line(v)
            + seq!['\n']);
    }
}

} // verus!
