//! How often an address may register, and how often a peer has changed its address.
use vstd::prelude::*;

use crate::clock::{elapsed_secs, spec_elapsed_secs};
use crate::message::texts;
use crate::table::{
    keys_distinct, law_filed_row_is_found, lemma_filter_member, lookup, put_row, Table,
};
use crate::text::same_text;

verus! {

/// Quiet seconds after which an address may register again.
pub const IP_BLOCK_DUR: u64 = 60;

/// Seconds after which the ids seen from an address are forgotten.
pub const DAY_SECONDS: u64 = 86_400;

/// How often an address may register without a quiet minute in between.
pub const MAX_REGISTRATIONS: u32 = 30;

/// An address that has named more ids than this may name no others.
pub const MAX_IDS: usize = 300;

/// What is known of one address: how often it registered, and for which ids.
pub struct IpCounters {
    pub count: u32,
    pub count_at: u64,
    pub ids: Vec<String>,
    pub ids_at: u64,
}

#[verifier::ext_equal]
pub struct IpCountersView {
    pub count: u32,
    pub count_at: u64,
    pub ids: Seq<Seq<char>>,
    pub ids_at: u64,
}

impl View for IpCounters {
    type V = IpCountersView;

    open spec fn view(&self) -> IpCountersView {
        IpCountersView {
            count: self.count,
            count_at: self.count_at,
            ids: texts(self.ids@),
            ids_at: self.ids_at,
        }
    }
}

impl IpCountersView {
    /// No id is listed twice, and the count is one that can be reached.
    pub open spec fn wf(self) -> bool {
        &&& self.ids.no_duplicates()
        &&& self.ids.len() <= MAX_IDS + 1
        &&& self.count <= MAX_REGISTRATIONS
    }

    /// The counters of an address that has just registered for the first time. The id is not listed
    /// before its next registration.
    pub open spec fn fresh(now: u64) -> IpCountersView {
        IpCountersView { count: 1, count_at: now, ids: Seq::empty(), ids_at: now }
    }

    /// The address has registered too often, and not been quiet since.
    pub open spec fn blocked(self, now: u64) -> bool {
        spec_elapsed_secs(now, self.count_at) <= IP_BLOCK_DUR && self.count >= MAX_REGISTRATIONS
    }

    /// The address may name no id that it has not named before.
    pub open spec fn full(self, now: u64) -> bool {
        spec_elapsed_secs(now, self.ids_at) <= DAY_SECONDS && self.ids.len() > MAX_IDS
    }

    /// Whether a registration of `id` at `now` is let through.
    pub open spec fn allows(self, id: Seq<char>, now: u64) -> bool {
        !self.blocked(now) && (self.full(now) ==> self.ids.contains(id))
    }

    /// The counters after a registration of `id` at `now`. A blocked address's stay as they are.
    /// When the ids are a day old they are forgotten, all of them: an id that was among them is
    /// not listed again before its next registration.
    pub open spec fn after(self, id: Seq<char>, now: u64) -> IpCountersView {
        if self.blocked(now) {
            self
        } else {
            let count = if spec_elapsed_secs(now, self.count_at) > IP_BLOCK_DUR {
                1u32
            } else {
                (self.count + 1) as u32
            };
            if self.full(now) {
                IpCountersView { count, count_at: now, ..self }
            } else {
                let kept = if spec_elapsed_secs(now, self.ids_at) > DAY_SECONDS {
                    Seq::empty()
                } else {
                    self.ids
                };
                IpCountersView {
                    count,
                    count_at: now,
                    ids: if self.ids.contains(id) {
                        kept
                    } else {
                        kept.push(id)
                    },
                    ids_at: now,
                }
            }
        }
    }

    /// The counters are still of use: one of the two is recent.
    pub open spec fn recent(self, now: u64) -> bool {
        spec_elapsed_secs(now, self.count_at) <= IP_BLOCK_DUR || spec_elapsed_secs(
            now,
            self.ids_at,
        ) <= DAY_SECONDS
    }
}

/// Whether `id` may register from `ip`.
pub open spec fn ip_allows(
    rows: Seq<(Seq<char>, IpCountersView)>,
    ip: Seq<char>,
    id: Seq<char>,
    now: u64,
) -> bool {
    match lookup(rows, ip) {
        Some(c) => c.allows(id, now),
        None => true,
    }
}

/// The counters after `id` tried to register from `ip`.
pub open spec fn ip_counted(
    rows: Seq<(Seq<char>, IpCountersView)>,
    ip: Seq<char>,
    id: Seq<char>,
    now: u64,
) -> Seq<(Seq<char>, IpCountersView)> {
    match lookup(rows, ip) {
        Some(c) => put_row(rows, ip, c.after(id, now)),
        None => put_row(rows, ip, IpCountersView::fresh(now)),
    }
}

/// Whether `id` is in the list.
fn listed(ids: &Vec<String>, id: &str) -> (r: bool)
    ensures
        r == texts(ids@).contains(id@),
{
    let mut i: usize = 0;
    while i < ids.len()
        invariant
            i <= ids.len(),
            forall|j: int| 0 <= j < i ==> (#[trigger] texts(ids@)[j]) != id@,
        decreases ids.len() - i,
    {
        if same_text(ids[i].as_str(), id) {
            assert(texts(ids@)[i as int] == id@);
            return true;
        }
        assert(texts(ids@)[i as int] != id@);
        i += 1;
    }
    false
}

/// Registrations by address.
pub struct IpBlocker {
    pub table: Table<IpCounters>,
}

impl View for IpBlocker {
    type V = Seq<(Seq<char>, IpCountersView)>;

    open spec fn view(&self) -> Seq<(Seq<char>, IpCountersView)> {
        self.table@
    }
}

/// Each address occurs once, with counters that can be reached.
pub open spec fn blocker_wf(rows: Seq<(Seq<char>, IpCountersView)>) -> bool {
    &&& keys_distinct(rows)
    &&& forall|i: int| 0 <= i < rows.len() ==> (#[trigger] rows[i]).1.wf()
}

/// A registration leaves one address's counters as good as it found them.
pub proof fn lemma_after_wf(c: IpCountersView, id: Seq<char>, now: u64)
    requires
        c.wf(),
    ensures
        c.after(id, now).wf(),
{
    let kept = if spec_elapsed_secs(now, c.ids_at) > DAY_SECONDS {
        Seq::empty()
    } else {
        c.ids
    };
    if !c.ids.contains(id) {
        assert(!kept.contains(id));
        assert(kept.push(id).no_duplicates());
    }
}

impl IpBlocker {
    pub open spec fn wf(&self) -> bool {
        self.table.wf() && blocker_wf(self@)
    }

    pub fn new() -> (r: IpBlocker)
        ensures
            r.wf(),
            r@ == Seq::<(Seq<char>, IpCountersView)>::empty(),
    {
        IpBlocker { table: Table::new() }
    }

    /// Whether `id` may register from `ip` now. Nothing is counted.
    pub fn allows(&self, ip: &str, id: &str, now: u64) -> (r: bool)
        requires
            self.wf(),
        ensures
            r == ip_allows(self@, ip@, id@, now),
    {
        match self.table.get(ip) {
            None => true,
            Some(c) => {
                if elapsed_secs(now, c.count_at) <= IP_BLOCK_DUR && c.count >= MAX_REGISTRATIONS {
                    false
                } else if elapsed_secs(now, c.ids_at) <= DAY_SECONDS && c.ids.len() > MAX_IDS {
                    listed(&c.ids, id)
                } else {
                    true
                }
            },
        }
    }

    /// Counts a registration of `id` from `ip`, and says whether it may go ahead.
    pub fn check_ip_blocker(&mut self, ip: &str, id: &str, now: u64) -> (r: bool)
        requires
            old(self).wf(),
        ensures
            final(self).wf(),
            r == ip_allows(old(self)@, ip@, id@, now),
            final(self)@ == ip_counted(old(self)@, ip@, id@, now),
    {
        let ghost rows = self@;
        match self.table.position(ip) {
            Some(i) => {
                let ghost was = rows[i as int].1;
                proof {
                    lemma_after_wf(was, id@, now);
                    assert(rows.update(i as int, (ip@, was)) =~= rows);
                }
                let c = self.table.at_mut(i);
                if elapsed_secs(now, c.count_at) > IP_BLOCK_DUR {
                    c.count = 0;
                } else if c.count >= MAX_REGISTRATIONS {
                    return false;
                }
                c.count = c.count + 1;
                c.count_at = now;
                let is_new = !listed(&c.ids, id);
                if elapsed_secs(now, c.ids_at) > DAY_SECONDS {
                    c.ids.clear();
                    assert(texts(c.ids@) =~= Seq::<Seq<char>>::empty());
                } else if c.ids.len() > MAX_IDS {
                    return !is_new;
                }
                if is_new {
                    let ghost ids = c.ids@;
                    c.ids.push(id.to_owned());
                    assert(texts(c.ids@) =~= texts(ids).push(id@));
                }
                c.ids_at = now;
                true
            },
            None => {
                let fresh = IpCounters { count: 1, count_at: now, ids: Vec::new(), ids_at: now };
                assert(fresh@.ids =~= Seq::<Seq<char>>::empty());
                self.table.put(ip.to_owned(), fresh);
                true
            },
        }
    }
}

/// The rows of the addresses of which something recent is known.
pub open spec fn blocker_pruned(
    rows: Seq<(Seq<char>, IpCountersView)>,
    now: u64,
) -> Seq<(Seq<char>, IpCountersView)> {
    rows.filter(|row: (Seq<char>, IpCountersView)| row.1.recent(now))
}

impl IpBlocker {
    /// Forgets the addresses of which nothing recent is known.
    pub fn prune(&mut self, now: u64)
        requires
            old(self).wf(),
        ensures
            final(self).wf(),
            final(self)@ == blocker_pruned(old(self)@, now),
    {
        let ghost rows = self@;
        let ghost p = |c: IpCountersView| c.recent(now);
        let ghost q = |row: (Seq<char>, IpCountersView)| p(row.1);
        let keep = |c: &IpCounters| -> (b: bool)
            ensures
                b == p(c@),
            {
                elapsed_secs(now, c.count_at) <= IP_BLOCK_DUR || elapsed_secs(now, c.ids_at)
                    <= DAY_SECONDS
            };
        self.table.retain(keep, Ghost(p));
        proof {
            lemma_filter_member(rows, q);
            assert(q =~= (|row: (Seq<char>, IpCountersView)| row.1.recent(now)));
        }
    }
}

/// The addresses that a peer has moved between since `at`, each with the number of moves to it.
pub struct IpChange {
    pub at: u64,
    pub ips: Table<u64>,
}

#[verifier::ext_equal]
pub struct IpChangeView {
    pub at: u64,
    pub ips: Seq<(Seq<char>, u64)>,
}

impl View for IpChange {
    type V = IpChangeView;

    open spec fn view(&self) -> IpChangeView {
        IpChangeView { at: self.at, ips: self.ips@ }
    }
}

/// The one address `ip`, moved to once.
pub open spec fn first_move(ip: Seq<char>, now: u64) -> IpChangeView {
    IpChangeView { at: now, ips: seq![(ip, 1u64)] }
}

impl IpChangeView {
    /// The record after one more move, to `ip`. It starts anew after `dur` seconds. A count stops
    /// at the largest number that it can hold.
    pub open spec fn moved(self, ip: Seq<char>, now: u64, dur: u64) -> IpChangeView {
        if spec_elapsed_secs(now, self.at) > dur {
            first_move(ip, now)
        } else {
            let moves = match lookup(self.ips, ip) {
                Some(n) if n < u64::MAX => (n + 1) as u64,
                Some(n) => n,
                None => 1,
            };
            IpChangeView { at: self.at, ips: put_row(self.ips, ip, moves) }
        }
    }
}

/// The moves of all peers, after `id` has moved to `ip`.
pub open spec fn change_noted(
    rows: Seq<(Seq<char>, IpChangeView)>,
    id: Seq<char>,
    ip: Seq<char>,
    now: u64,
    dur: u64,
) -> Seq<(Seq<char>, IpChangeView)> {
    match lookup(rows, id) {
        Some(c) => put_row(rows, id, c.moved(ip, now, dur)),
        None => put_row(rows, id, first_move(ip, now)),
    }
}

/// Each peer occurs once, and so does each address within a peer's record.
pub open spec fn changes_wf(rows: Seq<(Seq<char>, IpChangeView)>) -> bool {
    &&& keys_distinct(rows)
    &&& forall|i: int| 0 <= i < rows.len() ==> keys_distinct((#[trigger] rows[i]).1.ips)
}

/// Changes of address by peer.
pub struct IpChanges {
    pub table: Table<IpChange>,
}

impl View for IpChanges {
    type V = Seq<(Seq<char>, IpChangeView)>;

    open spec fn view(&self) -> Seq<(Seq<char>, IpChangeView)> {
        self.table@
    }
}

/// A table with the one row `ip`, counted once.
fn one_move(ip: &str) -> (r: Table<u64>)
    ensures
        r@ == seq![(ip@, 1u64)],
        r.wf(),
{
    let mut ips: Table<u64> = Table::new();
    ips.put(ip.to_owned(), 1);
    assert(ips@ =~= seq![(ip@, 1u64)]);
    ips
}

impl IpChanges {
    pub open spec fn wf(&self) -> bool {
        self.table.wf() && changes_wf(self@)
    }

    pub fn new() -> (r: IpChanges)
        ensures
            r.wf(),
            r@ == Seq::<(Seq<char>, IpChangeView)>::empty(),
    {
        IpChanges { table: Table::new() }
    }

    /// Notes that `id` has moved to `ip`.
    pub fn note(&mut self, id: &str, ip: &str, now: u64, dur: u64)
        requires
            old(self).wf(),
        ensures
            final(self).wf(),
            final(self)@ == change_noted(old(self)@, id@, ip@, now, dur),
    {
        let ghost rows = self@;
        match self.table.position(id) {
            Some(i) => {
                let ghost was = rows[i as int].1;
                let c = self.table.at_mut(i);
                assert(keys_distinct(c.ips@));
                if elapsed_secs(now, c.at) > dur {
                    c.at = now;
                    c.ips = one_move(ip);
                } else {
                    let moves: u64 = match c.ips.get(ip) {
                        Some(n) => if *n < u64::MAX {
                            *n + 1
                        } else {
                            *n
                        },
                        None => 1,
                    };
                    c.ips.put(ip.to_owned(), moves);
                }
            },
            None => {
                self.table.put(id.to_owned(), IpChange { at: now, ips: one_move(ip) });
            },
        }
    }
}

/// The rows of the peers that have moved between several addresses, and not long ago: less than
/// `dur` seconds.
pub open spec fn changes_pruned(
    rows: Seq<(Seq<char>, IpChangeView)>,
    now: u64,
    dur: u64,
) -> Seq<(Seq<char>, IpChangeView)> {
    rows.filter(
        |row: (Seq<char>, IpChangeView)|
            spec_elapsed_secs(now, row.1.at) < dur && row.1.ips.len() > 1,
    )
}

impl IpChanges {
    /// Forgets the peers that have not moved, or not of late.
    pub fn prune(&mut self, now: u64, dur: u64)
        requires
            old(self).wf(),
        ensures
            final(self).wf(),
            final(self)@ == changes_pruned(old(self)@, now, dur),
    {
        let ghost rows = self@;
        let ghost p = |c: IpChangeView| spec_elapsed_secs(now, c.at) < dur && c.ips.len() > 1;
        let ghost q = |row: (Seq<char>, IpChangeView)| p(row.1);
        let keep = |c: &IpChange| -> (b: bool)
            ensures
                b == p(c@),
            { elapsed_secs(now, c.at) < dur && c.ips.len() > 1 };
        self.table.retain(keep, Ghost(p));
        proof {
            lemma_filter_member(rows, q);
            assert(q =~= (|row: (Seq<char>, IpChangeView)|
                spec_elapsed_secs(now, row.1.at) < dur && row.1.ips.len() > 1));
        }
    }
}

/// The counters of an address that registered for the first time at `start`, and then for each of
/// `ids` at the time that goes with it.
pub open spec fn counters_after(start: u64, ids: Seq<Seq<char>>, times: Seq<u64>) -> IpCountersView
    decreases times.len(),
{
    if times.len() == 0 {
        IpCountersView::fresh(start)
    } else {
        counters_after(start, ids, times.drop_last()).after(ids[times.len() - 1], times.last())
    }
}

/// No two registrations in a row are more than a minute apart.
pub open spec fn never_quiet(start: u64, times: Seq<u64>) -> bool {
    forall|i: int|
        0 <= i < times.len() ==> spec_elapsed_secs(
            #[trigger] times[i],
            if i == 0 {
                start
            } else {
                times[i - 1]
            },
        ) <= IP_BLOCK_DUR
}

/// An address that is never quiet for a minute is let through thirty times, under whatever ids, and
/// not once more; and being refused changes nothing, so that it stays refused until it has been
/// quiet.
pub proof fn law_busy_address_is_blocked(
    start: u64,
    ids: Seq<Seq<char>>,
    times: Seq<u64>,
    id: Seq<char>,
    now: u64,
)
    requires
        ids.len() >= times.len(),
        times.len() + 1 <= MAX_REGISTRATIONS,
        never_quiet(start, times.push(now)),
    ensures
        counters_after(start, ids, times).count == times.len() + 1,
        counters_after(start, ids, times).allows(id, now) <==> times.len() + 1 < MAX_REGISTRATIONS,
        times.len() + 1 == MAX_REGISTRATIONS ==> counters_after(start, ids, times).after(id, now)
            == counters_after(start, ids, times),
{
    let all = times.push(now);
    assert(never_quiet(start, times)) by {
        assert forall|i: int| 0 <= i < times.len() implies spec_elapsed_secs(
            #[trigger] times[i],
            if i == 0 {
                start
            } else {
                times[i - 1]
            },
        ) <= IP_BLOCK_DUR by {
            assert(all[i] == times[i]);
        }
    }
    lemma_busy_counters(start, ids, times);
    assert(spec_elapsed_secs(
        times.push(now)[times.len() as int],
        if times.len() == 0 {
            start
        } else {
            times.push(now)[times.len() - 1]
        },
    ) <= IP_BLOCK_DUR);
}

proof fn lemma_busy_counters(start: u64, ids: Seq<Seq<char>>, times: Seq<u64>)
    requires
        ids.len() >= times.len(),
        times.len() + 1 <= MAX_REGISTRATIONS,
        never_quiet(start, times),
    ensures
        ({
            let c = counters_after(start, ids, times);
            &&& c.count == times.len() + 1
            &&& c.ids.len() <= times.len()
            &&& c.count_at == if times.len() == 0 {
                start
            } else {
                times.last()
            }
        }),
    decreases times.len(),
{
    if times.len() > 0 {
        let t = times.drop_last();
        assert forall|i: int| 0 <= i < t.len() implies spec_elapsed_secs(
            #[trigger] t[i],
            if i == 0 {
                start
            } else {
                t[i - 1]
            },
        ) <= IP_BLOCK_DUR by {
            assert(t[i] == times[i]);
        }
        lemma_busy_counters(start, ids, t);
        assert(spec_elapsed_secs(
            times[times.len() - 1],
            if times.len() == 1 {
                start
            } else {
                times[times.len() - 2]
            },
        ) <= IP_BLOCK_DUR);
    }
}

/// Each registration that is let through within the minute is counted, up to the one that blocks.
pub proof fn law_registrations_are_counted(c: IpCountersView, id: Seq<char>, now: u64)
    requires
        c.wf(),
    ensures
        c.blocked(now) ==> c.after(id, now).count == c.count,
        !c.blocked(now) && spec_elapsed_secs(now, c.count_at) <= IP_BLOCK_DUR ==> c.after(
            id,
            now,
        ).count == c.count + 1 && c.after(id, now).count_at == now,
        spec_elapsed_secs(now, c.count_at) > IP_BLOCK_DUR ==> c.after(id, now).count == 1
            && !c.blocked(now),
{
}

/// An address that has named more ids than it may is still served for the ids that it named.
pub proof fn law_known_ids_are_served(c: IpCountersView, id: Seq<char>, now: u64)
    requires
        !c.blocked(now),
        c.full(now),
    ensures
        c.allows(id, now) <==> c.ids.contains(id),
        c.after(id, now).ids == c.ids,
{
}

/// An address is blocked from its thirtieth registration on, until more than a minute has gone by
/// without one. It may name ids that it has not named before until it has named more than three
/// hundred within a day. Whatever is neither is let through.
pub proof fn law_when_an_address_is_blocked(c: IpCountersView, id: Seq<char>, now: u64)
    ensures
        c.blocked(now) <==> c.count >= 30 && now - c.count_at < 61_000_000_000,
        c.full(now) <==> c.ids.len() > 300 && now - c.ids_at < 86_401_000_000_000,
        c.blocked(now) ==> !c.allows(id, now),
        !c.blocked(now) && !c.full(now) ==> c.allows(id, now),
        !c.blocked(now) && c.full(now) ==> (c.allows(id, now) <==> c.ids.contains(id)),
{
}

/// The ids that an address has named are remembered: after a registration that is not blocked, the
/// new one is among them and the others still are, for as long as there is room and they are not a
/// day old. After a day all of them are forgotten, but for a new one.
pub proof fn law_named_ids_are_remembered(
    c: IpCountersView,
    id: Seq<char>,
    now: u64,
    other: Seq<char>,
)
    requires
        !c.blocked(now),
    ensures
        ({
            let d = c.after(id, now);
            let today = now - c.ids_at < 86_401_000_000_000;
            &&& d.count_at == now
            &&& today && c.ids.len() <= 300 ==> (d.ids.contains(other) <==> c.ids.contains(other)
                || other == id) && d.ids_at == now
            &&& today && c.ids.len() > 300 ==> d.ids == c.ids && d.ids_at == c.ids_at
            &&& !today ==> (d.ids.contains(other) <==> other == id && !c.ids.contains(id))
                && d.ids_at == now
            &&& d.ids.len() <= c.ids.len() + 1
        }),
{
    let d = c.after(id, now);
    let today = now - c.ids_at < 86_401_000_000_000;
    if c.ids.contains(id) {
        assert(!Seq::<Seq<char>>::empty().contains(other));
    } else if today && c.ids.len() <= 300 {
        assert(d.ids == c.ids.push(id));
        assert(d.ids[c.ids.len() as int] == id);
        if c.ids.contains(other) {
            let i = choose|i: int| 0 <= i < c.ids.len() && c.ids[i] == other;
            assert(d.ids[i] == other);
        }
    } else if !today {
        assert(d.ids[0] == id);
    }
}

/// A blocked address stays as it is: being refused neither counts nor puts the end off.
pub proof fn law_blocked_address_is_not_counted(c: IpCountersView, id: Seq<char>, now: u64)
    requires
        c.count >= 30,
        now - c.count_at < 61_000_000_000,
    ensures
        c.after(id, now) == c,
        !c.allows(id, now),
{
}

/// An address's first registration is let through, and counted. What one address does is counted for
/// it alone.
pub proof fn law_addresses_are_counted_apart(
    rows: Seq<(Seq<char>, IpCountersView)>,
    ip: Seq<char>,
    id: Seq<char>,
    now: u64,
    other: Seq<char>,
)
    requires
        blocker_wf(rows),
    ensures
        ({
            let after = ip_counted(rows, ip, id, now);
            &&& lookup(rows, ip) is None ==> ip_allows(rows, ip, id, now) && (lookup(after, ip)
                matches Some(c) && c.count == 1 && c.count_at == now && c.ids.len() == 0 && c.ids_at
                == now)
            &&& lookup(rows, ip) matches Some(c) ==> ip_allows(rows, ip, id, now) == c.allows(
                id,
                now,
            ) && lookup(after, ip) == Some(c.after(id, now))
            &&& other != ip ==> lookup(after, other) == lookup(rows, other) && ip_allows(
                after,
                other,
                id,
                now,
            ) == ip_allows(rows, other, id, now)
        }),
{
    let v = match lookup(rows, ip) {
        Some(c) => c.after(id, now),
        None => IpCountersView::fresh(now),
    };
    law_filed_row_is_found(rows, ip, v, other);
}

/// What is forgotten of the addresses is what can no longer matter: a row stays exactly where the
/// last registration is no more than a minute ago, or the ids are no more than a day old.
pub proof fn law_only_stale_counters_are_forgotten(
    rows: Seq<(Seq<char>, IpCountersView)>,
    row: (Seq<char>, IpCountersView),
    now: u64,
)
    ensures
        blocker_pruned(rows, now).contains(row) <==> rows.contains(row) && (now - row.1.count_at
            < 61_000_000_000 || now - row.1.ids_at < 86_401_000_000_000),
        row.1.blocked(now) || row.1.full(now) ==> row.1.recent(now),
{
    broadcast use vstd::seq_lib::group_filter_ensures;

    let q = |r: (Seq<char>, IpCountersView)| r.1.recent(now);
    assert(q(row) <==> now - row.1.count_at < 61_000_000_000 || now - row.1.ids_at
        < 86_401_000_000_000);
    let f = rows.filter(q);
    if f.contains(row) {
        let i = choose|i: int| 0 <= i < f.len() && f[i] == row;
        lemma_filter_member(rows, q);
        assert(q(f[i]) && rows.contains(f[i]));
    }
}

/// A move adds one to the count of the address that it is to, and leaves the other counts and the
/// time at which the record was started; after `dur` seconds a record starts anew, with that move
/// alone.
pub proof fn law_moves_are_counted(
    c: IpChangeView,
    ip: Seq<char>,
    now: u64,
    dur: u64,
    other: Seq<char>,
)
    requires
        keys_distinct(c.ips),
    ensures
        ({
            let d = c.moved(ip, now, dur);
            let stale = spec_elapsed_secs(now, c.at) > dur;
            &&& !stale ==> d.at == c.at && (other != ip ==> lookup(d.ips, other) == lookup(
                c.ips,
                other,
            ))
            &&& !stale && lookup(c.ips, ip) is None ==> lookup(d.ips, ip) == Some(1u64)
            &&& !stale && lookup(c.ips, ip) is Some && lookup(c.ips, ip)->0 < u64::MAX ==> lookup(
                d.ips,
                ip,
            ) == Some((lookup(c.ips, ip)->0 + 1) as u64)
            &&& !stale && lookup(c.ips, ip) == Some(u64::MAX) ==> lookup(d.ips, ip) == Some(u64::MAX)
            &&& stale ==> d.at == now && d.ips.len() == 1 && d.ips[0] == (ip, 1u64)
        }),
{
    let moves = match lookup(c.ips, ip) {
        Some(n) if n < u64::MAX => (n + 1) as u64,
        Some(n) => n,
        None => 1,
    };
    law_filed_row_is_found(c.ips, ip, moves, other);
}

/// A peer's first move starts its record, and what one peer does is noted for it alone.
pub proof fn law_moves_are_noted_apart(
    rows: Seq<(Seq<char>, IpChangeView)>,
    id: Seq<char>,
    ip: Seq<char>,
    now: u64,
    dur: u64,
    other: Seq<char>,
)
    requires
        changes_wf(rows),
    ensures
        ({
            let after = change_noted(rows, id, ip, now, dur);
            &&& lookup(rows, id) is None ==> (lookup(after, id) matches Some(c) && c.at == now
                && c.ips.len() == 1 && c.ips[0] == (ip, 1u64))
            &&& lookup(rows, id) matches Some(c) ==> lookup(after, id) == Some(
                c.moved(ip, now, dur),
            )
            &&& other != id ==> lookup(after, other) == lookup(rows, other)
        }),
{
    let v = match lookup(rows, id) {
        Some(c) => c.moved(ip, now, dur),
        None => first_move(ip, now),
    };
    law_filed_row_is_found(rows, id, v, other);
}

/// The moves that are kept are those of peers that moved between several addresses, and whose record
/// was started less than `dur` seconds ago.
pub proof fn law_only_recent_moves_are_kept(
    rows: Seq<(Seq<char>, IpChangeView)>,
    row: (Seq<char>, IpChangeView),
    now: u64,
    dur: u64,
)
    requires
        dur > 0,
    ensures
        changes_pruned(rows, now, dur).contains(row) <==> rows.contains(row) && now - row.1.at < dur
            * 1_000_000_000 && row.1.ips.len() >= 2,
{
    broadcast use vstd::seq_lib::group_filter_ensures;

    let q = |r: (Seq<char>, IpChangeView)|
        spec_elapsed_secs(now, r.1.at) < dur && r.1.ips.len() > 1;
    assert(q(row) <==> now - row.1.at < dur * 1_000_000_000 && row.1.ips.len() >= 2);
    let f = rows.filter(q);
    if f.contains(row) {
        let i = choose|i: int| 0 <= i < f.len() && f[i] == row;
        lemma_filter_member(rows, q);
        assert(q(f[i]) && rows.contains(f[i]));
    }
}

} // verus!
