//! Association lists: small maps that keep the order in which keys were first added.
use vstd::prelude::*;

use crate::text::same_text;

verus! {

/// Some row of `rows` has the key `k`.
pub open spec fn has_key<T>(rows: Seq<(Seq<char>, T)>, k: Seq<char>) -> bool {
    exists|i: int| 0 <= i < rows.len() && (#[trigger] rows[i]).0 == k
}

/// The position of a row that has the key `k`; only meaningful where there is one.
pub open spec fn row_of<T>(rows: Seq<(Seq<char>, T)>, k: Seq<char>) -> int {
    choose|i: int| 0 <= i < rows.len() && (#[trigger] rows[i]).0 == k
}

/// No two rows have the same key.
pub open spec fn keys_distinct<T>(rows: Seq<(Seq<char>, T)>) -> bool {
    forall|i: int, j: int|
        0 <= i < j < rows.len() ==> (#[trigger] rows[i]).0 != (#[trigger] rows[j]).0
}

/// The value filed under `k`, if there is one.
pub open spec fn lookup<T>(rows: Seq<(Seq<char>, T)>, k: Seq<char>) -> Option<T> {
    if has_key(rows, k) {
        Some(rows[row_of(rows, k)].1)
    } else {
        None
    }
}

/// `rows` with `v` filed under `k`: in place of what was there, or at the end.
pub open spec fn put_row<T>(rows: Seq<(Seq<char>, T)>, k: Seq<char>, v: T) -> Seq<(Seq<char>, T)> {
    if has_key(rows, k) {
        rows.update(row_of(rows, k), (k, v))
    } else {
        rows.push((k, v))
    }
}

/// `rows` without the row of `k`.
pub open spec fn drop_row<T>(rows: Seq<(Seq<char>, T)>, k: Seq<char>) -> Seq<(Seq<char>, T)> {
    if has_key(rows, k) {
        rows.remove(row_of(rows, k))
    } else {
        rows
    }
}

/// The rows as a map from key to value.
pub open spec fn rows_map<T>(rows: Seq<(Seq<char>, T)>) -> Map<Seq<char>, T> {
    Map::new(|k: Seq<char>| has_key(rows, k), |k: Seq<char>| rows[row_of(rows, k)].1)
}

/// A row's key finds that very row.
pub proof fn lemma_row_found<T>(rows: Seq<(Seq<char>, T)>, i: int)
    requires
        keys_distinct(rows),
        0 <= i < rows.len(),
    ensures
        has_key(rows, rows[i].0),
        row_of(rows, rows[i].0) == i,
        lookup(rows, rows[i].0) == Some(rows[i].1),
{
    let k = rows[i].0;
    assert(has_key(rows, k));
    let j = row_of(rows, k);
    assert(0 <= j < rows.len() && rows[j].0 == k);
    if j < i {
        assert(rows[j].0 != rows[i].0);
    } else if i < j {
        assert(rows[i].0 != rows[j].0);
    }
}

/// Filing a value keeps the keys distinct, and is an insertion into the map.
pub proof fn lemma_put_row<T>(rows: Seq<(Seq<char>, T)>, k: Seq<char>, v: T)
    requires
        keys_distinct(rows),
    ensures
        keys_distinct(put_row(rows, k, v)),
        rows_map(put_row(rows, k, v)) == rows_map(rows).insert(k, v),
{
    let new = put_row(rows, k, v);
    if has_key(rows, k) {
        let i = row_of(rows, k);
        assert(0 <= i < rows.len() && rows[i].0 == k);
        assert forall|x: int| 0 <= x < rows.len() implies (#[trigger] new[x]).0 == rows[x].0 by {}
        assert(keys_distinct(new));
        assert(new[i] == (k, v));
    } else {
        assert forall|x: int, y: int| 0 <= x < y < new.len() implies (#[trigger] new[x]).0 != (
        #[trigger] new[y]).0 by {
            if y == rows.len() {
                assert(new[x] == rows[x]);
            } else {
                assert(new[x] == rows[x] && new[y] == rows[y]);
            }
        }
        assert(new[rows.len() as int] == (k, v));
    }
    let m = rows_map(rows).insert(k, v);
    let n = rows_map(new);
    assert forall|q: Seq<char>| n.dom().contains(q) == m.dom().contains(q) by {
        if has_key(new, q) {
            let j = row_of(new, q);
            assert(new[j].0 == q);
            if q != k {
                assert(new[j] == rows[j]);
                assert(rows[j].0 == q);
            }
        }
        if has_key(rows, q) {
            let j = row_of(rows, q);
            assert(rows[j].0 == q);
            assert(new[j].0 == q);
        }
    }
    assert forall|q: Seq<char>| n.dom().contains(q) implies n[q] == m[q] by {
        let j = row_of(new, q);
        assert(new[j].0 == q);
        lemma_row_found(new, j);
        if q == k {
            if has_key(rows, k) {
                let i = row_of(rows, k);
                assert(rows[i].0 == k);
                lemma_row_found(new, i);
            } else {
                lemma_row_found(new, rows.len() as int);
            }
        } else {
            assert(new[j] == rows[j]);
            lemma_row_found(rows, j);
        }
    }
    assert(n =~= m);
}

/// Dropping a row keeps the keys distinct, and is a removal from the map.
pub proof fn lemma_drop_row<T>(rows: Seq<(Seq<char>, T)>, k: Seq<char>)
    requires
        keys_distinct(rows),
    ensures
        keys_distinct(drop_row(rows, k)),
        rows_map(drop_row(rows, k)) == rows_map(rows).remove(k),
        !has_key(drop_row(rows, k), k),
{
    let new = drop_row(rows, k);
    let m = rows_map(rows).remove(k);
    let n = rows_map(new);
    if has_key(rows, k) {
        let i = row_of(rows, k);
        assert(0 <= i < rows.len() && rows[i].0 == k);
        assert forall|x: int| 0 <= x < new.len() implies #[trigger] new[x] == (if x < i {
            rows[x]
        } else {
            rows[x + 1]
        }) by {}
        assert forall|x: int| 0 <= x < new.len() implies (#[trigger] new[x]).0 != k by {
            let y = if x < i { x } else { x + 1 };
            assert(new[x] == rows[y]);
            if y < i {
                assert(rows[y].0 != rows[i].0);
            } else {
                assert(rows[i].0 != rows[y].0);
            }
        }
        assert(keys_distinct(new)) by {
            assert forall|x: int, y: int| 0 <= x < y < new.len() implies (#[trigger] new[x]).0 != (
            #[trigger] new[y]).0 by {
                let a = if x < i { x } else { x + 1 };
                let b = if y < i { y } else { y + 1 };
                assert(rows[a].0 != rows[b].0);
            }
        }
        assert forall|q: Seq<char>| n.dom().contains(q) == m.dom().contains(q) by {
            if has_key(new, q) {
                let j = row_of(new, q);
                assert(new[j].0 == q);
                let a = if j < i { j } else { j + 1 };
                assert(rows[a].0 == q);
            }
            if has_key(rows, q) && q != k {
                let j = row_of(rows, q);
                assert(rows[j].0 == q);
                assert(j != i);
                let b = if j < i { j } else { j - 1 };
                assert(new[b].0 == q);
            }
        }
        assert forall|q: Seq<char>| n.dom().contains(q) implies n[q] == m[q] by {
            let j = row_of(new, q);
            assert(new[j].0 == q);
            let a = if j < i { j } else { j + 1 };
            assert(new[j] == rows[a]);
            lemma_row_found(rows, a);
        }
        assert(n =~= m);
    } else {
        assert(n =~= m);
    }
}

/// A map from strings, as a list of pairs without a repeated key.
pub struct Table<V> {
    entries: Vec<(String, V)>,
}

impl<V: View> View for Table<V> {
    type V = Seq<(Seq<char>, V::V)>;

    closed spec fn view(&self) -> Seq<(Seq<char>, V::V)> {
        Seq::new(self.entries@.len(), |i: int| (self.entries@[i].0@, self.entries@[i].1@))
    }
}

impl<V: View> Table<V> {
    /// No key occurs twice.
    pub open spec fn wf(&self) -> bool {
        keys_distinct(self@)
    }

    pub fn new() -> (r: Self)
        ensures
            r.wf(),
            r@ == Seq::<(Seq<char>, V::V)>::empty(),
    {
        let r = Table { entries: Vec::new() };
        assert(r@ =~= Seq::<(Seq<char>, V::V)>::empty());
        r
    }

    pub fn len(&self) -> (n: usize)
        ensures
            n == self@.len(),
    {
        self.entries.len()
    }

    /// Where the row of `k` is.
    pub fn position(&self, k: &str) -> (r: Option<usize>)
        requires
            self.wf(),
        ensures
            match r {
                Some(i) => i < self@.len() && self@[i as int].0 == k@ && has_key(self@, k@)
                    && row_of(self@, k@) == i,
                None => !has_key(self@, k@),
            },
    {
        let mut i: usize = 0;
        while i < self.entries.len()
            invariant
                self.wf(),
                i <= self.entries@.len(),
                self@.len() == self.entries@.len(),
                forall|j: int| 0 <= j < i ==> (#[trigger] self@[j]).0 != k@,
            decreases self.entries@.len() - i,
        {
            if same_text(self.entries[i].0.as_str(), k) {
                assert(self@[i as int].0 == k@);
                proof {
                    lemma_row_found(self@, i as int);
                }
                return Some(i);
            }
            assert(self@[i as int].0 != k@);
            i += 1;
        }
        None
    }

    /// The key of row `i`.
    pub fn key_at(&self, i: usize) -> (k: &String)
        requires
            i < self@.len(),
        ensures
            k@ == self@[i as int].0,
    {
        &self.entries[i].0
    }

    /// The value of row `i`.
    pub fn at(&self, i: usize) -> (v: &V)
        requires
            i < self@.len(),
        ensures
            v@ == self@[i as int].1,
    {
        &self.entries[i].1
    }

    /// The value of row `i`, to be changed in place.
    pub fn at_mut(&mut self, i: usize) -> (v: &mut V)
        requires
            i < old(self)@.len(),
            old(self).wf(),
        ensures
            (*v)@ == old(self)@[i as int].1,
            final(self)@ == old(self)@.update(i as int, (old(self)@[i as int].0, (*final(v))@)),
            final(self).wf(),
    {
        proof {
            let rows = self@;
            assert forall|x: V::V|
                #[trigger] keys_distinct(rows.update(i as int, (rows[i as int].0, x))) by {
                let new = rows.update(i as int, (rows[i as int].0, x));
                assert forall|j: int| 0 <= j < rows.len() implies (#[trigger] new[j]).0
                    == rows[j].0 by {}
            }
        }
        let e = &mut self.entries[i];
        &mut e.1
    }

    /// The value filed under `k`.
    pub fn get(&self, k: &str) -> (r: Option<&V>)
        requires
            self.wf(),
        ensures
            match r {
                Some(v) => lookup(self@, k@) == Some(v@),
                None => lookup(self@, k@) is None,
            },
    {
        match self.position(k) {
            Some(i) => Some(self.at(i)),
            None => None,
        }
    }

    /// Files `v` under `k`.
    pub fn put(&mut self, k: String, v: V)
        requires
            old(self).wf(),
        ensures
            final(self).wf(),
            final(self)@ == put_row(old(self)@, k@, v@),
    {
        proof {
            lemma_put_row(self@, k@, v@);
        }
        match self.position(k.as_str()) {
            Some(i) => {
                let slot = self.at_mut(i);
                *slot = v;
            },
            None => {
                let ghost before = self@;
                self.entries.push((k, v));
                assert(self@ =~= before.push((k@, v@)));
            },
        }
    }

    /// Takes the row of `k` out.
    pub fn remove(&mut self, k: &str)
        requires
            old(self).wf(),
        ensures
            final(self).wf(),
            final(self)@ == drop_row(old(self)@, k@),
    {
        proof {
            lemma_drop_row(self@, k@);
        }
        if let Some(i) = self.position(k) {
            let ghost before = self@;
            let _ = self.entries.remove(i);
            assert(self@ =~= before.remove(i as int));
        }
    }

    /// Keeps the rows whose value `keep` accepts, in their order.
    pub(crate) fn retain<F: Fn(&V) -> bool>(&mut self, keep: F, Ghost(p): Ghost<
        spec_fn(V::V) -> bool,
    >)
        requires
            old(self).wf(),
            forall|v: &V| #[trigger] call_requires(keep, (v,)),
            forall|v: &V, b: bool| #[trigger] call_ensures(keep, (v,), b) ==> b == p(v@),
        ensures
            final(self).wf(),
            final(self)@ == old(self)@.filter(|row: (Seq<char>, V::V)| p(row.1)),
    {
        let ghost all = self@;
        let ghost q = |row: (Seq<char>, V::V)| p(row.1);
        let n: usize = self.entries.len();
        let mut seen: usize = 0;
        let mut i: usize = 0;
        proof {
            assert(all.take(0).filter(q) =~= Seq::<(Seq<char>, V::V)>::empty());
            assert(self@ =~= all.take(0).filter(q) + all.skip(0));
        }
        while seen < n
            invariant
                n == all.len(),
                i <= seen <= n,
                q == (|row: (Seq<char>, V::V)| p(row.1)),
                i == all.take(seen as int).filter(q).len(),
                self@ == all.take(seen as int).filter(q) + all.skip(seen as int),
                forall|v: &V| #[trigger] call_requires(keep, (v,)),
                forall|v: &V, b: bool| #[trigger] call_ensures(keep, (v,), b) ==> b == p(v@),
            decreases n - seen,
        {
            let ghost before = self@;
            let ghost kept = all.take(seen as int).filter(q);
            proof {
                assert(before[i as int] == all[seen as int]);
                assert(self.entries@.len() == before.len());
                assert(self.entries@[i as int].1@ == before[i as int].1);
                assert(all.take(seen + 1).drop_last() =~= all.take(seen as int));
                assert(all.take(seen + 1).last() == all[seen as int]);
                reveal(Seq::filter);
            }
            let wanted = keep(&self.entries[i].1);
            assert(wanted == q(all[seen as int]));
            if wanted {
                i += 1;
                proof {
                    assert(all.take(seen + 1).filter(q) =~= kept.push(all[seen as int]));
                    assert(self@ =~= all.take(seen + 1).filter(q) + all.skip(seen + 1));
                }
            } else {
                let _ = self.entries.remove(i);
                proof {
                    assert(self@ =~= before.remove(i as int));
                    assert(all.take(seen + 1).filter(q) =~= kept);
                    assert(self@ =~= kept + all.skip(seen + 1));
                }
            }
            seen += 1;
        }
        proof {
            assert(all.take(n as int) =~= all);
            assert(self@ =~= all.filter(q));
            lemma_filter_distinct(all, q);
        }
    }
}

/// Leaving rows out keeps the keys distinct.
pub proof fn lemma_filter_distinct<T>(
    rows: Seq<(Seq<char>, T)>,
    q: spec_fn((Seq<char>, T)) -> bool,
)
    requires
        keys_distinct(rows),
    ensures
        keys_distinct(rows.filter(q)),
        forall|i: int|
            0 <= i < rows.filter(q).len() ==> has_key(rows, (#[trigger] rows.filter(q)[i]).0),
    decreases rows.len(),
{
    reveal(Seq::filter);
    if rows.len() > 0 {
        let front = rows.drop_last();
        assert(keys_distinct(front)) by {
            assert forall|i: int, j: int| 0 <= i < j < front.len() implies (
            #[trigger] front[i]).0 != (#[trigger] front[j]).0 by {
                assert(rows[i].0 != rows[j].0);
            }
        }
        lemma_filter_distinct(front, q);
        let f = front.filter(q);
        assert forall|i: int| 0 <= i < f.len() implies has_key(rows, (#[trigger] f[i]).0)
            && f[i].0 != rows.last().0 by {
            let j = row_of(front, f[i].0);
            assert(front[j].0 == f[i].0);
            assert(rows[j].0 == f[i].0);
            assert(rows[j].0 != rows[rows.len() - 1].0);
        }
        assert(has_key(rows, rows.last().0)) by {
            assert(rows[rows.len() - 1].0 == rows.last().0);
        }
    }
}

/// What is left after leaving rows out was there before.
pub proof fn lemma_filter_member<T>(
    rows: Seq<(Seq<char>, T)>,
    q: spec_fn((Seq<char>, T)) -> bool,
)
    ensures
        forall|i: int|
            0 <= i < rows.filter(q).len() ==> exists|j: int|
                0 <= j < rows.len() && #[trigger] rows[j] == (#[trigger] rows.filter(q)[i]),
    decreases rows.len(),
{
    reveal(Seq::filter);
    if rows.len() > 0 {
        let front = rows.drop_last();
        lemma_filter_member(front, q);
        assert forall|i: int| 0 <= i < rows.filter(q).len() implies exists|j: int|
            0 <= j < rows.len() && #[trigger] rows[j] == (#[trigger] rows.filter(q)[i]) by {
            if i < front.filter(q).len() {
                assert(rows.filter(q)[i] == front.filter(q)[i]);
                let j = choose|j: int|
                    0 <= j < front.len() && #[trigger] front[j] == front.filter(q)[i];
                assert(rows[j] == rows.filter(q)[i]);
            } else {
                assert(rows[rows.len() - 1] == rows.filter(q)[i]);
            }
        }
    }
}

/// What is filed under a key is found under it, and nothing else is found otherwise than before.
pub proof fn law_filed_row_is_found<T>(
    rows: Seq<(Seq<char>, T)>,
    k: Seq<char>,
    v: T,
    other: Seq<char>,
)
    requires
        keys_distinct(rows),
    ensures
        lookup(put_row(rows, k, v), k) == Some(v),
        other != k ==> lookup(put_row(rows, k, v), other) == lookup(rows, other),
        put_row(rows, k, v).len() == rows.len() + (if has_key(rows, k) {
            0int
        } else {
            1
        }),
{
    lemma_put_row(rows, k, v);
    let m = rows_map(put_row(rows, k, v));
    assert(m.contains_key(k) && m[k] == v);
    assert(rows_map(rows).contains_key(other) == has_key(rows, other));
    assert(m.contains_key(other) == has_key(put_row(rows, k, v), other));
    if other != k && has_key(rows, other) {
        assert(m[other] == rows_map(rows)[other]);
    }
}

/// A row that was dropped is not found, and every other one is found as before.
pub proof fn law_dropped_row_is_gone<T>(rows: Seq<(Seq<char>, T)>, k: Seq<char>, other: Seq<char>)
    requires
        keys_distinct(rows),
    ensures
        lookup(drop_row(rows, k), k) is None,
        other != k ==> lookup(drop_row(rows, k), other) == lookup(rows, other),
        drop_row(rows, k).len() == rows.len() - (if has_key(rows, k) {
            1int
        } else {
            0
        }),
{
    lemma_drop_row(rows, k);
    let m = rows_map(drop_row(rows, k));
    assert(rows_map(rows).contains_key(other) == has_key(rows, other));
    assert(m.contains_key(other) == has_key(drop_row(rows, k), other));
    if other != k && has_key(rows, other) {
        assert(m[other] == rows_map(rows)[other]);
    }
}

/// What is found under a key stands in a row with that key, and each row is found.
pub proof fn law_lookup_finds_the_rows<T>(rows: Seq<(Seq<char>, T)>, k: Seq<char>, v: T)
    requires
        keys_distinct(rows),
    ensures
        lookup(rows, k) == Some(v) <==> rows.contains((k, v)),
        lookup(rows, k) is None <==> forall|i: int|
            0 <= i < rows.len() ==> (#[trigger] rows[i]).0 != k,
{
    if lookup(rows, k) == Some(v) {
        let i = row_of(rows, k);
        assert(rows[i].0 == k);
        assert(rows[i] == (k, v));
    }
    if rows.contains((k, v)) {
        let i = choose|i: int| 0 <= i < rows.len() && rows[i] == (k, v);
        lemma_row_found(rows, i);
    }
}

} // verus!
