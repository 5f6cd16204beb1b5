//! A table of reachability entries keyed by destination, keeping for each key
//! the entry with the lowest metric (the earliest one on ties), with the keys
//! in ascending order.

use vstd::prelude::*;

use crate::packet::{IsReach, Ipv4Reach, Ipv6Reach};

verus! {

/// A destination key: a number and a tie-break octet, ordered
/// lexicographically.
pub type Key = (u128, u8);

/// Strict lexicographic order on keys.
pub open spec fn key_lt(a: Key, b: Key) -> bool {
    a.0 < b.0 || (a.0 == b.0 && a.1 < b.1)
}

/// Entries with a destination key and a metric.
pub trait MetricKeyed: Copy + Sized {
    /// Destination key of the entry.
    spec fn key_of(&self) -> Key;

    /// Metric of the entry.
    spec fn metric_of(&self) -> u32;

    /// Computes the destination key.
    fn key(&self) -> (k: Key)
        ensures
            k == self.key_of(),
    ;

    /// Returns the metric.
    fn metric(&self) -> (m: u32)
        ensures
            m == self.metric_of(),
    ;
}

impl MetricKeyed for IsReach {
    /// A neighbor is keyed by its System ID, then its pseudonode number: the
    /// order of the seven octets of its LAN ID.
    open spec fn key_of(&self) -> Key {
        (self.neighbor.system_id.as_int() as u128, self.neighbor.pseudonode)
    }

    open spec fn metric_of(&self) -> u32 {
        self.metric
    }

    fn key(&self) -> (k: Key) {
        (self.neighbor.system_id.to_int() as u128, self.neighbor.pseudonode)
    }

    fn metric(&self) -> (m: u32) {
        self.metric
    }
}

impl MetricKeyed for Ipv4Reach {
    /// A prefix is keyed by its address, then its length.
    open spec fn key_of(&self) -> Key {
        (self.prefix.addr as u128, self.prefix.len)
    }

    open spec fn metric_of(&self) -> u32 {
        self.metric
    }

    fn key(&self) -> (k: Key) {
        (self.prefix.addr as u128, self.prefix.len)
    }

    fn metric(&self) -> (m: u32) {
        self.metric
    }
}

impl MetricKeyed for Ipv6Reach {
    /// A prefix is keyed by its address, then its length.
    open spec fn key_of(&self) -> Key {
        (self.prefix.addr, self.prefix.len)
    }

    open spec fn metric_of(&self) -> u32 {
        self.metric
    }

    fn key(&self) -> (k: Key) {
        (self.prefix.addr, self.prefix.len)
    }

    fn metric(&self) -> (m: u32) {
        self.metric
    }
}

/// Position of the first entry of `t` whose key is not below `k`.
pub open spec fn insert_pos<V: MetricKeyed>(t: Seq<V>, k: Key) -> int
    decreases t.len(),
{
    if t.len() == 0 {
        0
    } else if key_lt(t[0].key_of(), k) {
        1 + insert_pos(t.drop_first(), k)
    } else {
        0
    }
}

/// Adds `c` to the table: when an entry with the same key is present it is
/// replaced if `c` has a strictly lower metric and kept otherwise; when none
/// is, `c` is inserted before the first entry whose key is above its key.
pub open spec fn upsert<V: MetricKeyed>(t: Seq<V>, c: V) -> Seq<V> {
    let p = insert_pos(t, c.key_of());
    if p < t.len() && t[p].key_of() == c.key_of() {
        if c.metric_of() < t[p].metric_of() {
            t.update(p, c)
        } else {
            t
        }
    } else {
        t.insert(p, c)
    }
}

/// The table built by adding the candidates one after the other to an empty
/// table.
pub open spec fn min_table<V: MetricKeyed>(cands: Seq<V>) -> Seq<V>
    decreases cands.len(),
{
    if cands.len() == 0 {
        Seq::empty()
    } else {
        upsert(min_table(cands.drop_last()), cands.last())
    }
}

/// Keys strictly ascend along the table.
pub open spec fn sorted_by_key<V: MetricKeyed>(t: Seq<V>) -> bool {
    forall|i: int, j: int| 0 <= i < j < t.len() ==> key_lt(t[i].key_of(), t[j].key_of())
}

/// `j` is the winning candidate of its key: no candidate of that key has a
/// lower metric, and every earlier candidate of that key has a higher one.
pub open spec fn is_winner<V: MetricKeyed>(cands: Seq<V>, j: int) -> bool {
    &&& 0 <= j < cands.len()
    &&& forall|i: int|
        0 <= i < cands.len() && #[trigger] cands[i].key_of() == cands[j].key_of() ==> {
            &&& cands[j].metric_of() <= cands[i].metric_of()
            &&& (i < j ==> cands[j].metric_of() < cands[i].metric_of())
        }
}

/// `x` is the winning candidate of some key.
pub open spec fn is_winning_candidate<V: MetricKeyed>(cands: Seq<V>, x: V) -> bool {
    exists|j: int| is_winner(cands, j) && #[trigger] cands[j] == x
}

/// Some entry of `t` has key `k`.
pub open spec fn has_key<V: MetricKeyed>(t: Seq<V>, k: Key) -> bool {
    exists|r: int| 0 <= r < t.len() && #[trigger] t[r].key_of() == k
}

/// Every entry of `t` is the winning candidate of its key.
pub open spec fn entries_are_winners<V: MetricKeyed>(t: Seq<V>, cands: Seq<V>) -> bool {
    forall|r: int| 0 <= r < t.len() ==> is_winning_candidate(cands, #[trigger] t[r])
}

/// Every candidate's key has an entry in `t`.
pub open spec fn covers_keys<V: MetricKeyed>(t: Seq<V>, cands: Seq<V>) -> bool {
    forall|j: int| 0 <= j < cands.len() ==> has_key(t, #[trigger] cands[j].key_of())
}

/// `t` holds exactly the winning candidate of every key, in ascending key
/// order.
#[verifier::opaque]
pub open spec fn is_min_table_of<V: MetricKeyed>(t: Seq<V>, cands: Seq<V>) -> bool {
    &&& sorted_by_key(t)
    &&& entries_are_winners(t, cands)
    &&& covers_keys(t, cands)
}

/// Key comparison on executable values.
fn key_less(a: Key, b: Key) -> (r: bool)
    ensures
        r == key_lt(a, b),
{
    a.0 < b.0 || (a.0 == b.0 && a.1 < b.1)
}

/// Key equality on executable values.
fn key_equal(a: Key, b: Key) -> (r: bool)
    ensures
        r == (a == b),
{
    a.0 == b.0 && a.1 == b.1
}

/// Adds `c` to the table as [`upsert`] says.
pub fn insert_min<V: MetricKeyed>(table: &mut Vec<V>, c: V)
    ensures
        final(table)@ == upsert(old(table)@, c),
{
    let ghost t0 = table@;
    let k = c.key();
    let mut i: usize = 0;
    assert(t0.skip(0) =~= t0);
    while i < table.len() && key_less(table[i].key(), k)
        invariant
            table@ == t0,
            i <= t0.len(),
            k == c.key_of(),
            insert_pos(t0, k) == i + insert_pos(t0.skip(i as int), k),
        decreases t0.len() - i,
    {
        assert(t0.skip(i as int).drop_first() =~= t0.skip(i + 1));
        i += 1;
    }
    proof {
        if i < t0.len() {
            assert(t0.skip(i as int)[0] == t0[i as int]);
        }
    }
    assert(insert_pos(t0, k) == i);
    if i < table.len() && key_equal(table[i].key(), k) {
        if c.metric() < table[i].metric() {
            table.set(i, c);
        }
    } else {
        table.insert(i, c);
    }
}

/// Every key in `t` up to `p` is below `k`, and at `p` it is not.
proof fn lemma_insert_pos<V: MetricKeyed>(t: Seq<V>, k: Key)
    ensures
        0 <= insert_pos(t, k) <= t.len(),
        forall|i: int| 0 <= i < insert_pos(t, k) ==> key_lt(#[trigger] t[i].key_of(), k),
        insert_pos(t, k) < t.len() ==> !key_lt(t[insert_pos(t, k)].key_of(), k),
    decreases t.len(),
{
    if t.len() > 0 && key_lt(t[0].key_of(), k) {
        lemma_insert_pos(t.drop_first(), k);
        assert forall|i: int| 0 <= i < insert_pos(t, k) implies key_lt(#[trigger] t[i].key_of(), k) by {
            if i > 0 {
                assert(t[i] == t.drop_first()[i - 1]);
            }
        }
    }
}

/// [`upsert`] keeps keys strictly ascending.
proof fn lemma_upsert_sorted<V: MetricKeyed>(t: Seq<V>, c: V)
    requires
        sorted_by_key(t),
    ensures
        sorted_by_key(upsert(t, c)),
{
    lemma_insert_pos(t, c.key_of());
    let p = insert_pos(t, c.key_of());
    let u = upsert(t, c);
    if p < t.len() && t[p].key_of() == c.key_of() {
        if c.metric_of() < t[p].metric_of() {
            assert forall|i: int, j: int| 0 <= i < j < u.len() implies key_lt(
                u[i].key_of(),
                u[j].key_of(),
            ) by {
                assert(t[i].key_of() == u[i].key_of() || i == p);
                assert(t[j].key_of() == u[j].key_of() || j == p);
            }
        }
    } else {
        assert forall|i: int, j: int| 0 <= i < j < u.len() implies key_lt(
            u[i].key_of(),
            u[j].key_of(),
        ) by {
            if j < p {
            } else if j == p {
                assert(key_lt(t[i].key_of(), c.key_of()));
            } else if i < p {
                assert(key_lt(t[i].key_of(), c.key_of()));
                assert(!key_lt(t[p].key_of(), c.key_of()));
                if p < j - 1 {
                    assert(key_lt(t[p].key_of(), t[j - 1].key_of()));
                }
            } else if i == p {
                assert(!key_lt(t[p].key_of(), c.key_of()));
                if p < j - 1 {
                    assert(key_lt(t[p].key_of(), t[j - 1].key_of()));
                }
            } else {
                assert(key_lt(t[i - 1].key_of(), t[j - 1].key_of()));
            }
        }
    }
}

/// A winner of another key than `c`'s stays a winner once `c` is added.
proof fn lemma_winner_other_key<V: MetricKeyed>(cands: Seq<V>, c: V, j: int)
    requires
        is_winner(cands, j),
        c.key_of() != cands[j].key_of(),
    ensures
        is_winner(cands.push(c), j),
{
    let cs = cands.push(c);
    assert forall|i: int| 0 <= i < cs.len() && #[trigger] cs[i].key_of() == cs[j].key_of() implies {
        &&& cs[j].metric_of() <= cs[i].metric_of()
        &&& (i < j ==> cs[j].metric_of() < cs[i].metric_of())
    } by {
        if i < cands.len() {
            assert(cs[i] == cands[i]);
        }
    }
}

/// A winner of `c`'s key whose metric `c` does not beat stays the winner.
proof fn lemma_winner_not_beaten<V: MetricKeyed>(cands: Seq<V>, c: V, j: int)
    requires
        is_winner(cands, j),
        c.metric_of() >= cands[j].metric_of(),
    ensures
        is_winner(cands.push(c), j),
{
    let cs = cands.push(c);
    assert forall|i: int| 0 <= i < cs.len() && #[trigger] cs[i].key_of() == cs[j].key_of() implies {
        &&& cs[j].metric_of() <= cs[i].metric_of()
        &&& (i < j ==> cs[j].metric_of() < cs[i].metric_of())
    } by {
        if i < cands.len() {
            assert(cs[i] == cands[i]);
        }
    }
}

/// `c` wins its key when every earlier candidate of that key has a higher
/// metric.
proof fn lemma_new_winner<V: MetricKeyed>(cands: Seq<V>, c: V)
    requires
        forall|i: int|
            0 <= i < cands.len() && #[trigger] cands[i].key_of() == c.key_of()
                ==> c.metric_of() < cands[i].metric_of(),
    ensures
        is_winner(cands.push(c), cands.len() as int),
{
    let cs = cands.push(c);
    let n = cands.len() as int;
    assert forall|i: int| 0 <= i < cs.len() && #[trigger] cs[i].key_of() == cs[n].key_of() implies {
        &&& cs[n].metric_of() <= cs[i].metric_of()
        &&& (i < n ==> cs[n].metric_of() < cs[i].metric_of())
    } by {
        if i < n {
            assert(cs[i] == cands[i]);
        }
    }
}

/// The candidate that a table entry holds.
proof fn lemma_entry_source<V: MetricKeyed>(t: Seq<V>, cands: Seq<V>, r: int) -> (j: int)
    requires
        is_min_table_of(t, cands),
        0 <= r < t.len(),
    ensures
        is_winner(cands, j),
        t[r] == cands[j],
{
    reveal(is_min_table_of);
    assert(is_winning_candidate(cands, t[r]));
    choose|j: int| is_winner(cands, j) && #[trigger] cands[j] == t[r]
}

/// The table entry that holds a candidate's key.
proof fn lemma_key_entry<V: MetricKeyed>(t: Seq<V>, cands: Seq<V>, j: int) -> (r: int)
    requires
        is_min_table_of(t, cands),
        0 <= j < cands.len(),
    ensures
        0 <= r < t.len(),
        t[r].key_of() == cands[j].key_of(),
{
    reveal(is_min_table_of);
    assert(has_key(t, cands[j].key_of()));
    choose|r: int| 0 <= r < t.len() && #[trigger] t[r].key_of() == cands[j].key_of()
}

/// Distinct positions of a sorted table hold distinct keys.
proof fn lemma_sorted_distinct<V: MetricKeyed>(t: Seq<V>, a: int, b: int)
    requires
        sorted_by_key(t),
        0 <= a < t.len(),
        0 <= b < t.len(),
        a != b,
    ensures
        t[a].key_of() != t[b].key_of(),
{
    if a < b {
        assert(key_lt(t[a].key_of(), t[b].key_of()));
    } else {
        assert(key_lt(t[b].key_of(), t[a].key_of()));
    }
}

/// Adding a candidate whose key is in the table.
proof fn lemma_upsert_present<V: MetricKeyed>(t: Seq<V>, cands: Seq<V>, c: V)
    requires
        is_min_table_of(t, cands),
        insert_pos(t, c.key_of()) < t.len(),
        t[insert_pos(t, c.key_of())].key_of() == c.key_of(),
    ensures
        is_min_table_of(upsert(t, c), cands.push(c)),
{
    reveal(is_min_table_of);
    lemma_insert_pos(t, c.key_of());
    lemma_upsert_sorted(t, c);
    let p = insert_pos(t, c.key_of());
    let u = upsert(t, c);
    let cs = cands.push(c);
    let n = cands.len() as int;
    let jp = lemma_entry_source(t, cands, p);
    let replaced = c.metric_of() < t[p].metric_of();
    if replaced {
        assert forall|i: int|
            0 <= i < cands.len() && #[trigger] cands[i].key_of() == c.key_of()
                implies c.metric_of() < cands[i].metric_of() by {
            assert(cands[i].key_of() == cands[jp].key_of());
        }
        lemma_new_winner(cands, c);
    } else {
        lemma_winner_not_beaten(cands, c, jp);
    }
    assert forall|r: int| 0 <= r < u.len() implies is_winning_candidate(cs, #[trigger] u[r]) by {
        if r == p {
            if replaced {
                assert(u[r] == cs[n]);
            } else {
                assert(u[r] == cs[jp]);
            }
        } else {
            let j = lemma_entry_source(t, cands, r);
            lemma_sorted_distinct(t, r, p);
            lemma_winner_other_key(cands, c, j);
            assert(u[r] == cs[j]);
        }
    }
    assert forall|j: int| 0 <= j < cs.len() implies has_key(u, #[trigger] cs[j].key_of()) by {
        if j == n {
            assert(u[p].key_of() == cs[j].key_of());
        } else {
            let r = lemma_key_entry(t, cands, j);
            assert(u[r].key_of() == t[r].key_of());
            assert(cs[j] == cands[j]);
        }
    }
    assert(entries_are_winners(u, cs));
    assert(covers_keys(u, cs));
}

/// Adding a candidate whose key is not in the table.
proof fn lemma_upsert_absent<V: MetricKeyed>(t: Seq<V>, cands: Seq<V>, c: V)
    requires
        is_min_table_of(t, cands),
        !(insert_pos(t, c.key_of()) < t.len() && t[insert_pos(t, c.key_of())].key_of()
            == c.key_of()),
    ensures
        is_min_table_of(upsert(t, c), cands.push(c)),
{
    reveal(is_min_table_of);
    lemma_insert_pos(t, c.key_of());
    lemma_upsert_sorted(t, c);
    let p = insert_pos(t, c.key_of());
    let u = upsert(t, c);
    let cs = cands.push(c);
    let n = cands.len() as int;
    assert forall|i: int| 0 <= i < n implies #[trigger] cands[i].key_of() != c.key_of() by {
        if cands[i].key_of() == c.key_of() {
            let r = lemma_key_entry(t, cands, i);
            if r < p {
                assert(key_lt(t[r].key_of(), c.key_of()));
            } else if r > p {
                assert(key_lt(t[p].key_of(), t[r].key_of()));
            }
        }
    }
    lemma_new_winner(cands, c);
    assert forall|r: int| 0 <= r < u.len() implies is_winning_candidate(cs, #[trigger] u[r]) by {
        if r == p {
            assert(u[r] == cs[n]);
        } else {
            let rr = if r < p { r } else { r - 1 };
            assert(u[r] == t[rr]);
            let j = lemma_entry_source(t, cands, rr);
            lemma_winner_other_key(cands, c, j);
            assert(u[r] == cs[j]);
        }
    }
    assert forall|j: int| 0 <= j < cs.len() implies has_key(u, #[trigger] cs[j].key_of()) by {
        if j == n {
            assert(u[p].key_of() == cs[j].key_of());
        } else {
            let r = lemma_key_entry(t, cands, j);
            let rr = if r < p { r } else { r + 1 };
            assert(u[rr].key_of() == t[r].key_of());
            assert(cs[j] == cands[j]);
        }
    }
    assert(entries_are_winners(u, cs));
    assert(covers_keys(u, cs));
}

/// Adding a candidate to a table of the earlier candidates gives the table
/// of all of them.
proof fn lemma_upsert_min_table<V: MetricKeyed>(t: Seq<V>, cands: Seq<V>, c: V)
    requires
        is_min_table_of(t, cands),
    ensures
        is_min_table_of(upsert(t, c), cands.push(c)),
{
    let p = insert_pos(t, c.key_of());
    if p < t.len() && t[p].key_of() == c.key_of() {
        lemma_upsert_present(t, cands, c);
    } else {
        lemma_upsert_absent(t, cands, c);
    }
}

/// The table of a candidate list holds exactly the winning candidate of each
/// key, in ascending key order.
pub proof fn lemma_min_table_winners<V: MetricKeyed>(cands: Seq<V>)
    ensures
        is_min_table_of(min_table(cands), cands),
    decreases cands.len(),
{
    reveal(is_min_table_of);
    if cands.len() > 0 {
        lemma_min_table_winners(cands.drop_last());
        lemma_upsert_min_table(min_table(cands.drop_last()), cands.drop_last(), cands.last());
        assert(cands.drop_last().push(cands.last()) =~= cands);
    }
}

/// Each entry of a table is the winning candidate of its key: no candidate
/// of that key has a lower metric, and the earlier ones have a higher metric.
pub proof fn lemma_min_table_entry<V: MetricKeyed>(cands: Seq<V>, r: int) -> (j: int)
    requires
        0 <= r < min_table(cands).len(),
    ensures
        is_winner(cands, j),
        min_table(cands)[r] == cands[j],
{
    lemma_min_table_winners(cands);
    lemma_entry_source(min_table(cands), cands, r)
}

/// Every candidate's key has an entry in the table.
pub proof fn lemma_min_table_covers<V: MetricKeyed>(cands: Seq<V>, j: int) -> (r: int)
    requires
        0 <= j < cands.len(),
    ensures
        0 <= r < min_table(cands).len(),
        min_table(cands)[r].key_of() == cands[j].key_of(),
{
    lemma_min_table_winners(cands);
    lemma_key_entry(min_table(cands), cands, j)
}

/// The keys of a table ascend strictly: no key occurs twice.
pub proof fn lemma_min_table_sorted<V: MetricKeyed>(cands: Seq<V>)
    ensures
        sorted_by_key(min_table(cands)),
{
    lemma_min_table_winners(cands);
    reveal(is_min_table_of);
}

} // verus!
