//! Reference realization of the backend capability contract: an ordered
//! in-memory store with put / get / scan and a durability model. Records
//! live in a strictly sorted association list; a second copy holds the state
//! as of the last durable write, and a simulated restart falls back to it.

use crate::digits::{
    lemma_lex_irreflexive, lemma_lex_total, lemma_lex_transitive, lex_leq, lex_less,
};
use vstd::prelude::*;

verus! {

/// Outcome of a three-way byte-key comparison.
#[derive(Copy, Clone, Debug, PartialEq, Eq, Structural)]
pub enum KeyOrder {
    Less,
    Equal,
    Greater,
}

pub fn clone_bytes(v: &Vec<u8>) -> (r: Vec<u8>)
    ensures
        r@ == v@,
{
    let mut r: Vec<u8> = Vec::new();
    let mut i: usize = 0;
    while i < v.len()
        invariant
            0 <= i <= v@.len(),
            r@ == v@.subrange(0, i as int),
        decreases v@.len() - i,
    {
        r.push(v[i]);
        proof {
            assert(r@ =~= v@.subrange(0, i + 1));
        }
        i = i + 1;
    }
    proof {
        assert(v@.subrange(0, v@.len() as int) =~= v@);
    }
    r
}

/// Equal prefixes do not decide the comparison: it is settled by the tails.
proof fn lemma_lex_skip(a: Seq<u8>, b: Seq<u8>, i: int)
    requires
        0 <= i <= a.len(),
        i <= b.len(),
        forall|j: int| 0 <= j < i ==> a[j] == b[j],
    ensures
        lex_less(a, b) <==> lex_less(
            a.subrange(i, a.len() as int),
            b.subrange(i, b.len() as int),
        ),
    decreases i,
{
    if i == 0 {
        assert(a.subrange(0, a.len() as int) =~= a);
        assert(b.subrange(0, b.len() as int) =~= b);
    } else {
        let a1 = a.subrange(1, a.len() as int);
        let b1 = b.subrange(1, b.len() as int);
        assert forall|j: int| 0 <= j < i - 1 implies a1[j] == b1[j] by {
            assert(a[j + 1] == b[j + 1]);
        }
        lemma_lex_skip(a1, b1, i - 1);
        assert(a1.subrange(i - 1, a1.len() as int) =~= a.subrange(i, a.len() as int));
        assert(b1.subrange(i - 1, b1.len() as int) =~= b.subrange(i, b.len() as int));
    }
}

/// Three-way comparison realizing the lexicographic order of `lex_less`.
pub fn bytes_cmp(a: &Vec<u8>, b: &Vec<u8>) -> (r: KeyOrder)
    ensures
        r == KeyOrder::Less <==> lex_less(a@, b@),
        r == KeyOrder::Equal <==> a@ == b@,
        r == KeyOrder::Greater <==> lex_less(b@, a@),
{
    proof {
        lemma_lex_total(a@, b@);
    }
    let n = if a.len() < b.len() {
        a.len()
    } else {
        b.len()
    };
    let mut i: usize = 0;
    while i < n
        invariant
            0 <= i <= n,
            n == if a@.len() < b@.len() {
                a@.len()
            } else {
                b@.len()
            },
            forall|j: int| 0 <= j < i ==> a@[j] == b@[j],
        decreases n - i,
    {
        let x = a[i];
        let y = b[i];
        if x < y {
            proof {
                lemma_lex_skip(a@, b@, i as int);
                lemma_lex_total(a@, b@);
            }
            return KeyOrder::Less;
        }
        if x > y {
            proof {
                lemma_lex_skip(a@, b@, i as int);
                lemma_lex_total(a@, b@);
            }
            return KeyOrder::Greater;
        }
        i = i + 1;
    }
    proof {
        lemma_lex_skip(a@, b@, n as int);
        lemma_lex_total(a@, b@);
        if a@.len() == b@.len() {
            assert(a@ =~= b@);
        }
    }
    if a.len() < b.len() {
        KeyOrder::Less
    } else if a.len() > b.len() {
        KeyOrder::Greater
    } else {
        KeyOrder::Equal
    }
}

/// Keys strictly ascending: the store's structural invariant.
pub open spec fn entries_sorted(s: Seq<(Vec<u8>, Vec<u8>)>) -> bool {
    forall|i: int, j: int|
        0 <= i < j < s.len() ==> lex_less(#[trigger] s[i].0@, #[trigger] s[j].0@)
}

pub open spec fn has_key(s: Seq<(Vec<u8>, Vec<u8>)>, k: Seq<u8>) -> bool {
    exists|i: int| 0 <= i < s.len() && (#[trigger] s[i].0@) == k
}

pub open spec fn index_of_key(s: Seq<(Vec<u8>, Vec<u8>)>, k: Seq<u8>) -> int {
    choose|i: int| 0 <= i < s.len() && (#[trigger] s[i].0@) == k
}

/// The store contents as a mathematical map from keys to values.
pub open spec fn as_map(s: Seq<(Vec<u8>, Vec<u8>)>) -> Map<Seq<u8>, Seq<u8>> {
    Map::new(|k: Seq<u8>| has_key(s, k), |k: Seq<u8>| s[index_of_key(s, k)].1@)
}

/// The store contents as the sorted sequence of key-value pairs.
pub open spec fn entry_views(s: Seq<(Vec<u8>, Vec<u8>)>) -> Seq<(Seq<u8>, Seq<u8>)> {
    s.map_values(|e: (Vec<u8>, Vec<u8>)| (e.0@, e.1@))
}

pub proof fn lemma_sorted_distinct(s: Seq<(Vec<u8>, Vec<u8>)>)
    requires
        entries_sorted(s),
    ensures
        forall|i: int, j: int|
            0 <= i < s.len() && 0 <= j < s.len() && i != j ==> (#[trigger] s[i].0@) != (
            #[trigger] s[j].0@),
{
    assert forall|i: int, j: int|
        0 <= i < s.len() && 0 <= j < s.len() && i != j implies (#[trigger] s[i].0@) != (
    #[trigger] s[j].0@) by {
        if i < j {
            lemma_lex_total(s[i].0@, s[j].0@);
        } else {
            lemma_lex_total(s[j].0@, s[i].0@);
        }
    }
}

/// In a sorted list every entry is the unique witness for its own key, so
/// the map reads back exactly the entry's value.
pub proof fn lemma_as_map_entry(s: Seq<(Vec<u8>, Vec<u8>)>, i: int)
    requires
        entries_sorted(s),
        0 <= i < s.len(),
    ensures
        as_map(s).contains_key(s[i].0@),
        as_map(s)[s[i].0@] == s[i].1@,
{
    lemma_sorted_distinct(s);
    let k = s[i].0@;
    assert(has_key(s, k));
    let w = index_of_key(s, k);
    assert(0 <= w < s.len() && s[w].0@ == k);
    assert(w == i);
}

pub proof fn lemma_as_map_congruent(s1: Seq<(Vec<u8>, Vec<u8>)>, s2: Seq<(Vec<u8>, Vec<u8>)>)
    requires
        entry_views(s1) == entry_views(s2),
        entries_sorted(s1),
    ensures
        entries_sorted(s2),
        as_map(s2) == as_map(s1),
{
    assert(entry_views(s1).len() == s1.len());
    assert(entry_views(s2).len() == s2.len());
    assert(s1.len() == s2.len());
    assert forall|i: int|
        0 <= i < s1.len() implies (#[trigger] s1[i].0@) == s2[i].0@ && s1[i].1@ == s2[i].1@ by {
        assert(entry_views(s1)[i] == entry_views(s2)[i]);
        assert(entry_views(s1)[i] == (s1[i].0@, s1[i].1@));
        assert(entry_views(s2)[i] == (s2[i].0@, s2[i].1@));
    }
    assert forall|i: int, j: int| 0 <= i < j < s2.len() implies lex_less(
        #[trigger] s2[i].0@,
        #[trigger] s2[j].0@,
    ) by {
        assert(s1[i].0@ == s2[i].0@ && s1[j].0@ == s2[j].0@);
    }
    assert forall|k: Seq<u8>| has_key(s1, k) <==> has_key(s2, k) by {
        if has_key(s1, k) {
            let i = choose|i: int| 0 <= i < s1.len() && (#[trigger] s1[i].0@) == k;
            assert(s2[i].0@ == k);
        }
        if has_key(s2, k) {
            let i = choose|i: int| 0 <= i < s2.len() && (#[trigger] s2[i].0@) == k;
            assert(s1[i].0@ == k);
        }
    }
    assert forall|k: Seq<u8>| #[trigger] as_map(s1).contains_key(k) implies as_map(s1)[k]
        == as_map(s2)[k] by {
        let i = index_of_key(s1, k);
        lemma_as_map_entry(s1, i);
        lemma_as_map_entry(s2, i);
    }
    assert(as_map(s2) =~= as_map(s1));
    assert(entry_views(s2) =~= entry_views(s1));
}

pub fn clone_entries(v: &Vec<(Vec<u8>, Vec<u8>)>) -> (r: Vec<(Vec<u8>, Vec<u8>)>)
    ensures
        r@.len() == v@.len(),
        entry_views(r@) == entry_views(v@),
{
    let mut r: Vec<(Vec<u8>, Vec<u8>)> = Vec::new();
    let mut i: usize = 0;
    while i < v.len()
        invariant
            0 <= i <= v@.len(),
            r@.len() == i,
            entry_views(r@) == entry_views(v@).subrange(0, i as int),
        decreases v@.len() - i,
    {
        let k = clone_bytes(&v[i].0);
        let val = clone_bytes(&v[i].1);
        r.push((k, val));
        proof {
            assert(entry_views(r@) =~= entry_views(v@).subrange(0, i + 1));
        }
        i = i + 1;
    }
    proof {
        assert(entry_views(v@).subrange(0, v@.len() as int) =~= entry_views(v@));
    }
    r
}

/// Index of the first record whose key is not below `k`, in a sorted record
/// sequence: where a scan starting at `k` begins.
pub open spec fn lower_bound(s: Seq<(Seq<u8>, Seq<u8>)>, k: Seq<u8>) -> int
    decreases s.len(),
{
    if s.len() == 0 {
        0
    } else if lex_less(s[0].0, k) {
        1 + lower_bound(s.subrange(1, s.len() as int), k)
    } else {
        0
    }
}

proof fn lemma_lower_bound_at(s: Seq<(Seq<u8>, Seq<u8>)>, k: Seq<u8>, i: int)
    requires
        0 <= i <= s.len(),
        forall|j: int| 0 <= j < i ==> lex_less((#[trigger] s[j]).0, k),
        i < s.len() ==> !lex_less(s[i].0, k),
    ensures
        lower_bound(s, k) == i,
    decreases i,
{
    if i == 0 {
    } else {
        let t = s.subrange(1, s.len() as int);
        assert(lex_less(s[0].0, k));
        assert forall|j: int| 0 <= j < i - 1 implies lex_less((#[trigger] t[j]).0, k) by {
            assert(t[j] == s[j + 1]);
        }
        assert(i - 1 < t.len() ==> !lex_less(t[i - 1].0, k));
        lemma_lower_bound_at(t, k, i - 1);
    }
}

/// The in-memory engine. `entries` is the live state; `durable` is the state
/// as of the last durable write, the survivor of a simulated crash.
pub struct Engine {
    entries: Vec<(Vec<u8>, Vec<u8>)>,
    durable: Vec<(Vec<u8>, Vec<u8>)>,
}

impl Engine {
    pub closed spec fn wf(&self) -> bool {
        entries_sorted(self.entries@) && entries_sorted(self.durable@)
    }

    /// Live contents, as a map.
    pub closed spec fn map_view(&self) -> Map<Seq<u8>, Seq<u8>> {
        as_map(self.entries@)
    }

    /// Contents guaranteed to survive a restart, as a map.
    pub closed spec fn durable_map(&self) -> Map<Seq<u8>, Seq<u8>> {
        as_map(self.durable@)
    }

    /// Live contents as the key-sorted sequence of records.
    pub closed spec fn seq_view(&self) -> Seq<(Seq<u8>, Seq<u8>)> {
        entry_views(self.entries@)
    }

    pub fn new() -> (s: Self)
        ensures
            s.wf(),
            s.map_view() == Map::<Seq<u8>, Seq<u8>>::empty(),
            s.durable_map() == Map::<Seq<u8>, Seq<u8>>::empty(),
            s.seq_view() == Seq::<(Seq<u8>, Seq<u8>)>::empty(),
    {
        let s = Engine { entries: Vec::new(), durable: Vec::new() };
        proof {
            assert(s.map_view() =~= Map::<Seq<u8>, Seq<u8>>::empty());
            assert(s.durable_map() =~= Map::<Seq<u8>, Seq<u8>>::empty());
            assert(s.seq_view() =~= Seq::<(Seq<u8>, Seq<u8>)>::empty());
        }
        s
    }

    /// First position whose key is not below the probe, and whether it holds
    /// the probe itself.
    fn locate(&self, key: &Vec<u8>) -> (r: (usize, bool))
        requires
            self.wf(),
        ensures
            r.0 <= self.entries@.len(),
            forall|j: int| 0 <= j < r.0 ==> lex_less((#[trigger] self.entries@[j].0@), key@),
            r.1 ==> r.0 < self.entries@.len() && self.entries@[r.0 as int].0@ == key@,
            !r.1 ==> !has_key(self.entries@, key@) && (r.0 < self.entries@.len() ==> lex_less(
                key@,
                self.entries@[r.0 as int].0@,
            )),
    {
        let n = self.entries.len();
        let mut i: usize = 0;
        while i < n
            invariant
                self.wf(),
                0 <= i <= n,
                n == self.entries@.len(),
                forall|j: int| 0 <= j < i ==> lex_less((#[trigger] self.entries@[j].0@), key@),
            decreases n - i,
        {
            match bytes_cmp(&self.entries[i].0, key) {
                KeyOrder::Less => {
                    i = i + 1;
                },
                KeyOrder::Equal => {
                    return (i, true);
                },
                KeyOrder::Greater => {
                    proof {
                        let s = self.entries@;
                        assert forall|j: int| 0 <= j < s.len() implies (#[trigger] s[j].0@)
                            != key@ by {
                            if j < i {
                                lemma_lex_total(s[j].0@, key@);
                            } else if j == i {
                                lemma_lex_total(key@, s[j].0@);
                            } else {
                                lemma_lex_transitive(key@, s[i as int].0@, s[j].0@);
                                lemma_lex_total(key@, s[j].0@);
                            }
                        }
                    }
                    return (i, false);
                },
            }
        }
        proof {
            let s = self.entries@;
            assert forall|j: int| 0 <= j < s.len() implies (#[trigger] s[j].0@) != key@ by {
                lemma_lex_total(s[j].0@, key@);
            }
        }
        (n, false)
    }

    /// Inserts or overwrites a record. A durable write also carries every
    /// previously buffered write to stable storage; a non-durable one leaves
    /// the durable state untouched.
    pub fn put(&mut self, key: Vec<u8>, value: Vec<u8>, durable: bool)
        requires
            old(self).wf(),
        ensures
            final(self).wf(),
            final(self).map_view() == old(self).map_view().insert(key@, value@),
            durable ==> final(self).durable_map() == final(self).map_view(),
            !durable ==> final(self).durable_map() == old(self).durable_map(),
            final(self).seq_view().len() == if old(self).map_view().contains_key(key@) {
                old(self).seq_view().len()
            } else {
                old(self).seq_view().len() + 1
            },
    {
        let ghost s_old = self.entries@;
        let (i, found) = self.locate(&key);
        let ghost k = key@;
        let ghost v = value@;
        if found {
            self.entries.remove(i);
        }
        self.entries.insert(i, (key, value));
        proof {
            let s_new = self.entries@;
            if found {
                assert(s_new =~= s_old.update(i as int, (s_new[i as int].0, s_new[
                i as int].1)));
            }
            // sortedness: everything left of i is below k, everything right is above.
            assert forall|p: int, q: int| 0 <= p < q < s_new.len() implies lex_less(
                #[trigger] s_new[p].0@,
                #[trigger] s_new[q].0@,
            ) by {
                let old_at = |t: int|
                    if found {
                        t
                    } else if t < i {
                        t
                    } else {
                        t - 1
                    };
                if p == i || q == i {
                    if found {
                        if p == i {
                            assert(lex_less(s_old[p].0@, s_old[q].0@));
                        } else {
                            assert(lex_less(s_old[p].0@, s_old[q].0@));
                        }
                    } else {
                        if q == i {
                            assert(lex_less(s_new[p].0@, k));
                        } else {
                            // p == i: s_new[q] comes from s_old[q - 1] with q - 1 >= i
                            if !found {
                                assert(s_new[q] == s_old[q - 1]);
                                if q - 1 == i {
                                    assert(lex_less(k, s_old[i as int].0@));
                                } else {
                                    assert(lex_less(s_old[i as int].0@, s_old[q - 1].0@));
                                    lemma_lex_transitive(
                                        k,
                                        s_old[i as int].0@,
                                        s_old[q - 1].0@,
                                    );
                                }
                                assert(lex_less(k, s_new[q].0@));
                            }
                        }
                    }
                } else {
                    let po = old_at(p);
                    let qo = old_at(q);
                    assert(s_new[p] == s_old[po] && s_new[q] == s_old[qo]);
                    assert(lex_less(s_old[po].0@, s_old[qo].0@));
                }
            }
            // map equality with the inserted binding
            lemma_sorted_distinct(s_old);
            lemma_sorted_distinct(s_new);
            let m_old = as_map(s_old);
            let m_new = as_map(s_new);
            assert forall|q: Seq<u8>| #[trigger] m_new.contains_key(q) implies m_old.insert(
                k,
                v,
            ).contains_key(q) && m_new[q] == m_old.insert(k, v)[q] by {
                let j = index_of_key(s_new, q);
                assert(0 <= j < s_new.len() && s_new[j].0@ == q);
                lemma_as_map_entry(s_new, j);
                if j == i {
                    assert(q == k && m_new[q] == v);
                } else {
                    let jo = if found || j < i {
                        j
                    } else {
                        j - 1
                    };
                    assert(s_new[j] == s_old[jo]);
                    lemma_as_map_entry(s_old, jo);
                    assert(q != k);
                }
            }
            assert forall|q: Seq<u8>| #[trigger] m_old.insert(k, v).contains_key(q) implies
                m_new.contains_key(q) by {
                if q == k {
                    lemma_as_map_entry(s_new, i as int);
                } else {
                    let jo = index_of_key(s_old, q);
                    assert(0 <= jo < s_old.len() && s_old[jo].0@ == q);
                    let j = if found || jo < i {
                        jo
                    } else {
                        jo + 1
                    };
                    if found && jo == i {
                        assert(s_old[jo].0@ == k);
                        assert(false);
                    }
                    assert(s_new[j] == s_old[jo]);
                    lemma_as_map_entry(s_new, j);
                }
            }
            assert(m_new =~= m_old.insert(k, v));
        }
        if durable {
            let snapshot = clone_entries(&self.entries);
            proof {
                lemma_as_map_congruent(self.entries@, snapshot@);
            }
            self.durable = snapshot;
        }
    }

    /// Point lookup; absence is not an error.
    pub fn get(&self, key: &Vec<u8>) -> (r: Option<Vec<u8>>)
        requires
            self.wf(),
        ensures
            match r {
                Some(v) => self.map_view().contains_key(key@) && v@ == self.map_view()[key@],
                None => !self.map_view().contains_key(key@),
            },
    {
        let (i, found) = self.locate(key);
        if found {
            proof {
                lemma_as_map_entry(self.entries@, i as int);
            }
            Some(clone_bytes(&self.entries[i].1))
        } else {
            None
        }
    }

    /// Returns up to `limit` records with key at or after `start`, in
    /// ascending key order; fewer than `limit` results mean the keyspace is
    /// exhausted, not an error.
    pub fn scan(&self, start: &Vec<u8>, limit: usize) -> (r: Vec<(Vec<u8>, Vec<u8>)>)
        requires
            self.wf(),
        ensures
            ({
                let sv = self.seq_view();
                let lb = lower_bound(sv, start@);
                let n = if sv.len() - lb < limit {
                    sv.len() - lb
                } else {
                    limit as int
                };
                &&& entry_views(r@) == sv.subrange(lb, lb + n)
                &&& r@.len() <= limit
                &&& (forall|i: int| 0 <= i < r@.len() ==> lex_leq(start@, (#[trigger] r@[i]).0@))
                &&& (forall|i: int, j: int|
                    0 <= i < j < r@.len() ==> lex_less((#[trigger] r@[i]).0@, (
                    #[trigger] r@[j]).0@))
                &&& (r@.len() < limit ==> forall|q: Seq<u8>|
                    self.map_view().contains_key(q) && lex_leq(start@, q) ==> exists|i: int|
                        0 <= i < r@.len() && (#[trigger] r@[i]).0@ == q)
            }),
    {
        let ghost sv = self.seq_view();
        let ghost lb0 = lower_bound(sv, start@);
        proof {
            assert(sv.len() == self.entries@.len());
            assert forall|t: int| 0 <= t < sv.len() implies (#[trigger] sv[t]) == (
                self.entries@[t].0@,
                self.entries@[t].1@,
            ) by {}
        }
        let (i0, found) = self.locate(start);
        proof {
            assert forall|j: int| 0 <= j < i0 implies lex_less((#[trigger] sv[j]).0, start@) by {
                assert(lex_less(self.entries@[j].0@, start@));
            }
            if i0 < self.entries.len() {
                lemma_lex_total(sv[i0 as int].0, start@);
                if found {
                    lemma_lex_irreflexive(start@);
                }
            }
            lemma_lower_bound_at(sv, start@, i0 as int);
            assert(lb0 == i0 as int);
        }
        let n_entries = self.entries.len();
        let mut r: Vec<(Vec<u8>, Vec<u8>)> = Vec::new();
        let mut j: usize = i0;
        while j < n_entries && r.len() < limit
            invariant
                self.wf(),
                sv == self.seq_view(),
                n_entries == self.entries@.len(),
                sv.len() == n_entries,
                i0 <= j <= n_entries,
                r@.len() == j - i0,
                r@.len() <= limit,
                entry_views(r@) == sv.subrange(i0 as int, j as int),
            decreases n_entries - j,
        {
            let k = clone_bytes(&self.entries[j].0);
            let v = clone_bytes(&self.entries[j].1);
            r.push((k, v));
            proof {
                assert(entry_views(r@) =~= sv.subrange(i0 as int, j + 1));
            }
            j = j + 1;
        }
        proof {
            let n = if sv.len() - lb0 < limit {
                sv.len() - lb0
            } else {
                limit as int
            };
            assert(entry_views(r@) == sv.subrange(lb0, lb0 + n));
            assert(entry_views(r@).len() == r@.len());
            // every returned key sits at or after `start`, in ascending order
            assert forall|i: int| 0 <= i < r@.len() implies lex_leq(start@, (
            #[trigger] r@[i]).0@) by {
                assert(entry_views(r@)[i] == (r@[i].0@, r@[i].1@));
                assert(r@[i].0@ == sv[lb0 + i].0);
                assert(sv[lb0 + i].0 == self.entries@[lb0 + i].0@);
                if found && i == 0 {
                    assert(start@ == sv[lb0].0);
                } else {
                    if i == 0 {
                        assert(lex_less(start@, self.entries@[i0 as int].0@));
                    } else {
                        assert(lex_less(
                            self.entries@[i0 as int].0@,
                            self.entries@[lb0 + i].0@,
                        ));
                        if found {
                            assert(start@ == self.entries@[i0 as int].0@);
                        } else {
                            assert(lex_less(start@, self.entries@[i0 as int].0@));
                            lemma_lex_transitive(
                                start@,
                                self.entries@[i0 as int].0@,
                                self.entries@[lb0 + i].0@,
                            );
                        }
                    }
                }
            }
            assert forall|i: int, t: int| 0 <= i < t < r@.len() implies lex_less(
                (#[trigger] r@[i]).0@,
                (#[trigger] r@[t]).0@,
            ) by {
                assert(entry_views(r@)[i] == (r@[i].0@, r@[i].1@));
                assert(entry_views(r@)[t] == (r@[t].0@, r@[t].1@));
                assert(r@[i].0@ == self.entries@[lb0 + i].0@);
                assert(r@[t].0@ == self.entries@[lb0 + t].0@);
            }
            if r@.len() < limit {
                assert(j == n_entries);
                assert forall|q: Seq<u8>|
                    self.map_view().contains_key(q) && lex_leq(start@, q) implies exists|i: int|
                        0 <= i < r@.len() && (#[trigger] r@[i]).0@ == q by {
                    let w = index_of_key(self.entries@, q);
                    assert(0 <= w < self.entries@.len() && self.entries@[w].0@ == q);
                    if w < lb0 {
                        assert(lex_less(self.entries@[w].0@, start@));
                        lemma_lex_total(q, start@);
                        assert(false);
                    }
                    assert(entry_views(r@)[w - lb0] == sv[w]);
                    assert(r@[w - lb0].0@ == q);
                }
            }
        }
        r
    }

    /// A durable write survives a simulated crash: whatever was buffered
    /// before, writing a record durably, restarting, and reading its key
    /// back returns exactly the written value.
    pub fn durable_write_survives(&mut self, key: Vec<u8>, value: Vec<u8>) -> (r: Option<Vec<u8>>)
        requires
            old(self).wf(),
        ensures
            final(self).wf(),
            final(self).map_view() == old(self).map_view().insert(key@, value@),
            final(self).durable_map() == final(self).map_view(),
            final(self).map_view().contains_key(key@),
            r is Some,
            r->Some_0@ == final(self).map_view()[key@],
            r->Some_0@ == value@,
    {
        let probe = clone_bytes(&key);
        self.put(key, value, true);
        self.restart();
        self.get(&probe)
    }

    /// Falls back to the last durable state, as a crash and restart of the
    /// engine would.
    pub fn restart(&mut self)
        requires
            old(self).wf(),
        ensures
            final(self).wf(),
            final(self).map_view() == old(self).durable_map(),
            final(self).durable_map() == old(self).durable_map(),
    {
        let live = clone_entries(&self.durable);
        proof {
            lemma_as_map_congruent(self.durable@, live@);
        }
        self.entries = live;
    }
}

} // verus!
