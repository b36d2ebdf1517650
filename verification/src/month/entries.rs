//! A small map from string identifiers to values, the storage of the
//! per-identifier sections of a month document.
use vstd::prelude::*;

use crate::text::{lemma_lex_irreflexive, lemma_lex_total, lemma_lex_trans, lex_lt, str_eq, str_lex_lt};

verus! {

/// Map from identifiers to values, kept in ascending key order; each
/// identifier occurs at most once.
///
/// Kept as a sorted list of pairs: the standard ordered map gives no
/// provable facts for `String` keys, which have no ordering model in vstd.
/// Because the order is fixed by the keys, two maps with the same contents
/// store the same list, so the derived `==` compares contents.
#[derive(Debug, PartialEq, Eq)]
pub struct EntryMap<T> {
    entries: Vec<(String, T)>,
}

/// The map a list of distinct-keyed entries stands for.
pub open spec fn map_of<T>(s: Seq<(String, T)>) -> Map<Seq<char>, T> {
    Map::new(
        |k: Seq<char>| exists|i: int| 0 <= i < s.len() && (#[trigger] s[i]).0@ == k,
        |k: Seq<char>| s[choose|i: int| 0 <= i < s.len() && (#[trigger] s[i]).0@ == k].1,
    )
}

/// No key occurs twice.
pub open spec fn keys_distinct<T>(s: Seq<(String, T)>) -> bool {
    forall|i: int, j: int| 0 <= i < s.len() && 0 <= j < s.len() && i != j ==> (#[trigger] s[i]).0@ != (#[trigger] s[j]).0@
}

/// Keys appear in strictly ascending order.
pub open spec fn keys_ascending<T>(s: Seq<(String, T)>) -> bool {
    forall|i: int, j: int| 0 <= i < j < s.len() ==> lex_lt((#[trigger] s[i]).0@, (#[trigger] s[j]).0@)
}

/// Pairs listed in strictly ascending key order.
pub open spec fn ascending<T>(p: Seq<(Seq<char>, T)>) -> bool {
    forall|i: int, j: int| 0 <= i < j < p.len() ==> lex_lt((#[trigger] p[i]).0, (#[trigger] p[j]).0)
}

/// Ascending keys are distinct keys.
proof fn lemma_ascending_distinct<T>(s: Seq<(String, T)>)
    requires
        keys_ascending(s),
    ensures
        keys_distinct(s),
{
    assert forall|i: int, j: int| 0 <= i < s.len() && 0 <= j < s.len() && i != j implies (
    #[trigger] s[i]).0@ != (#[trigger] s[j]).0@ by {
        lemma_lex_irreflexive(s[i].0@);
    }
}

/// Placing `e` between the keys that sort before it and those that sort
/// after it keeps the keys ascending and adds `e` to the map.
proof fn lemma_insert_sorted<T>(s: Seq<(String, T)>, n: Seq<(String, T)>, at: int, e: (String, T))
    requires
        keys_ascending(s),
        0 <= at <= s.len(),
        n.len() == s.len() + 1,
        forall|k: int| 0 <= k < at ==> #[trigger] n[k] == s[k],
        forall|k: int| at <= k < s.len() ==> n[k + 1] == #[trigger] s[k],
        n[at] == e,
        forall|k: int| 0 <= k < at ==> lex_lt((#[trigger] s[k]).0@, e.0@),
        forall|k: int| at <= k < s.len() ==> lex_lt(e.0@, (#[trigger] s[k]).0@),
    ensures
        keys_ascending(n),
        keys_distinct(n),
        map_of(n) =~= map_of(s).insert(e.0@, e.1),
{
    assert forall|i: int, j: int| 0 <= i < j < n.len() implies lex_lt(
        (#[trigger] n[i]).0@,
        (#[trigger] n[j]).0@,
    ) by {
        if j < at {
            assert(n[i] == s[i] && n[j] == s[j]);
        } else if j == at {
            assert(n[i] == s[i]);
        } else if i < at {
            assert(n[i] == s[i] && n[j] == s[j - 1]);
        } else if i == at {
            assert(n[j] == s[j - 1]);
        } else {
            assert(n[i] == s[i - 1] && n[j] == s[j - 1]);
        }
    }
    lemma_ascending_distinct(n);
    lemma_ascending_distinct(s);
    let k = e.0@;
    assert forall|x: Seq<char>| #[trigger] map_of(n).dom().contains(x) <==> map_of(s).insert(
        k,
        e.1,
    ).dom().contains(x) by {
        if map_of(n).dom().contains(x) {
            let j = choose|j: int| 0 <= j < n.len() && (#[trigger] n[j]).0@ == x;
            if j < at {
                assert(s[j].0@ == x);
            } else if j > at {
                assert(s[j - 1].0@ == x);
            }
        }
        if map_of(s).dom().contains(x) {
            let j = choose|j: int| 0 <= j < s.len() && (#[trigger] s[j]).0@ == x;
            if j < at {
                assert(n[j].0@ == x);
            } else {
                assert(n[j + 1].0@ == x);
            }
        }
        if x == k {
            assert(n[at].0@ == x);
        }
    }
    assert forall|x: Seq<char>| #[trigger] map_of(n).dom().contains(x) implies map_of(n)[x]
        == map_of(s).insert(k, e.1)[x] by {
        let j = choose|j: int| 0 <= j < n.len() && (#[trigger] n[j]).0@ == x;
        lemma_map_of_at(n, j);
        if j < at {
            assert(s[j].0@ == x);
            lemma_map_of_at(s, j);
        } else if j > at {
            assert(s[j - 1].0@ == x);
            lemma_map_of_at(s, j - 1);
        }
    }
}

/// Two ascending lists with the same elements are the same list.
proof fn lemma_sorted_unique<T>(p: Seq<(Seq<char>, T)>, q: Seq<(Seq<char>, T)>)
    requires
        ascending(p),
        ascending(q),
        forall|x: (Seq<char>, T)| p.contains(x) <==> q.contains(x),
    ensures
        p == q,
    decreases p.len(),
{
    if p.len() == 0 {
        if q.len() > 0 {
            assert(q.contains(q[0]));
        }
        assert(p =~= q);
    } else {
        assert(p.contains(p[0]));
        let j = choose|j: int| 0 <= j < q.len() && q[j] == p[0];
        assert(q.contains(q[0]));
        let i = choose|i: int| 0 <= i < p.len() && p[i] == q[0];
        if j > 0 {
            if i > 0 {
                lemma_lex_total(p[0].0, p[i].0);
            } else {
                lemma_lex_irreflexive(p[0].0);
            }
        }
        assert(p[0] == q[0]);
        let p1 = p.drop_first();
        let q1 = q.drop_first();
        assert forall|x: (Seq<char>, T)| p1.contains(x) <==> q1.contains(x) by {
            if p1.contains(x) {
                let a = choose|a: int| 0 <= a < p1.len() && p1[a] == x;
                assert(p[a + 1] == x);
                lemma_lex_irreflexive(p[0].0);
                assert(q.contains(x));
                let b = choose|b: int| 0 <= b < q.len() && q[b] == x;
                assert(b != 0);
                assert(q1[b - 1] == x);
            }
            if q1.contains(x) {
                let a = choose|a: int| 0 <= a < q1.len() && q1[a] == x;
                assert(q[a + 1] == x);
                lemma_lex_irreflexive(q[0].0);
                assert(p.contains(x));
                let b = choose|b: int| 0 <= b < p.len() && p[b] == x;
                assert(b != 0);
                assert(p1[b - 1] == x);
            }
        }
        lemma_sorted_unique(p1, q1);
        assert(p =~= q) by {
            assert forall|k: int| 0 <= k < p.len() implies p[k] == q[k] by {
                if k > 0 {
                    assert(p[k] == p1[k - 1]);
                    assert(q[k] == q1[k - 1]);
                }
            }
        }
    }
}

/// With distinct keys, the value stored at `i` is the value of its key.
pub proof fn lemma_map_of_at<T>(s: Seq<(String, T)>, i: int)
    requires
        keys_distinct(s),
        0 <= i < s.len(),
    ensures
        map_of(s).dom().contains(s[i].0@),
        map_of(s)[s[i].0@] == s[i].1,
{
    let k = s[i].0@;
    assert(map_of(s).dom().contains(k));
    let j = choose|j: int| 0 <= j < s.len() && (#[trigger] s[j]).0@ == k;
    assert(j == i);
}

/// Distinct-keyed entries list their map exactly, each key once.
proof fn lemma_pairs_of<T>(s: Seq<(String, T)>)
    requires
        keys_distinct(s),
    ensures
        ({
            let p = s.map_values(|e: (String, T)| (e.0@, e.1));
            &&& forall|i: int| 0 <= i < p.len() ==> map_of(s).dom().contains(#[trigger] p[i].0)
                && map_of(s)[p[i].0] == p[i].1
            &&& forall|k: Seq<char>| #[trigger]
                map_of(s).dom().contains(k) ==> exists|i: int| 0 <= i < p.len() && #[trigger] p[i].0 == k
            &&& forall|i: int, j: int| 0 <= i < j < p.len() ==> p[i].0 != p[j].0
            &&& map_of(s).dom().finite()
            &&& map_of(s).dom().len() == p.len()
        }),
{
    let p = s.map_values(|e: (String, T)| (e.0@, e.1));
    assert forall|i: int| 0 <= i < p.len() implies map_of(s).dom().contains(#[trigger] p[i].0)
        && map_of(s)[p[i].0] == p[i].1 by {
        lemma_map_of_at(s, i);
    }
    assert forall|k: Seq<char>| #[trigger] map_of(s).dom().contains(k) implies exists|i: int|
        0 <= i < p.len() && #[trigger] p[i].0 == k by {
        let i = choose|i: int| 0 <= i < s.len() && (#[trigger] s[i]).0@ == k;
        assert(p[i].0 == k);
    }
    assert forall|i: int, j: int| 0 <= i < j < p.len() implies p[i].0 != p[j].0 by {
        assert(s[i].0@ != s[j].0@);
    }
    let keys = p.map_values(|q: (Seq<char>, T)| q.0);
    assert(keys.no_duplicates()) by {
        assert forall|i: int, j: int| 0 <= i < keys.len() && 0 <= j < keys.len() && i != j
            implies keys[i] != keys[j] by {
            assert(s[i].0@ != s[j].0@);
        }
    }
    assert(map_of(s).dom() =~= keys.to_set()) by {
        assert forall|k: Seq<char>| map_of(s).dom().contains(k) <==> keys.to_set().contains(k) by {
            if map_of(s).dom().contains(k) {
                let i = choose|i: int| 0 <= i < s.len() && (#[trigger] s[i]).0@ == k;
                assert(keys[i] == k);
            }
            if keys.to_set().contains(k) {
                let i = choose|i: int| 0 <= i < keys.len() && keys[i] == k;
                assert(s[i].0@ == k);
            }
        }
    }
    keys.unique_seq_to_set();
}

impl<T> View for EntryMap<T> {
    type V = Map<Seq<char>, T>;

    closed spec fn view(&self) -> Map<Seq<char>, T> {
        map_of(self.entries@)
    }
}

impl<T> EntryMap<T> {
    #[verifier::type_invariant]
    closed spec fn sorted_keys(self) -> bool {
        keys_distinct(self.entries@) && keys_ascending(self.entries@)
    }

    /// The stored entries as (key, value) pairs, in ascending key order.
    pub closed spec fn pairs(self) -> Seq<(Seq<char>, T)> {
        self.entries@.map_values(|e: (String, T)| (e.0@, e.1))
    }

    /// Ascending stored keys give ascending pairs.
    proof fn lemma_pairs_ascending(self)
        requires
            keys_ascending(self.entries@),
        ensures
            ascending(self.pairs()),
    {
        let e = self.entries@;
        let p = self.pairs();
        assert forall|i: int, j: int| 0 <= i < j < p.len() implies lex_lt(
            (#[trigger] p[i]).0,
            (#[trigger] p[j]).0,
        ) by {
            assert(lex_lt(e[i].0@, e[j].0@));
        }
    }

    /// Ascending pairs come from ascending stored keys.
    proof fn lemma_entries_ascending(self)
        requires
            ascending(self.pairs()),
        ensures
            keys_ascending(self.entries@),
            keys_distinct(self.entries@),
    {
        let e = self.entries@;
        let p = self.pairs();
        assert forall|i: int, j: int| 0 <= i < j < e.len() implies lex_lt(
            (#[trigger] e[i]).0@,
            (#[trigger] e[j]).0@,
        ) by {
            assert(lex_lt(p[i].0, p[j].0));
        }
        lemma_ascending_distinct(e);
    }

    /// A copy of the map.
    pub fn duplicate(&self) -> (r: Self)
        where T: Copy
        ensures
            r@ == self@,
            r.pairs() == self.pairs(),
            ascending(r.pairs()),
    {
        proof {
            use_type_invariant(self);
            self.lemma_pairs_ascending();
        }
        let mut entries: Vec<(String, T)> = Vec::new();
        let mut i: usize = 0;
        while i < self.entries.len()
            invariant
                i <= self.entries@.len(),
                keys_distinct(self.entries@),
                entries@.len() == i,
                forall|k: int| 0 <= k < i ==> (#[trigger] entries@[k]).0@ == self.entries@[k].0@
                    && entries@[k].1 == self.entries@[k].1,
            decreases self.entries.len() - i,
        {
            let key = self.entries[i].0.clone();
            let value = self.entries[i].1;
            entries.push((key, value));
            i += 1;
        }
        proof {
            assert forall|a: int, b: int| 0 <= a < b < entries@.len() implies lex_lt(
                (#[trigger] entries@[a]).0@,
                (#[trigger] entries@[b]).0@,
            ) by {
                assert(lex_lt(self.entries@[a].0@, self.entries@[b].0@));
            }
            lemma_ascending_distinct(entries@);
        }
        let r = EntryMap { entries };
        proof {
            assert(r.pairs() =~= self.pairs());
            let a = r.entries@;
            let b = self.entries@;
            assert forall|x: Seq<char>| #[trigger] map_of(a).dom().contains(x) <==> map_of(
                b,
            ).dom().contains(x) by {
                if map_of(a).dom().contains(x) {
                    let j = choose|j: int| 0 <= j < a.len() && (#[trigger] a[j]).0@ == x;
                    assert(b[j].0@ == x);
                }
                if map_of(b).dom().contains(x) {
                    let j = choose|j: int| 0 <= j < b.len() && (#[trigger] b[j]).0@ == x;
                    assert(a[j].0@ == x);
                }
            }
            assert forall|x: Seq<char>| #[trigger] map_of(a).dom().contains(x) implies map_of(a)[x]
                == map_of(b)[x] by {
                let j = choose|j: int| 0 <= j < a.len() && (#[trigger] a[j]).0@ == x;
                lemma_map_of_at(a, j);
                lemma_map_of_at(b, j);
            }
            assert(r@ =~= self@);
        }
        r
    }

    /// An empty map.
    pub fn new() -> (r: Self)
        ensures
            r@ == Map::<Seq<char>, T>::empty(),
            r.pairs().len() == 0,
            ascending(r.pairs()),
    {
        let r = EntryMap { entries: Vec::new() };
        proof {
            assert(r@ =~= Map::<Seq<char>, T>::empty());
        }
        r
    }

    /// Number of entries; the stored pairs list the map exactly, each key
    /// once.
    pub fn len(&self) -> (r: usize)
        ensures
            r == self.pairs().len(),
            forall|i: int| 0 <= i < self.pairs().len() ==> self@.dom().contains(
                #[trigger] self.pairs()[i].0,
            ) && self@[self.pairs()[i].0] == self.pairs()[i].1,
            forall|k: Seq<char>| #[trigger]
                self@.dom().contains(k) ==> exists|i: int|
                    0 <= i < self.pairs().len() && #[trigger] self.pairs()[i].0 == k,
            forall|i: int, j: int|
                0 <= i < j < self.pairs().len() ==> self.pairs()[i].0 != self.pairs()[j].0,
            self@.dom().finite(),
            self@.dom().len() == r,
            ascending(self.pairs()),
    {
        proof {
            use_type_invariant(self);
            self.lemma_pairs_ascending();
            lemma_pairs_of(self.entries@);
            assert forall|k: Seq<char>| #[trigger] self@.dom().contains(k) implies exists|i: int|
                0 <= i < self.pairs().len() && #[trigger] self.pairs()[i].0 == k by {
                let i = choose|i: int|
                    0 <= i < self.entries@.len() && (#[trigger] self.entries@[i]).0@ == k;
                assert(self.pairs()[i].0 == k);
            }
        }
        self.entries.len()
    }

    /// The key stored at position `i`.
    pub fn key_at(&self, i: usize) -> (r: &String)
        requires
            i < self.pairs().len(),
        ensures
            r@ == self.pairs()[i as int].0,
    {
        &self.entries[i].0
    }

    /// The value stored at position `i`.
    pub fn value_at(&self, i: usize) -> (r: &T)
        requires
            i < self.pairs().len(),
        ensures
            *r == self.pairs()[i as int].1,
    {
        &self.entries[i].1
    }

    /// Position of `key`, if present.
    fn position(&self, key: &str) -> (r: Option<usize>)
        ensures
            match r {
                Some(i) => i < self.entries@.len() && self.entries@[i as int].0@ == key@,
                None => !self@.dom().contains(key@),
            },
    {
        let mut i: usize = 0;
        while i < self.entries.len()
            invariant
                i <= self.entries@.len(),
                forall|k: int| 0 <= k < i ==> (#[trigger] self.entries@[k]).0@ != key@,
            decreases self.entries.len() - i,
        {
            if str_eq(self.entries[i].0.as_str(), key) {
                return Some(i);
            }
            i += 1;
        }
        None
    }

    /// Reports whether `key` is present.
    pub fn contains_key(&self, key: &str) -> (r: bool)
        ensures
            r == self@.dom().contains(key@),
    {
        proof {
            use_type_invariant(self);
        }
        match self.position(key) {
            Some(i) => {
                proof {
                    lemma_map_of_at(self.entries@, i as int);
                }
                true
            },
            None => false,
        }
    }

    /// The value stored for `key`, if any.
    pub fn get(&self, key: &str) -> (r: Option<&T>)
        ensures
            match r {
                Some(v) => self@.dom().contains(key@) && *v == self@[key@],
                None => !self@.dom().contains(key@),
            },
    {
        proof {
            use_type_invariant(self);
        }
        match self.position(key) {
            Some(i) => {
                proof {
                    lemma_map_of_at(self.entries@, i as int);
                }
                Some(&self.entries[i].1)
            },
            None => None,
        }
    }

    /// Stores `value` for `key`, replacing any previous value; a new key
    /// takes its place in ascending order.
    pub fn insert(&mut self, key: String, value: T)
        ensures
            final(self)@ == old(self)@.insert(key@, value),
            ascending(final(self).pairs()),
    {
        proof {
            use_type_invariant(&*self);
        }
        let ghost old_entries = self.entries@;
        match self.position(key.as_str()) {
            Some(i) => {
                let ghost k = key@;
                let mut entries = Vec::new();
                std::mem::swap(&mut entries, &mut self.entries);
                entries.set(i, (key, value));
                let ghost new_entries = entries@;
                proof {
                    assert(keys_ascending(new_entries)) by {
                        assert forall|a: int, b: int| 0 <= a < b < new_entries.len() implies lex_lt(
                            (#[trigger] new_entries[a]).0@,
                            (#[trigger] new_entries[b]).0@,
                        ) by {
                            assert(lex_lt(old_entries[a].0@, old_entries[b].0@));
                        }
                    }
                    assert(keys_distinct(new_entries)) by {
                        assert forall|a: int, b: int|
                            0 <= a < new_entries.len() && 0 <= b < new_entries.len() && a != b
                            implies (#[trigger] new_entries[a]).0@ != (#[trigger] new_entries[b]).0@ by {
                            if a != i && b != i {
                                assert(old_entries[a].0@ != old_entries[b].0@);
                            } else if a == i {
                                assert(old_entries[i as int].0@ != old_entries[b].0@);
                            } else {
                                assert(old_entries[a].0@ != old_entries[i as int].0@);
                            }
                        }
                    }
                    assert(map_of(new_entries) =~= map_of(old_entries).insert(k, new_entries[i as int].1)) by {
                        assert forall|x: Seq<char>| #[trigger] map_of(new_entries).dom().contains(x)
                            <==> map_of(old_entries).insert(k, new_entries[i as int].1).dom().contains(x) by {
                            if map_of(new_entries).dom().contains(x) {
                                let j = choose|j: int| 0 <= j < new_entries.len() && (#[trigger] new_entries[j]).0@ == x;
                                if j != i {
                                    assert(old_entries[j].0@ == x);
                                }
                            }
                            if map_of(old_entries).dom().contains(x) {
                                let j = choose|j: int| 0 <= j < old_entries.len() && (#[trigger] old_entries[j]).0@ == x;
                                if j != i {
                                    assert(new_entries[j].0@ == x);
                                } else {
                                    assert(new_entries[i as int].0@ == x);
                                }
                            }
                            if x == k {
                                assert(new_entries[i as int].0@ == x);
                            }
                        }
                        assert forall|x: Seq<char>| #[trigger] map_of(new_entries).dom().contains(x)
                            implies map_of(new_entries)[x] == map_of(old_entries).insert(k, new_entries[i as int].1)[x] by {
                            let j = choose|j: int| 0 <= j < new_entries.len() && (#[trigger] new_entries[j]).0@ == x;
                            lemma_map_of_at(new_entries, j);
                            if j != i {
                                assert(old_entries[j].0@ == x);
                                lemma_map_of_at(old_entries, j);
                            }
                        }
                    }
                }
                self.entries = entries;
            },
            None => {
                let mut at: usize = 0;
                while at < self.entries.len() && !str_lex_lt(key.as_str(), self.entries[at].0.as_str())
                    invariant
                        self.entries@ == old_entries,
                        keys_ascending(old_entries),
                        !map_of(old_entries).dom().contains(key@),
                        at <= old_entries.len(),
                        forall|j: int| 0 <= j < at ==> !lex_lt(key@, (#[trigger] old_entries[j]).0@),
                    decreases self.entries.len() - at,
                {
                    at += 1;
                }
                let ghost e = (key, value);
                proof {
                    assert forall|j: int| 0 <= j < at implies lex_lt((#[trigger] old_entries[j]).0@, key@) by {
                        assert(map_of(old_entries).dom().contains(old_entries[j].0@));
                        lemma_lex_total(old_entries[j].0@, key@);
                    }
                    assert forall|j: int| at <= j < old_entries.len() implies lex_lt(key@, (#[trigger] old_entries[j]).0@) by {
                        if j > at {
                            lemma_lex_trans(key@, old_entries[at as int].0@, old_entries[j].0@);
                        }
                    }
                }
                let mut entries = Vec::new();
                std::mem::swap(&mut entries, &mut self.entries);
                entries.insert(at, (key, value));
                proof {
                    old_entries.insert_ensures(at as int, e);
                    lemma_insert_sorted(old_entries, entries@, at as int, e);
                }
                self.entries = entries;
            },
        }
    }
}

/// Two maps with the same contents list the same pairs in the same order:
/// the order of a map's entries is fixed by its keys alone.
pub proof fn lemma_same_contents_same_pairs<T>(a: EntryMap<T>, b: EntryMap<T>)
    requires
        ascending(a.pairs()),
        ascending(b.pairs()),
        a@ == b@,
    ensures
        a.pairs() == b.pairs(),
{
    a.lemma_entries_ascending();
    b.lemma_entries_ascending();
    lemma_pairs_of(a.entries@);
    lemma_pairs_of(b.entries@);
    let p = a.pairs();
    let q = b.pairs();
    assert forall|x: (Seq<char>, T)| p.contains(x) <==> q.contains(x) by {
        if p.contains(x) {
            let i = choose|i: int| 0 <= i < p.len() && p[i] == x;
            assert(a@.dom().contains(p[i].0));
            let j = choose|j: int| 0 <= j < q.len() && #[trigger] q[j].0 == x.0;
            assert(q[j] == x);
        }
        if q.contains(x) {
            let i = choose|i: int| 0 <= i < q.len() && q[i] == x;
            assert(b@.dom().contains(q[i].0));
            let j = choose|j: int| 0 <= j < p.len() && #[trigger] p[j].0 == x.0;
            assert(p[j] == x);
        }
    }
    lemma_sorted_unique(p, q);
}

impl<T: Copy> Clone for EntryMap<T> {
    fn clone(&self) -> (r: Self)
        ensures
            r@ == self@,
            r.pairs() == self.pairs(),
    {
        self.duplicate()
    }
}

} // verus!
