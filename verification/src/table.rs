//! A finite map from text keys to values, kept sorted by key.
use vstd::prelude::*;
use crate::keys::{compare_keys, key_lt, lemma_key_lt_irrefl, lemma_key_lt_total, lemma_key_lt_trans};

verus! {

/// Values that can be copied with a known result.
pub trait Dup: View + Sized {
    fn dup(&self) -> (r: Self)
        ensures
            r@ == self@,
    ;
}

impl Dup for u64 {
    fn dup(&self) -> (r: Self) {
        *self
    }
}

impl Dup for String {
    fn dup(&self) -> (r: Self) {
        self.clone()
    }
}

impl Dup for Vec<u64> {
    fn dup(&self) -> (r: Self) {
        let mut out: Vec<u64> = Vec::new();
        let mut i: usize = 0;
        while i < self.len()
            invariant
                i <= self@.len(),
                out@ =~= self@.subrange(0, i as int),
            decreases self@.len() - i,
        {
            out.push(self[i]);
            i = i + 1;
        }
        assert(out@ =~= self@);
        out
    }
}

/// A map from text keys to values whose entries are held in increasing key order.
#[derive(Debug, PartialEq)]
pub struct Table<V: View> {
    entries: Vec<(String, V)>,
}

/// The keys of a listing appear in strictly increasing order.
pub open spec fn sorted_keys<V>(s: Seq<(Seq<char>, V)>) -> bool {
    forall|i: int, j: int| 0 <= i < j < s.len() ==> key_lt(#[trigger] s[i].0, #[trigger] s[j].0)
}

/// The map a sorted listing stands for.
pub open spec fn listing_map<V>(s: Seq<(Seq<char>, V)>) -> Map<Seq<char>, V> {
    Map::new(
        |k: Seq<char>| exists|i: int| 0 <= i < s.len() && s[i].0 == k,
        |k: Seq<char>| s[listing_index(s, k)].1,
    )
}

/// The position of a key in a listing.
pub open spec fn listing_index<V>(s: Seq<(Seq<char>, V)>, k: Seq<char>) -> int {
    choose|i: int| 0 <= i < s.len() && s[i].0 == k
}

/// In a sorted listing, each entry is what the map holds at its key.
pub proof fn lemma_listing_entry<V>(s: Seq<(Seq<char>, V)>, i: int)
    requires
        sorted_keys(s),
        0 <= i < s.len(),
    ensures
        listing_map(s).contains_key(s[i].0),
        listing_map(s)[s[i].0] == s[i].1,
{
    let k = s[i].0;
    assert(exists|j: int| 0 <= j < s.len() && s[j].0 == k);
    let j = listing_index(s, k);
    if j != i {
        if j < i {
            assert(key_lt(s[j].0, s[i].0));
        } else {
            assert(key_lt(s[i].0, s[j].0));
        }
        lemma_key_lt_irrefl(k);
    }
    assert(listing_map(s).contains_key(k));
    assert(listing_map(s)[k] == s[j].1);
}

/// Two sorted listings of the same map are the same listing.
pub proof fn lemma_listing_unique<V>(s: Seq<(Seq<char>, V)>, t: Seq<(Seq<char>, V)>)
    requires
        sorted_keys(s),
        sorted_keys(t),
        listing_map(s) =~= listing_map(t),
    ensures
        s == t,
    decreases s.len() + t.len(),
{
    if s.len() == 0 {
        if t.len() > 0 {
            lemma_listing_entry(t, 0);
        }
        assert(s =~= t);
    } else if t.len() == 0 {
        lemma_listing_entry(s, 0);
    } else {
        lemma_listing_entry(s, 0);
        lemma_listing_entry(t, 0);
        // the first key of each listing is the least key of the map
        let i = choose|i: int| 0 <= i < t.len() && t[i].0 == s[0].0;
        let j = choose|j: int| 0 <= j < s.len() && s[j].0 == t[0].0;
        if i > 0 {
            assert(key_lt(t[0].0, t[i].0));
            if j > 0 {
                assert(key_lt(s[0].0, s[j].0));
                lemma_key_lt_trans(t[0].0, s[0].0, t[0].0);
                lemma_key_lt_irrefl(t[0].0);
            }
        }
        if j > 0 {
            assert(key_lt(s[0].0, s[j].0));
            if i > 0 {
                assert(key_lt(t[0].0, t[i].0));
            }
        }
        assert(s[0].0 == t[0].0) by {
            if i > 0 && j == 0 {
            } else if j > 0 && i == 0 {
            }
        }
        lemma_listing_entry(s, 0);
        lemma_listing_entry(t, 0);
        let s1 = s.drop_first();
        let t1 = t.drop_first();
        assert(sorted_keys(s1)) by {
            assert forall|a: int, b: int| 0 <= a < b < s1.len() implies key_lt(
                #[trigger] s1[a].0,
                #[trigger] s1[b].0,
            ) by {
                assert(s1[a] == s[a + 1]);
                assert(s1[b] == s[b + 1]);
            }
        }
        assert(sorted_keys(t1)) by {
            assert forall|a: int, b: int| 0 <= a < b < t1.len() implies key_lt(
                #[trigger] t1[a].0,
                #[trigger] t1[b].0,
            ) by {
                assert(t1[a] == t[a + 1]);
                assert(t1[b] == t[b + 1]);
            }
        }
        assert forall|k: Seq<char>| #[trigger] listing_map(s1).contains_key(k) implies listing_map(
            t1,
        ).contains_key(k) && listing_map(s1)[k] == listing_map(t1)[k] by {
            let a = choose|a: int| 0 <= a < s1.len() && s1[a].0 == k;
            lemma_listing_entry(s1, a);
            assert(s[a + 1] == s1[a]);
            lemma_listing_entry(s, a + 1);
            assert(listing_map(t).contains_key(k));
            let b = choose|b: int| 0 <= b < t.len() && t[b].0 == k;
            lemma_listing_entry(t, b);
            if b == 0 {
                assert(key_lt(s[0].0, s[a + 1].0));
                lemma_key_lt_irrefl(k);
            }
            assert(t1[b - 1] == t[b]);
            lemma_listing_entry(t1, b - 1);
        }
        assert forall|k: Seq<char>| #[trigger] listing_map(t1).contains_key(k) implies listing_map(
            s1,
        ).contains_key(k) by {
            let b = choose|b: int| 0 <= b < t1.len() && t1[b].0 == k;
            assert(t[b + 1] == t1[b]);
            lemma_listing_entry(t, b + 1);
            assert(listing_map(s).contains_key(k));
            let a = choose|a: int| 0 <= a < s.len() && s[a].0 == k;
            if a == 0 {
                assert(key_lt(t[0].0, t[b + 1].0));
                lemma_key_lt_irrefl(k);
            }
            assert(s1[a - 1] == s[a]);
        }
        assert(listing_map(s1) =~= listing_map(t1));
        lemma_listing_unique(s1, t1);
        assert(s =~= seq![s[0]] + s1);
        assert(t =~= seq![t[0]] + t1);
    }
}

/// Replacing the value at the position of an existing key.
proof fn lemma_listing_update<V>(s: Seq<(Seq<char>, V)>, p: int, v: V)
    requires
        sorted_keys(s),
        0 <= p < s.len(),
    ensures
        sorted_keys(s.update(p, (s[p].0, v))),
        listing_map(s.update(p, (s[p].0, v))) =~= listing_map(s).insert(s[p].0, v),
{
    let k = s[p].0;
    let s2 = s.update(p, (k, v));
    let m = listing_map(s).insert(k, v);
    assert(sorted_keys(s2)) by {
        assert forall|a: int, b: int| 0 <= a < b < s2.len() implies key_lt(
            #[trigger] s2[a].0,
            #[trigger] s2[b].0,
        ) by {
            assert(key_lt(s[a].0, s[b].0));
        }
    }
    assert forall|k2: Seq<char>| #[trigger] listing_map(s2).contains_key(k2) <==> m.contains_key(k2) by {
        if listing_map(s2).contains_key(k2) {
            let j = choose|j: int| 0 <= j < s2.len() && s2[j].0 == k2;
            assert(s[j].0 == k2);
        }
        if listing_map(s).contains_key(k2) {
            let j = choose|j: int| 0 <= j < s.len() && s[j].0 == k2;
            assert(s2[j].0 == k2);
        }
        if k2 == k {
            assert(s2[p].0 == k2);
        }
    }
    assert forall|k2: Seq<char>| #[trigger] listing_map(s2).contains_key(k2) implies listing_map(s2)[k2]
        == m[k2] by {
        let j = choose|j: int| 0 <= j < s2.len() && s2[j].0 == k2;
        lemma_listing_entry(s2, j);
        if j != p {
            lemma_listing_entry(s, j);
            if j < p {
                assert(key_lt(s[j].0, s[p].0));
            } else {
                assert(key_lt(s[p].0, s[j].0));
            }
            lemma_key_lt_irrefl(k);
        }
    }
    assert(listing_map(s2) =~= m);
}

/// Inserting a new key at its place in the order.
proof fn lemma_listing_insert<V>(s: Seq<(Seq<char>, V)>, p: int, k: Seq<char>, v: V)
    requires
        sorted_keys(s),
        0 <= p <= s.len(),
        forall|i: int| 0 <= i < p ==> key_lt(#[trigger] s[i].0, k),
        forall|i: int| p <= i < s.len() ==> key_lt(k, #[trigger] s[i].0),
    ensures
        sorted_keys(s.insert(p, (k, v))),
        listing_map(s.insert(p, (k, v))) =~= listing_map(s).insert(k, v),
        !listing_map(s).contains_key(k),
{
    let s2 = s.insert(p, (k, v));
    let m = listing_map(s).insert(k, v);
    assert(sorted_keys(s2)) by {
        assert forall|a: int, b: int| 0 <= a < b < s2.len() implies key_lt(
            #[trigger] s2[a].0,
            #[trigger] s2[b].0,
        ) by {
            if a < p && b < p {
                assert(key_lt(s[a].0, s[b].0));
            } else if a < p && b == p {
            } else if a < p {
                assert(key_lt(s[a].0, k));
                assert(key_lt(k, s[b - 1].0));
                lemma_key_lt_trans(s[a].0, k, s[b - 1].0);
            } else if a == p {
                assert(key_lt(k, s[b - 1].0));
            } else {
                assert(key_lt(s[a - 1].0, s[b - 1].0));
            }
        }
    }
    assert forall|i: int| 0 <= i < s.len() implies s[i].0 != k by {
        if i < p {
            assert(key_lt(s[i].0, k));
        } else {
            assert(key_lt(k, s[i].0));
        }
        lemma_key_lt_irrefl(k);
    }
    assert forall|k2: Seq<char>| #[trigger] listing_map(s2).contains_key(k2) <==> m.contains_key(k2) by {
        if listing_map(s2).contains_key(k2) {
            let j = choose|j: int| 0 <= j < s2.len() && s2[j].0 == k2;
            if j < p {
                assert(s[j].0 == k2);
            } else if j > p {
                assert(s[j - 1].0 == k2);
            }
        }
        if listing_map(s).contains_key(k2) {
            let j = choose|j: int| 0 <= j < s.len() && s[j].0 == k2;
            if j < p {
                assert(s2[j].0 == k2);
            } else {
                assert(s2[j + 1].0 == k2);
            }
        }
        if k2 == k {
            assert(s2[p].0 == k2);
        }
    }
    assert forall|k2: Seq<char>| #[trigger] listing_map(s2).contains_key(k2) implies listing_map(s2)[k2]
        == m[k2] by {
        let j = choose|j: int| 0 <= j < s2.len() && s2[j].0 == k2;
        lemma_listing_entry(s2, j);
        if j < p {
            lemma_listing_entry(s, j);
        } else if j > p {
            lemma_listing_entry(s, j - 1);
        }
    }
    assert(listing_map(s2) =~= m);
}

/// Removing the entry at a position.
proof fn lemma_listing_remove<V>(s: Seq<(Seq<char>, V)>, p: int)
    requires
        sorted_keys(s),
        0 <= p < s.len(),
    ensures
        sorted_keys(s.remove(p)),
        listing_map(s.remove(p)) =~= listing_map(s).remove(s[p].0),
{
    let k = s[p].0;
    let s2 = s.remove(p);
    let m = listing_map(s).remove(k);
    assert(sorted_keys(s2)) by {
        assert forall|a: int, b: int| 0 <= a < b < s2.len() implies key_lt(
            #[trigger] s2[a].0,
            #[trigger] s2[b].0,
        ) by {
            if b < p {
                assert(key_lt(s[a].0, s[b].0));
            } else if a < p {
                assert(key_lt(s[a].0, s[b + 1].0));
            } else {
                assert(key_lt(s[a + 1].0, s[b + 1].0));
            }
        }
    }
    assert forall|k2: Seq<char>| #[trigger] listing_map(s2).contains_key(k2) <==> m.contains_key(k2) by {
        if listing_map(s2).contains_key(k2) {
            let j = choose|j: int| 0 <= j < s2.len() && s2[j].0 == k2;
            if j < p {
                assert(s[j].0 == k2);
                assert(key_lt(s[j].0, k));
            } else {
                assert(s[j + 1].0 == k2);
                assert(key_lt(k, s[j + 1].0));
            }
            lemma_key_lt_irrefl(k);
        }
        if m.contains_key(k2) {
            let j = choose|j: int| 0 <= j < s.len() && s[j].0 == k2;
            if j < p {
                assert(s2[j].0 == k2);
            } else {
                assert(s2[j - 1].0 == k2);
            }
        }
    }
    assert forall|k2: Seq<char>| #[trigger] listing_map(s2).contains_key(k2) implies listing_map(s2)[k2]
        == m[k2] by {
        let j = choose|j: int| 0 <= j < s2.len() && s2[j].0 == k2;
        lemma_listing_entry(s2, j);
        if j < p {
            lemma_listing_entry(s, j);
        } else {
            lemma_listing_entry(s, j + 1);
        }
    }
    assert(listing_map(s2) =~= m);
}


/// Keys in strictly increasing order.
pub open spec fn sorted_names(ks: Seq<Seq<char>>) -> bool {
    forall|i: int, j: int| 0 <= i < j < ks.len() ==> key_lt(#[trigger] ks[i], #[trigger] ks[j])
}

/// The keys of a finite set, in increasing order.
pub open spec fn key_order(d: Set<Seq<char>>) -> Seq<Seq<char>> {
    choose|ks: Seq<Seq<char>>| sorted_names(ks) && ks.to_set() == d
}

/// A finite nonempty set of keys has a greatest key.
proof fn lemma_greatest_key(d: Set<Seq<char>>) -> (m: Seq<char>)
    requires
        d.finite(),
        d.len() > 0,
    ensures
        d.contains(m),
        forall|k: Seq<char>| d.contains(k) && k != m ==> key_lt(k, m),
    decreases d.len(),
{
    let x = d.choose();
    let r = d.remove(x);
    if r.len() == 0 {
        assert forall|k: Seq<char>| d.contains(k) && k != x implies key_lt(k, x) by {
            assert(r.contains(k));
        }
        x
    } else {
        let m1 = lemma_greatest_key(r);
        lemma_key_lt_total(x, m1);
        if key_lt(x, m1) {
            assert forall|k: Seq<char>| d.contains(k) && k != m1 implies key_lt(k, m1) by {
                if k != x {
                    assert(r.contains(k));
                }
            }
            m1
        } else {
            assert forall|k: Seq<char>| d.contains(k) && k != x implies key_lt(k, x) by {
                assert(r.contains(k));
                if k != m1 {
                    lemma_key_lt_trans(k, m1, x);
                }
            }
            x
        }
    }
}

/// A finite set of keys can be listed in increasing order.
proof fn lemma_sorted_listing_exists(d: Set<Seq<char>>) -> (ks: Seq<Seq<char>>)
    requires
        d.finite(),
    ensures
        sorted_names(ks),
        ks.to_set() == d,
    decreases d.len(),
{
    if d.len() == 0 {
        let ks = Seq::<Seq<char>>::empty();
        assert(ks.to_set() =~= d) by {
            assert forall|k: Seq<char>| !d.contains(k) by {
                if d.contains(k) {
                    vstd::set::axiom_set_remove_len(d, k);
                }
            }
        }
        ks
    } else {
        let m = lemma_greatest_key(d);
        let r = d.remove(m);
        let ks0 = lemma_sorted_listing_exists(r);
        let ks = ks0.push(m);
        assert forall|i: int, j: int| 0 <= i < j < ks.len() implies key_lt(#[trigger] ks[i], #[trigger] ks[j]) by {
            if j == ks.len() - 1 {
                assert(ks0.contains(ks0[i]));
                assert(ks0.to_set().contains(ks0[i]));
                assert(r.contains(ks[i]));
            } else {
                assert(ks[i] == ks0[i] && ks[j] == ks0[j]);
            }
        }
        assert forall|k: Seq<char>| ks.to_set().contains(k) == d.contains(k) by {
            if ks.to_set().contains(k) {
                assert(ks.contains(k));
                let i = choose|i: int| 0 <= i < ks.len() && ks[i] == k;
                if i < ks0.len() {
                    assert(ks0[i] == k);
                    assert(ks0.contains(k));
                    assert(ks0.to_set().contains(k));
                }
            }
            if d.contains(k) {
                if k == m {
                    assert(ks[ks.len() - 1] == k);
                } else {
                    assert(r.contains(k));
                    assert(ks0.to_set().contains(k));
                    assert(ks0.contains(k));
                    let i = choose|i: int| 0 <= i < ks0.len() && ks0[i] == k;
                    assert(ks[i] == k);
                }
                assert(ks.contains(k));
            }
        }
        assert(ks.to_set() =~= d);
        ks
    }
}

/// The key order of a finite set lists exactly its keys, in increasing order.
pub proof fn lemma_key_order_finite(d: Set<Seq<char>>)
    requires
        d.finite(),
    ensures
        sorted_names(key_order(d)),
        key_order(d).to_set() == d,
{
    let ks = lemma_sorted_listing_exists(d);
    assert(sorted_names(ks) && ks.to_set() == d);
}

/// The keys of a sorted listing are its map's keys in increasing order.
pub proof fn lemma_key_order<V>(s: Seq<(Seq<char>, V)>)
    requires
        sorted_keys(s),
    ensures
        key_order(listing_map(s).dom()) == s.map_values(|e: (Seq<char>, V)| e.0),
        key_order(listing_map(s).dom()).to_set() == listing_map(s).dom(),
{
    let ks = s.map_values(|e: (Seq<char>, V)| e.0);
    let d = listing_map(s).dom();
    assert(sorted_names(ks));
    assert forall|k: Seq<char>| ks.to_set().contains(k) == d.contains(k) by {
        if ks.to_set().contains(k) {
            assert(ks.contains(k));
            let i = choose|i: int| 0 <= i < ks.len() && ks[i] == k;
            assert(s[i].0 == k);
        }
        if d.contains(k) {
            let i = choose|i: int| 0 <= i < s.len() && s[i].0 == k;
            assert(ks[i] == k);
            assert(ks.contains(k));
        }
    }
    assert(ks.to_set() =~= d);
    let c = key_order(d);
    assert(sorted_names(c) && c.to_set() == d);
    let p1 = ks.map_values(|k: Seq<char>| (k, ()));
    let p2 = c.map_values(|k: Seq<char>| (k, ()));
    assert(sorted_keys(p1));
    assert(sorted_keys(p2));
    assert forall|k: Seq<char>| listing_map(p1).contains_key(k) == listing_map(p2).contains_key(k) by {
        if listing_map(p1).contains_key(k) {
            let i = choose|i: int| 0 <= i < p1.len() && p1[i].0 == k;
            assert(ks[i] == k);
            assert(ks.to_set().contains(k));
            assert(c.to_set().contains(k));
            assert(c.contains(k));
            let j = choose|j: int| 0 <= j < c.len() && c[j] == k;
            assert(p2[j].0 == k);
        }
        if listing_map(p2).contains_key(k) {
            let i = choose|i: int| 0 <= i < p2.len() && p2[i].0 == k;
            assert(c[i] == k);
            assert(c.to_set().contains(k));
            assert(ks.to_set().contains(k));
            assert(ks.contains(k));
            let j = choose|j: int| 0 <= j < ks.len() && ks[j] == k;
            assert(p1[j].0 == k);
        }
    }
    assert(listing_map(p1) =~= listing_map(p2));
    lemma_listing_unique(p1, p2);
    assert(ks.len() == c.len());
    assert forall|i: int| 0 <= i < ks.len() implies ks[i] == c[i] by {
        assert(p1[i] == p2[i]);
    }
    assert(ks =~= c);
}

impl<V: View> Table<V> {
    /// The entries, as views, in increasing key order.
    pub closed spec fn listing(self) -> Seq<(Seq<char>, V::V)> {
        self.entries@.map_values(|e: (String, V)| (e.0@, e.1@))
    }

    /// The keys are held in strictly increasing order.
    #[verifier::type_invariant]
    pub closed spec fn wf(self) -> bool {
        sorted_keys(self.listing())
    }

    pub fn new() -> (r: Self)
        ensures
            r@ == Map::<Seq<char>, V::V>::empty(),
            r.listing() == Seq::<(Seq<char>, V::V)>::empty(),
    {
        let r = Table { entries: Vec::new() };
        assert(r.listing() =~= Seq::<(Seq<char>, V::V)>::empty());
        assert(r@ =~= Map::<Seq<char>, V::V>::empty());
        r
    }

    pub fn len(&self) -> (r: usize)
        ensures
            r == self.listing().len(),
            r == self@.dom().len(),
    {
        proof {
            use_type_invariant(self);
            self.lemma_dom_len();
        }
        self.entries.len()
    }

    pub fn is_empty(&self) -> (r: bool)
        ensures
            r == (self@ == Map::<Seq<char>, V::V>::empty()),
            r == (self.listing().len() == 0),
    {
        proof {
            use_type_invariant(self);
            if self.listing().len() > 0 {
                lemma_listing_entry(self.listing(), 0);
                assert(self@.contains_key(self.listing()[0].0));
            } else {
                assert(self@ =~= Map::<Seq<char>, V::V>::empty());
            }
        }
        self.entries.len() == 0
    }

    proof fn lemma_dom_len(self)
        requires
            self.wf(),
        ensures
            self@.dom().len() == self.listing().len(),
            self@.dom().finite(),
    {
        let s = self.listing();
        let keys = s.map_values(|e: (Seq<char>, V::V)| e.0);
        assert(keys.no_duplicates()) by {
            assert forall|i: int, j: int| 0 <= i < keys.len() && 0 <= j < keys.len() && i != j
                implies keys[i] != keys[j] by {
                if i < j {
                    assert(key_lt(s[i].0, s[j].0));
                } else {
                    assert(key_lt(s[j].0, s[i].0));
                }
                lemma_key_lt_irrefl(s[i].0);
            }
        }
        assert(self@.dom() =~= keys.to_set()) by {
            assert forall|k: Seq<char>| self@.dom().contains(k) implies keys.to_set().contains(k) by {
                let i = choose|i: int| 0 <= i < s.len() && s[i].0 == k;
                assert(keys[i] == k);
            }
            assert forall|k: Seq<char>| keys.to_set().contains(k) implies self@.dom().contains(k) by {
                let i = choose|i: int| 0 <= i < keys.len() && keys[i] == k;
                assert(s[i].0 == k);
            }
        }
        keys.unique_seq_to_set();
    }

    /// The position where `key` is or would be inserted, and whether it is there.
    fn position(&self, key: &str) -> (r: (usize, bool))
        ensures
            r.0 <= self.listing().len(),
            forall|i: int| 0 <= i < r.0 ==> key_lt(#[trigger] self.listing()[i].0, key@),
            r.1 ==> r.0 < self.listing().len() && self.listing()[r.0 as int].0 == key@,
            !r.1 ==> forall|i: int|
                r.0 <= i < self.listing().len() ==> key_lt(key@, #[trigger] self.listing()[i].0),
    {
        proof {
            use_type_invariant(self);
        }
        let ghost s = self.listing();
        let mut i: usize = 0;
        while i < self.entries.len()
            invariant
                s == self.listing(),
                sorted_keys(s),
                i <= s.len(),
                s.len() == self.entries@.len(),
                forall|j: int| 0 <= j < i ==> key_lt(#[trigger] s[j].0, key@),
            decreases s.len() - i,
        {
            let c = compare_keys(self.entries[i].0.as_str(), key);
            assert(s[i as int].0 == self.entries@[i as int].0@);
            if c == 0 {
                return (i, true);
            } else if c == 1 {
                proof {
                    assert forall|j: int| i <= j < s.len() implies key_lt(key@, #[trigger] s[j].0) by {
                        if j > i {
                            assert(key_lt(s[i as int].0, s[j].0));
                            lemma_key_lt_trans(key@, s[i as int].0, s[j].0);
                        }
                    }
                }
                return (i, false);
            }
            i = i + 1;
        }
        (i, false)
    }

    pub fn contains_key(&self, key: &str) -> (r: bool)
        ensures
            r == self@.contains_key(key@),
    {
        proof {
            use_type_invariant(self);
        }
        let (p, found) = self.position(key);
        proof {
            if found {
                lemma_listing_entry(self.listing(), p as int);
            } else {
                assert forall|i: int| 0 <= i < self.listing().len() implies self.listing()[i].0
                    != key@ by {
                    if i < p {
                        assert(key_lt(self.listing()[i].0, key@));
                    } else {
                        assert(key_lt(key@, self.listing()[i].0));
                    }
                    lemma_key_lt_irrefl(key@);
                }
            }
        }
        found
    }

    pub fn get(&self, key: &str) -> (r: Option<&V>)
        ensures
            r is Some <==> self@.contains_key(key@),
            r matches Some(v) ==> v@ == self@[key@],
    {
        proof {
            use_type_invariant(self);
        }
        let (p, found) = self.position(key);
        if found {
            proof {
                lemma_listing_entry(self.listing(), p as int);
            }
            Some(&self.entries[p].1)
        } else {
            proof {
                assert forall|i: int| 0 <= i < self.listing().len() implies self.listing()[i].0
                    != key@ by {
                    if i < p {
                        assert(key_lt(self.listing()[i].0, key@));
                    } else {
                        assert(key_lt(key@, self.listing()[i].0));
                    }
                    lemma_key_lt_irrefl(key@);
                }
            }
            None
        }
    }

    /// The key of the entry at a position of the listing.
    pub fn key_at(&self, i: usize) -> (r: &String)
        requires
            i < self.listing().len(),
        ensures
            r@ == self.listing()[i as int].0,
    {
        &self.entries[i].0
    }

    /// The value of the entry at a position of the listing.
    pub fn value_at(&self, i: usize) -> (r: &V)
        requires
            i < self.listing().len(),
        ensures
            r@ == self.listing()[i as int].1,
    {
        &self.entries[i].1
    }

    /// Each entry of the listing is what the map holds at its key, and each key of the map
    /// has an entry.
    pub fn lemma_listing(&self)
        ensures
            sorted_keys(self.listing()),
            self@ == listing_map(self.listing()),
    {
        proof {
            use_type_invariant(self);
        }
    }


    /// The listing is the map's entries in increasing key order.
    pub fn lemma_keys(&self)
        ensures
            key_order(self@.dom()) == self.listing().map_values(|e: (Seq<char>, V::V)| e.0),
            key_order(self@.dom()).to_set() == self@.dom(),
            self@.dom().len() == self.listing().len(),
            forall|i: int|
                0 <= i < self.listing().len() ==> #[trigger] self@.contains_key(self.listing()[i].0)
                    && self@[self.listing()[i].0] == self.listing()[i].1,
    {
        proof {
            use_type_invariant(self);
            lemma_key_order(self.listing());
            self.lemma_dom_len();
            assert forall|i: int| 0 <= i < self.listing().len() implies #[trigger] self@.contains_key(
                self.listing()[i].0,
            ) && self@[self.listing()[i].0] == self.listing()[i].1 by {
                lemma_listing_entry(self.listing(), i);
            }
        }
    }

    pub fn insert(&mut self, key: String, value: V) -> (r: Option<V>)
        ensures
            final(self)@ == old(self)@.insert(key@, value@),
            r is Some <==> old(self)@.contains_key(key@),
            r matches Some(v) ==> v@ == old(self)@[key@],
    {
        proof {
            use_type_invariant(&*self);
        }
        let ghost s = self.listing();
        let ghost k = key@;
        let ghost vv = value@;
        let (p, found) = self.position(key.as_str());
        let mut entries: Vec<(String, V)> = Vec::new();
        std::mem::swap(&mut entries, &mut self.entries);
        if found {
            proof {
                lemma_listing_entry(s, p as int);
                lemma_listing_update(s, p as int, vv);
            }
            let (_, old_value) = entries.remove(p);
            entries.insert(p, (key, value));
            assert(entries@.map_values(|e: (String, V)| (e.0@, e.1@)) =~= s.update(p as int, (k, vv)));
            self.entries = entries;
            Some(old_value)
        } else {
            proof {
                lemma_listing_insert(s, p as int, k, vv);
            }
            entries.insert(p, (key, value));
            assert(entries@.map_values(|e: (String, V)| (e.0@, e.1@)) =~= s.insert(p as int, (k, vv)));
            self.entries = entries;
            None
        }
    }

    pub fn remove(&mut self, key: &str) -> (r: Option<V>)
        ensures
            final(self)@ == old(self)@.remove(key@),
            r is Some <==> old(self)@.contains_key(key@),
            r matches Some(v) ==> v@ == old(self)@[key@],
    {
        proof {
            use_type_invariant(&*self);
        }
        let ghost s = self.listing();
        let (p, found) = self.position(key);
        if found {
            proof {
                lemma_listing_entry(s, p as int);
                lemma_listing_remove(s, p as int);
            }
            let mut entries: Vec<(String, V)> = Vec::new();
            std::mem::swap(&mut entries, &mut self.entries);
            let (_, old_value) = entries.remove(p);
            assert(entries@.map_values(|e: (String, V)| (e.0@, e.1@)) =~= s.remove(p as int));
            self.entries = entries;
            Some(old_value)
        } else {
            proof {
                assert forall|i: int| 0 <= i < s.len() implies s[i].0 != key@ by {
                    if i < p {
                        assert(key_lt(s[i].0, key@));
                    } else {
                        assert(key_lt(key@, s[i].0));
                    }
                    lemma_key_lt_irrefl(key@);
                }
                assert(self@ =~= old(self)@.remove(key@));
            }
            None
        }
    }
}

impl<V: Dup> Table<V> {
    /// A copy of the table.
    pub fn duplicate(&self) -> (r: Self)
        ensures
            r@ == self@,
            r.listing() == self.listing(),
    {
        proof {
            use_type_invariant(self);
        }
        let mut out: Vec<(String, V)> = Vec::new();
        let mut i: usize = 0;
        while i < self.entries.len()
            invariant
                i <= self.entries@.len(),
                out@.len() == i,
                forall|j: int| 0 <= j < i ==> (#[trigger] out@[j]).0@ == self.entries@[j].0@ && out@[j].1@
                    == self.entries@[j].1@,
            decreases self.entries@.len() - i,
        {
            let k = self.entries[i].0.clone();
            let v = self.entries[i].1.dup();
            out.push((k, v));
            i = i + 1;
        }
        assert(out@.map_values(|e: (String, V)| (e.0@, e.1@)) =~= self.listing());
        Table { entries: out }
    }
}

impl<V: View> View for Table<V> {
    type V = Map<Seq<char>, V::V>;

    closed spec fn view(&self) -> Map<Seq<char>, V::V> {
        listing_map(self.listing())
    }
}

} // verus!
