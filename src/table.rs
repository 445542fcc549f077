//! Tables keyed by identifiers, with a map as their model.

use vstd::prelude::*;
use crate::copy::Duplicate;
use crate::names::AccountId;
use crate::order::{compare_str, key_cmp, key_lt, lemma_key_cmp, lemma_key_lt_trans, str_cmp};

verus! {

/// The identity of a key: a short sequence of strings.
pub type KeyView = Seq<Seq<char>>;

/// A key type whose identity is a sequence of strings.
pub trait Keyed: Sized {
    spec fn key_view(&self) -> KeyView;

    fn same_key(&self, other: &Self) -> (r: bool)
        ensures
            r == (self.key_view() == other.key_view()),
    ;

    fn copy_key(&self) -> (r: Self)
        ensures
            r.key_view() == self.key_view(),
    ;

    fn compare_key(&self, other: &Self) -> (r: i8)
        ensures
            r as int == key_cmp(self.key_view(), other.key_view()),
    ;
}

/// Keys strictly increase along the sequence.
pub open spec fn keys_sorted<W>(s: Seq<(KeyView, W)>) -> bool {
    forall|i: int, j: int| 0 <= i < j < s.len() ==> key_lt(#[trigger] s[i].0, #[trigger] s[j].0)
}

pub proof fn lemma_pairs_map_insert<W>(s: Seq<(KeyView, W)>, p: int, x: (KeyView, W))
    requires
        0 <= p <= s.len(),
        forall|i: int| 0 <= i < s.len() ==> #[trigger] s[i].0 != x.0,
    ensures
        pairs_map(s.insert(p, x)) == pairs_map(s).insert(x.0, x.1),
    decreases s.len(),
{
    let t = s.insert(p, x);
    if p == s.len() {
        assert(t.drop_last() =~= s);
        assert(t.last() == x);
    } else {
        assert(t.drop_last() =~= s.drop_last().insert(p, x));
        assert(t.last() == s.last());
        lemma_pairs_map_insert(s.drop_last(), p, x);
        assert(s[s.len() - 1].0 != x.0);
        assert(pairs_map(t) =~= pairs_map(s).insert(x.0, x.1));
    }
}

/// The map that a list of pairs stands for: a later pair wins.
pub open spec fn pairs_map<W>(s: Seq<(KeyView, W)>) -> Map<KeyView, W>
    decreases s.len(),
{
    if s.len() == 0 {
        Map::empty()
    } else {
        pairs_map(s.drop_last()).insert(s.last().0, s.last().1)
    }
}

/// No two pairs share a key.
pub open spec fn keys_unique<W>(s: Seq<(KeyView, W)>) -> bool {
    forall|i: int, j: int| 0 <= i < j < s.len() ==> #[trigger] s[i].0 != #[trigger] s[j].0
}

pub proof fn lemma_pairs_map_absent<W>(s: Seq<(KeyView, W)>, k: KeyView)
    requires
        forall|i: int| 0 <= i < s.len() ==> #[trigger] s[i].0 != k,
    ensures
        !pairs_map(s).contains_key(k),
    decreases s.len(),
{
    if s.len() > 0 {
        lemma_pairs_map_absent(s.drop_last(), k);
    }
}

pub proof fn lemma_pairs_map_at<W>(s: Seq<(KeyView, W)>, i: int)
    requires
        keys_unique(s),
        0 <= i < s.len(),
    ensures
        pairs_map(s).contains_key(s[i].0),
        pairs_map(s)[s[i].0] == s[i].1,
    decreases s.len(),
{
    if i < s.len() - 1 {
        lemma_pairs_map_at(s.drop_last(), i);
        assert(s[i].0 != s[s.len() - 1].0);
    }
}

pub proof fn lemma_pairs_map_update<W>(s: Seq<(KeyView, W)>, i: int, x: (KeyView, W))
    requires
        keys_unique(s),
        0 <= i < s.len(),
        x.0 == s[i].0,
    ensures
        keys_unique(s.update(i, x)),
        pairs_map(s.update(i, x)) == pairs_map(s).insert(x.0, x.1),
    decreases s.len(),
{
    let t = s.update(i, x);
    assert forall|a: int, b: int| 0 <= a < b < t.len() implies #[trigger] t[a].0 != #[trigger] t[b].0 by {
        assert(s[a].0 != s[b].0);
    }
    if i == s.len() - 1 {
        assert(t.drop_last() =~= s.drop_last());
        assert(pairs_map(t) =~= pairs_map(s).insert(x.0, x.1));
    } else {
        assert(t.drop_last() =~= s.drop_last().update(i, x));
        lemma_pairs_map_update(s.drop_last(), i, x);
        assert(s[i].0 != s[s.len() - 1].0);
        assert(pairs_map(t) =~= pairs_map(s).insert(x.0, x.1));
    }
}

pub proof fn lemma_pairs_map_remove<W>(s: Seq<(KeyView, W)>, i: int)
    requires
        keys_unique(s),
        0 <= i < s.len(),
    ensures
        keys_unique(s.remove(i)),
        pairs_map(s.remove(i)) == pairs_map(s).remove(s[i].0),
    decreases s.len(),
{
    let t = s.remove(i);
    let k = s[i].0;
    assert forall|a: int, b: int| 0 <= a < b < t.len() implies #[trigger] t[a].0 != #[trigger] t[b].0 by {
        let a2 = if a < i { a } else { a + 1 };
        let b2 = if b < i { b } else { b + 1 };
        assert(t[a] == s[a2] && t[b] == s[b2]);
        assert(s[a2].0 != s[b2].0);
    }
    if i == s.len() - 1 {
        assert(t =~= s.drop_last());
        assert forall|j: int| 0 <= j < t.len() implies #[trigger] t[j].0 != k by {
            assert(s[j].0 != s[i].0);
        }
        lemma_pairs_map_absent(t, k);
        assert(pairs_map(t) =~= pairs_map(s).remove(k));
    } else {
        assert(t.drop_last() =~= s.drop_last().remove(i));
        assert(t.last() == s.last());
        lemma_pairs_map_remove(s.drop_last(), i);
        assert(s[i].0 != s[s.len() - 1].0);
        assert(pairs_map(t) =~= pairs_map(s).remove(k));
    }
}

pub proof fn lemma_pairs_map_has<W>(s: Seq<(KeyView, W)>, k: KeyView) -> (j: int)
    requires
        pairs_map(s).contains_key(k),
    ensures
        0 <= j < s.len(),
        s[j].0 == k,
{
    if forall|i: int| 0 <= i < s.len() ==> #[trigger] s[i].0 != k {
        lemma_pairs_map_absent(s, k);
    }
    choose|i: int| 0 <= i < s.len() && #[trigger] s[i].0 == k
}

/// Two sorted lists of pairs that stand for the same map are the same list:
/// the order of insertion leaves no trace.
pub proof fn lemma_sorted_pairs_canonical<W>(s1: Seq<(KeyView, W)>, s2: Seq<(KeyView, W)>)
    requires
        keys_unique(s1) && keys_sorted(s1),
        keys_unique(s2) && keys_sorted(s2),
        pairs_map(s1) == pairs_map(s2),
    ensures
        s1 == s2,
    decreases s1.len(),
{
    if s1.len() == 0 && s2.len() > 0 {
        lemma_pairs_map_at(s2, 0);
        assert(false);
    } else if s1.len() > 0 && s2.len() == 0 {
        lemma_pairs_map_at(s1, 0);
        assert(false);
    } else if s1.len() == 0 {
        assert(s1 =~= s2);
    } else {
        let n1 = s1.len() - 1;
        let n2 = s2.len() - 1;
        let k1 = s1[n1].0;
        let k2 = s2[n2].0;
        lemma_pairs_map_at(s1, n1);
        lemma_pairs_map_at(s2, n2);
        let j2 = lemma_pairs_map_has(s2, k1);
        let j1 = lemma_pairs_map_has(s1, k2);
        lemma_key_cmp(k1, k2);
        if k1 != k2 {
            if j2 < n2 {
                assert(key_lt(s2[j2].0, s2[n2].0));
            }
            if j1 < n1 {
                assert(key_lt(s1[j1].0, s1[n1].0));
            }
            assert(false);
        }
        let d1 = s1.drop_last();
        let d2 = s2.drop_last();
        assert forall|i: int| 0 <= i < d1.len() implies #[trigger] d1[i].0 != k1 by {
            assert(s1[i].0 != s1[n1].0);
        }
        assert forall|i: int| 0 <= i < d2.len() implies #[trigger] d2[i].0 != k1 by {
            assert(s2[i].0 != s2[n2].0);
        }
        lemma_pairs_map_absent(d1, k1);
        lemma_pairs_map_absent(d2, k1);
        assert(pairs_map(d1) =~= pairs_map(s1).remove(k1));
        assert(pairs_map(d2) =~= pairs_map(s2).remove(k1));
        assert forall|a: int, b: int| 0 <= a < b < d1.len() implies #[trigger] d1[a].0 != #[trigger] d1[b].0 by {
            assert(s1[a].0 != s1[b].0);
        }
        assert forall|a: int, b: int| 0 <= a < b < d1.len() implies key_lt(#[trigger] d1[a].0, #[trigger] d1[b].0) by {
            assert(key_lt(s1[a].0, s1[b].0));
        }
        assert forall|a: int, b: int| 0 <= a < b < d2.len() implies #[trigger] d2[a].0 != #[trigger] d2[b].0 by {
            assert(s2[a].0 != s2[b].0);
        }
        assert forall|a: int, b: int| 0 <= a < b < d2.len() implies key_lt(#[trigger] d2[a].0, #[trigger] d2[b].0) by {
            assert(key_lt(s2[a].0, s2[b].0));
        }
        lemma_sorted_pairs_canonical(d1, d2);
        assert(s1 =~= d1.push(s1[n1]));
        assert(s2 =~= d2.push(s2[n2]));
    }
}

/// Inserting a key at the place where it belongs keeps a list sorted.
pub proof fn lemma_sorted_insert<W>(s: Seq<(KeyView, W)>, p: int, x: (KeyView, W))
    requires
        keys_unique(s),
        keys_sorted(s),
        0 <= p <= s.len(),
        forall|i: int| 0 <= i < p ==> key_lt(#[trigger] s[i].0, x.0),
        p < s.len() ==> key_lt(x.0, s[p].0),
    ensures
        keys_unique(s.insert(p, x)),
        keys_sorted(s.insert(p, x)),
        pairs_map(s.insert(p, x)) == pairs_map(s).insert(x.0, x.1),
{
    assert forall|i: int| 0 <= i < s.len() implies #[trigger] s[i].0 != x.0 by {
        if i < p {
            lemma_key_cmp(s[i].0, x.0);
        } else {
            if i > p {
                lemma_key_lt_trans(x.0, s[p].0, s[i].0);
            }
            lemma_key_cmp(x.0, s[i].0);
        }
    }
    lemma_pairs_map_insert(s, p, x);
    let t = s.insert(p, x);
    assert forall|a: int, b: int| 0 <= a < b < t.len() implies key_lt(#[trigger] t[a].0, #[trigger] t[b].0) by {
        if b < p {
            assert(key_lt(s[a].0, s[b].0));
        } else if b == p {
            assert(key_lt(s[a].0, x.0));
        } else if a == p {
            if b - 1 > p {
                assert(key_lt(s[p].0, s[b - 1].0));
                lemma_key_lt_trans(x.0, s[p].0, s[b - 1].0);
            }
        } else if a < p {
            assert(key_lt(s[a].0, s[b - 1].0));
        } else {
            assert(key_lt(s[a - 1].0, s[b - 1].0));
        }
    }
    assert forall|a: int, b: int| 0 <= a < b < t.len() implies #[trigger] t[a].0 != #[trigger] t[b].0 by {
        lemma_key_cmp(t[a].0, t[b].0);
    }
}

/// A key missing from a sorted list has a place where it belongs.
pub proof fn lemma_sorted_position<W>(s: Seq<(KeyView, W)>, k: KeyView) -> (p: int)
    requires
        keys_sorted(s),
        forall|i: int| 0 <= i < s.len() ==> #[trigger] s[i].0 != k,
    ensures
        0 <= p <= s.len(),
        forall|i: int| 0 <= i < p ==> key_lt(#[trigger] s[i].0, k),
        p < s.len() ==> key_lt(k, s[p].0),
    decreases s.len(),
{
    if s.len() == 0 {
        0
    } else {
        let n = s.len() - 1;
        lemma_key_cmp(s[n].0, k);
        if key_lt(s[n].0, k) {
            assert forall|i: int| 0 <= i < n + 1 implies key_lt(#[trigger] s[i].0, k) by {
                if i < n {
                    lemma_key_lt_trans(s[i].0, s[n].0, k);
                }
            }
            n + 1
        } else {
            let d = s.drop_last();
            assert forall|a: int, b: int| 0 <= a < b < d.len() implies key_lt(#[trigger] d[a].0, #[trigger] d[b].0) by {
                assert(key_lt(s[a].0, s[b].0));
            }
            assert forall|i: int| 0 <= i < d.len() implies #[trigger] d[i].0 != k by {
                assert(s[i].0 != k);
            }
            let q = lemma_sorted_position(d, k);
            assert forall|i: int| 0 <= i < q implies key_lt(#[trigger] s[i].0, k) by {
                assert(key_lt(d[i].0, k));
            }
            q
        }
    }
}

/// A table of values keyed by `K`, each key at most once, kept sorted by key.
pub struct Table<K, V> {
    pub entries: Vec<(K, V)>,
}

impl<K: Keyed, V: View> Table<K, V> {
    /// The entries as plain values, in order.
    pub open spec fn pairs(&self) -> Seq<(KeyView, V::V)> {
        self.entries@.map_values(|e: (K, V)| (e.0.key_view(), e.1@))
    }

    pub open spec fn wf(&self) -> bool {
        keys_unique(self.pairs()) && keys_sorted(self.pairs())
    }

    pub fn new() -> (r: Self)
        ensures
            r.wf(),
            r@ == Map::<KeyView, V::V>::empty(),
            r.entries@.len() == 0,
    {
        let r = Table { entries: Vec::new() };
        assert(r.pairs() =~= Seq::<(KeyView, V::V)>::empty());
        r
    }

    /// Whether the entries are sorted by key, each key once.
    pub fn check_wf(&self) -> (r: bool)
        ensures
            r == self.wf(),
    {
        let n: usize = self.entries.len();
        let mut i: usize = 1;
        if n == 0 {
            return true;
        }
        while i < n
            invariant
                1 <= i <= n,
                n == self.entries@.len(),
                forall|a: int, b: int| 0 <= a < b < i ==> key_lt(#[trigger] self.pairs()[a].0, #[trigger] self.pairs()[b].0),
            decreases n - i,
        {
            if self.entries[i - 1].0.compare_key(&self.entries[i].0) >= 0 {
                assert(!key_lt(self.pairs()[i - 1].0, self.pairs()[i as int].0));
                return false;
            }
            proof {
                let p = self.pairs();
                assert forall|a: int, b: int| 0 <= a < b < i + 1 implies key_lt(#[trigger] p[a].0, #[trigger] p[b].0) by {
                    if b == i && a < i - 1 {
                        lemma_key_lt_trans(p[a].0, p[i - 1].0, p[b].0);
                    }
                }
            }
            i = i + 1;
        }
        proof {
            let p = self.pairs();
            assert forall|a: int, b: int| 0 <= a < b < p.len() implies #[trigger] p[a].0 != #[trigger] p[b].0 by {
                lemma_key_cmp(p[a].0, p[b].0);
            }
        }
        true
    }

    /// Where the entry for `k` stands, if there is one.
    pub fn position(&self, k: &K) -> (r: Option<usize>)
        requires
            self.wf(),
        ensures
            match r {
                Some(i) => i < self.entries@.len() && self.entries@[i as int].0.key_view()
                    == k.key_view() && self@.contains_key(k.key_view()) && self@[k.key_view()]
                    == self.entries@[i as int].1@,
                None => !self@.contains_key(k.key_view()),
            },
    {
        let mut i: usize = 0;
        while i < self.entries.len()
            invariant
                self.wf(),
                i <= self.entries@.len(),
                forall|j: int| 0 <= j < i ==> #[trigger] self.pairs()[j].0 != k.key_view(),
            decreases self.entries@.len() - i,
        {
            if self.entries[i].0.same_key(k) {
                proof {
                    lemma_pairs_map_at(self.pairs(), i as int);
                }
                return Some(i);
            }
            i = i + 1;
        }
        proof {
            lemma_pairs_map_absent(self.pairs(), k.key_view());
        }
        None
    }

    pub fn contains(&self, k: &K) -> (r: bool)
        requires
            self.wf(),
        ensures
            r == self@.contains_key(k.key_view()),
    {
        self.position(k).is_some()
    }

    pub fn get(&self, k: &K) -> (r: Option<&V>)
        requires
            self.wf(),
        ensures
            match r {
                Some(v) => self@.contains_key(k.key_view()) && v@ == self@[k.key_view()],
                None => !self@.contains_key(k.key_view()),
            },
    {
        match self.position(k) {
            Some(i) => Some(&self.entries[i].1),
            None => None,
        }
    }

    /// Sets the value under `k`, replacing any earlier one.
    pub fn set(&mut self, k: K, v: V)
        requires
            old(self).wf(),
        ensures
            final(self).wf(),
            final(self)@ == old(self)@.insert(k.key_view(), v@),
    {
        let ghost kv = k.key_view();
        let ghost vv = v@;
        match self.position(&k) {
            Some(i) => {
                proof {
                    lemma_pairs_map_update(self.pairs(), i as int, (kv, vv));
                }
                self.entries.set(i, (k, v));
                assert(self.pairs() =~= old(self).pairs().update(i as int, (kv, vv)));
                assert forall|a: int, b: int| 0 <= a < b < self.pairs().len() implies key_lt(
                    #[trigger] self.pairs()[a].0,
                    #[trigger] self.pairs()[b].0,
                ) by {
                    assert(key_lt(old(self).pairs()[a].0, old(self).pairs()[b].0));
                }
            },
            None => {
                let ghost s0 = self.pairs();
                proof {
                    assert forall|j: int| 0 <= j < s0.len() implies #[trigger] s0[j].0 != kv by {
                        if s0[j].0 == kv {
                            lemma_pairs_map_at(s0, j);
                        }
                    }
                }
                let mut p: usize = 0;
                while p < self.entries.len() && self.entries[p].0.compare_key(&k) < 0
                    invariant
                        p <= self.entries@.len(),
                        s0 == self.pairs(),
                        kv == k.key_view(),
                        forall|j: int| 0 <= j < p ==> key_lt(#[trigger] s0[j].0, kv),
                    decreases self.entries@.len() - p,
                {
                    p = p + 1;
                }
                proof {
                    if p < s0.len() {
                        lemma_key_cmp(s0[p as int].0, kv);
                        assert(key_lt(kv, s0[p as int].0));
                    }
                    lemma_pairs_map_insert(s0, p as int, (kv, vv));
                }
                self.entries.insert(p, (k, v));
                assert(self.pairs() =~= s0.insert(p as int, (kv, vv)));
                proof {
                    let t = self.pairs();
                    assert forall|a: int, b: int| 0 <= a < b < t.len() implies key_lt(
                        #[trigger] t[a].0,
                        #[trigger] t[b].0,
                    ) by {
                        if b < p {
                            assert(key_lt(s0[a].0, s0[b].0));
                        } else if b == p {
                            assert(key_lt(s0[a].0, kv));
                        } else if a == p {
                            if b - 1 > p {
                                assert(key_lt(s0[p as int].0, s0[b - 1].0));
                                lemma_key_lt_trans(kv, s0[p as int].0, s0[b - 1].0);
                            }
                        } else if a < p {
                            assert(key_lt(s0[a].0, s0[b - 1].0));
                        } else {
                            assert(key_lt(s0[a - 1].0, s0[b - 1].0));
                        }
                    }
                    assert forall|a: int, b: int| 0 <= a < b < t.len() implies #[trigger] t[a].0
                        != #[trigger] t[b].0 by {
                        lemma_key_cmp(t[a].0, t[b].0);
                    }
                }
            },
        }
    }

    /// Takes out the entry for `k` and hands back its value, if there is one.
    pub fn remove(&mut self, k: &K) -> (r: Option<V>)
        requires
            old(self).wf(),
        ensures
            final(self).wf(),
            final(self)@ == old(self)@.remove(k.key_view()),
            match r {
                Some(v) => old(self)@.contains_key(k.key_view()) && v@ == old(self)@[k.key_view()],
                None => !old(self)@.contains_key(k.key_view()),
            },
    {
        match self.position(k) {
            Some(i) => {
                proof {
                    lemma_pairs_map_remove(self.pairs(), i as int);
                }
                let e = self.entries.remove(i);
                assert(self.pairs() =~= old(self).pairs().remove(i as int));
                assert forall|a: int, b: int| 0 <= a < b < self.pairs().len() implies key_lt(
                    #[trigger] self.pairs()[a].0,
                    #[trigger] self.pairs()[b].0,
                ) by {
                    let a2 = if a < i { a } else { a + 1 };
                    let b2 = if b < i { b } else { b + 1 };
                    assert(key_lt(old(self).pairs()[a2].0, old(self).pairs()[b2].0));
                }
                Some(e.1)
            },
            None => {
                assert(self@.remove(k.key_view()) =~= self@);
                None
            },
        }
    }
}

impl<K: Keyed, V: View> View for Table<K, V> {
    type V = Map<KeyView, V::V>;

    open spec fn view(&self) -> Map<KeyView, V::V> {
        pairs_map(self.pairs())
    }
}

impl<K: Keyed, V: Duplicate> Table<K, V> {
    /// A copy with the same entries in the same order.
    pub fn copy(&self) -> (r: Self)
        ensures
            r.pairs() == self.pairs(),
    {
        let mut entries: Vec<(K, V)> = Vec::new();
        let mut i: usize = 0;
        while i < self.entries.len()
            invariant
                i <= self.entries@.len(),
                entries@.len() == i,
                forall|j: int| 0 <= j < i ==> #[trigger] entries@[j].0.key_view()
                    == self.entries@[j].0.key_view() && entries@[j].1@ == self.entries@[j].1@,
            decreases self.entries@.len() - i,
        {
            let k = self.entries[i].0.copy_key();
            let v = self.entries[i].1.duplicate();
            entries.push((k, v));
            i = i + 1;
        }
        let r = Table { entries };
        assert(r.pairs() =~= self.pairs());
        r
    }
}

impl<K: Keyed, V: Duplicate> Duplicate for Table<K, V> {
    fn duplicate(&self) -> (r: Self) {
        self.copy()
    }
}

impl Keyed for AccountId {
    fn compare_key(&self, other: &Self) -> (r: i8) {
        let c = compare_str(self.domain.as_str(), other.domain.as_str());
        let ghost a = self.key_view();
        let ghost b = other.key_view();
        assert(a.drop_first() =~= seq![self.signatory@]);
        assert(b.drop_first() =~= seq![other.signatory@]);
        assert(a.drop_first().drop_first() =~= Seq::<Seq<char>>::empty());
        assert(b.drop_first().drop_first() =~= Seq::<Seq<char>>::empty());
        reveal_with_fuel(key_cmp, 3);
        if c != 0 {
            c
        } else {
            compare_str(self.signatory.as_str(), other.signatory.as_str())
        }
    }

    open spec fn key_view(&self) -> KeyView {
        seq![self.domain@, self.signatory@]
    }

    fn same_key(&self, other: &Self) -> (r: bool) {
        let r = self.same(other);
        proof {
            if self.key_view() == other.key_view() {
                assert(self.key_view()[0] == other.key_view()[0]);
                assert(self.key_view()[1] == other.key_view()[1]);
            }
        }
        assert(r == (self.key_view() =~= other.key_view()));
        r
    }

    fn copy_key(&self) -> (r: Self) {
        self.clone()
    }
}

impl Keyed for String {
    fn compare_key(&self, other: &Self) -> (r: i8) {
        let ghost a = self.key_view();
        let ghost b = other.key_view();
        assert(a.drop_first() =~= Seq::<Seq<char>>::empty());
        assert(b.drop_first() =~= Seq::<Seq<char>>::empty());
        reveal_with_fuel(key_cmp, 2);
        compare_str(self.as_str(), other.as_str())
    }

    open spec fn key_view(&self) -> KeyView {
        seq![self@]
    }

    fn same_key(&self, other: &Self) -> (r: bool) {
        let r = *self == *other;
        proof {
            if self.key_view() == other.key_view() {
                assert(self.key_view()[0] == other.key_view()[0]);
            }
        }
        assert(r == (self.key_view() =~= other.key_view()));
        r
    }

    fn copy_key(&self) -> (r: Self) {
        self.clone()
    }
}

impl Keyed for (AccountId, String) {
    fn compare_key(&self, other: &Self) -> (r: i8) {
        let ghost a = self.key_view();
        let ghost b = other.key_view();
        assert(a.drop_first() =~= seq![self.0.signatory@, self.1@]);
        assert(b.drop_first() =~= seq![other.0.signatory@, other.1@]);
        assert(a.drop_first().drop_first() =~= seq![self.1@]);
        assert(b.drop_first().drop_first() =~= seq![other.1@]);
        assert(a.drop_first().drop_first().drop_first() =~= Seq::<Seq<char>>::empty());
        assert(b.drop_first().drop_first().drop_first() =~= Seq::<Seq<char>>::empty());
        reveal_with_fuel(key_cmp, 4);
        let c = compare_str(self.0.domain.as_str(), other.0.domain.as_str());
        if c != 0 {
            return c;
        }
        let d = compare_str(self.0.signatory.as_str(), other.0.signatory.as_str());
        if d != 0 {
            return d;
        }
        compare_str(self.1.as_str(), other.1.as_str())
    }

    open spec fn key_view(&self) -> KeyView {
        seq![self.0.domain@, self.0.signatory@, self.1@]
    }

    fn same_key(&self, other: &Self) -> (r: bool) {
        let a = self.0.same(&other.0);
        let b = self.1 == other.1;
        let r = a && b;
        assert(a == (self.0.domain@ == other.0.domain@ && self.0.signatory@ == other.0.signatory@));
        assert(b == (self.1@ == other.1@));
        proof {
            if self.key_view() == other.key_view() {
                assert(self.key_view()[0] == other.key_view()[0]);
                assert(self.key_view()[1] == other.key_view()[1]);
                assert(self.key_view()[2] == other.key_view()[2]);
            }
        }
        assert(r == (self.key_view() =~= other.key_view()));
        r
    }

    fn copy_key(&self) -> (r: Self) {
        (self.0.clone(), self.1.clone())
    }
}

} // verus!
