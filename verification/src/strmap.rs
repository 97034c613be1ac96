//! A map keyed by strings whose entries are kept in ascending key order
//! (code-point lexicographic, the order of `str`), so iteration is
//! deterministic.
use vstd::prelude::*;

use crate::strs::str_chars;

verus! {

/// `a` sorts strictly before `b` in code-point lexicographic order.
pub open spec fn chars_lt(a: Seq<char>, b: Seq<char>) -> bool
    decreases a.len(),
{
    if b.len() == 0 {
        false
    } else if a.len() == 0 {
        true
    } else if a[0] < b[0] {
        true
    } else if a[0] == b[0] {
        chars_lt(a.drop_first(), b.drop_first())
    } else {
        false
    }
}

/// The order is irreflexive and asymmetric.
pub proof fn lemma_chars_lt_asym(a: Seq<char>, b: Seq<char>)
    ensures
        chars_lt(a, b) ==> !chars_lt(b, a),
        !chars_lt(a, a),
    decreases a.len(),
{
    if a.len() > 0 && b.len() > 0 && a[0] == b[0] {
        lemma_chars_lt_asym(a.drop_first(), b.drop_first());
    }
    if a.len() > 0 {
        lemma_chars_lt_asym(a.drop_first(), a.drop_first());
    }
}

/// The order is transitive.
pub proof fn lemma_chars_lt_trans(a: Seq<char>, b: Seq<char>, c: Seq<char>)
    requires
        chars_lt(a, b),
        chars_lt(b, c),
    ensures
        chars_lt(a, c),
    decreases a.len(),
{
    if a.len() > 0 && b.len() > 0 && c.len() > 0 && a[0] == b[0] && b[0] == c[0] {
        lemma_chars_lt_trans(a.drop_first(), b.drop_first(), c.drop_first());
    }
}

/// Distinct sequences are comparable.
pub proof fn lemma_chars_lt_total(a: Seq<char>, b: Seq<char>)
    ensures
        a == b || chars_lt(a, b) || chars_lt(b, a),
    decreases a.len(),
{
    if a.len() > 0 && b.len() > 0 && a[0] == b[0] {
        lemma_chars_lt_total(a.drop_first(), b.drop_first());
        if a.drop_first() == b.drop_first() {
            assert(a =~= seq![a[0]] + a.drop_first());
            assert(b =~= seq![b[0]] + b.drop_first());
        }
    } else if a.len() == 0 && b.len() == 0 {
        assert(a =~= b);
    }
}

/// Three-way comparison: `-1` when `a < b`, `0` when equal, `1` when
/// `a > b`.
pub fn order_chars(a: &[char], b: &[char]) -> (r: i8)
    ensures
        r == -1 <==> chars_lt(a@, b@),
        r == 0 <==> a@ == b@,
        r == 1 <==> chars_lt(b@, a@),
        r == -1 || r == 0 || r == 1,
    decreases a.len(),
{
    proof {
        lemma_chars_lt_asym(a@, b@);
        lemma_chars_lt_total(a@, b@);
    }
    if b.len() == 0 {
        if a.len() == 0 {
            assert(a@ =~= b@);
            0
        } else {
            1
        }
    } else if a.len() == 0 {
        -1
    } else if a[0] < b[0] {
        -1
    } else if a[0] == b[0] {
        let r = order_chars(&a[1..a.len()], &b[1..b.len()]);
        assert(a@.drop_first() =~= a@.subrange(1, a@.len() as int));
        assert(b@.drop_first() =~= b@.subrange(1, b@.len() as int));
        if r == 0 {
            assert(a@ =~= seq![a@[0]] + a@.drop_first());
            assert(b@ =~= seq![b@[0]] + b@.drop_first());
        }
        r
    } else {
        1
    }
}

/// Entry keys strictly increase.
pub open spec fn keys_sorted<V>(s: Seq<(Seq<char>, V)>) -> bool {
    forall|i: int, j: int| 0 <= i < j < s.len() ==> chars_lt(#[trigger] s[i].0, #[trigger] s[j].0)
}

/// Some entry has key `k`.
pub open spec fn has_key<V>(s: Seq<(Seq<char>, V)>, k: Seq<char>) -> bool {
    exists|i: int| 0 <= i < s.len() && (#[trigger] s[i]).0 == k
}

/// Position of an entry with key `k`.
pub open spec fn key_index<V>(s: Seq<(Seq<char>, V)>, k: Seq<char>) -> int {
    choose|i: int| 0 <= i < s.len() && (#[trigger] s[i]).0 == k
}

/// The value of an entry with key `k`.
pub open spec fn value_of<V>(s: Seq<(Seq<char>, V)>, k: Seq<char>) -> V {
    s[key_index(s, k)].1
}

/// The map holding the entries of `s`.
pub open spec fn seq_to_map<V>(s: Seq<(Seq<char>, V)>) -> Map<Seq<char>, V> {
    Map::new(|k: Seq<char>| has_key(s, k), |k: Seq<char>| value_of(s, k))
}

/// In a key-sorted sequence, the entry at `i` gives the map's value for
/// its key.
pub proof fn lemma_sorted_lookup<V>(s: Seq<(Seq<char>, V)>, i: int)
    requires
        keys_sorted(s),
        0 <= i < s.len(),
    ensures
        seq_to_map(s).dom().contains(s[i].0),
        seq_to_map(s)[s[i].0] == s[i].1,
{
    let k = s[i].0;
    assert(has_key(s, k));
    let j = key_index(s, k);
    if j < i {
        assert(chars_lt(s[j].0, s[i].0));
        lemma_chars_lt_asym(k, k);
    } else if i < j {
        assert(chars_lt(s[i].0, s[j].0));
        lemma_chars_lt_asym(k, k);
    }
    assert(j == i);
    assert(seq_to_map(s).dom().contains(k));
    assert(seq_to_map(s)[k] == value_of(s, k));
    assert(value_of(s, k) == s[j].1);
}

/// A key-sorted sequence holds one map key per entry.
pub proof fn lemma_dom_len<V>(s: Seq<(Seq<char>, V)>)
    requires
        keys_sorted(s),
    ensures
        seq_to_map(s).dom().finite(),
        seq_to_map(s).dom().len() == s.len(),
    decreases s.len(),
{
    if s.len() == 0 {
        assert(seq_to_map(s).dom() =~= Set::<Seq<char>>::empty());
    } else {
        let p = s.drop_last();
        let k = s.last().0;
        assert(keys_sorted(p)) by {
            assert forall|i: int, j: int| 0 <= i < j < p.len() implies chars_lt(
                #[trigger] p[i].0,
                #[trigger] p[j].0,
            ) by {
                assert(chars_lt(s[i].0, s[j].0));
            }
        }
        lemma_dom_len(p);
        assert forall|x: Seq<char>| has_key(s, x) <==> (has_key(p, x) || x == k) by {
            if has_key(s, x) {
                let i = choose|i: int| 0 <= i < s.len() && (#[trigger] s[i]).0 == x;
                if i < p.len() {
                    assert(p[i].0 == x);
                }
            }
            if has_key(p, x) {
                let i = choose|i: int| 0 <= i < p.len() && (#[trigger] p[i]).0 == x;
                assert(s[i].0 == x);
            }
            if x == k {
                assert(s[s.len() - 1].0 == x);
            }
        }
        assert(seq_to_map(s).dom() =~= seq_to_map(p).dom().insert(k));
        if has_key(p, k) {
            let i = choose|i: int| 0 <= i < p.len() && (#[trigger] p[i]).0 == k;
            assert(chars_lt(s[i].0, s[s.len() - 1].0));
            lemma_chars_lt_asym(k, k);
        }
    }
}

/// The text stored for `k` in a `String`-valued map, if any.
pub open spec fn string_lookup(m: Map<Seq<char>, String>, k: Seq<char>) -> Option<Seq<char>> {
    if m.dom().contains(k) {
        Some(m[k]@)
    } else {
        None
    }
}

/// The characters of an optional borrowed string.
pub open spec fn opt_str_view(o: Option<&str>) -> Option<Seq<char>> {
    match o {
        Some(s) => Some(s@),
        None => None,
    }
}

/// Views of a `String`-valued map.
pub open spec fn string_map_view(m: Map<Seq<char>, String>) -> Map<Seq<char>, Seq<char>> {
    m.map_values(|v: String| v@)
}

/// The texts stored as values of a `String`-valued map.
pub open spec fn string_values(m: Map<Seq<char>, String>) -> Set<Seq<char>> {
    Set::new(|v: Seq<char>| exists|k: Seq<char>| m.dom().contains(k) && #[trigger] m[k]@ == v)
}

/// `m` with the pairs of `s` inserted in order, later pairs winning.
pub open spec fn insert_pairs<V>(m: Map<Seq<char>, V>, s: Seq<(String, V)>) -> Map<Seq<char>, V>
    decreases s.len(),
{
    if s.len() == 0 {
        m
    } else {
        insert_pairs(m, s.drop_last()).insert(s.last().0@, s.last().1)
    }
}

/// The entries of `s` whose flag in `keep` is set, in order.
pub open spec fn flagged<V>(s: Seq<(Seq<char>, V)>, keep: Seq<bool>) -> Seq<(Seq<char>, V)>
    decreases s.len(),
{
    if s.len() == 0 || keep.len() == 0 {
        Seq::empty()
    } else {
        let rest = flagged(s.drop_last(), keep.drop_last());
        if keep.last() {
            rest.push(s.last())
        } else {
            rest
        }
    }
}

/// The flagged entries of a key-sorted sequence are key-sorted.
pub proof fn lemma_flagged_sorted<V>(s: Seq<(Seq<char>, V)>, keep: Seq<bool>)
    requires
        keys_sorted(s),
        keep.len() == s.len(),
    ensures
        keys_sorted(flagged(s, keep)),
        forall|j: int| 0 <= j < flagged(s, keep).len() ==> has_key(s, #[trigger] flagged(s, keep)[j].0),
    decreases s.len(),
{
    if s.len() > 0 {
        let prev = s.drop_last();
        assert(keys_sorted(prev));
        lemma_flagged_sorted(prev, keep.drop_last());
        let r = flagged(prev, keep.drop_last());
        if keep.last() {
            let r2 = r.push(s.last());
            assert forall|j: int| 0 <= j < r2.len() implies has_key(s, #[trigger] r2[j].0) by {
                if j < r.len() {
                    let w = choose|w: int| 0 <= w < prev.len() && (#[trigger] prev[w]).0 == r[j].0;
                    assert(s[w] == prev[w]);
                } else {
                    assert(s[s.len() - 1] == s.last());
                }
            }
            assert forall|a: int, b: int| 0 <= a < b < r2.len() implies chars_lt(
                #[trigger] r2[a].0,
                #[trigger] r2[b].0,
            ) by {
                if b < r.len() {
                    assert(r2[a] == r[a]);
                    assert(r2[b] == r[b]);
                } else {
                    assert(r2[a] == r[a]);
                    assert(has_key(prev, r[a].0));
                    let w = choose|w: int| 0 <= w < prev.len() && (#[trigger] prev[w]).0 == r[a].0;
                    assert(s[w] == prev[w]);
                    assert(chars_lt(s[w].0, s[s.len() - 1].0));
                }
            }
        } else {
            assert forall|j: int| 0 <= j < r.len() implies has_key(s, #[trigger] r[j].0) by {
                let w = choose|w: int| 0 <= w < prev.len() && (#[trigger] prev[w]).0 == r[j].0;
                assert(s[w] == prev[w]);
            }
        }
    }
}

/// Map from strings to `V`, entries in ascending key order.
#[derive(Clone, Debug, PartialEq, Eq)]
pub struct StrMap<V> {
    keys: Vec<Vec<char>>,
    entries: Vec<(String, V)>,
}

impl<V> StrMap<V> {
    /// Keys as character sequences, with their values, in key order.
    pub closed spec fn entries_view(self) -> Seq<(Seq<char>, V)> {
        self.entries@.map_values(|e: (String, V)| (e.0@, e.1))
    }

    /// The map the entries hold.
    pub open spec fn as_map(self) -> Map<Seq<char>, V> {
        seq_to_map(self.entries_view())
    }

    /// Keys and entries agree and are strictly sorted.
    pub closed spec fn wf(self) -> bool {
        &&& self.keys@.len() == self.entries@.len()
        &&& forall|i: int| 0 <= i < self.keys@.len() ==> (#[trigger] self.keys@[i])@ == self.entries@[i].0@
        &&& keys_sorted(self.entries_view())
    }

    /// Entries are in strictly ascending key order.
    pub proof fn lemma_sorted(&self)
        requires
            self.wf(),
        ensures
            keys_sorted(self.entries_view()),
    {
    }

    /// The map has exactly one key per entry.
    pub proof fn lemma_len(&self)
        requires
            self.wf(),
        ensures
            self.as_map().dom().finite(),
            self.as_map().dom().len() == self.entries_view().len(),
    {
        lemma_dom_len(self.entries_view());
    }

    /// An empty map.
    pub fn new() -> (r: Self)
        ensures
            r.wf(),
            r.entries_view() == Seq::<(Seq<char>, V)>::empty(),
    {
        let r = StrMap { keys: Vec::new(), entries: Vec::new() };
        assert(r.entries_view() =~= Seq::<(Seq<char>, V)>::empty());
        r
    }

    /// A map holding `pairs`, later pairs overriding earlier ones with
    /// the same key.
    pub fn from_pairs(pairs: Vec<(String, V)>) -> (r: Self)
        ensures
            r.wf(),
            r.as_map() == insert_pairs(Map::empty(), pairs@),
    {
        let ghost ps = pairs@;
        let total = pairs.len();
        let mut r = Self::new();
        let mut rest = pairs;
        let mut i: usize = 0;
        proof {
            assert(r.as_map() =~= Map::<Seq<char>, V>::empty());
            assert(ps.take(0) =~= Seq::<(String, V)>::empty());
        }
        while rest.len() > 0
            invariant
                i + rest@.len() == ps.len(),
                ps.len() == total,
                rest@ == ps.subrange(i as int, ps.len() as int),
                r.wf(),
                r.as_map() == insert_pairs(Map::empty(), ps.take(i as int)),
            decreases rest@.len(),
        {
            let (k, v) = rest.remove(0);
            assert(rest@ =~= ps.subrange(i + 1, ps.len() as int));
            proof {
                assert(ps.take(i + 1).drop_last() =~= ps.take(i as int));
                assert(ps.take(i + 1).last() == ps[i as int]);
            }
            r.insert(k, v);
            i = i + 1;
        }
        proof {
            assert(ps.take(i as int) =~= ps);
        }
        r
    }

    /// The map is empty exactly when there are no entries.
    pub proof fn lemma_empty_iff(&self)
        requires
            self.wf(),
        ensures
            self.as_map().dom().is_empty() <==> self.entries_view().len() == 0,
    {
        if self.entries_view().len() > 0 {
            lemma_sorted_lookup(self.entries_view(), 0);
            assert(self.as_map().dom().contains(self.entries_view()[0].0));
        } else {
            assert forall|k: Seq<char>| !self.as_map().dom().contains(k) by {}
            assert(self.as_map().dom() =~= Set::<Seq<char>>::empty());
        }
    }

    /// Number of entries.
    pub fn len(&self) -> (r: usize)
        requires
            self.wf(),
        ensures
            r == self.entries_view().len(),
    {
        self.entries.len()
    }

    /// Whether the map has no entries.
    pub fn is_empty(&self) -> (r: bool)
        requires
            self.wf(),
        ensures
            r == (self.entries_view().len() == 0),
    {
        self.entries.len() == 0
    }

    /// The `i`-th entry in key order.
    pub fn entry_at(&self, i: usize) -> (r: (&String, &V))
        requires
            self.wf(),
            i < self.entries_view().len(),
        ensures
            r.0@ == self.entries_view()[i as int].0,
            *r.1 == self.entries_view()[i as int].1,
    {
        let e = &self.entries[i];
        (&e.0, &e.1)
    }

    /// The keys, in ascending order.
    pub fn keys_vec(&self) -> (r: Vec<String>)
        requires
            self.wf(),
        ensures
            r@.len() == self.entries_view().len(),
            forall|i: int| 0 <= i < r@.len() ==> #[trigger] r@[i]@ == self.entries_view()[i].0,
    {
        let n = self.entries.len();
        let mut r: Vec<String> = Vec::new();
        let mut i: usize = 0;
        while i < n
            invariant
                i <= n,
                n == self.entries@.len(),
                self.wf(),
                r@.len() == i,
                forall|j: int| 0 <= j < i ==> #[trigger] r@[j]@ == self.entries_view()[j].0,
            decreases n - i,
        {
            r.push(self.entries[i].0.clone());
            i = i + 1;
        }
        r
    }

    /// Index of the first entry whose key is not below `key`.
    fn lower_bound(&self, key: &[char]) -> (r: usize)
        requires
            self.wf(),
        ensures
            r <= self.entries_view().len(),
            forall|i: int| 0 <= i < r ==> chars_lt(#[trigger] self.entries_view()[i].0, key@),
            forall|i: int|
                r <= i < self.entries_view().len() ==> !chars_lt(
                    #[trigger] self.entries_view()[i].0,
                    key@,
                ),
    {
        let ghost ev = self.entries_view();
        let mut lo: usize = 0;
        let mut hi: usize = self.keys.len();
        while lo < hi
            invariant
                ev == self.entries_view(),
                self.keys@.len() == ev.len(),
                forall|i: int| 0 <= i < self.keys@.len() ==> (#[trigger] self.keys@[i])@ == ev[i].0,
                keys_sorted(ev),
                lo <= hi <= ev.len(),
                forall|i: int| 0 <= i < lo ==> chars_lt(#[trigger] ev[i].0, key@),
                forall|i: int| hi <= i < ev.len() ==> !chars_lt(#[trigger] ev[i].0, key@),
            decreases hi - lo,
        {
            let mid = lo + (hi - lo) / 2;
            let c = order_chars(&self.keys[mid], key);
            assert(self.keys@[mid as int]@ == ev[mid as int].0);
            if c == -1 {
                proof {
                    assert forall|i: int| 0 <= i < mid + 1 implies chars_lt(#[trigger] ev[i].0, key@) by {
                        if i < mid {
                            lemma_chars_lt_trans(ev[i].0, ev[mid as int].0, key@);
                        }
                    }
                }
                lo = mid + 1;
            } else {
                proof {
                    assert forall|i: int| mid <= i < ev.len() implies !chars_lt(#[trigger] ev[i].0, key@) by {
                        if i > mid {
                            if chars_lt(ev[i].0, key@) {
                                lemma_chars_lt_trans(ev[mid as int].0, ev[i].0, key@);
                                lemma_chars_lt_asym(ev[mid as int].0, key@);
                            }
                        }
                    }
                }
                hi = mid;
            }
        }
        lo
    }

    /// Position of the entry with key `key`, if any.
    fn find(&self, key: &[char]) -> (r: Option<usize>)
        requires
            self.wf(),
        ensures
            match r {
                Some(i) => i < self.entries_view().len() && self.entries_view()[i as int].0 == key@,
                None => !has_key(self.entries_view(), key@),
            },
    {
        let i = self.lower_bound(key);
        if i < self.keys.len() {
            assert(self.keys@[i as int]@ == self.entries_view()[i as int].0);
            if order_chars(&self.keys[i], key) == 0 {
                return Some(i);
            }
        }
        proof {
            let ev = self.entries_view();
            if has_key(ev, key@) {
                let j = choose|j: int| 0 <= j < ev.len() && (#[trigger] ev[j]).0 == key@;
                lemma_chars_lt_asym(key@, key@);
                if j > i {
                    assert(chars_lt(ev[i as int].0, ev[j].0));
                    lemma_chars_lt_total(ev[i as int].0, key@);
                }
            }
        }
        None
    }

    /// The value stored for `key`.
    pub fn get(&self, key: &str) -> (r: Option<&V>)
        requires
            self.wf(),
        ensures
            match r {
                Some(v) => self.as_map().dom().contains(key@) && self.as_map()[key@] == *v,
                None => !self.as_map().dom().contains(key@),
            },
    {
        let k = str_chars(key);
        match self.find(&k) {
            Some(i) => {
                proof {
                    lemma_sorted_lookup(self.entries_view(), i as int);
                }
                Some(&self.entries[i].1)
            },
            None => None,
        }
    }

    /// Whether `key` has an entry.
    pub fn contains_key(&self, key: &str) -> (r: bool)
        requires
            self.wf(),
        ensures
            r == self.as_map().dom().contains(key@),
    {
        match self.get(key) {
            Some(_) => true,
            None => false,
        }
    }

    /// Sets the value for `key`, keeping entries in key order.
    pub fn insert(&mut self, key: String, value: V)
        requires
            old(self).wf(),
        ensures
            final(self).wf(),
            final(self).as_map() == old(self).as_map().insert(key@, value),
            final(self).entries_view().len() == old(self).entries_view().len() + if old(
                self,
            ).as_map().dom().contains(key@) {
                0int
            } else {
                1int
            },
    {
        let k = str_chars(key.as_str());
        let i = self.lower_bound(&k);
        let ghost ev = self.entries_view();
        let ghost kv = key@;
        let ghost new_ev: Seq<(Seq<char>, V)>;
        if i < self.keys.len() && order_chars(&self.keys[i], &k) == 0 {
            assert(self.keys@[i as int]@ == ev[i as int].0);
            self.entries.set(i, (key, value));
            proof {
                new_ev = self.entries@.map_values(|e: (String, V)| (e.0@, e.1));
                assert(new_ev =~= ev.update(i as int, (kv, value)));
                assert(keys_sorted(new_ev)) by {
                    assert forall|a: int, b: int| 0 <= a < b < new_ev.len() implies chars_lt(
                        #[trigger] new_ev[a].0,
                        #[trigger] new_ev[b].0,
                    ) by {
                        assert(chars_lt(ev[a].0, ev[b].0));
                    }
                }
            }
        } else {
            proof {
                if has_key(ev, kv) {
                    let j = choose|j: int| 0 <= j < ev.len() && (#[trigger] ev[j]).0 == kv;
                    lemma_chars_lt_asym(kv, kv);
                    if j > i {
                        assert(chars_lt(ev[i as int].0, ev[j].0));
                    }
                    if j == i {
                        assert(self.keys@[i as int]@ == ev[i as int].0);
                    }
                }
            }
            self.entries.insert(i, (key, value));
            self.keys.insert(i, k);
            proof {
                new_ev = self.entries@.map_values(|e: (String, V)| (e.0@, e.1));
                assert(new_ev =~= ev.insert(i as int, (kv, value)));
                if i < ev.len() {
                    lemma_chars_lt_total(ev[i as int].0, kv);
                    assert(chars_lt(kv, ev[i as int].0));
                }
                assert(keys_sorted(new_ev)) by {
                    assert forall|a: int, b: int| 0 <= a < b < new_ev.len() implies chars_lt(
                        #[trigger] new_ev[a].0,
                        #[trigger] new_ev[b].0,
                    ) by {
                        if b < i {
                            assert(chars_lt(ev[a].0, ev[b].0));
                        } else if b == i {
                            assert(chars_lt(ev[a].0, kv));
                        } else if a == i {
                            if b - 1 > i {
                                assert(chars_lt(ev[i as int].0, ev[b - 1].0));
                                lemma_chars_lt_trans(kv, ev[i as int].0, ev[b - 1].0);
                            }
                        } else if a < i {
                            assert(chars_lt(ev[a].0, kv));
                            if b - 1 > i {
                                assert(chars_lt(ev[i as int].0, ev[b - 1].0));
                                lemma_chars_lt_trans(kv, ev[i as int].0, ev[b - 1].0);
                            }
                            lemma_chars_lt_trans(ev[a].0, kv, ev[b - 1].0);
                        } else {
                            assert(chars_lt(ev[a - 1].0, ev[b - 1].0));
                        }
                    }
                }
                assert forall|j: int| 0 <= j < self.keys@.len() implies (#[trigger] self.keys@[j])@
                    == self.entries@[j].0@ by {
                    if j < i {
                        assert(self.keys@[j] == old(self).keys@[j]);
                    } else if j > i {
                        assert(self.keys@[j] == old(self).keys@[j - 1]);
                    }
                }
            }
        }
        proof {
            let m_old = seq_to_map(ev);
            let m_new = seq_to_map(new_ev);
            assert(new_ev == self.entries_view());
            assert(m_new =~= m_old.insert(kv, value)) by {
                assert forall|q: Seq<char>| #[trigger] m_new.dom().contains(q) <==> m_old.insert(
                    kv,
                    value,
                ).dom().contains(q) by {
                    if has_key(new_ev, q) {
                        let j = choose|j: int| 0 <= j < new_ev.len() && (#[trigger] new_ev[j]).0 == q;
                        if q != kv {
                            if self.entries@.len() > ev.len() {
                                if j < i {
                                    assert(ev[j].0 == q);
                                } else {
                                    assert(ev[j - 1].0 == q);
                                }
                            } else {
                                assert(ev[j].0 == q);
                            }
                        }
                    }
                    if m_old.dom().contains(q) {
                        let j = choose|j: int| 0 <= j < ev.len() && (#[trigger] ev[j]).0 == q;
                        if self.entries@.len() > ev.len() {
                            if j < i {
                                assert(new_ev[j].0 == q);
                            } else {
                                assert(new_ev[j + 1].0 == q);
                            }
                        } else {
                            assert(new_ev[j].0 == q);
                        }
                    }
                    if q == kv {
                        assert(new_ev[i as int].0 == kv);
                    }
                }
                assert forall|q: Seq<char>| #[trigger] m_new.dom().contains(q) implies m_new[q]
                    == m_old.insert(kv, value)[q] by {
                    let j = choose|j: int| 0 <= j < new_ev.len() && (#[trigger] new_ev[j]).0 == q;
                    lemma_sorted_lookup(new_ev, j);
                    if q == kv {
                        lemma_sorted_lookup(new_ev, i as int);
                    } else {
                        if self.entries@.len() > ev.len() {
                            if j < i {
                                lemma_sorted_lookup(ev, j);
                                assert(new_ev[j] == ev[j]);
                            } else {
                                assert(j != i);
                                lemma_sorted_lookup(ev, j - 1);
                                assert(new_ev[j] == ev[j - 1]);
                            }
                        } else {
                            assert(j != i);
                            lemma_sorted_lookup(ev, j);
                            assert(new_ev[j] == ev[j]);
                        }
                    }
                }
            }
        }
    }
    /// Removes the entry for `key`, returning its value.
    pub fn remove(&mut self, key: &str) -> (r: Option<V>)
        requires
            old(self).wf(),
        ensures
            final(self).wf(),
            final(self).as_map() == old(self).as_map().remove(key@),
            final(self).entries_view().len() == old(self).entries_view().len() - if old(
                self,
            ).as_map().dom().contains(key@) {
                1int
            } else {
                0int
            },
            match r {
                Some(v) => old(self).as_map().dom().contains(key@) && old(self).as_map()[key@] == v,
                None => !old(self).as_map().dom().contains(key@),
            },
    {
        let k = str_chars(key);
        match self.find(&k) {
            None => {
                proof {
                    assert(self.as_map().remove(key@) =~= self.as_map());
                }
                None
            },
            Some(i) => {
                let ghost ev = self.entries_view();
                proof {
                    lemma_sorted_lookup(ev, i as int);
                }
                let (_, v) = self.entries.remove(i);
                self.keys.remove(i);
                proof {
                    let nev = self.entries_view();
                    assert(nev =~= ev.remove(i as int));
                    assert forall|a: int, b: int| 0 <= a < b < nev.len() implies chars_lt(
                        #[trigger] nev[a].0,
                        #[trigger] nev[b].0,
                    ) by {
                        let a0 = if a < i { a } else { a + 1 };
                        let b0 = if b < i { b } else { b + 1 };
                        assert(nev[a] == ev[a0]);
                        assert(nev[b] == ev[b0]);
                    }
                    assert forall|j: int| 0 <= j < self.keys@.len() implies (#[trigger] self.keys@[j])@
                        == self.entries@[j].0@ by {
                        if j < i {
                            assert(self.keys@[j] == old(self).keys@[j]);
                        } else {
                            assert(self.keys@[j] == old(self).keys@[j + 1]);
                        }
                    }
                    let mo = seq_to_map(ev);
                    let mn = seq_to_map(nev);
                    assert(mn =~= mo.remove(key@)) by {
                        assert forall|q: Seq<char>| #[trigger] mn.dom().contains(q) <==> mo.remove(
                            key@,
                        ).dom().contains(q) by {
                            if has_key(nev, q) {
                                let j = choose|j: int| 0 <= j < nev.len() && (#[trigger] nev[j]).0 == q;
                                let j0 = if j < i { j } else { j + 1 };
                                assert(nev[j] == ev[j0]);
                                assert(ev[j0].0 == q);
                                if q == key@ {
                                    if j0 < i {
                                        assert(chars_lt(ev[j0].0, ev[i as int].0));
                                    } else {
                                        assert(chars_lt(ev[i as int].0, ev[j0].0));
                                    }
                                    lemma_chars_lt_asym(q, q);
                                }
                            }
                            if mo.dom().contains(q) && q != key@ {
                                let j = choose|j: int| 0 <= j < ev.len() && (#[trigger] ev[j]).0 == q;
                                assert(j != i);
                                let j1 = if j < i { j } else { j - 1 };
                                assert(nev[j1] == ev[j]);
                            }
                        }
                        assert forall|q: Seq<char>| #[trigger] mn.dom().contains(q) implies mn[q]
                            == mo.remove(key@)[q] by {
                            let j = choose|j: int| 0 <= j < nev.len() && (#[trigger] nev[j]).0 == q;
                            let j0 = if j < i { j } else { j + 1 };
                            assert(nev[j] == ev[j0]);
                            lemma_sorted_lookup(nev, j);
                            lemma_sorted_lookup(ev, j0);
                        }
                    }
                }
                Some(v)
            },
        }
    }

    /// Keeps the entries whose flag is set, in order.
    pub fn retain_flagged(&mut self, keep: &Vec<bool>)
        requires
            old(self).wf(),
            keep@.len() == old(self).entries_view().len(),
        ensures
            final(self).wf(),
            final(self).entries_view() == flagged(old(self).entries_view(), keep@),
    {
        let ghost ev = self.entries_view();
        let n = self.entries.len();
        let mut old_entries: Vec<(String, V)> = Vec::new();
        let mut old_keys: Vec<Vec<char>> = Vec::new();
        std::mem::swap(&mut old_entries, &mut self.entries);
        std::mem::swap(&mut old_keys, &mut self.keys);
        let ghost oe = old_entries@;
        let ghost ok = old_keys@;
        let mut i: usize = 0;
        proof {
            assert(self.entries_view() =~= Seq::<(Seq<char>, V)>::empty());
        }
        while old_entries.len() > 0
            invariant
                i + old_entries@.len() == n,
                n == ev.len(),
                keep@.len() == n,
                oe.len() == n,
                ok.len() == n,
                ev == oe.map_values(|e: (String, V)| (e.0@, e.1)),
                forall|j: int| 0 <= j < n ==> (#[trigger] ok[j])@ == oe[j].0@,
                keys_sorted(ev),
                old_entries@ == oe.subrange(i as int, n as int),
                old_keys@ == ok.subrange(i as int, n as int),
                self.keys@.len() == self.entries@.len(),
                forall|j: int| 0 <= j < self.keys@.len() ==> (#[trigger] self.keys@[j])@ == self.entries@[j].0@,
                self.entries_view() == flagged(ev.take(i as int), keep@.take(i as int)),
            decreases old_entries@.len(),
        {
            let e = old_entries.remove(0);
            let k = old_keys.remove(0);
            let ghost before = self.entries_view();
            proof {
                assert(ev.take(i + 1).drop_last() =~= ev.take(i as int));
                assert(keep@.take(i + 1).drop_last() =~= keep@.take(i as int));
                assert(ev.take(i + 1).last() == ev[i as int]);
                assert(e == oe[i as int]);
                assert(k == ok[i as int]);
            }
            if keep[i] {
                self.entries.push(e);
                self.keys.push(k);
                proof {
                    assert(self.entries_view() =~= before.push(ev[i as int]));
                }
            }
            i = i + 1;
            proof {
                assert(old_entries@ =~= oe.subrange(i as int, n as int));
                assert(old_keys@ =~= ok.subrange(i as int, n as int));
            }
        }
        proof {
            assert(ev.take(n as int) =~= ev);
            assert(keep@.take(n as int) =~= keep@);
            lemma_flagged_sorted(ev, keep@);
        }
    }

    /// Removes every entry.
    pub fn clear(&mut self)
        ensures
            final(self).wf(),
            final(self).entries_view() == Seq::<(Seq<char>, V)>::empty(),
            final(self).as_map() == Map::<Seq<char>, V>::empty(),
    {
        *self = Self::new();
        assert(self.as_map() =~= Map::<Seq<char>, V>::empty());
    }

}

impl StrMap<String> {
    /// A copy of the map, every key and text cloned.
    pub fn clone_strings(&self) -> (r: Self)
        requires
            self.wf(),
        ensures
            r.wf(),
            string_map_view(r.as_map()) == string_map_view(self.as_map()),
    {
        let n = self.entries.len();
        let mut keys: Vec<Vec<char>> = Vec::new();
        let mut entries: Vec<(String, String)> = Vec::new();
        let mut i: usize = 0;
        while i < n
            invariant
                i <= n,
                n == self.entries@.len(),
                self.wf(),
                keys@.len() == i,
                entries@.len() == i,
                forall|j: int| 0 <= j < i ==> (#[trigger] keys@[j])@ == self.entries@[j].0@,
                forall|j: int|
                    0 <= j < i ==> (#[trigger] entries@[j]).0@ == self.entries@[j].0@
                        && entries@[j].1@ == self.entries@[j].1@,
            decreases n - i,
        {
            let e = &self.entries[i];
            keys.push(str_chars(e.0.as_str()));
            entries.push((e.0.clone(), e.1.clone()));
            i = i + 1;
        }
        let r = StrMap { keys, entries };
        proof {
            let a = self.entries_view();
            let b = r.entries_view();
            assert forall|j: int| 0 <= j < b.len() implies b[j].0 == a[j].0 && b[j].1@ == a[j].1@ by {}
            assert(keys_sorted(b));
            assert forall|k: Seq<char>| has_key(a, k) <==> has_key(b, k) by {
                if has_key(a, k) {
                    let j = choose|j: int| 0 <= j < a.len() && (#[trigger] a[j]).0 == k;
                    assert(b[j].0 == k);
                }
                if has_key(b, k) {
                    let j = choose|j: int| 0 <= j < b.len() && (#[trigger] b[j]).0 == k;
                    assert(a[j].0 == k);
                }
            }
            assert forall|k: Seq<char>| #[trigger] r.as_map().dom().contains(k) implies r.as_map()[k]@
                == self.as_map()[k]@ by {
                let j = choose|j: int| 0 <= j < b.len() && (#[trigger] b[j]).0 == k;
                lemma_sorted_lookup(a, j);
                lemma_sorted_lookup(b, j);
            }
            assert(string_map_view(r.as_map()) =~= string_map_view(self.as_map()));
        }
        r
    }
}

} // verus!
