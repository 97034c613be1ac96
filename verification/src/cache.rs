//! The cache policy of a fetching font resolver.
//!
//! Every family name the resolver has asked the host fetcher for gets an
//! entry recording why: a usable face (`Hit`), no bytes from the host
//! (`Missing`, a soft negative the host can clear after adding font
//! sources), or bytes that did not parse (`ParseFail`, a hard negative
//! cleared only by forgetting the name). The cache holds at most
//! [`MAX_CACHE_ENTRIES`] names; when full, new results are still
//! returned but not stored.
use vstd::prelude::*;

use crate::strmap::{flagged, StrMap};
use crate::strs::str_to_string;

verus! {

/// Most names the cache holds.
pub const MAX_CACHE_ENTRIES: usize = 1024;

/// Why a name is in the cache.
#[derive(Clone, Debug)]
pub enum CacheEntry<T> {
    /// The fetched bytes parsed into a usable face.
    Hit(T),
    /// The host had no bytes for the name.
    Missing,
    /// The host's bytes did not parse, or the fetcher failed.
    ParseFail,
}

impl<T: Clone> CacheEntry<T> {
    /// The face a cached entry resolves to: a clone of the hit's face,
    /// `None` for either negative.
    pub fn as_face(&self) -> (r: Option<T>)
        ensures
            r is Some <==> self is Hit,
            r matches Some(f) ==> *self matches CacheEntry::Hit(g) && cloned::<T>(g, f),
    {
        match self {
            CacheEntry::Hit(f) => Some(f.clone()),
            _ => None,
        }
    }

    /// Whether the entry records a missing font.
    pub fn is_missing(&self) -> (r: bool)
        ensures
            r == (self is Missing),
    {
        match self {
            CacheEntry::Missing => true,
            _ => false,
        }
    }
}

/// What one fetch attempt gave.
#[derive(Clone, Debug)]
pub enum FetchOutcome<T> {
    /// The fetcher panicked.
    Panicked,
    /// The fetcher returned no bytes.
    NoBytes,
    /// The fetcher returned bytes; the first face they parse into, if
    /// any.
    Parsed(Option<T>),
}

/// The entry a fetch attempt records.
pub open spec fn entry_for<T>(o: FetchOutcome<T>) -> CacheEntry<T> {
    match o {
        FetchOutcome::Panicked => CacheEntry::ParseFail,
        FetchOutcome::NoBytes => CacheEntry::Missing,
        FetchOutcome::Parsed(Some(face)) => CacheEntry::Hit(face),
        FetchOutcome::Parsed(None) => CacheEntry::ParseFail,
    }
}

/// How many entries of `s` record a missing font.
pub open spec fn missing_in<T>(s: Seq<(Seq<char>, CacheEntry<T>)>) -> nat
    decreases s.len(),
{
    if s.len() == 0 {
        0
    } else {
        missing_in(s.drop_last()) + if s.last().1 is Missing {
            1nat
        } else {
            0nat
        }
    }
}

/// How many entries of `s` record a parse failure.
pub open spec fn parse_fails_in<T>(s: Seq<(Seq<char>, CacheEntry<T>)>) -> nat
    decreases s.len(),
{
    if s.len() == 0 {
        0
    } else {
        parse_fails_in(s.drop_last()) + if s.last().1 is ParseFail {
            1nat
        } else {
            0nat
        }
    }
}

/// The flags that keep every entry but the missing ones.
pub open spec fn not_missing_flags<T>(s: Seq<(Seq<char>, CacheEntry<T>)>) -> Seq<bool> {
    s.map_values(|e: (Seq<char>, CacheEntry<T>)| !(e.1 is Missing))
}

/// What a lookup of a name does next.
pub enum CacheStep<T> {
    /// The name is cached: this is the answer, and nothing is fetched.
    Cached(Option<T>),
    /// The name is not cached: fetch it, then record the outcome.
    Fetch,
}

/// Resolution results by family name.
pub struct FontCache<T> {
    entries: StrMap<CacheEntry<T>>,
}

impl<T> FontCache<T> {
    /// The cached entries, by name.
    pub closed spec fn map(&self) -> Map<Seq<char>, CacheEntry<T>> {
        self.entries.as_map()
    }

    /// The cached entries in ascending name order.
    pub closed spec fn entries(&self) -> Seq<(Seq<char>, CacheEntry<T>)> {
        self.entries.entries_view()
    }

    /// The table is well formed and within its bound.
    pub closed spec fn wf(&self) -> bool {
        &&& self.entries.wf()
        &&& self.entries.entries_view().len() <= MAX_CACHE_ENTRIES
    }

    /// The entries list each name of the map once.
    pub proof fn lemma_entries_match_map(&self)
        requires
            self.wf(),
        ensures
            forall|i: int|
                0 <= i < self.entries().len() ==> self.map().dom().contains(#[trigger] self.entries()[i].0)
                    && self.map()[self.entries()[i].0] == self.entries()[i].1,
    {
        assert forall|i: int| 0 <= i < self.entries().len() implies self.map().dom().contains(
            #[trigger] self.entries()[i].0,
        ) && self.map()[self.entries()[i].0] == self.entries()[i].1 by {
            self.entries.lemma_sorted();
            crate::strmap::lemma_sorted_lookup(self.entries.entries_view(), i);
        }
    }

    /// An empty cache.
    pub fn new() -> (r: Self)
        ensures
            r.wf(),
            r.entries() == Seq::<(Seq<char>, CacheEntry<T>)>::empty(),
    {
        FontCache { entries: StrMap::new() }
    }

    /// Number of cached names, hits and negatives alike.
    pub fn len(&self) -> (r: usize)
        requires
            self.wf(),
        ensures
            r == self.entries().len(),
            r <= MAX_CACHE_ENTRIES,
    {
        self.entries.len()
    }

    /// The entry cached for `name`, if any.
    pub fn lookup(&self, name: &str) -> (r: Option<&CacheEntry<T>>)
        requires
            self.wf(),
        ensures
            match r {
                Some(e) => self.map().dom().contains(name@) && self.map()[name@] == *e,
                None => !self.map().dom().contains(name@),
            },
    {
        self.entries.get(name)
    }

    /// What a resolver does for `name`: answer from the cache when the
    /// name is cached (a hit gives a clone of its face, a recorded
    /// failure gives no face, and nothing is fetched), fetch otherwise.
    pub fn step(&self, name: &str) -> (r: CacheStep<T>) where T: Clone
        requires
            self.wf(),
        ensures
            match r {
                CacheStep::Cached(answer) => {
                    &&& self.map().dom().contains(name@)
                    &&& (answer is Some <==> self.map()[name@] is Hit)
                    &&& (answer matches Some(f) ==> self.map()[name@] matches CacheEntry::Hit(g)
                        && cloned::<T>(g, f))
                },
                CacheStep::Fetch => !self.map().dom().contains(name@),
            },
    {
        match self.entries.get(name) {
            Some(entry) => CacheStep::Cached(entry.as_face()),
            None => CacheStep::Fetch,
        }
    }

    /// Records the result of fetching `name`, unless the cache is full,
    /// and returns (a clone of) the face it resolves to.
    pub fn record(&mut self, name: &str, outcome: FetchOutcome<T>) -> (r: Option<T>) where T: Clone
        requires
            old(self).wf(),
        ensures
            final(self).wf(),
            r is Some <==> entry_for(outcome) is Hit,
            r matches Some(f) ==> entry_for(outcome) matches CacheEntry::Hit(g) && cloned::<T>(g, f),
            final(self).map() == if old(self).entries().len() < MAX_CACHE_ENTRIES
                || old(self).map().dom().contains(name@) {
                old(self).map().insert(name@, entry_for(outcome))
            } else {
                old(self).map()
            },
    {
        let entry = match outcome {
            FetchOutcome::Panicked => CacheEntry::ParseFail,
            FetchOutcome::NoBytes => CacheEntry::Missing,
            FetchOutcome::Parsed(Some(face)) => CacheEntry::Hit(face),
            FetchOutcome::Parsed(None) => CacheEntry::ParseFail,
        };
        let face = match &entry {
            CacheEntry::Hit(f) => Some(f.clone()),
            _ => None,
        };
        let present = self.entries.contains_key(name);
        if self.entries.len() < MAX_CACHE_ENTRIES || present {
            self.entries.insert(str_to_string(name), entry);
        }
        face
    }

    /// Number of names cached as missing.
    pub fn missing_count(&self) -> (r: usize)
        requires
            self.wf(),
        ensures
            r == missing_in(self.entries()),
    {
        let ghost ev = self.entries();
        let n = self.entries.len();
        let mut c: usize = 0;
        let mut i: usize = 0;
        assert(ev.take(0) =~= Seq::<(Seq<char>, CacheEntry<T>)>::empty());
        while i < n
            invariant
                i <= n,
                n == ev.len(),
                n <= MAX_CACHE_ENTRIES,
                ev == self.entries(),
                self.wf(),
                c == missing_in(ev.take(i as int)),
                c <= i,
            decreases n - i,
        {
            let (_, e) = self.entries.entry_at(i);
            proof {
                assert(ev.take(i + 1).drop_last() =~= ev.take(i as int));
                assert(ev.take(i + 1).last() == ev[i as int]);
            }
            match e {
                CacheEntry::Missing => {
                    c = c + 1;
                },
                _ => {},
            }
            i = i + 1;
        }
        assert(ev.take(n as int) =~= ev);
        c
    }

    /// Number of names cached as parse failures.
    pub fn parse_fail_count(&self) -> (r: usize)
        requires
            self.wf(),
        ensures
            r == parse_fails_in(self.entries()),
    {
        let ghost ev = self.entries();
        let n = self.entries.len();
        let mut c: usize = 0;
        let mut i: usize = 0;
        assert(ev.take(0) =~= Seq::<(Seq<char>, CacheEntry<T>)>::empty());
        while i < n
            invariant
                i <= n,
                n == ev.len(),
                n <= MAX_CACHE_ENTRIES,
                ev == self.entries(),
                self.wf(),
                c == parse_fails_in(ev.take(i as int)),
                c <= i,
            decreases n - i,
        {
            let (_, e) = self.entries.entry_at(i);
            proof {
                assert(ev.take(i + 1).drop_last() =~= ev.take(i as int));
                assert(ev.take(i + 1).last() == ev[i as int]);
            }
            match e {
                CacheEntry::ParseFail => {
                    c = c + 1;
                },
                _ => {},
            }
            i = i + 1;
        }
        assert(ev.take(n as int) =~= ev);
        c
    }

    /// Drops every entry.
    pub fn clear(&mut self)
        requires
            old(self).wf(),
        ensures
            final(self).wf(),
            final(self).entries() == Seq::<(Seq<char>, CacheEntry<T>)>::empty(),
            final(self).map() == Map::<Seq<char>, CacheEntry<T>>::empty(),
    {
        self.entries.clear();
    }

    /// Drops the missing entries only, so those names are fetched again;
    /// parse failures stay.
    pub fn clear_negative(&mut self)
        requires
            old(self).wf(),
        ensures
            final(self).wf(),
            final(self).entries() == flagged(old(self).entries(), not_missing_flags(old(self).entries())),
    {
        let ghost ev = self.entries();
        let n = self.entries.len();
        let mut keep: Vec<bool> = Vec::new();
        let mut i: usize = 0;
        while i < n
            invariant
                i <= n,
                n == ev.len(),
                ev == self.entries(),
                self.wf(),
                keep@ == not_missing_flags(ev).take(i as int),
            decreases n - i,
        {
            let (_, e) = self.entries.entry_at(i);
            let k = match e {
                CacheEntry::Missing => false,
                _ => true,
            };
            keep.push(k);
            assert(keep@ =~= not_missing_flags(ev).take(i + 1));
            i = i + 1;
        }
        assert(not_missing_flags(ev).take(n as int) =~= not_missing_flags(ev));
        self.entries.retain_flagged(&keep);
        proof {
            lemma_flagged_len(ev, not_missing_flags(ev));
        }
    }

    /// Drops the entry for `name`, so it is fetched again; whether there
    /// was one.
    pub fn forget(&mut self, name: &str) -> (r: bool)
        requires
            old(self).wf(),
        ensures
            final(self).wf(),
            r == old(self).map().dom().contains(name@),
            final(self).map() == old(self).map().remove(name@),
    {
        let removed = self.entries.remove(name);
        removed.is_some()
    }
}

/// Clearing the negative cache leaves no missing entry and keeps every
/// parse failure.
pub proof fn law_clear_negative_counts<T>(s: Seq<(Seq<char>, CacheEntry<T>)>)
    ensures
        missing_in(flagged(s, not_missing_flags(s))) == 0,
        parse_fails_in(flagged(s, not_missing_flags(s))) == parse_fails_in(s),
    decreases s.len(),
{
    if s.len() > 0 {
        let prev = s.drop_last();
        assert(not_missing_flags(s).drop_last() =~= not_missing_flags(prev));
        law_clear_negative_counts(prev);
        let r = flagged(prev, not_missing_flags(prev));
        if !(s.last().1 is Missing) {
            assert(r.push(s.last()).drop_last() =~= r);
        }
    }
}

proof fn lemma_flagged_len<V>(s: Seq<(Seq<char>, V)>, keep: Seq<bool>)
    ensures
        crate::strmap::flagged(s, keep).len() <= s.len(),
    decreases s.len(),
{
    if s.len() > 0 && keep.len() > 0 {
        lemma_flagged_len(s.drop_last(), keep.drop_last());
    }
}

/// Once a failed fetch (no bytes, unparsable bytes, a panicking fetch)
/// of `name` is recorded into a cache that had room for it (the state
/// `after` that [`FontCache::record`] leaves), the name is cached and
/// its entry gives no face: [`FontCache::step`] then answers
/// `Cached(None)` without asking for a fetch.
pub proof fn law_recorded_failure_is_cached<T>(
    before: FontCache<T>,
    after: FontCache<T>,
    name: Seq<char>,
    outcome: FetchOutcome<T>,
)
    requires
        before.wf(),
        after.wf(),
        !(outcome matches FetchOutcome::Parsed(Some(_))),
        before.entries().len() < MAX_CACHE_ENTRIES || before.map().dom().contains(name),
        after.map() == before.map().insert(name, entry_for(outcome)),
    ensures
        after.map().dom().contains(name),
        !(after.map()[name] is Hit),
{
}

/// Every cache the operations produce holds at most
/// [`MAX_CACHE_ENTRIES`] names.
pub proof fn law_cache_bounded<T>(c: FontCache<T>)
    requires
        c.wf(),
    ensures
        c.entries().len() <= MAX_CACHE_ENTRIES,
        c.map().dom().len() == c.entries().len(),
{
    c.entries.lemma_len();
}

} // verus!
