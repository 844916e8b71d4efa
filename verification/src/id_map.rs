//! A map from text keys (`slot:phase` or `SHARED:phase`) to job identifiers,
//! kept as a list of entries with distinct keys.

use vstd::prelude::*;
use crate::ids::JobId;
use crate::string_map::str_eq;

verus! {

/// Map from text keys to job identifiers; no key occurs twice.
#[derive(Debug)]
pub struct JobIdMap {
    entries: Vec<(String, JobId)>,
}

/// The keys of a list of entries, in order.
pub open spec fn id_entry_keys(s: Seq<(String, JobId)>) -> Seq<Seq<char>> {
    s.map_values(|e: (String, JobId)| e.0@)
}

/// The identifier stored under `k` (the last one, should a key occur twice;
/// in a `JobIdMap` it never does).
pub open spec fn id_lookup(s: Seq<(String, JobId)>, k: Seq<char>) -> Option<JobId>
    decreases s.len(),
{
    if s.len() == 0 {
        None
    } else if s.last().0@ == k {
        Some(s.last().1)
    } else {
        id_lookup(s.drop_last(), k)
    }
}

/// The map that a list of entries stands for.
pub open spec fn id_entries_map(s: Seq<(String, JobId)>) -> Map<Seq<char>, JobId> {
    Map::new(|k: Seq<char>| id_lookup(s, k) is Some, |k: Seq<char>| id_lookup(s, k)->0)
}

/// With distinct keys, the entry at `i` is what a lookup of its key finds.
proof fn lemma_lookup_index(s: Seq<(String, JobId)>, i: int)
    requires
        id_entry_keys(s).no_duplicates(),
        0 <= i < s.len(),
    ensures
        id_lookup(s, s[i].0@) == Some(s[i].1),
    decreases s.len(),
{
    if i != s.len() - 1 {
        let t = s.drop_last();
        assert(id_entry_keys(t) =~= id_entry_keys(s).drop_last());
        assert(id_entry_keys(s)[i] != id_entry_keys(s)[s.len() - 1]);
        assert(t[i] == s[i]);
        lemma_lookup_index(t, i);
    }
}

/// A key that no entry has is not found.
proof fn lemma_lookup_absent(s: Seq<(String, JobId)>, k: Seq<char>)
    requires
        forall|i: int| 0 <= i < s.len() ==> #[trigger] s[i].0@ != k,
    ensures
        id_lookup(s, k) is None,
    decreases s.len(),
{
    if s.len() > 0 {
        let t = s.drop_last();
        assert(s.last() == s[s.len() - 1]);
        assert forall|i: int| 0 <= i < t.len() implies #[trigger] t[i].0@ != k by {
            assert(t[i] == s[i]);
        }
        lemma_lookup_absent(t, k);
    }
}

/// Entry lists with the same texts find the same values.
proof fn lemma_lookup_same(a: Seq<(String, JobId)>, b: Seq<(String, JobId)>, k: Seq<char>)
    requires
        a.len() == b.len(),
        forall|j: int| 0 <= j < a.len() ==> #[trigger] a[j].0@ == b[j].0@ && a[j].1 == b[j].1,
    ensures
        id_lookup(a, k) == id_lookup(b, k),
    decreases a.len(),
{
    if a.len() > 0 {
        assert(a.last().0@ == b.last().0@ && a.last().1 == b.last().1) by {
            assert(a[a.len() - 1].0@ == b[b.len() - 1].0@);
        }
        let (ta, tb) = (a.drop_last(), b.drop_last());
        assert forall|j: int| 0 <= j < ta.len() implies #[trigger] ta[j].0@ == tb[j].0@ && ta[j].1 == tb[j].1 by {
            assert(ta[j] == a[j] && tb[j] == b[j]);
        }
        lemma_lookup_same(ta, tb, k);
    }
}

/// Whether some entry has key `k`.
pub open spec fn id_has_key(s: Seq<(String, JobId)>, k: Seq<char>) -> bool {
    exists|i: int| 0 <= i < s.len() && #[trigger] s[i].0@ == k
}

/// Lookup in terms of positions.
proof fn lemma_id_lookup(s: Seq<(String, JobId)>, k: Seq<char>)
    requires
        id_entry_keys(s).no_duplicates(),
    ensures
        id_has_key(s, k) ==> (id_lookup(s, k) == Some(s[choose|i: int| 0 <= i < s.len() && #[trigger] s[i].0@ == k].1@)),
        !id_has_key(s, k) ==> id_lookup(s, k) is None,
{
    if id_has_key(s, k) {
        let i = choose|i: int| 0 <= i < s.len() && #[trigger] s[i].0@ == k;
        lemma_lookup_index(s, i);
    } else {
        lemma_lookup_absent(s, k);
    }
}

impl JobIdMap {
    #[verifier::type_invariant]
    spec fn keys_distinct(self) -> bool {
        id_entry_keys(self.entries@).no_duplicates()
    }

    /// The entries, in insertion order.
    pub closed spec fn entry_seq(self) -> Seq<(String, JobId)> {
        self.entries@
    }

    /// The keys, in insertion order.
    pub open spec fn keys(self) -> Seq<Seq<char>> {
        id_entry_keys(self.entry_seq())
    }

    /// Creates an empty map.
    pub fn new() -> (m: JobIdMap)
        ensures
            m@ == Map::<Seq<char>, JobId>::empty(),
            m.keys().len() == 0,
    {
        let m = JobIdMap { entries: Vec::new() };
        assert(m@ =~= Map::<Seq<char>, JobId>::empty()) by {
            assert forall|k: Seq<char>| !(id_lookup(m.entries@, k) is Some) by {
                lemma_lookup_absent(m.entries@, k);
            }
        }
        m
    }

    /// Position of `key` among the entries, if present.
    fn find(&self, key: &str) -> (r: Option<usize>)
        ensures
            match r {
                Some(i) => i < self.entries@.len() && self.entries@[i as int].0@ == key@,
                None => forall|i: int| 0 <= i < self.entries@.len() ==> #[trigger] self.entries@[i].0@ != key@,
            },
    {
        let mut i: usize = 0;
        while i < self.entries.len()
            invariant
                i <= self.entries@.len(),
                forall|j: int| 0 <= j < i ==> #[trigger] self.entries@[j].0@ != key@,
            decreases self.entries@.len() - i,
        {
            let k = self.entries[i].0.as_str();
            if str_eq(k, key) {
                return Some(i);
            }
            i = i + 1;
        }
        None
    }

    /// Looks a key up.
    pub fn get(&self, key: &str) -> (r: Option<JobId>)
        ensures
            self@.contains_key(key@) <==> r is Some,
            r matches Some(v) ==> v == self@[key@],
    {
        proof { use_type_invariant(self); }
        match self.find(key) {
            Some(i) => {
                proof { self.lemma_index_value(i as int); }
                Some(self.entries[i].1)
            },
            None => {
                proof { lemma_lookup_absent(self.entries@, key@); }
                None
            },
        }
    }

    /// Whether a key is present.
    pub fn contains_key(&self, key: &str) -> (b: bool)
        ensures
            b == self@.contains_key(key@),
    {
        proof { use_type_invariant(self); }
        match self.find(key) {
            Some(i) => {
                proof { self.lemma_index_value(i as int); }
                true
            },
            None => {
                proof { lemma_lookup_absent(self.entries@, key@); }
                false
            },
        }
    }

    /// Number of entries (distinct keys).
    pub fn len(&self) -> (n: usize)
        ensures
            n == self@.len(),
            n == self.keys().len(),
    {
        proof { use_type_invariant(self); self.lemma_len(); }
        self.entries.len()
    }

    /// Whether the map has no entry.
    pub fn is_empty(&self) -> (b: bool)
        ensures
            b == (self@.len() == 0),
    {
        proof { use_type_invariant(self); self.lemma_len(); }
        self.entries.len() == 0
    }

    /// Inserts or replaces the value of a key.
    pub fn insert(&mut self, key: String, value: JobId)
        ensures
            final(self)@ == old(self)@.insert(key@, value),
    {
        proof { use_type_invariant(&*self); }
        let found = self.find(key.as_str());
        let mut entries: Vec<(String, JobId)> = Vec::new();
        std::mem::swap(&mut entries, &mut self.entries);
        let ghost before = entries@;
        let ghost kk = key@;
        let ghost vv = value;
        match found {
            Some(i) => {
                entries.set(i, (key, value));
                proof {
                    assert(id_entry_keys(entries@) =~= id_entry_keys(before));
                }
            },
            None => {
                entries.push((key, value));
                proof {
                    assert(id_entry_keys(entries@) =~= id_entry_keys(before).push(kk));
                }
            },
        }
        proof {
            let after = entries@;
            assert forall|k: Seq<char>| id_lookup(after, k) == (if k == kk { Some(vv) } else { id_lookup(before, k) }) by {
                lemma_id_lookup(before, k);
                lemma_id_lookup(after, k);
                if k == kk {
                    match found {
                        Some(i) => { lemma_lookup_index(after, i as int); },
                        None => { lemma_lookup_index(after, before.len() as int); },
                    }
                } else if id_has_key(before, k) {
                    let j = choose|j: int| 0 <= j < before.len() && #[trigger] before[j].0@ == k;
                    assert(after[j] == before[j]);
                    lemma_lookup_index(after, j);
                    lemma_lookup_index(before, j);
                } else {
                    assert forall|j: int| 0 <= j < after.len() implies #[trigger] after[j].0@ != k by {
                        if j < before.len() {
                            match found {
                                Some(i) => { if j != i { assert(after[j] == before[j]); } },
                                None => { assert(after[j] == before[j]); },
                            }
                        }
                    }
                    lemma_lookup_absent(after, k);
                }
            }
            assert(id_entries_map(after) =~= id_entries_map(before).insert(kk, vv));
        }
        self.entries = entries;
    }

    /// A copy of this map.
    pub fn duplicate(&self) -> (r: JobIdMap)
        ensures
            r@ == self@,
            r.keys() == self.keys(),
    {
        proof { use_type_invariant(self); }
        let mut entries: Vec<(String, JobId)> = Vec::new();
        let mut i: usize = 0;
        while i < self.entries.len()
            invariant
                i <= self.entries@.len(),
                entries@.len() == i,
                forall|j: int| 0 <= j < i ==> #[trigger] entries@[j].0@ == self.entries@[j].0@
                    && entries@[j].1 == self.entries@[j].1,
            decreases self.entries@.len() - i,
        {
            let k = self.entries[i].0.clone();
            let v = self.entries[i].1;
            entries.push((k, v));
            i = i + 1;
        }
        proof {
            assert(id_entry_keys(entries@) =~= id_entry_keys(self.entries@));
            assert forall|k: Seq<char>| #[trigger] id_lookup(entries@, k) == id_lookup(self.entries@, k) by {
                lemma_lookup_same(entries@, self.entries@, k);
            }
            assert(id_entries_map(entries@) =~= id_entries_map(self.entries@));
        }
        JobIdMap { entries }
    }

    /// Key and value of the `i`-th entry, in insertion order.
    pub fn entry_at(&self, i: usize) -> (r: (&String, JobId))
        requires
            i < self.keys().len(),
        ensures
            r.0@ == self.keys()[i as int],
            self@.contains_key(r.0@),
            self@[r.0@] == r.1,
    {
        proof {
            use_type_invariant(self);
            self.lemma_index_value(i as int);
        }
        (&self.entries[i].0, self.entries[i].1)
    }

    proof fn lemma_index_value(&self, i: int)
        requires
            id_entry_keys(self.entries@).no_duplicates(),
            0 <= i < self.entries@.len(),
        ensures
            self@.contains_key(self.entries@[i].0@),
            self@[self.entries@[i].0@] == self.entries@[i].1,
    {
        lemma_lookup_index(self.entries@, i);
    }

    proof fn lemma_len(&self)
        requires
            id_entry_keys(self.entries@).no_duplicates(),
        ensures
            self@.len() == self.entries@.len(),
    {
        let ks = id_entry_keys(self.entries@);
        ks.unique_seq_to_set();
        assert(self@.dom() =~= ks.to_set()) by {
            assert forall|k: Seq<char>| self@.dom().contains(k) implies ks.to_set().contains(k) by {
                lemma_id_lookup(self.entries@, k);
                let j = choose|j: int| 0 <= j < self.entries@.len() && #[trigger] self.entries@[j].0@ == k;
                assert(ks[j] == k);
            }
            assert forall|k: Seq<char>| ks.to_set().contains(k) implies self@.dom().contains(k) by {
                let j = choose|j: int| 0 <= j < ks.len() && ks[j] == k;
                assert(self.entries@[j].0@ == k);
                lemma_lookup_index(self.entries@, j);
            }
        }
    }
}

impl View for JobIdMap {
    type V = Map<Seq<char>, JobId>;

    closed spec fn view(&self) -> Map<Seq<char>, JobId> {
        id_entries_map(self.entries@)
    }
}

} // verus!
