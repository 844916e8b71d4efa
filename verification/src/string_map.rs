//! A small map from text keys to text values, kept as a list of entries with
//! distinct keys. It stands for the `label -> serial number` maps of units.

use vstd::prelude::*;

verus! {

/// Map from keys to values; no key occurs twice.
#[derive(Debug)]
pub struct StringMap {
    entries: Vec<(String, String)>,
}

/// The keys of a list of entries, in order.
pub open spec fn entry_keys(s: Seq<(String, String)>) -> Seq<Seq<char>> {
    s.map_values(|e: (String, String)| e.0@)
}

/// The value stored under `k` in a list of entries (the last one, should a
/// key occur twice; in a `StringMap` it never does).
pub open spec fn lookup(s: Seq<(String, String)>, k: Seq<char>) -> Option<Seq<char>>
    decreases s.len(),
{
    if s.len() == 0 {
        None
    } else if s.last().0@ == k {
        Some(s.last().1@)
    } else {
        lookup(s.drop_last(), k)
    }
}

/// The map that a list of entries stands for.
pub open spec fn entries_map(s: Seq<(String, String)>) -> Map<Seq<char>, Seq<char>> {
    Map::new(|k: Seq<char>| lookup(s, k) is Some, |k: Seq<char>| lookup(s, k)->0)
}

/// With distinct keys, the entry at `i` is what a lookup of its key finds.
pub proof fn lemma_lookup_index(s: Seq<(String, String)>, i: int)
    requires
        entry_keys(s).no_duplicates(),
        0 <= i < s.len(),
    ensures
        lookup(s, s[i].0@) == Some(s[i].1@),
    decreases s.len(),
{
    if i != s.len() - 1 {
        let t = s.drop_last();
        assert(entry_keys(t) =~= entry_keys(s).drop_last());
        assert(entry_keys(s)[i] != entry_keys(s)[s.len() - 1]);
        assert(t[i] == s[i]);
        lemma_lookup_index(t, i);
    }
}

/// A key that no entry has is not found.
pub proof fn lemma_lookup_absent(s: Seq<(String, String)>, k: Seq<char>)
    requires
        forall|i: int| 0 <= i < s.len() ==> #[trigger] s[i].0@ != k,
    ensures
        lookup(s, k) is None,
    decreases s.len(),
{
    if s.len() > 0 {
        let t = s.drop_last();
        assert(s.last() == s[s.len() - 1]);
        assert forall|i: int| 0 <= i < t.len() implies #[trigger] t[i].0@ != k by {
            assert(t[i] == s[i]);
        }
        lemma_lookup_absent(t, k);
    }
}

/// Entry lists with the same texts find the same values.
proof fn lemma_lookup_same(a: Seq<(String, String)>, b: Seq<(String, String)>, k: Seq<char>)
    requires
        a.len() == b.len(),
        forall|j: int| 0 <= j < a.len() ==> #[trigger] a[j].0@ == b[j].0@ && a[j].1@ == b[j].1@,
    ensures
        lookup(a, k) == lookup(b, k),
    decreases a.len(),
{
    if a.len() > 0 {
        assert(a.last().0@ == b.last().0@ && a.last().1@ == b.last().1@) by {
            assert(a[a.len() - 1].0@ == b[b.len() - 1].0@);
        }
        let (ta, tb) = (a.drop_last(), b.drop_last());
        assert forall|j: int| 0 <= j < ta.len() implies #[trigger] ta[j].0@ == tb[j].0@ && ta[j].1@ == tb[j].1@ by {
            assert(ta[j] == a[j] && tb[j] == b[j]);
        }
        lemma_lookup_same(ta, tb, k);
    }
}

/// Adding an entry at the end maps its key to its value.
pub proof fn lemma_entries_map_push(s: Seq<(String, String)>, e: (String, String))
    ensures
        entries_map(s.push(e)) == entries_map(s).insert(e.0@, e.1@),
{
    assert forall|k: Seq<char>| lookup(s.push(e), k) == (if k == e.0@ { Some(e.1@) } else { lookup(s, k) }) by {
        assert(s.push(e).drop_last() =~= s);
    }
    assert(entries_map(s.push(e)) =~= entries_map(s).insert(e.0@, e.1@));
}

/// The entries of `m` whose value differs from what `input` holds for the
/// key.
pub open spec fn changed_entries(m: Map<Seq<char>, Seq<char>>, input: Map<Seq<char>, Seq<char>>) -> Map<Seq<char>, Seq<char>> {
    Map::new(|k: Seq<char>| m.contains_key(k) && !(input.contains_key(k) && input[k] == m[k]), |k: Seq<char>| m[k])
}

/// Whether some entry has key `k`.
pub open spec fn has_key(s: Seq<(String, String)>, k: Seq<char>) -> bool {
    exists|i: int| 0 <= i < s.len() && #[trigger] s[i].0@ == k
}

/// Lookup in terms of positions.
proof fn lemma_lookup(s: Seq<(String, String)>, k: Seq<char>)
    requires
        entry_keys(s).no_duplicates(),
    ensures
        has_key(s, k) ==> (lookup(s, k) == Some(s[choose|i: int| 0 <= i < s.len() && #[trigger] s[i].0@ == k].1@)),
        !has_key(s, k) ==> lookup(s, k) is None,
{
    if has_key(s, k) {
        let i = choose|i: int| 0 <= i < s.len() && #[trigger] s[i].0@ == k;
        lemma_lookup_index(s, i);
    } else {
        lemma_lookup_absent(s, k);
    }
}

impl StringMap {
    #[verifier::type_invariant]
    spec fn keys_distinct(self) -> bool {
        entry_keys(self.entries@).no_duplicates()
    }

    /// The entries, in insertion order.
    pub closed spec fn entry_seq(self) -> Seq<(String, String)> {
        self.entries@
    }

    /// The keys, in insertion order.
    pub open spec fn keys(self) -> Seq<Seq<char>> {
        entry_keys(self.entry_seq())
    }

    /// Creates an empty map.
    pub fn new() -> (m: StringMap)
        ensures
            m@ == Map::<Seq<char>, Seq<char>>::empty(),
            m.keys().len() == 0,
    {
        let m = StringMap { entries: Vec::new() };
        assert(m@ =~= Map::<Seq<char>, Seq<char>>::empty()) by {
            assert forall|k: Seq<char>| !(lookup(m.entries@, k) is Some) by {
                lemma_lookup_absent(m.entries@, k);
            }
        }
        m
    }

    /// Position of `key` among the entries, if present.
    fn find(&self, key: &str) -> (r: Option<usize>)
        ensures
            match r {
                Some(i) => i < self.entries@.len() && self.entries@[i as int].0@ == key@,
                None => forall|i: int| 0 <= i < self.entries@.len() ==> #[trigger] self.entries@[i].0@ != key@,
            },
    {
        let mut i: usize = 0;
        while i < self.entries.len()
            invariant
                i <= self.entries@.len(),
                forall|j: int| 0 <= j < i ==> #[trigger] self.entries@[j].0@ != key@,
            decreases self.entries@.len() - i,
        {
            let k = self.entries[i].0.as_str();
            if str_eq(k, key) {
                return Some(i);
            }
            i = i + 1;
        }
        None
    }

    /// Looks a key up.
    pub fn get(&self, key: &str) -> (r: Option<&String>)
        ensures
            self@.contains_key(key@) <==> r is Some,
            r matches Some(v) ==> v@ == self@[key@],
    {
        proof { use_type_invariant(self); }
        match self.find(key) {
            Some(i) => {
                proof { self.lemma_index_value(i as int); }
                Some(&self.entries[i].1)
            },
            None => {
                proof { lemma_lookup_absent(self.entries@, key@); }
                None
            },
        }
    }

    /// Whether a key is present.
    pub fn contains_key(&self, key: &str) -> (b: bool)
        ensures
            b == self@.contains_key(key@),
    {
        proof { use_type_invariant(self); }
        match self.find(key) {
            Some(i) => {
                proof { self.lemma_index_value(i as int); }
                true
            },
            None => {
                proof { lemma_lookup_absent(self.entries@, key@); }
                false
            },
        }
    }

    /// Number of entries (distinct keys).
    pub fn len(&self) -> (n: usize)
        ensures
            n == self@.len(),
            n == self.keys().len(),
    {
        proof { use_type_invariant(self); self.lemma_len(); }
        self.entries.len()
    }

    /// Whether the map has no entry.
    pub fn is_empty(&self) -> (b: bool)
        ensures
            b == (self@.len() == 0),
    {
        proof { use_type_invariant(self); self.lemma_len(); }
        self.entries.len() == 0
    }

    /// Inserts or replaces the value of a key.
    pub fn insert(&mut self, key: String, value: String)
        ensures
            final(self)@ == old(self)@.insert(key@, value@),
    {
        proof { use_type_invariant(&*self); }
        let found = self.find(key.as_str());
        let mut entries: Vec<(String, String)> = Vec::new();
        std::mem::swap(&mut entries, &mut self.entries);
        let ghost before = entries@;
        let ghost kk = key@;
        let ghost vv = value@;
        match found {
            Some(i) => {
                entries.set(i, (key, value));
                proof {
                    assert(entry_keys(entries@) =~= entry_keys(before));
                }
            },
            None => {
                entries.push((key, value));
                proof {
                    assert(entry_keys(entries@) =~= entry_keys(before).push(kk));
                }
            },
        }
        proof {
            let after = entries@;
            assert forall|k: Seq<char>| lookup(after, k) == (if k == kk { Some(vv) } else { lookup(before, k) }) by {
                lemma_lookup(before, k);
                lemma_lookup(after, k);
                if k == kk {
                    match found {
                        Some(i) => { lemma_lookup_index(after, i as int); },
                        None => { lemma_lookup_index(after, before.len() as int); },
                    }
                } else if has_key(before, k) {
                    let j = choose|j: int| 0 <= j < before.len() && #[trigger] before[j].0@ == k;
                    assert(after[j] == before[j]);
                    lemma_lookup_index(after, j);
                    lemma_lookup_index(before, j);
                } else {
                    assert forall|j: int| 0 <= j < after.len() implies #[trigger] after[j].0@ != k by {
                        if j < before.len() {
                            match found {
                                Some(i) => { if j != i { assert(after[j] == before[j]); } },
                                None => { assert(after[j] == before[j]); },
                            }
                        }
                    }
                    lemma_lookup_absent(after, k);
                }
            }
            assert(entries_map(after) =~= entries_map(before).insert(kk, vv));
        }
        self.entries = entries;
    }

    /// Inserts every entry of `other`, its values replacing existing ones.
    pub fn insert_all(&mut self, other: &StringMap)
        ensures
            final(self)@ == old(self)@.union_prefer_right(other@),
    {
        proof { use_type_invariant(other); }
        let mut i: usize = 0;
        while i < other.entries.len()
            invariant
                i <= other.entries@.len(),
                self@ == old(self)@.union_prefer_right(entries_map(other.entries@.subrange(0, i as int))),
            decreases other.entries@.len() - i,
        {
            let ghost pre = other.entries@.subrange(0, i as int);
            let ghost e = other.entries@[i as int];
            proof {
                lemma_entries_map_push(pre, e);
                assert(other.entries@.subrange(0, i + 1) =~= pre.push(e));
            }
            self.insert(other.entries[i].0.clone(), other.entries[i].1.clone());
            proof {
                assert(self@ =~= old(self)@.union_prefer_right(entries_map(other.entries@.subrange(0, i + 1))));
            }
            i = i + 1;
        }
        assert(other.entries@.subrange(0, i as int) =~= other.entries@);
    }

    /// The entries whose value differs from what `input` holds for the key
    /// (all entries whose key `input` lacks).
    pub fn changed_from(&self, input: &StringMap) -> (r: StringMap)
        ensures
            r@ == changed_entries(self@, input@),
    {
        proof { use_type_invariant(self); }
        let mut r = StringMap::new();
        let mut i: usize = 0;
        while i < self.entries.len()
            invariant
                i <= self.entries@.len(),
                entry_keys(self.entries@).no_duplicates(),
                r@ == changed_entries(entries_map(self.entries@.subrange(0, i as int)), input@),
            decreases self.entries@.len() - i,
        {
            let ghost pre = self.entries@.subrange(0, i as int);
            let ghost e = self.entries@[i as int];
            proof {
                lemma_entries_map_push(pre, e);
                assert(self.entries@.subrange(0, i + 1) =~= pre.push(e));
                assert forall|j: int| 0 <= j < pre.len() implies #[trigger] pre[j].0@ != e.0@ by {
                    assert(entry_keys(self.entries@)[j] == pre[j].0@);
                    assert(entry_keys(self.entries@)[i as int] == e.0@);
                }
                lemma_lookup_absent(pre, e.0@);
            }
            let same = match input.get(self.entries[i].0.as_str()) {
                Some(v) => str_eq(v.as_str(), self.entries[i].1.as_str()),
                None => false,
            };
            if !same {
                r.insert(self.entries[i].0.clone(), self.entries[i].1.clone());
            }
            proof {
                assert(r@ =~= changed_entries(entries_map(self.entries@.subrange(0, i + 1)), input@));
            }
            i = i + 1;
        }
        assert(self.entries@.subrange(0, i as int) =~= self.entries@);
        r
    }

    /// The entries, as key-value pairs with distinct keys.
    pub fn to_pairs(&self) -> (r: Vec<(String, String)>)
        ensures
            entry_keys(r@).no_duplicates(),
            entries_map(r@) == self@,
    {
        proof { use_type_invariant(self); }
        let mut r: Vec<(String, String)> = Vec::new();
        let mut i: usize = 0;
        while i < self.entries.len()
            invariant
                i <= self.entries@.len(),
                entry_keys(self.entries@).no_duplicates(),
                r@.len() == i,
                forall|j: int| 0 <= j < i ==> (#[trigger] r@[j]).0@ == self.entries@[j].0@ && r@[j].1@ == self.entries@[j].1@,
            decreases self.entries@.len() - i,
        {
            r.push((self.entries[i].0.clone(), self.entries[i].1.clone()));
            i = i + 1;
        }
        proof {
            assert(entry_keys(r@) =~= entry_keys(self.entries@));
            assert forall|k: Seq<char>| lookup(r@, k) == lookup(self.entries@, k) by {
                lemma_lookup_same(r@, self.entries@, k);
            }
            assert(entries_map(r@) =~= entries_map(self.entries@));
        }
        r
    }

    /// A copy of this map.
    pub fn duplicate(&self) -> (r: StringMap)
        ensures
            r@ == self@,
            r.keys() == self.keys(),
    {
        proof { use_type_invariant(self); }
        let mut entries: Vec<(String, String)> = Vec::new();
        let mut i: usize = 0;
        while i < self.entries.len()
            invariant
                i <= self.entries@.len(),
                entries@.len() == i,
                forall|j: int| 0 <= j < i ==> #[trigger] entries@[j].0@ == self.entries@[j].0@
                    && entries@[j].1@ == self.entries@[j].1@,
            decreases self.entries@.len() - i,
        {
            let k = self.entries[i].0.clone();
            let v = self.entries[i].1.clone();
            entries.push((k, v));
            i = i + 1;
        }
        proof {
            assert(entry_keys(entries@) =~= entry_keys(self.entries@));
            assert forall|k: Seq<char>| #[trigger] lookup(entries@, k) == lookup(self.entries@, k) by {
                lemma_lookup_same(entries@, self.entries@, k);
            }
            assert(entries_map(entries@) =~= entries_map(self.entries@));
        }
        StringMap { entries }
    }

    /// Key and value of the `i`-th entry, in insertion order.
    pub fn entry_at(&self, i: usize) -> (r: (&String, &String))
        requires
            i < self.keys().len(),
        ensures
            r.0@ == self.keys()[i as int],
            self@.contains_key(r.0@),
            self@[r.0@] == r.1@,
    {
        proof {
            use_type_invariant(self);
            self.lemma_index_value(i as int);
        }
        (&self.entries[i].0, &self.entries[i].1)
    }

    proof fn lemma_index_value(&self, i: int)
        requires
            entry_keys(self.entries@).no_duplicates(),
            0 <= i < self.entries@.len(),
        ensures
            self@.contains_key(self.entries@[i].0@),
            self@[self.entries@[i].0@] == self.entries@[i].1@,
    {
        lemma_lookup_index(self.entries@, i);
    }

    proof fn lemma_len(&self)
        requires
            entry_keys(self.entries@).no_duplicates(),
        ensures
            self@.len() == self.entries@.len(),
    {
        let ks = entry_keys(self.entries@);
        ks.unique_seq_to_set();
        assert(self@.dom() =~= ks.to_set()) by {
            assert forall|k: Seq<char>| self@.dom().contains(k) implies ks.to_set().contains(k) by {
                lemma_lookup(self.entries@, k);
                let j = choose|j: int| 0 <= j < self.entries@.len() && #[trigger] self.entries@[j].0@ == k;
                assert(ks[j] == k);
            }
            assert forall|k: Seq<char>| ks.to_set().contains(k) implies self@.dom().contains(k) by {
                let j = choose|j: int| 0 <= j < ks.len() && ks[j] == k;
                assert(self.entries@[j].0@ == k);
                lemma_lookup_index(self.entries@, j);
            }
        }
    }
}

impl View for StringMap {
    type V = Map<Seq<char>, Seq<char>>;

    closed spec fn view(&self) -> Map<Seq<char>, Seq<char>> {
        entries_map(self.entries@)
    }
}

/// Text equality of two string slices.
pub fn str_eq(a: &str, b: &str) -> (r: bool)
    ensures
        r == (a@ == b@),
{
    let n = a.unicode_len();
    let m = b.unicode_len();
    if n != m {
        return false;
    }
    let mut i: usize = 0;
    while i < n
        invariant
            n == a@.len(),
            m == b@.len(),
            n == m,
            i <= n,
            forall|j: int| 0 <= j < i ==> a@[j] == b@[j],
        decreases n - i,
    {
        if a.get_char(i) != b.get_char(i) {
            return false;
        }
        i = i + 1;
    }
    assert(a@ =~= b@);
    true
}

} // verus!
