use vstd::prelude::*;

verus! {

/// Keys of an entry list are pairwise distinct.
pub open spec fn keys_distinct(s: Seq<(String, String)>) -> bool {
    forall|i: int, j: int| 0 <= i < s.len() && 0 <= j < s.len() && i != j ==> #[trigger] s[i].0@
        != #[trigger] s[j].0@
}

/// Some entry has key `k`.
pub open spec fn has_key(s: Seq<(String, String)>, k: Seq<char>) -> bool {
    exists|i: int| 0 <= i < s.len() && #[trigger] s[i].0@ == k
}

/// The position of the entry with key `k`.
pub open spec fn key_index(s: Seq<(String, String)>, k: Seq<char>) -> int {
    choose|i: int| 0 <= i < s.len() && #[trigger] s[i].0@ == k
}

/// The map from key text to value text that an entry list denotes.
pub open spec fn entries_map(s: Seq<(String, String)>) -> Map<Seq<char>, Seq<char>> {
    Map::new(|k: Seq<char>| has_key(s, k), |k: Seq<char>| s[key_index(s, k)].1@)
}

/// A finite map from display keys to display values: the rendered value of
/// every visible dashboard figure, keyed by a stable name.
pub struct ValueMap {
    entries: Vec<(String, String)>,
}

impl ValueMap {
    #[verifier::type_invariant]
    spec fn well_formed(&self) -> bool {
        keys_distinct(self.entries@)
    }

    /// The denoted map.
    pub closed spec fn view(&self) -> Map<Seq<char>, Seq<char>> {
        entries_map(self.entries@)
    }

    /// Number of entries, as a spec value.
    pub closed spec fn spec_len(&self) -> nat {
        self.entries@.len()
    }

    /// The empty map.
    pub fn new() -> (r: ValueMap)
        ensures
            r.view() == Map::<Seq<char>, Seq<char>>::empty(),
    {
        let r = ValueMap { entries: Vec::new() };
        assert(r.view() =~= Map::<Seq<char>, Seq<char>>::empty());
        r
    }

    /// Position of the entry with the given key, if any.
    fn find(&self, key: &String) -> (r: Option<usize>)
        ensures
            match r {
                Some(i) => i < self.entries@.len() && self.entries@[i as int].0@ == key@,
                None => !has_key(self.entries@, key@),
            },
    {
        let mut i: usize = 0;
        while i < self.entries.len()
            invariant
                i <= self.entries@.len(),
                forall|j: int| 0 <= j < i ==> self.entries@[j].0@ != key@,
            decreases self.entries.len() - i,
        {
            if self.entries[i].0 == *key {
                return Some(i);
            }
            i = i + 1;
        }
        None
    }

    /// Value stored under `key`.
    pub fn get(&self, key: &String) -> (r: Option<String>)
        ensures
            match r {
                Some(v) => self.view().contains_key(key@) && v@ == self.view()[key@],
                None => !self.view().contains_key(key@),
            },
    {
        proof { use_type_invariant(self); }
        match self.find(key) {
            Some(i) => {
                let ghost k = key_index(self.entries@, key@);
                assert(self.entries@[k].0@ == key@);
                assert(k == i);
                Some(self.entries[i].1.clone())
            },
            None => None,
        }
    }

    /// Is there an entry for `key`?
    pub fn contains_key(&self, key: &String) -> (r: bool)
        ensures
            r == self.view().contains_key(key@),
    {
        self.find(key).is_some()
    }

    /// Number of entries.
    pub fn len(&self) -> (r: usize)
        ensures
            r == self.view().dom().len(),
    {
        proof {
            use_type_invariant(self);
            self.lemma_dom_len();
        }
        self.entries.len()
    }

    proof fn lemma_dom_len(&self)
        requires
            keys_distinct(self.entries@),
        ensures
            self.view().dom().len() == self.entries@.len(),
            self.view().dom().finite(),
    {
        let s = self.entries@;
        let keys = s.map_values(|e: (String, String)| e.0@);
        assert(self.view().dom() =~= keys.to_set()) by {
            assert forall|k: Seq<char>| self.view().dom().contains(k) implies keys.to_set().contains(k) by {
                let i = choose|i: int| 0 <= i < s.len() && #[trigger] s[i].0@ == k;
                assert(keys[i] == k);
            }
            assert forall|k: Seq<char>| keys.to_set().contains(k) implies self.view().dom().contains(k) by {
                let i = choose|i: int| 0 <= i < keys.len() && keys[i] == k;
                assert(s[i].0@ == k);
            }
        }
        assert(keys.no_duplicates()) by {
            assert forall|i: int, j: int| 0 <= i < keys.len() && 0 <= j < keys.len() && i != j implies keys[i] != keys[j] by {
                assert(s[i].0@ != s[j].0@);
            }
        }
        keys.unique_seq_to_set();
    }

    /// Sets the value under `key`, replacing an earlier one (std
    /// `HashMap::insert`).
    pub fn insert(&mut self, key: String, value: String)
        ensures
            final(self).view() == old(self).view().insert(key@, value@),
    {
        proof { use_type_invariant(&*self); }
        let ghost old_s = self.entries@;
        match self.find(&key) {
            Some(i) => {
                let ghost kv = key@;
                let ghost vv = value@;
                let mut entries: Vec<(String, String)> = Vec::new();
                std::mem::swap(&mut entries, &mut self.entries);
                entries.set(i, (key, value));
                proof {
                    let s = entries@;
                    assert forall|a: int, b: int| 0 <= a < s.len() && 0 <= b < s.len() && a != b implies #[trigger] s[a].0@ != #[trigger] s[b].0@ by {
                        if a != i && b != i {
                            assert(old_s[a].0@ != old_s[b].0@);
                        } else if a == i {
                            assert(old_s[i as int].0@ != old_s[b].0@);
                        } else {
                            assert(old_s[a].0@ != old_s[i as int].0@);
                        }
                    }
                    assert(entries_map(s) =~= entries_map(old_s).insert(kv, vv)) by {
                        assert forall|k: Seq<char>| #[trigger] has_key(s, k) == (has_key(old_s, k) || k == kv) by {
                            if has_key(old_s, k) {
                                let j = choose|j: int| 0 <= j < old_s.len() && #[trigger] old_s[j].0@ == k;
                                if j == i { assert(s[j].0@ == k); } else { assert(s[j].0@ == k); }
                            }
                            if has_key(s, k) {
                                let j = choose|j: int| 0 <= j < s.len() && #[trigger] s[j].0@ == k;
                                if j != i { assert(old_s[j].0@ == k); }
                            }
                            if k == kv { assert(s[i as int].0@ == k); }
                        }
                        assert forall|k: Seq<char>| has_key(s, k) implies entries_map(s)[k] == entries_map(old_s).insert(kv, vv)[k] by {
                            let j = key_index(s, k);
                            assert(s[j].0@ == k);
                            if k == kv {
                                assert(s[i as int].0@ == k);
                                assert(j == i);
                            } else {
                                assert(j != i);
                                let j2 = key_index(old_s, k);
                                assert(old_s[j].0@ == k);
                                assert(old_s[j2].0@ == k);
                                assert(j2 == j);
                            }
                        }
                    }
                }
                self.entries = entries;
            },
            None => {
                let ghost kv = key@;
                let ghost vv = value@;
                let mut entries: Vec<(String, String)> = Vec::new();
                std::mem::swap(&mut entries, &mut self.entries);
                entries.push((key, value));
                proof {
                    let s = entries@;
                    let n = old_s.len() as int;
                    assert forall|a: int, b: int| 0 <= a < s.len() && 0 <= b < s.len() && a != b implies #[trigger] s[a].0@ != #[trigger] s[b].0@ by {
                        if a < n && b < n {
                            assert(old_s[a].0@ != old_s[b].0@);
                        } else if a == n {
                            assert(s[b].0@ == old_s[b].0@);
                        } else {
                            assert(s[a].0@ == old_s[a].0@);
                        }
                    }
                    assert(entries_map(s) =~= entries_map(old_s).insert(kv, vv)) by {
                        assert forall|k: Seq<char>| #[trigger] has_key(s, k) == (has_key(old_s, k) || k == kv) by {
                            if has_key(old_s, k) {
                                let j = choose|j: int| 0 <= j < old_s.len() && #[trigger] old_s[j].0@ == k;
                                assert(s[j].0@ == k);
                            }
                            if has_key(s, k) {
                                let j = choose|j: int| 0 <= j < s.len() && #[trigger] s[j].0@ == k;
                                if j != n { assert(old_s[j].0@ == k); }
                            }
                            if k == kv { assert(s[n].0@ == k); }
                        }
                        assert forall|k: Seq<char>| has_key(s, k) implies entries_map(s)[k] == entries_map(old_s).insert(kv, vv)[k] by {
                            let j = key_index(s, k);
                            assert(s[j].0@ == k);
                            if k == kv {
                                assert(s[n].0@ == k);
                                assert(j == n);
                            } else {
                                assert(j != n);
                                let j2 = key_index(old_s, k);
                                assert(old_s[j].0@ == k);
                                assert(old_s[j2].0@ == k);
                                assert(j2 == j);
                            }
                        }
                    }
                }
                self.entries = entries;
            },
        }
    }

    /// The keys, one per entry, without repetition.
    pub fn keys(&self) -> (r: Vec<String>)
        ensures
            seq_views_distinct(r@),
            forall|k: Seq<char>| self.view().contains_key(k) <==> seq_has_view(r@, k),
    {
        proof { use_type_invariant(self); }
        let mut out: Vec<String> = Vec::new();
        let mut i: usize = 0;
        while i < self.entries.len()
            invariant
                i <= self.entries@.len(),
                keys_distinct(self.entries@),
                out@.len() == i,
                forall|j: int| 0 <= j < i ==> #[trigger] out@[j]@ == self.entries@[j].0@,
            decreases self.entries.len() - i,
        {
            out.push(self.entries[i].0.clone());
            i = i + 1;
        }
        proof {
            let s = self.entries@;
            assert forall|a: int, b: int| 0 <= a < out@.len() && 0 <= b < out@.len() && a != b implies #[trigger] out@[a]@ != #[trigger] out@[b]@ by {
                assert(s[a].0@ != s[b].0@);
            }
            assert forall|k: Seq<char>| self.view().contains_key(k) <==> seq_has_view(out@, k) by {
                if self.view().contains_key(k) {
                    let j = choose|j: int| 0 <= j < s.len() && #[trigger] s[j].0@ == k;
                    assert(out@[j]@ == k);
                }
                if seq_has_view(out@, k) {
                    let j = choose|j: int| 0 <= j < out@.len() && #[trigger] out@[j]@ == k;
                    assert(s[j].0@ == k);
                }
            }
        }
        out
    }
}

/// The strings of `s` have pairwise different texts.
pub open spec fn seq_views_distinct(s: Seq<String>) -> bool {
    forall|i: int, j: int| 0 <= i < s.len() && 0 <= j < s.len() && i != j ==> #[trigger] s[i]@
        != #[trigger] s[j]@
}

/// Some string of `s` has text `k`.
pub open spec fn seq_has_view(s: Seq<String>, k: Seq<char>) -> bool {
    exists|i: int| 0 <= i < s.len() && #[trigger] s[i]@ == k
}

/// The keys whose value in `next` is new: absent from `prev` or different there.
pub open spec fn changed_keys_spec(
    prev: Map<Seq<char>, Seq<char>>,
    next: Map<Seq<char>, Seq<char>>,
) -> Set<Seq<char>> {
    Set::new(|k: Seq<char>| next.contains_key(k) && !(prev.contains_key(k) && prev[k] == next[k]))
}

/// Keys of `next` whose value is new compared with `prev`: present in `next`
/// and either missing from `prev` or holding a different value there. Keys
/// only in `prev` are not reported.
pub fn compute_changed_keys(prev: &ValueMap, next: &ValueMap) -> (r: Vec<String>)
    ensures
        seq_views_distinct(r@),
        forall|k: Seq<char>| changed_keys_spec(prev.view(), next.view()).contains(k) <==> seq_has_view(r@, k),
{
    proof { use_type_invariant(next); }
    let mut changed: Vec<String> = Vec::new();
    let mut i: usize = 0;
    let ghost s = next.entries@;
    while i < next.entries.len()
        invariant
            s == next.entries@,
            keys_distinct(s),
            i <= s.len(),
            seq_views_distinct(changed@),
            forall|k: Seq<char>| seq_has_view(changed@, k) <==> (exists|j: int| 0 <= j < i && #[trigger] s[j].0@ == k
                && changed_keys_spec(prev.view(), next.view()).contains(k)),
        decreases s.len() - i,
    {
        let key = &next.entries[i].0;
        let value = &next.entries[i].1;
        proof {
            let k = key_index(s, key@);
            assert(s[i as int].0@ == key@);
            assert(k == i);
        }
        let same = match prev.get(key) {
            Some(pv) => pv == *value,
            None => false,
        };
        proof {
            assert(next.view().contains_key(key@));
            assert(next.view()[key@] == value@);
            assert(same == (prev.view().contains_key(key@) && prev.view()[key@] == next.view()[key@]));
        }
        if !same {
            let ghost old_changed = changed@;
            changed.push(key.clone());
            proof {
                assert forall|a: int, b: int| 0 <= a < changed@.len() && 0 <= b < changed@.len() && a != b implies #[trigger] changed@[a]@ != #[trigger] changed@[b]@ by {
                    if a < old_changed.len() && b < old_changed.len() {
                        assert(old_changed[a]@ != old_changed[b]@);
                    } else if a == old_changed.len() {
                        if changed@[b]@ == changed@[a]@ {
                            assert(seq_has_view(old_changed, s[i as int].0@));
                            let j = choose|j: int| 0 <= j < i && #[trigger] s[j].0@ == s[i as int].0@ && changed_keys_spec(prev.view(), next.view()).contains(s[i as int].0@);
                            assert(s[j].0@ != s[i as int].0@);
                        }
                    } else {
                        if changed@[b]@ == changed@[a]@ {
                            assert(seq_has_view(old_changed, s[i as int].0@));
                            let j = choose|j: int| 0 <= j < i && #[trigger] s[j].0@ == s[i as int].0@ && changed_keys_spec(prev.view(), next.view()).contains(s[i as int].0@);
                            assert(s[j].0@ != s[i as int].0@);
                        }
                    }
                }
                let cs = changed_keys_spec(prev.view(), next.view());
                assert(cs.contains(key@));
                assert forall|k: Seq<char>| seq_has_view(changed@, k) implies (exists|j: int| 0 <= j < i + 1 && #[trigger] s[j].0@ == k
                    && cs.contains(k)) by {
                    let a = choose|a: int| 0 <= a < changed@.len() && #[trigger] changed@[a]@ == k;
                    if a < old_changed.len() {
                        assert(old_changed[a]@ == k);
                        assert(seq_has_view(old_changed, k));
                        let j = choose|j: int| 0 <= j < i && #[trigger] s[j].0@ == k && cs.contains(k);
                        assert(0 <= j < i + 1 && s[j].0@ == k);
                    } else {
                        assert(s[i as int].0@ == k);
                    }
                }
                assert forall|k: Seq<char>| (exists|j: int| 0 <= j < i + 1 && #[trigger] s[j].0@ == k
                    && cs.contains(k)) implies seq_has_view(changed@, k) by {
                    let j = choose|j: int| 0 <= j < i + 1 && #[trigger] s[j].0@ == k && cs.contains(k);
                    if j < i {
                        assert(exists|j2: int| 0 <= j2 < i && #[trigger] s[j2].0@ == k && cs.contains(k));
                        assert(seq_has_view(old_changed, k));
                        let a = choose|a: int| 0 <= a < old_changed.len() && #[trigger] old_changed[a]@ == k;
                        assert(changed@[a]@ == k);
                    } else {
                        assert(changed@[old_changed.len() as int]@ == k);
                    }
                }
            }
        } else {
            proof {
                let cs = changed_keys_spec(prev.view(), next.view());
                assert(!cs.contains(s[i as int].0@));
                assert forall|k: Seq<char>| seq_has_view(changed@, k) implies (exists|j: int| 0 <= j < i + 1 && #[trigger] s[j].0@ == k
                    && cs.contains(k)) by {
                    let j = choose|j: int| 0 <= j < i && #[trigger] s[j].0@ == k && cs.contains(k);
                    assert(0 <= j < i + 1 && s[j].0@ == k);
                }
                assert forall|k: Seq<char>| (exists|j: int| 0 <= j < i + 1 && #[trigger] s[j].0@ == k
                    && cs.contains(k)) implies seq_has_view(changed@, k) by {
                    let j = choose|j: int| 0 <= j < i + 1 && #[trigger] s[j].0@ == k && cs.contains(k);
                    if j == i {
                        assert(false);
                    } else {
                        assert(0 <= j < i && s[j].0@ == k && cs.contains(k));
                    }
                }
            }
        }
        i = i + 1;
    }
    proof {
        assert forall|k: Seq<char>| changed_keys_spec(prev.view(), next.view()).contains(k) implies seq_has_view(changed@, k) by {
            let j = key_index(s, k);
            assert(s[j].0@ == k);
        }
    }
    changed
}

} // verus!
