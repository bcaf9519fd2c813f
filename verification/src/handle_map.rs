//! Arena of numbered handles: an ordered association from `u32` handles to
//! values, with monotonic key allocation.
//!
//! Each engine instance keeps its loaded models and its live sessions in one
//! of these.  Handles come from a counter that only ever grows, so a freed
//! handle is never handed out again within the store's lifetime and a stale
//! handle can never alias a later allocation.  Entries are kept sorted by
//! key, and the mathematical content is the map from handle to value.
use vstd::map::*;
use vstd::prelude::*;

verus! {

/// Ordered handle-to-value store with its allocation counter.  The fields
/// are public for specification purposes; mutate them only through the
/// methods, which keep `wf` intact.
pub struct HandleMap<V> {
    pub entries: Vec<(u32, V)>,
    pub next: u64,
}

/// Whether some entry of `s` carries key `k`.
pub open spec fn seq_has_key<V>(s: Seq<(u32, V)>, k: u32) -> bool {
    exists|i: int| 0 <= i < s.len() && s[i].0 == k
}

/// The index of the entry of `s` carrying key `k`.
pub open spec fn seq_key_index<V>(s: Seq<(u32, V)>, k: u32) -> int {
    choose|i: int| 0 <= i < s.len() && s[i].0 == k
}

/// The association spelled by an entry sequence.
pub open spec fn seq_as_map<V>(s: Seq<(u32, V)>) -> Map<u32, V> {
    Map::new(|k: u32| seq_has_key(s, k), |k: u32| s[seq_key_index(s, k)].1)
}

/// Keys strictly increase along the entry sequence.
pub open spec fn seq_keys_sorted<V>(s: Seq<(u32, V)>) -> bool {
    forall|i: int, j: int| 0 <= i < j < s.len() ==> s[i].0 < s[j].0
}

/// Every key of `s` lies below `bound`.
pub open spec fn seq_keys_below<V>(s: Seq<(u32, V)>, bound: int) -> bool {
    forall|i: int| 0 <= i < s.len() ==> (#[trigger] s[i]).0 < bound
}

/// In a sorted entry sequence the index of a key is the only one carrying it.
proof fn lemma_key_index_unique<V>(s: Seq<(u32, V)>, i: int)
    requires
        seq_keys_sorted(s),
        0 <= i < s.len(),
    ensures
        seq_has_key(s, s[i].0),
        seq_key_index(s, s[i].0) == i,
{
    let k = s[i].0;
    assert(seq_has_key(s, k));
    let j = seq_key_index(s, k);
    if i < j {
        assert(s[i].0 < s[j].0);
    } else if j < i {
        assert(s[j].0 < s[i].0);
    }
}

impl<V> View for HandleMap<V> {
    type V = Map<u32, V>;

    open spec fn view(&self) -> Map<u32, V> {
        seq_as_map(self.entries@)
    }
}

impl<V> HandleMap<V> {
    /// The entries as a sequence, oldest handle first.
    pub open spec fn spec_entries(&self) -> Seq<(u32, V)> {
        self.entries@
    }

    /// The handles in allocation order.
    pub open spec fn keys(&self) -> Seq<u32> {
        self.entries@.map_values(|p: (u32, V)| p.0)
    }

    /// The handle the counter will hand out next.
    pub open spec fn spec_next(&self) -> int {
        self.next as int
    }

    /// Well-formed: keys strictly increase along the entry list, and every
    /// key was handed out by the counter, i.e. lies below it.
    pub open spec fn wf(&self) -> bool {
        &&& seq_keys_sorted(self.entries@)
        &&& seq_keys_below(self.entries@, self.next as int)
    }

    /// Whether a fresh key can still be handed out.
    pub open spec fn can_allocate(&self) -> bool {
        self.next <= u32::MAX
    }

    /// Whether `n` more allocations can follow: the keys they would hand
    /// out stay within the handle space.
    pub open spec fn headroom(&self, n: nat) -> bool {
        self.next + n <= u32::MAX + 1
    }

    /// The empty store, with the counter at zero.
    pub fn new() -> (r: Self)
        ensures
            r.wf(),
            r@ == Map::<u32, V>::empty(),
            r.spec_entries().len() == 0,
            r.spec_next() == 0,
    {
        let r = HandleMap { entries: Vec::new(), next: 0 };
        proof {
            assert(r@ =~= Map::<u32, V>::empty());
        }
        r
    }

    /// How many handles are live.
    pub fn len(&self) -> (r: usize)
        ensures
            r == self.spec_entries().len(),
    {
        self.entries.len()
    }

    /// Store a value under a freshly allocated handle: the counter's
    /// current value.  The counter only ever grows — removing an entry
    /// never winds it back — so a dropped handle is never handed out
    /// again.  `None`, and no change, when the handle space is exhausted.
    pub fn allocate(&mut self, v: V) -> (r: Option<u32>)
        requires
            old(self).wf(),
        ensures
            final(self).wf(),
            r is Some <==> old(self).can_allocate(),
            match r {
                Some(k) => {
                    &&& k == old(self).spec_next()
                    &&& !old(self)@.contains_key(k)
                    &&& forall|k2: u32| old(self)@.contains_key(k2) ==> k2 < k
                    &&& final(self)@ == old(self)@.insert(k, v)
                    &&& final(self).spec_entries() == old(self).spec_entries().push((k, v))
                    &&& final(self).keys() == old(self).keys().push(k)
                    &&& final(self).spec_next() == old(self).spec_next() + 1
                },
                None => {
                    &&& final(self)@ == old(self)@
                    &&& final(self).spec_entries() == old(self).spec_entries()
                    &&& final(self).spec_next() == old(self).spec_next()
                },
            },
    {
        if self.next > u32::MAX as u64 {
            return None;
        }
        let k = self.next as u32;
        let ghost s = self.entries@;
        proof {
            assert forall|k2: u32| self@.contains_key(k2) implies k2 < k by {
                let i = seq_key_index(s, k2);
                assert(s[i].0 < self.next as int);
            }
            assert(!seq_has_key(s, k)) by {
                if seq_has_key(s, k) {
                    let i = seq_key_index(s, k);
                    assert(s[i].0 < self.next as int);
                }
            }
        }
        self.entries.push((k, v));
        self.next = self.next + 1;
        proof {
            lemma_push_entry_view(s, k, v);
            assert(self.entries@.map_values(|p: (u32, V)| p.0) =~= s.map_values(
                |p: (u32, V)| p.0,
            ).push(k));
        }
        Some(k)
    }

    /// Borrow the value under a handle, if it is live.
    pub fn get(&self, k: u32) -> (r: Option<&V>)
        requires
            self.wf(),
        ensures
            match r {
                Some(v) => self@.contains_key(k) && *v == self@[k],
                None => !self@.contains_key(k),
            },
    {
        let ghost s = self.entries@;
        let n = self.entries.len();
        let mut i: usize = 0;
        while i < n
            invariant
                n == s.len(),
                s == self.entries@,
                seq_keys_sorted(s),
                i <= n,
                forall|j: int| 0 <= j < i ==> s[j].0 != k,
            decreases n - i,
        {
            let p = &self.entries[i];
            if p.0 == k {
                proof {
                    lemma_key_index_unique(s, i as int);
                }
                return Some(&p.1);
            }
            i = i + 1;
        }
        proof {
            assert(!seq_has_key(s, k));
        }
        None
    }

    /// Remove and hand back the value under a handle; `None`, and no change,
    /// when the handle is not live.  The counter stays where it is, so the
    /// removed handle is retired for good.
    #[verifier::loop_isolation(false)]
    pub fn take(&mut self, k: u32) -> (r: Option<V>)
        requires
            old(self).wf(),
        ensures
            final(self).wf(),
            final(self).spec_next() == old(self).spec_next(),
            forall|n: nat| #[trigger] old(self).headroom(n) ==> final(self).headroom(n),
            match r {
                Some(v) => {
                    &&& old(self)@.contains_key(k)
                    &&& v == old(self)@[k]
                    &&& final(self)@ == old(self)@.remove(k)
                    &&& final(self).spec_entries().len() == old(self).spec_entries().len() - 1
                },
                None => {
                    &&& !old(self)@.contains_key(k)
                    &&& final(self)@ == old(self)@
                    &&& final(self).spec_entries() == old(self).spec_entries()
                },
            },
    {
        let ghost s = self.entries@;
        let n = self.entries.len();
        let mut i: usize = 0;
        while i < n
            invariant
                n == s.len(),
                s == self.entries@,
                self.next == old(self).next,
                seq_keys_sorted(s),
                seq_keys_below(s, self.next as int),
                i <= n,
                forall|j: int| 0 <= j < i ==> s[j].0 != k,
            decreases n - i,
        {
            if self.entries[i].0 == k {
                let (_, v) = self.entries.remove(i);
                proof {
                    lemma_key_index_unique(s, i as int);
                    s.remove_ensures(i as int);
                    lemma_remove_entry_view(s, i as int);
                    assert(seq_keys_below(self.entries@, self.next as int)) by {
                        let t = s.remove(i as int);
                        assert forall|j: int| 0 <= j < t.len() implies (#[trigger] t[j]).0
                            < self.next as int by {
                            if j < i {
                                assert(t[j] == s[j]);
                            } else {
                                assert(t[j] == s[j + 1]);
                            }
                        }
                    }
                }
                return Some(v);
            }
            i = i + 1;
        }
        proof {
            assert(!seq_has_key(s, k));
        }
        None
    }
}

impl<V> HandleMap<V> {
    /// Replace the value under a live handle, handing back the one it held;
    /// `None`, and no change, when the handle is not live (the new value is
    /// then dropped).
    #[verifier::loop_isolation(false)]
    pub fn update_value(&mut self, k: u32, v: V) -> (r: Option<V>)
        requires
            old(self).wf(),
        ensures
            final(self).wf(),
            final(self).spec_next() == old(self).spec_next(),
            match r {
                Some(w) => {
                    &&& old(self)@.contains_key(k)
                    &&& w == old(self)@[k]
                    &&& final(self)@ == old(self)@.insert(k, v)
                    &&& final(self).keys() == old(self).keys()
                    &&& final(self).spec_entries().len() == old(self).spec_entries().len()
                },
                None => {
                    &&& !old(self)@.contains_key(k)
                    &&& final(self)@ == old(self)@
                    &&& final(self).spec_entries() == old(self).spec_entries()
                },
            },
    {
        let ghost s = self.entries@;
        let n = self.entries.len();
        let mut i: usize = 0;
        while i < n
            invariant
                n == s.len(),
                s == self.entries@,
                self.next == old(self).next,
                seq_keys_sorted(s),
                seq_keys_below(s, self.next as int),
                i <= n,
                forall|j: int| 0 <= j < i ==> s[j].0 != k,
            decreases n - i,
        {
            if self.entries[i].0 == k {
                let (_, w) = self.entries.remove(i);
                self.entries.insert(i, (k, v));
                proof {
                    lemma_key_index_unique(s, i as int);
                    assert(self.entries@ =~= s.update(i as int, (k, v))) by {
                        s.remove_ensures(i as int);
                        s.remove(i as int).insert_ensures(i as int, (k, v));
                    }
                    lemma_update_entry_view(s, i as int, k, v);
                    assert(seq_keys_below(self.entries@, self.next as int)) by {
                        let t = s.update(i as int, (k, v));
                        assert forall|j: int| 0 <= j < t.len() implies (#[trigger] t[j]).0
                            < self.next as int by {
                            assert(t[j].0 == s[j].0);
                        }
                    }
                }
                return Some(w);
            }
            i = i + 1;
        }
        proof {
            assert(!seq_has_key(s, k));
        }
        None
    }
}

/// Appending an entry whose key exceeds every present key keeps the order
/// and adds exactly that key to the association.
proof fn lemma_push_entry_view<V>(s: Seq<(u32, V)>, k: u32, v: V)
    requires
        seq_keys_sorted(s),
        forall|i: int| 0 <= i < s.len() ==> (#[trigger] s[i]).0 < k,
    ensures
        seq_keys_sorted(s.push((k, v))),
        seq_as_map(s.push((k, v))) == seq_as_map(s).insert(k, v),
{
    let t = s.push((k, v));
    let n = s.len() as int;
    assert(seq_keys_sorted(t)) by {
        assert forall|a: int, b: int| 0 <= a < b < t.len() implies t[a].0 < t[b].0 by {
            if b < n {
                assert(t[a] == s[a] && t[b] == s[b]);
            } else {
                assert(t[a] == s[a] && t[b] == (k, v));
            }
        }
    }
    assert(seq_as_map(t) =~= seq_as_map(s).insert(k, v)) by {
        assert(t[n] == (k, v));
        lemma_key_index_unique(t, n);
        assert(seq_has_key(t, k));
        assert forall|k2: u32| seq_has_key(t, k2) && k2 != k implies seq_has_key(s, k2) by {
            let j = seq_key_index(t, k2);
            assert(j != n);
            assert(s[j].0 == t[j].0);
        }
        assert forall|k2: u32| seq_has_key(s, k2) implies seq_has_key(t, k2) by {
            let j = seq_key_index(s, k2);
            assert(t[j].0 == s[j].0);
        }
        assert forall|k2: u32| #[trigger] seq_as_map(t).contains_key(k2) && k2 != k implies
            seq_as_map(t)[k2] == seq_as_map(s)[k2] by {
            let j = seq_key_index(t, k2);
            lemma_key_index_unique(t, j);
            assert(j != n);
            assert(t[j] == s[j]);
            lemma_key_index_unique(s, j);
        }
    }
}

/// Replacing the value of entry `i` under its own key replaces exactly that
/// key's association, and touches neither the order nor the key list.
proof fn lemma_update_entry_view<V>(s: Seq<(u32, V)>, i: int, k: u32, v: V)
    requires
        seq_keys_sorted(s),
        0 <= i < s.len(),
        s[i].0 == k,
    ensures
        seq_keys_sorted(s.update(i, (k, v))),
        seq_as_map(s.update(i, (k, v))) == seq_as_map(s).insert(k, v),
        s.update(i, (k, v)).map_values(|p: (u32, V)| p.0) == s.map_values(|p: (u32, V)| p.0),
{
    let t = s.update(i, (k, v));
    assert(t.map_values(|p: (u32, V)| p.0) =~= s.map_values(|p: (u32, V)| p.0));
    assert(seq_keys_sorted(t)) by {
        assert forall|a: int, b: int| 0 <= a < b < t.len() implies t[a].0 < t[b].0 by {
            assert(t[a].0 == s[a].0 && t[b].0 == s[b].0);
        }
    }
    assert(seq_as_map(t) =~= seq_as_map(s).insert(k, v)) by {
        assert forall|k2: u32| seq_has_key(t, k2) implies seq_has_key(s, k2) by {
            let j = seq_key_index(t, k2);
            assert(s[j].0 == t[j].0);
        }
        assert forall|k2: u32| seq_has_key(s, k2) implies seq_has_key(t, k2) by {
            let j = seq_key_index(s, k2);
            assert(t[j].0 == s[j].0);
        }
        assert forall|k2: u32| #[trigger] seq_as_map(t).contains_key(k2) implies seq_as_map(t)[k2]
            == seq_as_map(s).insert(k, v)[k2] by {
            let j = seq_key_index(t, k2);
            lemma_key_index_unique(t, j);
            if j == i {
                assert(t[j].1 == v);
            } else {
                assert(t[j] == s[j]);
                lemma_key_index_unique(s, j);
                assert(k2 != k) by {
                    if k2 == k {
                        lemma_key_index_unique(t, i);
                    }
                }
            }
        }
    }
}

/// Removing entry `i` removes exactly its key from the association.
proof fn lemma_remove_entry_view<V>(s: Seq<(u32, V)>, i: int)
    requires
        seq_keys_sorted(s),
        0 <= i < s.len(),
    ensures
        seq_keys_sorted(s.remove(i)),
        seq_as_map(s.remove(i)) == seq_as_map(s).remove(s[i].0),
{
    let k = s[i].0;
    let t = s.remove(i);
    s.remove_ensures(i);
    assert(seq_keys_sorted(t)) by {
        assert forall|a: int, b: int| 0 <= a < b < t.len() implies t[a].0 < t[b].0 by {
            if b < i {
                assert(t[a] == s[a] && t[b] == s[b]);
            } else if a < i && b >= i {
                assert(t[a] == s[a] && t[b] == s[b + 1]);
            } else {
                assert(t[a] == s[a + 1] && t[b] == s[b + 1]);
            }
        }
    }
    assert(seq_as_map(t) =~= seq_as_map(s).remove(k)) by {
        assert forall|k2: u32| seq_has_key(t, k2) implies seq_has_key(s, k2) && k2 != k by {
            let j = seq_key_index(t, k2);
            if j < i {
                assert(t[j] == s[j]);
                lemma_key_index_unique(s, j);
                if j != i {
                    assert(s[j].0 != s[i].0) by {
                        if j < i {
                            assert(s[j].0 < s[i].0);
                        }
                    }
                }
            } else {
                assert(t[j] == s[j + 1]);
                lemma_key_index_unique(s, j + 1);
                assert(s[i].0 < s[j + 1].0);
            }
        }
        assert forall|k2: u32| seq_has_key(s, k2) && k2 != k implies seq_has_key(t, k2) by {
            let j = seq_key_index(s, k2);
            if j < i {
                assert(t[j] == s[j]);
                assert(seq_has_key(t, k2));
            } else {
                assert(j != i);
                assert(t[j - 1] == s[j]);
                assert(seq_has_key(t, k2));
            }
        }
        assert forall|k2: u32| #[trigger] seq_as_map(t).contains_key(k2) implies seq_as_map(
            t,
        )[k2] == seq_as_map(s)[k2] by {
            let j = seq_key_index(t, k2);
            lemma_key_index_unique(t, j);
            if j < i {
                assert(t[j] == s[j]);
                lemma_key_index_unique(s, j);
            } else {
                assert(t[j] == s[j + 1]);
                lemma_key_index_unique(s, j + 1);
            }
        }
    }
}

} // verus!
