//! Association from string names to values, with each name held at most
//! once.
//!
//! The caller registry and each caller's model zoo are of this shape: a
//! small list of named entries whose mathematical content is the map from
//! the name's characters to the value.
use vstd::map::*;
use vstd::prelude::*;

verus! {

/// Name-to-value store.  The entry list is public for specification
/// purposes; mutate it only through the methods, which keep `wf` intact.
pub struct StrMap<V> {
    pub entries: Vec<(String, V)>,
}

/// Whether some entry of `s` carries name `k`.
pub open spec fn sseq_has_key<V>(s: Seq<(String, V)>, k: Seq<char>) -> bool {
    exists|i: int| 0 <= i < s.len() && s[i].0@ == k
}

/// The index of the entry of `s` carrying name `k`.
pub open spec fn sseq_key_index<V>(s: Seq<(String, V)>, k: Seq<char>) -> int {
    choose|i: int| 0 <= i < s.len() && s[i].0@ == k
}

/// The association spelled by an entry sequence.
pub open spec fn sseq_as_map<V>(s: Seq<(String, V)>) -> Map<Seq<char>, V> {
    Map::new(|k: Seq<char>| sseq_has_key(s, k), |k: Seq<char>| s[sseq_key_index(s, k)].1)
}

/// No name occurs twice.
pub open spec fn sseq_keys_distinct<V>(s: Seq<(String, V)>) -> bool {
    forall|i: int, j: int| 0 <= i < j < s.len() ==> s[i].0@ != s[j].0@
}

/// With distinct names the index of a name is the only one carrying it.
proof fn lemma_skey_index_unique<V>(s: Seq<(String, V)>, i: int)
    requires
        sseq_keys_distinct(s),
        0 <= i < s.len(),
    ensures
        sseq_has_key(s, s[i].0@),
        sseq_key_index(s, s[i].0@) == i,
{
    assert(sseq_has_key(s, s[i].0@));
    let j = sseq_key_index(s, s[i].0@);
    if i < j {
        assert(s[i].0@ != s[j].0@);
    } else if j < i {
        assert(s[j].0@ != s[i].0@);
    }
}

impl<V> View for StrMap<V> {
    type V = Map<Seq<char>, V>;

    open spec fn view(&self) -> Map<Seq<char>, V> {
        sseq_as_map(self.entries@)
    }
}

impl<V> StrMap<V> {
    /// The entries as a sequence, oldest first.
    pub open spec fn spec_entries(&self) -> Seq<(String, V)> {
        self.entries@
    }

    /// Well-formed: no name occurs twice.
    pub open spec fn wf(&self) -> bool {
        sseq_keys_distinct(self.entries@)
    }

    /// The empty store.
    pub fn new() -> (r: Self)
        ensures
            r.wf(),
            r@ == Map::<Seq<char>, V>::empty(),
            r.spec_entries().len() == 0,
    {
        let r = StrMap { entries: Vec::new() };
        proof {
            assert(r@ =~= Map::<Seq<char>, V>::empty());
        }
        r
    }

    /// How many names are held.
    pub fn len(&self) -> (r: usize)
        ensures
            r == self.spec_entries().len(),
    {
        self.entries.len()
    }

    /// The value of entry `i`.
    pub fn value_at(&self, i: usize) -> (r: &V)
        requires
            i < self.spec_entries().len(),
        ensures
            *r == self.spec_entries()[i as int].1,
            self.wf() ==> self@.contains_key(self.spec_entries()[i as int].0@) && self@[
                self.spec_entries()[i as int].0@
            ] == self.spec_entries()[i as int].1,
    {
        proof {
            if self.wf() {
                lemma_skey_index_unique(self.entries@, i as int);
            }
        }
        &self.entries[i].1
    }

    /// Borrow the value under a name, if it is held.
    pub fn get(&self, k: &String) -> (r: Option<&V>)
        requires
            self.wf(),
        ensures
            match r {
                Some(v) => self@.contains_key(k@) && *v == self@[k@],
                None => !self@.contains_key(k@),
            },
    {
        let ghost s = self.entries@;
        let n = self.entries.len();
        let mut i: usize = 0;
        while i < n
            invariant
                n == s.len(),
                s == self.entries@,
                sseq_keys_distinct(s),
                i <= n,
                forall|j: int| 0 <= j < i ==> s[j].0@ != k@,
            decreases n - i,
        {
            if self.entries[i].0 == *k {
                proof {
                    lemma_skey_index_unique(s, i as int);
                }
                return Some(&self.entries[i].1);
            }
            i = i + 1;
        }
        proof {
            assert(!sseq_has_key(s, k@));
        }
        None
    }

    /// Store a value under a name, replacing what the name held before.
    #[verifier::loop_isolation(false)]
    pub fn insert(&mut self, k: String, v: V)
        requires
            old(self).wf(),
        ensures
            final(self).wf(),
            final(self)@ == old(self)@.insert(k@, v),
            old(self)@.contains_key(k@) ==> final(self).spec_entries().len() == old(
                self,
            ).spec_entries().len(),
            !old(self)@.contains_key(k@) ==> final(self).spec_entries().len() == old(
                self,
            ).spec_entries().len() + 1,
    {
        let ghost s = self.entries@;
        let n = self.entries.len();
        let mut i: usize = 0;
        while i < n
            invariant
                n == s.len(),
                s == self.entries@,
                sseq_keys_distinct(s),
                i <= n,
                forall|j: int| 0 <= j < i ==> s[j].0@ != k@,
            decreases n - i,
        {
            if self.entries[i].0 == k {
                let _ = self.entries.remove(i);
                self.entries.insert(i, (k, v));
                proof {
                    lemma_skey_index_unique(s, i as int);
                    assert(self.entries@ =~= s.update(i as int, (k, v)));
                    lemma_supdate_entry_view(s, i as int, k, v);
                }
                return ;
            }
            i = i + 1;
        }
        proof {
            assert(!sseq_has_key(s, k@));
        }
        self.entries.push((k, v));
        proof {
            lemma_spush_entry_view(s, k, v);
        }
    }

    /// Remove and hand back the value under a name; `None`, and no change,
    /// when the name is not held.
    #[verifier::loop_isolation(false)]
    pub fn remove(&mut self, k: &String) -> (r: Option<V>)
        requires
            old(self).wf(),
        ensures
            final(self).wf(),
            match r {
                Some(v) => {
                    &&& old(self)@.contains_key(k@)
                    &&& v == old(self)@[k@]
                    &&& final(self)@ == old(self)@.remove(k@)
                    &&& final(self).spec_entries().len() == old(self).spec_entries().len() - 1
                },
                None => {
                    &&& !old(self)@.contains_key(k@)
                    &&& final(self)@ == old(self)@
                    &&& final(self).spec_entries() == old(self).spec_entries()
                },
            },
    {
        let ghost s = self.entries@;
        let n = self.entries.len();
        let mut i: usize = 0;
        while i < n
            invariant
                n == s.len(),
                s == self.entries@,
                sseq_keys_distinct(s),
                i <= n,
                forall|j: int| 0 <= j < i ==> s[j].0@ != k@,
            decreases n - i,
        {
            if self.entries[i].0 == *k {
                let (_, v) = self.entries.remove(i);
                proof {
                    lemma_skey_index_unique(s, i as int);
                    s.remove_ensures(i as int);
                    lemma_sremove_entry_view(s, i as int);
                }
                return Some(v);
            }
            i = i + 1;
        }
        proof {
            assert(!sseq_has_key(s, k@));
        }
        None
    }
}

/// Replacing the value of entry `i` under its own name replaces exactly
/// that name's association and no other.
proof fn lemma_supdate_entry_view<V>(s: Seq<(String, V)>, i: int, k: String, v: V)
    requires
        sseq_keys_distinct(s),
        0 <= i < s.len(),
        s[i].0@ == k@,
    ensures
        sseq_keys_distinct(s.update(i, (k, v))),
        sseq_as_map(s.update(i, (k, v))) == sseq_as_map(s).insert(k@, v),
{
    let t = s.update(i, (k, v));
    assert(sseq_keys_distinct(t)) by {
        assert forall|a: int, b: int| 0 <= a < b < t.len() implies t[a].0@ != t[b].0@ by {
            assert(t[a].0@ == s[a].0@ && t[b].0@ == s[b].0@);
        }
    }
    assert(sseq_as_map(t) =~= sseq_as_map(s).insert(k@, v)) by {
        assert forall|k2: Seq<char>| sseq_has_key(t, k2) implies sseq_has_key(s, k2) by {
            let j = sseq_key_index(t, k2);
            assert(s[j].0@ == t[j].0@);
        }
        assert forall|k2: Seq<char>| sseq_has_key(s, k2) implies sseq_has_key(t, k2) by {
            let j = sseq_key_index(s, k2);
            assert(t[j].0@ == s[j].0@);
        }
        assert forall|k2: Seq<char>| #[trigger] sseq_as_map(t).contains_key(k2) implies sseq_as_map(
            t,
        )[k2] == sseq_as_map(s).insert(k@, v)[k2] by {
            let j = sseq_key_index(t, k2);
            lemma_skey_index_unique(t, j);
            if j == i {
                assert(t[j].1 == v);
            } else {
                assert(t[j] == s[j]);
                lemma_skey_index_unique(s, j);
                assert(k2 != k@) by {
                    if k2 == k@ {
                        lemma_skey_index_unique(t, i);
                    }
                }
            }
        }
    }
}

/// Appending an entry under a fresh name adds exactly that name's
/// association.
proof fn lemma_spush_entry_view<V>(s: Seq<(String, V)>, k: String, v: V)
    requires
        sseq_keys_distinct(s),
        !sseq_has_key(s, k@),
    ensures
        sseq_keys_distinct(s.push((k, v))),
        sseq_as_map(s.push((k, v))) == sseq_as_map(s).insert(k@, v),
{
    let t = s.push((k, v));
    let n = s.len() as int;
    assert(sseq_keys_distinct(t)) by {
        assert forall|a: int, b: int| 0 <= a < b < t.len() implies t[a].0@ != t[b].0@ by {
            if b < n {
                assert(t[a] == s[a] && t[b] == s[b]);
            } else {
                assert(t[a] == s[a] && t[b] == (k, v));
                assert(s[a].0@ != k@) by {
                    if s[a].0@ == k@ {
                        assert(sseq_has_key(s, k@));
                    }
                }
            }
        }
    }
    assert(sseq_as_map(t) =~= sseq_as_map(s).insert(k@, v)) by {
        assert(t[n] == (k, v));
        lemma_skey_index_unique(t, n);
        assert(sseq_has_key(t, k@));
        assert forall|k2: Seq<char>| sseq_has_key(t, k2) && k2 != k@ implies sseq_has_key(
            s,
            k2,
        ) by {
            let j = sseq_key_index(t, k2);
            assert(j != n);
            assert(s[j].0@ == t[j].0@);
        }
        assert forall|k2: Seq<char>| sseq_has_key(s, k2) implies sseq_has_key(t, k2) by {
            let j = sseq_key_index(s, k2);
            assert(t[j].0@ == s[j].0@);
        }
        assert forall|k2: Seq<char>| #[trigger] sseq_as_map(t).contains_key(k2) && k2 != k@
            implies sseq_as_map(t)[k2] == sseq_as_map(s)[k2] by {
            let j = sseq_key_index(t, k2);
            lemma_skey_index_unique(t, j);
            assert(j != n);
            assert(t[j] == s[j]);
            lemma_skey_index_unique(s, j);
        }
    }
}

/// Removing entry `i` removes exactly its name from the association.
proof fn lemma_sremove_entry_view<V>(s: Seq<(String, V)>, i: int)
    requires
        sseq_keys_distinct(s),
        0 <= i < s.len(),
    ensures
        sseq_keys_distinct(s.remove(i)),
        sseq_as_map(s.remove(i)) == sseq_as_map(s).remove(s[i].0@),
{
    let k = s[i].0@;
    let t = s.remove(i);
    s.remove_ensures(i);
    assert(sseq_keys_distinct(t)) by {
        assert forall|a: int, b: int| 0 <= a < b < t.len() implies t[a].0@ != t[b].0@ by {
            if b < i {
                assert(t[a] == s[a] && t[b] == s[b]);
            } else if a < i && b >= i {
                assert(t[a] == s[a] && t[b] == s[b + 1]);
            } else {
                assert(t[a] == s[a + 1] && t[b] == s[b + 1]);
            }
        }
    }
    assert(sseq_as_map(t) =~= sseq_as_map(s).remove(k)) by {
        assert forall|k2: Seq<char>| sseq_has_key(t, k2) implies sseq_has_key(s, k2) && k2 != k by {
            let j = sseq_key_index(t, k2);
            if j < i {
                assert(t[j] == s[j]);
                lemma_skey_index_unique(s, j);
                if j != i {
                    assert(s[j].0@ != s[i].0@);
                }
            } else {
                assert(t[j] == s[j + 1]);
                lemma_skey_index_unique(s, j + 1);
                assert(s[i].0@ != s[j + 1].0@);
            }
        }
        assert forall|k2: Seq<char>| sseq_has_key(s, k2) && k2 != k implies sseq_has_key(t, k2) by {
            let j = sseq_key_index(s, k2);
            if j < i {
                assert(t[j] == s[j]);
                assert(sseq_has_key(t, k2));
            } else {
                assert(j != i);
                assert(t[j - 1] == s[j]);
                assert(sseq_has_key(t, k2));
            }
        }
        assert forall|k2: Seq<char>| #[trigger] sseq_as_map(t).contains_key(k2) implies sseq_as_map(
            t,
        )[k2] == sseq_as_map(s)[k2] by {
            let j = sseq_key_index(t, k2);
            lemma_skey_index_unique(t, j);
            if j < i {
                assert(t[j] == s[j]);
                lemma_skey_index_unique(s, j);
            } else {
                assert(t[j] == s[j + 1]);
                lemma_skey_index_unique(s, j + 1);
            }
        }
    }
}

} // verus!
