//! A small table keyed by strings, kept in insertion order.

use vstd::prelude::*;

verus! {

/// Position of the first entry with key `k`.
pub open spec fn find_key<V>(s: Seq<(String, V)>, k: Seq<char>) -> Option<int>
    decreases s.len(),
{
    if s.len() == 0 {
        None
    } else if s[0].0@ == k {
        Some(0)
    } else {
        match find_key(s.drop_first(), k) {
            Some(i) => Some(i + 1),
            None => None,
        }
    }
}

/// No key occurs twice.
pub open spec fn distinct_keys<V>(s: Seq<(String, V)>) -> bool {
    forall|i: int, j: int| 0 <= i < j < s.len() ==> #[trigger] s[i].0@ != #[trigger] s[j].0@
}

/// The first entry with key `k` is at `i`.
pub open spec fn first_at<V>(s: Seq<(String, V)>, k: Seq<char>, i: int) -> bool {
    &&& 0 <= i < s.len()
    &&& s[i].0@ == k
    &&& forall|j: int| 0 <= j < i ==> #[trigger] s[j].0@ != k
}

proof fn lemma_find_key<V>(s: Seq<(String, V)>, k: Seq<char>)
    ensures
        find_key(s, k) matches Some(i) ==> first_at(s, k, i),
        find_key(s, k) is None ==> forall|j: int| 0 <= j < s.len() ==> #[trigger] s[j].0@ != k,
    decreases s.len(),
{
    if s.len() > 0 && s[0].0@ != k {
        let t = s.drop_first();
        lemma_find_key(t, k);
        assert forall|j: int| 0 < j < s.len() implies #[trigger] s[j] == t[j - 1] by {}
        if let Some(i) = find_key(t, k) {
            assert forall|j: int| 0 <= j < i + 1 implies #[trigger] s[j].0@ != k by {
                if j > 0 {
                    assert(s[j] == t[j - 1]);
                }
            }
        } else {
            assert forall|j: int| 0 <= j < s.len() implies #[trigger] s[j].0@ != k by {
                if j > 0 {
                    assert(s[j] == t[j - 1]);
                }
            }
        }
    }
}

proof fn lemma_first_at<V>(s: Seq<(String, V)>, k: Seq<char>, i: int)
    requires
        first_at(s, k, i),
    ensures
        find_key(s, k) == Some(i),
{
    lemma_find_key(s, k);
    match find_key(s, k) {
        Some(m) => {
            if m < i {
                assert(s[m].0@ != k);
            }
            if m > i {
                assert(s[i].0@ != k);
            }
        },
        None => {
            assert(s[i].0@ != k);
        },
    }
}

proof fn lemma_absent<V>(s: Seq<(String, V)>, k: Seq<char>)
    requires
        forall|j: int| 0 <= j < s.len() ==> #[trigger] s[j].0@ != k,
    ensures
        find_key(s, k) is None,
{
    lemma_find_key(s, k);
    if let Some(i) = find_key(s, k) {
        assert(s[i].0@ == k);
    }
}

/// The map of an entry sequence.
pub open spec fn entries_map<V>(s: Seq<(String, V)>) -> Map<Seq<char>, V> {
    Map::new(|k: Seq<char>| find_key(s, k) is Some, |k: Seq<char>| s[find_key(s, k)->0].1)
}

/// Entries keyed by strings, each key at most once, in insertion order.
pub struct StringTable<V> {
    entries: Vec<(String, V)>,
}

impl<V> View for StringTable<V> {
    type V = Map<Seq<char>, V>;

    closed spec fn view(&self) -> Map<Seq<char>, V> {
        entries_map(self.entries@)
    }
}

impl<V> StringTable<V> {
    #[verifier::type_invariant]
    closed spec fn inv(self) -> bool {
        distinct_keys(self.entries@)
    }

    /// Keys in insertion order.
    pub closed spec fn keys(&self) -> Seq<Seq<char>> {
        self.entries@.map_values(|e: (String, V)| e.0@)
    }

    /// An empty table.
    pub fn new() -> (r: Self)
        ensures
            r@ == Map::<Seq<char>, V>::empty(),
            r.keys().len() == 0,
    {
        let r = StringTable { entries: Vec::new() };
        assert(r@ =~= Map::<Seq<char>, V>::empty());
        r
    }

    /// Number of entries; the keys of the table are those of its map, each
    /// once.
    pub fn len(&self) -> (r: usize)
        ensures
            r == self.keys().len(),
            forall|i: int| 0 <= i < self.keys().len() ==> self@.contains_key(#[trigger] self.keys()[i]),
            forall|k: Seq<char>| self@.contains_key(k) ==> self.keys().contains(k),
            forall|i: int, j: int|
                0 <= i < j < self.keys().len() ==> #[trigger] self.keys()[i] != #[trigger] self.keys()[j],
    {
        proof {
            use_type_invariant(self);
            let s = self.entries@;
            assert forall|i: int| 0 <= i < self.keys().len() implies self@.contains_key(
                #[trigger] self.keys()[i],
            ) by {
                let k = s[i].0@;
                assert(forall|j: int| 0 <= j < i ==> #[trigger] s[j].0@ != s[i].0@);
                lemma_first_at(s, k, i);
            }
            assert forall|k: Seq<char>| self@.contains_key(k) implies self.keys().contains(k) by {
                lemma_find_key(s, k);
                let i = find_key(s, k)->0;
                assert(self.keys()[i] == k);
            }
        }
        self.entries.len()
    }

    /// The entry at a position, in insertion order.
    pub fn entry_at(&self, i: usize) -> (r: (&String, &V))
        requires
            i < self.keys().len(),
        ensures
            r.0@ == self.keys()[i as int],
            self@.contains_key(r.0@),
            self@[r.0@] == *r.1,
    {
        proof {
            use_type_invariant(self);
            let s = self.entries@;
            assert(forall|j: int| 0 <= j < i ==> #[trigger] s[j].0@ != s[i as int].0@);
            lemma_first_at(s, s[i as int].0@, i as int);
        }
        let e = &self.entries[i];
        (&e.0, &e.1)
    }

    fn position(&self, k: &str) -> (r: Option<usize>)
        ensures
            match r {
                Some(i) => find_key(self.entries@, k@) == Some(i as int) && i < self.entries@.len(),
                None => find_key(self.entries@, k@) is None,
            },
    {
        proof {
            lemma_find_key(self.entries@, k@);
        }
        let mut i: usize = 0;
        while i < self.entries.len()
            invariant
                i <= self.entries@.len(),
                forall|j: int| 0 <= j < i ==> #[trigger] self.entries@[j].0@ != k@,
            decreases self.entries@.len() - i,
        {
            if crate::text::str_eq(self.entries[i].0.as_str(), k) {
                proof {
                    lemma_first_at(self.entries@, k@, i as int);
                }
                return Some(i);
            }
            i = i + 1;
        }
        proof {
            lemma_absent(self.entries@, k@);
        }
        None
    }

    /// The value under a key.
    pub fn get(&self, k: &str) -> (r: Option<&V>)
        ensures
            match r {
                Some(v) => self@.contains_key(k@) && self@[k@] == *v,
                None => !self@.contains_key(k@),
            },
    {
        match self.position(k) {
            Some(i) => Some(&self.entries[i].1),
            None => None,
        }
    }

    /// Whether a key is present.
    pub fn contains_key(&self, k: &str) -> (r: bool)
        ensures
            r == self@.contains_key(k@),
    {
        self.position(k).is_some()
    }

    /// Puts a value under a key, replacing any value there; a new key goes
    /// last.
    pub fn insert(&mut self, k: String, v: V)
        ensures
            final(self)@ == old(self)@.insert(k@, v),
    {
        proof {
            use_type_invariant(&*self);
        }
        let ghost s = self.entries@;
        match self.position(k.as_str()) {
            Some(i) => {
                let ghost kv = k@;
                let ghost vv = v;
                let mut entries: Vec<(String, V)> = Vec::new();
                std::mem::swap(&mut entries, &mut self.entries);
                entries.set(i, (k, v));
                let ghost t = entries@;
                assert(t =~= s.update(i as int, t[i as int]));
                proof {
                    lemma_find_key(s, kv);
                    assert forall|a: int, b: int| 0 <= a < b < t.len() implies #[trigger] t[a].0@ != #[trigger] t[b].0@ by {
                        if a == i {
                            assert(s[a].0@ == kv);
                        } else if b == i {
                            assert(s[b].0@ == kv);
                        } else {
                            assert(s[a] == t[a] && s[b] == t[b]);
                        }
                    }
                    assert forall|k2: Seq<char>| #[trigger] entries_map(t).contains_key(k2) == entries_map(s).insert(kv, vv).contains_key(k2)
                        && (entries_map(t).contains_key(k2) ==> entries_map(t)[k2] == entries_map(s).insert(kv, vv)[k2])
                        && find_key(t, k2) == (if k2 == kv {
                        Some(i as int)
                    } else {
                        find_key(s, k2)
                    }) by {
                        lemma_find_key(s, k2);
                        if k2 == kv {
                            assert forall|j: int| 0 <= j < i implies #[trigger] t[j].0@ != k2 by {
                                assert(t[j] == s[j]);
                            }
                            lemma_first_at(t, k2, i as int);
                        } else {
                            match find_key(s, k2) {
                                Some(m) => {
                                    assert(m != i);
                                    assert forall|j: int| 0 <= j < m implies #[trigger] t[j].0@ != k2 by {
                                        if j != i {
                                            assert(t[j] == s[j]);
                                        }
                                    }
                                    lemma_first_at(t, k2, m);
                                },
                                None => {
                                    assert forall|j: int| 0 <= j < t.len() implies #[trigger] t[j].0@ != k2 by {
                                        if j != i {
                                            assert(t[j] == s[j]);
                                        }
                                    }
                                    lemma_absent(t, k2);
                                },
                            }
                        }
                    }
                    assert(entries_map(t) =~= entries_map(s).insert(kv, vv));
                }
                self.entries = entries;
            },
            None => {
                let ghost kv = k@;
                let ghost vv = v;
                let mut entries: Vec<(String, V)> = Vec::new();
                std::mem::swap(&mut entries, &mut self.entries);
                entries.push((k, v));
                let ghost t = entries@;
                proof {
                    lemma_find_key(s, kv);
                    assert forall|a: int, b: int| 0 <= a < b < t.len() implies #[trigger] t[a].0@ != #[trigger] t[b].0@ by {
                        if b == s.len() {
                            assert(t[a] == s[a]);
                        } else {
                            assert(s[a] == t[a] && s[b] == t[b]);
                        }
                    }
                    assert forall|k2: Seq<char>| #[trigger] entries_map(t).contains_key(k2) == entries_map(s).insert(kv, vv).contains_key(k2)
                        && (entries_map(t).contains_key(k2) ==> entries_map(t)[k2] == entries_map(s).insert(kv, vv)[k2])
                        && find_key(t, k2) == (if k2 == kv {
                        Some(s.len() as int)
                    } else {
                        find_key(s, k2)
                    }) by {
                        lemma_find_key(s, k2);
                        if k2 == kv {
                            assert forall|j: int| 0 <= j < s.len() implies #[trigger] t[j].0@ != k2 by {
                                assert(t[j] == s[j]);
                            }
                            lemma_first_at(t, k2, s.len() as int);
                        } else {
                            match find_key(s, k2) {
                                Some(m) => {
                                    assert forall|j: int| 0 <= j < m implies #[trigger] t[j].0@ != k2 by {
                                        assert(t[j] == s[j]);
                                    }
                                    lemma_first_at(t, k2, m);
                                },
                                None => {
                                    assert forall|j: int| 0 <= j < t.len() implies #[trigger] t[j].0@ != k2 by {
                                        if j < s.len() {
                                            assert(t[j] == s[j]);
                                        }
                                    }
                                    lemma_absent(t, k2);
                                },
                            }
                        }
                    }
                    assert(entries_map(t) =~= entries_map(s).insert(kv, vv));
                }
                self.entries = entries;
            },
        }
    }

    /// Removes a key, returning its value.
    pub fn remove(&mut self, k: &str) -> (r: Option<V>)
        ensures
            final(self)@ == old(self)@.remove(k@),
            r == if old(self)@.contains_key(k@) {
                Some(old(self)@[k@])
            } else {
                None
            },
    {
        proof {
            use_type_invariant(&*self);
        }
        let ghost s = self.entries@;
        match self.position(k) {
            Some(i) => {
                let mut entries: Vec<(String, V)> = Vec::new();
                std::mem::swap(&mut entries, &mut self.entries);
                let (_, v) = entries.remove(i);
                let ghost t = entries@;
                proof {
                    let kv = k@;
                    lemma_find_key(s, kv);
                    assert forall|j: int| 0 <= j < t.len() implies #[trigger] t[j] == (if j < i {
                        s[j]
                    } else {
                        s[j + 1]
                    }) by {}
                    assert forall|a: int, b: int| 0 <= a < b < t.len() implies #[trigger] t[a].0@ != #[trigger] t[b].0@ by {
                        let a2 = if a < i {
                            a
                        } else {
                            a + 1
                        };
                        let b2 = if b < i {
                            b
                        } else {
                            b + 1
                        };
                        assert(t[a] == s[a2] && t[b] == s[b2]);
                    }
                    assert forall|k2: Seq<char>| #[trigger] entries_map(t).contains_key(k2) == entries_map(s).remove(kv).contains_key(k2)
                        && (entries_map(t).contains_key(k2) ==> entries_map(t)[k2] == entries_map(s).remove(kv)[k2])
                        && find_key(t, k2) == (if k2 == kv {
                        None
                    } else {
                        match find_key(s, k2) {
                            Some(m) => Some(
                                if m < i {
                                    m
                                } else {
                                    m - 1
                                },
                            ),
                            None => None,
                        }
                    }) by {
                        lemma_find_key(s, k2);
                        if k2 == kv {
                            assert forall|j: int| 0 <= j < t.len() implies #[trigger] t[j].0@ != k2 by {
                                let j2 = if j < i {
                                    j
                                } else {
                                    j + 1
                                };
                                assert(t[j] == s[j2]);
                                assert(j2 != i);
                            }
                            lemma_absent(t, k2);
                        } else {
                            match find_key(s, k2) {
                                Some(m) => {
                                    assert(m != i);
                                    let m2 = if m < i {
                                        m
                                    } else {
                                        m - 1
                                    };
                                    assert(t[m2] == s[m]);
                                    assert forall|j: int| 0 <= j < m2 implies #[trigger] t[j].0@ != k2 by {
                                        let j2 = if j < i {
                                            j
                                        } else {
                                            j + 1
                                        };
                                        assert(t[j] == s[j2]);
                                    }
                                    lemma_first_at(t, k2, m2);
                                },
                                None => {
                                    assert forall|j: int| 0 <= j < t.len() implies #[trigger] t[j].0@ != k2 by {
                                        let j2 = if j < i {
                                            j
                                        } else {
                                            j + 1
                                        };
                                        assert(t[j] == s[j2]);
                                    }
                                    lemma_absent(t, k2);
                                },
                            }
                        }
                    }
                    assert(entries_map(t) =~= entries_map(s).remove(kv));
                }
                self.entries = entries;
                Some(v)
            },
            None => {
                proof {
                    assert(entries_map(s) =~= entries_map(s).remove(k@));
                }
                None
            },
        }
    }
}

} // verus!
