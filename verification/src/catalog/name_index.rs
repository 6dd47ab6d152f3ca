use vstd::prelude::*;

verus! {

/// One name binding: within `scope`, the name `key` stands for `id`.
#[derive(Clone)]
pub struct NameEntry {
    pub scope: u32,
    pub key: String,
    pub id: u32,
}

/// Names bound to ids, each (scope, name) at most once.
#[derive(Clone)]
pub struct NameIndex {
    entries: Vec<NameEntry>,
}

pub open spec fn entry_key(e: NameEntry) -> (u32, Seq<char>) {
    (e.scope, e.key@)
}

pub open spec fn keys_unique(s: Seq<NameEntry>) -> bool {
    forall|i: int, j: int|
        0 <= i < s.len() && 0 <= j < s.len() && i != j ==> entry_key(#[trigger] s[i]) != entry_key(
            #[trigger] s[j],
        )
}

pub open spec fn seq_has_key(s: Seq<NameEntry>, k: (u32, Seq<char>)) -> bool {
    exists|i: int| 0 <= i < s.len() && entry_key(#[trigger] s[i]) == k
}

pub open spec fn seq_map(s: Seq<NameEntry>) -> Map<(u32, Seq<char>), u32> {
    Map::new(
        |k: (u32, Seq<char>)| seq_has_key(s, k),
        |k: (u32, Seq<char>)| s[choose|i: int| 0 <= i < s.len() && entry_key(#[trigger] s[i]) == k].id,
    )
}

/// With unique keys, the entry at `i` is the one the map reads for its key.
proof fn lemma_map_at(s: Seq<NameEntry>, i: int)
    requires
        keys_unique(s),
        0 <= i < s.len(),
    ensures
        seq_map(s).contains_key(entry_key(s[i])),
        seq_map(s)[entry_key(s[i])] == s[i].id,
{
    let k = entry_key(s[i]);
    assert(seq_has_key(s, k));
    let j = choose|j: int| 0 <= j < s.len() && entry_key(#[trigger] s[j]) == k;
    assert(j == i);
}

/// Some name of `scope` is bound to `id` in `m`.
pub open spec fn id_in_scope(m: Map<(u32, Seq<char>), u32>, scope: u32, id: u32) -> bool {
    exists|k: (u32, Seq<char>)| #[trigger] m.contains_key(k) && k.0 == scope && m[k] == id
}

impl View for NameIndex {
    type V = Map<(u32, Seq<char>), u32>;

    closed spec fn view(&self) -> Map<(u32, Seq<char>), u32> {
        seq_map(self.entries@)
    }
}

impl NameIndex {
    /// Number of bindings held.
    pub closed spec fn size(&self) -> nat {
        self.entries@.len()
    }

    pub closed spec fn wf(&self) -> bool {
        keys_unique(self.entries@)
    }

    pub fn new() -> (r: Self)
        ensures
            r.wf(),
            r@ == Map::<(u32, Seq<char>), u32>::empty(),
    {
        let r = NameIndex { entries: Vec::new() };
        assert(r@ =~= Map::<(u32, Seq<char>), u32>::empty());
        r
    }

    fn find(&self, scope: u32, key: &String) -> (r: Option<usize>)
        requires
            self.wf(),
        ensures
            match r {
                Some(i) => i < self.entries@.len() && entry_key(self.entries@[i as int]) == (
                    scope,
                    key@,
                ),
                None => !seq_has_key(self.entries@, (scope, key@)),
            },
    {
        let mut i: usize = 0;
        while i < self.entries.len()
            invariant
                i <= self.entries@.len(),
                forall|j: int| 0 <= j < i ==> entry_key(#[trigger] self.entries@[j]) != (scope, key@),
            decreases self.entries@.len() - i,
        {
            let e = &self.entries[i];
            if e.scope == scope && e.key == *key {
                return Some(i);
            }
            i = i + 1;
        }
        None
    }

    /// The id bound to `(scope, key)`.
    pub fn get(&self, scope: u32, key: &String) -> (r: Option<u32>)
        requires
            self.wf(),
        ensures
            r == self@.get((scope, key@)),
    {
        match self.find(scope, key) {
            Some(i) => {
                proof {
                    lemma_map_at(self.entries@, i as int);
                }
                Some(self.entries[i].id)
            },
            None => None,
        }
    }

    /// Whether `(scope, key)` is bound.
    pub fn contains(&self, scope: u32, key: &String) -> (r: bool)
        requires
            self.wf(),
        ensures
            r == self@.contains_key((scope, key@)),
    {
        self.find(scope, key).is_some()
    }

    /// Binds `(scope, key)` to `id`, replacing an earlier binding.
    pub fn insert(&mut self, scope: u32, key: String, id: u32)
        requires
            old(self).wf(),
        ensures
            final(self).wf(),
            final(self)@ == old(self)@.insert((scope, key@), id),
    {
        let ghost k = (scope, key@);
        let ghost s = self.entries@;
        match self.find(scope, &key) {
            Some(i) => {
                let e = NameEntry { scope, key, id };
                self.entries.set(i, e);
                proof {
                    let t = self.entries@;
                    assert(keys_unique(t)) by {
                        assert forall|a: int, b: int|
                            0 <= a < t.len() && 0 <= b < t.len() && a != b implies entry_key(
                            #[trigger] t[a],
                        ) != entry_key(#[trigger] t[b]) by {
                            assert(entry_key(t[a]) == entry_key(s[a]));
                            assert(entry_key(t[b]) == entry_key(s[b]));
                        }
                    }
                    assert forall|q: (u32, Seq<char>)| #[trigger] seq_has_key(t, q) == seq_has_key(s, q) by {
                        if seq_has_key(t, q) {
                            let a = choose|a: int| 0 <= a < t.len() && entry_key(#[trigger] t[a]) == q;
                            assert(entry_key(s[a]) == q);
                        }
                        if seq_has_key(s, q) {
                            let a = choose|a: int| 0 <= a < s.len() && entry_key(#[trigger] s[a]) == q;
                            assert(entry_key(t[a]) == q);
                        }
                    }
                    assert forall|q: (u32, Seq<char>)| seq_has_key(t, q) implies #[trigger] seq_map(t)[q]
                        == seq_map(s).insert(k, id)[q] by {
                        let a = choose|a: int| 0 <= a < t.len() && entry_key(#[trigger] t[a]) == q;
                        lemma_map_at(t, a);
                        lemma_map_at(s, a);
                    }
                    assert(seq_map(t) =~= seq_map(s).insert(k, id));
                }
            },
            None => {
                self.entries.push(NameEntry { scope, key, id });
                proof {
                    let t = self.entries@;
                    let n = s.len() as int;
                    assert(t[n].id == id);
                    assert(keys_unique(t)) by {
                        assert forall|a: int, b: int|
                            0 <= a < t.len() && 0 <= b < t.len() && a != b implies entry_key(
                            #[trigger] t[a],
                        ) != entry_key(#[trigger] t[b]) by {
                            if a == n {
                                assert(t[b] == s[b]);
                            } else if b == n {
                                assert(t[a] == s[a]);
                            } else {
                                assert(t[a] == s[a] && t[b] == s[b]);
                            }
                        }
                    }
                    assert forall|q: (u32, Seq<char>)| #[trigger] seq_has_key(t, q) == (seq_has_key(s, q)
                        || q == k) by {
                        if seq_has_key(t, q) {
                            let a = choose|a: int| 0 <= a < t.len() && entry_key(#[trigger] t[a]) == q;
                            if a < n {
                                assert(t[a] == s[a]);
                            }
                        }
                        if seq_has_key(s, q) {
                            let a = choose|a: int| 0 <= a < s.len() && entry_key(#[trigger] s[a]) == q;
                            assert(t[a] == s[a]);
                        }
                        if q == k {
                            assert(entry_key(t[n]) == q);
                        }
                    }
                    assert forall|q: (u32, Seq<char>)| seq_has_key(t, q) implies #[trigger] seq_map(t)[q]
                        == seq_map(s).insert(k, id)[q] by {
                        let a = choose|a: int| 0 <= a < t.len() && entry_key(#[trigger] t[a]) == q;
                        lemma_map_at(t, a);
                        if a < n {
                            assert(t[a] == s[a]);
                            lemma_map_at(s, a);
                        }
                    }
                    assert(seq_map(t) =~= seq_map(s).insert(k, id));
                }
            },
        }
    }

    /// Unbinds `(scope, key)`, returning the id it was bound to.
    pub fn remove(&mut self, scope: u32, key: &String) -> (r: Option<u32>)
        requires
            old(self).wf(),
        ensures
            final(self).wf(),
            r == old(self)@.get((scope, key@)),
            final(self)@ == old(self)@.remove((scope, key@)),
            r is Some ==> final(self).size() == old(self).size() - 1,
    {
        let ghost k = (scope, key@);
        let ghost s = self.entries@;
        match self.find(scope, key) {
            Some(i) => {
                proof {
                    lemma_map_at(s, i as int);
                }
                let e = self.entries.remove(i);
                proof {
                    let t = self.entries@;
                    let m = i as int;
                    assert forall|a: int| 0 <= a < t.len() implies #[trigger] t[a] == s[if a < m {
                        a
                    } else {
                        a + 1
                    }] by {}
                    assert(keys_unique(t)) by {
                        assert forall|a: int, b: int|
                            0 <= a < t.len() && 0 <= b < t.len() && a != b implies entry_key(
                            #[trigger] t[a],
                        ) != entry_key(#[trigger] t[b]) by {
                            let a2 = if a < m { a } else { a + 1 };
                            let b2 = if b < m { b } else { b + 1 };
                            assert(t[a] == s[a2] && t[b] == s[b2]);
                        }
                    }
                    assert forall|q: (u32, Seq<char>)| #[trigger] seq_has_key(t, q) == (seq_has_key(s, q)
                        && q != k) by {
                        if seq_has_key(t, q) {
                            let a = choose|a: int| 0 <= a < t.len() && entry_key(#[trigger] t[a]) == q;
                            let a2 = if a < m { a } else { a + 1 };
                            assert(t[a] == s[a2]);
                            assert(a2 != m);
                        }
                        if seq_has_key(s, q) && q != k {
                            let a = choose|a: int| 0 <= a < s.len() && entry_key(#[trigger] s[a]) == q;
                            assert(a != m);
                            let a1 = if a < m { a } else { a - 1 };
                            assert(t[a1] == s[a]);
                        }
                    }
                    assert forall|q: (u32, Seq<char>)| seq_has_key(t, q) implies #[trigger] seq_map(t)[q]
                        == seq_map(s)[q] by {
                        let a = choose|a: int| 0 <= a < t.len() && entry_key(#[trigger] t[a]) == q;
                        let a2 = if a < m { a } else { a + 1 };
                        lemma_map_at(t, a);
                        lemma_map_at(s, a2);
                    }
                    assert(seq_map(t) =~= seq_map(s).remove(k));
                }
                Some(e.id)
            },
            None => {
                assert(seq_map(s) =~= seq_map(s).remove(k));
                None
            },
        }
    }

    fn find_scope(&self, scope: u32) -> (r: Option<usize>)
        requires
            self.wf(),
        ensures
            match r {
                Some(i) => i < self.entries@.len() && self.entries@[i as int].scope == scope,
                None => forall|k: (u32, Seq<char>)| #[trigger] self@.contains_key(k) ==> k.0 != scope,
            },
    {
        let mut i: usize = 0;
        while i < self.entries.len()
            invariant
                i <= self.entries@.len(),
                forall|j: int| 0 <= j < i ==> (#[trigger] self.entries@[j]).scope != scope,
            decreases self.entries@.len() - i,
        {
            if self.entries[i].scope == scope {
                return Some(i);
            }
            i = i + 1;
        }
        assert forall|k: (u32, Seq<char>)| #[trigger] self@.contains_key(k) implies k.0 != scope by {
            let j = choose|j: int| 0 <= j < self.entries@.len() && entry_key(#[trigger] self.entries@[j]) == k;
            assert(self.entries@[j].scope != scope);
        }
        None
    }

    /// Unbinds every name of a scope, returning the ids those names were bound to.
    pub fn remove_scope(&mut self, scope: u32) -> (r: Vec<u32>)
        requires
            old(self).wf(),
        ensures
            final(self).wf(),
            final(self)@ == old(self)@.restrict(
                old(self)@.dom().filter(|k: (u32, Seq<char>)| k.0 != scope),
            ),
            forall|i: int| 0 <= i < r@.len() ==> id_in_scope(old(self)@, scope, #[trigger] r@[i]),
            forall|k: (u32, Seq<char>)|
                #[trigger] old(self)@.contains_key(k) && k.0 == scope ==> r@.contains(old(self)@[k]),
    {
        let ghost m0 = self@;
        let mut removed: Vec<u32> = Vec::new();
        loop
            invariant
                self.wf(),
                forall|k: (u32, Seq<char>)| #[trigger] self@.contains_key(k) ==> m0.contains_key(k)
                    && self@[k] == m0[k],
                forall|k: (u32, Seq<char>)| #[trigger] m0.contains_key(k) && k.0 != scope
                    ==> self@.contains_key(k),
                forall|k: (u32, Seq<char>)|
                    #[trigger] m0.contains_key(k) && k.0 == scope && !self@.contains_key(k)
                        ==> removed@.contains(m0[k]),
                forall|i: int| 0 <= i < removed@.len() ==> id_in_scope(m0, scope, #[trigger] removed@[i]),
            ensures
                self.wf(),
                forall|k: (u32, Seq<char>)| #[trigger] self@.contains_key(k) ==> m0.contains_key(k)
                    && self@[k] == m0[k] && k.0 != scope,
                forall|k: (u32, Seq<char>)| #[trigger] m0.contains_key(k) && k.0 != scope
                    ==> self@.contains_key(k),
                forall|k: (u32, Seq<char>)|
                    #[trigger] m0.contains_key(k) && k.0 == scope ==> removed@.contains(m0[k]),
                forall|i: int| 0 <= i < removed@.len() ==> id_in_scope(m0, scope, #[trigger] removed@[i]),
            decreases self.entries@.len(),
        {
            match self.find_scope(scope) {
                None => break,
                Some(i) => {
                    let key = self.entries[i].key.clone();
                    let ghost k = (scope, key@);
                    let ghost before = self@;
                    let ghost removed_before = removed@;
                    proof {
                        assert(entry_key(self.entries@[i as int]) == k);
                        lemma_map_at(self.entries@, i as int);
                    }
                    let ghost len_before = self.entries@.len();
                    let id = self.remove(scope, &key);
                    let id = id.unwrap();
                    removed.push(id);
                    proof {
                        assert(self.entries@.len() < len_before);
                        assert(removed@[removed@.len() - 1] == m0[k]);
                        assert forall|q: (u32, Seq<char>)|
                            #[trigger] m0.contains_key(q) && q.0 == scope && !self@.contains_key(q)
                            implies removed@.contains(m0[q]) by {
                            if q != k {
                                assert(!before.contains_key(q));
                                let j = choose|j: int| 0 <= j < removed_before.len() && removed_before[j] == m0[q];
                                assert(removed@[j] == m0[q]);
                            }
                        }
                        assert forall|j: int| 0 <= j < removed@.len() implies id_in_scope(m0, scope, #[trigger] removed@[j]) by {
                            if j < removed_before.len() {
                                assert(removed@[j] == removed_before[j]);
                            } else {
                                assert(m0.contains_key(k));
                            }
                        }
                    }
                },
            }
        }
        assert(self@ =~= m0.restrict(m0.dom().filter(|k: (u32, Seq<char>)| k.0 != scope)));
        removed
    }
}

} // verus!
