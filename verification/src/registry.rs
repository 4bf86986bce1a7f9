//! The session registries: a mapping from session id to live session record,
//! the single source of truth for session liveness. One instance holds the
//! interactive shell sessions, one the file-transfer sessions, and one the
//! kept-alive jump-host connections; the driver outside the crate guards each
//! instance for concurrent access as one unit.

use vstd::prelude::*;

verus! {

/// No two entries of the sequence share a key.
pub open spec fn reg_keys_unique<T>(s: Seq<(String, T)>) -> bool {
    forall|i: int, j: int| 0 <= i < j < s.len() ==> s[i].0@ != s[j].0@
}

/// Whether some entry of the sequence has this key.
pub open spec fn reg_has_key<T>(s: Seq<(String, T)>, id: Seq<char>) -> bool {
    exists|i: int| 0 <= i < s.len() && s[i].0@ == id
}

/// The index of the entry with this key.
pub open spec fn reg_index_of<T>(s: Seq<(String, T)>, id: Seq<char>) -> int {
    choose|i: int| 0 <= i < s.len() && s[i].0@ == id
}

/// The entry sequence read as a map from key to value.
pub open spec fn reg_map_of<T>(s: Seq<(String, T)>) -> Map<Seq<char>, T> {
    Map::new(|id: Seq<char>| reg_has_key(s, id), |id: Seq<char>| s[reg_index_of(s, id)].1)
}

/// With unique keys, the chosen index of a key is the index that holds it.
proof fn lemma_reg_index_unique<T>(s: Seq<(String, T)>, i: int)
    requires
        reg_keys_unique(s),
        0 <= i < s.len(),
    ensures
        reg_index_of(s, s[i].0@) == i,
{
    assert(reg_has_key(s, s[i].0@));
    let j = reg_index_of(s, s[i].0@);
    if i != j {
        assert(s[i].0@ != s[j].0@);
    }
}

/// With unique keys, the value at any index is what the map holds under its key.
proof fn lemma_reg_map_at<T>(s: Seq<(String, T)>, i: int)
    requires
        reg_keys_unique(s),
        0 <= i < s.len(),
    ensures
        reg_map_of(s).contains_key(s[i].0@),
        reg_map_of(s)[s[i].0@] == s[i].1,
{
    lemma_reg_index_unique(s, i);
}

/// Replacing the entry at an index by one with the same key is insertion
/// into the map.
proof fn lemma_reg_map_update<T>(s: Seq<(String, T)>, i: int, v: (String, T))
    requires
        reg_keys_unique(s),
        0 <= i < s.len(),
        s[i].0@ == v.0@,
    ensures
        reg_keys_unique(s.update(i, v)),
        reg_map_of(s.update(i, v)) == reg_map_of(s).insert(v.0@, v.1),
{
    let t = s.update(i, v);
    assert forall|x: int| 0 <= x < t.len() implies #[trigger] t[x].0@ == s[x].0@ by {}
    assert(reg_keys_unique(t));
    let m1 = reg_map_of(t);
    let m2 = reg_map_of(s).insert(v.0@, v.1);
    assert forall|id: Seq<char>| #[trigger] m1.contains_key(id) implies m2.contains_key(id)
        && m1[id] == m2[id] by {
        let j = reg_index_of(t, id);
        assert(0 <= j < t.len() && t[j].0@ == id);
        assert(s[j].0@ == id);
        assert(reg_has_key(s, id));
        if id == v.0@ {
            lemma_reg_index_unique(t, i);
            assert(j == i);
        } else {
            assert(j != i);
            lemma_reg_index_unique(s, j);
        }
    }
    assert forall|id: Seq<char>| #[trigger] m2.contains_key(id) implies m1.contains_key(id) by {
        if id == v.0@ {
            assert(t[i].0@ == id);
        } else {
            let j = reg_index_of(s, id);
            assert(t[j].0@ == id);
        }
    }
    assert(m1 =~= m2);
}

/// Appending an entry with a fresh key is insertion into the map.
proof fn lemma_reg_map_push<T>(s: Seq<(String, T)>, v: (String, T))
    requires
        reg_keys_unique(s),
        !reg_has_key(s, v.0@),
    ensures
        reg_keys_unique(s.push(v)),
        reg_map_of(s.push(v)) == reg_map_of(s).insert(v.0@, v.1),
{
    let t = s.push(v);
    assert forall|a: int, b: int| 0 <= a < b < t.len() implies t[a].0@ != t[b].0@ by {
        if b == s.len() {
            assert(t[a] == s[a]);
            if t[a].0@ == v.0@ {
                assert(reg_has_key(s, v.0@));
            }
        } else {
            assert(t[a] == s[a] && t[b] == s[b]);
        }
    }
    let m1 = reg_map_of(t);
    let m2 = reg_map_of(s).insert(v.0@, v.1);
    assert forall|id: Seq<char>| #[trigger] m1.contains_key(id) implies m2.contains_key(id)
        && m1[id] == m2[id] by {
        let j = reg_index_of(t, id);
        assert(0 <= j < t.len() && t[j].0@ == id);
        if id == v.0@ {
            lemma_reg_index_unique(t, s.len() as int);
            assert(j == s.len());
        } else {
            assert(j != s.len());
            assert(s[j].0@ == id);
            assert(reg_has_key(s, id));
            lemma_reg_index_unique(s, j);
        }
    }
    assert forall|id: Seq<char>| #[trigger] m2.contains_key(id) implies m1.contains_key(id) by {
        if id == v.0@ {
            assert(t[s.len() as int].0@ == id);
        } else {
            let j = reg_index_of(s, id);
            assert(t[j].0@ == id);
        }
    }
    assert(m1 =~= m2);
}

/// Removing the entry at an index is removal of its key from the map.
proof fn lemma_reg_map_remove<T>(s: Seq<(String, T)>, i: int)
    requires
        reg_keys_unique(s),
        0 <= i < s.len(),
    ensures
        reg_keys_unique(s.remove(i)),
        reg_map_of(s.remove(i)) == reg_map_of(s).remove(s[i].0@),
{
    let t = s.remove(i);
    assert forall|x: int| 0 <= x < t.len() implies #[trigger] t[x] == (if x < i {
        s[x]
    } else {
        s[x + 1]
    }) by {}
    assert forall|a: int, b: int| 0 <= a < b < t.len() implies t[a].0@ != t[b].0@ by {}
    let m1 = reg_map_of(t);
    let m2 = reg_map_of(s).remove(s[i].0@);
    assert forall|id: Seq<char>| #[trigger] m1.contains_key(id) implies m2.contains_key(id)
        && m1[id] == m2[id] by {
        let j = reg_index_of(t, id);
        assert(0 <= j < t.len() && t[j].0@ == id);
        let k: int = if j < i {
            j
        } else {
            j + 1
        };
        assert(s[k].0@ == id);
        if id == s[i].0@ {
            if k < i {
                assert(s[k].0@ != s[i].0@);
            } else {
                assert(s[i].0@ != s[k].0@);
            }
        }
        assert(reg_has_key(s, id));
        lemma_reg_index_unique(s, k);
    }
    assert forall|id: Seq<char>| #[trigger] m2.contains_key(id) implies m1.contains_key(id) by {
        let k = reg_index_of(s, id);
        assert(0 <= k < s.len() && s[k].0@ == id);
        lemma_reg_index_unique(s, i);
        assert(k != i);
        if k < i {
            assert(t[k].0@ == id);
        } else {
            assert(t[k - 1].0@ == id);
        }
    }
    assert(m1 =~= m2);
}

/// A registry: a mapping from session id to live session record. Lookups are
/// read-only and may run in parallel under the driver's guard; structural
/// mutation is exclusive per registry.
pub struct Registry<T> {
    entries: Vec<(String, T)>,
}

impl<T> Registry<T> {
    /// The registry's invariant: no two entries share an id.
    pub closed spec fn wf(&self) -> bool {
        reg_keys_unique(self.entries@)
    }

    /// The registry read as a map from id to record.
    pub closed spec fn m(&self) -> Map<Seq<char>, T> {
        reg_map_of(self.entries@)
    }

    /// An empty registry.
    pub fn new() -> (r: Self)
        ensures
            r.wf(),
            r.m() == Map::<Seq<char>, T>::empty(),
    {
        let r = Registry { entries: Vec::new() };
        proof {
            assert(r.m() =~= Map::<Seq<char>, T>::empty());
        }
        r
    }

    /// The index holding the given id, if any.
    fn find(&self, id: &str) -> (r: Option<usize>)
        ensures
            r matches Some(i) ==> i < self.entries@.len() && self.entries@[i as int].0@ == id@,
            r is None ==> !reg_has_key(self.entries@, id@),
    {
        let id_owned = id.to_owned();
        let n = self.entries.len();
        for i in 0..n
            invariant
                n == self.entries@.len(),
                id_owned@ == id@,
                forall|j: int| 0 <= j < i ==> self.entries@[j].0@ != id@,
        {
            if self.entries[i].0 == id_owned {
                return Some(i);
            }
        }
        None
    }

    /// Whether a session with this id is registered.
    pub fn contains(&self, id: &str) -> (r: bool)
        requires
            self.wf(),
        ensures
            r == self.m().contains_key(id@),
    {
        match self.find(id) {
            Some(i) => {
                proof {
                    lemma_reg_map_at(self.entries@, i as int);
                }
                true
            },
            None => false,
        }
    }

    /// Whether the registry holds no session at all.
    pub fn is_empty(&self) -> (r: bool)
        requires
            self.wf(),
        ensures
            r == (self.m() == Map::<Seq<char>, T>::empty()),
    {
        if self.entries.len() == 0 {
            proof {
                assert(self.m() =~= Map::<Seq<char>, T>::empty());
            }
            true
        } else {
            proof {
                lemma_reg_map_at(self.entries@, 0);
                assert(self.m() != Map::<Seq<char>, T>::empty());
            }
            false
        }
    }

    /// Register a record under an id; a record already stored under the same
    /// id is replaced.
    pub fn register(&mut self, id: String, item: T)
        requires
            old(self).wf(),
        ensures
            final(self).wf(),
            final(self).m() == old(self).m().insert(id@, item),
    {
        let idx = self.find(id.as_str());
        let ghost s = self.entries@;
        match idx {
            Some(i) => {
                proof {
                    lemma_reg_map_update(s, i as int, (id, item));
                }
                self.entries.set(i, (id, item));
            },
            None => {
                proof {
                    lemma_reg_map_push(s, (id, item));
                }
                self.entries.push((id, item));
            },
        }
    }

    /// Look a record up by id, borrowing it; a caller of the driver holding a
    /// handle keeps using it even if the entry is concurrently removed — only
    /// later lookups stop finding it.
    pub fn lookup(&self, id: &str) -> (r: Option<&T>)
        requires
            self.wf(),
        ensures
            r matches Some(t) ==> self.m().contains_key(id@) && *t == self.m()[id@],
            r is None ==> !self.m().contains_key(id@),
    {
        match self.find(id) {
            Some(i) => {
                proof {
                    lemma_reg_map_at(self.entries@, i as int);
                }
                Some(&self.entries[i].1)
            },
            None => None,
        }
    }

    /// Remove the record with this id, handing it back; removing an absent id
    /// is a no-op, not an error.
    pub fn remove(&mut self, id: &str) -> (removed: Option<T>)
        requires
            old(self).wf(),
        ensures
            final(self).wf(),
            final(self).m() == old(self).m().remove(id@),
            removed matches Some(t) ==> old(self).m().contains_key(id@) && t == old(self).m()[id@],
            removed is None ==> !old(self).m().contains_key(id@),
    {
        let idx = self.find(id);
        let ghost s = self.entries@;
        match idx {
            Some(i) => {
                proof {
                    lemma_reg_map_at(s, i as int);
                    lemma_reg_map_remove(s, i as int);
                }
                let entry = self.entries.remove(i);
                Some(entry.1)
            },
            None => {
                proof {
                    assert(reg_map_of(s) =~= reg_map_of(s).remove(id@));
                }
                None
            },
        }
    }
}

/// Law: registering a fresh session and then removing it restores the
/// registry's map to its former state; in particular the registry is left
/// without that session id.
pub proof fn lemma_register_then_remove<T>(m: Map<Seq<char>, T>, id: Seq<char>, record: T)
    requires
        !m.contains_key(id),
    ensures
        m.insert(id, record).remove(id) == m,
        !m.insert(id, record).remove(id).contains_key(id),
{
    assert(m.insert(id, record).remove(id) =~= m);
}

} // verus!
