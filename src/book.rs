use vstd::prelude::*;
use crate::encoding::same_id;
use crate::types::ProposalId;

verus! {

/// A record filed under a proposal id.
pub struct Entry<V> {
    pub id: ProposalId,
    pub value: V,
}

/// The value filed under `id`, if any.
pub open spec fn lookup<V>(s: Seq<Entry<V>>, id: Seq<u8>) -> Option<V>
    decreases s.len(),
{
    if s.len() == 0 {
        None
    } else if s.last().id@ == id {
        Some(s.last().value)
    } else {
        lookup(s.drop_last(), id)
    }
}

pub open spec fn ids_unique<V>(s: Seq<Entry<V>>) -> bool {
    forall|i: int, j: int| 0 <= i < s.len() && 0 <= j < s.len() && i != j ==> s[i].id@ != s[j].id@
}

proof fn lemma_lookup_none<V>(s: Seq<Entry<V>>, id: Seq<u8>)
    ensures
        lookup(s, id) is None <==> (forall|i: int| 0 <= i < s.len() ==> s[i].id@ != id),
    decreases s.len(),
{
    if s.len() > 0 {
        lemma_lookup_none(s.drop_last(), id);
        if lookup(s, id) is None {
            assert forall|i: int| 0 <= i < s.len() implies s[i].id@ != id by {
                if i < s.len() - 1 {
                    assert(s[i] == s.drop_last()[i]);
                }
            }
        }
        if forall|i: int| 0 <= i < s.len() ==> s[i].id@ != id {
            assert(s.last().id@ != id);
            assert forall|i: int| 0 <= i < s.drop_last().len() implies s.drop_last()[i].id@
                != id by {
                assert(s.drop_last()[i] == s[i]);
            }
        }
    }
}

proof fn lemma_lookup_at<V>(s: Seq<Entry<V>>, i: int)
    requires
        ids_unique(s),
        0 <= i < s.len(),
    ensures
        lookup(s, s[i].id@) == Some(s[i].value),
    decreases s.len(),
{
    if i < s.len() - 1 {
        assert(s.last() == s[s.len() - 1]);
        assert(s[s.len() - 1].id@ != s[i].id@);
        assert(s.drop_last()[i] == s[i]);
        lemma_lookup_at(s.drop_last(), i);
    }
}

proof fn lemma_lookup_update<V>(s: Seq<Entry<V>>, i: int, x: Entry<V>, k: Seq<u8>)
    requires
        ids_unique(s),
        0 <= i < s.len(),
        x.id@ == s[i].id@,
    ensures
        ids_unique(s.update(i, x)),
        lookup(s.update(i, x), k) == if k == x.id@ {
            Some(x.value)
        } else {
            lookup(s, k)
        },
    decreases s.len(),
{
    let u = s.update(i, x);
    assert(ids_unique(u)) by {
        assert forall|a: int, b: int|
            0 <= a < u.len() && 0 <= b < u.len() && a != b implies u[a].id@ != u[b].id@ by {
            assert(u[a].id@ == s[a].id@);
            assert(u[b].id@ == s[b].id@);
        }
    }
    if k == x.id@ {
        lemma_lookup_at(u, i);
    } else if i == s.len() - 1 {
        assert(u.drop_last() =~= s.drop_last());
    } else {
        assert(u.drop_last() =~= s.drop_last().update(i, x));
        assert(u.last() == s.last());
        lemma_lookup_update(s.drop_last(), i, x, k);
    }
}

proof fn lemma_lookup_push<V>(s: Seq<Entry<V>>, x: Entry<V>, k: Seq<u8>)
    ensures
        lookup(s.push(x), k) == if k == x.id@ {
            Some(x.value)
        } else {
            lookup(s, k)
        },
{
    assert(s.push(x).drop_last() =~= s);
}

proof fn lemma_lookup_remove<V>(s: Seq<Entry<V>>, i: int, k: Seq<u8>)
    requires
        ids_unique(s),
        0 <= i < s.len(),
    ensures
        ids_unique(s.remove(i)),
        lookup(s.remove(i), k) == if k == s[i].id@ {
            None
        } else {
            lookup(s, k)
        },
    decreases s.len(),
{
    let u = s.remove(i);
    assert(ids_unique(u)) by {
        assert forall|a: int, b: int|
            0 <= a < u.len() && 0 <= b < u.len() && a != b implies u[a].id@ != u[b].id@ by {
            let a2 = if a < i { a } else { a + 1 };
            let b2 = if b < i { b } else { b + 1 };
            assert(u[a] == s[a2]);
            assert(u[b] == s[b2]);
        }
    }
    if k == s[i].id@ {
        lemma_lookup_none(u, k);
        assert forall|j: int| 0 <= j < u.len() implies u[j].id@ != k by {
            let j2 = if j < i { j } else { j + 1 };
            assert(u[j] == s[j2]);
        }
    } else if i == s.len() - 1 {
        assert(u =~= s.drop_last());
    } else {
        assert(u.drop_last() =~= s.drop_last().remove(i));
        assert(u.last() == s.last());
        lemma_lookup_remove(s.drop_last(), i, k);
    }
}

/// Records filed by proposal id, at most one per id.
pub struct Book<V> {
    entries: Vec<Entry<V>>,
}

impl<V> View for Book<V> {
    type V = Map<Seq<u8>, V>;

    closed spec fn view(&self) -> Map<Seq<u8>, V> {
        Map::new(
            |k: Seq<u8>| lookup(self.entries@, k) is Some,
            |k: Seq<u8>| lookup(self.entries@, k)->Some_0,
        )
    }
}

impl<V> Book<V> {
    pub closed spec fn wf(&self) -> bool {
        ids_unique(self.entries@)
    }

    proof fn lemma_view(&self, k: Seq<u8>)
        ensures
            self@.contains_key(k) == lookup(self.entries@, k) is Some,
            self@.contains_key(k) ==> lookup(self.entries@, k) == Some(self@[k]),
    {
    }

    pub fn new() -> (r: Self)
        ensures
            r.wf(),
            r@ == Map::<Seq<u8>, V>::empty(),
    {
        let r = Book { entries: Vec::new() };
        assert(r@ =~= Map::<Seq<u8>, V>::empty());
        r
    }

    fn find(&self, id: &ProposalId) -> (r: Option<usize>)
        ensures
            match r {
                Some(i) => i < self.entries@.len() && self.entries@[i as int].id@ == id@,
                None => forall|i: int| 0 <= i < self.entries@.len() ==> self.entries@[i].id@ != id@,
            },
    {
        let mut i: usize = 0;
        while i < self.entries.len()
            invariant
                0 <= i <= self.entries@.len(),
                forall|k: int| 0 <= k < i ==> self.entries@[k].id@ != id@,
            decreases self.entries@.len() - i,
        {
            if same_id(&self.entries[i].id, id) {
                return Some(i);
            }
            i = i + 1;
        }
        None
    }

    /// The record filed under `id`.
    pub fn get(&self, id: &ProposalId) -> (r: Option<&V>)
        requires
            self.wf(),
        ensures
            match r {
                Some(v) => self@.contains_key(id@) && *v == self@[id@],
                None => !self@.contains_key(id@),
            },
    {
        proof {
            self.lemma_view(id@);
        }
        match self.find(id) {
            Some(i) => {
                proof {
                    lemma_lookup_at(self.entries@, i as int);
                }
                Some(&self.entries[i].value)
            },
            None => {
                proof {
                    lemma_lookup_none(self.entries@, id@);
                }
                None
            },
        }
    }

    /// Files `value` under `id`, replacing any record there.
    pub fn set(&mut self, id: ProposalId, value: V)
        requires
            old(self).wf(),
        ensures
            final(self).wf(),
            final(self)@ == old(self)@.insert(id@, value),
    {
        let ghost s = self.entries@;
        let ghost x = Entry { id, value };
        match self.find(&id) {
            Some(i) => {
                proof {
                    assert forall|k: Seq<u8>| true implies #[trigger] lookup(s.update(i as int, x), k)
                        == (if k == id@ {
                        Some(value)
                    } else {
                        lookup(s, k)
                    }) by {
                        lemma_lookup_update(s, i as int, x, k);
                    }
                    lemma_lookup_update(s, i as int, x, id@);
                }
                self.entries.set(i, Entry { id, value });
            },
            None => {
                proof {
                    assert forall|k: Seq<u8>| true implies #[trigger] lookup(s.push(x), k) == (if k
                        == id@ {
                        Some(value)
                    } else {
                        lookup(s, k)
                    }) by {
                        lemma_lookup_push(s, x, k);
                    }
                    assert(ids_unique(s.push(x))) by {
                        let t = s.push(x);
                        assert forall|a: int, b: int|
                            0 <= a < t.len() && 0 <= b < t.len() && a != b implies t[a].id@
                            != t[b].id@ by {
                            if a < t.len() - 1 {
                                assert(t[a] == s[a]);
                            }
                            if b < t.len() - 1 {
                                assert(t[b] == s[b]);
                            }
                        }
                    }
                }
                self.entries.push(Entry { id, value });
            },
        }
        proof {
            assert(self@ =~= old(self)@.insert(id@, value));
        }
    }

    /// Removes the record filed under `id`, if any.
    pub fn remove(&mut self, id: &ProposalId)
        requires
            old(self).wf(),
        ensures
            final(self).wf(),
            final(self)@ == old(self)@.remove(id@),
    {
        let ghost s = self.entries@;
        match self.find(id) {
            Some(i) => {
                proof {
                    assert forall|k: Seq<u8>| true implies #[trigger] lookup(s.remove(i as int), k)
                        == (if k == id@ {
                        None
                    } else {
                        lookup(s, k)
                    }) by {
                        lemma_lookup_remove(s, i as int, k);
                    }
                    lemma_lookup_remove(s, i as int, id@);
                }
                self.entries.remove(i);
                proof {
                    assert(self@ =~= old(self)@.remove(id@));
                }
            },
            None => {
                proof {
                    lemma_lookup_none(s, id@);
                    assert(self@ =~= old(self)@.remove(id@));
                }
            },
        }
    }
}

} // verus!
