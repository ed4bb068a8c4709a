//! The player registry: a table from player name to that player's stored
//! score (the last winning guess), read in contracts as a map from name to
//! score.  Insertion overwrites an existing entry for the same name, so the
//! most recent entry for a name always wins.

use vstd::prelude::*;

verus! {

/// Spec-level reading of an entry table as a map from name to score.
/// Later entries win, matching insertion that overwrites.
pub open spec fn table_view(s: Seq<(String, u32)>) -> Map<Seq<char>, u32>
    decreases s.len(),
{
    if s.len() == 0 {
        Map::empty()
    } else {
        table_view(s.drop_last()).insert(s.last().0@, s.last().1)
    }
}

/// No two entries of the table share a name.
pub open spec fn distinct_names(s: Seq<(String, u32)>) -> bool {
    forall|i: int, j: int| 0 <= i < j < s.len() ==> s[i].0@ != s[j].0@
}

/// The names of a table's entries, in table order.
pub open spec fn names_of(s: Seq<(String, u32)>) -> Seq<Seq<char>> {
    Seq::new(s.len(), |i: int| s[i].0@)
}

/// A name that no entry holds is not in the table's map reading.
proof fn lemma_table_absent(s: Seq<(String, u32)>, k: Seq<char>)
    requires
        forall|i: int| 0 <= i < s.len() ==> s[i].0@ != k,
    ensures
        !table_view(s).contains_key(k),
    decreases s.len(),
{
    if s.len() > 0 {
        assert forall|i: int| 0 <= i < s.drop_last().len() implies s.drop_last()[i].0@ != k by {
            assert(s.drop_last()[i] == s[i]);
        }
        lemma_table_absent(s.drop_last(), k);
    }
}

/// An entry with no later entry of the same name is what the map reading
/// holds for that name.
proof fn lemma_table_present(s: Seq<(String, u32)>, i: int)
    requires
        0 <= i < s.len(),
        forall|j: int| i < j < s.len() ==> s[j].0@ != s[i].0@,
    ensures
        table_view(s).contains_key(s[i].0@),
        table_view(s)[s[i].0@] == s[i].1,
    decreases s.len(),
{
    if i < s.len() - 1 {
        assert forall|j: int| i < j < s.drop_last().len() implies s.drop_last()[j].0@ != s.drop_last()[i].0@ by {
            assert(s.drop_last()[j] == s[j]);
            assert(s.drop_last()[i] == s[i]);
        }
        lemma_table_present(s.drop_last(), i);
        assert(s.drop_last()[i] == s[i]);
        assert(s.last().0@ != s[i].0@);
    }
}

/// Distinctness carries over to the table with one entry removed.
proof fn lemma_distinct_remove(s: Seq<(String, u32)>, i: int)
    requires
        0 <= i < s.len(),
        distinct_names(s),
    ensures
        distinct_names(s.remove(i)),
{
    assert forall|p: int, q: int| 0 <= p < q < s.remove(i).len() implies s.remove(i)[p].0@ != s.remove(i)[q].0@ by {
        let p0 = if p < i { p } else { p + 1 };
        let q0 = if q < i { q } else { q + 1 };
        assert(s.remove(i)[p] == s[p0]);
        assert(s.remove(i)[q] == s[q0]);
    }
}

/// Removing the entry of a name removes exactly that name from the map
/// reading, when names are distinct.
proof fn lemma_table_remove(s: Seq<(String, u32)>, i: int)
    requires
        0 <= i < s.len(),
        distinct_names(s),
    ensures
        table_view(s.remove(i)) =~= table_view(s).remove(s[i].0@),
    decreases s.len(),
{
    let k = s[i].0@;
    if i == s.len() - 1 {
        assert(s.remove(i) =~= s.drop_last());
        assert forall|j: int| 0 <= j < s.drop_last().len() implies s.drop_last()[j].0@ != k by {
            assert(s.drop_last()[j] == s[j]);
        }
        lemma_table_absent(s.drop_last(), k);
        assert(table_view(s).remove(k) =~= table_view(s.drop_last()));
    } else {
        assert forall|p: int, q: int| 0 <= p < q < s.drop_last().len() implies s.drop_last()[p].0@ != s.drop_last()[q].0@ by {
            assert(s.drop_last()[p] == s[p]);
            assert(s.drop_last()[q] == s[q]);
        }
        lemma_table_remove(s.drop_last(), i);
        assert(s.drop_last()[i] == s[i]);
        assert(s.remove(i).drop_last() =~= s.drop_last().remove(i));
        assert(s.remove(i).last() == s.last());
        assert(s.last().0@ != k);
        assert(table_view(s.remove(i)) == table_view(s.drop_last().remove(i)).insert(s.last().0@, s.last().1));
        assert(table_view(s.remove(i)) =~= table_view(s).remove(k));
    }
}

/// The player registry.  The table behind it holds at most one entry per
/// name; contracts speak of it as the map [`table_view`] reads off it.
pub struct Players {
    pub entries: Vec<(String, u32)>,
}

impl View for Players {
    type V = Map<Seq<char>, u32>;

    open spec fn view(&self) -> Map<Seq<char>, u32> {
        table_view(self.entries@)
    }
}

impl Players {
    /// The registry's invariant: no two entries share a name.
    pub open spec fn wf(self) -> bool {
        distinct_names(self.entries@)
    }

    /// Number of registered players.
    pub open spec fn spec_len(self) -> nat {
        self.entries@.len()
    }

    pub fn new() -> (p: Players)
        ensures
            p@ == Map::<Seq<char>, u32>::empty(),
            p.wf(),
            p.spec_len() == 0,
    {
        Players { entries: Vec::new() }
    }

    pub fn len(&self) -> (n: usize)
        ensures
            n == self.spec_len(),
    {
        self.entries.len()
    }

    /// Index of the first entry for `name`, if any.
    fn find(&self, name: &str) -> (r: Option<usize>)
        ensures
            match r {
                Some(i) => i < self.entries@.len() && self.entries@[i as int].0@ == name@
                    && (forall|j: int| 0 <= j < i ==> self.entries@[j].0@ != name@),
                None => forall|j: int| 0 <= j < self.entries@.len() ==> self.entries@[j].0@ != name@,
            },
    {
        let key: String = name.to_owned();
        let n = self.entries.len();
        let mut i: usize = 0;
        while i < n
            invariant
                n == self.entries@.len(),
                i <= n,
                key@ == name@,
                forall|j: int| 0 <= j < i ==> self.entries@[j].0@ != name@,
            decreases n - i,
        {
            if self.entries[i].0 == key {
                return Some(i);
            }
            i = i + 1;
        }
        None
    }

    pub fn contains_key(&self, name: &str) -> (r: bool)
        ensures
            self.wf() ==> r == self@.contains_key(name@),
    {
        match self.find(name) {
            Some(i) => {
                proof {
                    if self.wf() {
                        lemma_table_present(self.entries@, i as int);
                    }
                }
                true
            },
            None => {
                proof {
                    lemma_table_absent(self.entries@, name@);
                }
                false
            },
        }
    }

    /// The stored score of `name`, if registered.
    pub fn get(&self, name: &str) -> (r: Option<u32>)
        ensures
            self.wf() ==> r == (if self@.contains_key(name@) {
                Some(self@[name@])
            } else {
                None::<u32>
            }),
    {
        match self.find(name) {
            Some(i) => {
                proof {
                    if self.wf() {
                        lemma_table_present(self.entries@, i as int);
                    }
                }
                Some(self.entries[i].1)
            },
            None => {
                proof {
                    lemma_table_absent(self.entries@, name@);
                }
                None
            },
        }
    }

    /// Registers `name` with `score`, overwriting an existing entry for the
    /// same name: the most recent entry for a name wins.
    pub fn insert(&mut self, name: String, score: u32)
        requires
            old(self).wf(),
        ensures
            final(self).wf(),
            final(self)@ == old(self)@.insert(name@, score),
            final(self).spec_len() == old(self).spec_len() + (if old(self)@.contains_key(name@) {
                0int
            } else {
                1int
            }),
    {
        let ghost s0 = self.entries@;
        match self.find(&name) {
            Some(i) => {
                proof {
                    lemma_table_present(s0, i as int);
                    lemma_table_remove(s0, i as int);
                    lemma_distinct_remove(s0, i as int);
                }
                self.entries.remove(i);
                let ghost s1 = self.entries@;
                proof {
                    assert forall|j: int| 0 <= j < s1.len() implies s1[j].0@ != name@ by {
                        let j0 = if j < i as int { j } else { j + 1 };
                        assert(s1[j] == s0[j0]);
                    }
                }
                self.entries.push((name, score));
                proof {
                    assert(self.entries@.drop_last() =~= s1);
                    assert(table_view(self.entries@) =~= table_view(s0).insert(self.entries@.last().0@, score));
                    assert forall|p: int, q: int| 0 <= p < q < self.entries@.len() implies self.entries@[p].0@ != self.entries@[q].0@ by {
                        if q < self.entries@.len() - 1 {
                            assert(self.entries@[p] == s1[p]);
                            assert(self.entries@[q] == s1[q]);
                        } else {
                            assert(self.entries@[p] == s1[p]);
                        }
                    }
                }
            },
            None => {
                proof {
                    lemma_table_absent(s0, name@);
                }
                self.entries.push((name, score));
                proof {
                    assert(self.entries@.drop_last() =~= s0);
                    assert(table_view(self.entries@) =~= table_view(s0).insert(self.entries@.last().0@, score));
                    assert forall|p: int, q: int| 0 <= p < q < self.entries@.len() implies self.entries@[p].0@ != self.entries@[q].0@ by {
                        assert(self.entries@[p] == s0[p]);
                        if q < self.entries@.len() - 1 {
                            assert(self.entries@[q] == s0[q]);
                        }
                    }
                }
            },
        }
    }

    /// Deletes the entry for `name`; a no-op if absent.
    pub fn remove(&mut self, name: &str)
        requires
            old(self).wf(),
        ensures
            final(self).wf(),
            final(self)@ == old(self)@.remove(name@),
    {
        let ghost s0 = self.entries@;
        match self.find(name) {
            Some(i) => {
                proof {
                    lemma_table_remove(s0, i as int);
                    lemma_distinct_remove(s0, i as int);
                }
                self.entries.remove(i);
            },
            None => {
                proof {
                    lemma_table_absent(s0, name@);
                    assert(table_view(s0) =~= table_view(s0).remove(name@));
                }
            },
        }
    }

    /// Empties the registry.
    pub fn clear(&mut self)
        ensures
            final(self).wf(),
            final(self)@ == Map::<Seq<char>, u32>::empty(),
            final(self).spec_len() == 0,
    {
        self.entries.clear();
    }

    /// The registered names, in table order.
    pub fn names(&self) -> (r: Vec<String>)
        ensures
            r@.len() == self.entries@.len(),
            forall|i: int| 0 <= i < r@.len() ==> r@[i]@ == self.entries@[i].0@,
            r.deep_view() =~= names_of(self.entries@),
            self.wf() ==> forall|i: int| 0 <= i < r@.len() ==> self@.contains_key(#[trigger] r@[i]@),
    {
        let mut r: Vec<String> = Vec::new();
        let n = self.entries.len();
        let mut i: usize = 0;
        while i < n
            invariant
                n == self.entries@.len(),
                i <= n,
                r@.len() == i,
                forall|j: int| 0 <= j < i ==> r@[j]@ == self.entries@[j].0@,
            decreases n - i,
        {
            r.push(self.entries[i].0.clone());
            i = i + 1;
        }
        proof {
            if self.wf() {
                assert forall|i2: int| 0 <= i2 < r@.len() implies self@.contains_key(#[trigger] r@[i2]@) by {
                    lemma_table_present(self.entries@, i2);
                }
            }
        }
        r
    }
}

/// After a removal the registry never holds the removed name; after an
/// addition it holds the added name with the new score; and either way
/// every other name keeps exactly the entry it had.  Together with the
/// contracts of [`Players::insert`] and [`Players::remove`] this pins down
/// the registry over any sequence of additions and removals.
pub proof fn lemma_registry_tracks_latest(m: Map<Seq<char>, u32>, name: Seq<char>, score: u32)
    ensures
        !m.remove(name).contains_key(name),
        m.insert(name, score).contains_key(name),
        m.insert(name, score)[name] == score,
        forall|other: Seq<char>|
            other != name ==> #[trigger] m.remove(name).contains_key(other) == m.contains_key(other),
        forall|other: Seq<char>|
            other != name ==> #[trigger] m.insert(name, score).contains_key(other) == m.contains_key(
                other,
            ),
        forall|other: Seq<char>|
            other != name && m.contains_key(other) ==> #[trigger] m.remove(name)[other] == m[other],
        forall|other: Seq<char>|
            other != name && m.contains_key(other) ==> #[trigger] m.insert(name, score)[other]
                == m[other],
{
}

} // verus!
