//! Tags of a metric: a map from tag name to value.
use vstd::prelude::*;

verus! {

/// Tag names mapped to values; each name occurs once, in the order it was
/// first inserted.
#[derive(Clone, Debug)]
pub struct MetricTags {
    pub entries: Vec<(String, String)>,
}

/// The names of the entries.
pub open spec fn entry_keys(e: Seq<(String, String)>) -> Seq<Seq<char>> {
    e.map_values(|p: (String, String)| p.0@)
}

impl MetricTags {
    /// Each name occurs once.
    pub open spec fn wf(&self) -> bool {
        forall|i: int, j: int|
            0 <= i < j < self.entries@.len() ==> (#[trigger] self.entries@[i]).0@
                != (#[trigger] self.entries@[j]).0@
    }

    /// The tags as a map from name to value.
    pub open spec fn tag_map(&self) -> Map<Seq<char>, Seq<char>> {
        Map::new(
            |k: Seq<char>| exists|i: int| 0 <= i < self.entries@.len() && (#[trigger] self.entries@[i]).0@ == k,
            |k: Seq<char>| {
                let i = choose|i: int| 0 <= i < self.entries@.len() && (#[trigger] self.entries@[i]).0@ == k;
                self.entries@[i].1@
            },
        )
    }

    /// No tags.
    pub fn new() -> (r: MetricTags)
        ensures
            r.wf(),
            r.tag_map() == Map::<Seq<char>, Seq<char>>::empty(),
    {
        let r = MetricTags { entries: Vec::new() };
        assert(r.tag_map() =~= Map::<Seq<char>, Seq<char>>::empty());
        r
    }

    /// The position of the entry named `k`.
    fn position(&self, k: &String) -> (r: Option<usize>)
        requires
            self.wf(),
        ensures
            r matches Some(i) ==> i < self.entries@.len() && self.entries@[i as int].0@ == k@,
            r is None ==> forall|i: int| 0 <= i < self.entries@.len() ==> (#[trigger] self.entries@[i]).0@ != k@,
    {
        let mut i: usize = 0;
        while i < self.entries.len()
            invariant
                i <= self.entries@.len(),
                forall|j: int| 0 <= j < i ==> (#[trigger] self.entries@[j]).0@ != k@,
            decreases self.entries@.len() - i,
        {
            if self.entries[i].0 == *k {
                return Some(i);
            }
            i = i + 1;
        }
        None
    }

    /// Sets the value of tag `k` to `v`, returning the value it replaced.
    pub fn replace(&mut self, k: String, v: String) -> (r: Option<String>)
        requires
            old(self).wf(),
        ensures
            final(self).wf(),
            final(self).tag_map() == old(self).tag_map().insert(k@, v@),
            old(self).tag_map().contains_key(k@) ==> (r matches Some(o) && o@ == old(self).tag_map()[k@]),
            !old(self).tag_map().contains_key(k@) ==> r is None,
    {
        match self.position(&k) {
            Some(i) => {
                let ghost before = self.entries@;
                let (name, old_value) = self.entries.remove(i);
                self.entries.insert(i, (name, v));
                proof {
                    assert(self.entries@ =~= before.update(i as int, (before[i as int].0, v)));
                    assert forall|a: int, b: int|
                        0 <= a < b < self.entries@.len() implies (#[trigger] self.entries@[a]).0@
                        != (#[trigger] self.entries@[b]).0@ by {
                        assert(self.entries@[a].0@ == before[a].0@);
                        assert(self.entries@[b].0@ == before[b].0@);
                    }
                    assert(before[i as int].0@ == k@);
                    assert forall|key: Seq<char>| #[trigger] self.tag_map().contains_key(key)
                        == old(self).tag_map().insert(k@, v@).contains_key(key) by {
                        if old(self).tag_map().contains_key(key) {
                            let j = choose|j: int| 0 <= j < before.len() && (#[trigger] before[j]).0@ == key;
                            assert(self.entries@[j].0@ == key);
                        }
                        if self.tag_map().contains_key(key) {
                            let j = choose|j: int| 0 <= j < self.entries@.len() && (#[trigger] self.entries@[j]).0@ == key;
                            assert(before[j].0@ == key);
                        }
                        if key == k@ {
                            assert(self.entries@[i as int].0@ == key);
                        }
                    }
                    assert forall|key: Seq<char>| #[trigger] self.tag_map().contains_key(key)
                        implies self.tag_map()[key] == old(self).tag_map().insert(k@, v@)[key] by {
                        let j = choose|j: int| 0 <= j < self.entries@.len() && (#[trigger] self.entries@[j]).0@ == key;
                        if key == k@ {
                            assert(j == i);
                        } else {
                            let j2 = choose|j2: int| 0 <= j2 < before.len() && (#[trigger] before[j2]).0@ == key;
                            assert(before[j].0@ == key);
                            assert(j2 == j);
                        }
                    }
                    assert(self.tag_map() =~= old(self).tag_map().insert(k@, v@));
                    assert(old(self).tag_map()[k@] == old_value@) by {
                        let j2 = choose|j2: int| 0 <= j2 < before.len() && (#[trigger] before[j2]).0@ == k@;
                        assert(j2 == i);
                    }
                }
                Some(old_value)
            },
            None => {
                let ghost before = self.entries@;
                self.entries.push((k, v));
                proof {
                    let n = before.len() as int;
                    assert forall|a: int, b: int|
                        0 <= a < b < self.entries@.len() implies (#[trigger] self.entries@[a]).0@
                        != (#[trigger] self.entries@[b]).0@ by {
                        if b == n {
                            assert(self.entries@[a] == before[a]);
                        } else {
                            assert(self.entries@[a] == before[a]);
                            assert(self.entries@[b] == before[b]);
                        }
                    }
                    assert forall|key: Seq<char>| #[trigger] self.tag_map().contains_key(key)
                        == old(self).tag_map().insert(k@, v@).contains_key(key) by {
                        if old(self).tag_map().contains_key(key) {
                            let j = choose|j: int| 0 <= j < before.len() && (#[trigger] before[j]).0@ == key;
                            assert(self.entries@[j].0@ == key);
                        }
                        if self.tag_map().contains_key(key) {
                            let j = choose|j: int| 0 <= j < self.entries@.len() && (#[trigger] self.entries@[j]).0@ == key;
                            if j < n {
                                assert(before[j].0@ == key);
                            }
                        }
                        if key == k@ {
                            assert(self.entries@[n].0@ == key);
                        }
                    }
                    assert forall|key: Seq<char>| #[trigger] self.tag_map().contains_key(key)
                        implies self.tag_map()[key] == old(self).tag_map().insert(k@, v@)[key] by {
                        let j = choose|j: int| 0 <= j < self.entries@.len() && (#[trigger] self.entries@[j]).0@ == key;
                        if key == k@ {
                            assert(self.entries@[n].0@ == key);
                            assert(j == n);
                        } else {
                            assert(j != n);
                            assert(before[j].0@ == key);
                            let j2 = choose|j2: int| 0 <= j2 < before.len() && (#[trigger] before[j2]).0@ == key;
                            assert(j2 == j);
                        }
                    }
                    assert(self.tag_map() =~= old(self).tag_map().insert(k@, v@));
                }
                None
            },
        }
    }

    /// Sets the value of tag `k` to `v`.
    pub fn insert(&mut self, k: String, v: String)
        requires
            old(self).wf(),
        ensures
            final(self).wf(),
            final(self).tag_map() == old(self).tag_map().insert(k@, v@),
    {
        let _ = self.replace(k, v);
    }
}

} // verus!
