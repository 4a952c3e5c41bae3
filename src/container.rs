use vstd::prelude::*;

verus! {

/// Index of the last entry holding tag `t`, or -1 when no entry holds it.
pub open spec fn find_tag<V>(s: Seq<(u64, V)>, t: u64) -> int
    decreases s.len(),
{
    if s.len() == 0 {
        -1
    } else if s.last().0 == t {
        s.len() - 1
    } else {
        find_tag(s.drop_last(), t)
    }
}

/// No two entries share a tag.
pub open spec fn distinct_tags<V>(s: Seq<(u64, V)>) -> bool {
    forall|i: int, j: int| 0 <= i < j < s.len() ==> s[i].0 != s[j].0
}

/// A tag held by no entry is not found.
pub proof fn lemma_find_absent<V>(s: Seq<(u64, V)>, t: u64)
    requires
        forall|k: int| 0 <= k < s.len() ==> s[k].0 != t,
    ensures
        find_tag(s, t) == -1,
    decreases s.len(),
{
    if s.len() > 0 {
        lemma_find_absent(s.drop_last(), t);
    }
}

/// With distinct tags, the entry that holds a tag is the one found.
pub proof fn lemma_find_at<V>(s: Seq<(u64, V)>, t: u64, i: int)
    requires
        distinct_tags(s),
        0 <= i < s.len(),
        s[i].0 == t,
    ensures
        find_tag(s, t) == i,
    decreases s.len(),
{
    if i < s.len() - 1 {
        lemma_find_at(s.drop_last(), t, i);
    }
}

/// A pool of values, each stored under a type tag; a tag holds at most one value.
///
/// `insert` and `remove` consume the container and give the extended or reduced one;
/// to seed several branches from one base, clone the base.
#[derive(Clone)]
pub struct Container<V> {
    entries: Vec<(u64, V)>,
}

impl<V> Container<V> {
    pub closed spec fn items(&self) -> Seq<(u64, V)> {
        self.entries@
    }

    pub open spec fn wf(&self) -> bool {
        distinct_tags(self.items())
    }

    pub open spec fn view(&self) -> Map<u64, V> {
        Map::new(
            |t: u64| find_tag(self.items(), t) >= 0,
            |t: u64| self.items()[find_tag(self.items(), t)].1,
        )
    }

    /// An empty container.
    pub fn new() -> (r: Self)
        ensures
            r.wf(),
            r@ == Map::<u64, V>::empty(),
    {
        let r = Container { entries: Vec::new() };
        proof {
            assert(r@ =~= Map::<u64, V>::empty());
        }
        r
    }

    /// Position of the entry of `t`, if any.
    fn position(&self, t: u64) -> (r: Option<usize>)
        requires
            self.wf(),
        ensures
            r matches Some(i) ==> i == find_tag(self.items(), t) && i < self.items().len(),
            r is None ==> find_tag(self.items(), t) == -1,
    {
        let mut i: usize = 0;
        while i < self.entries.len()
            invariant
                self.wf(),
                i <= self.entries@.len(),
                forall|k: int| 0 <= k < i ==> self.entries@[k].0 != t,
            decreases self.entries@.len() - i,
        {
            if self.entries[i].0 == t {
                proof {
                    assert(distinct_tags(self.entries@));
                    lemma_find_at(self.entries@, t, i as int);
                }
                return Some(i);
            }
            i += 1;
        }
        proof {
            lemma_find_absent(self.entries@, t);
        }
        None
    }

    /// Whether a value is stored under `t`.
    pub fn contains(&self, t: u64) -> (r: bool)
        requires
            self.wf(),
        ensures
            r == self@.contains_key(t),
    {
        self.position(t).is_some()
    }

    /// The value stored under `t`, if any.
    pub fn get(&self, t: u64) -> (r: Option<&V>)
        requires
            self.wf(),
        ensures
            r is Some <==> self@.contains_key(t),
            r matches Some(v) ==> *v == self@[t],
    {
        match self.position(t) {
            Some(i) => Some(&self.entries[i].1),
            None => None,
        }
    }

    /// Number of stored values.
    pub fn len(&self) -> (r: usize)
        requires
            self.wf(),
        ensures
            r == self@.len(),
    {
        proof {
            self.lemma_dom();
        }
        self.entries.len()
    }

    /// The domain of the view is the set of the entries' tags, one per entry.
    proof fn lemma_dom(&self)
        requires
            self.wf(),
        ensures
            self@.dom() == self.items().map_values(|e: (u64, V)| e.0).to_set(),
            self@.dom().finite(),
            self@.dom().len() == self.items().len(),
    {
        let s = self.items();
        let tags = s.map_values(|e: (u64, V)| e.0);
        assert forall|t: u64| self@.dom().contains(t) <==> tags.to_set().contains(t) by {
            if find_tag(s, t) >= 0 {
                lemma_find_range(s, t);
                assert(tags[find_tag(s, t)] == t);
            }
            if tags.to_set().contains(t) {
                let k = choose|k: int| 0 <= k < tags.len() && tags[k] == t;
                lemma_find_at(s, t, k);
            }
        }
        assert(self@.dom() =~= tags.to_set());
        assert(tags.no_duplicates());
        tags.unique_seq_to_set();
    }

    /// Stores `v` under `t`, replacing what `t` held.
    pub fn insert(self, t: u64, v: V) -> (r: Self)
        requires
            self.wf(),
        ensures
            r.wf(),
            r@ == self@.insert(t, v),
    {
        let pos = self.position(t);
        let mut entries = self.entries;
        let ghost s = entries@;
        match pos {
            Some(i) => {
                proof {
                    lemma_find_range(s, t);
                }
                entries.set(i, (t, v));
                proof {
                    let n = entries@;
                    assert(distinct_tags(n));
                    assert forall|u: u64| u != t implies find_tag(n, u) == find_tag(s, u)
                        && (find_tag(s, u) >= 0 ==> n[find_tag(s, u)] == s[find_tag(s, u)]) by {
                        lemma_find_bounds(s, u);
                        if find_tag(s, u) >= 0 {
                            lemma_find_range(s, u);
                            lemma_find_at(n, u, find_tag(s, u));
                        } else {
                            lemma_find_absent_iff(s, u);
                            lemma_find_absent(n, u);
                        }
                    }
                    lemma_find_at(n, t, i as int);
                }
            },
            None => {
                proof {
                    lemma_find_absent_iff(s, t);
                }
                entries.push((t, v));
                proof {
                    let n = entries@;
                    assert forall|u: u64| u != t implies find_tag(n, u) == find_tag(s, u)
                        && (find_tag(s, u) >= 0 ==> n[find_tag(s, u)] == s[find_tag(s, u)]) by {
                        assert(n.drop_last() =~= s);
                        lemma_find_bounds(s, u);
                    }
                    lemma_find_at(n, t, s.len() as int);
                }
            },
        }
        let r = Container { entries };
        assert(r@ =~= self@.insert(t, v));
        r
    }

    /// Takes the value stored under `t` out of the container.
    pub fn remove(self, t: u64) -> (r: (Self, Option<V>))
        requires
            self.wf(),
        ensures
            r.0.wf(),
            r.0@ == self@.remove(t),
            r.1 is Some <==> self@.contains_key(t),
            r.1 matches Some(v) ==> v == self@[t],
    {
        let pos = self.position(t);
        let mut entries = self.entries;
        let ghost s = entries@;
        match pos {
            Some(i) => {
                proof {
                    lemma_find_range(s, t);
                }
                let (_, v) = entries.remove(i);
                proof {
                    let n = entries@;
                    assert(distinct_tags(n));
                    assert forall|u: u64| u != t implies (find_tag(n, u) >= 0) == (find_tag(s, u) >= 0)
                        && (find_tag(s, u) >= 0 ==> n[find_tag(n, u)].1 == s[find_tag(s, u)].1) by {
                        lemma_find_bounds(s, u);
                        if find_tag(s, u) >= 0 {
                            lemma_find_range(s, u);
                            let k = find_tag(s, u);
                            let k2 = if k < i { k } else { k - 1 };
                            assert(n[k2] == s[k]);
                            lemma_find_at(n, u, k2);
                        } else {
                            lemma_find_absent_iff(s, u);
                            lemma_find_absent(n, u);
                        }
                    }
                    lemma_find_absent(n, t);
                }
                let r = Container { entries };
                assert(r@ =~= self@.remove(t));
                (r, Some(v))
            },
            None => {
                let r = Container { entries };
                assert(r@ =~= self@.remove(t));
                (r, None)
            },
        }
    }
}

/// A found index is in range and holds the tag.
pub proof fn lemma_find_range<V>(s: Seq<(u64, V)>, t: u64)
    requires
        find_tag(s, t) >= 0,
    ensures
        find_tag(s, t) < s.len(),
        s[find_tag(s, t)].0 == t,
    decreases s.len(),
{
    if s.last().0 != t {
        lemma_find_range(s.drop_last(), t);
    }
}

/// The search gives -1 or an index.
pub proof fn lemma_find_bounds<V>(s: Seq<(u64, V)>, t: u64)
    ensures
        -1 <= find_tag(s, t) < s.len(),
    decreases s.len(),
{
    if s.len() > 0 {
        lemma_find_bounds(s.drop_last(), t);
    }
}

/// A tag that is not found is held by no entry.
pub proof fn lemma_find_absent_iff<V>(s: Seq<(u64, V)>, t: u64)
    requires
        find_tag(s, t) == -1,
    ensures
        forall|k: int| 0 <= k < s.len() ==> s[k].0 != t,
    decreases s.len(),
{
    if s.len() > 0 {
        lemma_find_absent_iff(s.drop_last(), t);
        assert forall|k: int| 0 <= k < s.len() implies s[k].0 != t by {
            if k < s.len() - 1 {
                assert(s.drop_last()[k] == s[k]);
            }
        }
    }
}

} // verus!
