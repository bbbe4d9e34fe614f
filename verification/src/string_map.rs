//! An insertion-ordered map from strings to strings with distinct keys; the
//! model of every header, preset-value and query-parameter table.

use vstd::prelude::*;

verus! {

/// The map that a list of key/value pairs describes (a later pair wins).
pub open spec fn pairs_map(p: Seq<(Seq<char>, Seq<char>)>) -> Map<Seq<char>, Seq<char>>
    decreases p.len(),
{
    if p.len() == 0 {
        Map::empty()
    } else {
        pairs_map(p.drop_last()).insert(p.last().0, p.last().1)
    }
}

/// The map after inserting each pair in turn, the first pair first.
pub open spec fn insert_each(m: Map<Seq<char>, Seq<char>>, pairs: Seq<(Seq<char>, Seq<char>)>) -> Map<Seq<char>, Seq<char>>
    decreases pairs.len(),
{
    if pairs.len() == 0 {
        m
    } else {
        insert_each(m.insert(pairs[0].0, pairs[0].1), pairs.skip(1))
    }
}

/// No key occurs twice in the list.
pub open spec fn keys_distinct(p: Seq<(Seq<char>, Seq<char>)>) -> bool {
    forall|i: int, j: int| 0 <= i < j < p.len() ==> #[trigger] p[i].0 != #[trigger] p[j].0
}

/// The position of key `k` in the list, where it occurs.
pub open spec fn key_at(p: Seq<(Seq<char>, Seq<char>)>, k: Seq<char>, i: int) -> bool {
    0 <= i < p.len() && p[i].0 == k
}

/// The views of a list of stored entries.
pub open spec fn entries_view(v: Seq<(String, String)>) -> Seq<(Seq<char>, Seq<char>)> {
    v.map_values(|e: (String, String)| entry_view(e))
}

/// The view of one stored entry.
pub open spec fn entry_view(e: (String, String)) -> (Seq<char>, Seq<char>) {
    (e.0@, e.1@)
}

proof fn lemma_pairs_map_dom(p: Seq<(Seq<char>, Seq<char>)>, k: Seq<char>)
    ensures
        pairs_map(p).dom().contains(k) <==> exists|i: int| key_at(p, k, i),
    decreases p.len(),
{
    if p.len() > 0 {
        let pd = p.drop_last();
        lemma_pairs_map_dom(pd, k);
        if p.last().0 == k {
            assert(key_at(p, k, p.len() - 1));
        } else {
            if pairs_map(pd).dom().contains(k) {
                let i = choose|i: int| key_at(pd, k, i);
                assert(key_at(p, k, i));
            }
            if exists|i: int| key_at(p, k, i) {
                let i = choose|i: int| key_at(p, k, i);
                assert(i != p.len() - 1);
                assert(key_at(pd, k, i));
            }
        }
    }
}

proof fn lemma_pairs_map_index(p: Seq<(Seq<char>, Seq<char>)>, i: int)
    requires
        keys_distinct(p),
        0 <= i < p.len(),
    ensures
        pairs_map(p).dom().contains(p[i].0),
        pairs_map(p)[p[i].0] == p[i].1,
    decreases p.len(),
{
    if i < p.len() - 1 {
        let q = p.drop_last();
        assert(keys_distinct(q)) by {
            assert forall|a: int, b: int| 0 <= a < b < q.len() implies #[trigger] q[a].0
                != #[trigger] q[b].0 by {
                assert(q[a] == p[a] && q[b] == p[b]);
            }
        }
        lemma_pairs_map_index(q, i);
        assert(q[i] == p[i]);
        assert(p[i].0 != p[p.len() - 1].0);
    }
}

proof fn lemma_pairs_map_push(p: Seq<(Seq<char>, Seq<char>)>, e: (Seq<char>, Seq<char>))
    ensures
        pairs_map(p.push(e)) == pairs_map(p).insert(e.0, e.1),
{
    assert(p.push(e).drop_last() =~= p);
}

proof fn lemma_pairs_map_update(
    p: Seq<(Seq<char>, Seq<char>)>,
    i: int,
    v: Seq<char>,
)
    requires
        keys_distinct(p),
        0 <= i < p.len(),
    ensures
        pairs_map(p.update(i, (p[i].0, v))) =~= pairs_map(p).insert(p[i].0, v),
    decreases p.len(),
{
    let k = p[i].0;
    let q = p.update(i, (k, v));
    if i == p.len() - 1 {
        assert(q.drop_last() =~= p.drop_last());
    } else {
        let pd = p.drop_last();
        assert(keys_distinct(pd)) by {
            assert forall|a: int, b: int| 0 <= a < b < pd.len() implies #[trigger] pd[a].0
                != #[trigger] pd[b].0 by {
                assert(pd[a] == p[a] && pd[b] == p[b]);
            }
        }
        assert(pd[i] == p[i]);
        lemma_pairs_map_update(pd, i, v);
        assert(q.drop_last() =~= pd.update(i, (k, v)));
        assert(p.last().0 != k);
        assert(q.last() == p.last());
    }
}

proof fn lemma_pairs_map_remove(p: Seq<(Seq<char>, Seq<char>)>, i: int)
    requires
        keys_distinct(p),
        0 <= i < p.len(),
    ensures
        pairs_map(p.remove(i)) =~= pairs_map(p).remove(p[i].0),
    decreases p.len(),
{
    let k = p[i].0;
    let pd = p.drop_last();
    assert(keys_distinct(pd)) by {
        assert forall|a: int, b: int| 0 <= a < b < pd.len() implies #[trigger] pd[a].0
            != #[trigger] pd[b].0 by {
            assert(pd[a] == p[a] && pd[b] == p[b]);
        }
    }
    if i == p.len() - 1 {
        assert(p.remove(i) =~= pd);
        assert(!pairs_map(pd).dom().contains(k)) by {
            lemma_pairs_map_dom(pd, k);
            if exists|j: int| key_at(pd, k, j) {
                let j = choose|j: int| key_at(pd, k, j);
                assert(pd[j] == p[j]);
            }
        }
        assert(pairs_map(p) == pairs_map(pd).insert(k, p.last().1));
    } else {
        assert(pd[i] == p[i]);
        lemma_pairs_map_remove(pd, i);
        let r = p.remove(i);
        assert(r.drop_last() =~= pd.remove(i));
        assert(r.last() == p.last());
        assert(p.last().0 != k);
    }
}

proof fn lemma_remove_keeps_distinct(p: Seq<(Seq<char>, Seq<char>)>, i: int)
    requires
        keys_distinct(p),
        0 <= i < p.len(),
    ensures
        keys_distinct(p.remove(i)),
{
    let r = p.remove(i);
    assert forall|a: int, b: int| 0 <= a < b < r.len() implies #[trigger] r[a].0
        != #[trigger] r[b].0 by {
        let a2 = if a < i { a } else { a + 1 };
        let b2 = if b < i { b } else { b + 1 };
        assert(r[a] == p[a2] && r[b] == p[b2]);
    }
}

/// A table of string keys and values, kept in insertion order, in which no
/// key occurs twice.
#[derive(Debug)]
pub struct StringMap {
    entries: Vec<(String, String)>,
}

impl StringMap {
    /// The entries as plain values, in insertion order.
    pub closed spec fn pairs(self) -> Seq<(Seq<char>, Seq<char>)> {
        entries_view(self.entries@)
    }

    #[verifier::type_invariant]
    closed spec fn inv(self) -> bool {
        keys_distinct(self.pairs())
    }

    /// An empty table.
    pub fn new() -> (m: Self)
        ensures
            m@ == Map::<Seq<char>, Seq<char>>::empty(),
            m.pairs() == Seq::<(Seq<char>, Seq<char>)>::empty(),
    {
        let m = StringMap { entries: Vec::new() };
        assert(m.pairs() =~= Seq::<(Seq<char>, Seq<char>)>::empty());
        m
    }

    /// The number of entries.
    pub fn len(&self) -> (n: usize)
        ensures
            n == self.pairs().len(),
    {
        self.entries.len()
    }

    /// Whether the table has no entries.
    pub fn is_empty(&self) -> (b: bool)
        ensures
            b == (self.pairs().len() == 0),
            b == (self@ == Map::<Seq<char>, Seq<char>>::empty()),
    {
        proof {
            use_type_invariant(self);
            if self.pairs().len() > 0 {
                lemma_pairs_map_index(self.pairs(), 0);
            }
        }
        self.entries.len() == 0
    }

    /// The stored entries, in insertion order.
    pub fn entries(&self) -> (r: &Vec<(String, String)>)
        ensures
            entries_view(r@) == self.pairs(),
    {
        &self.entries
    }

    fn position(&self, key: &str) -> (r: Option<usize>)
        ensures
            match r {
                Some(i) => key_at(self.pairs(), key@, i as int),
                None => forall|i: int| !key_at(self.pairs(), key@, i),
            },
    {
        let k = key.to_owned();
        let mut i: usize = 0;
        while i < self.entries.len()
            invariant
                k@ == key@,
                i <= self.entries@.len(),
                forall|j: int| 0 <= j < i ==> !key_at(self.pairs(), key@, j),
            decreases self.entries@.len() - i,
        {
            if self.entries[i].0 == k {
                return Some(i);
            }
            i = i + 1;
        }
        None
    }

    /// Whether `key` has an entry.
    pub fn contains_key(&self, key: &str) -> (b: bool)
        ensures
            b == self@.dom().contains(key@),
    {
        proof {
            lemma_pairs_map_dom(self.pairs(), key@);
        }
        self.position(key).is_some()
    }

    /// The value stored under `key`.
    pub fn get(&self, key: &str) -> (r: Option<&String>)
        ensures
            match r {
                Some(v) => self@.dom().contains(key@) && self@[key@] == v@,
                None => !self@.dom().contains(key@),
            },
    {
        proof {
            use_type_invariant(self);
            lemma_pairs_map_dom(self.pairs(), key@);
        }
        match self.position(key) {
            Some(i) => {
                proof {
                    lemma_pairs_map_index(self.pairs(), i as int);
                }
                Some(&self.entries[i].1)
            },
            None => None,
        }
    }

    /// Stores `value` under `key`: an existing entry keeps its place and takes
    /// the new value, a new key goes at the end.
    pub fn insert(&mut self, key: String, value: String)
        ensures
            final(self)@ == old(self)@.insert(key@, value@),
            forall|i: int|
                key_at(old(self).pairs(), key@, i) ==> final(self).pairs() == old(self).pairs().update(
                    i,
                    (key@, value@),
                ),
            (forall|i: int| !key_at(old(self).pairs(), key@, i)) ==> final(self).pairs() == old(
                self,
            ).pairs().push((key@, value@)),
    {
        proof {
            use_type_invariant(&*self);
        }
        let ghost p = self.pairs();
        match self.position(key.as_str()) {
            Some(i) => {
                proof {
                    lemma_pairs_map_update(p, i as int, value@);
                }
                let ghost kv = key@;
                let ghost q = p.update(i as int, (kv, value@));
                assert(keys_distinct(q)) by {
                    assert forall|a: int, b: int| 0 <= a < b < q.len() implies #[trigger] q[a].0
                        != #[trigger] q[b].0 by {
                        assert(q[a].0 == p[a].0 && q[b].0 == p[b].0);
                    }
                }
                let mut entries: Vec<(String, String)> = Vec::new();
                std::mem::swap(&mut entries, &mut self.entries);
                entries.set(i, (key, value));
                assert(entries_view(entries@) =~= q);
                self.entries = entries;
                assert forall|j: int| key_at(p, kv, j) implies self.pairs() == p.update(j, (kv, value@)) by {
                    assert(j == i);
                }
            },
            None => {
                proof {
                    lemma_pairs_map_push(p, (key@, value@));
                }
                let ghost q = p.push((key@, value@));
                assert(keys_distinct(q)) by {
                    assert forall|a: int, b: int| 0 <= a < b < q.len() implies #[trigger] q[a].0
                        != #[trigger] q[b].0 by {
                        if b == p.len() {
                            assert(!key_at(p, key@, a));
                        } else {
                            assert(q[a] == p[a] && q[b] == p[b]);
                        }
                    }
                }
                let mut entries: Vec<(String, String)> = Vec::new();
                std::mem::swap(&mut entries, &mut self.entries);
                entries.push((key, value));
                assert(entries_view(entries@) =~= q);
                self.entries = entries;
            },
        }
    }

    /// Removes the entry of `key`, if there is one; the others keep their order.
    pub fn remove(&mut self, key: &str)
        ensures
            final(self)@ == old(self)@.remove(key@),
            forall|i: int|
                key_at(old(self).pairs(), key@, i) ==> final(self).pairs() == old(self).pairs().remove(
                    i,
                ),
            (forall|i: int| !key_at(old(self).pairs(), key@, i)) ==> final(self).pairs() == old(
                self,
            ).pairs(),
    {
        proof {
            use_type_invariant(&*self);
        }
        let ghost p = self.pairs();
        match self.position(key) {
            Some(i) => {
                proof {
                    lemma_pairs_map_remove(p, i as int);
                    lemma_remove_keeps_distinct(p, i as int);
                }
                let mut entries: Vec<(String, String)> = Vec::new();
                std::mem::swap(&mut entries, &mut self.entries);
                let ghost before = entries@;
                entries.remove(i);
                assert(entries@ =~= before.remove(i as int));
                assert(entries_view(entries@) =~= p.remove(i as int));
                self.entries = entries;
                assert forall|j: int| key_at(p, key@, j) implies self.pairs() == p.remove(j) by {
                    assert(j == i);
                }
            },
            None => {
                proof {
                    lemma_pairs_map_dom(p, key@);
                }
                assert(old(self)@.remove(key@) =~= old(self)@);
            },
        }
    }

    /// A copy of the table with the same entries in the same order.
    pub fn duplicate(&self) -> (r: Self)
        ensures
            r.pairs() == self.pairs(),
            r@ == self@,
    {
        proof {
            use_type_invariant(self);
        }
        let mut entries: Vec<(String, String)> = Vec::new();
        let mut i: usize = 0;
        while i < self.entries.len()
            invariant
                i <= self.entries@.len(),
                entries@.len() == i,
                entries_view(entries@) == self.pairs().take(
                    i as int,
                ),
            decreases self.entries@.len() - i,
        {
            let k = self.entries[i].0.clone();
            let v = self.entries[i].1.clone();
            let ghost prev = entries@;
            entries.push((k, v));
            assert(entry_view((k, v)) == self.pairs()[i as int]);
            assert(entries@ == prev.push((k, v)));
            assert forall|j: int| 0 <= j < i + 1 implies #[trigger] entries_view(entries@)[j]
                == self.pairs().take(i + 1)[j] by {
                if j < i {
                    assert(entries_view(prev)[j] == self.pairs().take(i as int)[j]);
                }
            }
            assert(entries_view(entries@) =~= self.pairs().take(
                i + 1,
            ));
            i = i + 1;
        }
        assert(self.pairs().take(self.entries@.len() as int) =~= self.pairs());
        StringMap { entries }
    }
}

impl StringMap {
    /// Stores every entry of `other` in turn; where both hold a key, the value
    /// of `other` wins.
    pub fn extend_with(&mut self, other: &StringMap)
        ensures
            final(self)@ == old(self)@.union_prefer_right(other@),
    {
        let entries = other.entries();
        let ghost p = other.pairs();
        let ghost start = self@;
        let mut i: usize = 0;
        assert(pairs_map(p.take(0)) =~= Map::<Seq<char>, Seq<char>>::empty());
        assert(start.union_prefer_right(Map::<Seq<char>, Seq<char>>::empty()) =~= start);
        while i < entries.len()
            invariant
                entries_view(entries@) == p,
                i <= entries@.len(),
                self@ == start.union_prefer_right(pairs_map(p.take(i as int))),
            decreases entries@.len() - i,
        {
            let k = entries[i].0.clone();
            let v = entries[i].1.clone();
            assert(p[i as int] == entry_view(entries@[i as int]));
            assert(p.take(i + 1).drop_last() =~= p.take(i as int));
            let ghost before = pairs_map(p.take(i as int));
            self.insert(k, v);
            assert(start.union_prefer_right(before.insert(k@, v@)) =~= start.union_prefer_right(
                before,
            ).insert(k@, v@));
            i = i + 1;
        }
        assert(p.take(entries@.len() as int) =~= p);
    }
}

impl View for StringMap {
    type V = Map<Seq<char>, Seq<char>>;

    closed spec fn view(&self) -> Map<Seq<char>, Seq<char>> {
        pairs_map(self.pairs())
    }
}

} // verus!
