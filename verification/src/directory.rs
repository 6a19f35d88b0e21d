//! A name-to-value table with the mathematical view of a map.
//!
//! The store's records, the style maps and the sprite cache all key their
//! data by a UTF-8 name and hold at most one value per name.  `Directory`
//! gives them one verified structure: a vector of pairs whose keys are
//! pairwise distinct, viewed as a `Map<Seq<char>, V>`.

use vstd::prelude::*;

verus! {

/// A map from names to values: at most one value per name.
#[derive(Debug, Clone)]
pub struct Directory<V> {
    entries: Vec<(String, V)>,
}

/// The map written by a sequence of key/value pairs, later pairs winning.
pub open spec fn entries_map<V>(s: Seq<(String, V)>) -> Map<Seq<char>, V>
    decreases s.len(),
{
    if s.len() == 0 {
        Map::empty()
    } else {
        entries_map(s.drop_last()).insert(s.last().0@, s.last().1)
    }
}

/// Pairwise distinct keys.
pub open spec fn distinct_keys<V>(s: Seq<(String, V)>) -> bool {
    forall|i: int, j: int| 0 <= i < j < s.len() ==> (#[trigger] s[i]).0@ != (#[trigger] s[j]).0@
}

/// The names a key list mentions, as a set of character sequences.
pub open spec fn name_set(keep: Seq<String>) -> Set<Seq<char>> {
    Set::new(|k: Seq<char>| exists|j: int| 0 <= j < keep.len() && (#[trigger] keep[j])@ == k)
}

/// A key is in the map iff some pair carries it.
pub proof fn lemma_entries_contains<V>(s: Seq<(String, V)>, k: Seq<char>)
    ensures
        entries_map(s).contains_key(k) <==> (exists|i: int|
            0 <= i < s.len() && (#[trigger] s[i]).0@ == k),
    decreases s.len(),
{
    if s.len() > 0 {
        let dl = s.drop_last();
        lemma_entries_contains(dl, k);
        if s.last().0@ == k {
            assert(s[s.len() - 1].0@ == k);
        } else {
            if entries_map(dl).contains_key(k) {
                let i = choose|i: int| 0 <= i < dl.len() && (#[trigger] dl[i]).0@ == k;
                assert(s[i].0@ == k);
            }
            if exists|i: int| 0 <= i < s.len() && (#[trigger] s[i]).0@ == k {
                let i = choose|i: int| 0 <= i < s.len() && (#[trigger] s[i]).0@ == k;
                assert(i < s.len() - 1);
                assert(dl[i].0@ == k);
            }
        }
    }
}

/// With distinct keys, the map returns the value stored beside the key.
pub proof fn lemma_entries_index<V>(s: Seq<(String, V)>, i: int)
    requires
        distinct_keys(s),
        0 <= i < s.len(),
    ensures
        entries_map(s).contains_key(s[i].0@),
        entries_map(s)[s[i].0@] == s[i].1,
    decreases s.len(),
{
    let dl = s.drop_last();
    if i == s.len() - 1 {
        assert(entries_map(s) == entries_map(dl).insert(s.last().0@, s.last().1));
    } else {
        assert(distinct_keys(dl)) by {
            assert(forall|p: int, q: int|
                0 <= p < q < dl.len() ==> (#[trigger] dl[p]).0@ != (#[trigger] dl[q]).0@);
        }
        lemma_entries_index(dl, i);
        assert(s[i].0@ != s.last().0@);
    }
}

/// Updating the pair that carries a key updates the map at that key.
pub proof fn lemma_entries_update<V>(s: Seq<(String, V)>, i: int, x: (String, V))
    requires
        distinct_keys(s),
        0 <= i < s.len(),
        x.0@ == s[i].0@,
    ensures
        entries_map(s.update(i, x)) == entries_map(s).insert(x.0@, x.1),
        distinct_keys(s.update(i, x)),
    decreases s.len(),
{
    let k = x.0@;
    let t = s.update(i, x);
    assert(distinct_keys(t));
    let dl = s.drop_last();
    assert(distinct_keys(dl)) by {
        assert(forall|p: int, q: int|
            0 <= p < q < dl.len() ==> (#[trigger] dl[p]).0@ != (#[trigger] dl[q]).0@);
    }
    if i == s.len() - 1 {
        assert(t.drop_last() =~= dl);
        assert(entries_map(t) == entries_map(dl).insert(k, x.1));
        assert(entries_map(dl).insert(k, x.1) =~= entries_map(dl).insert(s.last().0@, s.last().1).insert(
            k,
            x.1,
        ));
    } else {
        assert(t.drop_last() =~= dl.update(i, x));
        lemma_entries_update(dl, i, x);
        assert(entries_map(t) == entries_map(dl).insert(k, x.1).insert(s.last().0@, s.last().1));
        assert(s[i].0@ != s.last().0@);
        assert(entries_map(dl).insert(k, x.1).insert(s.last().0@, s.last().1) =~= entries_map(
            dl,
        ).insert(s.last().0@, s.last().1).insert(k, x.1));
    }
}

/// Removing the pair that carries a key removes the key from the map.
pub proof fn lemma_entries_remove<V>(s: Seq<(String, V)>, i: int)
    requires
        distinct_keys(s),
        0 <= i < s.len(),
    ensures
        entries_map(s.remove(i)) == entries_map(s).remove(s[i].0@),
        distinct_keys(s.remove(i)),
    decreases s.len(),
{
    let k = s[i].0@;
    let t = s.remove(i);
    assert(distinct_keys(t)) by {
        assert(forall|p: int, q: int|
            0 <= p < q < t.len() ==> (#[trigger] t[p]).0@ != (#[trigger] t[q]).0@);
    }
    let dl = s.drop_last();
    assert(distinct_keys(dl)) by {
        assert(forall|p: int, q: int|
            0 <= p < q < dl.len() ==> (#[trigger] dl[p]).0@ != (#[trigger] dl[q]).0@);
    }
    if i == s.len() - 1 {
        assert(t =~= dl);
        lemma_entries_contains(dl, k);
        assert(!entries_map(dl).contains_key(k)) by {
            assert(forall|j: int| 0 <= j < dl.len() ==> (#[trigger] dl[j]).0@ != k);
        }
        assert(entries_map(dl) =~= entries_map(dl).insert(k, s.last().1).remove(k));
    } else {
        assert(t.drop_last() =~= dl.remove(i));
        assert(t.last() == s.last());
        lemma_entries_remove(dl, i);
        assert(entries_map(t) == entries_map(dl).remove(k).insert(s.last().0@, s.last().1));
        assert(s[i].0@ != s.last().0@);
        assert(entries_map(dl).remove(k).insert(s.last().0@, s.last().1) =~= entries_map(dl).insert(
            s.last().0@,
            s.last().1,
        ).remove(k));
    }
}

impl<V> View for Directory<V> {
    type V = Map<Seq<char>, V>;

    closed spec fn view(&self) -> Map<Seq<char>, V> {
        entries_map(self.entries@)
    }
}

impl<V> Directory<V> {
    /// The raw entries, for callers that walk the table.
    pub closed spec fn kv(&self) -> Seq<(String, V)> {
        self.entries@
    }

    /// Well-formed: no name occurs twice.
    pub open spec fn wf(&self) -> bool {
        distinct_keys(self.kv())
    }

    /// A key is in the view iff some entry carries it.
    pub proof fn lemma_kv_contains(&self, k: Seq<char>)
        ensures
            self@.contains_key(k) <==> (exists|i: int|
                0 <= i < self.kv().len() && (#[trigger] self.kv()[i]).0@ == k),
    {
        lemma_entries_contains(self.kv(), k);
    }

    /// The view returns the value stored beside an entry's key.
    pub proof fn lemma_kv_index(&self, i: int)
        requires
            self.wf(),
            0 <= i < self.kv().len(),
        ensures
            self@.contains_key(self.kv()[i].0@),
            self@[self.kv()[i].0@] == self.kv()[i].1,
    {
        lemma_entries_index(self.kv(), i);
    }

    pub fn new() -> (d: Self)
        ensures
            d@ == Map::<Seq<char>, V>::empty(),
            d.wf(),
            d.kv().len() == 0,
    {
        Directory { entries: Vec::new() }
    }

    fn find(&self, name: &String) -> (r: Option<usize>)
        ensures
            match r {
                Some(i) => i < self.kv().len() && self.kv()[i as int].0@ == name@,
                None => forall|i: int| 0 <= i < self.kv().len() ==> (#[trigger] self.kv()[i]).0@ != name@,
            },
    {
        let n = self.entries.len();
        let mut i: usize = 0;
        while i < n
            invariant
                n == self.kv().len(),
                i <= n,
                forall|j: int| 0 <= j < i ==> (#[trigger] self.kv()[j]).0@ != name@,
            decreases n - i,
        {
            let e = &self.entries[i];
            if e.0 == *name {
                return Some(i);
            }
            i = i + 1;
        }
        None
    }

    pub fn num_entries(&self) -> (n: usize)
        ensures
            n == self.kv().len(),
    {
        self.entries.len()
    }

    pub fn entry_at(&self, i: usize) -> (e: &(String, V))
        requires
            i < self.kv().len(),
        ensures
            *e == self.kv()[i as int],
    {
        &self.entries[i]
    }

    pub fn contains(&self, name: &String) -> (r: bool)
        ensures
            r == self@.contains_key(name@),
    {
        proof {
            lemma_entries_contains(self.kv(), name@);
        }
        self.find(name).is_some()
    }

    pub fn get<'a>(&'a self, name: &String) -> (r: Option<&'a V>)
        requires
            self.wf(),
        ensures
            match r {
                Some(v) => self@.contains_key(name@) && *v == self@[name@],
                None => !self@.contains_key(name@),
            },
    {
        proof {
            lemma_entries_contains(self.kv(), name@);
        }
        match self.find(name) {
            Some(i) => {
                proof {
                    lemma_entries_index(self.kv(), i as int);
                }
                Some(&self.entries[i].1)
            },
            None => None,
        }
    }

    /// Upsert: the map gains or replaces the binding for `name`.
    pub fn insert(&mut self, name: String, value: V)
        requires
            old(self).wf(),
        ensures
            final(self)@ == old(self)@.insert(name@, value),
            final(self).wf(),
            final(self).kv().len() <= old(self).kv().len() + 1,
    {
        match self.find(&name) {
            Some(i) => {
                proof {
                    lemma_entries_update(self.kv(), i as int, (name, value));
                }
                let slot = &mut self.entries[i];
                *slot = (name, value);
            },
            None => {
                proof {
                    let s = self.kv();
                    let t = s.push((name, value));
                    assert(t.drop_last() =~= s);
                    assert(entries_map(t) == entries_map(s).insert(name@, value));
                    assert(distinct_keys(t)) by {
                        assert(forall|p: int, q: int|
                            0 <= p < q < t.len() ==> (#[trigger] t[p]).0@ != (#[trigger] t[q]).0@);
                    }
                }
                self.entries.push((name, value));
            },
        }
    }

    /// Removes the binding for `name`, if any.
    pub fn remove(&mut self, name: &String)
        requires
            old(self).wf(),
        ensures
            final(self)@ == old(self)@.remove(name@),
            final(self).wf(),
    {
        match self.find(name) {
            Some(i) => {
                proof {
                    lemma_entries_remove(self.kv(), i as int);
                }
                self.entries.remove(i);
            },
            None => {
                proof {
                    lemma_entries_contains(self.kv(), name@);
                    assert(self@.remove(name@) =~= self@);
                }
            },
        }
    }

    /// Removes and returns the binding for `name`, if any.
    pub fn take(&mut self, name: &String) -> (r: Option<V>)
        requires
            old(self).wf(),
        ensures
            final(self).wf(),
            match r {
                Some(v) => old(self)@.contains_key(name@) && v == old(self)@[name@] && final(self)@
                    == old(self)@.remove(name@),
                None => !old(self)@.contains_key(name@) && final(self)@ == old(self)@,
            },
    {
        proof {
            lemma_entries_contains(self.kv(), name@);
        }
        match self.find(name) {
            Some(i) => {
                proof {
                    lemma_entries_remove(self.kv(), i as int);
                    lemma_entries_index(self.kv(), i as int);
                }
                let e = self.entries.remove(i);
                Some(e.1)
            },
            None => None,
        }
    }

    /// Keeps only the bindings whose names are listed in `keep`.
    pub fn retain_names(&mut self, keep: &Vec<String>)
        requires
            old(self).wf(),
        ensures
            final(self)@ == old(self)@.restrict(name_set(keep@)),
            final(self).wf(),
    {
        let ghost s0 = self.kv();
        let ghost names = name_set(keep@);
        let mut kept: Vec<(String, V)> = Vec::new();
        proof {
            assert(entries_map(s0).restrict(names) =~= entries_map(s0).restrict(
                names,
            ).union_prefer_right(entries_map(kept@)));
        }
        while self.entries.len() > 0
            invariant
                names == name_set(keep@),
                distinct_keys(self.kv()),
                distinct_keys(kept@),
                entries_map(s0).restrict(names) == entries_map(self.kv()).restrict(
                    names,
                ).union_prefer_right(entries_map(kept@)),
                forall|j: int, i: int|
                    0 <= j < kept@.len() && 0 <= i < self.kv().len() ==> (#[trigger] kept@[j]).0@
                        != (#[trigger] self.kv()[i]).0@,
            decreases self.kv().len(),
        {
            let ghost s = self.kv();
            let e = self.entries.pop().unwrap();
            let ghost r = self.kv();
            proof {
                assert(r =~= s.drop_last());
                assert(e == s.last());
                assert(distinct_keys(r)) by {
                    assert(forall|p: int, q: int|
                        0 <= p < q < r.len() ==> (#[trigger] r[p]).0@ != (#[trigger] r[q]).0@);
                }
                lemma_entries_contains(kept@, e.0@);
                assert(!entries_map(kept@).contains_key(e.0@)) by {
                    assert(s[s.len() - 1] == e);
                }
            }
            proof {
                assert(entries_map(s) == entries_map(r).insert(e.0@, e.1)) by {
                    assert(s.len() > 0);
                    assert(s.drop_last() == r);
                    assert(s.last() == e);
                };
            }
            if name_listed(keep, &e.0) {
                proof {
                    let m_r = entries_map(r).restrict(names);
                    let m_k = entries_map(kept@);
                    assert(names.contains(e.0@));
                    assert(entries_map(s).restrict(names) =~= m_r.insert(e.0@, e.1));
                    assert(m_r.insert(e.0@, e.1).union_prefer_right(m_k) =~= m_r.union_prefer_right(
                        m_k.insert(e.0@, e.1),
                    ));
                    let t = kept@.push(e);
                    assert(t.drop_last() == kept@);
                    assert(entries_map(t) == m_k.insert(e.0@, e.1));
                    assert(distinct_keys(t)) by {
                        assert(forall|p: int, q: int|
                            0 <= p < q < t.len() ==> (#[trigger] t[p]).0@ != (#[trigger] t[q]).0@);
                    }
                }
                kept.push(e);
            } else {
                proof {
                    assert(!names.contains(e.0@));
                    assert(entries_map(s).restrict(names) =~= entries_map(r).restrict(names));
                }
            }
        }
        proof {
            assert(self.kv() =~= Seq::<(String, V)>::empty());
            assert(entries_map(s0).restrict(names) =~= entries_map(kept@));
        }
        self.entries = kept;
    }
}

/// Lengthening a key list by one name adds exactly that name to its set.
pub proof fn lemma_name_set_extend(keep: Seq<String>, i: int)
    requires
        0 <= i < keep.len(),
    ensures
        forall|k: Seq<char>|
            #[trigger] name_set(keep.subrange(0, i + 1)).contains(k) <==> (name_set(
                keep.subrange(0, i),
            ).contains(k) || keep[i]@ == k),
{
    let a = keep.subrange(0, i);
    let b = keep.subrange(0, i + 1);
    assert forall|k: Seq<char>| #[trigger] name_set(b).contains(k) implies (name_set(a).contains(k)
        || keep[i]@ == k) by {
        let j = choose|j: int| 0 <= j < b.len() && (#[trigger] b[j])@ == k;
        if j < i {
            assert(a[j]@ == k);
        } else {
            assert(b[j] == keep[i]);
        }
    }
    assert forall|k: Seq<char>| (name_set(a).contains(k) || keep[i]@ == k) implies #[trigger]
    name_set(b).contains(k) by {
        if name_set(a).contains(k) {
            let j = choose|j: int| 0 <= j < a.len() && (#[trigger] a[j])@ == k;
            assert(b[j]@ == k);
        } else {
            assert(b[i]@ == k);
        }
    }
}

/// Whether a name occurs in a key list.
pub fn name_listed(keep: &Vec<String>, name: &String) -> (r: bool)
    ensures
        r == name_set(keep@).contains(name@),
{
    let n = keep.len();
    let mut i: usize = 0;
    while i < n
        invariant
            n == keep@.len(),
            i <= n,
            forall|j: int| 0 <= j < i ==> (#[trigger] keep@[j])@ != name@,
        decreases n - i,
    {
        if keep[i] == *name {
            return true;
        }
        i = i + 1;
    }
    false
}

} // verus!
