use vstd::prelude::*;

verus! {

/// The complete key-value state of one store at a point in time: an
/// association list with pairwise-distinct keys, viewed as a finite map
/// from key characters to value characters.
pub struct Snapshot {
    entries: Vec<(String, String)>,
}

/// The map described by an association list; on a repeated key the later
/// entry wins.
pub open spec fn map_of(s: Seq<(String, String)>) -> Map<Seq<char>, Seq<char>>
    decreases s.len(),
{
    if s.len() == 0 {
        Map::empty()
    } else {
        map_of(s.drop_last()).insert(s.last().0@, s.last().1@)
    }
}

/// Pairwise-distinct keys in an association list.
pub open spec fn distinct_keys(s: Seq<(String, String)>) -> bool {
    forall|i: int, j: int| 0 <= i < j < s.len() ==> s[i].0@ != s[j].0@
}

/// A key is in the map of an association list exactly when some entry holds it.
pub proof fn lemma_map_of_contains(s: Seq<(String, String)>, k: Seq<char>)
    ensures
        map_of(s).contains_key(k) <==> exists|i: int| 0 <= i < s.len() && s[i].0@ == k,
    decreases s.len(),
{
    if s.len() == 0 {
    } else {
        lemma_map_of_contains(s.drop_last(), k);
        if s.last().0@ == k {
            assert(s[s.len() - 1].0@ == k);
        } else {
            if map_of(s).contains_key(k) {
                let i = choose|i: int| 0 <= i < s.drop_last().len() && s.drop_last()[i].0@ == k;
                assert(s[i].0@ == k);
            }
            if exists|i: int| 0 <= i < s.len() && s[i].0@ == k {
                let i = choose|i: int| 0 <= i < s.len() && s[i].0@ == k;
                assert(s.drop_last()[i].0@ == k);
            }
        }
    }
}

/// With distinct keys, the entry at index `i` decides the map's value at its key.
pub proof fn lemma_map_of_get(s: Seq<(String, String)>, i: int)
    requires
        distinct_keys(s),
        0 <= i < s.len(),
    ensures
        map_of(s).contains_key(s[i].0@),
        map_of(s)[s[i].0@] == s[i].1@,
    decreases s.len(),
{
    if i == s.len() - 1 {
    } else {
        assert(distinct_keys(s.drop_last())) by {
            assert(forall|a: int, b: int|
                0 <= a < b < s.drop_last().len() ==> s.drop_last()[a].0@ != s.drop_last()[b].0@)
                by {
                assert(forall|a: int| 0 <= a < s.drop_last().len() ==> s.drop_last()[a] == s[a]);
            }
        }
        lemma_map_of_get(s.drop_last(), i);
        assert(s.drop_last()[i] == s[i]);
        assert(s[i].0@ != s.last().0@);
    }
}

/// A key held by no entry is absent from the map of the list.
pub proof fn lemma_map_of_absent(s: Seq<(String, String)>, k: Seq<char>)
    requires
        forall|i: int| 0 <= i < s.len() ==> s[i].0@ != k,
    ensures
        !map_of(s).contains_key(k),
    decreases s.len(),
{
    if s.len() == 0 {
    } else {
        assert(forall|i: int| 0 <= i < s.drop_last().len() ==> s.drop_last()[i].0@ != k);
        lemma_map_of_absent(s.drop_last(), k);
        assert(s.last().0@ != k);
    }
}

/// Appending an entry inserts its pair into the map of the list.
pub proof fn lemma_map_of_push(s: Seq<(String, String)>, p: (String, String))
    ensures
        map_of(s.push(p)) == map_of(s).insert(p.0@, p.1@),
{
    assert(s.push(p).drop_last() =~= s);
    assert(s.push(p).last() == p);
}

/// Removing the entry that holds key `k` removes `k` from the map of the list.
pub proof fn lemma_map_of_remove(s: Seq<(String, String)>, i: int)
    requires
        distinct_keys(s),
        0 <= i < s.len(),
    ensures
        map_of(s.remove(i)) == map_of(s).remove(s[i].0@),
        distinct_keys(s.remove(i)),
    decreases s.len(),
{
    let k = s[i].0@;
    s.remove_ensures(i);
    assert(distinct_keys(s.remove(i))) by {
        assert forall|a: int, b: int| 0 <= a < b < s.remove(i).len()
            implies s.remove(i)[a].0@ != s.remove(i)[b].0@ by {
            let a0 = if a < i { a } else { a + 1 };
            let b0 = if b < i { b } else { b + 1 };
            assert(s.remove(i)[a] == s[a0]);
            assert(s.remove(i)[b] == s[b0]);
        }
    }
    if i == s.len() - 1 {
        assert(s.remove(i) =~= s.drop_last());
        assert(forall|j: int| 0 <= j < s.drop_last().len() ==> s.drop_last()[j] == s[j]);
        lemma_map_of_absent(s.drop_last(), k);
        assert(map_of(s.drop_last()) =~= map_of(s.drop_last()).insert(k, s[i].1@).remove(k));
    } else {
        assert(distinct_keys(s.drop_last())) by {
            assert(forall|a: int| 0 <= a < s.drop_last().len() ==> s.drop_last()[a] == s[a]);
        }
        lemma_map_of_remove(s.drop_last(), i);
        assert(s.drop_last()[i] == s[i]);
        assert(s.remove(i).drop_last() =~= s.drop_last().remove(i)) by {
            s.drop_last().remove_ensures(i);
        }
        assert(s.remove(i).last() == s.last());
        assert(s.last().0@ != k);
        assert(map_of(s.remove(i)) == map_of(s.drop_last()).remove(k).insert(s.last().0@, s.last().1@));
        assert(map_of(s.drop_last()).remove(k).insert(s.last().0@, s.last().1@)
            =~= map_of(s.drop_last()).insert(s.last().0@, s.last().1@).remove(k));
    }
}

impl View for Snapshot {
    type V = Map<Seq<char>, Seq<char>>;

    closed spec fn view(&self) -> Map<Seq<char>, Seq<char>> {
        map_of(self.entries@)
    }
}

impl Snapshot {
    /// The keys held by the entries are pairwise distinct.
    pub closed spec fn wf(&self) -> bool {
        distinct_keys(self.entries@)
    }

    /// An empty snapshot.
    pub fn new() -> (r: Snapshot)
        ensures
            r@ == Map::<Seq<char>, Seq<char>>::empty(),
            r.wf(),
    {
        Snapshot { entries: Vec::new() }
    }

    /// The entries of the snapshot; their association-list map is the
    /// snapshot's view.
    pub fn entries(&self) -> (r: &Vec<(String, String)>)
        ensures
            map_of(r@) == self@,
    {
        &self.entries
    }

    /// The value stored under `key`, if any.
    pub fn lookup(&self, key: &str) -> (r: Option<String>)
        requires
            self.wf(),
        ensures
            r is Some <==> self@.contains_key(key@),
            r is Some ==> r.unwrap()@ == self@[key@],
    {
        let k = key.to_owned();
        let n = self.entries.len();
        let mut i: usize = 0;
        while i < n
            invariant
                n == self.entries.len(),
                i <= n,
                self.wf(),
                k@ == key@,
                forall|j: int| 0 <= j < i ==> self.entries@[j].0@ != key@,
            decreases n - i,
        {
            if self.entries[i].0 == k {
                proof {
                    lemma_map_of_get(self.entries@, i as int);
                }
                return Some(self.entries[i].1.clone());
            }
            i = i + 1;
        }
        proof {
            lemma_map_of_absent(self.entries@, key@);
        }
        None
    }

    /// Removes `key` and returns the value it held, if any.
    pub fn take_out(&mut self, key: &str) -> (r: Option<String>)
        requires
            old(self).wf(),
        ensures
            final(self).wf(),
            final(self)@ == old(self)@.remove(key@),
            r is Some <==> old(self)@.contains_key(key@),
            r is Some ==> r.unwrap()@ == old(self)@[key@],
    {
        let k = key.to_owned();
        let n = self.entries.len();
        let mut i: usize = 0;
        while i < n
            invariant
                n == self.entries.len(),
                i <= n,
                self.wf(),
                self == old(self),
                k@ == key@,
                forall|j: int| 0 <= j < i ==> self.entries@[j].0@ != key@,
            decreases n - i,
        {
            if self.entries[i].0 == k {
                proof {
                    lemma_map_of_get(self.entries@, i as int);
                    lemma_map_of_remove(self.entries@, i as int);
                }
                let pair = self.entries.remove(i);
                return Some(pair.1);
            }
            i = i + 1;
        }
        proof {
            lemma_map_of_absent(self.entries@, key@);
            assert(old(self)@.remove(key@) =~= old(self)@);
        }
        None
    }

    /// Binds `key` to `value`, returning the value previously held, if any.
    pub fn insert(&mut self, key: &str, value: &str) -> (r: Option<String>)
        requires
            old(self).wf(),
        ensures
            final(self).wf(),
            final(self)@ == old(self)@.insert(key@, value@),
            r is Some <==> old(self)@.contains_key(key@),
            r is Some ==> r.unwrap()@ == old(self)@[key@],
    {
        let prev = self.take_out(key);
        let ghost before = self.entries@;
        self.entries.push((key.to_owned(), value.to_owned()));
        proof {
            lemma_map_of_push(before, self.entries@.last());
            assert(!map_of(before).contains_key(key@));
            assert(forall|j: int| 0 <= j < before.len() ==> before[j].0@ != key@) by {
                lemma_map_of_contains(before, key@);
            }
            assert(distinct_keys(self.entries@)) by {
                assert(forall|j: int| 0 <= j < before.len() ==> self.entries@[j] == before[j]);
                assert(self.entries@[before.len() as int].0@ == key@);
            }
            assert(old(self)@.remove(key@).insert(key@, value@) =~= old(self)@.insert(key@, value@));
        }
        prev
    }

    /// Unions the other snapshot's bindings into this one; on a shared key
    /// the other snapshot's value wins.
    pub fn merge_from(&mut self, other: &Snapshot)
        requires
            old(self).wf(),
        ensures
            final(self).wf(),
            final(self)@ == old(self)@.union_prefer_right(other@),
    {
        let n = other.entries.len();
        let mut i: usize = 0;
        while i < n
            invariant
                n == other.entries.len(),
                i <= n,
                self.wf(),
                self@ == old(self)@.union_prefer_right(map_of(other.entries@.take(i as int))),
            decreases n - i,
        {
            let ghost mid = self@;
            self.insert(other.entries[i].0.as_str(), other.entries[i].1.as_str());
            proof {
                let t = other.entries@.take(i as int);
                let t1 = other.entries@.take(i + 1 as int);
                assert(t1.drop_last() =~= t);
                assert(t1.last() == other.entries@[i as int]);
                assert(map_of(t1) == map_of(t).insert(other.entries@[i as int].0@, other.entries@[i as int].1@));
                vstd::map_lib::lemma_union_insert_right(old(self)@, map_of(t), other.entries@[i as int].0@, other.entries@[i as int].1@);
            }
            i = i + 1;
        }
        proof {
            assert(other.entries@.take(n as int) =~= other.entries@);
        }
    }

    /// A snapshot holding the map of the given association list.
    pub fn from_entries(entries: &Vec<(String, String)>) -> (r: Snapshot)
        ensures
            r.wf(),
            r@ == map_of(entries@),
    {
        let mut snap = Snapshot::new();
        let n = entries.len();
        let mut i: usize = 0;
        while i < n
            invariant
                n == entries.len(),
                i <= n,
                snap.wf(),
                snap@ == map_of(entries@.take(i as int)),
            decreases n - i,
        {
            snap.insert(entries[i].0.as_str(), entries[i].1.as_str());
            proof {
                let t = entries@.take(i as int);
                let t1 = entries@.take(i + 1 as int);
                assert(t1.drop_last() =~= t);
                assert(t1.last() == entries@[i as int]);
            }
            i = i + 1;
        }
        proof {
            assert(entries@.take(n as int) =~= entries@);
        }
        snap
    }
}

} // verus!
