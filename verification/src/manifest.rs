//! The manifest accumulator: a mapping from normalized original paths to
//! normalized fingerprinted paths, with last-write-wins insertion, viewed as
//! a `Map` over character sequences.

use vstd::prelude::*;

verus! {

/// The map that a sequence of entries denotes, inserted in order, so that the
/// last write to a key wins.
pub open spec fn map_of(entries: Seq<(String, String)>) -> Map<Seq<char>, Seq<char>>
    decreases entries.len(),
{
    if entries.len() == 0 {
        Map::empty()
    } else {
        map_of(entries.drop_last()).insert(entries.last().0@, entries.last().1@)
    }
}

/// A key is in the denoted map exactly when some entry carries it.
proof fn lemma_map_of_contains(entries: Seq<(String, String)>, k: Seq<char>)
    ensures
        map_of(entries).contains_key(k) <==> exists|i: int|
            0 <= i < entries.len() && entries[i].0@ == k,
    decreases entries.len(),
{
    if entries.len() > 0 {
        lemma_map_of_contains(entries.drop_last(), k);
        if entries.last().0@ == k {
            assert(entries[entries.len() - 1].0@ == k);
        } else if map_of(entries).contains_key(k) {
            let i = choose|i: int| 0 <= i < entries.len() - 1 && entries.drop_last()[i].0@ == k;
            assert(entries[i].0@ == k);
        } else {
            assert forall|i: int| 0 <= i < entries.len() implies entries[i].0@ != k by {
                if i < entries.len() - 1 {
                    assert(entries.drop_last()[i].0@ == entries[i].0@);
                }
            }
        }
    }
}

/// The denoted map sends a key carried by some entry to that entry's value,
/// provided no two entries carry the same key.
proof fn lemma_map_of_value(entries: Seq<(String, String)>, i: int)
    requires
        forall|a: int, b: int|
            0 <= a < b < entries.len() ==> entries[a].0@ != entries[b].0@,
        0 <= i < entries.len(),
    ensures
        map_of(entries).contains_key(entries[i].0@),
        map_of(entries)[entries[i].0@] == entries[i].1@,
    decreases entries.len(),
{
    if entries.len() > 0 {
        if i == entries.len() - 1 {
        } else {
            assert(entries.drop_last()[i] == entries[i]);
            lemma_map_of_value(entries.drop_last(), i);
            assert(entries.last().0@ != entries[i].0@);
        }
    }
}

/// The denoted map's domain is finite, and with pairwise distinct keys its
/// size is the number of entries.
proof fn lemma_map_of_dom(entries: Seq<(String, String)>)
    requires
        forall|a: int, b: int|
            0 <= a < b < entries.len() ==> entries[a].0@ != entries[b].0@,
    ensures
        map_of(entries).dom().finite(),
        map_of(entries).dom().len() == entries.len(),
    decreases entries.len(),
{
    if entries.len() > 0 {
        lemma_map_of_dom(entries.drop_last());
        lemma_map_of_contains(entries.drop_last(), entries.last().0@);
        assert forall|i: int|
            0 <= i < entries.len() - 1 implies entries.drop_last()[i].0@ != entries.last().0@ by {
            assert(entries.drop_last()[i].0@ == entries[i].0@);
        }
        assert(!map_of(entries.drop_last()).contains_key(entries.last().0@));
    }
}

/// The manifest accumulator.
pub struct Manifest {
    entries: Vec<(String, String)>,
}

impl View for Manifest {
    type V = Map<Seq<char>, Seq<char>>;

    closed spec fn view(&self) -> Map<Seq<char>, Seq<char>> {
        map_of(self.entries@)
    }
}

impl Manifest {
    /// No two stored entries carry the same key.
    pub closed spec fn wf(&self) -> bool {
        forall|a: int, b: int|
            0 <= a < b < self.entries@.len() ==> self.entries@[a].0@ != self.entries@[b].0@
    }

    /// The empty manifest.
    pub fn new() -> (r: Manifest)
        ensures
            r@ == Map::<Seq<char>, Seq<char>>::empty(),
            r.wf(),
    {
        Manifest { entries: Vec::new() }
    }

    /// Insert a mapping; an entry already carrying the key is overwritten.
    pub fn insert(&mut self, key: String, value: String)
        requires
            old(self).wf(),
        ensures
            final(self).wf(),
            final(self)@ == old(self)@.insert(key@, value@),
    {
        let n = self.entries.len();
        let mut i: usize = 0;
        while i < n
            invariant
                n == self.entries@.len(),
                i <= n,
                *self == *old(self),
                old(self).wf(),
                forall|j: int| 0 <= j < i ==> self.entries@[j].0@ != key@,
            decreases n - i,
        {
            if self.entries[i].0 == key {
                self.entries.set(i, (key, value));
                proof {
                    lemma_map_of_update(old(self).entries@, i as int, key, value);
                }
                return ;
            }
            i = i + 1;
        }
        self.entries.push((key, value));
        proof {
            assert(self.entries@.drop_last() =~= old(self).entries@);
            assert(self.entries@.last() == (key, value));
        }
    }

    /// Look a key up in the accumulated mapping.
    pub fn get(&self, key: &str) -> (r: Option<&String>)
        requires
            self.wf(),
        ensures
            match r {
                Some(v) => self@.contains_key(key@) && v@ == self@[key@],
                None => !self@.contains_key(key@),
            },
    {
        let n = self.entries.len();
        let mut i: usize = 0;
        while i < n
            invariant
                n == self.entries@.len(),
                self.wf(),
                i <= n,
                forall|j: int| 0 <= j < i ==> self.entries@[j].0@ != key@,
            decreases n - i,
        {
            if crate::strings::str_eq(self.entries[i].0.as_str(), key) {
                proof {
                    lemma_map_of_value(self.entries@, i as int);
                }
                return Some(&self.entries[i].1);
            }
            i = i + 1;
        }
        proof {
            lemma_map_of_contains(self.entries@, key@);
        }
        None
    }

    /// How many mappings the manifest holds.
    pub fn len(&self) -> (r: usize)
        requires
            self.wf(),
        ensures
            r == self@.dom().len(),
    {
        proof {
            lemma_map_of_dom(self.entries@);
        }
        self.entries.len()
    }

    /// The stored entries, for writing the manifest out.
    pub fn pairs(&self) -> (r: &Vec<(String, String)>)
        ensures
            map_of(r@) == self@,
    {
        &self.entries
    }
}

/// Overwriting the entry that carries a key denotes the same map as inserting
/// the key afresh, provided keys are pairwise distinct.
proof fn lemma_map_of_update(entries: Seq<(String, String)>, i: int, key: String, value: String)
    requires
        forall|a: int, b: int|
            0 <= a < b < entries.len() ==> entries[a].0@ != entries[b].0@,
        0 <= i < entries.len(),
        entries[i].0@ == key@,
    ensures
        map_of(entries.update(i, (key, value))) == map_of(entries).insert(key@, value@),
    decreases entries.len(),
{
    let updated = entries.update(i, (key, value));
    if i == entries.len() - 1 {
        assert(updated.drop_last() =~= entries.drop_last());
        assert(map_of(updated) =~= map_of(entries).insert(key@, value@));
    } else {
        assert(updated.drop_last() =~= entries.drop_last().update(i, (key, value)));
        lemma_map_of_update(entries.drop_last(), i, key, value);
        assert(entries.drop_last()[i].0@ == entries[i].0@);
        assert(entries.last().0@ != key@);
        assert(map_of(updated) =~= map_of(entries).insert(key@, value@));
    }
}

} // verus!
