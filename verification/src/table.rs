//! A map with text keys.
use vstd::prelude::*;

use crate::text::same_text;

verus! {

/// A map from texts to values, in which no key occurs twice.
#[derive(Debug)]
pub struct Table<V> {
    entries: Vec<(String, V)>,
}

/// Whether no two entries have the same key.
spec fn distinct_keys<V>(entries: Seq<(String, V)>) -> bool {
    forall|i: int, j: int|
        0 <= i < j < entries.len() ==> (#[trigger] entries[i]).0@ != (#[trigger] entries[j]).0@
}

/// Whether an entry has the key.
spec fn has_key<V>(entries: Seq<(String, V)>, key: Seq<char>) -> bool {
    exists|i: int| 0 <= i < entries.len() && (#[trigger] entries[i]).0@ == key
}

/// The map that a list of entries makes.
spec fn as_map<V>(entries: Seq<(String, V)>) -> Map<Seq<char>, V> {
    Map::new(
        |key: Seq<char>| has_key(entries, key),
        |key: Seq<char>|
            entries[choose|i: int| 0 <= i < entries.len() && (#[trigger] entries[i]).0@ == key].1,
    )
}

proof fn lemma_entry<V>(entries: Seq<(String, V)>, i: int)
    requires
        distinct_keys(entries),
        0 <= i < entries.len(),
    ensures
        as_map(entries).contains_key(entries[i].0@),
        as_map(entries)[entries[i].0@] == entries[i].1,
{
    let key = entries[i].0@;
    let k = choose|k: int| 0 <= k < entries.len() && (#[trigger] entries[k]).0@ == key;
    assert(k == i);
}

/// Two lists of entries make the same map but for one key.
proof fn lemma_same_but<V>(a: Seq<(String, V)>, b: Seq<(String, V)>, key: Seq<char>)
    requires
        distinct_keys(a),
        distinct_keys(b),
        forall|i: int|
            0 <= i < a.len() && (#[trigger] a[i]).0@ != key ==> exists|j: int|
                0 <= j < b.len() && #[trigger] b[j] == a[i],
        forall|j: int|
            0 <= j < b.len() && (#[trigger] b[j]).0@ != key ==> exists|i: int|
                0 <= i < a.len() && #[trigger] a[i] == b[j],
    ensures
        as_map(a).remove(key) == as_map(b).remove(key),
{
    let ma = as_map(a).remove(key);
    let mb = as_map(b).remove(key);
    assert forall|k: Seq<char>| ma.contains_key(k) implies mb.contains_key(k) && ma[k] == mb[k] by {
        let i = choose|i: int| 0 <= i < a.len() && (#[trigger] a[i]).0@ == k;
        lemma_entry(a, i);
        let j = choose|j: int| 0 <= j < b.len() && #[trigger] b[j] == a[i];
        lemma_entry(b, j);
    }
    assert forall|k: Seq<char>| mb.contains_key(k) implies ma.contains_key(k) by {
        let j = choose|j: int| 0 <= j < b.len() && (#[trigger] b[j]).0@ == k;
        let i = choose|i: int| 0 <= i < a.len() && #[trigger] a[i] == b[j];
        lemma_entry(a, i);
    }
    assert(ma =~= mb);
}

impl<V> View for Table<V> {
    type V = Map<Seq<char>, V>;

    closed spec fn view(&self) -> Map<Seq<char>, V> {
        as_map(self.entries@)
    }
}

impl<V> Table<V> {
    #[verifier::type_invariant]
    spec fn well_formed(self) -> bool {
        distinct_keys(self.entries@)
    }

    /// How many entries there are.
    pub closed spec fn count(self) -> nat {
        self.entries@.len()
    }

    /// A table without entries.
    pub fn new() -> (r: Self)
        ensures
            r@ == Map::<Seq<char>, V>::empty(),
            r.count() == 0,
    {
        let r = Table { entries: Vec::new() };
        proof {
            assert(r@ =~= Map::<Seq<char>, V>::empty());
        }
        r
    }

    /// The position of a key.
    fn position(&self, key: &str) -> (r: Option<usize>)
        ensures
            r is Some <==> self@.contains_key(key@),
            r matches Some(i) ==> i < self.entries@.len() && self.entries@[i as int].0@ == key@
                && self@[key@] == self.entries@[i as int].1,
    {
        proof {
            use_type_invariant(self);
        }
        let n: usize = self.entries.len();
        let mut i: usize = 0;
        while i < n
            invariant
                i <= n,
                n == self.entries@.len(),
                distinct_keys(self.entries@),
                forall|j: int| 0 <= j < i ==> (#[trigger] self.entries@[j]).0@ != key@,
            decreases n - i,
        {
            if same_text(self.entries[i].0.as_str(), key) {
                proof {
                    lemma_entry(self.entries@, i as int);
                }
                return Some(i);
            }
            i = i + 1;
        }
        None
    }

    /// The value under a key.
    pub fn get(&self, key: &str) -> (r: Option<&V>)
        ensures
            r is Some <==> self@.contains_key(key@),
            r matches Some(v) ==> *v == self@[key@],
    {
        match self.position(key) {
            Some(i) => Some(&self.entries[i].1),
            None => None,
        }
    }

    /// Takes the value under a key out.
    pub fn remove(&mut self, key: &str) -> (r: Option<V>)
        ensures
            final(self)@ == old(self)@.remove(key@),
            r is Some <==> old(self)@.contains_key(key@),
            r matches Some(v) ==> v == old(self)@[key@],
    {
        proof {
            use_type_invariant(&*self);
        }
        match self.position(key) {
            Some(i) => {
                let ghost before = self.entries@;
                let mut entries: Vec<(String, V)> = Vec::new();
                std::mem::swap(&mut entries, &mut self.entries);
                let (_, value) = entries.remove(i);
                proof {
                    let after = entries@;
                    assert forall|a: int| 0 <= a < after.len() implies #[trigger] after[a]
                        == before[if a < i {
                        a
                    } else {
                        a + 1
                    }] by {}
                    assert(distinct_keys(after));
                    assert forall|a: int|
                        0 <= a < before.len() && (
                        #[trigger] before[a]).0@ != key@ implies exists|b: int|
                        0 <= b < after.len() && #[trigger] after[b] == before[a] by {
                        let b = if a < i {
                            a
                        } else {
                            a - 1
                        };
                        assert(after[b] == before[a]);
                    }
                    lemma_same_but(before, after, key@);
                    assert(!has_key(after, key@));
                    assert(as_map(after).remove(key@) =~= as_map(after));
                }
                self.entries = entries;
                Some(value)
            },
            None => {
                proof {
                    assert(self@.remove(key@) =~= self@);
                }
                None
            },
        }
    }

    /// Puts a value under a key, in place of the one that was there.
    pub fn insert(&mut self, key: String, value: V)
        ensures
            final(self)@ == old(self)@.insert(key@, value),
    {
        let ghost old_map = self@;
        let _ = self.remove(&key);
        proof {
            use_type_invariant(&*self);
        }
        let ghost before = self.entries@;
        let mut entries: Vec<(String, V)> = Vec::new();
        std::mem::swap(&mut entries, &mut self.entries);
        let ghost k = key@;
        entries.push((key, value));
        proof {
            let after = entries@;
            let n = before.len() as int;
            assert(!as_map(before).contains_key(k));
            assert forall|a: int| 0 <= a < n implies (#[trigger] before[a]).0@ != k by {
                if before[a].0@ == k {
                    assert(has_key(before, k));
                }
            }
            assert(forall|a: int| 0 <= a < n ==> after[a] == before[a]);
            assert(distinct_keys(after));
            lemma_same_but(before, after, k);
            lemma_entry(after, n);
            assert(as_map(after) =~= as_map(after).remove(k).insert(k, value));
            assert(as_map(after) =~= old_map.insert(k, value));
        }
        self.entries = entries;
    }

    /// Takes some entry out; nothing where there is none.
    pub fn pop(&mut self) -> (r: Option<(String, V)>)
        ensures
            r is None ==> old(self)@ == Map::<Seq<char>, V>::empty() && *final(self) == *old(self),
            r matches Some(entry) ==> {
                &&& old(self)@.contains_key(entry.0@)
                &&& old(self)@[entry.0@] == entry.1
                &&& final(self)@ == old(self)@.remove(entry.0@)
                &&& final(self).count() + 1 == old(self).count()
            },
    {
        proof {
            use_type_invariant(&*self);
        }
        let n: usize = self.entries.len();
        if n == 0 {
            proof {
                assert(self@ =~= Map::<Seq<char>, V>::empty());
            }
            return None;
        }
        let ghost before = self.entries@;
        let mut entries: Vec<(String, V)> = Vec::new();
        std::mem::swap(&mut entries, &mut self.entries);
        let last = entries.pop();
        proof {
            let after = entries@;
            let key = before[n - 1].0@;
            lemma_entry(before, n - 1);
            assert(forall|a: int| 0 <= a < n - 1 ==> after[a] == before[a]);
            assert(distinct_keys(after));
            lemma_same_but(before, after, key);
            assert(!has_key(after, key));
            assert(as_map(after).remove(key) =~= as_map(after));
        }
        self.entries = entries;
        last
    }
}

} // verus!
