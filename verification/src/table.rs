//! A map keyed by a `(class name, function name)` pair, used for the
//! compiled program's symbol and label tables. It is an association vector
//! with insert-at-end semantics: a later insertion of a key shadows an
//! earlier one, so its abstraction is exactly a `Map` built by `insert`.
use vstd::prelude::*;

verus! {

/// The view of an exec `(String, String)` key.
pub open spec fn kview(k: ((String, String))) -> (Seq<char>, Seq<char>) {
    (k.0@, k.1@)
}

/// A map from `(class name, function name)` to `V`.
#[derive(Debug)]
pub struct Table<V> {
    entries: Vec<((String, String), V)>,
}

/// The map denoted by a sequence of entries, later entries shadowing
/// earlier ones.
pub open spec fn map_of<V: View>(
    s: Seq<((String, String), V)>,
) -> Map<(Seq<char>, Seq<char>), V::V>
    decreases s.len(),
{
    if s.len() == 0 {
        Map::empty()
    } else {
        map_of(s.drop_last()).insert(kview(s.last().0), s.last().1@)
    }
}

/// A key matches an entry when both strings agree.
pub open spec fn entry_matches<V: View>(e: ((String, String), V), k0: Seq<char>, k1: Seq<char>) -> bool {
    e.0.0@ == k0 && e.0.1@ == k1
}

proof fn lemma_map_of_no_match<V: View>(s: Seq<((String, String), V)>, k0: Seq<char>, k1: Seq<char>)
    requires
        forall|i: int| 0 <= i < s.len() ==> !entry_matches(#[trigger] s[i], k0, k1),
    ensures
        !map_of(s).contains_key((k0, k1)),
    decreases s.len(),
{
    if s.len() > 0 {
        assert(forall|i: int|
            0 <= i < s.drop_last().len() ==> !entry_matches(#[trigger] s.drop_last()[i], k0, k1));
        lemma_map_of_no_match(s.drop_last(), k0, k1);
    }
}

proof fn lemma_map_of_last_match<V: View>(
    s: Seq<((String, String), V)>,
    j: int,
    k0: Seq<char>,
    k1: Seq<char>,
)
    requires
        0 <= j < s.len(),
        entry_matches(s[j], k0, k1),
        forall|i: int| j < i < s.len() ==> !entry_matches(#[trigger] s[i], k0, k1),
    ensures
        map_of(s).contains_key((k0, k1)),
        map_of(s)[(k0, k1)] == s[j].1@,
    decreases s.len(),
{
    if j == s.len() - 1 {
        assert(kview(s.last().0) == (k0, k1));
    } else {
        assert(s.drop_last()[j] == s[j]);
        lemma_map_of_last_match(s.drop_last(), j, k0, k1);
        assert(kview(s.last().0) != (k0, k1));
    }
}

impl<V: View> Table<V> {
    pub closed spec fn view(&self) -> Map<(Seq<char>, Seq<char>), V::V> {
        map_of(self.entries@)
    }

    /// An empty table.
    pub fn new() -> (r: Table<V>)
        ensures
            r@ == Map::<(Seq<char>, Seq<char>), V::V>::empty(),
    {
        Table { entries: Vec::new() }
    }

    /// Binds `k` to `v`, shadowing any earlier binding.
    pub fn insert(&mut self, k0: &String, k1: &String, v: V)
        ensures
            final(self)@ == old(self)@.insert((k0@, k1@), v@),
    {
        self.entries.push(((k0.clone(), k1.clone()), v));
        proof {
            assert(self.entries@.drop_last() =~= old(self).entries@);
        }
    }

    /// Whether `k` is bound.
    pub fn contains(&self, k0: &String, k1: &String) -> (r: bool)
        ensures
            r == self@.contains_key((k0@, k1@)),
    {
        self.find(k0, k1).is_some()
    }

    /// The binding of `k`, if any.
    pub fn get(&self, k0: &String, k1: &String) -> (r: Option<&V>)
        ensures
            r is Some <==> self@.contains_key((k0@, k1@)),
            r is Some ==> r->0@ == self@[(k0@, k1@)],
    {
        match self.find(k0, k1) {
            Some(i) => Some(&self.entries[i].1),
            None => None,
        }
    }

    /// The index of the last entry matching `k`, the one that lookup obeys.
    fn find(&self, k0: &String, k1: &String) -> (r: Option<usize>)
        ensures
            r is Some <==> self@.contains_key((k0@, k1@)),
            r is Some ==> {
                let i = r->0 as int;
                &&& 0 <= i < self.entries@.len()
                &&& entry_matches(self.entries@[i], k0@, k1@)
                &&& self@[(k0@, k1@)] == self.entries@[i].1@
            },
    {
        let n = self.entries.len();
        let mut i: usize = n;
        while i > 0
            invariant
                0 <= i <= n == self.entries@.len(),
            forall|j: int| i <= j < n ==> !entry_matches(#[trigger] self.entries@[j], k0@, k1@),
            decreases i,
        {
            i = i - 1;
            let e = &self.entries[i];
            if e.0.0 == *k0 && e.0.1 == *k1 {
                proof {
                    lemma_map_of_last_match(self.entries@, i as int, k0@, k1@);
                }
                return Some(i);
            }
        }
        proof {
            lemma_map_of_no_match(self.entries@, k0@, k1@);
        }
        None
    }
}

/// A map keyed by a single name, used for an object's fields. The same
/// association-vector design as `Table`.
#[derive(Debug)]
pub struct StrMap<V> {
    entries: Vec<(String, V)>,
}

/// The map denoted by the entries, later entries shadowing earlier ones.
pub open spec fn smap_of<V: View>(s: Seq<(String, V)>) -> Map<Seq<char>, V::V>
    decreases s.len(),
{
    if s.len() == 0 {
        Map::empty()
    } else {
        smap_of(s.drop_last()).insert(s.last().0@, s.last().1@)
    }
}

proof fn lemma_smap_of_no_match<V: View>(s: Seq<(String, V)>, k: Seq<char>)
    requires
        forall|i: int| 0 <= i < s.len() ==> (#[trigger] s[i]).0@ != k,
    ensures
        !smap_of(s).contains_key(k),
    decreases s.len(),
{
    if s.len() > 0 {
        assert(forall|i: int| 0 <= i < s.drop_last().len() ==> (#[trigger] s.drop_last()[i]).0@ != k);
        lemma_smap_of_no_match(s.drop_last(), k);
    }
}

proof fn lemma_smap_of_last_match<V: View>(s: Seq<(String, V)>, j: int, k: Seq<char>)
    requires
        0 <= j < s.len(),
        s[j].0@ == k,
        forall|i: int| j < i < s.len() ==> (#[trigger] s[i]).0@ != k,
    ensures
        smap_of(s).contains_key(k),
        smap_of(s)[k] == s[j].1@,
    decreases s.len(),
{
    if j < s.len() - 1 {
        assert(s.drop_last()[j] == s[j]);
        lemma_smap_of_last_match(s.drop_last(), j, k);
    }
}

impl<V: View> StrMap<V> {
    pub closed spec fn view(&self) -> Map<Seq<char>, V::V> {
        smap_of(self.entries@)
    }

    /// An empty map.
    pub fn new() -> (r: StrMap<V>)
        ensures
            r@ == Map::<Seq<char>, V::V>::empty(),
    {
        StrMap { entries: Vec::new() }
    }

    /// Binds `k` to `v`, shadowing any earlier binding.
    pub fn insert(&mut self, k: String, v: V)
        ensures
            final(self)@ == old(self)@.insert(k@, v@),
    {
        self.entries.push((k, v));
        proof {
            assert(self.entries@.drop_last() =~= old(self).entries@);
        }
    }

    /// The binding of `k`, if any.
    pub fn get(&self, k: &String) -> (r: Option<&V>)
        ensures
            r is Some <==> self@.contains_key(k@),
            r is Some ==> r->0@ == self@[k@],
    {
        let n = self.entries.len();
        let mut i: usize = n;
        while i > 0
            invariant
                0 <= i <= n == self.entries@.len(),
                forall|j: int| i <= j < n ==> (#[trigger] self.entries@[j]).0@ != k@,
            decreases i,
        {
            i = i - 1;
            let e = &self.entries[i];
            if e.0 == *k {
                proof {
                    lemma_smap_of_last_match(self.entries@, i as int, k@);
                }
                return Some(&self.entries[i].1);
            }
        }
        proof {
            lemma_smap_of_no_match(self.entries@, k@);
        }
        None
    }
}

} // verus!
