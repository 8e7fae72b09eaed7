//! A small mapping from text keys to text values with unique keys and
//! last-write-wins insertion, keeping insertion order for iteration.

use vstd::prelude::*;

verus! {

broadcast use vstd::std_specs::vec::group_vec_axioms, vstd::seq::group_seq_axioms;

/// A mapping from text keys to text values, keys unique.
#[derive(Debug, PartialEq)]
pub struct StringMap {
    entries: Vec<(String, String)>,
}

/// The map denoted by a key-value sequence, later entries overwriting
/// earlier ones.
pub open spec fn smap_of(s: Seq<(Seq<char>, Seq<char>)>) -> Map<Seq<char>, Seq<char>>
    decreases s.len(),
{
    if s.len() == 0 {
        Map::empty()
    } else {
        smap_of(s.drop_last()).insert(s.last().0, s.last().1)
    }
}

/// Whether the keys of a key-value sequence are pairwise distinct.
pub open spec fn skeys_unique(s: Seq<(Seq<char>, Seq<char>)>) -> bool {
    forall|i: int, j: int| 0 <= i < j < s.len() ==> s[i].0 != s[j].0
}

impl StringMap {
    /// The entries as key-value texts, in insertion order.
    pub closed spec fn kvs(&self) -> Seq<(Seq<char>, Seq<char>)> {
        self.entries@.map_values(|p: (String, String)| (p.0@, p.1@))
    }

    /// The mapping this value denotes.
    pub open spec fn model(&self) -> Map<Seq<char>, Seq<char>> {
        smap_of(self.kvs())
    }

    /// Each key occurs in at most one entry.
    #[verifier::type_invariant]
    pub closed spec fn wf(&self) -> bool {
        skeys_unique(self.kvs())
    }

    /// An empty mapping.
    pub fn new() -> (r: StringMap)
        ensures
            r.model() == Map::<Seq<char>, Seq<char>>::empty(),
            r.kvs() == Seq::<(Seq<char>, Seq<char>)>::empty(),
    {
        let r = StringMap { entries: Vec::new() };
        proof {
            assert(r.kvs() =~= Seq::<(Seq<char>, Seq<char>)>::empty());
        }
        r
    }

    /// Binds the key to the value, overwriting any earlier binding.
    #[verifier::loop_isolation(false)]
    pub fn insert(&mut self, key: String, value: String)
        ensures
            final(self).model() == old(self).model().insert(key@, value@),
    {
        proof {
            use_type_invariant(&*self);
        }
        let mut entries: Vec<(String, String)> = Vec::new();
        core::mem::swap(&mut entries, &mut self.entries);
        let ghost kvs0 = entries@.map_values(|p: (String, String)| (p.0@, p.1@));
        let n = entries.len();
        let mut i: usize = 0;
        while i < n
            invariant
                n == entries@.len(),
                i <= n,
                entries@.map_values(|p: (String, String)| (p.0@, p.1@)) == kvs0,
                skeys_unique(kvs0),
                forall|k: int| 0 <= k < i ==> kvs0[k].0 != key@,
            decreases n - i,
        {
            if entries[i].0 == key {
                entries.set(i, (key, value));
                proof {
                    let kvs1 = entries@.map_values(|p: (String, String)| (p.0@, p.1@));
                    assert(kvs1 =~= kvs0.update(i as int, (kvs0[i as int].0, value@)));
                    lemma_smap_update(kvs0, i as int, value@);
                }
                core::mem::swap(&mut entries, &mut self.entries);
                return ;
            }
            i = i + 1;
        }
        entries.push((key, value));
        proof {
            let kvs1 = entries@.map_values(|p: (String, String)| (p.0@, p.1@));
            assert(kvs1 =~= kvs0.push((key@, value@)));
            assert(kvs1.drop_last() =~= kvs0);
            lemma_smap_contains(kvs0, key@);
            assert(skeys_unique(kvs1));
        }
        core::mem::swap(&mut entries, &mut self.entries);
    }

    /// The value bound to the key, if the key is bound at all.
    #[verifier::loop_isolation(false)]
    pub fn get(&self, key: &str) -> (r: Option<&String>)
        ensures
            match r {
                Some(v) => self.model().contains_key(key@) && v@ == self.model()[key@],
                None => !self.model().contains_key(key@),
            },
    {
        proof {
            use_type_invariant(&*self);
        }
        let n = self.entries.len();
        let mut i: usize = 0;
        while i < n
            invariant
                n == self.entries@.len(),
                i <= n,
                forall|k: int| 0 <= k < i ==> self.kvs()[k].0 != key@,
            decreases n - i,
        {
            if crate::text::str_eq(self.entries[i].0.as_str(), key) {
                proof {
                    lemma_smap_get(self.kvs(), key@, i as int);
                }
                return Some(&self.entries[i].1);
            }
            i = i + 1;
        }
        proof {
            lemma_smap_contains(self.kvs(), key@);
        }
        None
    }

    /// Removes the binding of the key, returning the value it had.
    #[verifier::loop_isolation(false)]
    pub fn remove(&mut self, key: &str) -> (r: Option<String>)
        ensures
            final(self).model() == old(self).model().remove(key@),
            match r {
                Some(v) => old(self).model().contains_key(key@) && v@ == old(self).model()[key@],
                None => !old(self).model().contains_key(key@),
            },
    {
        proof {
            use_type_invariant(&*self);
        }
        let mut entries: Vec<(String, String)> = Vec::new();
        core::mem::swap(&mut entries, &mut self.entries);
        let ghost kvs0 = entries@.map_values(|p: (String, String)| (p.0@, p.1@));
        let n = entries.len();
        let mut i: usize = 0;
        while i < n
            invariant
                n == entries@.len(),
                i <= n,
                entries@.map_values(|p: (String, String)| (p.0@, p.1@)) == kvs0,
                skeys_unique(kvs0),
                forall|k: int| 0 <= k < i ==> kvs0[k].0 != key@,
            decreases n - i,
        {
            if crate::text::str_eq(entries[i].0.as_str(), key) {
                let pair = entries.remove(i);
                proof {
                    let kvs1 = entries@.map_values(|p: (String, String)| (p.0@, p.1@));
                    assert(kvs1 =~= kvs0.remove(i as int));
                    lemma_smap_get(kvs0, key@, i as int);
                    lemma_smap_remove(kvs0, i as int);
                }
                core::mem::swap(&mut entries, &mut self.entries);
                return Some(pair.1);
            }
            i = i + 1;
        }
        proof {
            lemma_smap_contains(kvs0, key@);
            assert(smap_of(kvs0).remove(key@) =~= smap_of(kvs0));
        }
        core::mem::swap(&mut entries, &mut self.entries);
        None
    }

    /// Whether the key is bound.
    pub fn contains_key(&self, key: &str) -> (r: bool)
        ensures
            r == self.model().contains_key(key@),
    {
        match self.get(key) {
            Some(_) => true,
            None => false,
        }
    }

    /// The number of keys bound.
    pub fn len(&self) -> (r: usize)
        ensures
            r == self.model().dom().len(),
            r == self.kvs().len(),
    {
        proof {
            use_type_invariant(&*self);
            lemma_smap_dom_len(self.kvs());
        }
        self.entries.len()
    }

    /// Whether no key is bound.
    pub fn is_empty(&self) -> (r: bool)
        ensures
            r == (self.model().dom().len() == 0),
    {
        self.len() == 0
    }

    /// The key of the entry at the given position, in insertion order.
    pub fn key_at(&self, i: usize) -> (r: &String)
        requires
            i < self.kvs().len(),
        ensures
            r@ == self.kvs()[i as int].0,
    {
        &self.entries[i].0
    }

    /// The value of the entry at the given position, in insertion order.
    pub fn value_at(&self, i: usize) -> (r: &String)
        requires
            i < self.kvs().len(),
        ensures
            r@ == self.kvs()[i as int].1,
    {
        &self.entries[i].1
    }
}

impl Clone for StringMap {
    /// A copy with the same bindings.
    fn clone(&self) -> (r: StringMap)
        ensures
            r.kvs() == self.kvs(),
            r.model() == self.model(),
    {
        proof {
            use_type_invariant(&*self);
        }
        let mut entries: Vec<(String, String)> = Vec::new();
        let mut i: usize = 0;
        while i < self.entries.len()
            invariant
                i <= self.entries@.len(),
                entries@ == self.entries@.subrange(0, i as int),
            decreases self.entries@.len() - i,
        {
            entries.push((self.entries[i].0.clone(), self.entries[i].1.clone()));
            proof {
                assert(entries@ =~= self.entries@.subrange(0, i + 1));
            }
            i = i + 1;
        }
        proof {
            assert(entries@ =~= self.entries@);
        }
        let r = StringMap { entries };
        proof {
            assert(r.kvs() =~= self.kvs());
        }
        r
    }
}

/// A key is in the map of a key-value sequence exactly when some entry
/// carries it.
proof fn lemma_smap_contains(s: Seq<(Seq<char>, Seq<char>)>, k: Seq<char>)
    ensures
        smap_of(s).contains_key(k) <==> exists|i: int| 0 <= i < s.len() && s[i].0 == k,
    decreases s.len(),
{
    if s.len() > 0 {
        lemma_smap_contains(s.drop_last(), k);
        if s.last().0 == k {
            assert(s[s.len() - 1].0 == k);
        } else if smap_of(s).contains_key(k) {
            let i = choose|i: int| 0 <= i < s.drop_last().len() && s.drop_last()[i].0 == k;
            assert(s[i].0 == k);
        } else {
            assert forall|i: int| 0 <= i < s.len() implies s[i].0 != k by {
                if i < s.len() - 1 {
                    assert(s.drop_last()[i].0 == s[i].0);
                }
            }
        }
    }
}

/// Distinct keys stay distinct on a prefix.
proof fn lemma_skeys_unique_drop(s: Seq<(Seq<char>, Seq<char>)>)
    requires
        skeys_unique(s),
        s.len() > 0,
    ensures
        skeys_unique(s.drop_last()),
{
    assert forall|a: int, b: int|
        0 <= a < b < s.drop_last().len() implies s.drop_last()[a].0 != s.drop_last()[b].0 by {
        assert(s.drop_last()[a] == s[a] && s.drop_last()[b] == s[b]);
    }
}

/// With distinct keys, the map sends an entry's key to that entry's value.
proof fn lemma_smap_get(s: Seq<(Seq<char>, Seq<char>)>, k: Seq<char>, i: int)
    requires
        skeys_unique(s),
        0 <= i < s.len(),
        s[i].0 == k,
    ensures
        smap_of(s).contains_key(k),
        smap_of(s)[k] == s[i].1,
    decreases s.len(),
{
    if i < s.len() - 1 {
        assert(s.drop_last()[i] == s[i]);
        lemma_skeys_unique_drop(s);
        lemma_smap_get(s.drop_last(), k, i);
        assert(s.last().0 != k);
    }
}

/// With distinct keys, overwriting one entry's value is insertion into the
/// map under that entry's key.
proof fn lemma_smap_update(s: Seq<(Seq<char>, Seq<char>)>, i: int, v: Seq<char>)
    requires
        skeys_unique(s),
        0 <= i < s.len(),
    ensures
        smap_of(s.update(i, (s[i].0, v))) == smap_of(s).insert(s[i].0, v),
        skeys_unique(s.update(i, (s[i].0, v))),
    decreases s.len(),
{
    let s2 = s.update(i, (s[i].0, v));
    assert(skeys_unique(s2)) by {
        assert forall|a: int, b: int| 0 <= a < b < s2.len() implies s2[a].0 != s2[b].0 by {
            assert(s2[a].0 == s[a].0 && s2[b].0 == s[b].0);
        }
    }
    if i == s.len() - 1 {
        assert(s2.drop_last() =~= s.drop_last());
        assert(smap_of(s2) =~= smap_of(s).insert(s[i].0, v));
    } else {
        lemma_skeys_unique_drop(s);
        assert(s2.drop_last() =~= s.drop_last().update(i, (s.drop_last()[i].0, v)));
        lemma_smap_update(s.drop_last(), i, v);
        assert(s2.last() == s.last());
        assert(s.last().0 != s[i].0);
        assert(smap_of(s2) =~= smap_of(s).insert(s[i].0, v));
    }
}

/// With distinct keys, deleting one entry is removal from the map of that
/// entry's key.
proof fn lemma_smap_remove(s: Seq<(Seq<char>, Seq<char>)>, i: int)
    requires
        skeys_unique(s),
        0 <= i < s.len(),
    ensures
        smap_of(s.remove(i)) == smap_of(s).remove(s[i].0),
        skeys_unique(s.remove(i)),
    decreases s.len(),
{
    let s2 = s.remove(i);
    assert(skeys_unique(s2)) by {
        assert forall|a: int, b: int| 0 <= a < b < s2.len() implies s2[a].0 != s2[b].0 by {
            let a0: int = if a < i {
                a
            } else {
                a + 1
            };
            let b0: int = if b < i {
                b
            } else {
                b + 1
            };
            assert(s2[a].0 == s[a0].0 && s2[b].0 == s[b0].0);
        }
    }
    if i == s.len() - 1 {
        assert(s2 =~= s.drop_last());
        lemma_skeys_unique_drop(s);
        lemma_smap_contains(s.drop_last(), s.last().0);
        assert(!smap_of(s.drop_last()).contains_key(s.last().0)) by {
            if smap_of(s.drop_last()).contains_key(s.last().0) {
                let j = choose|j: int|
                    0 <= j < s.drop_last().len() && s.drop_last()[j].0 == s.last().0;
                assert(s[j].0 == s[s.len() - 1].0);
            }
        }
        assert(smap_of(s.remove(i)) =~= smap_of(s).remove(s[i].0));
    } else {
        lemma_skeys_unique_drop(s);
        assert(s2.drop_last() =~= s.drop_last().remove(i));
        lemma_smap_remove(s.drop_last(), i);
        assert(s2.last() == s.last());
        assert(s.last().0 != s[i].0);
        assert(smap_of(s2) =~= smap_of(s).remove(s[i].0));
    }
}

/// With distinct keys, the map has exactly one key per entry.
proof fn lemma_smap_dom_len(s: Seq<(Seq<char>, Seq<char>)>)
    requires
        skeys_unique(s),
    ensures
        smap_of(s).dom().len() == s.len(),
        smap_of(s).dom().finite(),
    decreases s.len(),
{
    if s.len() > 0 {
        lemma_skeys_unique_drop(s);
        lemma_smap_dom_len(s.drop_last());
        lemma_smap_contains(s.drop_last(), s.last().0);
        assert(!smap_of(s.drop_last()).contains_key(s.last().0)) by {
            if smap_of(s.drop_last()).contains_key(s.last().0) {
                let j = choose|j: int|
                    0 <= j < s.drop_last().len() && s.drop_last()[j].0 == s.last().0;
                assert(s[j].0 == s[s.len() - 1].0);
            }
        }
        assert(smap_of(s).dom() =~= smap_of(s.drop_last()).dom().insert(s.last().0));
        vstd::set::axiom_set_insert_len(smap_of(s.drop_last()).dom(), s.last().0);
    }
}

} // verus!
