//! A small store of items under unique names, in the order of their arrival.
//!
//! The model is a sequence of entries, each a name and an item. What counts
//! as a name is left open: a string here, a glyph key in the glyph cache.

use crate::strings::str_eq;
use vstd::prelude::*;

verus! {

/// Whether some entry of `s` goes by `name`.
pub open spec fn has_name<K, T>(s: Seq<(K, T)>, name: K) -> bool {
    exists|i: int| 0 <= i < s.len() && (#[trigger] s[i]).0 == name
}

/// The place of an entry that goes by `name`, where there is one.
pub open spec fn place_of<K, T>(s: Seq<(K, T)>, name: K) -> int {
    choose|i: int| 0 <= i < s.len() && (#[trigger] s[i]).0 == name
}

/// The item stored under `name`, if any.
pub open spec fn lookup<K, T>(s: Seq<(K, T)>, name: K) -> Option<T> {
    if has_name(s, name) {
        Some(s[place_of(s, name)].1)
    } else {
        None
    }
}

/// No two entries share a name.
pub open spec fn names_distinct<K, T>(s: Seq<(K, T)>) -> bool {
    forall|i: int, j: int|
        0 <= i < s.len() && 0 <= j < s.len() && i != j ==> (#[trigger] s[i]).0 != (#[trigger] s[j]).0
}

/// The entries after `item` was stored under `name`: it takes the place of the
/// entry that had the name, or the last place where none had it.
pub open spec fn with_entry<K, T>(s: Seq<(K, T)>, name: K, item: T) -> Seq<(K, T)> {
    if has_name(s, name) {
        s.update(place_of(s, name), (name, item))
    } else {
        s.push((name, item))
    }
}

/// Storing keeps names unique, makes the item the one found under its name,
/// and leaves what is found under every other name as it was.
pub proof fn lemma_with_entry<K, T>(s: Seq<(K, T)>, name: K, item: T, other: K)
    requires
        names_distinct(s),
    ensures
        names_distinct(with_entry(s, name, item)),
        lookup(with_entry(s, name, item), name) == Some(item),
        other != name ==> lookup(with_entry(s, name, item), other) == lookup(s, other),
        has_name(s, name) ==> with_entry(s, name, item).len() == s.len(),
        !has_name(s, name) ==> with_entry(s, name, item).len() == s.len() + 1,
{
    let t = with_entry(s, name, item);
    // where the item stands: in the place of its name, or at the end
    let p = if has_name(s, name) {
        place_of(s, name)
    } else {
        s.len() as int
    };
    assert(t[p].0 == name && t[p].1 == item);
    // every older entry keeps its name, and all but the one at `p` their item
    assert forall|i: int| 0 <= i < s.len() implies (#[trigger] t[i]).0 == s[i].0 && (i != p ==> t[i] == s[i]) by {}
    assert(has_name(t, name));
    assert(place_of(t, name) == p);
    if other != name {
        if has_name(s, other) {
            let q = place_of(s, other);
            assert(t[q].0 == other);
            assert(has_name(t, other));
            assert(place_of(t, other) == q);
        } else if has_name(t, other) {
            let q = place_of(t, other);
            assert(s[q].0 == other);
        }
    }
}

/// Items under unique names.
pub struct Store<T> {
    entries: Vec<(String, T)>,
}

impl<T> Store<T> {
    #[verifier::type_invariant]
    spec fn inv(self) -> bool {
        names_distinct(self@)
    }

    /// The entries, oldest name first.
    pub closed spec fn view(&self) -> Seq<(Seq<char>, T)> {
        Seq::new(self.entries@.len(), |i: int| (self.entries@[i].0@, self.entries@[i].1))
    }

    /// An empty store.
    pub fn new() -> (s: Self)
        ensures
            s@ == Seq::<(Seq<char>, T)>::empty(),
    {
        let s = Store { entries: Vec::new() };
        assert(s@ =~= Seq::<(Seq<char>, T)>::empty());
        s
    }

    fn find(&self, name: &str) -> (r: Option<usize>)
        ensures
            names_distinct(self@),
            r is Some <==> has_name(self@, name@),
            r matches Some(i) ==> i < self@.len() && i == place_of(self@, name@),
    {
        proof {
            use_type_invariant(self);
        }
        let mut i: usize = 0;
        while i < self.entries.len()
            invariant
                i <= self.entries.len(),
                names_distinct(self@),
                forall|k: int| 0 <= k < i ==> (#[trigger] self@[k]).0 != name@,
            decreases self.entries.len() - i,
        {
            if str_eq(self.entries[i].0.as_str(), name) {
                assert(self@[i as int].0 == name@);
                assert(has_name(self@, name@));
                return Some(i);
            }
            i += 1;
        }
        None
    }

    /// The number of entries.
    pub fn len(&self) -> (n: usize)
        ensures
            n == self@.len(),
            names_distinct(self@),
    {
        proof {
            use_type_invariant(self);
        }
        self.entries.len()
    }

    /// The item stored under `name`, if any.
    pub fn get(&self, name: &str) -> (r: Option<&T>)
        ensures
            match r {
                Some(item) => lookup(self@, name@) == Some(*item),
                None => lookup(self@, name@) is None,
            },
    {
        match self.find(name) {
            Some(i) => Some(&self.entries[i].1),
            None => None,
        }
    }

    /// The oldest entry's item, if the store has any.
    pub fn first(&self) -> (r: Option<&T>)
        ensures
            match r {
                Some(item) => self@.len() > 0 && self@[0].1 == *item,
                None => self@.len() == 0,
            },
    {
        if self.entries.len() > 0 {
            Some(&self.entries[0].1)
        } else {
            None
        }
    }

    /// The name and item at place `i`.
    pub fn entry(&self, i: usize) -> (r: Option<(&str, &T)>)
        ensures
            r is Some <==> i < self@.len(),
            r matches Some(e) ==> e.0@ == self@[i as int].0 && *e.1 == self@[i as int].1,
    {
        if i < self.entries.len() {
            Some((self.entries[i].0.as_str(), &self.entries[i].1))
        } else {
            None
        }
    }

    /// Stores `item` under `name`, in place of what the name held before.
    pub fn insert(&mut self, name: String, item: T)
        ensures
            final(self)@ == with_entry(old(self)@, name@, item),
            names_distinct(old(self)@),
            lookup(final(self)@, name@) == Some(item),
    {
        let found = self.find(name.as_str());
        let ghost before = self@;
        proof {
            lemma_with_entry(before, name@, item, name@);
        }
        let mut entries: Vec<(String, T)> = Vec::new();
        core::mem::swap(&mut self.entries, &mut entries);
        match found {
            Some(i) => {
                entries.set(i, (name, item));
            },
            None => {
                entries.push((name, item));
            },
        }
        let ghost after = Seq::new(entries@.len(), |i: int| (entries@[i].0@, entries@[i].1));
        assert(after =~= with_entry(before, name@, item));
        core::mem::swap(&mut self.entries, &mut entries);
        assert(self@ =~= after);
    }
}

} // verus!
