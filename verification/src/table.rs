//! A table from names to entries, kept as a list of pairs.
//!
//! The model is a map. In the list a name may stand more than once; the
//! pair nearest the end is the one that counts.

use vstd::prelude::*;

verus! {

/// The map that a list of pairs stands for: each pair overrides those before
/// it.
pub open spec fn table_of<T: View>(s: Seq<(String, T)>) -> Map<Seq<char>, T::V>
    decreases s.len(),
{
    if s.len() == 0 {
        Map::empty()
    } else {
        table_of(s.drop_last()).insert(s.last().0@, s.last().1@)
    }
}

/// Whether `i` is the place of the last pair of `s` with the name `name`.
pub open spec fn last_at<T>(s: Seq<(String, T)>, name: Seq<char>, i: int) -> bool {
    &&& 0 <= i < s.len()
    &&& s[i].0@ == name
    &&& forall|j: int| i < j < s.len() ==> s[j].0@ != name
}

/// Whether no pair of `s` has the name `name`.
pub open spec fn absent<T>(s: Seq<(String, T)>, name: Seq<char>) -> bool {
    forall|j: int| 0 <= j < s.len() ==> s[j].0@ != name
}

/// The last pair with a name gives the map's entry for it.
pub proof fn lemma_table_present<T: View>(s: Seq<(String, T)>, name: Seq<char>, i: int)
    requires
        last_at(s, name, i),
    ensures
        table_of(s).contains_key(name),
        table_of(s)[name] == s[i].1@,
    decreases s.len(),
{
    if i < s.len() - 1 {
        lemma_table_present(s.drop_last(), name, i);
    }
}

/// A name that no pair has is no key of the map.
pub proof fn lemma_table_absent<T: View>(s: Seq<(String, T)>, name: Seq<char>)
    requires
        absent(s, name),
    ensures
        !table_of(s).contains_key(name),
    decreases s.len(),
{
    if s.len() > 0 {
        lemma_table_absent(s.drop_last(), name);
    }
}

/// A new entry in the last pair with a name is a new entry in the map.
pub proof fn lemma_table_update<T: View>(s: Seq<(String, T)>, i: int, name: String, entry: T)
    requires
        last_at(s, name@, i),
    ensures
        table_of(s.update(i, (name, entry))) == table_of(s).insert(name@, entry@),
    decreases s.len(),
{
    let t = s.update(i, (name, entry));
    if i < s.len() - 1 {
        lemma_table_update(s.drop_last(), i, name, entry);
        assert(t.drop_last() =~= s.drop_last().update(i, (name, entry)));
        assert(table_of(t) =~= table_of(s).insert(name@, entry@));
    } else {
        assert(t.drop_last() =~= s.drop_last());
        assert(table_of(t) =~= table_of(s).insert(name@, entry@));
    }
}

/// A table from names to entries.
pub struct Table<T> {
    pairs: Vec<(String, T)>,
}

impl<T: View> View for Table<T> {
    type V = Map<Seq<char>, T::V>;

    closed spec fn view(&self) -> Map<Seq<char>, T::V> {
        table_of(self.pairs@)
    }
}

impl<T: View> Table<T> {
    /// The empty table.
    pub fn new() -> (table: Self)
        ensures
            table@ == Map::<Seq<char>, T::V>::empty(),
    {
        Table { pairs: Vec::new() }
    }

    /// The table that the pairs stand for, each overriding those before it.
    pub fn from_pairs(pairs: Vec<(String, T)>) -> (table: Self)
        ensures
            table@ == table_of(pairs@),
    {
        Table { pairs }
    }

    fn position(&self, name: &String) -> (r: Option<usize>)
        ensures
            r matches Some(i) ==> last_at(self.pairs@, name@, i as int),
            r is None ==> absent(self.pairs@, name@),
    {
        let mut i: usize = self.pairs.len();
        while i > 0
            invariant
                i <= self.pairs.len(),
                forall|j: int| i <= j < self.pairs.len() ==> self.pairs@[j].0@ != name@,
            decreases i,
        {
            i -= 1;
            if self.pairs[i].0 == *name {
                return Some(i);
            }
        }
        None
    }

    /// The entry for `name`, if there is one.
    pub fn get(&self, name: &String) -> (r: Option<&T>)
        ensures
            r is Some <==> self@.contains_key(name@),
            r matches Some(entry) ==> self@[name@] == entry@,
    {
        match self.position(name) {
            Some(i) => {
                proof {
                    lemma_table_present(self.pairs@, name@, i as int);
                }
                Some(&self.pairs[i].1)
            },
            None => {
                proof {
                    lemma_table_absent(self.pairs@, name@);
                }
                None
            },
        }
    }

    /// Whether there is an entry for `name`.
    pub fn contains(&self, name: &String) -> (r: bool)
        ensures
            r == self@.contains_key(name@),
    {
        self.get(name).is_some()
    }

    /// Makes `entry` the entry for `name`, in place of the one there was, if
    /// any.
    pub fn insert(&mut self, name: String, entry: T)
        ensures
            final(self)@ == old(self)@.insert(name@, entry@),
    {
        match self.position(&name) {
            Some(i) => {
                proof {
                    lemma_table_update(self.pairs@, i as int, name, entry);
                }
                self.pairs[i] = (name, entry);
            },
            None => {
                self.pairs.push((name, entry));
                assert(self.pairs@.drop_last() =~= old(self).pairs@);
            },
        }
    }
}

} // verus!
