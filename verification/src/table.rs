//! Values by name.

use crate::text::same;
use vstd::prelude::*;

verus! {

/// Values by name. A value that is put in under a name that is there already takes its place.
#[derive(Debug, Clone)]
pub struct Table<T> {
    pub entries: Vec<(String, T)>,
}

/// The values that a list of entries stands for: of two entries with one name, the later counts.
pub open spec fn by_name<T>(entries: Seq<(String, T)>) -> Map<Seq<char>, T>
    decreases entries.len(),
{
    if entries.len() == 0 {
        Map::empty()
    } else {
        by_name(entries.drop_last()).insert(entries.last().0@, entries.last().1)
    }
}

/// The value under a name.
pub open spec fn named<T>(m: Map<Seq<char>, T>, name: Seq<char>) -> Option<T> {
    if m.contains_key(name) {
        Some(m[name])
    } else {
        None
    }
}

impl<T> View for Table<T> {
    type V = Map<Seq<char>, T>;

    open spec fn view(&self) -> Map<Seq<char>, T> {
        by_name(self.entries@)
    }
}

impl<T> Table<T> {
    /// An empty table.
    pub fn new() -> (r: Table<T>)
        ensures
            r@ == Map::<Seq<char>, T>::empty(),
    {
        Table { entries: Vec::new() }
    }

    /// Puts a value in under a name.
    pub fn insert(&mut self, name: String, value: T)
        ensures
            final(self)@ == old(self)@.insert(name@, value),
    {
        let ghost before = self.entries@;
        self.entries.push((name, value));
        assert(self.entries@.drop_last() =~= before);
    }

    /// The value under a name.
    pub fn get(&self, name: &str) -> (r: Option<&T>)
        ensures
            match r {
                Some(v) => named(self@, name@) == Some(*v),
                None => named(self@, name@) is None,
            },
    {
        let mut i: usize = self.entries.len();
        assert(self.entries@.take(i as int) =~= self.entries@);
        while i > 0
            invariant
                i <= self.entries@.len(),
                named(self@, name@) == named(by_name(self.entries@.take(i as int)), name@),
            decreases i,
        {
            proof {
                let t = self.entries@.take(i as int);
                assert(t.drop_last() =~= self.entries@.take(i - 1));
                assert(t.last() == self.entries@[i - 1]);
            }
            if same(self.entries[i - 1].0.as_str(), name) {
                return Some(&self.entries[i - 1].1);
            }
            i -= 1;
        }
        None
    }
}

impl<T> Default for Table<T> {
    fn default() -> (r: Table<T>)
        ensures
            r@ == Map::<Seq<char>, T>::empty(),
    {
        Table::new()
    }
}

} // verus!
