//! The exclusion list: composite names of packages that never enter a catalog.

use vstd::prelude::*;
use crate::text::{lines, str_eq, trim, trimmed_lines};

verus! {

/// A fixed list of composite names. A name is matched as it is written: case
/// counts and only the whole name matches.
pub struct ExclusionSet {
    names: Vec<String>,
}

impl View for ExclusionSet {
    type V = Seq<Seq<char>>;

    closed spec fn view(&self) -> Seq<Seq<char>> {
        self.names@.map_values(|name: String| name@)
    }
}

/// The names that a list in text form holds: one per line, without the
/// whitespace around it.
pub open spec fn names_of(text: Seq<char>) -> Seq<Seq<char>> {
    lines(text).map_values(|line: Seq<char>| trim(line))
}

impl ExclusionSet {
    /// The list without names, which excludes nothing.
    pub fn empty() -> (set: ExclusionSet)
        ensures
            set@ == Seq::<Seq<char>>::empty(),
    {
        let set = ExclusionSet { names: Vec::new() };
        set
    }

    /// The list of the given names.
    pub fn new(names: Vec<String>) -> (set: ExclusionSet)
        ensures
            set@ == names@.map_values(|name: String| name@),
    {
        ExclusionSet { names }
    }

    /// Reads a list that holds one name per line.
    pub fn from_text(text: &str) -> (set: ExclusionSet)
        ensures
            set@ == names_of(text@),
    {
        let set = ExclusionSet { names: trimmed_lines(text) };
        set
    }

    /// The number of names on the list.
    pub fn len(&self) -> (len: usize)
        ensures
            len == self@.len(),
    {
        self.names.len()
    }

    /// Whether a composite name is on the list.
    pub fn is_excluded(&self, full_name: &str) -> (excluded: bool)
        ensures
            excluded == self@.contains(full_name@),
    {
        let mut i: usize = 0;
        while i < self.names.len()
            invariant
                i <= self.names@.len(),
                forall|k: int| 0 <= k < i ==> self@[k] != full_name@,
            decreases self.names@.len() - i,
        {
            if str_eq(self.names[i].as_str(), full_name) {
                assert(self@[i as int] == full_name@);
                return true;
            }
            i += 1;
        }
        false
    }
}

} // verus!
