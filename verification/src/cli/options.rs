//! Named options given on a command line, each with an optional value. A
//! name given again replaces what it had.

use vstd::prelude::*;
use crate::text::str_eq;

verus! {

pub open spec fn opt_view(o: Option<String>) -> Option<Seq<char>> {
    match o {
        Some(s) => Some(s@),
        None => None,
    }
}

/// The options that a list of assignments, applied in order, leaves.
pub open spec fn map_of(s: Seq<(Seq<char>, Option<Seq<char>>)>) -> Map<Seq<char>, Option<Seq<char>>>
    decreases s.len(),
{
    if s.len() == 0 {
        Map::empty()
    } else {
        map_of(s.drop_last()).insert(s.last().0, s.last().1)
    }
}

/// `j` is the last assignment to `k` in `s`.
pub open spec fn is_last_assignment(s: Seq<(Seq<char>, Option<Seq<char>>)>, k: Seq<char>, j: int) -> bool {
    &&& 0 <= j < s.len()
    &&& s[j].0 == k
    &&& forall|i: int| j < i < s.len() ==> s[i].0 != k
}

proof fn lemma_map_of_last(s: Seq<(Seq<char>, Option<Seq<char>>)>, k: Seq<char>, j: int)
    requires
        is_last_assignment(s, k, j),
    ensures
        map_of(s).dom().contains(k),
        map_of(s)[k] == s[j].1,
    decreases s.len(),
{
    if j < s.len() - 1 {
        lemma_map_of_last(s.drop_last(), k, j);
    }
}

proof fn lemma_map_of_absent(s: Seq<(Seq<char>, Option<Seq<char>>)>, k: Seq<char>)
    requires
        forall|i: int| 0 <= i < s.len() ==> s[i].0 != k,
    ensures
        !map_of(s).dom().contains(k),
    decreases s.len(),
{
    if s.len() > 0 {
        lemma_map_of_absent(s.drop_last(), k);
    }
}

/// The options of a command line.
pub struct OptionMap {
    entries: Vec<(String, Option<String>)>,
}

impl OptionMap {
    pub closed spec fn assignments(&self) -> Seq<(Seq<char>, Option<Seq<char>>)> {
        self.entries@.map_values(|e: (String, Option<String>)| (e.0@, opt_view(e.1)))
    }
}

impl View for OptionMap {
    type V = Map<Seq<char>, Option<Seq<char>>>;

    closed spec fn view(&self) -> Map<Seq<char>, Option<Seq<char>>> {
        map_of(self.assignments())
    }
}

impl OptionMap {
    pub fn new() -> (m: Self)
        ensures
            m@ == Map::<Seq<char>, Option<Seq<char>>>::empty(),
    {
        let m = OptionMap { entries: Vec::new() };
        assert(m.assignments() =~= Seq::empty());
        m
    }

    /// Gives `name` the value `value`, replacing any it had.
    pub fn insert(&mut self, name: String, value: Option<String>)
        ensures
            final(self)@ == old(self)@.insert(name@, opt_view(value)),
    {
        let ghost entry = (name@, opt_view(value));
        self.entries.push((name, value));
        assert(self.assignments().drop_last() =~= old(self).assignments());
    }

    /// The position of the assignment that decides `name`, if any.
    fn lookup(&self, name: &str) -> (r: Option<usize>)
        ensures
            r matches Some(j) ==> j < self.entries@.len() && is_last_assignment(
                self.assignments(),
                name@,
                j as int,
            ) && self@.dom().contains(name@) && self@[name@] == opt_view(self.entries@[j as int].1),
            r is None ==> !self@.dom().contains(name@),
    {
        let mut i = self.entries.len();
        while i > 0
            invariant
                i <= self.entries@.len(),
                forall|j: int| i <= j < self.entries@.len() ==> self.assignments()[j].0 != name@,
            decreases i,
        {
            if str_eq(self.entries[i - 1].0.as_str(), name) {
                proof {
                    lemma_map_of_last(self.assignments(), name@, (i - 1) as int);
                }
                return Some(i - 1);
            }
            i = i - 1;
        }
        proof {
            lemma_map_of_absent(self.assignments(), name@);
        }
        None
    }

    /// Whether `name` was given.
    pub fn contains_key(&self, name: &str) -> (b: bool)
        ensures
            b == self@.dom().contains(name@),
    {
        self.lookup(name).is_some()
    }

    /// The value `name` was given, when it was given one.
    pub fn value(&self, name: &str) -> (r: Option<&str>)
        ensures
            r matches Some(v) ==> self@.dom().contains(name@) && self@[name@] == Some(v@),
            r is None ==> !self@.dom().contains(name@) || self@[name@] is None,
    {
        match self.lookup(name) {
            Some(j) => match &self.entries[j].1 {
                Some(v) => Some(v.as_str()),
                None => None,
            },
            None => None,
        }
    }
}

} // verus!
