//! A snapshot of environment variables.

use crate::text;
use vstd::prelude::*;

verus! {

/// Names and values of environment variables.
#[derive(Debug)]
pub struct Environment {
    /// The variables; the first entry of a name counts.
    pub vars: Vec<(String, String)>,
}

/// The value of the first entry under `name`.
pub open spec fn value_in(vars: Seq<(Seq<char>, Seq<char>)>, name: Seq<char>) -> Option<Seq<char>>
    decreases vars.len(),
{
    if vars.len() == 0 {
        None
    } else if vars[0].0 == name {
        Some(vars[0].1)
    } else {
        value_in(vars.drop_first(), name)
    }
}

/// Models of a list of pairs.
pub open spec fn pair_views(pairs: Seq<(String, String)>) -> Seq<(Seq<char>, Seq<char>)> {
    Seq::new(pairs.len(), |i: int| (pairs[i].0@, pairs[i].1@))
}

/// A copy of `pairs`.
pub fn copy_pairs(pairs: &Vec<(String, String)>) -> (out: Vec<(String, String)>)
    ensures
        out@ == pairs@,
{
    let mut out: Vec<(String, String)> = Vec::new();
    let mut i: usize = 0;
    while i < pairs.len()
        invariant
            i <= pairs@.len(),
            out@ =~= pairs@.take(i as int),
        decreases pairs@.len() - i,
    {
        out.push((pairs[i].0.clone(), pairs[i].1.clone()));
        i += 1;
    }
    out
}

impl View for Environment {
    type V = Seq<(Seq<char>, Seq<char>)>;

    open spec fn view(&self) -> Seq<(Seq<char>, Seq<char>)> {
        pair_views(self.vars@)
    }
}

impl Environment {
    /// The value of a variable.
    pub open spec fn value(self, name: Seq<char>) -> Option<Seq<char>> {
        value_in(self@, name)
    }

    /// The value of a variable unless it is blank.
    pub open spec fn filled(self, name: Seq<char>) -> Option<Seq<char>> {
        match self.value(name) {
            Some(v) => if text::is_blank(v) {
                None
            } else {
                Some(v)
            },
            None => None,
        }
    }

    /// The value of a variable.
    pub fn lookup(&self, name: &str) -> (r: Option<String>)
        ensures
            match r {
                Some(v) => self.value(name@) == Some(v@),
                None => self.value(name@) is None,
            },
    {
        let ghost all = self@;
        let mut i: usize = 0;
        assert(all.skip(0) =~= all);
        while i < self.vars.len()
            invariant
                i <= self.vars@.len(),
                all == self@,
                self.value(name@) == value_in(all.skip(i as int), name@),
            decreases self.vars@.len() - i,
        {
            assert(all.skip(i as int).drop_first() =~= all.skip(i + 1));
            if text::same(self.vars[i].0.as_str(), name) {
                return Some(self.vars[i].1.clone());
            }
            i += 1;
        }
        None
    }

    /// The value of a variable unless it is blank.
    pub fn lookup_filled(&self, name: &str) -> (r: Option<String>)
        ensures
            match r {
                Some(v) => self.filled(name@) == Some(v@),
                None => self.filled(name@) is None,
            },
    {
        match self.lookup(name) {
            Some(v) => if text::blank(v.as_str()) {
                None
            } else {
                Some(v)
            },
            None => None,
        }
    }
}

/// The key and the value of a `key=value` entry, each without the white space
/// around it.
pub open spec fn entry_pair(entry: Seq<char>, mark: char) -> Option<(Seq<char>, Seq<char>)> {
    match text::split_at_first(entry, mark) {
        Some((k, v)) => Some((text::trimmed(k), text::trimmed(v))),
        None => None,
    }
}

/// Splits a `key=value` entry at the first mark.
pub fn split_entry(entry: &str, mark: char) -> (r: Option<(String, String)>)
    ensures
        match r {
            Some(pair) => entry_pair(entry@, mark) == Some((pair.0@, pair.1@)),
            None => entry_pair(entry@, mark) is None,
        },
{
    match text::split_once(entry, mark) {
        Some((k, v)) => Some((text::trim(k.as_str()), text::trim(v.as_str()))),
        None => None,
    }
}

/// The entries of a comma-separated list, without white space around them and
/// without the empty ones.
pub open spec fn kept_entries(parts: Seq<Seq<char>>) -> Seq<Seq<char>>
    decreases parts.len(),
{
    if parts.len() == 0 {
        Seq::empty()
    } else if text::is_blank(parts.last()) {
        kept_entries(parts.drop_last())
    } else {
        kept_entries(parts.drop_last()).push(text::trimmed(parts.last()))
    }
}

/// The entries of a comma-separated list.
pub open spec fn list_entries(raw: Seq<char>) -> Seq<Seq<char>> {
    kept_entries(text::pieces(raw, ','))
}

/// The entries of a comma-separated list.
pub fn entries(raw: &str) -> (out: Vec<String>)
    ensures
        text::views(out@) == list_entries(raw@),
{
    let parts = text::split(raw, ',');
    let ghost all = text::views(parts@);
    let mut out: Vec<String> = Vec::new();
    let mut i: usize = 0;
    assert(all.take(0) =~= Seq::empty());
    assert(text::views(out@) =~= Seq::empty());
    while i < parts.len()
        invariant
            i <= parts@.len(),
            all == text::views(parts@),
            text::views(out@) == kept_entries(all.take(i as int)),
        decreases parts@.len() - i,
    {
        let ghost before = text::views(out@);
        proof {
            assert(all.take(i + 1).drop_last() =~= all.take(i as int));
            assert(all.take(i + 1).last() == parts@[i as int]@);
        }
        let entry = text::trim(parts[i].as_str());
        if !text::blank(parts[i].as_str()) {
            out.push(entry);
            assert(text::views(out@) =~= before.push(entry@));
        }
        i += 1;
    }
    assert(all.take(all.len() as int) =~= all);
    out
}

} // verus!
