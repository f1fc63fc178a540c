//! Sets of names, listed in ascending order.

use crate::text;
use crate::text::{precedes, views};
use vstd::prelude::*;

verus! {

/// True if the names stand in ascending order, without repeats.
pub open spec fn ascends(list: Seq<Seq<char>>) -> bool {
    forall|i: int, j: int| 0 <= i < j < list.len() ==> precedes(#[trigger] list[i], #[trigger] list[j])
}

/// A copy of a list of named values.
pub fn copy_named<T: Copy>(list: &Vec<(String, T)>) -> (out: Vec<(String, T)>)
    ensures
        out@ == list@,
{
    let mut out: Vec<(String, T)> = Vec::new();
    let mut i: usize = 0;
    while i < list.len()
        invariant
            i <= list@.len(),
            out@ =~= list@.take(i as int),
        decreases list@.len() - i,
    {
        out.push((list[i].0.clone(), list[i].1));
        i += 1;
    }
    out
}

/// A set of names.
#[derive(Debug, PartialEq, Eq)]
pub struct NameSet {
    items: Vec<String>,
}

impl NameSet {
    /// The names in ascending order.
    pub closed spec fn list(self) -> Seq<Seq<char>> {
        views(self.items@)
    }

    /// The names.
    pub open spec fn set(self) -> Set<Seq<char>> {
        self.list().to_set()
    }

    #[verifier::type_invariant]
    spec fn listed(self) -> bool {
        ascends(views(self.items@))
    }

    /// The empty set.
    pub fn new() -> (r: Self)
        ensures
            r.list().len() == 0,
            r.set() == Set::<Seq<char>>::empty(),
    {
        let r = NameSet { items: Vec::new() };
        assert(r.set() =~= Set::<Seq<char>>::empty());
        r
    }

    /// The names in ascending order.
    pub fn items(&self) -> (r: &Vec<String>)
        ensures
            views(r@) == self.list(),
            ascends(self.list()),
    {
        proof {
            use_type_invariant(self);
        }
        &self.items
    }

    /// Number of names.
    pub fn len(&self) -> (n: usize)
        ensures
            n == self.list().len(),
            n == self.set().len(),
    {
        proof {
            use_type_invariant(self);
            ascending_has_no_repeats(self.list());
            self.list().unique_seq_to_set();
        }
        self.items.len()
    }

    /// Tells whether a name is in the set.
    pub fn contains(&self, name: &str) -> (r: bool)
        ensures
            r == self.set().contains(name@),
    {
        text::contains(&self.items, name)
    }

    fn position(items: &Vec<String>, name: &str) -> (i: usize)
        requires
            ascends(views(items@)),
        ensures
            i <= items@.len(),
            forall|j: int| 0 <= j < i ==> precedes(#[trigger] views(items@)[j], name@),
            forall|j: int|
                i <= j < items@.len() ==> #[trigger] views(items@)[j] == name@ || precedes(
                    name@,
                    views(items@)[j],
                ),
    {
        let ghost list = views(items@);
        let mut i: usize = 0;
        while i < items.len() && text::less(items[i].as_str(), name)
            invariant
                i <= items@.len(),
                list == views(items@),
                forall|j: int| 0 <= j < i ==> precedes(#[trigger] list[j], name@),
            decreases items@.len() - i,
        {
            i += 1;
        }
        proof {
            if i < items@.len() {
                text::precedes_total(list[i as int], name@);
                assert forall|j: int| i <= j < items@.len() implies #[trigger] list[j] == name@
                    || precedes(name@, list[j]) by {
                    if j > i {
                        assert(precedes(list[i as int], list[j]));
                        if precedes(name@, list[i as int]) {
                            text::precedes_transitive(name@, list[i as int], list[j]);
                        }
                    }
                }
            }
        }
        i
    }

    /// Adds a name.
    pub fn insert(&mut self, name: &str)
        ensures
            final(self).set() == old(self).set().insert(name@),
    {
        proof {
            use_type_invariant(&*self);
        }
        let mut items: Vec<String> = Vec::new();
        std::mem::swap(&mut items, &mut self.items);
        let ghost list = views(items@);
        let i: usize = NameSet::position(&items, name);
        if i < items.len() && text::same(items[i].as_str(), name) {
            proof {
                assert(list[i as int] == name@);
                assert(list.to_set() =~= list.to_set().insert(name@));
            }
        } else {
            items.insert(i, name.to_owned());
            proof {
                let after = views(items@);
                assert(after =~= list.insert(i as int, name@));
                assert forall|a: int, b: int| 0 <= a < b < after.len() implies precedes(
                    #[trigger] after[a],
                    #[trigger] after[b],
                ) by {
                    if a < i && b > i {
                        assert(after[a] == list[a] && after[b] == list[b - 1]);
                    } else if b < i {
                        assert(after[a] == list[a] && after[b] == list[b]);
                    } else if a > i {
                        assert(after[a] == list[a - 1] && after[b] == list[b - 1]);
                    } else if b == i {
                        assert(after[a] == list[a]);
                    } else {
                        assert(after[b] == list[b - 1]);
                        if list[b - 1] == name@ {
                            assert(precedes(name@, list[i as int]));
                            text::precedes_transitive(name@, list[i as int], name@);
                            text::precedes_irreflexive(name@);
                        }
                    }
                }
                inserted_set(list, i as int, name@);
            }
        }
        self.items = items;
    }

    /// Removes a name.
    pub fn remove(&mut self, name: &str)
        ensures
            final(self).set() == old(self).set().remove(name@),
    {
        proof {
            use_type_invariant(&*self);
        }
        let mut items: Vec<String> = Vec::new();
        std::mem::swap(&mut items, &mut self.items);
        let ghost list = views(items@);
        let i: usize = NameSet::position(&items, name);
        if i < items.len() && text::same(items[i].as_str(), name) {
            let _ = items.remove(i);
            proof {
                let after = views(items@);
                assert(after =~= list.remove(i as int));
                assert forall|a: int, b: int| 0 <= a < b < after.len() implies precedes(
                    #[trigger] after[a],
                    #[trigger] after[b],
                ) by {
                    let x = if a < i {
                        a
                    } else {
                        a + 1
                    };
                    let y = if b < i {
                        b
                    } else {
                        b + 1
                    };
                    assert(after[a] == list[x] && after[b] == list[y]);
                }
                removed_set(list, i as int);
            }
        } else {
            proof {
                assert forall|j: int| 0 <= j < list.len() implies list[j] != name@ by {
                    if list[j] == name@ {
                        if j < i {
                            text::precedes_irreflexive(name@);
                        } else if j > i {
                            assert(precedes(list[i as int], list[j]));
                            text::precedes_irreflexive(name@);
                            if precedes(name@, list[i as int]) {
                                text::precedes_transitive(name@, list[i as int], name@);
                            }
                        }
                    }
                }
                assert(list.to_set() =~= list.to_set().remove(name@));
            }
        }
        self.items = items;
    }
}

impl Clone for NameSet {
    fn clone(&self) -> (r: Self)
        ensures
            r.list() == self.list(),
    {
        proof {
            use_type_invariant(self);
        }
        let items: Vec<String> = self.items.clone();
        assert(views(items@) =~= views(self.items@));
        NameSet { items }
    }
}

proof fn ascending_has_no_repeats(list: Seq<Seq<char>>)
    requires
        ascends(list),
    ensures
        list.no_duplicates(),
{
    assert forall|i: int, j: int| 0 <= i < list.len() && 0 <= j < list.len() && i != j implies list[i]
        != list[j] by {
        if i < j {
            assert(precedes(list[i], list[j]));
        } else {
            assert(precedes(list[j], list[i]));
        }
        text::precedes_irreflexive(list[i]);
    }
}

proof fn inserted_set(list: Seq<Seq<char>>, i: int, name: Seq<char>)
    requires
        0 <= i <= list.len(),
    ensures
        list.insert(i, name).to_set() == list.to_set().insert(name),
{
    let after = list.insert(i, name);
    assert forall|s: Seq<char>| after.to_set().contains(s) == list.to_set().insert(name).contains(
        s,
    ) by {
        if list.contains(s) {
            let k = choose|k: int| 0 <= k < list.len() && list[k] == s;
            if k < i {
                assert(after[k] == s);
            } else {
                assert(after[k + 1] == s);
            }
        }
        if s == name {
            assert(after[i] == s);
        }
        if after.contains(s) && s != name {
            let k = choose|k: int| 0 <= k < after.len() && after[k] == s;
            if k < i {
                assert(list[k] == s);
            } else {
                assert(list[k - 1] == s);
            }
        }
    }
    assert(after.to_set() =~= list.to_set().insert(name));
}

proof fn removed_set(list: Seq<Seq<char>>, i: int)
    requires
        0 <= i < list.len(),
        ascends(list),
    ensures
        list.remove(i).to_set() == list.to_set().remove(list[i]),
{
    ascending_has_no_repeats(list);
    let after = list.remove(i);
    assert forall|s: Seq<char>| after.to_set().contains(s) == list.to_set().remove(
        list[i],
    ).contains(s) by {
        if list.contains(s) && s != list[i] {
            let k = choose|k: int| 0 <= k < list.len() && list[k] == s;
            if k < i {
                assert(after[k] == s);
            } else {
                assert(after[k - 1] == s);
            }
        }
        if after.contains(s) {
            let k = choose|k: int| 0 <= k < after.len() && after[k] == s;
            if k < i {
                assert(list[k] == s);
            } else {
                assert(list[k + 1] == s);
            }
        }
    }
    assert(after.to_set() =~= list.to_set().remove(list[i]));
}

/// An ascending list is determined by its set of names.
pub proof fn ascending_list_is_unique(a: Seq<Seq<char>>, b: Seq<Seq<char>>)
    requires
        ascends(a),
        ascends(b),
        a.to_set() == b.to_set(),
    ensures
        a == b,
    decreases a.len(),
{
    ascending_has_no_repeats(a);
    ascending_has_no_repeats(b);
    a.unique_seq_to_set();
    b.unique_seq_to_set();
    assert(a.len() == b.len());
    if a.len() > 0 {
        let x = a.last();
        let y = b.last();
        assert(a.to_set().contains(x)) by {
            assert(a[a.len() - 1] == x);
        }
        assert(b.to_set().contains(y)) by {
            assert(b[b.len() - 1] == y);
        }
        assert(b.contains(x));
        assert(a.contains(y));
        let i = choose|i: int| 0 <= i < b.len() && b[i] == x;
        let j = choose|j: int| 0 <= j < a.len() && a[j] == y;
        if x != y {
            assert(precedes(b[i], b[b.len() - 1]));
            assert(precedes(a[j], a[a.len() - 1]));
            text::precedes_transitive(x, y, x);
            text::precedes_irreflexive(x);
        }
        removed_set(a, a.len() - 1);
        removed_set(b, b.len() - 1);
        assert(a.remove(a.len() - 1) =~= a.drop_last());
        assert(b.remove(b.len() - 1) =~= b.drop_last());
        ascending_list_is_unique(a.drop_last(), b.drop_last());
        assert(a =~= a.drop_last().push(x));
        assert(b =~= b.drop_last().push(y));
    }
}

} // verus!
