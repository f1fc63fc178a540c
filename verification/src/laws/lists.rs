//! Facts about lists that the laws share.

use vstd::prelude::*;

verus! {

/// Flattening the images of a list, taken apart at its last element.
pub proof fn flat_images_grow<A, B>(s: Seq<A>, f: spec_fn(A) -> Seq<B>)
    requires
        s.len() > 0,
    ensures
        s.map_values(f).flatten() == s.drop_last().map_values(f).flatten() + f(s.last()),
{
    let front = s.drop_last().map_values(f);
    assert(s.map_values(f) =~= front.push(f(s.last())));
    front.lemma_flatten_push(f(s.last()));
}

/// Choosing from a list, taken apart at its last element.
pub proof fn filter_grows<A>(s: Seq<A>, p: spec_fn(A) -> bool)
    requires
        s.len() > 0,
    ensures
        s.filter(p) == if p(s.last()) {
            s.drop_last().filter(p).push(s.last())
        } else {
            s.drop_last().filter(p)
        },
{
    reveal(Seq::filter);
}

/// The places of a list whose elements have a property are as many as the elements that
/// are chosen by it.
pub proof fn places_are_counted<A>(s: Seq<A>, p: spec_fn(A) -> bool)
    ensures
        Set::new(|i: int| 0 <= i < s.len() && p(s[i])).finite(),
        Set::new(|i: int| 0 <= i < s.len() && p(s[i])).len() == s.filter(p).len(),
    decreases s.len(),
{
    let all = Set::new(|i: int| 0 <= i < s.len() && p(s[i]));
    reveal(Seq::filter);
    if s.len() == 0 {
        assert(all =~= Set::empty());
    } else {
        let t = s.drop_last();
        let fewer = Set::new(|i: int| 0 <= i < t.len() && p(t[i]));
        places_are_counted(t, p);
        if p(s.last()) {
            assert(all =~= fewer.insert(s.len() - 1));
        } else {
            assert(all =~= fewer);
        }
    }
}

/// A list from which nothing is chosen has no element with the property.
pub proof fn nothing_is_chosen<A>(s: Seq<A>, p: spec_fn(A) -> bool)
    ensures
        s.filter(p).len() == 0 <==> forall|i: int| 0 <= i < s.len() ==> !p(#[trigger] s[i]),
    decreases s.len(),
{
    reveal(Seq::filter);
    if s.len() > 0 {
        let t = s.drop_last();
        nothing_is_chosen(t, p);
        assert(forall|i: int| 0 <= i < t.len() ==> t[i] == #[trigger] s[i]);
        if s.filter(p).len() == 0 {
            assert forall|i: int| 0 <= i < s.len() implies !p(#[trigger] s[i]) by {
                if i < t.len() {
                    assert(!p(t[i]));
                }
            }
        } else if forall|i: int| 0 <= i < s.len() ==> !p(#[trigger] s[i]) {
            assert forall|i: int| 0 <= i < t.len() implies !p(#[trigger] t[i]) by {
                assert(!p(s[i]));
            }
            assert(!p(s[s.len() - 1]));
        }
    }
}

} // verus!
