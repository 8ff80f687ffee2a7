//! What the elements of a sequence hold between them, and how large they are.

use vstd::multiset::*;
use vstd::prelude::*;

verus! {

/// What the elements hold, all together.
pub open spec fn gathered<A, B>(s: Seq<A>, held: spec_fn(A) -> Multiset<B>) -> Multiset<B>
    decreases s.len(),
{
    if s.len() == 0 {
        Multiset::empty()
    } else {
        gathered(s.drop_last(), held).add(held(s.last()))
    }
}

/// Changing one element exchanges what it holds.
pub(crate) proof fn lemma_gathered_update<A, B>(
    s: Seq<A>,
    held: spec_fn(A) -> Multiset<B>,
    i: int,
    x: A,
)
    requires
        0 <= i < s.len(),
    ensures
        gathered(s.update(i, x), held).add(held(s[i])) == gathered(s, held).add(held(x)),
    decreases s.len(),
{
    let changed = s.update(i, x);
    if i == s.len() - 1 {
        assert(changed.drop_last() =~= s.drop_last());
    } else {
        let rest = s.drop_last();
        lemma_gathered_update(rest, held, i, x);
        assert(changed.drop_last() =~= rest.update(i, x));
        assert(changed.last() == s.last());
        assert forall|v: B| #[trigger]
            gathered(changed, held).add(held(s[i])).count(v) == gathered(s, held).add(
                held(x),
            ).count(v) by {
            assert(gathered(rest.update(i, x), held).add(held(rest[i])).count(v) == gathered(
                rest,
                held,
            ).add(held(x)).count(v));
        }
    }
    assert(gathered(changed, held).add(held(s[i])) =~= gathered(s, held).add(held(x)));
}

/// The first element can be taken apart from the others.
pub(crate) proof fn lemma_gathered_front<A, B>(s: Seq<A>, held: spec_fn(A) -> Multiset<B>)
    requires
        s.len() > 0,
    ensures
        gathered(s, held) == held(s[0]).add(gathered(s.drop_first(), held)),
    decreases s.len(),
{
    if s.len() == 1 {
        assert(s.drop_last() =~= s.drop_first());
        assert(gathered(s.drop_first(), held) =~= Multiset::empty());
    } else {
        lemma_gathered_front(s.drop_last(), held);
        assert(s.drop_last().drop_first() =~= s.drop_first().drop_last());
        assert(s.drop_first().last() == s.last());
    }
    assert(gathered(s, held) =~= held(s[0]).add(gathered(s.drop_first(), held)));
}

/// Where no element holds anything, nothing is held.
pub(crate) proof fn lemma_gathered_nothing<A, B>(s: Seq<A>, held: spec_fn(A) -> Multiset<B>)
    requires
        forall|i: int| 0 <= i < s.len() ==> held(#[trigger] s[i]) == Multiset::<B>::empty(),
    ensures
        gathered(s, held) == Multiset::<B>::empty(),
    decreases s.len(),
{
    if s.len() > 0 {
        assert forall|i: int| 0 <= i < s.drop_last().len() implies held(
            #[trigger] s.drop_last()[i],
        ) == Multiset::<B>::empty() by {
            assert(s.drop_last()[i] == s[i]);
        }
        lemma_gathered_nothing(s.drop_last(), held);
        assert(held(s[s.len() - 1]) == Multiset::<B>::empty());
        assert(gathered(s, held) =~= Multiset::<B>::empty());
    }
}

/// The sizes of the elements, added up.
pub open spec fn total<A>(s: Seq<A>, size: spec_fn(A) -> nat) -> nat
    decreases s.len(),
{
    if s.len() == 0 {
        0
    } else {
        total(s.drop_last(), size) + size(s.last())
    }
}

/// Changing one element exchanges its size.
pub(crate) proof fn lemma_total_update<A>(s: Seq<A>, size: spec_fn(A) -> nat, i: int, x: A)
    requires
        0 <= i < s.len(),
    ensures
        total(s.update(i, x), size) + size(s[i]) == total(s, size) + size(x),
    decreases s.len(),
{
    let changed = s.update(i, x);
    if i == s.len() - 1 {
        assert(changed.drop_last() =~= s.drop_last());
    } else {
        lemma_total_update(s.drop_last(), size, i, x);
        assert(changed.drop_last() =~= s.drop_last().update(i, x));
    }
}

} // verus!
