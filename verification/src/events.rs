//! Helpers that transform a decided list of events (or actions) element by element.
use crate::Sum;
use vstd::prelude::*;

verus! {

/// `output` is `input` with `f` applied to each element: `output[i]` is a possible result of
/// `f` on `input[i]`.
pub open spec fn maps_each<A, B, F: Fn(&A) -> B>(f: F, input: Seq<A>, output: Seq<B>) -> bool {
    &&& output.len() == input.len()
    &&& forall|i: int| 0 <= i < input.len() ==> #[trigger] call_ensures(f, (&input[i],), output[i])
}

/// Applies `f` to every element of `items`, keeping the order.
pub(crate) fn map_each<A, B, F: Fn(&A) -> B>(f: &F, items: Vec<A>) -> (mapped: Vec<B>)
    requires
        forall|a: A| #[trigger] call_requires(*f, (&a,)),
    ensures
        maps_each(*f, items@, mapped@),
{
    let mut mapped: Vec<B> = Vec::new();
    let ghost input = items@;
    for item in it: items
        invariant
            forall|a: A| #[trigger] call_requires(*f, (&a,)),
            it.seq() == input,
            mapped@.len() == it.index(),
            forall|i: int| 0 <= i < it.index() ==> #[trigger] call_ensures(*f, (&input[i],), mapped@[i]),
    {
        let b = f(&item);
        mapped.push(b);
    }
    mapped
}

/// Tags every event as belonging to the first of two combined components.
pub(crate) fn tag_all_first<E, E2>(items: Vec<E>) -> (tagged: Vec<Sum<E, E2>>)
    ensures
        tagged@ == items@.map_values(|e: E| Sum::<E, E2>::First(e)),
{
    let mut tagged: Vec<Sum<E, E2>> = Vec::new();
    let ghost input = items@;
    for item in it: items
        invariant
            it.seq() == input,
            tagged@ == input.take(it.index() as int).map_values(|e: E| Sum::<E, E2>::First(e)),
    {
        let ghost k: int = tagged@.len() as int;
        tagged.push(Sum::First(item));
        assert(input.take(k + 1) == input.take(k).push(input[k]));
    }
    assert(input.take(input.len() as int) == input);
    tagged
}

/// Tags every event as belonging to the second of two combined components.
pub(crate) fn tag_all_second<E, E2>(items: Vec<E2>) -> (tagged: Vec<Sum<E, E2>>)
    ensures
        tagged@ == items@.map_values(|e: E2| Sum::<E, E2>::Second(e)),
{
    let mut tagged: Vec<Sum<E, E2>> = Vec::new();
    let ghost input = items@;
    for item in it: items
        invariant
            it.seq() == input,
            tagged@ == input.take(it.index() as int).map_values(|e: E2| Sum::<E, E2>::Second(e)),
    {
        let ghost k: int = tagged@.len() as int;
        tagged.push(Sum::Second(item));
        assert(input.take(k + 1) == input.take(k).push(input[k]));
    }
    assert(input.take(input.len() as int) == input);
    tagged
}

/// Mapping events keeps them in their order: there are as many outputs as inputs, and the
/// output at each position is what `f` gives on the input at that same position.
pub proof fn lemma_maps_each_keeps_positions<A, B, F: Fn(&A) -> B>(f: F, input: Seq<A>, output: Seq<B>)
    requires
        maps_each(f, input, output),
    ensures
        output.len() == input.len(),
        forall|i: int| 0 <= i < input.len() ==> #[trigger] call_ensures(f, (&input[i],), output[i]),
        input.len() > 0 ==> call_ensures(f, (&input[0],), output[0]),
        input.len() > 0 ==> call_ensures(f, (&input.last(),), output.last()),
{
    if input.len() > 0 {
        assert(call_ensures(f, (&input[input.len() - 1],), output[input.len() - 1]));
    }
}

/// Mapping is exactly position by position: any sequence of results of `f`, one per input at
/// the same position, is a mapping of the input.
pub proof fn lemma_maps_each_from_positions<A, B, F: Fn(&A) -> B>(f: F, input: Seq<A>, output: Seq<B>)
    requires
        output.len() == input.len(),
        forall|i: int| 0 <= i < input.len() ==> #[trigger] call_ensures(f, (&input[i],), output[i]),
    ensures
        maps_each(f, input, output),
{
}

} // verus!
