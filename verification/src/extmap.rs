use vstd::prelude::*;

verus! {

#[verifier::external_type_specification]
#[verifier::external_body]
#[verifier::reject_recursive_types(T)]
#[verifier::reject_recursive_types(S)]
pub struct ExIndexSet<T, S>(indexmap::IndexSet<T, S>);

/// The elements of an output id registry, in their insertion order (as
/// perturbed by removals by swap).  What this sequence is on a given value
/// is fixed by the contracts of the operations below alone.
pub uninterp spec fn output_order(s: indexmap::IndexSet<u64>) -> Seq<u64>;

/// `s` with the element at `i` removed by swapping the last element into
/// its place.
pub open spec fn seq_swap_remove<A>(s: Seq<A>, i: int) -> Seq<A> {
    s.update(i, s.last()).drop_last()
}

/// Relies on indexmap's `IndexSet::new`: creates an empty set.
#[verifier::external_body]
pub fn output_set_new() -> (s: indexmap::IndexSet<u64>)
    ensures
        output_order(s) == Seq::<u64>::empty(),
{
    indexmap::IndexSet::new()
}

/// Relies on indexmap's `IndexSet::insert`: a value not yet present is
/// appended in insertion order and `true` comes back; a present value
/// leaves the set unchanged and `false` comes back.
#[verifier::external_body]
pub fn output_set_insert(s: &mut indexmap::IndexSet<u64>, v: u64) -> (fresh: bool)
    ensures
        fresh == !output_order(*old(s)).contains(v),
        fresh ==> output_order(*final(s)) == output_order(*old(s)).push(v),
        !fresh ==> output_order(*final(s)) == output_order(*old(s)),
{
    s.insert(v)
}

/// Relies on indexmap's `IndexSet::contains`.
#[verifier::external_body]
pub fn output_set_contains(s: &indexmap::IndexSet<u64>, v: u64) -> (r: bool)
    ensures
        r == output_order(*s).contains(v),
{
    s.contains(&v)
}

/// Relies on indexmap's `IndexSet::get_index_of`: the position of the value
/// in the set's order, if present.
#[verifier::external_body]
pub fn output_set_index_of(s: &indexmap::IndexSet<u64>, v: u64) -> (r: Option<usize>)
    ensures
        match r {
            Some(i) => i < output_order(*s).len() && output_order(*s)[i as int] == v,
            None => !output_order(*s).contains(v),
        },
{
    s.get_index_of(&v)
}

/// Relies on indexmap's `IndexSet::get_index`.
#[verifier::external_body]
pub fn output_set_get_index(s: &indexmap::IndexSet<u64>, i: usize) -> (r: Option<u64>)
    ensures
        match r {
            Some(v) => i < output_order(*s).len() && output_order(*s)[i as int] == v,
            None => i >= output_order(*s).len(),
        },
{
    s.get_index(i).copied()
}

/// Relies on indexmap's `IndexSet::len`.
#[verifier::external_body]
pub fn output_set_len(s: &indexmap::IndexSet<u64>) -> (r: usize)
    ensures
        r == output_order(*s).len(),
{
    s.len()
}

/// Relies on indexmap's `IndexSet::swap_remove`: a present value is removed
/// by swapping the last element into its place and popping; an absent value
/// leaves the set unchanged.
#[verifier::external_body]
pub fn output_set_swap_remove(s: &mut indexmap::IndexSet<u64>, v: u64) -> (r: bool)
    ensures
        r == output_order(*old(s)).contains(v),
        r ==> forall|i: int|
            #![trigger output_order(*old(s))[i]]
            0 <= i < output_order(*old(s)).len() && output_order(*old(s))[i] == v ==> output_order(
                *final(s),
            ) == seq_swap_remove(output_order(*old(s)), i),
        !r ==> output_order(*final(s)) == output_order(*old(s)),
{
    s.swap_remove(&v)
}

} // verus!
