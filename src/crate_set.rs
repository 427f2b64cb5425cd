use indexmap::IndexSet;
use vstd::prelude::*;

verus! {

#[verifier::external_type_specification]
#[verifier::external_body]
#[verifier::reject_recursive_types(T)]
#[verifier::reject_recursive_types(S)]
pub struct ExIndexSet<T, S>(IndexSet<T, S>);

/// The names an insertion-ordered set holds, in insertion order.
pub uninterp spec fn set_items(s: IndexSet<String>) -> Seq<Seq<char>>;

/// Relies on `IndexSet::new`: the new set is empty.
#[verifier::external_body]
pub(crate) fn empty_set() -> (r: IndexSet<String>)
    ensures
        set_items(r) == Seq::<Seq<char>>::empty(),
{
    IndexSet::new()
}

/// Relies on `IndexSet::insert`: a name already held leaves the set as it
/// was and gives `false`; a new one goes to the end and gives `true`.
#[verifier::external_body]
pub(crate) fn insert_name(set: &mut IndexSet<String>, name: String) -> (r: bool)
    ensures
        set_items(*old(set)).contains(name@) ==> !r && set_items(*final(set)) == set_items(
            *old(set),
        ),
        !set_items(*old(set)).contains(name@) ==> r && set_items(*final(set)) == set_items(
            *old(set),
        ).push(name@),
{
    set.insert(name)
}

/// Relies on `IndexSet`'s `IntoIterator`: the names in insertion order.
#[verifier::external_body]
pub(crate) fn into_names(set: IndexSet<String>) -> (r: Vec<String>)
    ensures
        r@.map_values(|s: String| s@) == set_items(set),
{
    set.into_iter().collect()
}

} // verus!
