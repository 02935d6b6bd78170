//! Trusted boundary around `ordermap::OrderSet`, the insertion-ordered
//! set used to de-duplicate the server preference list. The wrappers
//! state, over `order_set_elems`, what the crate's source shows: a new
//! set is empty, `insert` appends an element not yet present and leaves
//! the set unchanged otherwise, and iteration follows insertion order.

use vstd::prelude::*;

verus! {

#[verifier::external_type_specification]
#[verifier::external_body]
#[verifier::reject_recursive_types(T)]
#[verifier::reject_recursive_types(S)]
pub struct ExOrderSet<T, S>(ordermap::OrderSet<T, S>);

/// The elements a set holds, as character sequences, in insertion
/// order.
pub uninterp spec fn order_set_elems(s: ordermap::OrderSet<String>) -> Seq<Seq<char>>;

/// Relies on ordermap::OrderSet::new: a new set holds nothing.
#[verifier::external_body]
pub fn order_set_new() -> (s: ordermap::OrderSet<String>)
    ensures
        order_set_elems(s) == Seq::<Seq<char>>::empty(),
{
    ordermap::OrderSet::new()
}

/// Relies on ordermap::OrderSet::insert: an element already present
/// leaves the set unchanged, in its original position, and `false` is
/// returned; otherwise the element is appended last in order and
/// `true` is returned.
#[verifier::external_body]
pub fn order_set_insert(s: &mut ordermap::OrderSet<String>, value: String) -> (r: bool)
    ensures
        r == !order_set_elems(*old(s)).contains(value@),
        order_set_elems(*final(s)) == if order_set_elems(*old(s)).contains(value@) {
            order_set_elems(*old(s))
        } else {
            order_set_elems(*old(s)).push(value@)
        },
{
    s.insert(value)
}

/// Relies on ordermap::OrderSet's IntoIterator: iteration yields the
/// elements in their insertion order.
#[verifier::external_body]
pub fn order_set_to_vec(s: ordermap::OrderSet<String>) -> (r: Vec<String>)
    ensures
        r.deep_view() == order_set_elems(s),
{
    s.into_iter().collect()
}

} // verus!
