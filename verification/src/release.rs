//! Letting go of a value, with a receipt.
//!
//! Nothing else stands here, so there is no receipt but for a value that was
//! let go of. A value can be let go of only once, and not be used afterwards.

use vstd::prelude::*;

verus! {

/// A receipt for a value that was let go of. Its view is the value as it was
/// then.
#[verifier::reject_recursive_types(A)]
pub struct Released<A> {
    value: Ghost<A>,
}

impl<A> View for Released<A> {
    type V = A;

    closed spec fn view(&self) -> A {
        self.value@
    }
}

/// Lets go of `value`.
pub fn release<A>(value: A) -> (receipt: Released<A>)
    ensures
        receipt@ == value,
{
    Released { value: Ghost(value) }
}

/// The values that the receipts are for, in their order.
pub open spec fn released<A>(receipts: Seq<Released<A>>) -> Seq<A> {
    receipts.map_values(|receipt: Released<A>| receipt@)
}

/// Lets go of all `values`.
pub fn release_all<A>(values: Vec<A>) -> (receipts: Vec<Released<A>>)
    ensures
        released(receipts@) == values@,
{
    let mut receipts: Vec<Released<A>> = Vec::new();
    let ghost all = values@;
    for value in it: values
        invariant
            it.seq() == all,
            released(receipts@) == all.take(it.index() as int),
    {
        let ghost earlier = released(receipts@);
        receipts.push(release(value));
        assert(released(receipts@) =~= earlier.push(value));
        assert(all.take(it.index() + 1) =~= earlier.push(value));
    }
    assert(all.take(all.len() as int) == all);
    receipts
}

} // verus!
