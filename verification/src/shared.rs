//! Shared ownership of immutable allocations.
use vstd::prelude::*;
use std::sync::Arc;

verus! {

/// Calls `Arc::clone`: another pointer to the same allocation, so the value
/// behind the result is the value behind the argument.
#[verifier::external_body]
pub(crate) fn share<T>(pointer: &Arc<T>) -> (r: Arc<T>)
    ensures
        r == *pointer,
{
    Arc::clone(pointer)
}

/// Calls `Arc::unwrap_or_clone`: the vector behind the pointer, taken out
/// where no other pointer holds it and cloned where one does.
#[verifier::external_body]
pub(crate) fn unshare<T: Copy>(pointer: Arc<Vec<T>>) -> (r: Vec<T>)
    ensures
        r@ == pointer@,
{
    Arc::unwrap_or_clone(pointer)
}

} // verus!
