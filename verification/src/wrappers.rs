use vstd::prelude::*;

verus! {

/// A future that may be sent to other threads, whatever it holds.
pub struct UnsafeSend<F>(pub F);

/// Marks a future as one that may be sent to other threads.
pub fn make_unsafe_send_future<F>(fut: F) -> (r: UnsafeSend<F>)
    ensures
        r.0 == fut,
{
    UnsafeSend(fut)
}

/// A future that may be sent to other threads and shared, whatever it holds.
pub struct Sendify<Fut>(pub Fut);

/// A value that never equals another, itself included: the runtime
/// objects that it wraps cannot be compared.
pub struct AppliesEq<T>(pub T);

impl<T> PartialEq for AppliesEq<T> {
    fn eq(&self, other: &Self) -> (r: bool) {
        false
    }
}

impl<T> vstd::std_specs::cmp::PartialEqSpecImpl for AppliesEq<T> {
    open spec fn obeys_eq_spec() -> bool {
        true
    }

    open spec fn eq_spec(&self, other: &Self) -> bool {
        false
    }
}

/// A runtime object of a native package, by its handle; it equals nothing.
pub struct AnyWrapper(pub u64);

impl PartialEq for AnyWrapper {
    fn eq(&self, other: &Self) -> (r: bool) {
        false
    }
}

impl vstd::std_specs::cmp::PartialEqSpecImpl for AnyWrapper {
    open spec fn obeys_eq_spec() -> bool {
        true
    }

    open spec fn eq_spec(&self, other: &Self) -> bool {
        false
    }
}

} // verus!
