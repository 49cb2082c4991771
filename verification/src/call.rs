//! Functions that are called once, by value, with a result that depends on the
//! function and its argument alone.

use vstd::prelude::*;

verus! {

/// A function object that is used up by its one call.
pub trait CallOnce<I>: Sized {
    /// What the call returns.
    type Output;

    /// Whether the function may be called on `i`.
    spec fn accepts(self, i: I) -> bool;

    /// What the call on `i` returns.
    spec fn output(self, i: I) -> Self::Output;

    /// Calls the function.
    fn call_once(self, i: I) -> (o: Self::Output)
        requires
            self.accepts(i),
        ensures
            o == self.output(i),
    ;
}

/// An ordinary closure or function is such an object wherever its
/// postcondition admits one result only.
impl<I, O, F: FnOnce(I) -> O> CallOnce<I> for F {
    type Output = O;

    open spec fn accepts(self, i: I) -> bool {
        &&& call_requires(self, (i,))
        &&& forall|a: O, b: O|
            call_ensures(self, (i,), a) && call_ensures(self, (i,), b) ==> a == b
    }

    open spec fn output(self, i: I) -> O {
        choose|o: O| call_ensures(self, (i,), o)
    }

    fn call_once(self, i: I) -> (o: O)
        ensures
            call_ensures(self, (i,), o),
    {
        self(i)
    }
}

/// Two functions in a row: the first, then the second on what the first
/// returned.
pub struct Compose<F, H>(pub F, pub H);

impl<I, F, H> CallOnce<I> for Compose<F, H> where F: CallOnce<I>, H: CallOnce<F::Output> {
    type Output = H::Output;

    open spec fn accepts(self, i: I) -> bool {
        &&& self.0.accepts(i)
        &&& self.1.accepts(self.0.output(i))
    }

    open spec fn output(self, i: I) -> H::Output {
        self.1.output(self.0.output(i))
    }

    fn call_once(self, i: I) -> (o: H::Output) {
        self.1.call_once(self.0.call_once(i))
    }
}

} // verus!
