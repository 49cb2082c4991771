//! State machines that run without input, as generators.

use crate::call::CallOnce;
use crate::either::GenEither;
use crate::generator::{GenResult, Generator};
use vstd::prelude::*;

verus! {

/// A state of a machine that takes no input. The state is a function of no
/// argument: called, it makes its one transition, which either emits a value
/// and continues in a next state, or exits with a value.
///
/// As a generator it yields what the machine emits and returns what the
/// machine exits with.
pub struct GenState<S>(pub S);

impl<S, E, X> Generator for GenState<S> where S: CallOnce<(), Output = GenEither<(E, S), X>> {
    type Yield = E;

    type Return = X;

    open spec fn can_step(self) -> bool {
        self.0.accepts(())
    }

    open spec fn step(self) -> GenResult<Self> {
        match self.0.output(()) {
            GenEither::Former((y, c)) => GenResult::Yield(y, GenState(c)),
            GenEither::Latter(ret) => GenResult::Return(ret),
        }
    }

    fn next(self) -> (res: GenResult<Self>) {
        match self.0.call_once(()) {
            GenEither::Former(cont) => {
                let (y, c) = cont;
                GenResult::Yield(y, GenState(c))
            },
            GenEither::Latter(ret) => GenResult::Return(ret),
        }
    }
}

} // verus!
