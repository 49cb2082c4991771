//! Transforming the final value of a generator.

use crate::call::{CallOnce, Compose};
use crate::generator::{completes, yields_to, GenResult, Generator};
use vstd::prelude::*;

verus! {

/// A generator with a transform for its final value: the yields of the inner
/// generator pass through untouched, and the transform is called once, on the
/// value that the inner generator returns.
pub struct GenMapReturn<G, F>(pub G, pub F);

impl<G, F> Generator for GenMapReturn<G, F> where G: Generator, F: CallOnce<G::Return> {
    type Yield = G::Yield;

    type Return = F::Output;

    open spec fn can_step(self) -> bool {
        &&& self.0.can_step()
        &&& self.0.step() matches GenResult::Return(r) ==> self.1.accepts(r)
    }

    open spec fn step(self) -> GenResult<Self> {
        match self.0.step() {
            GenResult::Yield(y, g) => GenResult::Yield(y, GenMapReturn(g, self.1)),
            GenResult::Return(r) => GenResult::Return(self.1.output(r)),
        }
    }

    fn next(self) -> (res: GenResult<Self>) {
        let f = self.1;
        match self.0.next() {
            GenResult::Yield(y, g) => GenResult::Yield(y, GenMapReturn(g, f)),
            GenResult::Return(r) => GenResult::Return(f.call_once(r)),
        }
    }
}

/// Generators can have their final value transformed.
pub trait MapReturn: Generator {
    /// The generator that yields what `self` yields and returns what `f`
    /// makes of the final value of `self`.
    fn map_return<F>(self, f: F) -> (g: GenMapReturn<Self, F>) where F: CallOnce<Self::Return>
        ensures
            g == GenMapReturn(self, f),
    {
        GenMapReturn(self, f)
    }
}

impl<G> MapReturn for G where G: Generator {
}

/// While the inner generator yields, the mapped one yields the same values,
/// and the transform stays with it uncalled.
pub proof fn lemma_map_return_yields<G, F>(g: G, f: F, ys: Seq<G::Yield>, rest: G) where
    G: Generator,
    F: CallOnce<G::Return>,

    requires
        yields_to(g, ys, rest),
    ensures
        yields_to(GenMapReturn(g, f), ys, GenMapReturn(rest, f)),
    decreases ys.len(),
{
    if ys.len() > 0 {
        match g.step() {
            GenResult::Yield(y, g2) => {
                lemma_map_return_yields(g2, f, ys.drop_first(), rest);
            },
            GenResult::Return(_) => {},
        }
    }
}

/// Where the inner generator completes, the mapped one completes with the
/// same yields, and its final value is the transform of the inner one's.
pub proof fn lemma_map_return_completes<G, F>(g: G, f: F, ys: Seq<G::Yield>, r: G::Return) where
    G: Generator,
    F: CallOnce<G::Return>,

    requires
        completes(g, ys, r),
        f.accepts(r),
    ensures
        completes(GenMapReturn(g, f), ys, f.output(r)),
    decreases ys.len(),
{
    match g.step() {
        GenResult::Yield(y, g2) => {
            lemma_map_return_completes(g2, f, ys.drop_first(), r);
        },
        GenResult::Return(_) => {},
    }
}

/// Mapping twice is mapping once with the composed transform: the two
/// generators may be stepped on the same conditions, yield the same value and
/// go on as two generators of the same two shapes, or return the same value.
pub proof fn lemma_map_return_composes<G, F, H>(g: G, f: F, h: H) where
    G: Generator,
    F: CallOnce<G::Return>,
    H: CallOnce<F::Output>,

    ensures
        GenMapReturn(GenMapReturn(g, f), h).can_step() == GenMapReturn(g, Compose(f, h)).can_step(),
        match g.step() {
            GenResult::Yield(y, g2) => {
                &&& GenMapReturn(GenMapReturn(g, f), h).step() == GenResult::Yield(
                    y,
                    GenMapReturn(GenMapReturn(g2, f), h),
                )
                &&& GenMapReturn(g, Compose(f, h)).step() == GenResult::Yield(
                    y,
                    GenMapReturn(g2, Compose(f, h)),
                )
            },
            GenResult::Return(r) => {
                &&& GenMapReturn(GenMapReturn(g, f), h).step() == GenResult::<
                    GenMapReturn<GenMapReturn<G, F>, H>,
                >::Return(h.output(f.output(r)))
                &&& GenMapReturn(g, Compose(f, h)).step() == GenResult::<
                    GenMapReturn<G, Compose<F, H>>,
                >::Return(h.output(f.output(r)))
            },
        },
{
}

} // verus!
