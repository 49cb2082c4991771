//! Running one generator after another, the second built from what the first
//! returned.

use crate::call::CallOnce;
use crate::generator::{completes, yields_to, GenResult, Generator};
use vstd::prelude::*;

verus! {

/// A chain in one of its two phases. In the first it holds the generator that
/// is driven and the continuation that will make the second generator of its
/// final value; in the second it holds that second generator.
pub enum GenChain<G, K> where
    G: Generator,
    K: CallOnce<G::Return>,
    K::Output: Generator<Yield = G::Yield>,
 {
    First(G, K),
    Second(K::Output),
}

impl<G, K> GenChain<G, K> where
    G: Generator,
    K: CallOnce<G::Return>,
    K::Output: Generator<Yield = G::Yield>,
 {
    /// The outcome of a step in the second phase: that of the second
    /// generator, which stays in the chain if it yields.
    pub open spec fn step_second(h: K::Output) -> GenResult<Self> {
        match h.step() {
            GenResult::Yield(y, h2) => GenResult::Yield(y, GenChain::Second(h2)),
            GenResult::Return(r) => GenResult::Return(r),
        }
    }
}

/// The yields of the first generator are passed on, then those of the second;
/// the final value is that of the second. The step on which the first
/// generator returns calls the continuation, once, and goes on to step the
/// generator it made, so that this step too ends in a yield or in the final
/// value.
impl<G, K> Generator for GenChain<G, K> where
    G: Generator,
    K: CallOnce<G::Return>,
    K::Output: Generator<Yield = G::Yield>,
 {
    type Yield = G::Yield;

    type Return = <K::Output as Generator>::Return;

    open spec fn can_step(self) -> bool {
        match self {
            GenChain::First(g, k) => {
                &&& g.can_step()
                &&& g.step() matches GenResult::Return(r) ==> k.accepts(r) && k.output(
                    r,
                ).can_step()
            },
            GenChain::Second(h) => h.can_step(),
        }
    }

    open spec fn step(self) -> GenResult<Self> {
        match self {
            GenChain::First(g, k) => match g.step() {
                GenResult::Yield(y, g2) => GenResult::Yield(y, GenChain::First(g2, k)),
                GenResult::Return(r) => Self::step_second(k.output(r)),
            },
            GenChain::Second(h) => Self::step_second(h),
        }
    }

    fn next(self) -> (res: GenResult<Self>) {
        let h = match self {
            GenChain::First(g, k) => match g.next() {
                GenResult::Yield(y, g2) => {
                    return GenResult::Yield(y, GenChain::First(g2, k));
                },
                GenResult::Return(r) => k.call_once(r),
            },
            GenChain::Second(h) => h,
        };
        match h.next() {
            GenResult::Yield(y, h2) => GenResult::Yield(y, GenChain::Second(h2)),
            GenResult::Return(r) => GenResult::Return(r),
        }
    }
}

/// Generators can be followed by a generator made of their final value.
pub trait Chain: Generator {
    /// The chain of `self` and of the generator that `k` makes of the final
    /// value of `self`.
    fn chain<K>(self, k: K) -> (g: GenChain<Self, K>) where
        K: CallOnce<Self::Return>,
        K::Output: Generator<Yield = Self::Yield>,

        ensures
            g == GenChain::First(self, k),
    {
        GenChain::First(self, k)
    }
}

impl<G> Chain for G where G: Generator {
}

/// While the first generator yields, the chain yields the same values and
/// stays in its first phase, the continuation uncalled.
pub proof fn lemma_chain_yields<G, K>(g: G, k: K, ys: Seq<G::Yield>, rest: G) where
    G: Generator,
    K: CallOnce<G::Return>,
    K::Output: Generator<Yield = G::Yield>,

    requires
        yields_to(g, ys, rest),
    ensures
        yields_to(GenChain::First(g, k), ys, GenChain::First(rest, k)),
    decreases ys.len(),
{
    if ys.len() > 0 {
        match g.step() {
            GenResult::Yield(y, g2) => {
                lemma_chain_yields(g2, k, ys.drop_first(), rest);
            },
            GenResult::Return(_) => {},
        }
    }
}

/// A chain in its second phase completes as the generator that it holds.
pub proof fn lemma_chain_second<G, K>(
    h: K::Output,
    ys: Seq<G::Yield>,
    r: <K::Output as Generator>::Return,
) where G: Generator, K: CallOnce<G::Return>, K::Output: Generator<Yield = G::Yield>
    ensures
        completes(GenChain::<G, K>::Second(h), ys, r) <==> completes(h, ys, r),
    decreases ys.len(),
{
    match h.step() {
        GenResult::Yield(y, h2) => {
            if ys.len() > 0 {
                lemma_chain_second::<G, K>(h2, ys.drop_first(), r);
            }
        },
        GenResult::Return(_) => {},
    }
}

/// Where the first generator completes and the generator made of its final
/// value completes, the chain completes: its yields are those of the first
/// followed by those of the second, and its final value is that of the
/// second.
pub proof fn lemma_chain_completes<G, K>(
    g: G,
    k: K,
    gs: Seq<G::Yield>,
    r: G::Return,
    hs: Seq<G::Yield>,
    rh: <K::Output as Generator>::Return,
) where G: Generator, K: CallOnce<G::Return>, K::Output: Generator<Yield = G::Yield>
    requires
        completes(g, gs, r),
        k.accepts(r),
        completes(k.output(r), hs, rh),
    ensures
        completes(GenChain::First(g, k), gs + hs, rh),
    decreases gs.len(),
{
    match g.step() {
        GenResult::Yield(y, g2) => {
            lemma_chain_completes(g2, k, gs.drop_first(), r, hs, rh);
            assert((gs + hs).drop_first() =~= gs.drop_first() + hs);
        },
        GenResult::Return(_) => {
            lemma_chain_second::<G, K>(k.output(r), hs, rh);
        },
    }
}

} // verus!
