//! The generator contract, the outcome of a step, and what it means for a
//! generator to yield a run of values and to complete.

use crate::either::GenEither;
use vstd::prelude::*;

verus! {

/// A suspended computation that can be resumed exactly once.
///
/// `next` takes the instance by value, so an instance that has been stepped is
/// gone; the only instance left to step is the one that the step handed back.
pub trait Generator: Sized {
    /// What is produced at each suspension point.
    type Yield;

    /// What is produced when the computation finishes.
    type Return;

    /// Whether this instance may be stepped.
    spec fn can_step(self) -> bool;

    /// The outcome of stepping this instance. It depends on the instance
    /// alone.
    spec fn step(self) -> GenResult<Self>;

    /// Resumes the computation until it suspends again or finishes.
    fn next(self) -> (res: GenResult<Self>)
        requires
            self.can_step(),
        ensures
            res == self.step(),
    ;
}

/// The outcome of one step: a yielded value with the instance to step next, or
/// the final value.
pub enum GenResult<Coro> where Coro: Generator {
    Yield(Coro::Yield, Coro),
    Return(Coro::Return),
}

impl<Coro> GenResult<Coro> where Coro: Generator {
    /// The outcome that a sum of a yield and a return stands for.
    pub open spec fn of_either(e: GenEither<(Coro::Yield, Coro), Coro::Return>) -> Self {
        match e {
            GenEither::Former((y, c)) => GenResult::Yield(y, c),
            GenEither::Latter(r) => GenResult::Return(r),
        }
    }

    /// This outcome as a sum: a yield is the former alternative, a return the
    /// latter.
    pub open spec fn as_either(self) -> GenEither<(Coro::Yield, Coro), Coro::Return> {
        match self {
            GenResult::Yield(y, c) => GenEither::Former((y, c)),
            GenResult::Return(r) => GenEither::Latter(r),
        }
    }

    /// Builds the outcome from the sum that stands for it.
    pub fn sur(e: GenEither<(Coro::Yield, Coro), Coro::Return>) -> (res: Self)
        ensures
            res == Self::of_either(e),
    {
        match e {
            GenEither::Former((y, c)) => GenResult::Yield(y, c),
            GenEither::Latter(r) => GenResult::Return(r),
        }
    }

    /// Turns the outcome into the sum that stands for it.
    pub fn inj(self) -> (e: GenEither<(Coro::Yield, Coro), Coro::Return>)
        ensures
            e == self.as_either(),
    {
        match self {
            GenResult::Yield(y, c) => GenEither::Former((y, c)),
            GenResult::Return(r) => GenEither::Latter(r),
        }
    }

    /// The two conversions are inverse to each other: nothing is lost in
    /// either direction.
    pub proof fn lemma_sum_round_trip(self, e: GenEither<(Coro::Yield, Coro), Coro::Return>)
        ensures
            Self::of_either(self.as_either()) == self,
            Self::of_either(e).as_either() == e,
    {
    }
}

/// `g` may be stepped `ys.len()` times in a row; it yields exactly `ys`, in
/// order, and is then `rest`.
pub open spec fn yields_to<G: Generator>(g: G, ys: Seq<G::Yield>, rest: G) -> bool
    decreases ys.len(),
{
    if ys.len() == 0 {
        rest == g
    } else {
        &&& g.can_step()
        &&& match g.step() {
            GenResult::Yield(y, g2) => y == ys[0] && yields_to(g2, ys.drop_first(), rest),
            GenResult::Return(_) => false,
        }
    }
}

/// `g` may be driven to its end: it yields exactly `ys`, in order, and then
/// returns `r`.
pub open spec fn completes<G: Generator>(g: G, ys: Seq<G::Yield>, r: G::Return) -> bool
    decreases ys.len(),
{
    &&& g.can_step()
    &&& match g.step() {
        GenResult::Yield(y, g2) => ys.len() > 0 && y == ys[0] && completes(g2, ys.drop_first(), r),
        GenResult::Return(r2) => ys.len() == 0 && r2 == r,
    }
}

/// The instance that `g` has become after yielding `k` times; `g` itself from
/// the step on at which it returns.
pub open spec fn advance<G: Generator>(g: G, k: nat) -> G
    decreases k,
{
    if k == 0 {
        g
    } else {
        match g.step() {
            GenResult::Yield(_, g2) => advance(g2, (k - 1) as nat),
            GenResult::Return(_) => g,
        }
    }
}

/// A generator completes in one way only: the yields and the final value are
/// determined by the instance.
pub proof fn lemma_completes_unique<G: Generator>(
    g: G,
    ys1: Seq<G::Yield>,
    r1: G::Return,
    ys2: Seq<G::Yield>,
    r2: G::Return,
)
    requires
        completes(g, ys1, r1),
        completes(g, ys2, r2),
    ensures
        ys1 == ys2,
        r1 == r2,
    decreases ys1.len(),
{
    match g.step() {
        GenResult::Yield(y, g2) => {
            lemma_completes_unique(g2, ys1.drop_first(), r1, ys2.drop_first(), r2);
            assert(ys1 =~= seq![y] + ys1.drop_first());
            assert(ys2 =~= seq![y] + ys2.drop_first());
        },
        GenResult::Return(_) => {
            assert(ys1 =~= ys2);
        },
    }
}

/// A run of yields followed by a completion is a completion: the yields are
/// those of both parts, in order.
pub proof fn lemma_yields_then_completes<G: Generator>(
    g: G,
    front: Seq<G::Yield>,
    mid: G,
    back: Seq<G::Yield>,
    r: G::Return,
)
    requires
        yields_to(g, front, mid),
        completes(mid, back, r),
    ensures
        completes(g, front + back, r),
    decreases front.len(),
{
    if front.len() > 0 {
        match g.step() {
            GenResult::Yield(y, g2) => {
                lemma_yields_then_completes(g2, front.drop_first(), mid, back, r);
                assert((front + back).drop_first() =~= front.drop_first() + back);
            },
            GenResult::Return(_) => {},
        }
    }
}

/// A completion can be cut after any `k` of its yields: the first `k` lead to
/// `advance(g, k)`, which completes with the others.
pub proof fn lemma_completes_split<G: Generator>(g: G, ys: Seq<G::Yield>, r: G::Return, k: nat)
    requires
        completes(g, ys, r),
        k <= ys.len(),
    ensures
        yields_to(g, ys.take(k as int), advance(g, k)),
        completes(advance(g, k), ys.skip(k as int), r),
    decreases k,
{
    if k == 0 {
        assert(ys.skip(0) =~= ys);
    } else {
        match g.step() {
            GenResult::Yield(y, g2) => {
                lemma_completes_split(g2, ys.drop_first(), r, (k - 1) as nat);
                assert(ys.take(k as int).drop_first() =~= ys.drop_first().take(k - 1));
                assert(ys.skip(k as int) =~= ys.drop_first().skip(k - 1));
            },
            GenResult::Return(_) => {},
        }
    }
}

/// Drives a generator to its end: steps it until it returns, and hands back
/// the values it yielded, in order, with the final value.
pub fn drive<G: Generator>(g: G) -> (out: (Vec<G::Yield>, G::Return))
    requires
        exists|ys: Seq<G::Yield>, r: G::Return| completes(g, ys, r),
    ensures
        completes(g, out.0@, out.1),
{
    let ghost (all, last) = choose|ys: Seq<G::Yield>, r: G::Return| completes(g, ys, r);
    let mut seen: Vec<G::Yield> = Vec::new();
    let mut cur = g;
    proof {
        assert(all.skip(0) =~= all);
    }
    loop
        invariant
            completes(g, all, last),
            seen@.len() <= all.len(),
            seen@ == all.take(seen@.len() as int),
            completes(cur, all.skip(seen@.len() as int), last),
        decreases all.len() - seen@.len(),
    {
        let ghost before = seen@;
        match cur.next() {
            GenResult::Yield(y, g2) => {
                seen.push(y);
                cur = g2;
                proof {
                    let n = before.len() as int;
                    assert(all.skip(n).drop_first() =~= all.skip(n + 1));
                }
            },
            GenResult::Return(r) => {
                proof {
                    assert(all.take(all.len() as int) =~= all);
                }
                return (seen, r);
            },
        }
    }
}

} // verus!
