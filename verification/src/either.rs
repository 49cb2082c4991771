//! A two-way tagged union, and the generator that drives whichever side it
//! holds.

use crate::generator::{completes, GenResult, Generator};
use vstd::prelude::*;

verus! {

/// One of two alternatives: the former or the latter.
pub enum GenEither<A, B> {
    Former(A),
    Latter(B),
}

/// Two generators that agree on what they yield and return, held as one:
/// stepping it steps the side that is present and keeps that side.
impl<A, B> Generator for GenEither<A, B> where
    A: Generator,
    B: Generator<Yield = A::Yield, Return = A::Return>,
 {
    type Yield = A::Yield;

    type Return = A::Return;

    open spec fn can_step(self) -> bool {
        match self {
            GenEither::Former(a) => a.can_step(),
            GenEither::Latter(b) => b.can_step(),
        }
    }

    open spec fn step(self) -> GenResult<Self> {
        match self {
            GenEither::Former(a) => match a.step() {
                GenResult::Yield(y, a2) => GenResult::Yield(y, GenEither::Former(a2)),
                GenResult::Return(r) => GenResult::Return(r),
            },
            GenEither::Latter(b) => match b.step() {
                GenResult::Yield(y, b2) => GenResult::Yield(y, GenEither::Latter(b2)),
                GenResult::Return(r) => GenResult::Return(r),
            },
        }
    }

    fn next(self) -> (res: GenResult<Self>) {
        match self {
            GenEither::Former(a) => match a.next() {
                GenResult::Yield(y, a2) => GenResult::Yield(y, GenEither::Former(a2)),
                GenResult::Return(r) => GenResult::Return(r),
            },
            GenEither::Latter(b) => match b.next() {
                GenResult::Yield(y, b2) => GenResult::Yield(y, GenEither::Latter(b2)),
                GenResult::Return(r) => GenResult::Return(r),
            },
        }
    }
}

/// Held as the former alternative, a generator completes as it does alone.
pub proof fn lemma_former_completes<A, B>(a: A, ys: Seq<A::Yield>, r: A::Return) where
    A: Generator,
    B: Generator<Yield = A::Yield, Return = A::Return>,

    ensures
        completes(GenEither::<A, B>::Former(a), ys, r) <==> completes(a, ys, r),
    decreases ys.len(),
{
    match a.step() {
        GenResult::Yield(y, a2) => {
            if ys.len() > 0 {
                lemma_former_completes::<A, B>(a2, ys.drop_first(), r);
            }
        },
        GenResult::Return(_) => {},
    }
}

/// Held as the latter alternative, a generator completes as it does alone.
pub proof fn lemma_latter_completes<A, B>(b: B, ys: Seq<A::Yield>, r: A::Return) where
    A: Generator,
    B: Generator<Yield = A::Yield, Return = A::Return>,

    ensures
        completes(GenEither::<A, B>::Latter(b), ys, r) <==> completes(b, ys, r),
    decreases ys.len(),
{
    match b.step() {
        GenResult::Yield(y, b2) => {
            if ys.len() > 0 {
                lemma_latter_completes::<A, B>(b2, ys.drop_first(), r);
            }
        },
        GenResult::Return(_) => {},
    }
}

} // verus!
