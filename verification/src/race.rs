//! Racing two generators: they take turns, one step each, until one of them
//! returns.

use crate::either::GenEither;
use crate::generator::{advance, completes, lemma_completes_split, yields_to, GenResult, Generator};
use vstd::prelude::*;

verus! {

/// Two generators that yield values of one type, and whose turn it is: the
/// former alternative says that the first is stepped next, the latter that
/// the second is. The one that waits is held as it stands.
pub struct GenRace<F, L>(pub GenEither<(F, L), (F, L)>) where
    F: Generator,
    L: Generator<Yield = F::Yield>,
;

/// Each step drives the operand whose turn it is, once. If it yields, the
/// race yields that value and the turn passes to the other operand. If it
/// returns, the race returns: the final value of the one that finished, on
/// its own side, beside the other operand, which this step has not touched.
impl<F, L> Generator for GenRace<F, L> where F: Generator, L: Generator<Yield = F::Yield> {
    type Yield = F::Yield;

    type Return = GenEither<(F::Return, L), (F, L::Return)>;

    open spec fn can_step(self) -> bool {
        match self.0 {
            GenEither::Former((f, l)) => f.can_step(),
            GenEither::Latter((f, l)) => l.can_step(),
        }
    }

    open spec fn step(self) -> GenResult<Self> {
        match self.0 {
            GenEither::Former((f, l)) => match f.step() {
                GenResult::Yield(y, f2) => GenResult::Yield(y, GenRace(GenEither::Latter((f2, l)))),
                GenResult::Return(r) => GenResult::Return(GenEither::Former((r, l))),
            },
            GenEither::Latter((f, l)) => match l.step() {
                GenResult::Yield(y, l2) => GenResult::Yield(y, GenRace(GenEither::Former((f, l2)))),
                GenResult::Return(r) => GenResult::Return(GenEither::Latter((f, r))),
            },
        }
    }

    fn next(self) -> (res: GenResult<Self>) {
        match self.0 {
            GenEither::Former((f, l)) => {
                match f.next() {
                    GenResult::Yield(y, f) => GenResult::Yield(
                        y,
                        GenRace(GenEither::Latter((f, l))),
                    ),
                    GenResult::Return(f) => GenResult::Return(GenEither::Former((f, l))),
                }
            },
            GenEither::Latter((f, l)) => {
                match l.next() {
                    GenResult::Yield(y, l) => GenResult::Yield(
                        y,
                        GenRace(GenEither::Former((f, l))),
                    ),
                    GenResult::Return(l) => GenResult::Return(GenEither::Latter((f, l))),
                }
            },
        }
    }
}

/// Generators can be raced against others that yield the same type.
pub trait Race: Generator {
    /// The race of `self` against `l`, in which `self` has the first turn.
    fn race<L>(self, l: L) -> (g: GenRace<Self, L>) where L: Generator<Yield = Self::Yield>
        ensures
            g == GenRace(GenEither::Former((self, l))),
    {
        GenRace(GenEither::Former((self, l)))
    }
}

impl<C> Race for C where C: Generator {
}

/// The values of `a` and `b` in turn, those of `a` first: `a[0]`, `b[0]`,
/// `a[1]`, `b[1]` and so on, up to the first turn on which the sequence that
/// is asked has nothing left.
pub open spec fn alternate<T>(a: Seq<T>, b: Seq<T>) -> Seq<T>
    decreases a.len() + b.len(),
{
    if a.len() == 0 {
        Seq::empty()
    } else {
        seq![a[0]] + alternate(b, a.drop_first())
    }
}

/// Where the first sequence is no longer than the second, their alternation
/// takes every value of the first and as many of the second, in pairs.
pub proof fn lemma_alternate_pairs<T>(a: Seq<T>, b: Seq<T>)
    requires
        a.len() <= b.len(),
    ensures
        alternate(a, b).len() == 2 * a.len(),
        forall|i: int|
            0 <= i < a.len() ==> alternate(a, b)[2 * i] == a[i] && alternate(a, b)[2 * i + 1]
                == b[i],
    decreases a.len(),
{
    if a.len() > 0 {
        let a2 = a.drop_first();
        let b2 = b.drop_first();
        lemma_alternate_pairs(a2, b2);
        assert(alternate(b, a2) =~= seq![b[0]] + alternate(a2, b2));
        assert forall|i: int| 0 <= i < a.len() implies alternate(a, b)[2 * i] == a[i] && alternate(
            a,
            b,
        )[2 * i + 1] == b[i] by {
            if i > 0 {
                assert(alternate(a2, b2)[2 * (i - 1)] == a2[i - 1]);
                assert(alternate(a2, b2)[2 * (i - 1) + 1] == b2[i - 1]);
            }
        }
    }
}

/// Where the first sequence is longer than the second, their alternation
/// takes every value of the second and one more of the first.
pub proof fn lemma_alternate_odd<T>(a: Seq<T>, b: Seq<T>)
    requires
        a.len() > b.len(),
    ensures
        alternate(a, b).len() == 2 * b.len() + 1,
        forall|i: int| 0 <= i <= b.len() ==> alternate(a, b)[2 * i] == a[i],
        forall|i: int| 0 <= i < b.len() ==> alternate(a, b)[2 * i + 1] == b[i],
    decreases b.len(),
{
    let a2 = a.drop_first();
    if b.len() == 0 {
        assert(alternate(b, a2) =~= Seq::<T>::empty());
        assert(alternate(a, b) =~= seq![a[0]]);
    } else {
        let b2 = b.drop_first();
        lemma_alternate_odd(a2, b2);
        assert(alternate(b, a2) =~= seq![b[0]] + alternate(a2, b2));
        assert(alternate(a, b) =~= seq![a[0], b[0]] + alternate(a2, b2));
        assert forall|i: int| 0 <= i <= b.len() implies alternate(a, b)[2 * i] == a[i] by {
            if i > 0 {
                assert(alternate(a2, b2)[2 * (i - 1)] == a2[i - 1]);
            }
        }
        assert forall|i: int| 0 <= i < b.len() implies alternate(a, b)[2 * i + 1] == b[i] by {
            if i > 0 {
                assert(alternate(a2, b2)[2 * (i - 1) + 1] == b2[i - 1]);
            }
        }
    }
}

/// The first operand finishes first: if it completes with the yields `fs`,
/// and the second can yield as many values `ls` and is then `rest`, the race
/// completes with the two runs in alternation, and returns the first
/// operand's final value beside `rest`.
pub proof fn lemma_race_former_finishes<F, L>(
    f: F,
    l: L,
    fs: Seq<F::Yield>,
    rf: F::Return,
    ls: Seq<F::Yield>,
    rest: L,
) where F: Generator, L: Generator<Yield = F::Yield>
    requires
        completes(f, fs, rf),
        yields_to(l, ls, rest),
        ls.len() == fs.len(),
    ensures
        completes(
            GenRace(GenEither::Former((f, l))),
            alternate(fs, ls),
            GenEither::Former((rf, rest)),
        ),
    decreases fs.len(),
{
    match f.step() {
        GenResult::Yield(y, f2) => {
            match l.step() {
                GenResult::Yield(z, l2) => {
                    let fs2 = fs.drop_first();
                    let ls2 = ls.drop_first();
                    lemma_race_former_finishes(f2, l2, fs2, rf, ls2, rest);
                    let turn = GenRace(GenEither::Latter((f2, l)));
                    assert(alternate(ls, fs2).drop_first() =~= alternate(fs2, ls2));
                    assert(completes(turn, alternate(ls, fs2), GenEither::Former((rf, rest))));
                    assert(alternate(fs, ls).drop_first() =~= alternate(ls, fs2));
                },
                GenResult::Return(_) => {},
            }
        },
        GenResult::Return(_) => {},
    }
}

/// The second operand finishes first: if it completes with the yields `ls`,
/// and the first can yield one value more, `fs`, and is then `rest`, the race
/// completes with the two runs in alternation, and returns `rest` beside the
/// second operand's final value.
pub proof fn lemma_race_latter_finishes<F, L>(
    f: F,
    l: L,
    fs: Seq<F::Yield>,
    rest: F,
    ls: Seq<F::Yield>,
    rl: L::Return,
) where F: Generator, L: Generator<Yield = F::Yield>
    requires
        yields_to(f, fs, rest),
        completes(l, ls, rl),
        fs.len() == ls.len() + 1,
    ensures
        completes(
            GenRace(GenEither::Former((f, l))),
            alternate(fs, ls),
            GenEither::Latter((rest, rl)),
        ),
    decreases ls.len(),
{
    match f.step() {
        GenResult::Yield(y, f2) => {
            let fs2 = fs.drop_first();
            let turn = GenRace(GenEither::Latter((f2, l)));
            match l.step() {
                GenResult::Yield(z, l2) => {
                    let ls2 = ls.drop_first();
                    lemma_race_latter_finishes(f2, l2, fs2, rest, ls2, rl);
                    assert(alternate(ls, fs2).drop_first() =~= alternate(fs2, ls2));
                    assert(completes(turn, alternate(ls, fs2), GenEither::Latter((rest, rl))));
                    assert(alternate(fs, ls).drop_first() =~= alternate(ls, fs2));
                },
                GenResult::Return(_) => {
                    assert(yields_to(f2, fs2, rest));
                    assert(completes(turn, alternate(ls, fs2), GenEither::Latter((rest, rl))));
                    assert(alternate(fs, ls).drop_first() =~= alternate(ls, fs2));
                },
            }
        },
        GenResult::Return(_) => {},
    }
}

/// Two operands that complete, the first with no more yields than the
/// second: the race yields the first operand's values and as many of the
/// second's, in pairs, and returns the first operand's final value beside the
/// second operand as it stands after those yields; driven on, that one yields
/// the rest of its values and returns its final value.
pub proof fn lemma_race_alternation<F, L>(
    f: F,
    l: L,
    fs: Seq<F::Yield>,
    rf: F::Return,
    ls: Seq<F::Yield>,
    rl: L::Return,
) where F: Generator, L: Generator<Yield = F::Yield>
    requires
        completes(f, fs, rf),
        completes(l, ls, rl),
        fs.len() <= ls.len(),
    ensures
        completes(
            GenRace(GenEither::Former((f, l))),
            alternate(fs, ls.take(fs.len() as int)),
            GenEither::Former((rf, advance(l, fs.len()))),
        ),
        alternate(fs, ls.take(fs.len() as int)).len() == 2 * fs.len(),
        forall|i: int|
            0 <= i < fs.len() ==> {
                &&& alternate(fs, ls.take(fs.len() as int))[2 * i] == fs[i]
                &&& alternate(fs, ls.take(fs.len() as int))[2 * i + 1] == ls[i]
            },
        completes(advance(l, fs.len()), ls.skip(fs.len() as int), rl),
{
    let m = fs.len();
    lemma_completes_split(l, ls, rl, m);
    let front = ls.take(m as int);
    lemma_race_former_finishes(f, l, fs, rf, front, advance(l, m));
    lemma_alternate_pairs(fs, front);
    assert forall|i: int| 0 <= i < fs.len() implies {
        &&& alternate(fs, front)[2 * i] == fs[i]
        &&& alternate(fs, front)[2 * i + 1] == ls[i]
    } by {
        assert(front[i] == ls[i]);
    }
}

} // verus!
