//! Joining two generators: they race, and the one that is left is driven to
//! its end, so that both final values can be returned together.

use crate::call::CallOnce;
use crate::chain::{lemma_chain_completes, Chain, GenChain};
use crate::either::{lemma_former_completes, lemma_latter_completes, GenEither};
use crate::generator::{advance, completes, lemma_completes_split, Generator};
use crate::map_return::{lemma_map_return_completes, GenMapReturn, MapReturn};
use crate::race::{
    alternate,
    lemma_alternate_odd,
    lemma_alternate_pairs,
    lemma_race_former_finishes,
    lemma_race_latter_finishes,
    GenRace,
    Race,
};
use core::marker::PhantomData;
use vstd::prelude::*;

verus! {

/// Pairs the value it holds with its argument, the held value first.
pub struct Prepend<F>(pub F);

impl<F> Prepend<F> {
    /// The function that puts `f` in front of its argument.
    pub fn new(f: F) -> (p: Self)
        ensures
            p == Prepend(f),
    {
        Prepend(f)
    }
}

impl<I, F> CallOnce<I> for Prepend<F> {
    type Output = (F, I);

    open spec fn accepts(self, i: I) -> bool {
        true
    }

    open spec fn output(self, i: I) -> (F, I) {
        (self.0, i)
    }

    fn call_once(self, i: I) -> (o: (F, I)) {
        (self.0, i)
    }
}

/// Pairs its argument with the value it holds, the argument first.
pub struct Append<F>(pub F);

impl<F> Append<F> {
    /// The function that puts `f` behind its argument.
    pub fn new(f: F) -> (a: Self)
        ensures
            a == Append(f),
    {
        Append(f)
    }
}

impl<I, F> CallOnce<I> for Append<F> {
    type Output = (I, F);

    open spec fn accepts(self, i: I) -> bool {
        true
    }

    open spec fn output(self, i: I) -> (I, F) {
        (i, self.0)
    }

    fn call_once(self, i: I) -> (o: (I, F)) {
        (i, self.0)
    }
}

/// Takes the result of a race and makes the generator that finishes the
/// join: the operand that is left, with its final value to be paired with
/// that of the operand that finished. The pair holds the first operand's
/// value first, whichever finished first.
pub struct ContinueRemaining<F, L>(pub PhantomData<(F, L)>);

impl<F, L> ContinueRemaining<F, L> {
    pub fn new() -> (c: Self)
        ensures
            c == ContinueRemaining::<F, L>(PhantomData),
    {
        ContinueRemaining(PhantomData)
    }
}

impl<F, L> CallOnce<GenEither<(F::Return, L), (F, L::Return)>> for ContinueRemaining<F, L> where
    F: Generator,
    L: Generator<Yield = F::Yield>,
 {
    type Output = GenEither<
        GenMapReturn<L, Prepend<F::Return>>,
        GenMapReturn<F, Append<L::Return>>,
    >;

    open spec fn accepts(self, results: GenEither<(F::Return, L), (F, L::Return)>) -> bool {
        true
    }

    open spec fn output(self, results: GenEither<(F::Return, L), (F, L::Return)>) -> Self::Output {
        match results {
            GenEither::Former((f, l)) => GenEither::Former(GenMapReturn(l, Prepend(f))),
            GenEither::Latter((f, l)) => GenEither::Latter(GenMapReturn(f, Append(l))),
        }
    }

    fn call_once(self, results: GenEither<(F::Return, L), (F, L::Return)>) -> (o: Self::Output) {
        match results {
            GenEither::Former((f, l)) => GenEither::Former(l.map_return(Prepend::new(f))),
            GenEither::Latter((f, l)) => GenEither::Latter(f.map_return(Append::new(l))),
        }
    }
}

/// The join of two generators: their race, chained to what finishes it.
pub type GenAll<F, L> = GenChain<GenRace<F, L>, ContinueRemaining<F, L>>;

/// Generators can be joined with others that yield the same type.
pub trait All: Generator {
    /// The join of `self` and `l`: it yields what their race yields and then
    /// what the operand that is left yields, and returns both final values,
    /// that of `self` first.
    fn all<L>(self, l: L) -> (g: GenAll<Self, L>) where L: Generator<Yield = Self::Yield>
        ensures
            g == GenChain::<GenRace<Self, L>, ContinueRemaining<Self, L>>::First(
                GenRace(GenEither::Former((self, l))),
                ContinueRemaining(PhantomData),
            ),
    {
        self.race(l).chain(ContinueRemaining::new())
    }
}

impl<F> All for F where F: Generator {
}

/// What a join yields, of operands that yield `fs` and `ls`: the values in
/// alternation as far as the race goes, then the rest of the longer run.
pub open spec fn joined<T>(fs: Seq<T>, ls: Seq<T>) -> Seq<T> {
    if fs.len() <= ls.len() {
        alternate(fs, ls.take(fs.len() as int)) + ls.skip(fs.len() as int)
    } else {
        alternate(fs.take(ls.len() as int + 1), ls) + fs.skip(ls.len() as int + 1)
    }
}

/// A join yields as many values as its operands together.
pub proof fn lemma_joined_len<T>(fs: Seq<T>, ls: Seq<T>)
    ensures
        joined(fs, ls).len() == fs.len() + ls.len(),
{
    if fs.len() <= ls.len() {
        lemma_alternate_pairs(fs, ls.take(fs.len() as int));
    } else {
        lemma_alternate_odd(fs.take(ls.len() as int + 1), ls);
    }
}

/// Two operands that complete make a join that completes: it yields the
/// race's alternation and then what was left of the other operand, and it
/// returns the first operand's final value with the second's, in that order,
/// whichever of them finished first.
pub proof fn lemma_all_completes<F, L>(
    f: F,
    l: L,
    fs: Seq<F::Yield>,
    rf: F::Return,
    ls: Seq<F::Yield>,
    rl: L::Return,
) where F: Generator, L: Generator<Yield = F::Yield>
    requires
        completes(f, fs, rf),
        completes(l, ls, rl),
    ensures
        completes(
            GenChain::<GenRace<F, L>, ContinueRemaining<F, L>>::First(
                GenRace(GenEither::Former((f, l))),
                ContinueRemaining(PhantomData),
            ),
            joined(fs, ls),
            (rf, rl),
        ),
{
    let race = GenRace(GenEither::Former((f, l)));
    let k = ContinueRemaining::<F, L>(PhantomData);
    if fs.len() <= ls.len() {
        let m = fs.len();
        let rest = advance(l, m);
        lemma_completes_split(l, ls, rl, m);
        lemma_race_former_finishes(f, l, fs, rf, ls.take(m as int), rest);
        lemma_map_return_completes(rest, Prepend(rf), ls.skip(m as int), rl);
        lemma_former_completes::<
            GenMapReturn<L, Prepend<F::Return>>,
            GenMapReturn<F, Append<L::Return>>,
        >(GenMapReturn(rest, Prepend(rf)), ls.skip(m as int), (rf, rl));
        lemma_chain_completes(
            race,
            k,
            alternate(fs, ls.take(m as int)),
            GenEither::Former((rf, rest)),
            ls.skip(m as int),
            (rf, rl),
        );
    } else {
        let n = (ls.len() + 1) as nat;
        let rest = advance(f, n);
        lemma_completes_split(f, fs, rf, n);
        lemma_race_latter_finishes(f, l, fs.take(n as int), rest, ls, rl);
        lemma_map_return_completes(rest, Append(rl), fs.skip(n as int), rf);
        lemma_latter_completes::<
            GenMapReturn<L, Prepend<F::Return>>,
            GenMapReturn<F, Append<L::Return>>,
        >(GenMapReturn(rest, Append(rl)), fs.skip(n as int), (rf, rl));
        lemma_chain_completes(
            race,
            k,
            alternate(fs.take(n as int), ls),
            GenEither::Latter((rest, rl)),
            fs.skip(n as int),
            (rf, rl),
        );
    }
}

} // verus!
