//! Sequence sources, and the adapter that makes a generator of one.

use crate::generator::{completes, GenResult, Generator};
use core::ops::Range;
use vstd::prelude::*;
use vstd::std_specs::range::{
    axiom_spec_range_next_i32,
    axiom_spec_range_next_u64,
    axiom_spec_range_next_usize,
};

verus! {

/// An ordered source of elements that hands them out one at a time and keeps
/// its own position.
pub trait Source: Sized {
    /// What the source hands out.
    type Item;

    /// What one pull hands out, and the source after it. `None` says that the
    /// source is exhausted.
    spec fn pulled(self) -> (Option<Self::Item>, Self);

    /// Takes the next element, if there is one, and moves the position on.
    fn pull(&mut self) -> (item: Option<Self::Item>)
        ensures
            (item, *final(self)) == old(self).pulled(),
    ;
}

impl Source for Range<i32> {
    type Item = i32;

    open spec fn pulled(self) -> (Option<i32>, Self) {
        if self.start < self.end {
            (Some(self.start), Range { start: (self.start + 1) as i32, end: self.end })
        } else {
            (None, self)
        }
    }

    fn pull(&mut self) -> (item: Option<i32>) {
        broadcast use axiom_spec_range_next_i32;

        self.next()
    }
}

impl Source for Range<u64> {
    type Item = u64;

    open spec fn pulled(self) -> (Option<u64>, Self) {
        if self.start < self.end {
            (Some(self.start), Range { start: (self.start + 1) as u64, end: self.end })
        } else {
            (None, self)
        }
    }

    fn pull(&mut self) -> (item: Option<u64>) {
        broadcast use axiom_spec_range_next_u64;

        self.next()
    }
}

impl Source for Range<usize> {
    type Item = usize;

    open spec fn pulled(self) -> (Option<usize>, Self) {
        if self.start < self.end {
            (Some(self.start), Range { start: (self.start + 1) as usize, end: self.end })
        } else {
            (None, self)
        }
    }

    fn pull(&mut self) -> (item: Option<usize>) {
        broadcast use axiom_spec_range_next_usize;

        self.next()
    }
}

/// `s` holds exactly `items`: pulled until it is exhausted it hands them out
/// in order, and is `end` after the pull that finds nothing left.
pub open spec fn drains<S: Source>(s: S, items: Seq<S::Item>, end: S) -> bool
    decreases items.len(),
{
    match s.pulled() {
        (Some(x), s2) => items.len() > 0 && x == items[0] && drains(s2, items.drop_first(), end),
        (None, s2) => items.len() == 0 && end == s2,
    }
}

/// A source as a generator: it yields the elements of the source and returns
/// the exhausted source.
pub struct CoWrap<T>(pub T);

impl<S: Source> Generator for CoWrap<S> {
    type Yield = S::Item;

    type Return = S;

    open spec fn can_step(self) -> bool {
        true
    }

    open spec fn step(self) -> GenResult<Self> {
        match self.0.pulled() {
            (Some(item), s) => GenResult::Yield(item, CoWrap(s)),
            (None, s) => GenResult::Return(s),
        }
    }

    fn next(self) -> (res: GenResult<Self>) {
        let mut i = self.0;
        match i.pull() {
            Some(item) => GenResult::Yield(item, CoWrap(i)),
            _ => GenResult::Return(i),
        }
    }
}

/// Sources can be wrapped into generators.
pub trait Wrap<I>: Sized {
    /// The generator that yields what `self` holds.
    fn wrap(self) -> (g: CoWrap<Self>)
        ensures
            g == CoWrap(self),
    {
        CoWrap(self)
    }
}

impl<I> Wrap<I> for I where I: Source {
}

/// The adapter neither drops, repeats nor reorders: it completes with
/// exactly the elements that its source holds, and returns the source as the
/// last pull left it.
pub proof fn lemma_wrap_fidelity<S: Source>(s: S, items: Seq<S::Item>, end: S)
    ensures
        completes(CoWrap(s), items, end) <==> drains(s, items, end),
    decreases items.len(),
{
    match s.pulled() {
        (Some(x), s2) => {
            if items.len() > 0 {
                lemma_wrap_fidelity(s2, items.drop_first(), end);
            }
        },
        (None, s2) => {},
    }
}

/// A range whose start is below its end holds the values from its start up
/// to its end, the end left out, and stands at its end when it is exhausted.
/// Any other range holds nothing and stays as it is.
pub proof fn lemma_range_drains_i32(r: Range<i32>)
    ensures
        r.start < r.end ==> drains(
            r,
            Seq::new((r.end - r.start) as nat, |i: int| (r.start + i) as i32),
            Range { start: r.end, end: r.end },
        ),
        r.start >= r.end ==> drains(r, Seq::empty(), r),
    decreases r.end - r.start,
{
    if r.start < r.end {
        let items = Seq::new((r.end - r.start) as nat, |i: int| (r.start + i) as i32);
        let r2 = Range { start: (r.start + 1) as i32, end: r.end };
        lemma_range_drains_i32(r2);
        if r2.start < r2.end {
            assert(items.drop_first() =~= Seq::new(
                (r2.end - r2.start) as nat,
                |i: int| (r2.start + i) as i32,
            ));
        } else {
            assert(items.drop_first() =~= Seq::<i32>::empty());
        }
    }
}

/// As for `i32`.
pub proof fn lemma_range_drains_u64(r: Range<u64>)
    ensures
        r.start < r.end ==> drains(
            r,
            Seq::new((r.end - r.start) as nat, |i: int| (r.start + i) as u64),
            Range { start: r.end, end: r.end },
        ),
        r.start >= r.end ==> drains(r, Seq::empty(), r),
    decreases r.end - r.start,
{
    if r.start < r.end {
        let items = Seq::new((r.end - r.start) as nat, |i: int| (r.start + i) as u64);
        let r2 = Range { start: (r.start + 1) as u64, end: r.end };
        lemma_range_drains_u64(r2);
        if r2.start < r2.end {
            assert(items.drop_first() =~= Seq::new(
                (r2.end - r2.start) as nat,
                |i: int| (r2.start + i) as u64,
            ));
        } else {
            assert(items.drop_first() =~= Seq::<u64>::empty());
        }
    }
}

/// As for `i32`.
pub proof fn lemma_range_drains_usize(r: Range<usize>)
    ensures
        r.start < r.end ==> drains(
            r,
            Seq::new((r.end - r.start) as nat, |i: int| (r.start + i) as usize),
            Range { start: r.end, end: r.end },
        ),
        r.start >= r.end ==> drains(r, Seq::empty(), r),
    decreases r.end - r.start,
{
    if r.start < r.end {
        let items = Seq::new((r.end - r.start) as nat, |i: int| (r.start + i) as usize);
        let r2 = Range { start: (r.start + 1) as usize, end: r.end };
        lemma_range_drains_usize(r2);
        if r2.start < r2.end {
            assert(items.drop_first() =~= Seq::new(
                (r2.end - r2.start) as nat,
                |i: int| (r2.start + i) as usize,
            ));
        } else {
            assert(items.drop_first() =~= Seq::<usize>::empty());
        }
    }
}

} // verus!
