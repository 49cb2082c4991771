//! Counters without an upper end as generators that never return.

use crate::generator::{yields_to, GenResult, Generator};
use core::convert::Infallible;
use core::ops::RangeFrom;
use vstd::prelude::*;

verus! {

/// `core::ops::RangeFrom`, the range that `start..` makes: a struct whose one
/// field, `start`, is public. This makes the type known with that field and
/// claims nothing more of it.
#[verifier::external_type_specification]
#[verifier::reject_recursive_types(Idx)]
pub struct ExRangeFrom<Idx>(RangeFrom<Idx>);

/// Counts upwards from its start: each step yields the cursor and moves it on
/// by one. There is no final value; the cursor's largest value is yielded by
/// no step, since no cursor could follow it.
impl Generator for RangeFrom<usize> {
    type Yield = usize;

    type Return = Infallible;

    open spec fn can_step(self) -> bool {
        self.start < usize::MAX
    }

    open spec fn step(self) -> GenResult<Self> {
        GenResult::Yield(self.start, RangeFrom { start: (self.start + 1) as usize })
    }

    fn next(self) -> (res: GenResult<Self>) {
        let y: usize = self.start;
        GenResult::Yield(y, RangeFrom { start: y + 1 })
    }
}

/// As for `usize`.
impl Generator for RangeFrom<u64> {
    type Yield = u64;

    type Return = Infallible;

    open spec fn can_step(self) -> bool {
        self.start < u64::MAX
    }

    open spec fn step(self) -> GenResult<Self> {
        GenResult::Yield(self.start, RangeFrom { start: (self.start + 1) as u64 })
    }

    fn next(self) -> (res: GenResult<Self>) {
        let y: u64 = self.start;
        GenResult::Yield(y, RangeFrom { start: y + 1 })
    }
}

/// As for `usize`.
impl Generator for RangeFrom<i32> {
    type Yield = i32;

    type Return = Infallible;

    open spec fn can_step(self) -> bool {
        self.start < i32::MAX
    }

    open spec fn step(self) -> GenResult<Self> {
        GenResult::Yield(self.start, RangeFrom { start: (self.start + 1) as i32 })
    }

    fn next(self) -> (res: GenResult<Self>) {
        let y: i32 = self.start;
        GenResult::Yield(y, RangeFrom { start: y + 1 })
    }
}

/// Stepped `k` times from `s`, the counter yields `s`, `s + 1`, and so on up
/// to `s + k - 1`, every step of them a yield, and then stands at `s + k`.
pub proof fn lemma_counter_usize(s: usize, k: nat)
    requires
        s + k <= usize::MAX,
    ensures
        yields_to(
            RangeFrom { start: s },
            Seq::new(k, |i: int| (s + i) as usize),
            RangeFrom { start: (s + k) as usize },
        ),
    decreases k,
{
    if k > 0 {
        let ys = Seq::new(k, |i: int| (s + i) as usize);
        let next = (s + 1) as usize;
        lemma_counter_usize(next, (k - 1) as nat);
        assert(ys.drop_first() =~= Seq::new((k - 1) as nat, |i: int| (next + i) as usize));
    }
}

/// As for `usize`.
pub proof fn lemma_counter_u64(s: u64, k: nat)
    requires
        s + k <= u64::MAX,
    ensures
        yields_to(
            RangeFrom { start: s },
            Seq::new(k, |i: int| (s + i) as u64),
            RangeFrom { start: (s + k) as u64 },
        ),
    decreases k,
{
    if k > 0 {
        let ys = Seq::new(k, |i: int| (s + i) as u64);
        let next = (s + 1) as u64;
        lemma_counter_u64(next, (k - 1) as nat);
        assert(ys.drop_first() =~= Seq::new((k - 1) as nat, |i: int| (next + i) as u64));
    }
}

/// As for `usize`.
pub proof fn lemma_counter_i32(s: i32, k: nat)
    requires
        s + k <= i32::MAX,
    ensures
        yields_to(
            RangeFrom { start: s },
            Seq::new(k, |i: int| (s + i) as i32),
            RangeFrom { start: (s + k) as i32 },
        ),
    decreases k,
{
    if k > 0 {
        let ys = Seq::new(k, |i: int| (s + i) as i32);
        let next = (s + 1) as i32;
        lemma_counter_i32(next, (k - 1) as nat);
        assert(ys.drop_first() =~= Seq::new((k - 1) as nat, |i: int| (next + i) as i32));
    }
}

} // verus!
