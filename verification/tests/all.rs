use cogen::all::{All, Append, ContinueRemaining, Prepend};
use cogen::call::CallOnce;
use cogen::either::GenEither;
use cogen::generator::{drive, GenResult, Generator};
use cogen::map_return::{GenMapReturn, MapReturn};
use cogen::wrap::{CoWrap, Wrap};
use std::ops::Range;

#[test]
fn all() {
    let first = (0..5).wrap().map_return(|_| "first");
    let second = (0..10).wrap().map_return(|_| "second");

    let mut trace = vec![];
    let mut joining = first.all(second);
    let both = loop {
        match joining.next() {
            GenResult::Yield(i, rest) => {
                trace.push(i);
                joining = rest;
            }
            GenResult::Return(both) => break both,
        }
    };

    assert_eq!(trace, [0, 0, 1, 1, 2, 2, 3, 3, 4, 4, 5, 6, 7, 8, 9]);
    assert_eq!(both, ("first", "second"));
}

#[test]
fn all_keeps_the_order_of_the_pair_when_the_second_finishes_first() {
    let first = (0i32..6).wrap().map_return(|_| "first");
    let second = (10i32..12).wrap().map_return(|_| "second");
    let (trace, both) = drive(first.all(second));
    assert_eq!(trace, [0, 10, 1, 11, 2, 3, 4, 5]);
    assert_eq!(both, ("first", "second"));
}

#[test]
fn all_yields_as_many_values_as_both_operands() {
    let (trace, _) = drive((0u64..4).wrap().all((0u64..9).wrap()));
    assert_eq!(trace.len(), 4 * 2 + (9 - 4));
    let (trace, _) = drive((0u64..9).wrap().all((0u64..4).wrap()));
    assert_eq!(trace.len(), 9 + 4);
}

#[test]
fn all_of_equal_lengths() {
    let (trace, both) = drive((0i32..2).wrap().all((7i32..9).wrap()));
    assert_eq!(trace, [0, 7, 1, 8]);
    assert_eq!(both, (2..2, 9..9));
}

#[test]
fn all_of_two_empty_operands() {
    let (trace, both) = drive((3usize..3).wrap().all((4usize..4).wrap()));
    assert_eq!(trace, Vec::<usize>::new());
    assert_eq!(both, (3..3, 4..4));
}

#[test]
fn prepend_puts_its_value_first() {
    assert_eq!(Prepend::new("a").call_once(1), ("a", 1));
}

#[test]
fn append_puts_its_value_last() {
    assert_eq!(Append::new("a").call_once(1), (1, "a"));
}

#[test]
fn continue_remaining_resumes_the_second_after_the_first() {
    let results: GenEither<(Range<i32>, CoWrap<Range<i32>>), (CoWrap<Range<i32>>, Range<i32>)> =
        GenEither::Former((2..2, (5..7).wrap()));
    match ContinueRemaining::new().call_once(results) {
        GenEither::Former(GenMapReturn(CoWrap(left), Prepend(done))) => {
            assert_eq!(left, 5..7);
            assert_eq!(done, 2..2);
        }
        GenEither::Latter(_) => panic!("the second operand is the one left"),
    }
}

#[test]
fn continue_remaining_resumes_the_first_after_the_second() {
    let results: GenEither<(Range<i32>, CoWrap<Range<i32>>), (CoWrap<Range<i32>>, Range<i32>)> =
        GenEither::Latter(((1..4).wrap(), 6..6));
    let (trace, both) = drive(ContinueRemaining::new().call_once(results));
    assert_eq!(trace, [1, 2, 3]);
    assert_eq!(both, (4..4, 6..6));
}
