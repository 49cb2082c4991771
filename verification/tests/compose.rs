use cogen::all::Prepend;
use cogen::call::{CallOnce, Compose};
use cogen::chain::{Chain, GenChain};
use cogen::either::GenEither;
use cogen::generator::{drive, GenResult, Generator};
use cogen::map_return::{GenMapReturn, MapReturn};
use cogen::wrap::{CoWrap, Wrap};
use std::ops::Range;

#[test]
fn map_return_leaves_the_yields_and_maps_the_final_value() {
    let (plain, end) = drive((2i32..6).wrap());
    let (mapped, width) = drive((2i32..6).wrap().map_return(|r: Range<i32>| r.end - 2));
    assert_eq!(plain, [2, 3, 4, 5]);
    assert_eq!(mapped, plain);
    assert_eq!(end, 6..6);
    assert_eq!(width, 4);
}

#[test]
fn map_return_keeps_the_transform_while_the_inner_generator_yields() {
    match (2i32..6).wrap().map_return(Prepend::new(7u8)).next() {
        GenResult::Yield(y, GenMapReturn(CoWrap(source), Prepend(kept))) => {
            assert_eq!(y, 2);
            assert_eq!(source, 3..6);
            assert_eq!(kept, 7);
        }
        GenResult::Return(_) => panic!("the inner generator yields first"),
    }
    let (_, tagged) = drive((2i32..3).wrap().map_return(Prepend::new(7u8)));
    assert_eq!(tagged, (7, 3..3));
}

#[test]
fn map_return_twice_is_map_return_of_the_composition() {
    let twice = (0u64..3)
        .wrap()
        .map_return(|r: Range<u64>| r.end + 1)
        .map_return(|n: u64| n * 10);
    let once = (0u64..3)
        .wrap()
        .map_return(Compose(|r: Range<u64>| r.end + 1, |n: u64| n * 10));
    let (ys_twice, r_twice) = drive(twice);
    let (ys_once, r_once) = drive(once);
    assert_eq!(ys_twice, [0, 1, 2]);
    assert_eq!(ys_once, ys_twice);
    assert_eq!(r_twice, 40);
    assert_eq!(r_once, r_twice);
}

#[test]
fn compose_calls_the_first_function_first() {
    assert_eq!(Compose(|n: u32| n + 1, |n: u32| n * 2).call_once(3), 8);
}

#[test]
fn closures_are_called_once() {
    let owned = String::from("kept");
    assert_eq!(CallOnce::call_once(move |n: usize| (owned, n), 3), (String::from("kept"), 3));
}

#[test]
fn chain_runs_the_second_generator_after_the_first() {
    let chained = (0i32..3).wrap().chain(|r: Range<i32>| (r.end * 10..r.end * 10 + 2).wrap());
    let (trace, end) = drive(chained);
    assert_eq!(trace, [0, 1, 2, 30, 31]);
    assert_eq!(end, 32..32);
}

#[test]
fn chain_starts_in_its_first_phase() {
    match (0i32..3).wrap().chain(|r: Range<i32>| r.wrap()) {
        GenChain::First(CoWrap(source), _) => assert_eq!(source, 0..3),
        GenChain::Second(_) => panic!("nothing has returned yet"),
    }
}

#[test]
fn chain_steps_the_second_generator_on_the_step_that_ends_the_first() {
    let chained = (0i32..0).wrap().chain(|_: Range<i32>| (5i32..7).wrap());
    match chained.next() {
        GenResult::Yield(y, GenChain::Second(CoWrap(source))) => {
            assert_eq!(y, 5);
            assert_eq!(source, 6..7);
        }
        _ => panic!("the second generator yields at once"),
    }
}

#[test]
fn chain_of_two_empty_generators_returns_at_once() {
    let chained = (0i32..0).wrap().chain(|_: Range<i32>| (5i32..5).wrap());
    match chained.next() {
        GenResult::Return(end) => assert_eq!(end, 5..5),
        GenResult::Yield(_, _) => panic!("nothing to yield"),
    }
}

#[test]
fn either_drives_the_side_it_holds() {
    let former: GenEither<CoWrap<Range<i32>>, CoWrap<Range<i32>>> = GenEither::Former((0..2).wrap());
    let (trace, end) = drive(former);
    assert_eq!(trace, [0, 1]);
    assert_eq!(end, 2..2);

    let latter: GenEither<CoWrap<Range<i32>>, CoWrap<Range<i32>>> = GenEither::Latter((5..6).wrap());
    match latter.next() {
        GenResult::Yield(y, GenEither::Latter(CoWrap(source))) => {
            assert_eq!(y, 5);
            assert_eq!(source, 6..6);
        }
        _ => panic!("the latter side yields and stays the latter side"),
    }
}

#[test]
fn outcome_and_sum_convert_both_ways() {
    let yielded: GenResult<CoWrap<Range<i32>>> = GenResult::Yield(3, (4..9).wrap());
    match yielded.inj() {
        GenEither::Former((y, CoWrap(source))) => {
            assert_eq!(y, 3);
            assert_eq!(source, 4..9);
        }
        GenEither::Latter(_) => panic!("a yield is the former alternative"),
    }
    let returned: GenResult<CoWrap<Range<i32>>> = GenResult::Return(9..9);
    match returned.inj() {
        GenEither::Latter(end) => assert_eq!(end, 9..9),
        GenEither::Former(_) => panic!("a return is the latter alternative"),
    }
    match GenResult::<CoWrap<Range<i32>>>::sur(GenEither::Former((3, (4..9).wrap()))) {
        GenResult::Yield(y, CoWrap(source)) => {
            assert_eq!(y, 3);
            assert_eq!(source, 4..9);
        }
        GenResult::Return(_) => panic!("the former alternative is a yield"),
    }
    match GenResult::<CoWrap<Range<i32>>>::sur(GenEither::Latter(9..9)) {
        GenResult::Return(end) => assert_eq!(end, 9..9),
        GenResult::Yield(_, _) => panic!("the latter alternative is a return"),
    }
}

#[test]
fn drive_collects_the_yields_and_the_final_value() {
    let (trace, end) = drive((1usize..4).wrap());
    assert_eq!(trace, [1, 2, 3]);
    assert_eq!(end, 4..4);
}
