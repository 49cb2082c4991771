use cogen::either::GenEither;
use cogen::generator::{drive, GenResult, Generator};
use cogen::map_return::MapReturn;
use cogen::race::{GenRace, Race};
use cogen::wrap::Wrap;

#[test]
fn race() {
    let first = (0..5).wrap().map_return(|_| "first");
    let second = (0..10).wrap().map_return(|_| "second");
    let mut trace = vec![];
    let mut racing = first.race(second);
    let result = loop {
        match racing.next() {
            GenResult::Yield(i, rest) => {
                trace.push(i);
                racing = rest;
            }
            GenResult::Return(result) => break result,
        }
    };
    let mut loser = match result {
        GenEither::Former((message, latter)) => {
            assert_eq!(message, "first");
            latter
        }
        _ => panic!("The first one should finish first"),
    };
    assert_eq!(trace, [0, 0, 1, 1, 2, 2, 3, 3, 4, 4]);

    trace.clear();
    let message = loop {
        match loser.next() {
            GenResult::Yield(i, rest) => {
                trace.push(i);
                loser = rest;
            }
            GenResult::Return(message) => break message,
        }
    };

    assert_eq!(trace, [5, 6, 7, 8, 9]);
    assert_eq!(message, "second");
}

#[test]
fn race_starts_with_its_first_operand() {
    let GenRace(state) = (0i32..3).wrap().race((10i32..13).wrap());
    match state {
        GenEither::Former((first, second)) => {
            assert_eq!(first.0, 0..3);
            assert_eq!(second.0, 10..13);
        }
        GenEither::Latter(_) => panic!("the first operand has the first turn"),
    }
}

#[test]
fn race_passes_the_turn_after_a_yield() {
    match (0i32..3).wrap().race((10i32..13).wrap()).next() {
        GenResult::Yield(y, GenRace(GenEither::Latter((first, second)))) => {
            assert_eq!(y, 0);
            assert_eq!(first.0, 1..3);
            assert_eq!(second.0, 10..13);
        }
        _ => panic!("the first operand yields and the second is next"),
    }
}

#[test]
fn race_that_the_second_operand_wins() {
    let first = (0i32..10).wrap().map_return(|_| "first");
    let second = (100i32..103).wrap().map_return(|_| "second");
    let (trace, result) = drive(first.race(second));
    assert_eq!(trace, [0, 100, 1, 101, 2, 102, 3]);
    match result {
        GenEither::Latter((former, message)) => {
            assert_eq!(message, "second");
            let (rest, message) = drive(former);
            assert_eq!(rest, [4, 5, 6, 7, 8, 9]);
            assert_eq!(message, "first");
        }
        GenEither::Former(_) => panic!("the second operand finishes first"),
    }
}

#[test]
fn race_of_equal_lengths_goes_to_the_first_operand() {
    let first = (0i32..2).wrap().map_return(|_| "first");
    let second = (5i32..7).wrap().map_return(|_| "second");
    let (trace, result) = drive(first.race(second));
    assert_eq!(trace, [0, 5, 1, 6]);
    match result {
        GenEither::Former((message, latter)) => {
            assert_eq!(message, "first");
            let (rest, message) = drive(latter);
            assert_eq!(rest, Vec::<i32>::new());
            assert_eq!(message, "second");
        }
        GenEither::Latter(_) => panic!("the first operand finishes first"),
    }
}

#[test]
fn race_with_an_empty_first_operand_leaves_the_second_untouched() {
    let (trace, result) = drive((0i32..0).wrap().race((5i32..7).wrap()));
    assert_eq!(trace, Vec::<i32>::new());
    match result {
        GenEither::Former((end, latter)) => {
            assert_eq!(end, 0..0);
            assert_eq!(latter.0, 5..7);
        }
        GenEither::Latter(_) => panic!("the first operand finishes first"),
    }
}

#[test]
fn race_with_an_empty_second_operand_gives_the_first_one_turn() {
    let (trace, result) = drive((0i32..3).wrap().race((5i32..5).wrap()));
    assert_eq!(trace, [0]);
    match result {
        GenEither::Latter((former, end)) => {
            assert_eq!(former.0, 1..3);
            assert_eq!(end, 5..5);
        }
        GenEither::Former(_) => panic!("the second operand finishes first"),
    }
}

#[test]
fn race_against_a_counter_ends_with_the_finite_operand() {
    let (trace, result) = drive((0u64..3).wrap().race(100u64..));
    assert_eq!(trace, [0, 100, 1, 101, 2, 102]);
    match result {
        GenEither::Former((end, counter)) => {
            assert_eq!(end, 3..3);
            assert_eq!(counter.start, 103);
        }
        GenEither::Latter((_, never)) => match never {},
    }
}
