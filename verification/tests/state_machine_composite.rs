use ocw_labs::state_machine::feedback::Feedback;
use ocw_labs::state_machine::feedback2::Feedback2;
use ocw_labs::state_machine::negation::Negation;
use ocw_labs::state_machine::{StateMachine, Transducer};

#[test]
fn it_feedbacks_negation_alternates() {
    // Exercise 4.4
    let mut feedback: Feedback<Negation> = StateMachine::new(true);
    let transduce_res: Vec<Result<Option<bool>, String>> =
        feedback.transduce(vec![None, None, None, None, None, None], true, true);
    assert_eq!(
        transduce_res,
        vec![Ok(Some(false)), Ok(Some(true)), Ok(Some(false)), Ok(Some(true)), Ok(Some(false)), Ok(Some(true))]
    );
}

use ocw_labs::state_machine::accumulator::Accumulator;
use ocw_labs::state_machine::adder::Adder;
use ocw_labs::state_machine::cascade::{Cascade, CascadeBuilder};
use ocw_labs::state_machine::delay::Delay;
use ocw_labs::state_machine::fork::{Fork, ForkBuilder};
use ocw_labs::state_machine::gain::Gain;
use ocw_labs::state_machine::increment::Increment;
use ocw_labs::state_machine::multiplier::Multiplier;
use ocw_labs::state_machine::parallel::{Parallel, ParallelBuilder};
use ocw_labs::state_machine::updown::UpDown;
use ocw_labs::state_machine::wire::Wire;
use ocw_labs::state_machine::DualValues;

#[test]
fn test_cascade_delay() {
    let mut cascade = CascadeBuilder::new().with_src(Delay::new(99i64)).with_dst(Delay::new(22i64)).build().unwrap();
    let transduce_res: Vec<Result<i64, String>> =
        cascade.transduce_wrap_unwrap(vec![3i64, 8i64, 2i64, 4i64, 6i64, 5i64], true, true);
    assert_eq!(transduce_res, vec![Ok(22i64), Ok(99i64), Ok(3i64), Ok(8i64), Ok(2i64), Ok(4i64)]);
}

#[test]
fn it_feedbacks_cascades_delay_to_increment45() {
    let mut feedback: Feedback<Cascade<Delay<i64>, Increment<i64>>> = StateMachine::new((1i64, 1i64));
    let transduce_res: Vec<Result<Option<i64>, String>> =
        feedback.transduce(vec![None, None, None, None, None, None], true, true);
    assert_eq!(
        transduce_res,
        vec![Ok(Some(2i64)), Ok(Some(3i64)), Ok(Some(4i64)), Ok(Some(5i64)), Ok(Some(6i64)), Ok(Some(7i64))]
    );
}

#[test]
fn it_feedbacks_cascades_increment_to_delay45() {
    let mut feedback: Feedback<Cascade<Increment<i64>, Delay<i64>>> = StateMachine::new((1i64, 1i64));
    let transduce_res: Vec<Result<Option<i64>, String>> =
        feedback.transduce(vec![None, None, None, None, None, None], true, true);
    assert_eq!(
        transduce_res,
        vec![Ok(Some(1i64)), Ok(Some(2i64)), Ok(Some(3i64)), Ok(Some(4i64)), Ok(Some(5i64)), Ok(Some(6i64))]
    );
}

#[test]
fn it_cascades_fork_delays_adder() {
    let mut test: Cascade<Fork<Delay<i64>, Cascade<Delay<i64>, Delay<i64>>>, Adder<i64>> =
        StateMachine::new(((1i64, (1i64, 0i64)), 0i64));
    let transduce_res: Vec<Result<Option<i64>, String>> =
        test.transduce(vec![None, None, None, None, None, None], true, true);
    assert_eq!(
        transduce_res,
        vec![Ok(Some(1i64)), Ok(Some(2i64)), Ok(Some(2i64)), Ok(Some(2i64)), Ok(Some(2i64)), Ok(Some(2i64))]
    );
}

#[test]
fn it_fibonaccis() {
    let mut feedback: Feedback<Cascade<Fork<Delay<i64>, Cascade<Delay<i64>, Delay<i64>>>, Adder<i64>>> =
        StateMachine::new(((1i64, (1i64, 0i64)), 0i64));
    let transduce_res: Vec<Result<Option<i64>, String>> =
        feedback.transduce(vec![None, None, None, None, None, None], true, true);
    assert_eq!(
        transduce_res,
        vec![Ok(Some(1i64)), Ok(Some(2i64)), Ok(Some(3i64)), Ok(Some(5i64)), Ok(Some(8i64)), Ok(Some(13i64))]
    );
}

#[test]
fn it_fibonaccis_good_start() {
    let mut feedback: Feedback<Cascade<Fork<Delay<i64>, Cascade<Delay<i64>, Delay<i64>>>, Adder<i64>>> =
        StateMachine::new(((0i64, (0i64, 1i64)), 0i64));
    let transduce_res: Vec<Result<Option<i64>, String>> =
        feedback.transduce(vec![None, None, None, None, None, None], true, true);
    assert_eq!(
        transduce_res,
        vec![Ok(Some(1i64)), Ok(Some(1i64)), Ok(Some(2i64)), Ok(Some(3i64)), Ok(Some(5i64)), Ok(Some(8i64))]
    );
}

#[test]
fn it_fibonaccis_two_delays_with_wire47() {
    let mut feedback: Feedback<Cascade<Delay<i64>, Cascade<Fork<Wire<i64>, Delay<i64>>, Adder<i64>>>> =
        StateMachine::new((1i64, ((1i64, 0i64), 0i64)));
    let transduce_res: Vec<Result<Option<i64>, String>> =
        feedback.transduce(vec![None, None, None, None, None, None], true, true);
    assert_eq!(
        transduce_res,
        vec![Ok(Some(1i64)), Ok(Some(2i64)), Ok(Some(3i64)), Ok(Some(5i64)), Ok(Some(8i64)), Ok(Some(13i64))]
    );
}

#[test]
fn it_feedback_doubles_gain48() {
    let mut feedback: Feedback<Cascade<Delay<i64>, Gain<i64>>> = StateMachine::new((1i64, 2i64));
    let transduce_res: Vec<Result<Option<i64>, String>> =
        feedback.transduce(vec![None, None, None, None, None, None], true, true);
    assert_eq!(
        transduce_res,
        vec![Ok(Some(2i64)), Ok(Some(4i64)), Ok(Some(8i64)), Ok(Some(16i64)), Ok(Some(32i64)), Ok(Some(64i64))]
    );
}

#[test]
fn it_builds_cascades() {
    let test = CascadeBuilder::new().with_src(Accumulator::new(1i8)).with_dst(Accumulator::new(2i8)).build().unwrap();
    assert_eq!(test.get_next_values_wrap_unwrap(&(0i8, 0i8), &0i8), ((0i8, 0i8), 0i8));
    assert_eq!(test.get_next_values_wrap_unwrap(&(3i8, 5i8), &7i8), ((10i8, 15i8), 15i8));
    let missing: Result<Cascade<Accumulator<i8>, Accumulator<i8>>, String> =
        CascadeBuilder::new().with_src(Accumulator::new(1i8)).build();
    assert_eq!(missing.err(), Some("Missing initial state for Destination State Machine.".to_string()));
}

#[test]
fn it_forks_accumulators() {
    let test: Fork<Accumulator<i8>, Accumulator<i8>> = Fork::new((1i8, 2i8));
    assert_eq!(
        test.get_next_values_wrap_unwrap(&(3i8, 5i8), &7i8),
        ((10i8, 12i8), DualValues { val1: Some(10i8), val2: Some(12i8) })
    );
    assert_eq!(test.get_next_state(&(3i8, 5i8), &7i8), Ok((10i8, 12i8)));
    let built = ForkBuilder::new().with_path1(Accumulator::new(1i8)).with_path2(Accumulator::new(2i8)).build().unwrap();
    assert_eq!(built.state, (1i8, 2i8));
}

#[test]
fn it_parallels_accumulators() {
    let test: Parallel<Accumulator<i8>, Accumulator<i8>> =
        ParallelBuilder::new().with_path1(Accumulator::new(1i8)).with_path2(Accumulator::new(2i8)).build().unwrap();
    assert_eq!(
        test.get_next_values_wrap_unwrap(&(3i8, 5i8), &(7i8, 7i8)),
        ((10i8, 12i8), (Some(10i8), Some(12i8)))
    );
    let missing: Result<Parallel<Accumulator<i8>, Accumulator<i8>>, String> = ParallelBuilder::new().build();
    assert_eq!(missing.err(), Some("Missing initial state for 1st State Machine".to_string()));
}

#[test]
fn it_adds_and_multiplies() {
    let test = Adder::new(5i8);
    assert_eq!(test.state, 0i8);
    assert_eq!(test.get_next_values_wrap_unwrap(&0i8, &DualValues { val1: Some(3i8), val2: Some(4i8) }), (7i8, 7i8));
    assert_eq!(test.get_next_values_wrap_unwrap(&0i8, &DualValues { val1: None, val2: None }), (0i8, 0i8));
    let test = Multiplier::new(0i8);
    assert_eq!(test.get_next_values_wrap_unwrap(&0i8, &(Some(3i8), Some(4i8))), (12i8, 12i8));
    assert_eq!(test.get_next_values_wrap_unwrap(&0i8, &(None, None)), (1i8, 1i8));
    assert_eq!(test.is_composite(), true);
}

#[test]
fn it_counts_ups_and_downs() {
    let mut test = UpDown::new(5i64);
    let res = test.transduce(vec![Some('u'), Some('u'), Some('d'), None], true, true);
    assert_eq!(res, vec![Ok(Some(6)), Ok(Some(7)), Ok(Some(6)), Ok(None)]);
    assert_eq!(test.state, 6);
}

#[test]
fn it_delays_by_one() {
    let mut test = Delay::new(9i64);
    let res = test.transduce_wrap_unwrap(vec![1i64, 2, 3], true, true);
    assert_eq!(res, vec![Ok(9), Ok(1), Ok(2)]);
    assert_eq!(test.state, 3);
}

#[test]
fn it_accumulates_sums() {
    let mut test = Accumulator::new(10i64);
    let res = test.transduce_wrap_unwrap(vec![100i64, -3, 4, -123, 10], true, true);
    assert_eq!(res, vec![Ok(110), Ok(107), Ok(111), Ok(-12), Ok(-2)]);
    test.start();
    assert_eq!(test.state, 10);
}

#[test]
fn it_gains_and_increments() {
    let mut test = Gain::new(3i64);
    let res = test.transduce_wrap_unwrap(vec![10i64, -3, 4, -123, 10], true, true);
    assert_eq!(res, vec![Ok(30), Ok(-9), Ok(12), Ok(-369), Ok(30)]);
    let mut test = Increment::new(3i64);
    let res = test.transduce_wrap_unwrap(vec![1i64, 2, 3, 4, 5], true, true);
    assert_eq!(res, vec![Ok(4), Ok(5), Ok(6), Ok(7), Ok(8)]);
}

#[test]
fn it_feedbacks_cascades_increment_to_delay() {
    let mut feedback: Feedback<Cascade<Increment<i64>, Delay<i64>>> = StateMachine::new((2i64, 3i64));
    let transduce_res: Vec<Result<Option<i64>, String>> =
        feedback.transduce(vec![None, None, None, None, None, None], true, true);
    assert_eq!(
        transduce_res,
        vec![Ok(Some(3i64)), Ok(Some(5i64)), Ok(Some(7i64)), Ok(Some(9i64)), Ok(Some(11i64)), Ok(Some(13i64))]
    );
}

#[test]
fn it_feeds_the_output_back_as_second_input() {
    // the adder gets (i, None), then (i, i): the output doubles the input
    let mut doubler: Feedback2<Adder<i64>, i64> = StateMachine::new(0i64);
    let res: Vec<Result<Option<i64>, String>> = doubler.transduce(vec![Some(5i64), Some(1i64), None], true, true);
    assert_eq!(res, vec![Ok(Some(10i64)), Ok(Some(2i64)), Ok(Some(2i64))]);
    assert_eq!(doubler.state, 2i64);
    assert!(doubler.is_composite());
    assert_eq!(doubler.state_machine_name(), "Feedback2".to_string());
}

#[test]
fn it_counts_with_feedback2_of_adder_and_delay() {
    // the delayed sum of the inputs so far
    let mut counter: Feedback2<Cascade<Adder<i64>, Delay<i64>>, i64> = StateMachine::new((0i64, 0i64));
    let res: Vec<Result<i64, String>> = counter.transduce_wrap_unwrap(vec![1i64, 2i64, 3i64, 4i64], true, true);
    assert_eq!(res, vec![Ok(0i64), Ok(1i64), Ok(3i64), Ok(6i64)]);
    assert_eq!(counter.state, (10i64, 10i64));
}
