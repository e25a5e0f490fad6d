use ocw_labs::state_machine::accumulator::Accumulator;
use ocw_labs::state_machine::adder::Adder;
use ocw_labs::state_machine::cascade::Cascade;
use ocw_labs::state_machine::delay::Delay;
use ocw_labs::state_machine::feedback::Feedback;
use ocw_labs::state_machine::fork::Fork;
use ocw_labs::state_machine::gain::Gain;
use ocw_labs::state_machine::increment::Increment;
use ocw_labs::state_machine::multiplier::Multiplier;
use ocw_labs::state_machine::parallel::ParallelBuilder;
use ocw_labs::state_machine::wire::Wire;
use ocw_labs::state_machine::DualValues;
use ocw_labs::state_machine::{StateMachine, Transducer};
use ocw_labs::basic::accumulator::Accumulator as BasicAccumulator;
use ocw_labs::basic::delay::Delay as BasicDelay;
use ocw_labs::basic::gain::Gain as BasicGain;
use ocw_labs::basic::increment::Increment as BasicIncrement;
use ocw_labs::basic::sumlast3::SumLast3;
use ocw_labs::basic::cascade::Cascade as BasicCascade;
use ocw_labs::basic::{StateMachine as BasicStateMachine, Transducer as BasicTransducer};

// Accumulator

#[test]
fn accumulator_it_gets_next_values() {
    let test = Accumulator::new(0i8);
    assert_eq!(test.get_next_values_wrap_unwrap(&0i8, &0i8), (0i8, 0i8));
    assert_eq!(test.get_next_values_wrap_unwrap(&0i8, &1i8), (1i8, 1i8));
}

#[test]
fn accumulator_it_gets_next_state() {
    let test = Accumulator::new(0i8);
    assert_eq!(test.get_next_state(&0i8, &0i8), Ok(0i8));
    assert_eq!(test.get_next_state(&0i8, &1i8), Ok(1i8));
}

#[test]
fn it_steps_seq() {
    let mut test = Accumulator::new(0i8);
    assert_eq!(test.step_unwrap(&1i8), 1i8);
    assert_eq!(test.step_unwrap(&2i8), 3i8);
    assert_eq!(test.state, 3i8);
}

#[test]
fn accumulator_it_checks_is_composite() {
    let test = Accumulator::new(0i8);
    assert_eq!(test.is_composite(), false);
}

// Adder

#[test]
fn adder_it_gets_next_values_input_some_none() {
    let test = Adder::new(0i8);
    assert_eq!(test.get_next_values_wrap_unwrap(&0i8, &DualValues { val1: Some(0i8), val2: None }), (0i8, 0i8));
    assert_eq!(test.get_next_values_wrap_unwrap(&0i8, &DualValues { val1: Some(10i8), val2: None }), (10i8, 10i8));
}

#[test]
fn adder_it_gets_next_values_input_none_some() {
    let test = Adder::new(0i8);
    assert_eq!(test.get_next_values_wrap_unwrap(&0i8, &DualValues { val1: None, val2: Some(0i8) }), (0i8, 0i8));
    assert_eq!(test.get_next_values_wrap_unwrap(&0i8, &DualValues { val1: None, val2: Some(10i8) }), (10i8, 10i8));
}

#[test]
fn adder_it_gets_next_values_some() {
    let test = Adder::new(0i8);
    assert_eq!(test.get_next_values_wrap_unwrap(&0i8, &DualValues { val1: Some(0i8), val2: Some(0i8) }), (0i8, 0i8));
    assert_eq!(test.get_next_values_wrap_unwrap(&0i8, &DualValues { val1: Some(5i8), val2: Some(7i8) }), (12i8, 12i8));
    assert_eq!(test.get_next_values_wrap_unwrap(&0i8, &DualValues { val1: Some(1i8), val2: Some(0i8) }), (1i8, 1i8));
    assert_eq!(test.get_next_values_wrap_unwrap(&0i8, &DualValues { val1: Some(0i8), val2: Some(1i8) }), (1i8, 1i8));
}

#[test]
fn adder_it_gets_next_values_none() {
    let test = Adder::new(0i8);
    assert_eq!(test.get_next_values(&0i8, None), Ok((0i8, Some(0i8))));
    assert_eq!(test.get_next_values(&1i8, None), Ok((1i8, Some(1i8))));
}

#[test]
fn adder_it_gets_next_state() {
    let test = Adder::new(0i8);
    assert_eq!(test.get_next_state(&0i8, &DualValues { val1: Some(0i8), val2: Some(0i8) }), Ok(0i8));
    assert_eq!(test.get_next_state(&0i8, &DualValues { val1: Some(0i8), val2: Some(1i8) }), Ok(1i8));
    assert_eq!(test.get_next_state(&5i8, &DualValues { val1: Some(3i8), val2: Some(7i8) }), Ok(10i8));
}

#[test]
fn adder_it_checks_is_composite() {
    let test = Adder::new(0i8);
    assert_eq!(test.is_composite(), false);
}

#[test]
fn adder_it_gets_next_state_adder_from_forked_cascade() {
    let test: Cascade<Fork<Accumulator<i8>, Accumulator<i8>>, Adder<i8>> = StateMachine::new(((1i8, 2i8), 0i8));
    assert_eq!(test.get_next_state(&((0i8, 0i8), 0i8), &0i8), Ok(((0i8, 0i8), 0i8)));
    assert_eq!(test.get_next_state(&((2i8, 3i8), 0i8), &5i8), Ok(((7i8, 8i8), 15i8)));
}

#[test]
fn adder_it_gets_next_state_adder_from_forked_delays() {
    let test: Cascade<Fork<Delay<i8>, Delay<i8>>, Adder<i8>> = StateMachine::new(((1i8, 2i8), 0i8));
    assert_eq!(test.get_next_state(&((0i8, 0i8), 0i8), &0i8), Ok(((0i8, 0i8), 0i8)));
    assert_eq!(test.get_next_state(&((2i8, 3i8), 0i8), &7i8), Ok(((7i8, 7i8), 5i8)));
}

// Delay

#[test]
fn delay_it_gets_next_values_some() {
    let test = Delay::new(0i8);
    assert_eq!(test.get_next_values_wrap_unwrap(&0i8, &1i8), (1i8, 0i8));
    assert_eq!(test.get_next_values_wrap_unwrap(&2i8, &3i8), (3i8, 2i8));
    assert_eq!(test.get_next_values_wrap_unwrap(&4i8, &5i8), (5i8, 4i8));
}

#[test]
fn delay_it_gets_next_values_none() {
    let test = Delay::new(0i8);
    assert_eq!(test.get_next_values(&0i8, None), Ok((0i8, Some(0i8))));
}

#[test]
fn delay_it_steps() {
    let mut test = Delay::new(0i8);
    assert_eq!(test.step_unwrap(&1i8), 0i8);
    assert_eq!(test.state, 1i8);
    let mut basic = BasicDelay::new(0i8);
    assert_eq!(basic.step(&1i8), Ok(0i8));
    assert_eq!(basic.state, 1i8);
}

#[test]
fn delay_it_gets_next_state() {
    let test = Delay::new(0i8);
    assert_eq!(test.get_next_state(&0i8, &1i8), Ok(0i8));
    assert_eq!(test.get_next_state(&1i8, &0i8), Ok(1i8));
    let basic = BasicDelay::new(0i8);
    assert_eq!(basic.get_next_state(&0i8, &1i8), Ok(0i8));
    assert_eq!(basic.get_next_state(&1i8, &0i8), Ok(1i8));
}

#[test]
fn delay_it_checks_is_composite() {
    let test = Delay::new(0i8);
    assert_eq!(test.is_composite(), false);
}

// Gain (the machines here count in integers: the same values as integers)

#[test]
fn gain_it_gets_next_values() {
    let test = Gain::new(0i64);
    assert_eq!(test.get_next_values_wrap_unwrap(&0i64, &0i64), (0i64, 0i64));
    assert_eq!(test.get_next_values_wrap_unwrap(&0i64, &0i64), (0i64, 0i64));
    // the machine of the basic kind
    let basic = BasicGain::new(0i64);
    assert_eq!(basic.get_next_values(&0i64, &0i64), Ok((0i64, 0i64)));
    assert_eq!(basic.get_next_values(&0i64, &0i64), Ok((0i64, 0i64)));
}

#[test]
fn gain_it_steps() {
    let mut test = Gain::new(1i64);
    assert_eq!(test.step_unwrap(&1i64), 1i64);
    assert_eq!(test.step_unwrap(&1i64), 1i64);
    assert_eq!(test.k, 1i64);
    let mut basic = BasicGain::new(1i64);
    assert_eq!(basic.step(&1i64), Ok(1i64));
    assert_eq!(basic.step(&1i64), Ok(1i64));
    assert_eq!(basic.k, 1i64);
}

#[test]
fn gain_it_gets_next_state() {
    let test = Gain::new(0i64);
    assert_eq!(test.get_next_state(&1i64, &1i64), Ok(0i64));
    let test2 = Gain::new(5i64);
    assert_eq!(test2.get_next_state(&1i64, &1i64), Ok(5i64));
    assert_eq!(test2.get_next_state(&1i64, &2i64), Ok(10i64));
    let basic = BasicGain::new(0i64);
    assert_eq!(basic.get_next_state(&1i64, &1i64), Ok(0i64));
    let basic2 = BasicGain::new(5i64);
    assert_eq!(basic2.get_next_state(&1i64, &1i64), Ok(5i64));
    assert_eq!(basic2.get_next_state(&1i64, &2i64), Ok(10i64));
}

#[test]
fn gain_it_checks_is_composite() {
    let test = Gain::new(0i64);
    assert_eq!(test.is_composite(), false);
}

// Increment

#[test]
fn increment_it_gets_next_values_some() {
    let test = Increment::new(0i64);
    assert_eq!(test.get_next_values_wrap_unwrap(&0i64, &0i64), (0i64, 0i64));
    assert_eq!(test.get_next_values_wrap_unwrap(&0i64, &7i64), (0i64, 7i64));
    assert_eq!(test.get_next_values_wrap_unwrap(&7i64, &7i64), (7i64, 14i64));
}

#[test]
fn increment_it_gets_next_values_none() {
    let test = Increment::new(0i64);
    assert_eq!(test.get_next_values(&0i64, None), Ok((0i64, None)));
}

#[test]
fn increment_it_steps() {
    let mut test = Increment::new(1i64);
    assert_eq!(test.step_unwrap(&1i64), 2i64);
    assert_eq!(test.step_unwrap(&1i64), 2i64);
    assert_eq!(test.incr, 1i64);
    let mut basic = BasicIncrement::new(1i64);
    assert_eq!(basic.step(&1i64), Ok(2i64));
    assert_eq!(basic.step(&1i64), Ok(2i64));
    assert_eq!(basic.incr, 1i64);
}

#[test]
fn increment_it_gets_next_state() {
    let test = Increment::new(0i64);
    assert_eq!(test.get_next_state(&1i64, &1i64), Ok(1i64));
    assert_eq!(test.get_next_state(&5i64, &7i64), Ok(5i64));
    let basic = BasicIncrement::new(0i64);
    assert_eq!(basic.get_next_state(&1i64, &1i64), Ok(2i64));
    assert_eq!(basic.get_next_state(&5i64, &7i64), Ok(12i64));
}

#[test]
fn increment_it_checks_is_composite() {
    let test = Increment::new(0i64);
    assert_eq!(test.is_composite(), false);
}

// Multiplier

#[test]
fn multiplier_it_gets_next_values_input_some_none() {
    let test = Multiplier::new(0i8);
    assert_eq!(test.get_next_values_wrap_unwrap(&0i8, &(Some(0i8), None)), (0i8, 0i8));
    assert_eq!(test.get_next_values_wrap_unwrap(&0i8, &(Some(10i8), None)), (10i8, 10i8));
}

#[test]
fn multiplier_it_gets_next_values_input_none_some() {
    let test = Multiplier::new(0i8);
    assert_eq!(test.get_next_values_wrap_unwrap(&0i8, &(None, Some(0i8))), (0i8, 0i8));
    assert_eq!(test.get_next_values_wrap_unwrap(&0i8, &(None, Some(10i8))), (10i8, 10i8));
}

#[test]
fn multiplier_it_gets_next_values_some() {
    let test = Multiplier::new(0i8);
    assert_eq!(test.get_next_values_wrap_unwrap(&0i8, &(Some(0i8), Some(0i8))), (0i8, 0i8));
    assert_eq!(test.get_next_values_wrap_unwrap(&0i8, &(Some(5i8), Some(7i8))), (35i8, 35i8));
    assert_eq!(test.get_next_values_wrap_unwrap(&0i8, &(Some(1i8), Some(0i8))), (0i8, 0i8));
    assert_eq!(test.get_next_values_wrap_unwrap(&0i8, &(Some(0i8), Some(1i8))), (0i8, 0i8));
}

#[test]
fn multiplier_it_gets_next_values_none() {
    let test = Multiplier::new(0i8);
    assert_eq!(test.get_next_values(&0i8, None), Ok((0i8, Some(0i8))));
    assert_eq!(test.get_next_values(&1i8, None), Ok((1i8, Some(1i8))));
}

#[test]
fn multiplier_it_gets_next_state() {
    let test = Multiplier::new(0i8);
    assert_eq!(test.get_next_state(&0i8, &(Some(0i8), Some(0i8))), Ok(0i8));
    assert_eq!(test.get_next_state(&0i8, &(Some(0i8), Some(1i8))), Ok(0i8));
    assert_eq!(test.get_next_state(&5i8, &(Some(3i8), Some(7i8))), Ok(21i8));
}

#[test]
fn multiplier_it_checks_is_composite() {
    let test = Multiplier::new(0i8);
    assert_eq!(test.is_composite(), true);
}

// Cascade

#[test]
fn cascade_it_cascades_accumulators_next_values() {
    let test: Cascade<Accumulator<i8>, Accumulator<i8>> = Cascade::new((1i8, 2i8));
    assert_eq!(test.get_next_values_wrap_unwrap(&(0i8, 0i8), &0i8), ((0i8, 0i8), 0i8));
    assert_eq!(test.get_next_values_wrap_unwrap(&(3i8, 5i8), &7i8), ((10i8, 15i8), 15i8));
    assert_eq!(test.get_next_values_wrap_unwrap(&(3i8, 5i8), &7i8), ((10i8, 15i8), 15i8));
    // the machines of the basic kind (whose accumulator counts in i64)
    let basic: BasicCascade<BasicAccumulator, BasicAccumulator> = BasicCascade::new((1i64, 2i64));
    assert_eq!(basic.get_next_values(&(0i64, 0i64), &0i64), Ok(((0i64, 0i64), 0i64)));
    assert_eq!(basic.get_next_values(&(3i64, 5i64), &7i64), Ok(((10i64, 15i64), 15i64)));
    assert_eq!(basic.get_next_values(&(3i64, 5i64), &7i64), Ok(((10i64, 15i64), 15i64)));
}

#[test]
fn cascade_it_cascades_accumulators_steps() {
    let mut test: Cascade<Accumulator<i8>, Accumulator<i8>> = Cascade::new((1i8, 2i8));
    assert_eq!(test.step_unwrap(&3i8), 6i8);
    assert_eq!(test.state, (4i8, 6i8));
    assert_ne!(test.step_unwrap(&3i8), 6i8);
    assert_ne!(test.state, (4i8, 6i8));
    let mut basic: BasicCascade<BasicAccumulator, BasicAccumulator> = BasicCascade::new((1i64, 2i64));
    assert_eq!(basic.step(&3i64), Ok(6i64));
    assert_eq!(basic.state, (4i64, 6i64));
    assert_ne!(basic.step(&3i64), Ok(6i64));
    assert_ne!(basic.state, (4i64, 6i64));
}

#[test]
fn cascade_it_cascades_delay_to_increment() {
    let mut test: Cascade<Delay<i64>, Increment<i64>> = Cascade::new((100i64, 1i64));
    assert_eq!(test.step_unwrap(&3i64), 101i64);
    assert_eq!(test.state, (3i64, 1i64));
    assert_eq!(test.step_unwrap(&2i64), 4i64);
    assert_eq!(test.state, (2i64, 1i64));
    // in the basic kind the increment's next state is kept in the pair
    let mut basic: BasicCascade<BasicDelay<i64>, BasicIncrement<i64>> = BasicCascade::new((100i64, 1i64));
    assert_eq!(basic.step(&3i64), Ok(101i64));
    assert_eq!(basic.state, (3i64, 101i64));
    assert_eq!(basic.step(&2i64), Ok(104i64));
    assert_eq!(basic.state, (2i64, 104i64));
}

#[test]
fn cascade_it_cascades_increment_to_delay() {
    let mut test: Cascade<Increment<i64>, Delay<i64>> = Cascade::new((1i64, 100i64));
    assert_eq!(test.step_unwrap(&3i64), 100i64);
    assert_eq!(test.state, (1i64, 4i64));
    assert_eq!(test.step_unwrap(&2i64), 4i64);
    assert_eq!(test.state, (1i64, 3i64));
    let mut basic: BasicCascade<BasicIncrement<i64>, BasicDelay<i64>> = BasicCascade::new((1i64, 100i64));
    assert_eq!(basic.step(&3i64), Ok(100i64));
    assert_eq!(basic.state, (4i64, 4i64));
    assert_eq!(basic.step(&2i64), Ok(4i64));
    assert_eq!(basic.state, (6i64, 6i64));
}

#[test]
fn it_cascades_increment_to_delay_next_values_none() {
    let test: Cascade<Increment<i64>, Delay<i64>> = Cascade::new((2i64, 3i64));
    assert_eq!(test.get_next_values(&(2i64, 3i64), None), Ok(((2i64, 3i64), Some(3i64))));
    assert_eq!(test.get_next_values_wrap_unwrap(&(2i64, 3i64), &3i64), ((2i64, 5i64), 3i64));
    assert_eq!(test.get_next_values_wrap_unwrap(&(2i64, 5i64), &3i64), ((2i64, 5i64), 5i64));
    assert_eq!(test.get_next_values_wrap_unwrap(&(2i64, 5i64), &5i64), ((2i64, 7i64), 5i64));
    assert_eq!(test.get_next_values_wrap_unwrap(&(2i64, 7i64), &5i64), ((2i64, 7i64), 7i64));
    assert_eq!(test.get_next_values_wrap_unwrap(&(2i64, 7i64), &7i64), ((2i64, 9i64), 7i64));
    assert_eq!(test.get_next_values_wrap_unwrap(&(2i64, 9i64), &7i64), ((2i64, 9i64), 9i64));
    assert_eq!(test.get_next_values_wrap_unwrap(&(2i64, 9i64), &9i64), ((2i64, 11i64), 9i64));
    assert_eq!(test.get_next_values_wrap_unwrap(&(2i64, 11i64), &9i64), ((2i64, 11i64), 11i64));
}

#[test]
fn cascade_it_checks_is_composite() {
    let test: Cascade<Increment<i64>, Delay<i64>> = Cascade::new((2i64, 3i64));
    assert_eq!(test.is_composite(), true);
}

#[test]
fn it_forks_two_delays_plus_wire() {
    let mut test: Cascade<Fork<Wire<i64>, Cascade<Delay<i64>, Delay<i64>>>, Adder<i64>> =
        StateMachine::new(((0i64, (0i64, 1i64)), 0i64));
    assert_eq!(test.step(None, true, 0), Ok(Some(1i64)));
    assert_eq!(test.step(Some(&1i64), true, 0), Ok(Some(1i64)));
    assert_eq!(test.step(Some(&1i64), true, 0), Ok(Some(1i64)));
    assert_eq!(test.step(Some(&1i64), true, 0), Ok(Some(2i64)));
    assert_eq!(test.step(Some(&2i64), true, 0), Ok(Some(3i64)));
    assert_eq!(test.step(Some(&3i64), true, 0), Ok(Some(4i64)));
    assert_eq!(test.step(Some(&4i64), true, 0), Ok(Some(6i64)));
}

// Feedback

#[test]
fn feedback_it_cascades_accumulators_next_values() {
    let test: Cascade<Accumulator<i8>, Accumulator<i8>> = Cascade::new((1i8, 2i8));
    assert_eq!(test.get_next_values(&(0i8, 0i8), Some(&0i8)), Ok(((0i8, 0i8), Some(0i8))));
    assert_eq!(test.get_next_values(&(3i8, 5i8), Some(&7i8)), Ok(((10i8, 15i8), Some(15i8))));
    assert_eq!(test.get_next_values(&(3i8, 5i8), Some(&7i8)), Ok(((10i8, 15i8), Some(15i8))));
}

#[test]
fn feedback_it_cascades_accumulators_steps() {
    let mut test: Cascade<Accumulator<i8>, Accumulator<i8>> = Cascade::new((1i8, 2i8));
    assert_eq!(test.step(Some(&3i8), false, 0), Ok(Some(6i8)));
    assert_eq!(test.state, (4i8, 6i8));
    assert_ne!(test.step(Some(&3i8), false, 0), Ok(Some(6i8)));
    assert_ne!(test.state, (4i8, 6i8));
}

#[test]
fn it_feedbacks_cascades_increment_to_delay_next_val() {
    let test: Feedback<Cascade<Increment<i64>, Delay<i64>>> = StateMachine::new((2i64, 3i64));
    assert_eq!(test.get_next_values(&(0i64, 0i64), Some(&0i64)), Ok(((0i64, 0i64), Some(0i64))));
}

// Fork

#[test]
fn fork_it_get_next_values_accumulators() {
    let test: Fork<Accumulator<i8>, Accumulator<i8>> = Fork::new((1i8, 2i8));
    assert_eq!(
        test.get_next_values_wrap_unwrap(&(0i8, 0i8), &0i8),
        ((0i8, 0i8), DualValues { val1: Some(0i8), val2: Some(0i8) })
    );
    assert_eq!(
        test.get_next_values_wrap_unwrap(&(3i8, 5i8), &7i8),
        ((10i8, 12i8), DualValues { val1: Some(10i8), val2: Some(12i8) })
    );
    assert_eq!(
        test.get_next_values_wrap_unwrap(&(3i8, 5i8), &7i8),
        ((10i8, 12i8), DualValues { val1: Some(10i8), val2: Some(12i8) })
    );
}

#[test]
fn fork_it_get_next_state_accumulators() {
    let test: Fork<Accumulator<i8>, Accumulator<i8>> = Fork::new((1i8, 2i8));
    assert_eq!(test.get_next_state(&(0i8, 0i8), &0i8), Ok((0i8, 0i8)));
    assert_eq!(test.get_next_state(&(3i8, 5i8), &7i8), Ok((10i8, 12i8)));
    assert_eq!(test.get_next_state(&(3i8, 5i8), &7i8), Ok((10i8, 12i8)));
}

#[test]
fn fork_it_steps_accumulators() {
    let mut test: Fork<Accumulator<i8>, Accumulator<i8>> = Fork::new((1i8, 2i8));
    assert_eq!(test.step_unwrap(&3i8), DualValues { val1: Some(4i8), val2: Some(5i8) });
    assert_eq!(test.state, (4i8, 5i8));
    assert_eq!(test.step_unwrap(&5i8), DualValues { val1: Some(9i8), val2: Some(10i8) });
    assert_eq!(test.state, (9i8, 10i8));
}

#[test]
fn fork_it_steps_increments() {
    let mut test: Fork<Increment<i64>, Increment<i64>> = Fork::new((100i64, 1i64));
    assert_eq!(test.step_unwrap(&3i64), DualValues { val1: Some(103i64), val2: Some(4i64) });
    assert_eq!(test.state, (100i64, 1i64));
    assert_eq!(test.step_unwrap(&2i64), DualValues { val1: Some(102i64), val2: Some(3i64) });
    assert_eq!(test.state, (100i64, 1i64));
}

#[test]
fn fork_it_checks_is_composite() {
    let test: Fork<Accumulator<i8>, Accumulator<i8>> = Fork::new((1i8, 2i8));
    assert_eq!(test.is_composite(), true);
}

// Parallel

#[test]
fn parallel_it_get_next_values_accumulators() {
    let test =
        ParallelBuilder::new().with_path1(Accumulator::new(1i8)).with_path2(Accumulator::new(2i8)).build().unwrap();
    assert_eq!(test.get_next_values_wrap_unwrap(&(0i8, 0i8), &(0i8, 0i8)), ((0i8, 0i8), (Some(0i8), Some(0i8))));
    assert_eq!(
        test.get_next_values_wrap_unwrap(&(3i8, 5i8), &(7i8, 7i8)),
        ((10i8, 12i8), (Some(10i8), Some(12i8)))
    );
    assert_eq!(
        test.get_next_values_wrap_unwrap(&(3i8, 5i8), &(7i8, 7i8)),
        ((10i8, 12i8), (Some(10i8), Some(12i8)))
    );
}

#[test]
fn parallel_it_get_next_state_accumulators() {
    let test =
        ParallelBuilder::new().with_path1(Accumulator::new(1i8)).with_path2(Accumulator::new(2i8)).build().unwrap();
    assert_eq!(test.get_next_state(&(0i8, 0i8), &(0i8, 0i8)), Ok((0i8, 0i8)));
    assert_eq!(test.get_next_state(&(3i8, 5i8), &(7i8, 7i8)), Ok((10i8, 12i8)));
    assert_eq!(test.get_next_state(&(3i8, 5i8), &(7i8, 7i8)), Ok((10i8, 12i8)));
}

#[test]
fn parallel_it_steps_accumulators() {
    let mut test =
        ParallelBuilder::new().with_path1(Accumulator::new(1i8)).with_path2(Accumulator::new(2i8)).build().unwrap();
    assert_eq!(test.step_unwrap(&(3i8, 3i8)), (Some(4i8), Some(5i8)));
    assert_eq!(test.state, (4i8, 5i8));
    assert_eq!(test.step_unwrap(&(5i8, 5i8)), (Some(9i8), Some(10i8)));
    assert_eq!(test.state, (9i8, 10i8));
}

#[test]
fn parallel_it_steps_increments() {
    let mut test =
        ParallelBuilder::new().with_path1(Increment::new(100i64)).with_path2(Increment::new(1i64)).build().unwrap();
    assert_eq!(test.step_unwrap(&(3i64, 3i64)), (Some(103i64), Some(4i64)));
    assert_eq!(test.state, (100i64, 1i64));
    assert_eq!(test.step_unwrap(&(2i64, 2i64)), (Some(102i64), Some(3i64)));
    assert_eq!(test.state, (100i64, 1i64));
}

#[test]
fn parallel_it_checks_is_composite() {
    let test =
        ParallelBuilder::new().with_path1(Accumulator::new(1i8)).with_path2(Accumulator::new(2i8)).build().unwrap();
    assert_eq!(test.is_composite(), true);
}

// Whole runs

#[test]
fn basic_test_accumulator() {
    let mut test = Accumulator::new(0i64);
    test.start();
    assert_eq!(test.step_unwrap(&10i64), 10i64);
    let mut test_transduce = Accumulator::new(0i64);
    let transduce_res: Vec<Result<i64, String>> =
        test_transduce.transduce_wrap_unwrap(vec![100i64, -3i64, 4i64, -123i64, 10i64], true, true);
    assert_eq!(transduce_res, vec![Ok(100i64), Ok(97i64), Ok(101i64), Ok(-22i64), Ok(-12i64)]);
    let mut basic = BasicAccumulator::new(0);
    basic.start();
    assert_eq!(basic.step(&10i64), Ok(10i64));
    let mut basic_transduce = BasicAccumulator::new(0);
    let transduce_res: Vec<Result<i64, String>> =
        basic_transduce.transduce(vec![100i64, -3i64, 4i64, -123i64, 10i64], true, true);
    assert_eq!(transduce_res, vec![Ok(100i64), Ok(97i64), Ok(101i64), Ok(-22i64), Ok(-12i64)]);
}

#[test]
fn basic_test_gain() {
    let mut test_transduce = Gain::new(3i64);
    let transduce_res: Vec<Result<i64, String>> =
        test_transduce.transduce_wrap_unwrap(vec![10i64, -3i64, 4i64, -123i64, 10i64], true, true);
    assert_eq!(transduce_res, vec![Ok(30i64), Ok(-9i64), Ok(12i64), Ok(-369i64), Ok(30i64)]);
    let mut basic_transduce = BasicGain::new(3i64);
    let transduce_res: Vec<Result<i64, String>> =
        basic_transduce.transduce(vec![10i64, -3i64, 4i64, -123i64, 10i64], true, true);
    assert_eq!(transduce_res, vec![Ok(30i64), Ok(-9i64), Ok(12i64), Ok(-369i64), Ok(30i64)]);
}

#[test]
fn basic_test_delay() {
    let mut test_transduce = Delay::new(7i64);
    let transduce_res: Vec<Result<i64, String>> = test_transduce.transduce_wrap_unwrap(vec![3, 1, 2, 5, 9], true, true);
    assert_eq!(transduce_res, vec![Ok(7), Ok(3), Ok(1), Ok(2), Ok(5)]);
    let mut test_transduce2 = Delay::new(100i64);
    let transduce_res: Vec<Result<i64, String>> =
        test_transduce2.transduce_wrap_unwrap(vec![3, 1, 2, 5, 9], true, true);
    assert_eq!(transduce_res, vec![Ok(100), Ok(3), Ok(1), Ok(2), Ok(5)]);
    let mut basic_transduce = BasicDelay::new(7i64);
    let transduce_res: Vec<Result<i64, String>> = basic_transduce.transduce(vec![3, 1, 2, 5, 9], true, true);
    assert_eq!(transduce_res, vec![Ok(7), Ok(3), Ok(1), Ok(2), Ok(5)]);
    let mut basic_transduce2 = BasicDelay::new(100i64);
    let transduce_res: Vec<Result<i64, String>> = basic_transduce2.transduce(vec![3, 1, 2, 5, 9], true, true);
    assert_eq!(transduce_res, vec![Ok(100), Ok(3), Ok(1), Ok(2), Ok(5)]);
}

#[test]
fn test_increment() {
    let mut test_transduce = Increment::new(3i64);
    let transduce_res: Vec<Result<i64, String>> =
        test_transduce.transduce_wrap_unwrap(vec![1i64, 2i64, 3i64, 4i64, 5i64], true, true);
    assert_eq!(transduce_res, vec![Ok(4i64), Ok(5i64), Ok(6i64), Ok(7i64), Ok(8i64)]);
}

// Machines of the basic kind only

#[test]
fn increment_it_gets_next_values() {
    let test = BasicIncrement::new(0i64);
    assert_eq!(test.get_next_values(&0i64, &0i64), Ok((0i64, 0i64)));
    assert_eq!(test.get_next_values(&0i64, &0i64), Ok((0i64, 0i64)));
}

#[test]
fn delay_it_gets_next_values() {
    let test = BasicDelay::new(0i8);
    assert_eq!(test.get_next_values(&0i8, &1i8), Ok((1i8, 0i8)));
    assert_eq!(test.get_next_values(&2i8, &3i8), Ok((3i8, 2i8)));
    assert_eq!(test.get_next_values(&4i8, &5i8), Ok((5i8, 4i8)));
}

#[test]
fn sumlast3_it_gets_next_values() {
    let test = SumLast3::new((0i8, 1i8));
    assert_eq!(test.get_next_values(&(0i8, 0i8), &1i8), Ok(((0i8, 1i8), 1i8)));
    assert_eq!(test.get_next_values(&(5i8, 7i8), &3i8), Ok(((7i8, 3i8), 15i8)));
    assert_eq!(test.get_next_values(&(3i8, 1i8), &5i8), Ok(((1i8, 5i8), 9i8)));
}

#[test]
fn sumlast3_it_steps() {
    let mut test = SumLast3::new((0i8, 1i8));
    assert_eq!(test.step(&2i8), Ok(3i8));
    assert_eq!(test.state, (1i8, 2i8));
}

#[test]
fn sumlast3_it_gets_next_state() {
    let test = SumLast3::new((0i8, 0i8));
    assert_eq!(test.get_next_state(&(0i8, 0i8), &1i8), Ok((0i8, 1i8)));
    assert_eq!(test.get_next_state(&(1i8, 3i8), &5i8), Ok((3i8, 5i8)));
    assert_eq!(test.get_next_state(&(5i8, 3i8), &1i8), Ok((3i8, 1i8)));
}

#[test]
fn test_sumlast3() {
    let mut test_transduce = SumLast3::new((0i64, 0i64));
    let transduce_res: Vec<Result<i64, String>> = test_transduce.transduce(vec![2, 1, 3, 4, 10, 1, 2, 1, 5], true, true);
    assert_eq!(transduce_res, vec![Ok(2), Ok(3), Ok(6), Ok(8), Ok(17), Ok(15), Ok(13), Ok(4), Ok(8)]);
    test_transduce.start();
    assert_eq!(test_transduce.state, (0i64, 0i64));
}

#[test]
fn it_sums_and_delays_in_the_basic_kind() {
    // a basic accumulator restarts from its start state
    let mut acc = BasicAccumulator::new(5);
    assert_eq!(acc.transduce(vec![1, 2, 3], false, false), vec![Ok(6), Ok(8), Ok(11)]);
    acc.start();
    assert_eq!(acc.state, 5);
    // a basic delay restarts from zero
    let mut delay = BasicDelay::new(9i64);
    assert_eq!(delay.step(&4), Ok(9));
    delay.start();
    assert_eq!(delay.state, 0);
}
