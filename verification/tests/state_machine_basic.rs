use ocw_labs::state_machine::abc::ABC;
use ocw_labs::state_machine::negation::Negation;
use ocw_labs::state_machine::simple_parking_gate::{GatePosition, GateSensors, GateState, SimpleParkingGate};
use ocw_labs::state_machine::updown::UpDown;
use ocw_labs::state_machine::wire::Wire;
use ocw_labs::state_machine::{DualValues, StateMachine, Transducer};
use ocw_labs::basic;
use ocw_labs::basic::StateMachine as BasicStateMachine;

#[test]
fn abc_it_gets_next_values_good_seq() {
    let test = ABC::new(0);
    assert_eq!(test.get_next_values(&0i8, Some(&'a')), Ok((1i8, Some(true))));
    assert_eq!(test.get_next_values(&1i8, Some(&'b')), Ok((2i8, Some(true))));
    assert_eq!(test.get_next_values(&2i8, Some(&'c')), Ok((0i8, Some(true))));
    assert_eq!(test.get_next_values(&0i8, Some(&'a')), Ok((1i8, Some(true))));
    assert_eq!(test.get_next_values(&1i8, Some(&'b')), Ok((2i8, Some(true))));
    assert_eq!(test.get_next_values(&2i8, Some(&'c')), Ok((0i8, Some(true))));
    let test = basic::abc::ABC::new(0);
    assert_eq!(test.get_next_values(&0i8, &'a'), Ok((1i8, true)));
    assert_eq!(test.get_next_values(&1i8, &'b'), Ok((2i8, true)));
    assert_eq!(test.get_next_values(&2i8, &'c'), Ok((0i8, true)));
    assert_eq!(test.get_next_values(&0i8, &'a'), Ok((1i8, true)));
    assert_eq!(test.get_next_values(&1i8, &'b'), Ok((2i8, true)));
    assert_eq!(test.get_next_values(&2i8, &'c'), Ok((0i8, true)));
}

#[test]
fn abc_it_gets_next_values_bad_seq() {
    let test = ABC::new(0);
    assert_eq!(test.get_next_values(&2i8, Some(&'b')), Ok((3i8, Some(false))));
    let test = basic::abc::ABC::new(0);
    assert_eq!(test.get_next_values(&2i8, &'b'), Ok((3i8, false)));
}

#[test]
fn abc_it_gets_next_values_bad_char() {
    let test = ABC::new(0);
    assert_eq!(test.get_next_values(&2i8, Some(&'d')), Err("Unsupported character".to_string()));
    let test = basic::abc::ABC::new(0);
    assert_eq!(test.get_next_values(&2i8, &'d'), Err("Unsupported character".to_string()));
}

#[test]
fn abc_it_steps_good_seq() {
    let mut test = ABC::new(0);
    assert_eq!(test.step_unwrap(&'a'), true);
    assert_eq!(test.state, 1);
    let mut test = basic::abc::ABC::new(0);
    assert_eq!(test.step(&'a'), Ok(true));
    assert_eq!(test.state, 1);
}

#[test]
fn abc_it_steps_bad_seq() {
    let mut test = ABC::new(0);
    assert_eq!(test.step_unwrap(&'a'), true);
    assert_eq!(test.step_unwrap(&'a'), false);
    assert_eq!(test.step_unwrap(&'a'), false);
    assert_eq!(test.step_unwrap(&'a'), false);
    assert_eq!(test.step_unwrap(&'a'), false);
    assert_eq!(test.state, 3);
    let mut test = basic::abc::ABC::new(0);
    assert_eq!(test.step(&'a'), Ok(true));
    assert_eq!(test.step(&'a'), Ok(false));
    assert_eq!(test.step(&'a'), Ok(false));
    assert_eq!(test.step(&'a'), Ok(false));
    assert_eq!(test.step(&'a'), Ok(false));
    assert_eq!(test.state, 3);
}

#[test]
fn abc_it_gets_next_state() {
    let test = ABC::new(0);
    assert_eq!(test.get_next_state(&0i8, &'a'), Ok(0i8));
    assert_eq!(test.get_next_state(&1i8, &'b'), Ok(0i8));
    assert_eq!(test.get_next_state(&2i8, &'c'), Ok(0i8));
    assert_eq!(test.get_next_state(&0i8, &'a'), Ok(0i8));
    assert_eq!(test.get_next_state(&1i8, &'b'), Ok(0i8));
    assert_eq!(test.get_next_state(&2i8, &'c'), Ok(0i8));
    let test = basic::abc::ABC::new(0);
    assert_eq!(test.get_next_state(&0i8, &'a'), Ok(0i8));
    assert_eq!(test.get_next_state(&1i8, &'b'), Ok(0i8));
    assert_eq!(test.get_next_state(&2i8, &'c'), Ok(0i8));
    assert_eq!(test.get_next_state(&0i8, &'a'), Ok(0i8));
    assert_eq!(test.get_next_state(&1i8, &'b'), Ok(0i8));
    assert_eq!(test.get_next_state(&2i8, &'c'), Ok(0i8));
}

#[test]
fn abc_it_checks_is_composite() {
    let test = ABC::new(0);
    assert_eq!(test.is_composite(), false);
}

#[test]
fn it_compares_eq_dualvalues() {
    let lhs = DualValues { val1: Some(3), val2: Some("a".to_string()) };
    let rhs = DualValues { val1: Some(3), val2: Some("a".to_string()) };
    assert_eq!(lhs, rhs);
    let lhs: DualValues<u8, u8> = DualValues { val1: None, val2: None };
    let rhs: DualValues<u8, u8> = DualValues { val1: None, val2: None };
    assert_eq!(lhs, rhs);
    let lhs: DualValues<u8, u8> = DualValues { val1: Some(3), val2: None };
    let rhs: DualValues<u8, u8> = DualValues { val1: Some(3), val2: None };
    assert_eq!(lhs, rhs);
    let lhs: DualValues<u8, String> = DualValues { val1: None, val2: Some("a".to_string()) };
    let rhs: DualValues<u8, String> = DualValues { val1: None, val2: Some("a".to_string()) };
    assert_eq!(lhs, rhs);
}

#[test]
fn it_compares_ne_dualvalues() {
    let lhs = DualValues { val1: Some(3), val2: Some("a".to_string()) };
    let rhs = DualValues { val1: Some(7), val2: Some("a".to_string()) };
    assert_ne!(lhs, rhs);
    let lhs = DualValues { val1: Some(3), val2: Some("a".to_string()) };
    let rhs = DualValues { val1: Some(3), val2: Some("b".to_string()) };
    assert_ne!(lhs, rhs);
    let lhs: DualValues<u8, String> = DualValues { val1: None, val2: Some("a".to_string()) };
    let rhs: DualValues<u8, String> = DualValues { val1: Some(3), val2: Some("a".to_string()) };
    assert_ne!(lhs, rhs);
    let lhs: DualValues<u8, String> = DualValues { val1: Some(3), val2: None };
    let rhs = DualValues { val1: Some(3), val2: Some("a".to_string()) };
    assert_ne!(lhs, rhs);
    let lhs: DualValues<u8, String> = DualValues { val1: Some(3), val2: Some("a".to_string()) };
    let rhs: DualValues<u8, String> = DualValues { val1: None, val2: Some("a".to_string()) };
    assert_ne!(lhs, rhs);
    let lhs: DualValues<u8, String> = DualValues { val1: Some(3), val2: Some("a".to_string()) };
    let rhs: DualValues<u8, String> = DualValues { val1: Some(3), val2: None };
    assert_ne!(lhs, rhs);
}

#[test]
fn negation_it_gets_next_values() {
    let test = Negation::new(false);
    assert_eq!(test.get_next_values_wrap_unwrap(&false, &false), (true, true));
    assert_eq!(test.get_next_values_wrap_unwrap(&false, &true), (false, false));
    assert_eq!(test.get_next_values_wrap_unwrap(&true, &false), (true, true));
    assert_eq!(test.get_next_values_wrap_unwrap(&true, &true), (false, false));
}

#[test]
fn negation_it_steps() {
    let mut test = Negation::new(false);
    assert_eq!(test.step_unwrap(&false), true);
    assert_eq!(test.state, true);
}

#[test]
fn negation_it_gets_next_state() {
    let test = Negation::new(false);
    assert_eq!(test.get_next_state(&false, &false), Ok(true));
    assert_eq!(test.get_next_state(&false, &true), Ok(false));
    assert_eq!(test.get_next_state(&true, &false), Ok(true));
    assert_eq!(test.get_next_state(&true, &true), Ok(false));
}

#[test]
fn negation_it_checks_is_composite() {
    let test = Negation::new(true);
    assert_eq!(test.is_composite(), false);
}

#[test]
fn simple_parking_gate_it_gets_next_values_gate_down_no_car() {
    let test = SimpleParkingGate::new(GateState::Waiting);
    assert_eq!(
        test.get_next_values(
            &GateState::Waiting,
            Some(&GateSensors { car_at_gate: false, car_just_existed: false, position: GatePosition::Bottom })
        ),
        Ok((GateState::Waiting, None))
    );
    assert_eq!(
        test.get_next_values_wrap_unwrap(
            &GateState::Raising,
            &GateSensors { car_at_gate: false, car_just_existed: false, position: GatePosition::Bottom }
        ),
        (GateState::Raising, "raise".to_string())
    );
    assert_eq!(
        test.get_next_values(
            &GateState::Raised,
            Some(&GateSensors { car_at_gate: false, car_just_existed: false, position: GatePosition::Bottom })
        ),
        Err("GatePosition and GateState sensors have invalid data".to_string())
    );
    assert_eq!(
        test.get_next_values(
            &GateState::Lowering,
            Some(&GateSensors { car_at_gate: false, car_just_existed: false, position: GatePosition::Bottom })
        ),
        Ok((GateState::Waiting, None))
    );
    let test = basic::simple_parking_gate::SimpleParkingGate::new(GateState::Waiting);
    assert_eq!(
        test.get_next_values(
            &GateState::Waiting,
            &GateSensors { car_at_gate: false, car_just_existed: false, position: GatePosition::Bottom }
        ),
        Ok((GateState::Waiting, "nop".to_string()))
    );
    assert_eq!(
        test.get_next_values(
            &GateState::Raising,
            &GateSensors { car_at_gate: false, car_just_existed: false, position: GatePosition::Bottom }
        ),
        Ok((GateState::Raising, "raise".to_string()))
    );
    assert_eq!(
        test.get_next_values(
            &GateState::Raised,
            &GateSensors { car_at_gate: false, car_just_existed: false, position: GatePosition::Bottom }
        ),
        Err("GatePosition and GateState sensors have invalid data".to_string())
    );
    assert_eq!(
        test.get_next_values(
            &GateState::Lowering,
            &GateSensors { car_at_gate: false, car_just_existed: false, position: GatePosition::Bottom }
        ),
        Ok((GateState::Waiting, "nop".to_string()))
    );
}

#[test]
fn simple_parking_gate_it_checks_is_composite() {
    let test = SimpleParkingGate::new(GateState::Waiting);
    assert_eq!(test.is_composite(), false);
}

#[test]
fn updown_it_gets_next_values() {
    let test = UpDown::new(0i64);
    assert_eq!(test.get_next_values_wrap_unwrap(&0i64, &'d'), (-1i64, -1i64));
    assert_eq!(test.get_next_values_wrap_unwrap(&0i64, &'u'), (1i64, 1i64));
}

#[test]
fn updown_it_steps() {
    let mut test = UpDown::new(0i64);
    assert_eq!(test.step_unwrap(&'d'), -1i64);
    assert_eq!(test.state, -1i64);
}

#[test]
fn updown_it_gets_next_state() {
    let test = UpDown::new(0i64);
    assert_eq!(test.get_next_state(&0i64, &'d'), Ok(-1i64));
    assert_eq!(test.get_next_state(&-1i64, &'u'), Ok(0i64));
    assert_eq!(test.get_next_state(&0i64, &'u'), Ok(1i64));
}

#[test]
fn updown_it_checks_is_composite() {
    let test = UpDown::new(0i64);
    assert_eq!(test.is_composite(), false);
}

#[test]
fn wire_it_gets_next_values_some() {
    let test = Wire::new(0);
    assert_eq!(test.get_next_values_wrap_unwrap(&0i8, &1i8), (1i8, 1i8));
    assert_eq!(test.get_next_values_wrap_unwrap(&2i8, &3i8), (3i8, 3i8));
    assert_eq!(test.get_next_values_wrap_unwrap(&4i8, &5i8), (5i8, 5i8));
}

#[test]
fn wire_it_gets_next_values_none() {
    let test = Wire::new(0);
    assert_eq!(test.get_next_values(&0i8, None), Ok((0i8, Some(0i8))));
}

#[test]
fn wire_it_steps() {
    let mut test = Wire::new(0);
    assert_eq!(test.step_unwrap(&1i8), 1i8);
    assert_eq!(test.state, 1i8);
}

#[test]
fn wire_it_gets_next_state() {
    let test = Wire::new(0);
    assert_eq!(test.get_next_state(&0i8, &1i8), Ok(1i8));
    assert_eq!(test.get_next_state(&1i8, &0i8), Ok(0i8));
}

#[test]
fn wire_it_checks_is_composite() {
    let test = Wire::new(0);
    assert_eq!(test.is_composite(), false);
}

#[test]
fn simple_parking_gate_it_traces() {
    let gate: SimpleParkingGate = StateMachine::new(GateState::Raising);
    assert_eq!(gate.verbose_state(), "State: Raising".to_string());
    assert_eq!(gate.verbose_input(None), "None".to_string());
    let sensors = GateSensors { position: GatePosition::Middle, car_at_gate: true, car_just_existed: false };
    assert_eq!(
        gate.verbose_input(Some(&sensors)),
        "In: (Car At Gate: true, Car Just Exited: false, Gate Position: Middle)".to_string()
    );
    assert_eq!(gate.verbose_output(None), "Out: nop".to_string());
    assert_eq!(gate.verbose_output(Some(&"raise".to_string())), "Out: raise".to_string());
}

#[test]
fn test_simple_parking_gate() {
    let mut test_transduce = SimpleParkingGate::new(GateState::Waiting);
    let s = |car_at_gate: bool, car_just_existed: bool, position: GatePosition| GateSensors {
        car_at_gate,
        car_just_existed,
        position,
    };
    let test_input = vec![
        s(false, false, GatePosition::Bottom),
        s(true, false, GatePosition::Bottom),
        s(true, false, GatePosition::Bottom),
        s(true, false, GatePosition::Middle),
        s(true, false, GatePosition::Middle),
        s(true, false, GatePosition::Middle),
        s(true, false, GatePosition::Top),
        s(true, false, GatePosition::Top),
        s(true, false, GatePosition::Top),
        s(true, true, GatePosition::Top),
        s(true, true, GatePosition::Top),
        s(true, false, GatePosition::Top),
        s(true, false, GatePosition::Middle),
        s(true, false, GatePosition::Middle),
        s(true, false, GatePosition::Middle),
        s(true, false, GatePosition::Bottom),
        s(true, false, GatePosition::Bottom),
    ];
    let transduce_res: Vec<Result<String, String>> = test_transduce.transduce_wrap_unwrap(test_input, true, true);
    assert_eq!(
        transduce_res,
        vec![
            Ok("nop".to_string()),
            Ok("raise".to_string()),
            Ok("raise".to_string()),
            Ok("raise".to_string()),
            Ok("raise".to_string()),
            Ok("raise".to_string()),
            Ok("nop".to_string()),
            Ok("nop".to_string()),
            Ok("nop".to_string()),
            Ok("lower".to_string()),
            Ok("lower".to_string()),
            Ok("lower".to_string()),
            Ok("lower".to_string()),
            Ok("lower".to_string()),
            Ok("lower".to_string()),
            Ok("nop".to_string()),
            Ok("raise".to_string()),
        ]
    );
}
