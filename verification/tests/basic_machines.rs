use ocw_labs::basic::abc::ABC;
use ocw_labs::basic::selector::Selector;
use ocw_labs::basic::simple_parking_gate::{GatePosition, GateSensors, GateState, SimpleParkingGate};
use ocw_labs::basic::updown::UpDown;
use ocw_labs::basic::{StateMachine, Transducer};
use ocw_labs::state_machine;
use ocw_labs::state_machine::StateMachine as FullStateMachine;
use ocw_labs::state_machine::Transducer as FullTransducer;

#[test]
fn it_gets_next_values_good() {
    let test1 = Selector::new(0usize);
    assert_eq!(test1.get_next_values(&0usize, &vec!['a', 'b']), Ok((0usize, vec![])));
    let test2 = Selector::new(1usize);
    assert_eq!(test2.get_next_values(&1usize, &vec!['a', 'b']), Ok((1usize, vec!['a'])));
    let test3 = Selector::new(2usize);
    assert_eq!(test3.get_next_values(&1usize, &vec!['a', 'b']), Ok((2usize, vec!['a', 'b'])));
}

#[test]
fn it_gets_next_values_bad_range() {
    let test = Selector::new(100usize);
    assert_eq!(
        test.get_next_values(&3usize, &vec!['a', 'b']),
        Err("Requested index out of bounds".to_string())
    );
}

#[test]
fn selector_it_steps() {
    let mut test = Selector::new(0);
    assert_eq!(test.step(&vec!['a', 'b']), Ok(vec![]));
}

#[test]
fn selector_it_gets_next_state() {
    let test = Selector::<char>::new(1usize);
    assert_eq!(test.get_next_state(&1usize, &vec!['a']), Ok(1usize));
    assert_eq!(test.get_next_state(&2usize, &vec!['a']), Ok(1usize));
    assert_eq!(test.get_next_state(&3usize, &vec!['a']), Ok(1usize));
    assert_eq!(test.get_next_state(&4usize, &vec!['a']), Ok(1usize));
}

#[test]
fn basic_test_abc() {
    let mut test_transduce = ABC::new(0);
    let transduce_res: Vec<Result<bool, String>> = test_transduce.transduce(vec!['a', 'b', 'c', 'a', 'b'], true, true);
    assert_eq!(transduce_res, vec![Ok(true), Ok(true), Ok(true), Ok(true), Ok(true)]);
    let mut test_transduce2 = ABC::new(0);
    let transduce_res: Vec<Result<bool, String>> = test_transduce2.transduce(vec!['a', 'a', 'a'], true, true);
    assert_eq!(transduce_res, vec![Ok(true), Ok(false), Ok(false)]);
}

#[test]
fn basic_test_updown() {
    let mut test_transduce = UpDown::new(0);
    let transduce_res: Vec<Result<i64, String>> =
        test_transduce.transduce(vec!['u', 'u', 'u', 'd', 'd', 'u'], true, true);
    assert_eq!(transduce_res, vec![Ok(1), Ok(2), Ok(3), Ok(2), Ok(1), Ok(2)]);
    let transduce_res: Vec<Result<i64, String>> = test_transduce.transduce(vec!['o'], true, true);
    assert_eq!(transduce_res, vec![Err("Invalid char for UpDown".to_string())]);
}

#[test]
fn test_selector() {
    let max_items: usize = 3;
    let test_next_values = state_machine::selector::Selector::new(3usize);
    let vec1 = vec![2i64, 1i64, 3i64, 4i64];
    let vec2 = vec![4i64, 10i64];
    let next_state1: Result<(usize, Option<Vec<i64>>), String> =
        test_next_values.get_next_values(&max_items, Some(&vec1));
    assert_eq!(next_state1, Ok((max_items, Some(vec![2i64, 1i64, 3i64]))));
    let next_state2: Result<(usize, Option<Vec<i64>>), String> =
        test_next_values.get_next_values(&max_items, Some(&vec2));
    assert_eq!(next_state2, Err("Requested index out of bounds".to_string()));
    let vec1 = vec!['a', 'b', '.'];
    let vec2 = vec!['y', 'z'];
    let mut test_transduce = state_machine::selector::Selector::new(3usize);
    let transduce_res: Vec<Result<Vec<char>, String>> =
        test_transduce.transduce_wrap_unwrap(vec![vec1, vec2], true, true);
    assert_eq!(transduce_res, vec![Ok(vec!['a', 'b', '.']), Err("Requested index out of bounds".to_string())]);
}

#[test]
fn basic_parking_gate_transduces() {
    let mut test_transduce = SimpleParkingGate::new(GateState::Waiting);
    let s = |car_at_gate: bool, car_just_existed: bool, position: GatePosition| GateSensors {
        car_at_gate,
        car_just_existed,
        position,
    };
    let test_input = vec![
        s(false, false, GatePosition::Bottom),
        s(true, false, GatePosition::Bottom),
        s(true, false, GatePosition::Bottom),
        s(true, false, GatePosition::Middle),
        s(true, false, GatePosition::Middle),
        s(true, false, GatePosition::Middle),
        s(true, false, GatePosition::Top),
        s(true, false, GatePosition::Top),
        s(true, false, GatePosition::Top),
        s(true, true, GatePosition::Top),
        s(true, true, GatePosition::Top),
        s(true, false, GatePosition::Top),
        s(true, false, GatePosition::Middle),
        s(true, false, GatePosition::Middle),
        s(true, false, GatePosition::Middle),
        s(true, false, GatePosition::Bottom),
        s(true, false, GatePosition::Bottom),
    ];
    let transduce_res: Vec<Result<String, String>> = test_transduce.transduce(test_input, true, true);
    assert_eq!(
        transduce_res,
        vec![
            Ok("nop".to_string()),
            Ok("raise".to_string()),
            Ok("raise".to_string()),
            Ok("raise".to_string()),
            Ok("raise".to_string()),
            Ok("raise".to_string()),
            Ok("nop".to_string()),
            Ok("nop".to_string()),
            Ok("nop".to_string()),
            Ok("lower".to_string()),
            Ok("lower".to_string()),
            Ok("lower".to_string()),
            Ok("lower".to_string()),
            Ok("lower".to_string()),
            Ok("lower".to_string()),
            Ok("nop".to_string()),
            Ok("raise".to_string()),
        ]
    );
}
