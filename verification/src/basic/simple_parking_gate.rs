//! # SimpleParkingGate
//! The controller of a parking gate, whose every step tells the motor to
//! "raise", to "lower", or to do nothing ("nop").
use vstd::prelude::*;
use super::{StateMachine, pair_view};
use crate::state_machine::res_view;
pub use crate::state_machine::simple_parking_gate::{GatePosition, GateSensors, GateState};
use crate::state_machine::simple_parking_gate::gate_next;
use crate::text::text;

verus! {

broadcast use vstd::string::group_string_axioms;

pub struct SimpleParkingGate {
    pub state: GateState,
}

/// The command for the motor in a state: "raise" while raising, "lower"
/// while lowering, "nop" otherwise.
pub open spec fn gate_output(state: GateState) -> Seq<char> {
    match state {
        GateState::Raising => "raise"@,
        GateState::Lowering => "lower"@,
        _ => "nop"@,
    }
}

impl SimpleParkingGate {
    /// The command for the motor in a state.
    fn verbose_output(&self, state: GateState) -> (r: String)
        ensures
            r@ == gate_output(state),
    {
        match state {
            GateState::Raising => text("raise"),
            GateState::Lowering => text("lower"),
            _ => text("nop"),
        }
    }
}

impl StateMachine for SimpleParkingGate {
    type StateType = GateState;
    type InputType = GateSensors;
    type OutputType = String;
    type InputView = GateSensors;
    type OutputView = Seq<char>;

    open spec fn spec_new(initial_value: GateState) -> Self {
        SimpleParkingGate { state: initial_value }
    }

    open spec fn spec_start(self) -> Self {
        SimpleParkingGate { state: GateState::Waiting }
    }

    open spec fn next_state_ok(&self, state: GateState, inp: GateSensors) -> bool {
        true
    }

    open spec fn spec_next_state(&self, state: GateState, inp: GateSensors) -> Result<GateState, Seq<char>> {
        gate_next(state, inp)
    }

    open spec fn next_values_ok(&self, state: GateState, inp: GateSensors) -> bool {
        true
    }

    open spec fn spec_next_values(&self, state: GateState, inp: GateSensors) -> Result<
        (GateState, Seq<char>),
        Seq<char>,
    > {
        match gate_next(state, inp) {
            Ok(s) => Ok((s, gate_output(s))),
            Err(e) => Err(e),
        }
    }

    open spec fn step_ok(self, inp: GateSensors) -> bool {
        true
    }

    open spec fn spec_step(self, inp: GateSensors) -> (Self, Result<Seq<char>, Seq<char>>) {
        match gate_next(self.state, inp) {
            Ok(s) => (SimpleParkingGate { state: s }, Ok(gate_output(s))),
            Err(e) => (self, Err(e)),
        }
    }

    fn new(initial_value: GateState) -> (r: Self) {
        SimpleParkingGate { state: initial_value }
    }

    fn start(&mut self) {
        self.state = GateState::Waiting;
    }

    fn get_next_state(&self, state: &GateState, inp: &GateSensors) -> (r: Result<GateState, String>) {
        let mut next_state = *state;
        match *state {
            GateState::Waiting => {
                if inp.car_at_gate {
                    next_state = GateState::Raising;
                } else if inp.position != GatePosition::Bottom {
                    return Err(text("GatePosition and GateState sensors have invalid data"));
                }
            },
            GateState::Raising => {
                if inp.position == GatePosition::Top {
                    next_state = GateState::Raised;
                }
            },
            GateState::Raised => {
                if inp.car_just_existed {
                    next_state = GateState::Lowering;
                } else if inp.position != GatePosition::Top {
                    return Err(text("GatePosition and GateState sensors have invalid data"));
                }
            },
            GateState::Lowering => {
                if inp.position == GatePosition::Bottom {
                    next_state = GateState::Waiting;
                }
            },
        }
        let r: Result<GateState, String> = Ok(next_state);
        assert(res_view(r) == self.spec_next_state(*state, *inp));
        r
    }

    fn get_next_values(&self, state: &GateState, inp: &GateSensors) -> (r: Result<(GateState, String), String>) {
        assert(self.next_state_ok(*state, *inp));
        let next_state = self.get_next_state(state, inp)?;
        let out = self.verbose_output(next_state);
        let r: Result<(GateState, String), String> = Ok((next_state, out));
        assert(pair_view(r) == self.spec_next_values(*state, *inp));
        r
    }

    fn step(&mut self, inp: &GateSensors) -> (r: Result<String, String>) {
        assert(self.next_values_ok(self.state, *inp));
        let outp = self.get_next_values(&self.state, inp)?;
        self.state = outp.0;
        Ok(outp.1)
    }
}

} // verus!
