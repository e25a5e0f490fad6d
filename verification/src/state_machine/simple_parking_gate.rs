//! # SimpleParkingGate
//! The controller of a parking gate. From its sensors (the position of the
//! gate, whether a vehicle stands in front of it, whether a vehicle has just passed
//! it) it moves between waiting, raising, raised and lowering, and
//! tells the motor to "raise" or "lower", or "nop" to do nothing.
use vstd::prelude::*;
use super::{StateMachine, opt_dv, opt_own_dv, values_view, res_view, step_view};
use crate::text::{text, joined};

verus! {

broadcast use vstd::string::group_string_axioms;

#[derive(PartialEq, Eq, Structural, Clone, Copy, Debug)]
pub enum GatePosition {
    Top,
    Middle,
    Bottom,
}

#[derive(PartialEq, Eq, Structural, Clone, Copy, Debug)]
pub struct GateSensors {
    pub position: GatePosition,
    pub car_at_gate: bool,
    pub car_just_existed: bool,
}

impl DeepView for GateSensors {
    type V = GateSensors;

    open spec fn deep_view(&self) -> GateSensors {
        *self
    }
}

#[derive(PartialEq, Eq, Structural, Clone, Copy, Debug)]
pub enum GateState {
    Waiting,
    Raising,
    Raised,
    Lowering,
}

pub struct SimpleParkingGate {
    pub state: GateState,
}

/// The error for sensors that contradict the state.
pub open spec fn invalid_sensors() -> Seq<char> {
    "GatePosition and GateState sensors have invalid data"@
}

/// The next gate state: an idle gate starts raising when a vehicle arrives (it must be
/// down otherwise); a raising gate is raised once at the top; a raised gate
/// lowers once the car has passed (it must be up otherwise); a lowering gate
/// waits once at the bottom.
pub open spec fn gate_next(state: GateState, inp: GateSensors) -> Result<GateState, Seq<char>> {
    match state {
        GateState::Waiting => if inp.car_at_gate {
            Ok(GateState::Raising)
        } else if inp.position != GatePosition::Bottom {
            Err(invalid_sensors())
        } else {
            Ok(state)
        },
        GateState::Raising => if inp.position == GatePosition::Top {
            Ok(GateState::Raised)
        } else {
            Ok(state)
        },
        GateState::Raised => if inp.car_just_existed {
            Ok(GateState::Lowering)
        } else if inp.position != GatePosition::Top {
            Err(invalid_sensors())
        } else {
            Ok(state)
        },
        GateState::Lowering => if inp.position == GatePosition::Bottom {
            Ok(GateState::Waiting)
        } else {
            Ok(state)
        },
    }
}

/// The command for the motor in a state: "raise" while raising, "lower"
/// while lowering, none otherwise.
pub open spec fn gate_command(state: GateState) -> Option<Seq<char>> {
    match state {
        GateState::Raising => Some("raise"@),
        GateState::Lowering => Some("lower"@),
        _ => None,
    }
}

/// The name of a gate position.
pub open spec fn position_text(p: GatePosition) -> Seq<char> {
    match p {
        GatePosition::Top => "Top"@,
        GatePosition::Middle => "Middle"@,
        GatePosition::Bottom => "Bottom"@,
    }
}

/// How a truth value is written.
pub open spec fn bool_text(b: bool) -> Seq<char> {
    if b {
        "true"@
    } else {
        "false"@
    }
}

/// The name of a gate state.
pub open spec fn state_text(s: GateState) -> Seq<char> {
    match s {
        GateState::Waiting => "State: Waiting"@,
        GateState::Raising => "State: Raising"@,
        GateState::Raised => "State: Raised"@,
        GateState::Lowering => "State: Lowering"@,
    }
}

/// How the sensors are traced.
pub open spec fn sensors_text(i: GateSensors) -> Seq<char> {
    "In: (Car At Gate: "@ + bool_text(i.car_at_gate) + ", Car Just Exited: "@ + bool_text(
        i.car_just_existed,
    ) + ", Gate Position: "@ + position_text(i.position) + ")"@
}

fn position_name(p: GatePosition) -> (r: String)
    ensures
        r@ == position_text(p),
{
    match p {
        GatePosition::Top => text("Top"),
        GatePosition::Middle => text("Middle"),
        GatePosition::Bottom => text("Bottom"),
    }
}

fn bool_name(b: bool) -> (r: String)
    ensures
        r@ == bool_text(b),
{
    if b {
        text("true")
    } else {
        text("false")
    }
}

impl SimpleParkingGate {
    /// The state, as traced.
    pub fn verbose_state(&self) -> (r: String)
        ensures
            r@ == state_text(self.state),
    {
        match self.state {
            GateState::Waiting => text("State: Waiting"),
            GateState::Raising => text("State: Raising"),
            GateState::Raised => text("State: Raised"),
            GateState::Lowering => text("State: Lowering"),
        }
    }

    /// The sensors, as traced: "None" without input.
    pub fn verbose_input(&self, inp: Option<&GateSensors>) -> (r: String)
        ensures
            r@ == match inp {
                None => "None"@,
                Some(i) => sensors_text(*i),
            },
    {
        match inp {
            None => text("None"),
            Some(inp) => {
                let gate_position = position_name(inp.position);
                let a = joined("In: (Car At Gate: ", bool_name(inp.car_at_gate).as_str());
                let b = joined(a.as_str(), ", Car Just Exited: ");
                let c = joined(b.as_str(), bool_name(inp.car_just_existed).as_str());
                let d = joined(c.as_str(), ", Gate Position: ");
                let e = joined(d.as_str(), gate_position.as_str());
                joined(e.as_str(), ")")
            },
        }
    }

    /// The command, as traced: "nop" without one.
    pub fn verbose_output(&self, outp: Option<&String>) -> (r: String)
        ensures
            r@ == match outp {
                None => "Out: nop"@,
                Some(o) => "Out: "@ + o@,
            },
    {
        match outp {
            None => text("Out: nop"),
            Some(o) => joined("Out: ", o.as_str()),
        }
    }

    /// The command for the motor in a state.
    fn output_state(&self, state: GateState) -> (r: Option<String>)
        ensures
            opt_own_dv(r) == gate_command(state),
    {
        match state {
            GateState::Raising => Some(text("raise")),
            GateState::Lowering => Some(text("lower")),
            _ => None,
        }
    }
}

impl StateMachine for SimpleParkingGate {
    type StateType = GateState;
    type InputType = GateSensors;
    type OutputType = String;
    type InputView = GateSensors;
    type OutputView = Seq<char>;

    open spec fn spec_new(initial_value: GateState) -> Self {
        SimpleParkingGate { state: initial_value }
    }

    open spec fn spec_start(self) -> Self {
        SimpleParkingGate { state: GateState::Waiting }
    }

    open spec fn spec_current_state(&self) -> GateState {
        self.state
    }

    open spec fn next_state_ok(&self, state: GateState, inp: GateSensors) -> bool {
        true
    }

    open spec fn spec_next_state(&self, state: GateState, inp: GateSensors) -> Result<GateState, Seq<char>> {
        gate_next(state, inp)
    }

    open spec fn next_values_ok(&self, state: GateState, inp: Option<GateSensors>) -> bool {
        true
    }

    open spec fn spec_next_values(&self, state: GateState, inp: Option<GateSensors>) -> Result<
        (GateState, Option<Seq<char>>),
        Seq<char>,
    > {
        match inp {
            None => Ok((state, None)),
            Some(i) => match gate_next(state, i) {
                Ok(s) => Ok((s, gate_command(s))),
                Err(e) => Err(e),
            },
        }
    }

    open spec fn step_ok(self, inp: Option<GateSensors>) -> bool {
        true
    }

    open spec fn spec_step(self, inp: Option<GateSensors>) -> (Self, Result<Option<Seq<char>>, Seq<char>>) {
        match self.spec_next_values(self.state, inp) {
            Err(e) => (self, Err(e)),
            Ok((s, None)) => (SimpleParkingGate { state: s }, Ok(Some("nop"@))),
            Ok((s, Some(o))) => (SimpleParkingGate { state: s }, Ok(Some(o))),
        }
    }

    open spec fn spec_name() -> Seq<char> {
        "SimpleParkingGate"@
    }

    open spec fn spec_is_composite() -> bool {
        false
    }

    fn new(initial_value: GateState) -> (r: Self) {
        SimpleParkingGate { state: initial_value }
    }

    fn start(&mut self) {
        self.state = GateState::Waiting;
    }

    fn get_current_state(&self) -> (r: GateState) {
        self.state
    }

    fn get_next_state(&self, state: &GateState, inp: &GateSensors) -> (r: Result<GateState, String>) {
        let mut next_state = *state;
        match *state {
            GateState::Waiting => {
                if inp.car_at_gate {
                    next_state = GateState::Raising;
                } else if inp.position != GatePosition::Bottom {
                    return Err(text("GatePosition and GateState sensors have invalid data"));
                }
            },
            GateState::Raising => {
                if inp.position == GatePosition::Top {
                    next_state = GateState::Raised;
                }
            },
            GateState::Raised => {
                if inp.car_just_existed {
                    next_state = GateState::Lowering;
                } else if inp.position != GatePosition::Top {
                    return Err(text("GatePosition and GateState sensors have invalid data"));
                }
            },
            GateState::Lowering => {
                if inp.position == GatePosition::Bottom {
                    next_state = GateState::Waiting;
                }
            },
        }
        let r: Result<GateState, String> = Ok(next_state);
        assert(res_view(r) == self.spec_next_state(*state, *inp));
        r
    }

    fn get_next_values(&self, state: &GateState, inp: Option<&GateSensors>) -> (r: Result<
        (GateState, Option<String>),
        String,
    >) {
        match inp {
            None => {
                let r: Result<(GateState, Option<String>), String> = Ok((*state, None));
                assert(opt_dv::<GateSensors>(None) == None::<GateSensors>);
                assert(values_view(r) == self.spec_next_values(*state, None));
                r
            },
            Some(inp) => {
                assert(self.next_state_ok(*state, *inp));
                let next_state = self.get_next_state(state, inp)?;
                let out = self.output_state(next_state);
                let r: Result<(GateState, Option<String>), String> = Ok((next_state, out));
                assert(values_view(r) == self.spec_next_values(*state, Some(*inp)));
                r
            },
        }
    }

    fn step(&mut self, inp: Option<&GateSensors>, verbose: bool, depth: usize) -> (r: Result<
        Option<String>,
        String,
    >) {
        assert(self.next_values_ok(self.state, opt_dv(inp)));
        let outp = self.get_next_values(&self.state, inp)?;
        match outp.1 {
            None => {
                self.state = outp.0;
                let r: Result<Option<String>, String> = Ok(Some(text("nop")));
                assert(step_view(r) == Ok::<Option<Seq<char>>, Seq<char>>(Some("nop"@)));
                r
            },
            Some(next_val) => {
                self.state = outp.0;
                Ok(Some(next_val))
            },
        }
    }

    fn state_machine_name(&self) -> (r: String) {
        text("SimpleParkingGate")
    }

    fn is_composite(&self) -> (r: bool) {
        false
    }
}

} // verus!
