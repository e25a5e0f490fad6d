//! # Feedback
//! A machine with no input of its own: the output of its constituent
//! machine is fed back as the constituent's input. At each step the
//! constituent is first asked for its output without input; that output
//! is then given to it as input, and the resulting state and output are
//! those of the feedback machine.
use vstd::prelude::*;
use super::{StateMachine, opt_dv, values_view};
use crate::text::text;

verus! {

broadcast use vstd::string::group_string_axioms;

pub struct Feedback<SM> where SM: StateMachine {
    pub sm: SM,
    pub state: SM::StateType,
}

/// The error of a feedback machine whose constituent gives no output.
pub open spec fn missing_output_error() -> Seq<char> {
    "The output of the Constituent Machine Feedback must not be None"@
}

impl<SM> StateMachine for Feedback<SM> where
    SM: StateMachine<InputType = <SM as StateMachine>::OutputType, InputView = <SM as StateMachine>::OutputView>,
    SM::StateType: Copy,
 {
    type StateType = SM::StateType;
    type InputType = SM::InputType;
    type OutputType = SM::OutputType;
    type InputView = SM::InputView;
    type OutputView = SM::OutputView;

    open spec fn spec_new(initial_value: Self::StateType) -> Self {
        Feedback { sm: SM::spec_new(initial_value), state: initial_value }
    }

    open spec fn spec_start(self) -> Self {
        self
    }

    open spec fn spec_current_state(&self) -> Self::StateType {
        self.state
    }

    open spec fn next_state_ok(&self, state: Self::StateType, inp: Self::InputView) -> bool {
        self.sm.next_state_ok(state, inp)
    }

    open spec fn spec_next_state(&self, state: Self::StateType, inp: Self::InputView) -> Result<
        Self::StateType,
        Seq<char>,
    > {
        self.sm.spec_next_state(state, inp)
    }

    open spec fn next_values_ok(&self, state: Self::StateType, inp: Option<Self::InputView>) -> bool {
        &&& self.sm.next_values_ok(state, None)
        &&& match self.sm.spec_next_values(state, None) {
            Ok((_, Some(v))) => self.sm.next_values_ok(state, Some(v)),
            _ => true,
        }
    }

    open spec fn spec_next_values(&self, state: Self::StateType, inp: Option<Self::InputView>) -> Result<
        (Self::StateType, Option<Self::OutputView>),
        Seq<char>,
    > {
        match self.sm.spec_next_values(state, None) {
            Err(e) => Err(e),
            Ok((_, None)) => Err(missing_output_error()),
            Ok((_, Some(v))) => match self.sm.spec_next_values(state, Some(v)) {
                Err(e) => Err(e),
                Ok((_, None)) => Err(missing_output_error()),
                Ok((s, Some(w))) => Ok((s, Some(w))),
            },
        }
    }

    open spec fn step_ok(self, inp: Option<Self::InputView>) -> bool {
        self.next_values_ok(self.state, inp)
    }

    open spec fn spec_step(self, inp: Option<Self::InputView>) -> (
        Self,
        Result<Option<Self::OutputView>, Seq<char>>,
    ) {
        match self.spec_next_values(self.state, inp) {
            Ok((s, o)) => (Feedback { state: s, ..self }, Ok(o)),
            Err(e) => (self, Err(e)),
        }
    }

    open spec fn spec_name() -> Seq<char> {
        "Feedback"@
    }

    open spec fn spec_is_composite() -> bool {
        true
    }

    fn new(initial_value: Self::StateType) -> (r: Self) {
        Feedback { sm: SM::new(initial_value), state: initial_value }
    }

    fn start(&mut self) {
    }

    fn get_current_state(&self) -> (r: Self::StateType) {
        self.state
    }

    fn get_next_state(&self, state: &Self::StateType, inp: &Self::InputType) -> (r: Result<
        Self::StateType,
        String,
    >) {
        self.sm.get_next_state(state, inp)
    }

    fn get_next_values(&self, state: &Self::StateType, inp: Option<&Self::InputType>) -> (r:
        Result<(Self::StateType, Option<Self::OutputType>), String>) {
        let first = self.sm.get_next_values(state, None)?;
        match first.1 {
            None => Err(text("The output of the Constituent Machine Feedback must not be None")),
            Some(fed_back) => {
                let second = self.sm.get_next_values(state, Some(&fed_back))?;
                match second.1 {
                    None => Err(
                        text("The output of the Constituent Machine Feedback must not be None"),
                    ),
                    Some(out) => Ok((second.0, Some(out))),
                }
            },
        }
    }

    fn step(&mut self, inp: Option<&Self::InputType>, verbose: bool, depth: usize) -> (r: Result<
        Option<Self::OutputType>,
        String,
    >) {
        let outp = self.get_next_values(&self.state, inp)?;
        self.state = outp.0;
        Ok(outp.1)
    }

    fn state_machine_name(&self) -> (r: String) {
        text("Feedback")
    }

    fn is_composite(&self) -> (r: bool) {
        true
    }
}

} // verus!
