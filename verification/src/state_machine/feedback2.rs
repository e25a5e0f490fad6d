//! # Feedback2
//! A machine around a constituent with two inputs: its own input is the
//! constituent's first input, and the constituent's output is fed back as
//! the second. At each step the constituent is first asked for its output
//! with the first input alone; that output is then given to it as the
//! second input, and the resulting state and output are those of the
//! Feedback2 machine. Without an input, the constituent gets none either.
use vstd::prelude::*;
use super::{StateMachine, DualValues, opt_own_dv};
use crate::text::text;

verus! {

broadcast use vstd::string::group_string_axioms;

pub struct Feedback2<SM, T> where SM: StateMachine {
    pub sm: SM,
    pub inp2: Option<T>,
    pub state: SM::StateType,
}

/// The constituent's input for a first input and a fed-back second one.
pub open spec fn fed<A, B>(i: A, y: Option<B>) -> DualValues<A, B> {
    DualValues { val1: Some(i), val2: y }
}

impl<SM, T> StateMachine for Feedback2<SM, T> where
    T: DeepView + Copy,
    SM: StateMachine<
        InputType = DualValues<T, <SM as StateMachine>::OutputType>,
        InputView = DualValues<<T as DeepView>::V, <SM as StateMachine>::OutputView>,
    >,
    SM::StateType: Copy,
 {
    type StateType = SM::StateType;
    type InputType = T;
    type OutputType = SM::OutputType;
    type InputView = T::V;
    type OutputView = SM::OutputView;

    open spec fn spec_new(initial_value: Self::StateType) -> Self {
        Feedback2 { sm: SM::spec_new(initial_value), inp2: None, state: initial_value }
    }

    open spec fn spec_start(self) -> Self {
        self
    }

    open spec fn spec_current_state(&self) -> Self::StateType {
        self.state
    }

    open spec fn next_state_ok(&self, state: Self::StateType, inp: Self::InputView) -> bool {
        self.sm.next_state_ok(state, fed(inp, None))
    }

    /// The constituent's next state for the first input alone.
    open spec fn spec_next_state(&self, state: Self::StateType, inp: Self::InputView) -> Result<
        Self::StateType,
        Seq<char>,
    > {
        self.sm.spec_next_state(state, fed(inp, None))
    }

    open spec fn next_values_ok(&self, state: Self::StateType, inp: Option<Self::InputView>) -> bool {
        match inp {
            None => self.sm.next_values_ok(state, None),
            Some(i) => {
                &&& self.sm.next_values_ok(state, Some(fed(i, None)))
                &&& match self.sm.spec_next_values(state, Some(fed(i, None))) {
                    Ok((_, y)) => self.sm.next_values_ok(state, Some(fed(i, y))),
                    Err(_) => true,
                }
            },
        }
    }

    open spec fn spec_next_values(&self, state: Self::StateType, inp: Option<Self::InputView>) -> Result<
        (Self::StateType, Option<Self::OutputView>),
        Seq<char>,
    > {
        match inp {
            None => self.sm.spec_next_values(state, None),
            Some(i) => match self.sm.spec_next_values(state, Some(fed(i, None))) {
                Err(e) => Err(e),
                Ok((_, y)) => self.sm.spec_next_values(state, Some(fed(i, y))),
            },
        }
    }

    open spec fn step_ok(self, inp: Option<Self::InputView>) -> bool {
        self.next_values_ok(self.state, inp)
    }

    open spec fn spec_step(self, inp: Option<Self::InputView>) -> (
        Self,
        Result<Option<Self::OutputView>, Seq<char>>,
    ) {
        match self.spec_next_values(self.state, inp) {
            Ok((s, o)) => (Feedback2 { state: s, ..self }, Ok(o)),
            Err(e) => (self, Err(e)),
        }
    }

    open spec fn spec_name() -> Seq<char> {
        "Feedback2"@
    }

    open spec fn spec_is_composite() -> bool {
        true
    }

    fn new(initial_value: Self::StateType) -> (r: Self) {
        Feedback2 { sm: SM::new(initial_value), inp2: None, state: initial_value }
    }

    fn start(&mut self) {
    }

    fn get_current_state(&self) -> (r: Self::StateType) {
        self.state
    }

    fn get_next_state(&self, state: &Self::StateType, inp: &Self::InputType) -> (r: Result<
        Self::StateType,
        String,
    >) {
        let first_in: DualValues<T, SM::OutputType> = DualValues { val1: Some(*inp), val2: None };
        assert(first_in.deep_view() == fed((*inp).deep_view(), None::<SM::OutputView>));
        self.sm.get_next_state(state, &first_in)
    }

    fn get_next_values(&self, state: &Self::StateType, inp: Option<&Self::InputType>) -> (r:
        Result<(Self::StateType, Option<Self::OutputType>), String>) {
        match inp {
            None => self.sm.get_next_values(state, None),
            Some(i) => {
                let first_in: DualValues<T, SM::OutputType> = DualValues { val1: Some(*i), val2: None };
                assert(first_in.deep_view() == fed((*i).deep_view(), None::<SM::OutputView>));
                let first = self.sm.get_next_values(state, Some(&first_in))?;
                let second_in: DualValues<T, SM::OutputType> = DualValues { val1: Some(*i), val2: first.1 };
                assert(second_in.deep_view() == fed((*i).deep_view(), opt_own_dv(first.1)));
                self.sm.get_next_values(state, Some(&second_in))
            },
        }
    }

    fn step(&mut self, inp: Option<&Self::InputType>, verbose: bool, depth: usize) -> (r: Result<
        Option<Self::OutputType>,
        String,
    >) {
        let outp = self.get_next_values(&self.state, inp)?;
        self.state = outp.0;
        Ok(outp.1)
    }

    fn state_machine_name(&self) -> (r: String) {
        text("Feedback2")
    }

    fn is_composite(&self) -> (r: bool) {
        true
    }
}

} // verus!
