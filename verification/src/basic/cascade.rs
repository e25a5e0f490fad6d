//! # Cascade
//! The output of a first machine becomes the input of a second machine.
//! A step moves the cascade's own pair of states; the constituent machines
//! keep theirs.
use vstd::prelude::*;
use super::{StateMachine, pair_view, out_view};
use crate::state_machine::res_view;

verus! {

pub struct Cascade<SM1, SM2> where SM1: StateMachine, SM2: StateMachine {
    pub sm1: SM1,
    pub sm2: SM2,
    pub state: (SM1::StateType, SM2::StateType),
}

impl<SM1, SM2> StateMachine for Cascade<SM1, SM2> where
    SM1: StateMachine<OutputType = <SM2 as StateMachine>::InputType, OutputView = <SM2 as StateMachine>::InputView>,
    SM2: StateMachine,
    SM1::StateType: Copy,
    SM2::StateType: Copy,
 {
    type StateType = (SM1::StateType, SM2::StateType);
    type InputType = SM1::InputType;
    type OutputType = SM2::OutputType;
    type InputView = SM1::InputView;
    type OutputView = SM2::OutputView;

    open spec fn spec_new(initial_value: Self::StateType) -> Self {
        Cascade {
            sm1: SM1::spec_new(initial_value.0),
            sm2: SM2::spec_new(initial_value.1),
            state: initial_value,
        }
    }

    open spec fn spec_start(self) -> Self {
        self
    }

    open spec fn next_state_ok(&self, state: Self::StateType, inp: Self::InputView) -> bool {
        &&& self.sm1.next_values_ok(state.0, inp)
        &&& match self.sm1.spec_next_values(state.0, inp) {
            Ok((_, o1)) => self.sm2.next_state_ok(state.1, o1),
            Err(_) => true,
        }
    }

    open spec fn spec_next_state(&self, state: Self::StateType, inp: Self::InputView) -> Result<
        Self::StateType,
        Seq<char>,
    > {
        match self.sm1.spec_next_values(state.0, inp) {
            Err(e) => Err(e),
            Ok((s1, o1)) => match self.sm2.spec_next_state(state.1, o1) {
                Err(e) => Err(e),
                Ok(s2) => Ok((s1, s2)),
            },
        }
    }

    open spec fn next_values_ok(&self, state: Self::StateType, inp: Self::InputView) -> bool {
        &&& self.sm1.next_values_ok(state.0, inp)
        &&& match self.sm1.spec_next_values(state.0, inp) {
            Ok((_, o1)) => self.sm2.next_values_ok(state.1, o1),
            Err(_) => true,
        }
    }

    open spec fn spec_next_values(&self, state: Self::StateType, inp: Self::InputView) -> Result<
        (Self::StateType, Self::OutputView),
        Seq<char>,
    > {
        match self.sm1.spec_next_values(state.0, inp) {
            Err(e) => Err(e),
            Ok((s1, o1)) => match self.sm2.spec_next_values(state.1, o1) {
                Err(e) => Err(e),
                Ok((s2, o2)) => Ok(((s1, s2), o2)),
            },
        }
    }

    open spec fn step_ok(self, inp: Self::InputView) -> bool {
        self.next_values_ok(self.state, inp)
    }

    open spec fn spec_step(self, inp: Self::InputView) -> (Self, Result<Self::OutputView, Seq<char>>) {
        match self.spec_next_values(self.state, inp) {
            Err(e) => (self, Err(e)),
            Ok((s, o)) => (Cascade { state: s, ..self }, Ok(o)),
        }
    }

    fn new(initial_value: Self::StateType) -> (r: Self) {
        Cascade { sm1: SM1::new(initial_value.0), sm2: SM2::new(initial_value.1), state: initial_value }
    }

    fn start(&mut self) {
    }

    fn get_next_state(&self, state: &Self::StateType, inp: &Self::InputType) -> (r: Result<
        Self::StateType,
        String,
    >) {
        let sm1_next_value = self.sm1.get_next_values(&state.0, inp)?;
        let sm2_next_state = self.sm2.get_next_state(&state.1, &sm1_next_value.1)?;
        Ok((sm1_next_value.0, sm2_next_state))
    }

    fn get_next_values(&self, state: &Self::StateType, inp: &Self::InputType) -> (r: Result<
        (Self::StateType, Self::OutputType),
        String,
    >) {
        let sm1_next_state = self.sm1.get_next_values(&state.0, inp)?;
        let sm2_next_state = self.sm2.get_next_values(&state.1, &sm1_next_state.1)?;
        Ok(((sm1_next_state.0, sm2_next_state.0), sm2_next_state.1))
    }

    fn step(&mut self, inp: &Self::InputType) -> (r: Result<Self::OutputType, String>) {
        let outp = self.get_next_values(&self.state, inp)?;
        self.state = outp.0;
        Ok(outp.1)
    }
}

} // verus!
