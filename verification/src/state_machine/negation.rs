//! # Negation
//! A machine whose output is the negation of its input. With no input it
//! repeats its state.
use vstd::prelude::*;
use super::{StateMachine, opt_dv, values_view};
use crate::text::text;

verus! {


pub struct Negation {
    pub state: bool,
}

impl StateMachine for Negation {
    type StateType = bool;
    type InputType = bool;
    type OutputType = bool;
    type InputView = bool;
    type OutputView = bool;

    open spec fn spec_new(initial_value: bool) -> Self {
        Negation { state: initial_value }
    }

    open spec fn spec_start(self) -> Self {
        self
    }

    open spec fn spec_current_state(&self) -> bool {
        self.state
    }

    open spec fn next_state_ok(&self, state: bool, inp: bool) -> bool {
        true
    }

    open spec fn spec_next_state(&self, state: bool, inp: bool) -> Result<bool, Seq<char>> {
        Ok(!inp)
    }

    open spec fn next_values_ok(&self, state: bool, inp: Option<bool>) -> bool {
        true
    }

    open spec fn spec_next_values(&self, state: bool, inp: Option<bool>) -> Result<
        (bool, Option<bool>),
        Seq<char>,
    > {
        match inp {
            None => Ok((state, Some(state))),
            Some(i) => Ok((!i, Some(!i))),
        }
    }

    open spec fn step_ok(self, inp: Option<bool>) -> bool {
        true
    }

    open spec fn spec_step(self, inp: Option<bool>) -> (Self, Result<Option<bool>, Seq<char>>) {
        match self.spec_next_values(self.state, inp) {
            Ok((s, o)) => (Negation { state: s }, Ok(o)),
            Err(e) => (self, Err(e)),
        }
    }

    open spec fn spec_name() -> Seq<char> {
        "Negation"@
    }

    open spec fn spec_is_composite() -> bool {
        false
    }

    fn new(initial_value: bool) -> (r: Self) {
        Negation { state: initial_value }
    }

    fn start(&mut self) {
    }

    fn get_current_state(&self) -> (r: bool) {
        self.state
    }

    fn get_next_state(&self, state: &bool, inp: &bool) -> (r: Result<bool, String>) {
        proof { let _ = self.spec_next_state(*state, *inp); }
        Ok(!*inp)
    }

    fn get_next_values(&self, state: &bool, inp: Option<&bool>) -> (r: Result<
        (bool, Option<bool>),
        String,
    >) {
        match inp {
            None => {
                let r: Result<(bool, Option<bool>), String> = Ok((*state, Some(*state)));
                assert(values_view(r) == self.spec_next_values(*state, opt_dv(inp)));
                r
            },
            Some(inp) => {
                proof { let _ = self.next_state_ok(*state, *inp); }
                let next_state = self.get_next_state(state, inp)?;
                Ok((next_state, Some(next_state)))
            },
        }
    }

    fn step(&mut self, inp: Option<&bool>, verbose: bool, depth: usize) -> (r: Result<
        Option<bool>,
        String,
    >) {
        let outp = self.get_next_values(&self.state, inp)?;
        self.state = outp.0;
        Ok(outp.1)
    }

    fn state_machine_name(&self) -> (r: String) {
        text("Negation")
    }

    fn is_composite(&self) -> (r: bool) {
        false
    }
}

} // verus!
