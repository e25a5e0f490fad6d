//! # UpDown
//! A counter: on 'u' it goes up by one, on 'd' down by one; the output is
//! the new count. Any other character is an error.
use vstd::prelude::*;
use super::{StateMachine, pair_view};
use crate::state_machine::res_view;
use crate::state_machine::updown::{updown_next, updown_ok};
use crate::text::text;

verus! {

broadcast use vstd::string::group_string_axioms;

pub struct UpDown {
    pub state: i64,
}

impl StateMachine for UpDown {
    type StateType = i64;
    type InputType = char;
    type OutputType = i64;
    type InputView = char;
    type OutputView = i64;

    open spec fn spec_new(initial_value: i64) -> Self {
        UpDown { state: initial_value }
    }

    open spec fn spec_start(self) -> Self {
        UpDown { state: 0 }
    }

    open spec fn next_state_ok(&self, state: i64, inp: char) -> bool {
        updown_ok(state, inp)
    }

    open spec fn spec_next_state(&self, state: i64, inp: char) -> Result<i64, Seq<char>> {
        updown_next(state, inp)
    }

    open spec fn next_values_ok(&self, state: i64, inp: char) -> bool {
        updown_ok(state, inp)
    }

    open spec fn spec_next_values(&self, state: i64, inp: char) -> Result<(i64, i64), Seq<char>> {
        match updown_next(state, inp) {
            Ok(s) => Ok((s, s)),
            Err(e) => Err(e),
        }
    }

    open spec fn step_ok(self, inp: char) -> bool {
        updown_ok(self.state, inp)
    }

    open spec fn spec_step(self, inp: char) -> (Self, Result<i64, Seq<char>>) {
        match updown_next(self.state, inp) {
            Ok(s) => (UpDown { state: s }, Ok(s)),
            Err(e) => (self, Err(e)),
        }
    }

    fn new(initial_value: i64) -> (r: Self) {
        UpDown { state: initial_value }
    }

    fn start(&mut self) {
        self.state = 0;
    }

    fn get_next_state(&self, state: &i64, inp: &char) -> (r: Result<i64, String>) {
        let inp = *inp;
        let state = *state;
        assert(self.next_state_ok(state, inp));
        let r: Result<i64, String> = if inp == 'u' {
            Ok(state + 1)
        } else if inp == 'd' {
            Ok(state - 1)
        } else {
            Err(text("Invalid char for UpDown"))
        };
        assert(res_view(r) == self.spec_next_state(state, inp));
        r
    }

    fn get_next_values(&self, state: &i64, inp: &char) -> (r: Result<(i64, i64), String>) {
        assert(self.next_state_ok(*state, *inp));
        let next_state = self.get_next_state(state, inp)?;
        let r: Result<(i64, i64), String> = Ok((next_state, next_state));
        assert(pair_view(r) == self.spec_next_values(*state, *inp));
        r
    }

    fn step(&mut self, inp: &char) -> (r: Result<i64, String>) {
        assert(self.next_values_ok(self.state, *inp));
        let outp = self.get_next_values(&self.state, inp)?;
        self.state = outp.0;
        Ok(outp.1)
    }
}

} // verus!
