//! # ABC
//! A machine whose output is true while its input follows the pattern
//! a, b, c, a, b, c, ... and false once it has strayed from it.
use vstd::prelude::*;
use super::{StateMachine, pair_view};
use crate::state_machine::res_view;
use crate::text::text;

verus! {

broadcast use vstd::string::group_string_axioms;

pub struct ABC {
    pub state: i8,
}

/// The transition: states 0, 1 and 2 expect an a, b and c respectively;
/// state 3 rejects for ever. Characters other than a, b and c are an error.
pub open spec fn abc_next(state: i8, inp: char) -> Result<(i8, bool), Seq<char>> {
    if state == 0 && inp == 'a' {
        Ok((1, true))
    } else if state == 1 && inp == 'b' {
        Ok((2, true))
    } else if state == 2 && inp == 'c' {
        Ok((0, true))
    } else if inp != 'a' && inp != 'b' && inp != 'c' {
        Err("Unsupported character"@)
    } else {
        Ok((3, false))
    }
}

impl StateMachine for ABC {
    type StateType = i8;
    type InputType = char;
    type OutputType = bool;
    type InputView = char;
    type OutputView = bool;

    open spec fn spec_new(initial_value: i8) -> Self {
        ABC { state: initial_value }
    }

    open spec fn spec_start(self) -> Self {
        ABC { state: 0 }
    }

    open spec fn next_state_ok(&self, state: i8, inp: char) -> bool {
        true
    }

    open spec fn spec_next_state(&self, state: i8, inp: char) -> Result<i8, Seq<char>> {
        Ok(0)
    }

    open spec fn next_values_ok(&self, state: i8, inp: char) -> bool {
        true
    }

    open spec fn spec_next_values(&self, state: i8, inp: char) -> Result<(i8, bool), Seq<char>> {
        abc_next(state, inp)
    }

    open spec fn step_ok(self, inp: char) -> bool {
        true
    }

    open spec fn spec_step(self, inp: char) -> (Self, Result<bool, Seq<char>>) {
        match abc_next(self.state, inp) {
            Ok((s, o)) => (ABC { state: s }, Ok(o)),
            Err(e) => (self, Err(e)),
        }
    }

    fn new(initial_value: i8) -> (r: Self) {
        ABC { state: initial_value }
    }

    fn start(&mut self) {
        self.state = 0;
    }

    fn get_next_state(&self, state: &i8, inp: &char) -> (r: Result<i8, String>) {
        let r: Result<i8, String> = Ok(0);
        assert(res_view(r) == self.spec_next_state(*state, *inp));
        r
    }

    fn get_next_values(&self, state: &i8, inp: &char) -> (r: Result<(i8, bool), String>) {
        let state = *state;
        let inp = *inp;
        let r: Result<(i8, bool), String> = if state == 0 && inp == 'a' {
            Ok((1, true))
        } else if state == 1 && inp == 'b' {
            Ok((2, true))
        } else if state == 2 && inp == 'c' {
            Ok((0, true))
        } else if inp != 'a' && inp != 'b' && inp != 'c' {
            Err(text("Unsupported character"))
        } else {
            Ok((3, false))
        };
        assert(pair_view(r) == self.spec_next_values(state, inp));
        r
    }

    fn step(&mut self, inp: &char) -> (r: Result<bool, String>) {
        let outp = self.get_next_values(&self.state, inp)?;
        self.state = outp.0;
        Ok(outp.1)
    }
}

} // verus!
