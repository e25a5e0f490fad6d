//! # Wire
//! A machine whose output is just its input.
use vstd::prelude::*;
use super::{StateMachine, opt_dv, values_view, res_view};
use crate::number::Number;
use crate::text::text;

verus! {

broadcast use vstd::string::group_string_axioms;

pub struct Wire<T: Number> {
    pub state: T,
}

impl<T: Number> StateMachine for Wire<T> {
    /// The last input.
    type StateType = T;
    type InputType = T;
    type OutputType = T;
    type InputView = T;
    type OutputView = T;

    open spec fn spec_new(initial_value: T) -> Self {
        Wire { state: initial_value }
    }

    open spec fn spec_start(self) -> Self {
        self
    }

    open spec fn spec_current_state(&self) -> T {
        self.state
    }

    open spec fn next_state_ok(&self, state: T, inp: T) -> bool {
        true
    }

    open spec fn spec_next_state(&self, state: T, inp: T) -> Result<T, Seq<char>> {
        Ok(inp)
    }

    open spec fn next_values_ok(&self, state: T, inp: Option<T>) -> bool {
        true
    }

    /// Without input the machine keeps and outputs its state.
    open spec fn spec_next_values(&self, state: T, inp: Option<T>) -> Result<(T, Option<T>), Seq<char>> {
        match inp {
            None => Ok((state, Some(state))),
            Some(i) => Ok((i, Some(i))),
        }
    }

    open spec fn step_ok(self, inp: Option<T>) -> bool {
        true
    }

    open spec fn spec_step(self, inp: Option<T>) -> (Self, Result<Option<T>, Seq<char>>) {
        match inp {
            None => (self, Ok(Some(self.state))),
            Some(i) => (Wire { state: i }, Ok(Some(i))),
        }
    }

    open spec fn spec_name() -> Seq<char> {
        "Wire"@
    }

    open spec fn spec_is_composite() -> bool {
        false
    }

    fn new(initial_value: T) -> (r: Self) {
        Wire { state: initial_value }
    }

    fn start(&mut self) {
    }

    fn get_current_state(&self) -> (r: T) {
        self.state
    }

    fn get_next_state(&self, state: &T, inp: &T) -> (r: Result<T, String>) {
        proof {
            T::lemma_deep_view(*inp);
        }
        let r: Result<T, String> = Ok(*inp);
        assert(res_view(r) == self.spec_next_state(*state, *inp));
        r
    }

    fn get_next_values(&self, state: &T, inp: Option<&T>) -> (r: Result<(T, Option<T>), String>) {
        proof {
            T::lemma_deep_view(*state);
        }
        match inp {
            None => {
                let r: Result<(T, Option<T>), String> = Ok((*state, Some(*state)));
                assert(opt_dv::<T>(None) == None::<T>);
                assert(values_view(r) == self.spec_next_values(*state, None));
                r
            },
            Some(inp) => {
                proof {
                    T::lemma_deep_view(*inp);
                }
                assert(self.next_state_ok(*state, *inp));
                let next_state = self.get_next_state(state, inp)?;
                let r: Result<(T, Option<T>), String> = Ok((*inp, Some(next_state)));
                assert(values_view(r) == self.spec_next_values(*state, Some(*inp)));
                r
            },
        }
    }

    fn step(&mut self, inp: Option<&T>, verbose: bool, depth: usize) -> (r: Result<Option<T>, String>) {
        let outp = self.get_next_values(&self.state, inp)?;
        self.state = outp.0;
        Ok(outp.1)
    }

    fn state_machine_name(&self) -> (r: String) {
        text("Wire")
    }

    fn is_composite(&self) -> (r: bool) {
        false
    }
}

} // verus!
