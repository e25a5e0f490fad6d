//! # Increment
//! A machine whose output is its input plus a fixed increment.
use vstd::prelude::*;
use super::{StateMachine, opt_dv, values_view, res_view};
use super::accumulator::sum_of;
use crate::number::Number;
use crate::text::text;

verus! {

broadcast use vstd::string::group_string_axioms;

pub struct Increment<T: Number> {
    pub incr: T,
}

impl<T: Number> StateMachine for Increment<T> {
    /// The increment.
    type StateType = T;
    type InputType = T;
    type OutputType = T;
    type InputView = T;
    type OutputView = T;

    open spec fn spec_new(initial_value: T) -> Self {
        Increment { incr: initial_value }
    }

    open spec fn spec_start(self) -> Self {
        self
    }

    open spec fn spec_current_state(&self) -> T {
        self.incr
    }

    open spec fn next_state_ok(&self, state: T, inp: T) -> bool {
        true
    }

    open spec fn spec_next_state(&self, state: T, inp: T) -> Result<T, Seq<char>> {
        Ok(state)
    }

    open spec fn next_values_ok(&self, state: T, inp: Option<T>) -> bool {
        match inp {
            None => true,
            Some(i) => T::fits(state.value() + i.value()),
        }
    }

    open spec fn spec_next_values(&self, state: T, inp: Option<T>) -> Result<(T, Option<T>), Seq<char>> {
        match inp {
            None => Ok((state, None)),
            Some(i) => Ok((state, Some(sum_of(state, i)))),
        }
    }

    open spec fn step_ok(self, inp: Option<T>) -> bool {
        self.next_values_ok(self.incr, inp)
    }

    /// A step adds the increment to the input; the machine does not change.
    open spec fn spec_step(self, inp: Option<T>) -> (Self, Result<Option<T>, Seq<char>>) {
        match inp {
            None => (self, Ok(None)),
            Some(i) => (self, Ok(Some(sum_of(self.incr, i)))),
        }
    }

    open spec fn spec_name() -> Seq<char> {
        "Increment"@
    }

    open spec fn spec_is_composite() -> bool {
        false
    }

    fn new(initial_value: T) -> (r: Self) {
        Increment { incr: initial_value }
    }

    fn start(&mut self) {
    }

    fn get_current_state(&self) -> (r: T) {
        self.incr
    }

    fn get_next_state(&self, state: &T, inp: &T) -> (r: Result<T, String>) {
        let r: Result<T, String> = Ok(*state);
        assert(res_view(r) == self.spec_next_state(*state, (*inp).deep_view()));
        r
    }

    fn get_next_values(&self, state: &T, inp: Option<&T>) -> (r: Result<(T, Option<T>), String>) {
        match inp {
            None => {
                let r: Result<(T, Option<T>), String> = Ok((*state, None));
                assert(opt_dv::<T>(None) == None::<T>);
                assert(values_view(r) == self.spec_next_values(*state, None));
                r
            },
            Some(inp) => {
                proof {
                    T::lemma_deep_view(*inp);
                    assert(self.next_values_ok(*state, Some(*inp)));
                }
                assert(self.next_state_ok(*state, *inp));
                let next_state = self.get_next_state(state, inp)?;
                let out = next_state.plus(*inp);
                proof {
                    T::lemma_value(out);
                    T::lemma_deep_view(out);
                }
                Ok((next_state, Some(out)))
            },
        }
    }

    fn step(&mut self, inp: Option<&T>, verbose: bool, depth: usize) -> (r: Result<Option<T>, String>) {
        let outp = self.get_next_values(&self.incr, inp)?;
        Ok(outp.1)
    }

    fn state_machine_name(&self) -> (r: String) {
        text("Increment")
    }

    fn is_composite(&self) -> (r: bool) {
        false
    }
}

} // verus!
