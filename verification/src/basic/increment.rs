//! # Increment
//! A machine whose output at every step is its input plus a constant incr.
use vstd::prelude::*;
use super::{StateMachine, pair_view};
use crate::state_machine::res_view;
use crate::state_machine::accumulator::sum_of;
use crate::number::Number;

verus! {

pub struct Increment<T: Number> {
    pub incr: T,
}

impl<T: Number> StateMachine for Increment<T> {
    /// The constant added; it never changes.
    type StateType = T;
    type InputType = T;
    type OutputType = T;
    type InputView = T;
    type OutputView = T;

    open spec fn spec_new(initial_value: T) -> Self {
        Increment { incr: initial_value }
    }

    open spec fn spec_start(self) -> Self {
        self
    }

    open spec fn next_state_ok(&self, state: T, inp: T) -> bool {
        T::fits(inp.value() + state.value())
    }

    open spec fn spec_next_state(&self, state: T, inp: T) -> Result<T, Seq<char>> {
        Ok(sum_of(inp, state))
    }

    open spec fn next_values_ok(&self, state: T, inp: T) -> bool {
        T::fits(inp.value() + state.value())
    }

    open spec fn spec_next_values(&self, state: T, inp: T) -> Result<(T, T), Seq<char>> {
        Ok((sum_of(inp, state), sum_of(inp, state)))
    }

    open spec fn step_ok(self, inp: T) -> bool {
        T::fits(inp.value() + self.incr.value())
    }

    /// A step adds incr to the input and leaves the machine as it was.
    open spec fn spec_step(self, inp: T) -> (Self, Result<T, Seq<char>>) {
        (self, Ok(sum_of(inp, self.incr)))
    }

    fn new(initial_value: T) -> (r: Self) {
        Increment { incr: initial_value }
    }

    fn start(&mut self) {
    }

    fn get_next_state(&self, state: &T, inp: &T) -> (r: Result<T, String>) {
        proof {
            T::lemma_deep_view(*inp);
        }
        let r = inp.plus(*state);
        proof {
            T::lemma_value(r);
            assert(res_view(Ok::<T, String>(r)) == self.spec_next_state(*state, *inp));
        }
        Ok(r)
    }

    fn get_next_values(&self, state: &T, inp: &T) -> (r: Result<(T, T), String>) {
        proof {
            T::lemma_deep_view(*inp);
        }
        let next_state = self.get_next_state(state, inp)?;
        proof {
            T::lemma_deep_view(next_state);
        }
        let r: Result<(T, T), String> = Ok((next_state, next_state));
        assert(pair_view(r) == self.spec_next_values(*state, *inp));
        r
    }

    fn step(&mut self, inp: &T) -> (r: Result<T, String>) {
        proof {
            T::lemma_deep_view(*inp);
        }
        let outp = self.get_next_values(&self.incr, inp)?;
        proof {
            T::lemma_deep_view(outp.1);
        }
        Ok(outp.1)
    }
}

} // verus!
