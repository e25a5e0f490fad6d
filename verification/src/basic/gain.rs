//! # Gain
//! A machine whose output is always k times its input.
use vstd::prelude::*;
use super::{StateMachine, pair_view};
use crate::state_machine::res_view;
use crate::state_machine::gain::product_of;
use crate::number::Number;

verus! {

pub struct Gain<T: Number> {
    pub k: T,
}

impl<T: Number> StateMachine for Gain<T> {
    /// The machine keeps no state of its own; the factor k is fixed.
    type StateType = T;
    type InputType = T;
    type OutputType = T;
    type InputView = T;
    type OutputView = T;

    open spec fn spec_new(initial_value: T) -> Self {
        Gain { k: initial_value }
    }

    open spec fn spec_start(self) -> Self {
        self
    }

    open spec fn next_state_ok(&self, state: T, inp: T) -> bool {
        T::fits(inp.value() * self.k.value())
    }

    open spec fn spec_next_state(&self, state: T, inp: T) -> Result<T, Seq<char>> {
        Ok(product_of(inp, self.k))
    }

    open spec fn next_values_ok(&self, state: T, inp: T) -> bool {
        T::fits(inp.value() * self.k.value())
    }

    open spec fn spec_next_values(&self, state: T, inp: T) -> Result<(T, T), Seq<char>> {
        Ok((product_of(inp, self.k), product_of(inp, self.k)))
    }

    open spec fn step_ok(self, inp: T) -> bool {
        T::fits(inp.value() * self.k.value())
    }

    /// A step multiplies the input by k and leaves the machine as it was.
    open spec fn spec_step(self, inp: T) -> (Self, Result<T, Seq<char>>) {
        (self, Ok(product_of(inp, self.k)))
    }

    fn new(initial_value: T) -> (r: Self) {
        Gain { k: initial_value }
    }

    fn start(&mut self) {
    }

    fn get_next_state(&self, state: &T, inp: &T) -> (r: Result<T, String>) {
        proof {
            T::lemma_deep_view(*inp);
        }
        let r = inp.times(self.k);
        proof {
            T::lemma_value(r);
            assert(res_view(Ok::<T, String>(r)) == self.spec_next_state(*state, *inp));
        }
        Ok(r)
    }

    fn get_next_values(&self, state: &T, inp: &T) -> (r: Result<(T, T), String>) {
        proof {
            T::lemma_deep_view(*inp);
        }
        let next_state = self.get_next_state(state, inp)?;
        proof {
            T::lemma_deep_view(next_state);
        }
        let r: Result<(T, T), String> = Ok((next_state, next_state));
        assert(pair_view(r) == self.spec_next_values(*state, *inp));
        r
    }

    fn step(&mut self, inp: &T) -> (r: Result<T, String>) {
        proof {
            T::lemma_deep_view(*inp);
        }
        let zero = T::zero();
        let outp = self.get_next_values(&zero, inp)?;
        proof {
            T::lemma_deep_view(outp.1);
        }
        Ok(outp.1)
    }
}

} // verus!
