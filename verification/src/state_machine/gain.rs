//! # Gain
//! A machine whose output is always k times its input.
use vstd::prelude::*;
use super::{StateMachine, opt_dv, values_view, res_view};
use crate::number::Number;
use crate::text::text;

verus! {

broadcast use vstd::string::group_string_axioms;

pub struct Gain<T: Number> {
    pub k: T,
}

/// The product of two numbers, as a number of the type.
pub open spec fn product_of<T: Number>(a: T, b: T) -> T {
    T::of(a.value() * b.value())
}

impl<T: Number> StateMachine for Gain<T> {
    /// The machine has no state of its own; its state is the factor k.
    type StateType = T;
    type InputType = T;
    type OutputType = T;
    type InputView = T;
    type OutputView = T;

    open spec fn spec_new(initial_value: T) -> Self {
        Gain { k: initial_value }
    }

    open spec fn spec_start(self) -> Self {
        self
    }

    open spec fn spec_current_state(&self) -> T {
        self.k
    }

    open spec fn next_state_ok(&self, state: T, inp: T) -> bool {
        T::fits(inp.value() * self.k.value())
    }

    open spec fn spec_next_state(&self, state: T, inp: T) -> Result<T, Seq<char>> {
        Ok(product_of(inp, self.k))
    }

    open spec fn next_values_ok(&self, state: T, inp: Option<T>) -> bool {
        match inp {
            None => true,
            Some(i) => T::fits(i.value() * self.k.value()),
        }
    }

    open spec fn spec_next_values(&self, state: T, inp: Option<T>) -> Result<(T, Option<T>), Seq<char>> {
        match inp {
            None => Ok((state, Some(state))),
            Some(i) => Ok((product_of(i, self.k), Some(product_of(i, self.k)))),
        }
    }

    open spec fn step_ok(self, inp: Option<T>) -> bool {
        self.next_values_ok(T::of(0), inp)
    }

    /// A step multiplies the input by k; without input it gives zero.
    open spec fn spec_step(self, inp: Option<T>) -> (Self, Result<Option<T>, Seq<char>>) {
        match inp {
            None => (self, Ok(Some(T::of(0)))),
            Some(i) => (self, Ok(Some(product_of(i, self.k)))),
        }
    }

    open spec fn spec_name() -> Seq<char> {
        "Gain"@
    }

    open spec fn spec_is_composite() -> bool {
        false
    }

    fn new(initial_value: T) -> (r: Self) {
        Gain { k: initial_value }
    }

    fn start(&mut self) {
    }

    fn get_current_state(&self) -> (r: T) {
        self.k
    }

    fn get_next_state(&self, state: &T, inp: &T) -> (r: Result<T, String>) {
        proof {
            T::lemma_deep_view(*inp);
            assert(self.next_state_ok(*state, *inp));
        }
        let r = inp.times(self.k);
        proof {
            T::lemma_value(r);
            assert(res_view(Ok::<T, String>(r)) == self.spec_next_state(*state, *inp));
        }
        Ok(r)
    }

    fn get_next_values(&self, state: &T, inp: Option<&T>) -> (r: Result<(T, Option<T>), String>) {
        match inp {
            None => {
                proof {
                    T::lemma_deep_view(*state);
                }
                let r: Result<(T, Option<T>), String> = Ok((*state, Some(*state)));
                assert(opt_dv::<T>(None) == None::<T>);
                assert(values_view(r) == self.spec_next_values(*state, None));
                r
            },
            Some(inp) => {
                proof {
                    T::lemma_deep_view(*inp);
                }
                let next_state = self.get_next_state(state, inp)?;
                proof {
                    T::lemma_deep_view(next_state);
                }
                Ok((next_state, Some(next_state)))
            },
        }
    }

    fn step(&mut self, inp: Option<&T>, verbose: bool, depth: usize) -> (r: Result<Option<T>, String>) {
        let zero = T::zero();
        proof {
            T::lemma_value(zero);
            assert(T::of(0) == zero);
        }
        let outp = self.get_next_values(&zero, inp)?;
        Ok(outp.1)
    }

    fn state_machine_name(&self) -> (r: String) {
        text("Gain")
    }

    fn is_composite(&self) -> (r: bool) {
        false
    }
}

} // verus!
