//! # Delay
//! A machine that delays its input stream by one step: the first output is
//! the initial value, and every later output is the input of the step
//! before.
use vstd::prelude::*;
use super::{StateMachine, pair_view, spec_transduce, transduce_ok, outs_view};
use crate::state_machine::res_view;
use crate::number::Number;

verus! {

pub struct Delay<T: Number> {
    pub state: T,
}

/// A delay lags by one: its outputs are the initial value followed by the
/// inputs, but the last; its state ends as the last input.
pub proof fn lemma_basic_delay_shifts<T: Number>(m: Delay<T>, xs: Seq<T>)
    requires
        transduce_ok(m, xs),
    ensures
        spec_transduce(m, xs).1.len() == xs.len(),
        forall|k: int|
            0 <= k < xs.len() ==> #[trigger] spec_transduce(m, xs).1[k] == Ok::<T, Seq<char>>(
                if k == 0 { m.state } else { xs[k - 1] },
            ),
        xs.len() > 0 ==> spec_transduce(m, xs).0.state == xs.last(),
        xs.len() == 0 ==> spec_transduce(m, xs).0 == m,
    decreases xs.len(),
{
    if xs.len() > 0 {
        let d = xs.drop_last();
        lemma_basic_delay_shifts(m, d);
        let out = spec_transduce(m, xs).1;
        assert forall|k: int| 0 <= k < xs.len() implies #[trigger] out[k] == Ok::<T, Seq<char>>(
            if k == 0 { m.state } else { xs[k - 1] },
        ) by {
            if k == 0 {
            } else if k < xs.len() - 1 {
                assert(d[k - 1] == xs[k - 1]);
            } else {
                assert(d.last() == xs[k - 1]);
            }
        }
    }
}

impl<T: Number> StateMachine for Delay<T> {
    /// The input of the step before.
    type StateType = T;
    type InputType = T;
    type OutputType = T;
    type InputView = T;
    type OutputView = T;

    open spec fn spec_new(initial_value: T) -> Self {
        Delay { state: initial_value }
    }

    open spec fn spec_start(self) -> Self {
        Delay { state: T::of(0) }
    }

    open spec fn next_state_ok(&self, state: T, inp: T) -> bool {
        true
    }

    open spec fn spec_next_state(&self, state: T, inp: T) -> Result<T, Seq<char>> {
        Ok(state)
    }

    open spec fn next_values_ok(&self, state: T, inp: T) -> bool {
        true
    }

    /// The input becomes the state; the output is the old state.
    open spec fn spec_next_values(&self, state: T, inp: T) -> Result<(T, T), Seq<char>> {
        Ok((inp, state))
    }

    open spec fn step_ok(self, inp: T) -> bool {
        true
    }

    open spec fn spec_step(self, inp: T) -> (Self, Result<T, Seq<char>>) {
        (Delay { state: inp }, Ok(self.state))
    }

    fn new(initial_value: T) -> (r: Self) {
        Delay { state: initial_value }
    }

    fn start(&mut self) {
        let zero = T::zero();
        proof {
            T::lemma_value(zero);
        }
        self.state = zero;
    }

    fn get_next_state(&self, state: &T, inp: &T) -> (r: Result<T, String>) {
        Ok(*state)
    }

    fn get_next_values(&self, state: &T, inp: &T) -> (r: Result<(T, T), String>) {
        proof {
            T::lemma_deep_view(*inp);
        }
        let next_state = self.get_next_state(state, inp)?;
        proof {
            T::lemma_deep_view(next_state);
        }
        let r: Result<(T, T), String> = Ok((*inp, next_state));
        assert(pair_view(r) == self.spec_next_values(*state, *inp));
        r
    }

    fn step(&mut self, inp: &T) -> (r: Result<T, String>) {
        proof {
            T::lemma_deep_view(*inp);
        }
        let outp = self.get_next_values(&self.state, inp)?;
        proof {
            T::lemma_deep_view(outp.1);
        }
        self.state = outp.0;
        Ok(outp.1)
    }
}

} // verus!
