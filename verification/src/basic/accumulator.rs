//! # Accumulator
//! A machine whose output is the sum of all the inputs it has ever seen.
use vstd::prelude::*;
use super::{StateMachine, pair_view, spec_transduce, transduce_ok};
use crate::state_machine::res_view;

verus! {

pub struct Accumulator {
    pub start_state: i64,
    pub state: i64,
}

/// The sum of a sequence of numbers.
pub open spec fn sum_all(xs: Seq<i64>) -> int
    decreases xs.len(),
{
    if xs.len() == 0 {
        0
    } else {
        sum_all(xs.drop_last()) + xs.last()
    }
}

/// An accumulator sums: each output, and the final state, is the state it
/// started from plus the sum of the inputs so far.
pub proof fn lemma_basic_accumulator_sums(m: Accumulator, xs: Seq<i64>)
    requires
        transduce_ok(m, xs),
    ensures
        spec_transduce(m, xs).0.state == m.state + sum_all(xs),
        spec_transduce(m, xs).0.start_state == m.start_state,
        spec_transduce(m, xs).1.len() == xs.len(),
        forall|k: int|
            0 <= k < xs.len() ==> (#[trigger] spec_transduce(m, xs).1[k] matches Ok(v) && v == m.state + sum_all(
                xs.take(k + 1),
            )),
    decreases xs.len(),
{
    if xs.len() > 0 {
        let d = xs.drop_last();
        lemma_basic_accumulator_sums(m, d);
        let out = spec_transduce(m, xs).1;
        assert forall|k: int| 0 <= k < xs.len() implies (#[trigger] out[k] matches Ok(v) && v == m.state
            + sum_all(xs.take(k + 1))) by {
            if k < xs.len() - 1 {
                assert(d.take(k + 1) =~= xs.take(k + 1));
            } else {
                assert(xs.take(k + 1) =~= xs);
            }
        }
    }
}

impl StateMachine for Accumulator {
    /// The sum so far.
    type StateType = i64;
    type InputType = i64;
    type OutputType = i64;
    type InputView = i64;
    type OutputView = i64;

    open spec fn spec_new(initial_value: i64) -> Self {
        Accumulator { start_state: initial_value, state: initial_value }
    }

    open spec fn spec_start(self) -> Self {
        Accumulator { state: self.start_state, ..self }
    }

    open spec fn next_state_ok(&self, state: i64, inp: i64) -> bool {
        i64::MIN <= inp + state <= i64::MAX
    }

    open spec fn spec_next_state(&self, state: i64, inp: i64) -> Result<i64, Seq<char>> {
        Ok((inp + state) as i64)
    }

    open spec fn next_values_ok(&self, state: i64, inp: i64) -> bool {
        i64::MIN <= inp + state <= i64::MAX
    }

    open spec fn spec_next_values(&self, state: i64, inp: i64) -> Result<(i64, i64), Seq<char>> {
        Ok(((inp + state) as i64, (inp + state) as i64))
    }

    open spec fn step_ok(self, inp: i64) -> bool {
        i64::MIN <= inp + self.state <= i64::MAX
    }

    open spec fn spec_step(self, inp: i64) -> (Self, Result<i64, Seq<char>>) {
        (Accumulator { state: (inp + self.state) as i64, ..self }, Ok((inp + self.state) as i64))
    }

    fn new(initial_value: i64) -> (r: Self) {
        Accumulator { start_state: initial_value, state: initial_value }
    }

    fn start(&mut self) {
        self.state = self.start_state;
    }

    fn get_next_state(&self, state: &i64, inp: &i64) -> (r: Result<i64, String>) {
        Ok(*inp + *state)
    }

    fn get_next_values(&self, state: &i64, inp: &i64) -> (r: Result<(i64, i64), String>) {
        let next_state = self.get_next_state(state, inp)?;
        let r: Result<(i64, i64), String> = Ok((next_state, next_state));
        assert(pair_view(r) == self.spec_next_values(*state, *inp));
        r
    }

    fn step(&mut self, inp: &i64) -> (r: Result<i64, String>) {
        let outp = self.get_next_values(&self.state, inp)?;
        self.state = outp.0;
        Ok(outp.1)
    }
}

} // verus!
