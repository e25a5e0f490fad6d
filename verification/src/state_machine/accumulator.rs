//! # Accumulator
//! A machine whose output is the sum of all the inputs it has ever seen.
use vstd::prelude::*;
use super::{StateMachine, opt_dv, values_view, res_view, spec_transduce, transduce_ok};
use super::delay::all_present;
use crate::number::Number;
use crate::text::text;

verus! {

broadcast use vstd::string::group_string_axioms;

pub struct Accumulator<T: Number> {
    pub start_state: T,
    pub state: T,
}

/// The sum of two numbers, as a number of the type.
pub open spec fn sum_of<T: Number>(a: T, b: T) -> T {
    T::of(a.value() + b.value())
}

/// The sum of the values of numbers.
pub open spec fn total<T: Number>(xs: Seq<T>) -> int
    decreases xs.len(),
{
    if xs.len() == 0 {
        0
    } else {
        total(xs.drop_last()) + xs.last().value()
    }
}

/// An accumulator sums: each output, and the final state, is the start
/// state plus the sum of the inputs so far.
pub proof fn lemma_accumulator_sums<T: Number>(m: Accumulator<T>, xs: Seq<T>)
    requires
        transduce_ok(m, all_present(xs)),
    ensures
        spec_transduce(m, all_present(xs)).0.state.value() == m.state.value() + total(xs),
        spec_transduce(m, all_present(xs)).0.start_state == m.start_state,
        spec_transduce(m, all_present(xs)).1.len() == xs.len(),
        forall|k: int|
            0 <= k < xs.len() ==> (#[trigger] spec_transduce(m, all_present(xs)).1[k] matches Ok(Some(v))
                && v.value() == m.state.value() + total(xs.take(k + 1))),
    decreases xs.len(),
{
    if xs.len() > 0 {
        let d = xs.drop_last();
        assert(all_present(xs).drop_last() =~= all_present(d));
        lemma_accumulator_sums(m, d);
        let (m1, rs) = spec_transduce(m, all_present(d));
        let x = xs.last();
        assert(all_present(xs).last() == Some(x));
        assert(m1.step_ok(Some(x)));
        T::lemma_of(x.value() + m1.state.value());
        let out = spec_transduce(m, all_present(xs)).1;
        assert forall|k: int| 0 <= k < xs.len() implies (#[trigger] out[k] matches Ok(Some(v)) && v.value()
            == m.state.value() + total(xs.take(k + 1))) by {
            if k < xs.len() - 1 {
                assert(d.take(k + 1) =~= xs.take(k + 1));
            } else {
                assert(xs.take(k + 1) =~= xs);
            }
        }
    }
}

impl<T: Number> StateMachine for Accumulator<T> {
    /// The sum so far.
    type StateType = T;
    type InputType = T;
    type OutputType = T;
    type InputView = T;
    type OutputView = T;

    open spec fn spec_new(initial_value: T) -> Self {
        Accumulator { start_state: initial_value, state: initial_value }
    }

    open spec fn spec_start(self) -> Self {
        Accumulator { state: self.start_state, ..self }
    }

    open spec fn spec_current_state(&self) -> T {
        self.state
    }

    open spec fn next_state_ok(&self, state: T, inp: T) -> bool {
        T::fits(inp.value() + state.value())
    }

    open spec fn spec_next_state(&self, state: T, inp: T) -> Result<T, Seq<char>> {
        Ok(sum_of(inp, state))
    }

    open spec fn next_values_ok(&self, state: T, inp: Option<T>) -> bool {
        match inp {
            None => true,
            Some(i) => T::fits(i.value() + state.value()),
        }
    }

    open spec fn spec_next_values(&self, state: T, inp: Option<T>) -> Result<(T, Option<T>), Seq<char>> {
        match inp {
            None => Ok((state, None)),
            Some(i) => Ok((sum_of(i, state), Some(sum_of(i, state)))),
        }
    }

    open spec fn step_ok(self, inp: Option<T>) -> bool {
        self.next_values_ok(self.state, inp)
    }

    open spec fn spec_step(self, inp: Option<T>) -> (Self, Result<Option<T>, Seq<char>>) {
        match inp {
            None => (self, Ok(None)),
            Some(i) => (Accumulator { state: sum_of(i, self.state), ..self }, Ok(Some(sum_of(i, self.state)))),
        }
    }

    open spec fn spec_name() -> Seq<char> {
        "Accumulator"@
    }

    open spec fn spec_is_composite() -> bool {
        false
    }

    fn new(initial_value: T) -> (r: Self) {
        Accumulator { start_state: initial_value, state: initial_value }
    }

    fn start(&mut self) {
        self.state = self.start_state;
    }

    fn get_current_state(&self) -> (r: T) {
        self.state
    }

    fn get_next_state(&self, state: &T, inp: &T) -> (r: Result<T, String>) {
        proof {
            T::lemma_deep_view(*inp);
            assert(self.next_state_ok(*state, *inp));
        }
        let r = inp.plus(*state);
        proof {
            T::lemma_value(r);
            assert(res_view(Ok::<T, String>(r)) == self.spec_next_state(*state, *inp));
        }
        Ok(r)
    }

    fn get_next_values(&self, state: &T, inp: Option<&T>) -> (r: Result<(T, Option<T>), String>) {
        match inp {
            None => {
                let r: Result<(T, Option<T>), String> = Ok((*state, None));
                assert(opt_dv::<T>(None) == None::<T>);
                assert(values_view(r) == self.spec_next_values(*state, None));
                r
            },
            Some(inp) => {
                proof {
                    T::lemma_deep_view(*inp);
                }
                let next_state = self.get_next_state(state, inp)?;
                proof {
                    T::lemma_deep_view(next_state);
                }
                Ok((next_state, Some(next_state)))
            },
        }
    }

    fn step(&mut self, inp: Option<&T>, verbose: bool, depth: usize) -> (r: Result<Option<T>, String>) {
        let outp = self.get_next_values(&self.state, inp)?;
        self.state = outp.0;
        Ok(outp.1)
    }

    fn state_machine_name(&self) -> (r: String) {
        text("Accumulator")
    }

    fn is_composite(&self) -> (r: bool) {
        false
    }
}

} // verus!
