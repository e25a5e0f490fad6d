//! # SumLast3
//! A machine whose state is the last two inputs and whose output is the
//! sum of the last three: the two kept and the new one.
use vstd::prelude::*;
use super::{StateMachine, pair_view, spec_transduce, transduce_ok};
use crate::state_machine::res_view;
use crate::number::Number;

verus! {

pub struct SumLast3<T: Number> {
    pub state: (T, T),
}

/// The sum of three numbers, as a number of the type.
pub open spec fn sum3<T: Number>(a: T, b: T, c: T) -> T {
    T::of(a.value() + b.value() + c.value())
}

/// Whether the two sums that the machine computes, first of the older two
/// values and then of all three, fit the type.
pub open spec fn sum3_ok<T: Number>(a: T, b: T, c: T) -> bool {
    T::fits(a.value() + b.value()) && T::fits(a.value() + b.value() + c.value())
}

/// The input `j` steps into the run, where the two kept values count as the
/// inputs -2 and -1.
pub open spec fn kept_or_input<T>(s: (T, T), xs: Seq<T>, j: int) -> T {
    if j == -2 {
        s.0
    } else if j == -1 {
        s.1
    } else {
        xs[j]
    }
}

/// A SumLast3 machine sums the last three: each output is the sum of the
/// input and the two before it (the kept values standing in before the
/// first inputs), and it ends keeping the last two.
pub proof fn lemma_sumlast3_sums<T: Number>(m: SumLast3<T>, xs: Seq<T>)
    requires
        transduce_ok(m, xs),
    ensures
        spec_transduce(m, xs).1.len() == xs.len(),
        forall|k: int|
            0 <= k < xs.len() ==> (#[trigger] spec_transduce(m, xs).1[k] matches Ok(v) && v.value()
                == kept_or_input(m.state, xs, k - 2).value() + kept_or_input(m.state, xs, k - 1).value()
                + xs[k].value()),
        spec_transduce(m, xs).0.state == (
            kept_or_input(m.state, xs, xs.len() - 2),
            kept_or_input(m.state, xs, xs.len() - 1),
        ),
    decreases xs.len(),
{
    if xs.len() > 0 {
        let d = xs.drop_last();
        let n = xs.len() as int;
        lemma_sumlast3_sums(m, d);
        let (m1, rs) = spec_transduce(m, d);
        let x = xs.last();
        assert(kept_or_input(m.state, d, n - 3) == kept_or_input(m.state, xs, n - 3));
        assert(kept_or_input(m.state, d, n - 2) == kept_or_input(m.state, xs, n - 2));
        T::lemma_of(m1.state.0.value() + m1.state.1.value() + x.value());
        let out = spec_transduce(m, xs).1;
        assert forall|k: int| 0 <= k < xs.len() implies (#[trigger] out[k] matches Ok(v) && v.value()
            == kept_or_input(m.state, xs, k - 2).value() + kept_or_input(m.state, xs, k - 1).value()
            + xs[k].value()) by {
            if k < n - 1 {
                assert(kept_or_input(m.state, d, k - 2) == kept_or_input(m.state, xs, k - 2));
                assert(kept_or_input(m.state, d, k - 1) == kept_or_input(m.state, xs, k - 1));
                assert(d[k] == xs[k]);
            }
        }
    }
}

impl<T: Number> StateMachine for SumLast3<T> {
    /// The last two inputs, the older first.
    type StateType = (T, T);
    type InputType = T;
    type OutputType = T;
    type InputView = T;
    type OutputView = T;

    open spec fn spec_new(initial_value: (T, T)) -> Self {
        SumLast3 { state: initial_value }
    }

    open spec fn spec_start(self) -> Self {
        SumLast3 { state: (T::of(0), T::of(0)) }
    }

    open spec fn next_state_ok(&self, state: (T, T), inp: T) -> bool {
        true
    }

    /// The newer kept value and the input.
    open spec fn spec_next_state(&self, state: (T, T), inp: T) -> Result<(T, T), Seq<char>> {
        Ok((state.1, inp))
    }

    open spec fn next_values_ok(&self, state: (T, T), inp: T) -> bool {
        sum3_ok(state.0, state.1, inp)
    }

    open spec fn spec_next_values(&self, state: (T, T), inp: T) -> Result<((T, T), T), Seq<char>> {
        Ok(((state.1, inp), sum3(state.0, state.1, inp)))
    }

    open spec fn step_ok(self, inp: T) -> bool {
        sum3_ok(self.state.0, self.state.1, inp)
    }

    open spec fn spec_step(self, inp: T) -> (Self, Result<T, Seq<char>>) {
        (SumLast3 { state: (self.state.1, inp) }, Ok(sum3(self.state.0, self.state.1, inp)))
    }

    fn new(initial_value: (T, T)) -> (r: Self) {
        SumLast3 { state: initial_value }
    }

    fn start(&mut self) {
        let z0 = T::zero();
        let z1 = T::zero();
        proof {
            T::lemma_value(z0);
            T::lemma_value(z1);
        }
        self.state = (z0, z1);
    }

    fn get_next_state(&self, state: &(T, T), inp: &T) -> (r: Result<(T, T), String>) {
        proof {
            T::lemma_deep_view(*inp);
        }
        Ok((state.1, *inp))
    }

    fn get_next_values(&self, state: &(T, T), inp: &T) -> (r: Result<((T, T), T), String>) {
        proof {
            T::lemma_deep_view(*inp);
        }
        let next_state = self.get_next_state(state, inp)?;
        let partial = state.0.plus(next_state.0);
        let total = partial.plus(next_state.1);
        proof {
            T::lemma_value(total);
            T::lemma_deep_view(total);
        }
        let r: Result<((T, T), T), String> = Ok((next_state, total));
        assert(pair_view(r) == self.spec_next_values(*state, *inp));
        r
    }

    fn step(&mut self, inp: &T) -> (r: Result<T, String>) {
        proof {
            T::lemma_deep_view(*inp);
        }
        let outp = self.get_next_values(&self.state, inp)?;
        self.state = outp.0;
        Ok(outp.1)
    }
}

} // verus!
