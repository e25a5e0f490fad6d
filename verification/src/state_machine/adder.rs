//! # Adder
//! A machine whose output is the sum of the two values of its input; an
//! absent value counts as zero.
use vstd::prelude::*;
use super::{StateMachine, DualValues, opt_dv, values_view, res_view};
use super::accumulator::sum_of;
use crate::number::Number;
use crate::text::text;

verus! {

broadcast use vstd::string::group_string_axioms;

pub struct Adder<T: Number> {
    pub state: T,
}

/// The sum of the present values: zero when both are absent.
pub open spec fn dual_sum<T: Number>(inp: DualValues<T, T>) -> T {
    match (inp.val1, inp.val2) {
        (None, None) => T::of(0),
        (None, Some(b)) => b,
        (Some(a), None) => a,
        (Some(a), Some(b)) => sum_of(a, b),
    }
}

/// The sum of the present values fits the type.
pub open spec fn dual_sum_ok<T: Number>(inp: DualValues<T, T>) -> bool {
    match (inp.val1, inp.val2) {
        (Some(a), Some(b)) => T::fits(a.value() + b.value()),
        _ => true,
    }
}

/// A pair of numbers is its own deep view.
pub proof fn lemma_dual_deep_view<T: Number>(d: DualValues<T, T>)
    ensures
        d.deep_view() == d,
{
    if let Some(a) = d.val1 {
        T::lemma_deep_view(a);
    }
    if let Some(b) = d.val2 {
        T::lemma_deep_view(b);
    }
}

impl<T: Number> StateMachine for Adder<T> {
    /// The last sum (the machine keeps zero).
    type StateType = T;
    type InputType = DualValues<T, T>;
    type OutputType = T;
    type InputView = DualValues<T, T>;
    type OutputView = T;

    /// The machine starts from zero, whatever it is given.
    open spec fn spec_new(initial_value: T) -> Self {
        Adder { state: T::of(0) }
    }

    open spec fn spec_start(self) -> Self {
        Adder { state: T::of(0) }
    }

    open spec fn spec_current_state(&self) -> T {
        self.state
    }

    open spec fn next_state_ok(&self, state: T, inp: DualValues<T, T>) -> bool {
        dual_sum_ok(inp)
    }

    open spec fn spec_next_state(&self, state: T, inp: DualValues<T, T>) -> Result<T, Seq<char>> {
        Ok(dual_sum(inp))
    }

    open spec fn next_values_ok(&self, state: T, inp: Option<DualValues<T, T>>) -> bool {
        match inp {
            None => true,
            Some(i) => dual_sum_ok(i),
        }
    }

    open spec fn spec_next_values(&self, state: T, inp: Option<DualValues<T, T>>) -> Result<
        (T, Option<T>),
        Seq<char>,
    > {
        match inp {
            None => Ok((state, Some(state))),
            Some(i) => Ok((dual_sum(i), Some(dual_sum(i)))),
        }
    }

    open spec fn step_ok(self, inp: Option<DualValues<T, T>>) -> bool {
        self.next_values_ok(self.state, inp)
    }

    /// A step outputs the sum and leaves the machine as it was.
    open spec fn spec_step(self, inp: Option<DualValues<T, T>>) -> (Self, Result<Option<T>, Seq<char>>) {
        match inp {
            None => (self, Ok(Some(self.state))),
            Some(i) => (self, Ok(Some(dual_sum(i)))),
        }
    }

    open spec fn spec_name() -> Seq<char> {
        "Adder"@
    }

    open spec fn spec_is_composite() -> bool {
        false
    }

    fn new(initial_value: T) -> (r: Self) {
        let zero = T::zero();
        proof {
            T::lemma_value(zero);
        }
        Adder { state: zero }
    }

    fn start(&mut self) {
        let zero = T::zero();
        proof {
            T::lemma_value(zero);
        }
        self.state = zero;
    }

    fn get_current_state(&self) -> (r: T) {
        self.state
    }

    fn get_next_state(&self, state: &T, inp: &DualValues<T, T>) -> (r: Result<T, String>) {
        proof {
            lemma_dual_deep_view(*inp);
            assert(self.next_state_ok(*state, *inp));
        }
        let r = match inp.val1 {
            None => match inp.val2 {
                None => {
                    let zero = T::zero();
                    proof {
                        T::lemma_value(zero);
                    }
                    zero
                },
                Some(inp_2) => inp_2,
            },
            Some(inp_1) => match inp.val2 {
                None => inp_1,
                Some(inp_2) => {
                    let s = inp_1.plus(inp_2);
                    proof {
                        T::lemma_value(s);
                    }
                    s
                },
            },
        };
        assert(res_view(Ok::<T, String>(r)) == self.spec_next_state(*state, *inp));
        Ok(r)
    }

    fn get_next_values(&self, state: &T, inp: Option<&DualValues<T, T>>) -> (r: Result<
        (T, Option<T>),
        String,
    >) {
        match inp {
            None => {
                proof {
                    T::lemma_deep_view(*state);
                }
                let r: Result<(T, Option<T>), String> = Ok((*state, Some(*state)));
                assert(opt_dv::<DualValues<T, T>>(None) == None::<DualValues<T, T>>);
                assert(values_view(r) == self.spec_next_values(*state, None));
                r
            },
            Some(inp) => {
                proof {
                    lemma_dual_deep_view(*inp);
                    assert(self.next_state_ok(*state, *inp));
                }
                let next_state = self.get_next_state(state, inp)?;
                proof {
                    T::lemma_deep_view(next_state);
                }
                let r: Result<(T, Option<T>), String> = Ok((next_state, Some(next_state)));
                assert(values_view(r) == self.spec_next_values(*state, Some(*inp)));
                r
            },
        }
    }

    fn step(&mut self, inp: Option<&DualValues<T, T>>, verbose: bool, depth: usize) -> (r: Result<
        Option<T>,
        String,
    >) {
        let outp = self.get_next_values(&self.state, inp)?;
        Ok(outp.1)
    }

    fn state_machine_name(&self) -> (r: String) {
        text("Adder")
    }

    fn is_composite(&self) -> (r: bool) {
        false
    }
}

} // verus!
