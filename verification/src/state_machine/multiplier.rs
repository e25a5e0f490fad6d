//! # Multiplier
//! A machine whose output is the product of the two values of its input;
//! an absent value counts as one.
use vstd::prelude::*;
use super::{StateMachine, opt_dv, values_view, res_view};
use super::gain::product_of;
use crate::number::Number;
use crate::text::text;

verus! {

broadcast use vstd::string::group_string_axioms;

pub struct Multiplier<T: Number> {
    pub state: T,
}

/// The product of the present values: one when both are absent.
pub open spec fn pair_product<T: Number>(inp: (Option<T>, Option<T>)) -> T {
    match inp {
        (None, None) => T::of(1),
        (None, Some(b)) => b,
        (Some(a), None) => a,
        (Some(a), Some(b)) => product_of(a, b),
    }
}

/// The product of the present values fits the type.
pub open spec fn pair_product_ok<T: Number>(inp: (Option<T>, Option<T>)) -> bool {
    match inp {
        (Some(a), Some(b)) => T::fits(a.value() * b.value()),
        _ => true,
    }
}

/// A pair of optional numbers is its own deep view.
pub proof fn lemma_pair_deep_view<T: Number>(p: (Option<T>, Option<T>))
    ensures
        p.deep_view() == p,
{
    if let Some(a) = p.0 {
        T::lemma_deep_view(a);
    }
    if let Some(b) = p.1 {
        T::lemma_deep_view(b);
    }
}

impl<T: Number> StateMachine for Multiplier<T> {
    /// The state it was built with; a step does not change it.
    type StateType = T;
    type InputType = (Option<T>, Option<T>);
    type OutputType = T;
    type InputView = (Option<T>, Option<T>);
    type OutputView = T;

    open spec fn spec_new(initial_value: T) -> Self {
        Multiplier { state: initial_value }
    }

    open spec fn spec_start(self) -> Self {
        self
    }

    open spec fn spec_current_state(&self) -> T {
        self.state
    }

    open spec fn next_state_ok(&self, state: T, inp: (Option<T>, Option<T>)) -> bool {
        pair_product_ok(inp)
    }

    open spec fn spec_next_state(&self, state: T, inp: (Option<T>, Option<T>)) -> Result<T, Seq<char>> {
        Ok(pair_product(inp))
    }

    open spec fn next_values_ok(&self, state: T, inp: Option<(Option<T>, Option<T>)>) -> bool {
        match inp {
            None => true,
            Some(i) => pair_product_ok(i),
        }
    }

    open spec fn spec_next_values(&self, state: T, inp: Option<(Option<T>, Option<T>)>) -> Result<
        (T, Option<T>),
        Seq<char>,
    > {
        match inp {
            None => Ok((state, Some(state))),
            Some(i) => Ok((pair_product(i), Some(pair_product(i)))),
        }
    }

    open spec fn step_ok(self, inp: Option<(Option<T>, Option<T>)>) -> bool {
        self.next_values_ok(self.state, inp)
    }

    /// A step outputs the product and leaves the machine as it was.
    open spec fn spec_step(self, inp: Option<(Option<T>, Option<T>)>) -> (Self, Result<Option<T>, Seq<char>>) {
        match inp {
            None => (self, Ok(Some(self.state))),
            Some(i) => (self, Ok(Some(pair_product(i)))),
        }
    }

    open spec fn spec_name() -> Seq<char> {
        "Multiplier"@
    }

    /// The machine calls itself composite.
    open spec fn spec_is_composite() -> bool {
        true
    }

    fn new(initial_value: T) -> (r: Self) {
        Multiplier { state: initial_value }
    }

    fn start(&mut self) {
    }

    fn get_current_state(&self) -> (r: T) {
        self.state
    }

    fn get_next_state(&self, state: &T, inp: &(Option<T>, Option<T>)) -> (r: Result<T, String>) {
        proof {
            lemma_pair_deep_view(*inp);
            assert(self.next_state_ok(*state, *inp));
        }
        let inp = *inp;
        let r = match inp.0 {
            None => match inp.1 {
                None => {
                    let one = T::one();
                    proof {
                        T::lemma_value(one);
                    }
                    one
                },
                Some(inp_1) => inp_1,
            },
            Some(inp_0) => match inp.1 {
                None => inp_0,
                Some(inp_1) => {
                    let p = inp_0.times(inp_1);
                    proof {
                        T::lemma_value(p);
                    }
                    p
                },
            },
        };
        assert(res_view(Ok::<T, String>(r)) == self.spec_next_state(*state, inp));
        Ok(r)
    }

    fn get_next_values(&self, state: &T, inp: Option<&(Option<T>, Option<T>)>) -> (r: Result<
        (T, Option<T>),
        String,
    >) {
        match inp {
            None => {
                proof {
                    T::lemma_deep_view(*state);
                }
                let r: Result<(T, Option<T>), String> = Ok((*state, Some(*state)));
                assert(opt_dv::<(Option<T>, Option<T>)>(None) == None::<(Option<T>, Option<T>)>);
                assert(values_view(r) == self.spec_next_values(*state, None));
                r
            },
            Some(inp) => {
                proof {
                    lemma_pair_deep_view(*inp);
                    assert(self.next_state_ok(*state, *inp));
                }
                let next_state = self.get_next_state(state, inp)?;
                proof {
                    T::lemma_deep_view(next_state);
                }
                let r: Result<(T, Option<T>), String> = Ok((next_state, Some(next_state)));
                assert(values_view(r) == self.spec_next_values(*state, Some(*inp)));
                r
            },
        }
    }

    fn step(&mut self, inp: Option<&(Option<T>, Option<T>)>, verbose: bool, depth: usize) -> (r: Result<
        Option<T>,
        String,
    >) {
        let outp = self.get_next_values(&self.state, inp)?;
        Ok(outp.1)
    }

    fn state_machine_name(&self) -> (r: String) {
        text("Multiplier")
    }

    fn is_composite(&self) -> (r: bool) {
        true
    }
}

} // verus!
