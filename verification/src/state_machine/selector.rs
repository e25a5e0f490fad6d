//! # Selector
//! A machine whose output is the first k elements of its input; an input
//! shorter than k is an error.
use vstd::prelude::*;
use super::{StateMachine, opt_dv, values_view, res_view};
use crate::basic::selector::{first_elems, out_of_bounds};
use crate::text::text;

verus! {

broadcast use vstd::string::group_string_axioms;

#[derive(Debug)]
pub struct Selector<T: Copy + DeepView> {
    pub k: usize,
    /// The element type of the vectors that the machine reads.
    pub elems: core::marker::PhantomData<T>,
}

impl<T: Copy + DeepView> StateMachine for Selector<T> {
    /// The number of elements kept.
    type StateType = usize;
    type InputType = Vec<T>;
    type OutputType = Vec<T>;
    type InputView = Seq<T::V>;
    type OutputView = Seq<T::V>;

    open spec fn spec_new(initial_value: usize) -> Self {
        Selector { k: initial_value, elems: core::marker::PhantomData }
    }

    open spec fn spec_start(self) -> Self {
        self
    }

    open spec fn spec_current_state(&self) -> usize {
        self.k
    }

    open spec fn next_state_ok(&self, state: usize, inp: Seq<T::V>) -> bool {
        true
    }

    open spec fn spec_next_state(&self, state: usize, inp: Seq<T::V>) -> Result<usize, Seq<char>> {
        if self.k > inp.len() {
            Err(out_of_bounds())
        } else {
            Ok(self.k)
        }
    }

    open spec fn next_values_ok(&self, state: usize, inp: Option<Seq<T::V>>) -> bool {
        true
    }

    open spec fn spec_next_values(&self, state: usize, inp: Option<Seq<T::V>>) -> Result<
        (usize, Option<Seq<T::V>>),
        Seq<char>,
    > {
        match inp {
            None => Ok((state, None)),
            Some(i) => if self.k > i.len() {
                Err(out_of_bounds())
            } else {
                Ok((self.k, Some(i.take(self.k as int))))
            },
        }
    }

    open spec fn step_ok(self, inp: Option<Seq<T::V>>) -> bool {
        true
    }

    /// A step gives the first k elements; the machine does not change.
    open spec fn spec_step(self, inp: Option<Seq<T::V>>) -> (Self, Result<Option<Seq<T::V>>, Seq<char>>) {
        match self.spec_next_values(self.k, inp) {
            Ok((_, o)) => (self, Ok(o)),
            Err(e) => (self, Err(e)),
        }
    }

    open spec fn spec_name() -> Seq<char> {
        "Selector"@
    }

    open spec fn spec_is_composite() -> bool {
        false
    }

    fn new(num_elements: usize) -> (r: Self) {
        Selector { k: num_elements, elems: core::marker::PhantomData }
    }

    fn start(&mut self) {
    }

    fn get_current_state(&self) -> (r: usize) {
        self.k
    }

    fn get_next_state(&self, state: &usize, inp: &Vec<T>) -> (r: Result<usize, String>) {
        let r: Result<usize, String> = if self.k > inp.len() {
            Err(text("Requested index out of bounds"))
        } else {
            Ok(self.k)
        };
        assert(res_view(r) == self.spec_next_state(*state, inp.deep_view()));
        r
    }

    fn get_next_values(&self, state: &usize, inp: Option<&Vec<T>>) -> (r: Result<
        (usize, Option<Vec<T>>),
        String,
    >) {
        match inp {
            None => {
                let r: Result<(usize, Option<Vec<T>>), String> = Ok((*state, None));
                assert(opt_dv::<Vec<T>>(None) == None::<Seq<T::V>>);
                assert(values_view(r) == self.spec_next_values(*state, None));
                r
            },
            Some(inp) => {
                assert(self.next_state_ok(*state, inp.deep_view()));
                let next_state = self.get_next_state(state, inp)?;
                let res = first_elems(inp, self.k);
                let r: Result<(usize, Option<Vec<T>>), String> = Ok((next_state, Some(res)));
                assert(values_view(r) == self.spec_next_values(*state, Some(inp.deep_view())));
                r
            },
        }
    }

    fn step(&mut self, inp: Option<&Vec<T>>, verbose: bool, depth: usize) -> (r: Result<
        Option<Vec<T>>,
        String,
    >) {
        assert(self.next_values_ok(self.k, opt_dv(inp)));
        let outp = self.get_next_values(&self.k, inp)?;
        Ok(outp.1)
    }

    fn state_machine_name(&self) -> (r: String) {
        text("Selector")
    }

    fn is_composite(&self) -> (r: bool) {
        false
    }
}

} // verus!
