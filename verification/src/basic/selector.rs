//! # Selector
//! A machine whose output is the first k elements of its input; an input
//! shorter than k is an error.
use vstd::prelude::*;
use super::{StateMachine, pair_view, out_view};
use crate::state_machine::res_view;
use crate::text::text;

verus! {

broadcast use vstd::string::group_string_axioms;

#[derive(Debug)]
pub struct Selector<T: Copy + DeepView> {
    pub k: usize,
    /// The element type of the vectors that the machine reads.
    pub elems: core::marker::PhantomData<T>,
}

/// The error for an input shorter than k.
pub open spec fn out_of_bounds() -> Seq<char> {
    "Requested index out of bounds"@
}

/// The first `k` elements of a vector.
pub fn first_elems<T: Copy + DeepView>(v: &Vec<T>, k: usize) -> (r: Vec<T>)
    requires
        k <= v@.len(),
    ensures
        r@ == v@.take(k as int),
        r.deep_view() == v.deep_view().take(k as int),
{
    let mut r: Vec<T> = Vec::new();
    let mut i: usize = 0;
    while i < k
        invariant
            k <= v@.len(),
            i <= k,
            r@ == v@.take(i as int),
        decreases k - i,
    {
        r.push(v[i]);
        proof {
            assert(v@.take(i + 1) =~= v@.take(i as int).push(v@[i as int]));
        }
        i = i + 1;
    }
    assert(r.deep_view() =~= v.deep_view().take(k as int));
    r
}

impl<T: Copy + DeepView> StateMachine for Selector<T> {
    /// The number of elements kept.
    type StateType = usize;
    type InputType = Vec<T>;
    type OutputType = Vec<T>;
    type InputView = Seq<T::V>;
    type OutputView = Seq<T::V>;

    open spec fn spec_new(initial_value: usize) -> Self {
        Selector { k: initial_value, elems: core::marker::PhantomData }
    }

    open spec fn spec_start(self) -> Self {
        self
    }

    open spec fn next_state_ok(&self, state: usize, inp: Seq<T::V>) -> bool {
        true
    }

    open spec fn spec_next_state(&self, state: usize, inp: Seq<T::V>) -> Result<usize, Seq<char>> {
        if self.k > inp.len() {
            Err(out_of_bounds())
        } else {
            Ok(self.k)
        }
    }

    open spec fn next_values_ok(&self, state: usize, inp: Seq<T::V>) -> bool {
        true
    }

    open spec fn spec_next_values(&self, state: usize, inp: Seq<T::V>) -> Result<(usize, Seq<T::V>), Seq<char>> {
        if self.k > inp.len() {
            Err(out_of_bounds())
        } else {
            Ok((self.k, inp.take(self.k as int)))
        }
    }

    open spec fn step_ok(self, inp: Seq<T::V>) -> bool {
        true
    }

    /// A step gives the first k elements; the machine does not change.
    open spec fn spec_step(self, inp: Seq<T::V>) -> (Self, Result<Seq<T::V>, Seq<char>>) {
        match self.spec_next_values(self.k, inp) {
            Ok((_, o)) => (self, Ok(o)),
            Err(e) => (self, Err(e)),
        }
    }

    fn new(num_elements: usize) -> (r: Self) {
        Selector { k: num_elements, elems: core::marker::PhantomData }
    }

    fn start(&mut self) {
    }

    fn get_next_state(&self, state: &usize, inp: &Vec<T>) -> (r: Result<usize, String>) {
        let r: Result<usize, String> = if self.k > inp.len() {
            Err(text("Requested index out of bounds"))
        } else {
            Ok(self.k)
        };
        assert(res_view(r) == self.spec_next_state(*state, inp.deep_view()));
        r
    }

    fn get_next_values(&self, state: &usize, inp: &Vec<T>) -> (r: Result<(usize, Vec<T>), String>) {
        assert(self.next_state_ok(*state, inp.deep_view()));
        let next_state = self.get_next_state(state, inp)?;
        let res = first_elems(inp, self.k);
        let r: Result<(usize, Vec<T>), String> = Ok((next_state, res));
        assert(pair_view(r) == self.spec_next_values(*state, inp.deep_view()));
        r
    }

    fn step(&mut self, inp: &Vec<T>) -> (r: Result<Vec<T>, String>) {
        assert(self.next_values_ok(self.k, inp.deep_view()));
        let outp = self.get_next_values(&self.k, inp)?;
        Ok(outp.1)
    }
}

} // verus!
