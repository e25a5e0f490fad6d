//! # Basic state machines
//!
//! The first, simpler form of the state machines: every step takes an
//! input and gives an output. A machine has a pure transition
//! (`get_next_values`) and a mutating `step`; `transduce` runs a machine
//! over a sequence of inputs.
use vstd::prelude::*;
use crate::state_machine::res_view;

pub mod abc;
pub mod updown;
pub mod selector;
pub mod simple_parking_gate;
pub mod cascade;
pub mod accumulator;
pub mod gain;
pub mod increment;
pub mod delay;
pub mod sumlast3;

verus! {

/// The view of a `get_next_values` result: the next state, and the deep
/// view of the output.
pub open spec fn pair_view<S, O: DeepView>(r: Result<(S, O), String>) -> Result<(S, O::V), Seq<char>> {
    match r {
        Ok((s, o)) => Ok((s, o.deep_view())),
        Err(e) => Err(e@),
    }
}

/// The view of a `step` result.
pub open spec fn out_view<O: DeepView>(r: Result<O, String>) -> Result<O::V, Seq<char>> {
    match r {
        Ok(o) => Ok(o.deep_view()),
        Err(e) => Err(e@),
    }
}

/// The views of a sequence of `step` results.
pub open spec fn outs_view<O: DeepView>(r: Seq<Result<O, String>>) -> Seq<Result<O::V, Seq<char>>> {
    r.map_values(|x: Result<O, String>| out_view(x))
}

/// The views of a sequence of inputs.
pub open spec fn ins_view<I: DeepView>(inps: Seq<I>) -> Seq<I::V> {
    inps.map_values(|i: I| i.deep_view())
}

/// The machine after stepping through `inps` in order, and the result of
/// every step.
pub open spec fn spec_transduce<M: StateMachine>(m: M, inps: Seq<M::InputView>) -> (
    M,
    Seq<Result<M::OutputView, Seq<char>>>,
)
    decreases inps.len(),
{
    if inps.len() == 0 {
        (m, Seq::empty())
    } else {
        let (m1, rs) = spec_transduce(m, inps.drop_last());
        let (m2, r) = m1.spec_step(inps.last());
        (m2, rs.push(r))
    }
}

/// Whether every step of `spec_transduce` is defined.
pub open spec fn transduce_ok<M: StateMachine>(m: M, inps: Seq<M::InputView>) -> bool
    decreases inps.len(),
{
    if inps.len() == 0 {
        true
    } else {
        transduce_ok(m, inps.drop_last()) && spec_transduce(m, inps.drop_last()).0.step_ok(inps.last())
    }
}

/// Every prefix of a sequence whose steps are all defined has all its steps defined.
pub proof fn lemma_transduce_ok_prefix<M: StateMachine>(m: M, inps: Seq<M::InputView>, k: int)
    requires
        transduce_ok(m, inps),
        0 <= k <= inps.len(),
    ensures
        transduce_ok(m, inps.take(k)),
    decreases inps.len(),
{
    if k == inps.len() {
        assert(inps.take(k) =~= inps);
    } else {
        assert(inps.drop_last().take(k) =~= inps.take(k));
        lemma_transduce_ok_prefix(m, inps.drop_last(), k);
    }
}

/// A state machine whose every step takes an input and gives an output.
pub trait StateMachine: Sized {
    type StateType;
    type InputType: DeepView<V = Self::InputView>;
    type OutputType: DeepView<V = Self::OutputView>;
    /// The mathematical value of an input.
    type InputView;
    /// The mathematical value of an output.
    type OutputView;

    /// The machine built by `new` from an initial state.
    spec fn spec_new(initial_value: Self::StateType) -> Self;

    /// The machine after `start`.
    spec fn spec_start(self) -> Self;

    /// When `get_next_state` is defined (no arithmetic overflow).
    spec fn next_state_ok(&self, state: Self::StateType, inp: Self::InputView) -> bool;

    /// What `get_next_state` returns.
    spec fn spec_next_state(&self, state: Self::StateType, inp: Self::InputView) -> Result<
        Self::StateType,
        Seq<char>,
    >;

    /// When `get_next_values` is defined (no arithmetic overflow).
    spec fn next_values_ok(&self, state: Self::StateType, inp: Self::InputView) -> bool;

    /// What `get_next_values` returns: next state and output.
    spec fn spec_next_values(&self, state: Self::StateType, inp: Self::InputView) -> Result<
        (Self::StateType, Self::OutputView),
        Seq<char>,
    >;

    /// When `step` is defined (no arithmetic overflow).
    spec fn step_ok(self, inp: Self::InputView) -> bool;

    /// The machine after `step`, and what `step` returns.
    spec fn spec_step(self, inp: Self::InputView) -> (Self, Result<Self::OutputView, Seq<char>>);

    /// Creates the machine from its initial state.
    fn new(initial_value: Self::StateType) -> (r: Self)
        ensures
            r == Self::spec_new(initial_value),
    ;

    /// Resets the machine to its start state.
    fn start(&mut self)
        ensures
            *final(self) == old(self).spec_start(),
    ;

    /// Given a state and an input, the next state.
    fn get_next_state(&self, state: &Self::StateType, inp: &Self::InputType) -> (r: Result<
        Self::StateType,
        String,
    >)
        requires
            self.next_state_ok(*state, (*inp).deep_view()),
        ensures
            res_view(r) == self.spec_next_state(*state, (*inp).deep_view()),
    ;

    /// Given a state and an input, the next state and the output. It
    /// changes nothing.
    fn get_next_values(&self, state: &Self::StateType, inp: &Self::InputType) -> (r: Result<
        (Self::StateType, Self::OutputType),
        String,
    >)
        requires
            self.next_values_ok(*state, (*inp).deep_view()),
        ensures
            pair_view(r) == self.spec_next_values(*state, (*inp).deep_view()),
    ;

    /// Applies the transition to the machine's own state.
    fn step(&mut self, inp: &Self::InputType) -> (r: Result<Self::OutputType, String>)
        requires
            old(self).step_ok((*inp).deep_view()),
        ensures
            (*final(self), out_view(r)) == old(self).spec_step((*inp).deep_view()),
    ;
}

/// Running a machine over a whole sequence of inputs.
pub trait Transducer: StateMachine {
    /// A transducer: steps through a sequence of inputs and returns the
    /// result of every step. The flags only describe how a caller wants
    /// the run traced.
    fn transduce(&mut self, inp: Vec<Self::InputType>, verbose: bool, wait: bool) -> (r: Vec<
        Result<Self::OutputType, String>,
    >)
        requires
            transduce_ok(*old(self), ins_view(inp@)),
        ensures
            (*final(self), outs_view(r@)) == spec_transduce(*old(self), ins_view(inp@)),
    ;
}

impl<M: StateMachine> Transducer for M {
    fn transduce(&mut self, inp: Vec<Self::InputType>, verbose: bool, wait: bool) -> (r: Vec<
        Result<Self::OutputType, String>,
    >) {
        let mut res: Vec<Result<Self::OutputType, String>> = Vec::new();
        let ghost start = *self;
        let ghost views = ins_view(inp@);
        let mut i: usize = 0;
        while i < inp.len()
            invariant
                0 <= i <= inp.len(),
                views == ins_view(inp@),
                transduce_ok(start, views),
                (*self, outs_view(res@)) == spec_transduce(start, views.take(i as int)),
            decreases inp.len() - i,
        {
            proof {
                assert(views.take(i + 1).drop_last() =~= views.take(i as int));
                assert(views.take(i + 1).last() == views[i as int]);
                lemma_transduce_ok_prefix(start, views, i as int + 1);
            }
            let ghost prev = res@;
            let cur = self.step(&inp[i]);
            res.push(cur);
            proof {
                assert(outs_view(res@) =~= outs_view(prev).push(out_view(cur)));
            }
            i = i + 1;
        }
        proof {
            assert(views.take(inp.len() as int) =~= views);
        }
        res
    }
}

} // verus!
