//! # StateMachine
//!
//! A collection of state machines in the style of MIT 6.01SC: machines whose
//! output depends on the whole history of their inputs. Every machine has a
//! pure transition (`get_next_values`) and a mutating `step`; composite
//! machines (`Cascade`, `Fork`, `Parallel`, `Feedback`, `Feedback2`) are built out of
//! other machines.
//!
//! Inputs and outputs are optional: a composite machine may feed `None` to
//! its constituents. Each machine states its behaviour as spec functions
//! (`spec_next_state`, `spec_next_values`, `spec_step`) over the deep views
//! of its inputs and outputs, so that composite machines can be specified
//! in terms of their parts.
use vstd::prelude::*;
use vstd::std_specs::cmp::PartialEqSpec;

pub mod abc;
pub mod negation;
pub mod cascade;
pub mod feedback;
pub mod feedback2;
pub mod accumulator;
pub mod gain;
pub mod increment;
pub mod delay;
pub mod wire;
pub mod updown;
pub mod simple_parking_gate;
pub mod adder;
pub mod multiplier;
pub mod fork;
pub mod parallel;
pub mod selector;

verus! {

/// Two optional values, as a machine that joins two paths takes or gives
/// them.
#[derive(Debug)]
pub struct DualValues<T1, T2> {
    pub val1: Option<T1>,
    pub val2: Option<T2>,
}

impl<T1: DeepView, T2: DeepView> DeepView for DualValues<T1, T2> {
    type V = DualValues<T1::V, T2::V>;

    open spec fn deep_view(&self) -> DualValues<T1::V, T2::V> {
        DualValues { val1: opt_own_dv(self.val1), val2: opt_own_dv(self.val2) }
    }
}

/// Two values are equal when both are absent or both present and equal.
pub open spec fn opt_eq_spec<T: PartialEq>(a: &Option<T>, b: &Option<T>) -> bool {
    match (a, b) {
        (Some(x), Some(y)) => x.eq_spec(y),
        (None, None) => true,
        _ => false,
    }
}

impl<T1: PartialEq, T2: PartialEq> PartialEq for DualValues<T1, T2> {
    /// Equal when the first values are equal and the second values are equal.
    fn eq(&self, rhs: &DualValues<T1, T2>) -> (r: bool) {
        let val1cmp = match &self.val1 {
            Some(lval1) => match &rhs.val1 {
                None => false,
                Some(rval1) => lval1 == rval1,
            },
            None => match &rhs.val1 {
                None => true,
                Some(_) => false,
            },
        };
        let val2cmp = match &self.val2 {
            Some(lval2) => match &rhs.val2 {
                None => false,
                Some(rval2) => lval2 == rval2,
            },
            None => match &rhs.val2 {
                None => true,
                Some(_) => false,
            },
        };
        val1cmp == true && val1cmp == val2cmp
    }
}

impl<T1: PartialEq, T2: PartialEq> vstd::std_specs::cmp::PartialEqSpecImpl for DualValues<T1, T2> {
    open spec fn obeys_eq_spec() -> bool {
        T1::obeys_eq_spec() && T2::obeys_eq_spec()
    }

    open spec fn eq_spec(&self, other: &DualValues<T1, T2>) -> bool {
        opt_eq_spec(&self.val1, &other.val1) && opt_eq_spec(&self.val2, &other.val2)
    }
}

/// `DualValues` compare field by field: two are equal when their first
/// values are both absent or both present and equal, and so are their
/// second values. Where the equality of both value types is an equivalence
/// relation, so is that of `DualValues`, and `==` follows it.
pub proof fn lemma_dual_values_eq<T1: PartialEq, T2: PartialEq>(
    a: DualValues<T1, T2>,
    b: DualValues<T1, T2>,
    c: DualValues<T1, T2>,
)
    requires
        vstd::laws_eq::obeys_eq::<T1>(),
        vstd::laws_eq::obeys_eq::<T2>(),
        forall|x: T1| #[trigger] x.eq_spec(&x),
        forall|y: T2| #[trigger] y.eq_spec(&y),
    ensures
        DualValues::<T1, T2>::obeys_eq_spec(),
        a.eq_spec(&b) == (opt_eq_spec(&a.val1, &b.val1) && opt_eq_spec(&a.val2, &b.val2)),
        a.eq_spec(&a),
        a.eq_spec(&b) == b.eq_spec(&a),
        a.eq_spec(&b) && b.eq_spec(&c) ==> a.eq_spec(&c),
{
    reveal(vstd::laws_eq::obeys_eq_spec_properties);
}

/// The two types of a pair of inputs.
pub trait DualInput {
    type T1;
    type T2;
}

impl<T1, T2> DualInput for DualValues<T1, T2> {
    type T1 = T1;
    type T2 = T2;
}

/// The deep view of an optional borrowed value.
pub open spec fn opt_dv<T: DeepView>(o: Option<&T>) -> Option<T::V> {
    match o {
        Some(x) => Some((*x).deep_view()),
        None => None,
    }
}

/// The deep view of an optional owned value.
pub open spec fn opt_own_dv<T: DeepView>(o: Option<T>) -> Option<T::V> {
    match o {
        Some(x) => Some(x.deep_view()),
        None => None,
    }
}

/// A result whose error message is taken by its characters.
pub open spec fn res_view<T>(r: Result<T, String>) -> Result<T, Seq<char>> {
    match r {
        Ok(x) => Ok(x),
        Err(e) => Err(e@),
    }
}

/// The view of a `get_next_values` result: the next state, and the deep view of the output.
pub open spec fn values_view<S, O: DeepView>(r: Result<(S, Option<O>), String>) -> Result<
    (S, Option<O::V>),
    Seq<char>,
> {
    match r {
        Ok((s, o)) => Ok((s, opt_own_dv(o))),
        Err(e) => Err(e@),
    }
}

/// The view of a `step` result.
pub open spec fn step_view<O: DeepView>(r: Result<Option<O>, String>) -> Result<
    Option<O::V>,
    Seq<char>,
> {
    match r {
        Ok(o) => Ok(opt_own_dv(o)),
        Err(e) => Err(e@),
    }
}

/// The view of a sequence of `step` results.
pub open spec fn steps_view<O: DeepView>(r: Seq<Result<Option<O>, String>>) -> Seq<
    Result<Option<O::V>, Seq<char>>,
> {
    r.map_values(|x: Result<Option<O>, String>| step_view(x))
}

/// The machine after stepping through `inps` in order, and the result of
/// every step.
pub open spec fn spec_transduce<M: StateMachine>(m: M, inps: Seq<Option<M::InputView>>) -> (
    M,
    Seq<Result<Option<M::OutputView>, Seq<char>>>,
)
    decreases inps.len(),
{
    if inps.len() == 0 {
        (m, Seq::empty())
    } else {
        let (m1, rs) = spec_transduce(m, inps.drop_last());
        let (m2, r) = m1.spec_step(inps.last());
        (m2, rs.push(r))
    }
}

/// Whether every step of `spec_transduce` is defined.
pub open spec fn transduce_ok<M: StateMachine>(m: M, inps: Seq<Option<M::InputView>>) -> bool
    decreases inps.len(),
{
    if inps.len() == 0 {
        true
    } else {
        transduce_ok(m, inps.drop_last()) && spec_transduce(m, inps.drop_last()).0.step_ok(
            inps.last(),
        )
    }
}

/// Every prefix of a sequence whose steps are all defined has all its steps defined.
pub proof fn lemma_transduce_ok_prefix<M: StateMachine>(m: M, inps: Seq<Option<M::InputView>>, k: int)
    requires
        transduce_ok(m, inps),
        0 <= k <= inps.len(),
    ensures
        transduce_ok(m, inps.take(k)),
    decreases inps.len(),
{
    if k == inps.len() {
        assert(inps.take(k) =~= inps);
    } else {
        assert(inps.drop_last().take(k) =~= inps.take(k));
        lemma_transduce_ok_prefix(m, inps.drop_last(), k);
    }
}

/// Transducing gives one result per input.
pub proof fn lemma_transduce_len<M: StateMachine>(m: M, inps: Seq<Option<M::InputView>>)
    ensures
        spec_transduce(m, inps).1.len() == inps.len(),
    decreases inps.len(),
{
    if inps.len() > 0 {
        lemma_transduce_len(m, inps.drop_last());
    }
}

/// The views of a sequence of optional inputs.
pub open spec fn inputs_view<I: DeepView>(inps: Seq<Option<I>>) -> Seq<Option<I::V>> {
    inps.map_values(|o: Option<I>| opt_own_dv(o))
}

/// The views of a sequence of present inputs, each wrapped in `Some`.
pub open spec fn present_inputs_view<I: DeepView>(inps: Seq<I>) -> Seq<Option<I::V>> {
    inps.map_values(|i: I| Some(i.deep_view()))
}

/// The view of a sequence of unwrapped step results.
pub open spec fn unwrapped_view<O: DeepView>(r: Seq<Result<O, String>>) -> Seq<Result<Option<O::V>, Seq<char>>> {
    r.map_values(|x: Result<O, String>| match x {
        Ok(o) => Ok(Some(o.deep_view())),
        Err(e) => Err(e@),
    })
}

/// A state machine: a state, a transition function from state and optional
/// input to next state and optional output, and a `step` that applies the
/// transition to the machine's own state.
pub trait StateMachine: Sized {
    type StateType;
    type InputType: DeepView<V = Self::InputView>;
    type OutputType: DeepView<V = Self::OutputView>;
    /// The mathematical value of an input.
    type InputView;
    /// The mathematical value of an output.
    type OutputView;

    /// The machine built by `new` from an initial state.
    spec fn spec_new(initial_value: Self::StateType) -> Self;

    /// The machine after `start`.
    spec fn spec_start(self) -> Self;

    /// The state that `step` starts from.
    spec fn spec_current_state(&self) -> Self::StateType;

    /// When `get_next_state` is defined (no arithmetic overflow).
    spec fn next_state_ok(&self, state: Self::StateType, inp: Self::InputView) -> bool;

    /// What `get_next_state` returns.
    spec fn spec_next_state(
        &self,
        state: Self::StateType,
        inp: Self::InputView,
    ) -> Result<Self::StateType, Seq<char>>;

    /// When `get_next_values` is defined (no arithmetic overflow).
    spec fn next_values_ok(
        &self,
        state: Self::StateType,
        inp: Option<Self::InputView>,
    ) -> bool;

    /// What `get_next_values` returns: next state and output.
    spec fn spec_next_values(
        &self,
        state: Self::StateType,
        inp: Option<Self::InputView>,
    ) -> Result<(Self::StateType, Option<Self::OutputView>), Seq<char>>;

    /// When `step` is defined (no arithmetic overflow).
    spec fn step_ok(self, inp: Option<Self::InputView>) -> bool;

    /// The machine after `step`, and what `step` returns.
    spec fn spec_step(self, inp: Option<Self::InputView>) -> (
        Self,
        Result<Option<Self::OutputView>, Seq<char>>,
    );

    /// The name of the machine.
    spec fn spec_name() -> Seq<char>;

    /// Whether the machine is built out of other machines.
    spec fn spec_is_composite() -> bool;

    /// Creates the machine from its initial state.
    fn new(initial_value: Self::StateType) -> (r: Self)
        ensures
            r == Self::spec_new(initial_value),
    ;

    /// Resets the machine to its start state, where it has one.
    fn start(&mut self)
        ensures
            *final(self) == old(self).spec_start(),
    ;

    /// The state that `step` starts from.
    fn get_current_state(&self) -> (r: Self::StateType)
        ensures
            r == self.spec_current_state(),
    ;

    /// Given a state and an input, the next state.
    fn get_next_state(&self, state: &Self::StateType, inp: &Self::InputType) -> (r: Result<
        Self::StateType,
        String,
    >)
        requires
            self.next_state_ok(*state, (*inp).deep_view()),
        ensures
            res_view(r) == self.spec_next_state(*state, (*inp).deep_view()),
    ;

    /// Given a state and an optional input, the next state and the output.
    /// It changes nothing.
    fn get_next_values(&self, state: &Self::StateType, inp: Option<&Self::InputType>) -> (r:
        Result<(Self::StateType, Option<Self::OutputType>), String>)
        requires
            self.next_values_ok(*state, opt_dv(inp)),
        ensures
            values_view(r) == self.spec_next_values(*state, opt_dv(inp)),
    ;

    /// Applies the transition to the machine's own state. The flags only
    /// describe how a caller wants the step traced; the machine itself
    /// prints nothing.
    fn step(&mut self, inp: Option<&Self::InputType>, verbose: bool, depth: usize) -> (r: Result<
        Option<Self::OutputType>,
        String,
    >)
        requires
            old(self).step_ok(opt_dv(inp)),
        ensures
            (*final(self), step_view(r)) == old(self).spec_step(opt_dv(inp)),
    ;

    /// The name of the machine.
    fn state_machine_name(&self) -> (r: String)
        ensures
            r@ == Self::spec_name(),
    ;

    /// Whether the machine is built out of other machines.
    fn is_composite(&self) -> (r: bool)
        ensures
            r == Self::spec_is_composite(),
    ;

    /// `get_next_values` on a present input, for machines and inputs where
    /// it gives an output.
    fn get_next_values_wrap_unwrap(&self, state: &Self::StateType, inp: &Self::InputType) -> (r: (
        Self::StateType,
        Self::OutputType,
    ))
        requires
            self.next_values_ok(*state, Some((*inp).deep_view())),
            self.spec_next_values(*state, Some((*inp).deep_view())) matches Ok((_, Some(_))),
        ensures
            self.spec_next_values(*state, Some((*inp).deep_view())) == Ok::<
                (Self::StateType, Option<Self::OutputView>),
                Seq<char>,
            >((r.0, Some(r.1.deep_view()))),
    {
        let res = self.get_next_values(state, Some(inp));
        let (s, o) = res.unwrap();
        (s, o.unwrap())
    }

    /// `step` on a present input, for machines and inputs where it gives an
    /// output.
    fn step_unwrap(&mut self, inp: &Self::InputType) -> (r: Self::OutputType)
        requires
            old(self).step_ok(Some((*inp).deep_view())),
            old(self).spec_step(Some((*inp).deep_view())).1 matches Ok(Some(_)),
        ensures
            old(self).spec_step(Some((*inp).deep_view())) == (
                *final(self),
                Ok::<Option<Self::OutputView>, Seq<char>>(Some(r.deep_view())),
            ),
    {
        let res = self.step(Some(inp), false, 0usize);
        res.unwrap().unwrap()
    }
}

/// Running a machine over a whole sequence of inputs.
pub trait Transducer: StateMachine {
    /// A transducer: steps through a sequence of optional inputs and
    /// returns the result of every step.
    fn transduce(&mut self, inp: Vec<Option<Self::InputType>>, verbose: bool, wait: bool) -> (r: Vec<
        Result<Option<Self::OutputType>, String>,
    >)
        requires
            transduce_ok(*old(self), inputs_view(inp@)),
        ensures
            (*final(self), steps_view(r@)) == spec_transduce(*old(self), inputs_view(inp@)),
    ;

    /// Wraps every input in `Some`, transduces, and unwraps every output;
    /// for machines and inputs where no step gives an empty output.
    fn transduce_wrap_unwrap(&mut self, inp: Vec<Self::InputType>, verbose: bool, wait: bool) -> (r:
        Vec<Result<Self::OutputType, String>>)
        requires
            transduce_ok(*old(self), present_inputs_view(inp@)),
            forall|k: int|
                0 <= k < inp@.len() ==> !(#[trigger] spec_transduce(
                    *old(self),
                    present_inputs_view(inp@),
                ).1[k] matches Ok(None)),
        ensures
            (*final(self), unwrapped_view(r@)) == spec_transduce(
                *old(self),
                present_inputs_view(inp@),
            ),
    ;
}

impl<M: StateMachine> Transducer for M {
    fn transduce(&mut self, inp: Vec<Option<Self::InputType>>, verbose: bool, wait: bool) -> (r: Vec<
        Result<Option<Self::OutputType>, String>,
    >)
    {
        let depth = 0usize;
        let mut res: Vec<Result<Option<Self::OutputType>, String>> = Vec::new();
        let ghost start = *self;
        let ghost views = inputs_view(inp@);
        let mut i: usize = 0;
        while i < inp.len()
            invariant
                0 <= i <= inp.len(),
                views == inputs_view(inp@),
                transduce_ok(start, views),
                (*self, steps_view(res@)) == spec_transduce(start, views.take(i as int)),
            decreases inp.len() - i,
        {
            proof {
                assert(views.take(i + 1).drop_last() =~= views.take(i as int));
                assert(views.take(i + 1).last() == views[i as int]);
                lemma_transduce_ok_prefix(start, views, i as int + 1);
            }
            let ghost prev = res@;
            let cur_inp = inp[i].as_ref();
            assert(opt_dv(cur_inp) == views[i as int]);
            let cur = self.step(cur_inp, verbose, depth);
            res.push(cur);
            proof {
                assert(steps_view(res@) =~= steps_view(prev).push(step_view(cur)));
            }
            i = i + 1;
        }
        proof {
            assert(views.take(inp.len() as int) =~= views);
        }
        res
    }

    fn transduce_wrap_unwrap(&mut self, inp: Vec<Self::InputType>, verbose: bool, wait: bool) -> (r:
        Vec<Result<Self::OutputType, String>>)
    {
        let ghost views = present_inputs_view(inp@);
        let mut wrapped: Vec<Option<Self::InputType>> = Vec::new();
        for x in it: inp
            invariant
                inputs_view(wrapped@) =~= present_inputs_view(it.seq().take(it.index() as int)),
        {
            let ghost k = it.index() as int;
            let ghost prev = wrapped@;
            assert(x == it.seq()[k]);
            wrapped.push(Some(x));
            proof {
                assert(it.seq().take(k + 1) =~= it.seq().take(k).push(x));
                assert(inputs_view(wrapped@) =~= inputs_view(prev).push(Some(x.deep_view())));
            }
        }
        assert(inputs_view(wrapped@) =~= views);
        let ghost spec_out = spec_transduce(*self, views).1;
        proof {
            lemma_transduce_len(*self, views);
        }
        let results = self.transduce(wrapped, verbose, false);
        let mut unwrapped: Vec<Result<Self::OutputType, String>> = Vec::new();
        assert(steps_view(results@) == spec_out);
        assert(results@.len() == views.len());
        for cur in it: results
            invariant
                it.seq() == results@,
                results@.len() == views.len(),
                steps_view(results@) == spec_out,
                forall|k: int| 0 <= k < views.len() ==> !(#[trigger] spec_out[k] matches Ok(None)),
                unwrapped_view(unwrapped@) =~= spec_out.take(it.index() as int),
        {
            let ghost k = it.index() as int;
            proof {
                assert(step_view(results@[k]) == spec_out[k]);
                assert(spec_out.take(k + 1) =~= spec_out.take(k).push(spec_out[k]));
            }
            let ghost prev = unwrapped@;
            match cur {
                Ok(good) => {
                    let v = good.unwrap();
                    unwrapped.push(Ok(v));
                },
                Err(e) => {
                    unwrapped.push(Err(e));
                },
            }
            proof {
                assert(unwrapped@ == prev.push(unwrapped@.last()));
                assert(unwrapped_view(unwrapped@) =~= unwrapped_view(prev).push(spec_out[k]));
            }
        }
        assert(spec_out.take(views.len() as int) =~= spec_out);
        unwrapped
    }
}

} // verus!
