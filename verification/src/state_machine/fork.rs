//! # Fork
//! Two machines that read the same input; the output is the pair of their
//! outputs.
use vstd::prelude::*;
use super::{StateMachine, DualValues, opt_dv, values_view, step_view, res_view};
use crate::text::text;

verus! {

broadcast use vstd::string::group_string_axioms;

pub struct Fork<SM1, SM2> where SM1: StateMachine, SM2: StateMachine {
    pub sm1: SM1,
    pub sm2: SM2,
    pub state: (SM1::StateType, SM2::StateType),
}

impl<SM1, SM2> StateMachine for Fork<SM1, SM2> where
    SM1: StateMachine<InputType = <SM2 as StateMachine>::InputType, InputView = <SM2 as StateMachine>::InputView>,
    SM2: StateMachine,
    SM1::StateType: Copy,
    SM2::StateType: Copy,
 {
    type StateType = (SM1::StateType, SM2::StateType);
    type InputType = SM1::InputType;
    type OutputType = DualValues<SM1::OutputType, SM2::OutputType>;
    type InputView = SM1::InputView;
    type OutputView = DualValues<SM1::OutputView, SM2::OutputView>;

    open spec fn spec_new(initial_value: Self::StateType) -> Self {
        Fork {
            sm1: SM1::spec_new(initial_value.0),
            sm2: SM2::spec_new(initial_value.1),
            state: initial_value,
        }
    }

    open spec fn spec_start(self) -> Self {
        self
    }

    open spec fn spec_current_state(&self) -> Self::StateType {
        self.state
    }

    open spec fn next_state_ok(&self, state: Self::StateType, inp: Self::InputView) -> bool {
        &&& self.sm1.next_state_ok(state.0, inp)
        &&& (self.sm1.spec_next_state(state.0, inp) is Ok ==> self.sm2.next_state_ok(state.1, inp))
    }

    open spec fn spec_next_state(&self, state: Self::StateType, inp: Self::InputView) -> Result<
        Self::StateType,
        Seq<char>,
    > {
        match self.sm1.spec_next_state(state.0, inp) {
            Err(e) => Err(e),
            Ok(s1) => match self.sm2.spec_next_state(state.1, inp) {
                Err(e) => Err(e),
                Ok(s2) => Ok((s1, s2)),
            },
        }
    }

    open spec fn next_values_ok(&self, state: Self::StateType, inp: Option<Self::InputView>) -> bool {
        &&& self.sm1.next_values_ok(state.0, inp)
        &&& (self.sm1.spec_next_values(state.0, inp) is Ok ==> self.sm2.next_values_ok(state.1, inp))
    }

    open spec fn spec_next_values(&self, state: Self::StateType, inp: Option<Self::InputView>) -> Result<
        (Self::StateType, Option<Self::OutputView>),
        Seq<char>,
    > {
        match self.sm1.spec_next_values(state.0, inp) {
            Err(e) => Err(e),
            Ok((s1, o1)) => match self.sm2.spec_next_values(state.1, inp) {
                Err(e) => Err(e),
                Ok((s2, o2)) => Ok(((s1, s2), Some(DualValues { val1: o1, val2: o2 }))),
            },
        }
    }

    open spec fn step_ok(self, inp: Option<Self::InputView>) -> bool {
        &&& self.next_values_ok(self.state, inp)
        &&& (self.spec_next_values(self.state, inp) is Ok ==> {
            &&& self.sm1.step_ok(inp)
            &&& (self.sm1.spec_step(inp).1 is Ok ==> self.sm2.step_ok(inp))
        })
    }

    open spec fn spec_step(self, inp: Option<Self::InputView>) -> (
        Self,
        Result<Option<Self::OutputView>, Seq<char>>,
    ) {
        match self.spec_next_values(self.state, inp) {
            Err(e) => (self, Err(e)),
            Ok((s, o)) => {
                let (m1, r1) = self.sm1.spec_step(inp);
                match r1 {
                    Err(e) => (Fork { sm1: m1, ..self }, Err(e)),
                    Ok(_) => {
                        let (m2, r2) = self.sm2.spec_step(inp);
                        match r2 {
                            Err(e) => (Fork { sm1: m1, sm2: m2, ..self }, Err(e)),
                            Ok(_) => (Fork { sm1: m1, sm2: m2, state: s }, Ok(o)),
                        }
                    },
                }
            },
        }
    }

    open spec fn spec_name() -> Seq<char> {
        "Fork"@
    }

    open spec fn spec_is_composite() -> bool {
        true
    }

    fn new(initial_value: Self::StateType) -> (r: Self) {
        Fork { sm1: SM1::new(initial_value.0), sm2: SM2::new(initial_value.1), state: initial_value }
    }

    fn start(&mut self) {
    }

    fn get_current_state(&self) -> (r: Self::StateType) {
        self.state
    }

    fn get_next_state(&self, state: &Self::StateType, inp: &Self::InputType) -> (r: Result<
        Self::StateType,
        String,
    >) {
        let sm1_next_state = self.sm1.get_next_state(&state.0, inp)?;
        let sm2_next_state = self.sm2.get_next_state(&state.1, inp)?;
        Ok((sm1_next_state, sm2_next_state))
    }

    fn get_next_values(&self, state: &Self::StateType, inp: Option<&Self::InputType>) -> (r:
        Result<(Self::StateType, Option<Self::OutputType>), String>) {
        let sm1_next_values = self.sm1.get_next_values(&state.0, inp)?;
        let sm2_next_values = self.sm2.get_next_values(&state.1, inp)?;
        Ok(
            (
                (sm1_next_values.0, sm2_next_values.0),
                Some(DualValues { val1: sm1_next_values.1, val2: sm2_next_values.1 }),
            ),
        )
    }

    fn step(&mut self, inp: Option<&Self::InputType>, verbose: bool, depth: usize) -> (r: Result<
        Option<Self::OutputType>,
        String,
    >) {
        let outp = self.get_next_values(&self.state, inp)?;
        let _ = self.sm1.step(inp, verbose, depth.saturating_add(1))?;
        let _ = self.sm2.step(inp, verbose, depth.saturating_add(1))?;
        self.state = outp.0;
        Ok(outp.1)
    }

    fn state_machine_name(&self) -> (r: String) {
        text("Fork")
    }

    fn is_composite(&self) -> (r: bool) {
        true
    }
}

/// Builds a `Fork` out of two machines, taking their current states as
/// the fork's state.
pub struct ForkBuilder<SM1, SM2> where SM1: StateMachine, SM2: StateMachine {
    pub sm1: Option<SM1>,
    pub sm2: Option<SM2>,
    pub state: (Option<SM1::StateType>, Option<SM2::StateType>),
}

impl<SM1, SM2> ForkBuilder<SM1, SM2> where SM1: StateMachine, SM2: StateMachine {
    /// A builder with no machine yet.
    pub fn new() -> (r: ForkBuilder<SM1, SM2>)
        ensures
            r.sm1 is None,
            r.sm2 is None,
            r.state.0 is None,
            r.state.1 is None,
    {
        ForkBuilder { sm1: None, sm2: None, state: (None, None) }
    }

    /// Sets the first machine, and its current state as the first state.
    pub fn with_path1(self, input: SM1) -> (r: ForkBuilder<SM1, SM2>)
        ensures
            r == (ForkBuilder {
                sm1: Some(input),
                state: (Some(input.spec_current_state()), self.state.1),
                ..self
            }),
    {
        let mut s = self;
        s.state.0 = Some(input.get_current_state());
        s.sm1 = Some(input);
        s
    }

    /// Sets the second machine, and its current state as the second state.
    pub fn with_path2(self, input: SM2) -> (r: ForkBuilder<SM1, SM2>)
        ensures
            r == (ForkBuilder {
                sm2: Some(input),
                state: (self.state.0, Some(input.spec_current_state())),
                ..self
            }),
    {
        let mut s = self;
        s.state.1 = Some(input.get_current_state());
        s.sm2 = Some(input);
        s
    }

    /// The fork, or the first thing missing.
    pub fn build(self) -> (r: Result<Fork<SM1, SM2>, String>)
        ensures
            self.state.0 is None ==> (r matches Err(e) && e@ == "Missing initial state for 1st State Machine"@),
            self.state.0 is Some && self.state.1 is None ==> (r matches Err(e) && e@
                == "Missing initial state for 2nd State Machine."@),
            self.state.0 is Some && self.state.1 is Some && self.sm1 is None ==> (r matches Err(e)
                && e@ == "Missing 1st State Machine definition (with_path)"@),
            self.state.0 is Some && self.state.1 is Some && self.sm1 is Some && self.sm2 is None
                ==> (r matches Err(e) && e@ == "Missing 2nd State Machine Definition (with_path)"@),
            self.state.0 is Some && self.state.1 is Some && self.sm1 is Some && self.sm2 is Some
                ==> r == Ok::<Fork<SM1, SM2>, String>(
                Fork {
                    sm1: self.sm1.unwrap(),
                    sm2: self.sm2.unwrap(),
                    state: (self.state.0.unwrap(), self.state.1.unwrap()),
                },
            ),
    {
        let state1 = match self.state.0 {
            Some(val) => val,
            None => return Err(text("Missing initial state for 1st State Machine")),
        };
        let state2 = match self.state.1 {
            Some(val) => val,
            None => return Err(text("Missing initial state for 2nd State Machine.")),
        };
        let sm1 = match self.sm1 {
            Some(val) => val,
            None => return Err(text("Missing 1st State Machine definition (with_path)")),
        };
        let sm2 = match self.sm2 {
            Some(val) => val,
            None => return Err(text("Missing 2nd State Machine Definition (with_path)")),
        };
        Ok(Fork { sm1: sm1, sm2: sm2, state: (state1, state2) })
    }
}

} // verus!
