//! # Cascade
//! The output of a first machine becomes the input of a second machine.
use vstd::prelude::*;
use super::{StateMachine, opt_dv, opt_own_dv, values_view, step_view};
use crate::text::text;

verus! {

pub struct Cascade<SM1, SM2> where SM1: StateMachine, SM2: StateMachine {
    pub sm1: SM1,
    pub sm2: SM2,
    pub state: (SM1::StateType, SM2::StateType),
}

impl<SM1, SM2> StateMachine for Cascade<SM1, SM2> where
    SM1: StateMachine<OutputType = <SM2 as StateMachine>::InputType, OutputView = <SM2 as StateMachine>::InputView>,
    SM2: StateMachine,
    SM1::StateType: Copy,
    SM2::StateType: Copy,
 {
    type StateType = (SM1::StateType, SM2::StateType);
    type InputType = SM1::InputType;
    type OutputType = SM2::OutputType;
    type InputView = SM1::InputView;
    type OutputView = SM2::OutputView;

    open spec fn spec_new(initial_value: Self::StateType) -> Self {
        Cascade {
            sm1: SM1::spec_new(initial_value.0),
            sm2: SM2::spec_new(initial_value.1),
            state: initial_value,
        }
    }

    open spec fn spec_start(self) -> Self {
        self
    }

    open spec fn spec_current_state(&self) -> Self::StateType {
        self.state
    }

    open spec fn next_state_ok(
        &self,
        state: Self::StateType,
        inp: Self::InputView,
    ) -> bool {
        self.next_values_ok(state, Some(inp))
    }

    open spec fn spec_next_state(
        &self,
        state: Self::StateType,
        inp: Self::InputView,
    ) -> Result<Self::StateType, Seq<char>> {
        match self.spec_next_values(state, Some(inp)) {
            Ok((s, _)) => Ok(s),
            Err(e) => Err(e),
        }
    }

    open spec fn next_values_ok(
        &self,
        state: Self::StateType,
        inp: Option<Self::InputView>,
    ) -> bool {
        &&& self.sm1.next_values_ok(state.0, inp)
        &&& match self.sm1.spec_next_values(state.0, inp) {
            Ok((_, o1)) => self.sm2.next_values_ok(state.1, o1),
            Err(_) => true,
        }
    }

    open spec fn spec_next_values(
        &self,
        state: Self::StateType,
        inp: Option<Self::InputView>,
    ) -> Result<(Self::StateType, Option<Self::OutputView>), Seq<char>> {
        match self.sm1.spec_next_values(state.0, inp) {
            Err(e) => Err(e),
            Ok((s1, o1)) => match self.sm2.spec_next_values(state.1, o1) {
                Err(e) => Err(e),
                Ok((s2, o2)) => Ok(((s1, s2), o2)),
            },
        }
    }

    open spec fn step_ok(self, inp: Option<Self::InputView>) -> bool {
        &&& self.next_values_ok(self.state, inp)
        &&& (self.spec_next_values(self.state, inp) is Ok ==> {
            &&& self.sm1.step_ok(inp)
            &&& match self.sm1.spec_step(inp).1 {
                Ok(o1) => self.sm2.step_ok(o1),
                Err(_) => true,
            }
        })
    }

    open spec fn spec_step(self, inp: Option<Self::InputView>) -> (
        Self,
        Result<Option<Self::OutputView>, Seq<char>>,
    ) {
        match self.spec_next_values(self.state, inp) {
            Err(e) => (self, Err(e)),
            Ok((s, o)) => {
                let (m1, r1) = self.sm1.spec_step(inp);
                match r1 {
                    Err(e) => (Cascade { sm1: m1, ..self }, Err(e)),
                    Ok(o1) => {
                        let (m2, r2) = self.sm2.spec_step(o1);
                        match r2 {
                            Err(e) => (Cascade { sm1: m1, sm2: m2, ..self }, Err(e)),
                            Ok(_) => (Cascade { sm1: m1, sm2: m2, state: s }, Ok(o)),
                        }
                    },
                }
            },
        }
    }

    open spec fn spec_name() -> Seq<char> {
        "Cascade"@
    }

    open spec fn spec_is_composite() -> bool {
        true
    }

    fn new(initial_value: Self::StateType) -> (r: Self) {
        Cascade { sm1: SM1::new(initial_value.0), sm2: SM2::new(initial_value.1), state: initial_value }
    }

    fn start(&mut self) {
    }

    fn get_current_state(&self) -> (r: Self::StateType) {
        self.state
    }

    fn get_next_state(&self, state: &Self::StateType, inp: &Self::InputType) -> (r: Result<
        Self::StateType,
        String,
    >) {
        let sm1_next_value = self.sm1.get_next_values(&state.0, Some(inp))?;
        let sm2_next_value = self.sm2.get_next_values(&state.1, sm1_next_value.1.as_ref())?;
        Ok((sm1_next_value.0, sm2_next_value.0))
    }

    fn get_next_values(&self, state: &Self::StateType, inp: Option<&Self::InputType>) -> (r:
        Result<(Self::StateType, Option<Self::OutputType>), String>) {
        let sm1_next_value = self.sm1.get_next_values(&state.0, inp)?;
        let sm2_next_value = self.sm2.get_next_values(&state.1, sm1_next_value.1.as_ref())?;
        Ok(((sm1_next_value.0, sm2_next_value.0), sm2_next_value.1))
    }

    fn step(&mut self, inp: Option<&Self::InputType>, verbose: bool, depth: usize) -> (r: Result<
        Option<Self::OutputType>,
        String,
    >) {
        let outp = self.get_next_values(&self.state, inp)?;
        let sm1_outp = self.sm1.step(inp, verbose, depth.saturating_add(1))?;
        let _ = self.sm2.step(sm1_outp.as_ref(), verbose, depth.saturating_add(1))?;
        self.state = outp.0;
        Ok(outp.1)
    }

    fn state_machine_name(&self) -> (r: String) {
        text("Cascade")
    }

    fn is_composite(&self) -> (r: bool) {
        true
    }
}

/// Builds a `Cascade` out of a source machine and a destination machine,
/// taking their current states as its state.
pub struct CascadeBuilder<SM1, SM2> where SM1: StateMachine, SM2: StateMachine {
    pub sm1: Option<SM1>,
    pub sm2: Option<SM2>,
    pub state: (Option<SM1::StateType>, Option<SM2::StateType>),
}

impl<SM1, SM2> CascadeBuilder<SM1, SM2> where SM1: StateMachine, SM2: StateMachine {
    /// A builder with no machine yet.
    pub fn new() -> (r: CascadeBuilder<SM1, SM2>)
        ensures
            r.sm1 is None,
            r.sm2 is None,
            r.state.0 is None,
            r.state.1 is None,
    {
        CascadeBuilder { sm1: None, sm2: None, state: (None, None) }
    }

    /// Sets the source machine, and its current state as the first state.
    pub fn with_src(self, input: SM1) -> (r: CascadeBuilder<SM1, SM2>)
        ensures
            r == (CascadeBuilder {
                sm1: Some(input),
                state: (Some(input.spec_current_state()), self.state.1),
                ..self
            }),
    {
        let mut s = self;
        s.state.0 = Some(input.get_current_state());
        s.sm1 = Some(input);
        s
    }

    /// Sets the destination machine, and its current state as the second state.
    pub fn with_dst(self, input: SM2) -> (r: CascadeBuilder<SM1, SM2>)
        ensures
            r == (CascadeBuilder {
                sm2: Some(input),
                state: (self.state.0, Some(input.spec_current_state())),
                ..self
            }),
    {
        let mut s = self;
        s.state.1 = Some(input.get_current_state());
        s.sm2 = Some(input);
        s
    }

    /// The cascade, or the first thing missing.
    pub fn build(self) -> (r: Result<Cascade<SM1, SM2>, String>)
        ensures
            self.state.0 is None ==> (r matches Err(e) && e@ == "Missing initial state for Source State Machine"@),
            self.state.0 is Some && self.state.1 is None ==> (r matches Err(e) && e@
                == "Missing initial state for Destination State Machine."@),
            self.state.0 is Some && self.state.1 is Some && self.sm1 is None ==> (r matches Err(e)
                && e@ == "Missing Source State Machine definition (with_src)"@),
            self.state.0 is Some && self.state.1 is Some && self.sm1 is Some && self.sm2 is None
                ==> (r matches Err(e) && e@ == "Missing Destination State Machine Definition (with_dst)"@),
            self.state.0 is Some && self.state.1 is Some && self.sm1 is Some && self.sm2 is Some
                ==> r == Ok::<Cascade<SM1, SM2>, String>(
                Cascade {
                    sm1: self.sm1.unwrap(),
                    sm2: self.sm2.unwrap(),
                    state: (self.state.0.unwrap(), self.state.1.unwrap()),
                },
            ),
    {
        let src_state = match self.state.0 {
            Some(val) => val,
            None => return Err(text("Missing initial state for Source State Machine")),
        };
        let dst_state = match self.state.1 {
            Some(val) => val,
            None => return Err(text("Missing initial state for Destination State Machine.")),
        };
        let src = match self.sm1 {
            Some(val) => val,
            None => return Err(text("Missing Source State Machine definition (with_src)")),
        };
        let dst = match self.sm2 {
            Some(val) => val,
            None => return Err(text("Missing Destination State Machine Definition (with_dst)")),
        };
        Ok(Cascade { sm1: src, sm2: dst, state: (src_state, dst_state) })
    }
}

} // verus!
