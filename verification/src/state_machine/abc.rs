//! # ABC State Machine
//! A finite-state machine whose output is true while the input string
//! adheres to the pattern a, b, c, a, b, c, ... and false once it has
//! deviated from it.
use vstd::prelude::*;
use super::{StateMachine, opt_dv, values_view, spec_transduce};
use crate::text::text;

verus! {

broadcast use vstd::string::group_string_axioms;

pub struct ABC {
    pub state: i8,
}

/// The transition of the ABC machine on a present input. States 0, 1 and 2
/// expect an a, b and c respectively; state 3 rejects for ever. Characters
/// other than a, b and c are an error.
pub open spec fn abc_transition(state: i8, inp: char) -> Result<(i8, Option<bool>), Seq<char>> {
    if state == 0 && inp == 'a' {
        Ok((1, Some(true)))
    } else if state == 1 && inp == 'b' {
        Ok((2, Some(true)))
    } else if state == 2 && inp == 'c' {
        Ok((0, Some(true)))
    } else if inp != 'a' && inp != 'b' && inp != 'c' {
        Err("Unsupported character"@)
    } else {
        Ok((3, Some(false)))
    }
}

/// The character that state 0, 1 or 2 expects: a, b and c in turn.
pub open spec fn expected(state: i8) -> char {
    if state == 0 {
        'a'
    } else if state == 1 {
        'b'
    } else {
        'c'
    }
}

/// How the machine answers a, b or c: in states 0 to 2 the expected
/// character accepts (true) and moves on to the next of the three states,
/// and any other of the three rejects (false) into state 3; state 3 rejects
/// every one of them and stays. Any other character is an error.
pub proof fn lemma_abc_answers(state: i8, c: char)
    requires
        0 <= state <= 3,
    ensures
        (c == 'a' || c == 'b' || c == 'c') && state < 3 && c == expected(state) ==> abc_transition(state, c)
            == Ok::<(i8, Option<bool>), Seq<char>>((if state == 2 { 0i8 } else { (state + 1) as i8 }, Some(true))),
        (c == 'a' || c == 'b' || c == 'c') && (state == 3 || c != expected(state)) ==> abc_transition(
            state,
            c,
        ) == Ok::<(i8, Option<bool>), Seq<char>>((3, Some(false))),
        !(c == 'a' || c == 'b' || c == 'c') ==> abc_transition(state, c) is Err,
{
}

/// Once the pattern is broken (state 3), the machine rejects for ever: over
/// any run of a, b and c it stays in state 3 and every answer is false.
pub proof fn lemma_abc_rejects_for_ever(m: ABC, inps: Seq<Option<char>>)
    requires
        m.state == 3,
        forall|k: int| 0 <= k < inps.len() ==> #[trigger] inps[k] == Some('a') || inps[k] == Some('b') || inps[k] == Some('c'),
    ensures
        spec_transduce(m, inps).0.state == 3,
        spec_transduce(m, inps).1.len() == inps.len(),
        forall|k: int| 0 <= k < inps.len() ==> #[trigger] spec_transduce(m, inps).1[k] == Ok::<Option<bool>, Seq<char>>(Some(false)),
    decreases inps.len(),
{
    if inps.len() > 0 {
        let init = inps.drop_last();
        assert forall|k: int| 0 <= k < init.len() implies #[trigger] init[k] == Some('a') || init[k] == Some('b') || init[k] == Some('c') by {
            assert(init[k] == inps[k]);
        }
        lemma_abc_rejects_for_ever(m, init);
        assert(inps.last() == inps[inps.len() - 1]);
    }
}

impl StateMachine for ABC {
    /// A number from 0 to 3.
    type StateType = i8;
    /// a, b or c; any other character is an error.
    type InputType = char;
    /// Whether the pattern still holds.
    type OutputType = bool;
    type InputView = char;
    type OutputView = bool;

    open spec fn spec_new(initial_value: i8) -> Self {
        ABC { state: initial_value }
    }

    open spec fn spec_start(self) -> Self {
        ABC { state: 0 }
    }

    open spec fn spec_current_state(&self) -> i8 {
        self.state
    }

    open spec fn next_state_ok(&self, state: i8, inp: char) -> bool {
        true
    }

    open spec fn spec_next_state(&self, state: i8, inp: char) -> Result<i8, Seq<char>> {
        Ok(0)
    }

    open spec fn next_values_ok(&self, state: i8, inp: Option<char>) -> bool {
        true
    }

    open spec fn spec_next_values(&self, state: i8, inp: Option<char>) -> Result<
        (i8, Option<bool>),
        Seq<char>,
    > {
        match inp {
            None => Ok((state, None)),
            Some(c) => abc_transition(state, c),
        }
    }

    open spec fn step_ok(self, inp: Option<char>) -> bool {
        true
    }

    open spec fn spec_step(self, inp: Option<char>) -> (Self, Result<Option<bool>, Seq<char>>) {
        match self.spec_next_values(self.state, inp) {
            Ok((s, o)) => (ABC { state: s }, Ok(o)),
            Err(e) => (self, Err(e)),
        }
    }

    open spec fn spec_name() -> Seq<char> {
        "ABC"@
    }

    open spec fn spec_is_composite() -> bool {
        false
    }

    fn new(initial_value: i8) -> (r: Self) {
        ABC { state: initial_value }
    }

    fn start(&mut self) {
        self.state = 0;
    }

    fn get_current_state(&self) -> (r: i8) {
        self.state
    }

    fn get_next_state(&self, state: &i8, inp: &char) -> (r: Result<i8, String>) {
        Ok(0)
    }

    fn get_next_values(&self, state: &i8, inp: Option<&char>) -> (r: Result<
        (i8, Option<bool>),
        String,
    >) {
        match inp {
            None => {
                let r: Result<(i8, Option<bool>), String> = Ok((*state, None));
                assert(opt_dv::<char>(None) == None::<char>);
                assert(values_view(r) == Ok::<(i8, Option<bool>), Seq<char>>((*state, None)));
                r
            },
            Some(inp) => {
                let state = *state;
                let inp = *inp;
                if state == 0 && inp == 'a' {
                    Ok((1, Some(true)))
                } else if state == 1 && inp == 'b' {
                    Ok((2, Some(true)))
                } else if state == 2 && inp == 'c' {
                    Ok((0, Some(true)))
                } else if inp != 'a' && inp != 'b' && inp != 'c' {
                    Err(text("Unsupported character"))
                } else {
                    Ok((3, Some(false)))
                }
            },
        }
    }

    fn step(&mut self, inp: Option<&char>, verbose: bool, depth: usize) -> (r: Result<
        Option<bool>,
        String,
    >) {
        let outp = self.get_next_values(&self.state, inp)?;
        self.state = outp.0;
        Ok(outp.1)
    }

    fn state_machine_name(&self) -> (r: String) {
        text("ABC")
    }

    fn is_composite(&self) -> (r: bool) {
        false
    }
}

} // verus!
