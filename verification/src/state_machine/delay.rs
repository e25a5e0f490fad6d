//! # Delay
//! A machine whose output is its previous input: it outputs its state and
//! keeps the input as its next state.
use vstd::prelude::*;
use super::{StateMachine, opt_dv, values_view, res_view, spec_transduce};
use crate::number::Number;
use crate::text::text;

verus! {

broadcast use vstd::string::group_string_axioms;

pub struct Delay<T: Number> {
    pub state: T,
}

/// Every value, present.
pub open spec fn all_present<T>(xs: Seq<T>) -> Seq<Option<T>> {
    xs.map_values(|x: T| Some(x))
}

/// A delay shifts its inputs by one: its first output is its start state,
/// and each later output is the input before; it ends holding the last
/// input.
pub proof fn lemma_delay_shifts<T: Number>(start: T, xs: Seq<T>)
    ensures
        spec_transduce(Delay { state: start }, all_present(xs)).0.state == if xs.len() == 0 {
            start
        } else {
            xs.last()
        },
        spec_transduce(Delay { state: start }, all_present(xs)).1.len() == xs.len(),
        forall|k: int|
            0 <= k < xs.len() ==> #[trigger] spec_transduce(Delay { state: start }, all_present(xs)).1[k]
                == Ok::<Option<T>, Seq<char>>(Some(if k == 0 { start } else { xs[k - 1] })),
    decreases xs.len(),
{
    if xs.len() > 0 {
        let d = xs.drop_last();
        assert(all_present(xs).drop_last() =~= all_present(d));
        lemma_delay_shifts(start, d);
        let out = spec_transduce(Delay { state: start }, all_present(xs)).1;
        assert forall|k: int| 0 <= k < xs.len() implies #[trigger] out[k] == Ok::<Option<T>, Seq<char>>(
            Some(if k == 0 { start } else { xs[k - 1] }),
        ) by {
            if k < xs.len() - 1 {
                if k > 0 {
                    assert(d[k - 1] == xs[k - 1]);
                }
            } else if k > 0 {
                assert(d.last() == xs[k - 1]);
            }
        }
    }
}

impl<T: Number> StateMachine for Delay<T> {
    /// The previous input.
    type StateType = T;
    type InputType = T;
    type OutputType = T;
    type InputView = T;
    type OutputView = T;

    open spec fn spec_new(initial_value: T) -> Self {
        Delay { state: initial_value }
    }

    open spec fn spec_start(self) -> Self {
        self
    }

    open spec fn spec_current_state(&self) -> T {
        self.state
    }

    open spec fn next_state_ok(&self, state: T, inp: T) -> bool {
        true
    }

    open spec fn spec_next_state(&self, state: T, inp: T) -> Result<T, Seq<char>> {
        Ok(state)
    }

    open spec fn next_values_ok(&self, state: T, inp: Option<T>) -> bool {
        true
    }

    /// Without input the machine keeps and outputs its state.
    open spec fn spec_next_values(&self, state: T, inp: Option<T>) -> Result<(T, Option<T>), Seq<char>> {
        match inp {
            None => Ok((state, Some(state))),
            Some(i) => Ok((i, Some(state))),
        }
    }

    open spec fn step_ok(self, inp: Option<T>) -> bool {
        true
    }

    open spec fn spec_step(self, inp: Option<T>) -> (Self, Result<Option<T>, Seq<char>>) {
        match inp {
            None => (self, Ok(Some(self.state))),
            Some(i) => (Delay { state: i }, Ok(Some(self.state))),
        }
    }

    open spec fn spec_name() -> Seq<char> {
        "Delay"@
    }

    open spec fn spec_is_composite() -> bool {
        false
    }

    fn new(initial_value: T) -> (r: Self) {
        Delay { state: initial_value }
    }

    fn start(&mut self) {
    }

    fn get_current_state(&self) -> (r: T) {
        self.state
    }

    fn get_next_state(&self, state: &T, inp: &T) -> (r: Result<T, String>) {
        let r: Result<T, String> = Ok(*state);
        assert(res_view(r) == self.spec_next_state(*state, (*inp).deep_view()));
        r
    }

    fn get_next_values(&self, state: &T, inp: Option<&T>) -> (r: Result<(T, Option<T>), String>) {
        proof {
            T::lemma_deep_view(*state);
        }
        match inp {
            None => {
                let r: Result<(T, Option<T>), String> = Ok((*state, Some(*state)));
                assert(opt_dv::<T>(None) == None::<T>);
                assert(values_view(r) == self.spec_next_values(*state, None));
                r
            },
            Some(inp) => {
                proof {
                    T::lemma_deep_view(*inp);
                }
                assert(self.next_state_ok(*state, *inp));
                let next_state = self.get_next_state(state, inp)?;
                let r: Result<(T, Option<T>), String> = Ok((*inp, Some(next_state)));
                assert(values_view(r) == self.spec_next_values(*state, Some(*inp)));
                r
            },
        }
    }

    fn step(&mut self, inp: Option<&T>, verbose: bool, depth: usize) -> (r: Result<Option<T>, String>) {
        let outp = self.get_next_values(&self.state, inp)?;
        self.state = outp.0;
        Ok(outp.1)
    }

    fn state_machine_name(&self) -> (r: String) {
        text("Delay")
    }

    fn is_composite(&self) -> (r: bool) {
        false
    }
}

} // verus!
