//! # UpDown
//! A counter: on 'u' it goes up by one, on 'd' down by one; the output is
//! the new count. Any other character is an error.
use vstd::prelude::*;
use super::{StateMachine, opt_dv, values_view, res_view, spec_transduce, transduce_ok};
use crate::text::text;

verus! {

broadcast use vstd::string::group_string_axioms;

pub struct UpDown {
    pub state: i64,
}

/// The count after a character, or the error for a character other than
/// 'u' and 'd'.
pub open spec fn updown_next(state: i64, inp: char) -> Result<i64, Seq<char>> {
    if inp == 'u' {
        Ok((state + 1) as i64)
    } else if inp == 'd' {
        Ok((state - 1) as i64)
    } else {
        Err("Invalid char for UpDown"@)
    }
}

/// The count stays within `i64`.
pub open spec fn updown_ok(state: i64, inp: char) -> bool {
    &&& inp == 'u' ==> state < i64::MAX
    &&& inp == 'd' ==> state > i64::MIN
}

/// How many inputs are the character `c`.
pub open spec fn count_of(inps: Seq<Option<char>>, c: char) -> int
    decreases inps.len(),
{
    if inps.len() == 0 {
        0
    } else {
        count_of(inps.drop_last(), c) + if inps.last() == Some(c) {
            1int
        } else {
            0int
        }
    }
}

/// Every input is 'u' or 'd'.
pub open spec fn ups_and_downs(inps: Seq<Option<char>>) -> bool {
    forall|i: int| 0 <= i < inps.len() ==> #[trigger] inps[i] == Some('u') || inps[i] == Some('d')
}

/// The counter counts: after a run of 'u's and 'd's, its count, and each
/// output, is the start plus the 'u's so far minus the 'd's so far.
pub proof fn lemma_updown_counts(start: i64, inps: Seq<Option<char>>)
    requires
        ups_and_downs(inps),
        transduce_ok(UpDown { state: start }, inps),
    ensures
        spec_transduce(UpDown { state: start }, inps).0.state == start + count_of(inps, 'u') - count_of(
            inps,
            'd',
        ),
        spec_transduce(UpDown { state: start }, inps).1.len() == inps.len(),
        forall|k: int|
            0 <= k < inps.len() ==> #[trigger] spec_transduce(UpDown { state: start }, inps).1[k] == Ok::<
                Option<i64>,
                Seq<char>,
            >(Some((start + count_of(inps.take(k + 1), 'u') - count_of(inps.take(k + 1), 'd')) as i64)),
    decreases inps.len(),
{
    let m = UpDown { state: start };
    if inps.len() > 0 {
        let d = inps.drop_last();
        assert forall|i: int| 0 <= i < d.len() implies #[trigger] d[i] == Some('u') || d[i] == Some('d') by {
            assert(d[i] == inps[i]);
        }
        lemma_updown_counts(start, d);
        let (m1, rs) = spec_transduce(m, d);
        assert(m1.step_ok(inps.last()));
        assert(inps[inps.len() - 1] == Some('u') || inps[inps.len() - 1] == Some('d'));
        let out = spec_transduce(m, inps).1;
        assert forall|k: int| 0 <= k < inps.len() implies #[trigger] out[k] == Ok::<Option<i64>, Seq<char>>(
            Some((start + count_of(inps.take(k + 1), 'u') - count_of(inps.take(k + 1), 'd')) as i64),
        ) by {
            if k < inps.len() - 1 {
                assert(d.take(k + 1) =~= inps.take(k + 1));
            } else {
                assert(inps.take(k + 1) =~= inps);
            }
        }
    }
}

impl StateMachine for UpDown {
    /// The count.
    type StateType = i64;
    /// 'u' or 'd'.
    type InputType = char;
    /// The count.
    type OutputType = i64;
    type InputView = char;
    type OutputView = i64;

    open spec fn spec_new(initial_value: i64) -> Self {
        UpDown { state: initial_value }
    }

    open spec fn spec_start(self) -> Self {
        UpDown { state: 0 }
    }

    open spec fn spec_current_state(&self) -> i64 {
        self.state
    }

    open spec fn next_state_ok(&self, state: i64, inp: char) -> bool {
        updown_ok(state, inp)
    }

    open spec fn spec_next_state(&self, state: i64, inp: char) -> Result<i64, Seq<char>> {
        updown_next(state, inp)
    }

    open spec fn next_values_ok(&self, state: i64, inp: Option<char>) -> bool {
        match inp {
            None => true,
            Some(c) => updown_ok(state, c),
        }
    }

    open spec fn spec_next_values(&self, state: i64, inp: Option<char>) -> Result<(i64, Option<i64>), Seq<char>> {
        match inp {
            None => Ok((state, None)),
            Some(c) => match updown_next(state, c) {
                Ok(s) => Ok((s, Some(s))),
                Err(e) => Err(e),
            },
        }
    }

    open spec fn step_ok(self, inp: Option<char>) -> bool {
        self.next_values_ok(self.state, inp)
    }

    open spec fn spec_step(self, inp: Option<char>) -> (Self, Result<Option<i64>, Seq<char>>) {
        match self.spec_next_values(self.state, inp) {
            Ok((s, o)) => (UpDown { state: s }, Ok(o)),
            Err(e) => (self, Err(e)),
        }
    }

    open spec fn spec_name() -> Seq<char> {
        "UpDown"@
    }

    open spec fn spec_is_composite() -> bool {
        false
    }

    fn new(initial_value: i64) -> (r: Self) {
        UpDown { state: initial_value }
    }

    fn start(&mut self) {
        self.state = 0;
    }

    fn get_current_state(&self) -> (r: i64) {
        self.state
    }

    fn get_next_state(&self, state: &i64, inp: &char) -> (r: Result<i64, String>) {
        let inp = *inp;
        let state = *state;
        assert(self.next_state_ok(state, inp));
        let r: Result<i64, String> = if inp == 'u' {
            Ok(state + 1)
        } else if inp == 'd' {
            Ok(state - 1)
        } else {
            Err(text("Invalid char for UpDown"))
        };
        assert(res_view(r) == self.spec_next_state(state, inp));
        r
    }

    fn get_next_values(&self, state: &i64, inp: Option<&char>) -> (r: Result<(i64, Option<i64>), String>) {
        match inp {
            None => {
                let r: Result<(i64, Option<i64>), String> = Ok((*state, None));
                assert(opt_dv::<char>(None) == None::<char>);
                assert(values_view(r) == self.spec_next_values(*state, None));
                r
            },
            Some(inp) => {
                assert(self.next_state_ok(*state, *inp));
                let next_state = self.get_next_state(state, inp)?;
                let r: Result<(i64, Option<i64>), String> = Ok((next_state, Some(next_state)));
                assert(values_view(r) == self.spec_next_values(*state, Some(*inp)));
                r
            },
        }
    }

    fn step(&mut self, inp: Option<&char>, verbose: bool, depth: usize) -> (r: Result<Option<i64>, String>) {
        let outp = self.get_next_values(&self.state, inp)?;
        self.state = outp.0;
        Ok(outp.1)
    }

    fn state_machine_name(&self) -> (r: String) {
        text("UpDown")
    }

    fn is_composite(&self) -> (r: bool) {
        false
    }
}

} // verus!
