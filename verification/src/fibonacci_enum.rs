//! Fibonacci numbers, counted from one (0, 1, 1, 2, ...), by recursion and
//! step by step.
use vstd::prelude::*;
use crate::fibo::{fibo, lemma_fibo_monotonic, seq_run, seq_run_fits, lemma_seq_run_fibo, ClosedForm, Solved};

verus! {

/// A solution and its target.
#[derive(PartialEq, Eq, Structural, Clone, Copy, Debug)]
pub enum Fibonacci {
    Sequential(u8),
    RecursiveSlow(u8),
    Poles(u8),
    Phi(u8),
}

/// What `fibo_sequential` gives: the target-th number, except 1 for the
/// first (the loop starts from the cache (0, 1) and only stops at 0 early).
pub open spec fn sequential_value(target: u8) -> nat {
    if target == 1 {
        1
    } else {
        fibo(target as nat)
    }
}

impl Fibonacci {
    /// The `target`-th number, by recursion.
    pub fn fibo_recursive(target: u8) -> (r: u64)
        requires
            fibo(target as nat) <= u64::MAX,
        ensures
            r == fibo(target as nat),
        decreases target,
    {
        if target == 0 {
            0
        } else if target == 1 {
            0
        } else if target == 2 {
            1
        } else {
            proof {
                lemma_fibo_monotonic((target - 1) as nat, target as nat);
            }
            Fibonacci::fibo_recursive(target - 1) + Fibonacci::fibo_recursive(target - 2)
        }
    }

    /// The `target`-th number, step by step from the cache (0, 1); 0 for
    /// the zeroth and 1 for the first.
    pub fn fibo_sequential(target: u8) -> (r: u64)
        requires
            fibo(target as nat) <= u64::MAX,
        ensures
            r == sequential_value(target),
    {
        let mut cache: Vec<u64> = vec![0u64, 1u64];
        if target < 1 {
            return cache[0];
        }
        if target == 1 {
            return cache[1];
        }
        let mut target = target;
        let ghost t = target;
        proof {
            lemma_seq_run_fibo(2, (t - 2) as nat);
            reveal_with_fuel(fibo, 3);
        }
        while target > 2
            invariant
                cache@.len() == 2,
                2 <= target <= t,
                seq_run(cache@[0] as nat, cache@[1] as nat, (target - 2) as nat) == seq_run(0, 1, (t - 2) as nat),
                seq_run_fits(cache@[0] as nat, cache@[1] as nat, (target - 2) as nat),
            decreases target,
        {
            let temp = cache[0];
            let c = cache[1];
            cache.set(0, c);
            cache.set(1, c + temp);
            target = target - 1;
        }
        cache[1]
    }

    /// The number of the solution: computed here for the step-by-step and
    /// recursive solutions, the closed form and target for the others.
    pub fn calc(&self) -> (r: Solved)
        requires
            match *self {
                Fibonacci::Sequential(v) => fibo(v as nat) <= u64::MAX,
                Fibonacci::RecursiveSlow(v) => fibo(v as nat) <= u64::MAX,
                _ => true,
            },
        ensures
            r == match *self {
                Fibonacci::Sequential(v) => Solved::Value(sequential_value(v) as u64),
                Fibonacci::RecursiveSlow(v) => Solved::Value(fibo(v as nat) as u64),
                Fibonacci::Poles(v) => Solved::ClosedForm(ClosedForm::Poles, v),
                Fibonacci::Phi(v) => Solved::ClosedForm(ClosedForm::Phi, v),
            },
    {
        match *self {
            Fibonacci::Sequential(v) => Solved::Value(Fibonacci::fibo_sequential(v)),
            Fibonacci::RecursiveSlow(v) => Solved::Value(Fibonacci::fibo_recursive(v)),
            Fibonacci::Poles(v) => Solved::ClosedForm(ClosedForm::Poles, v),
            Fibonacci::Phi(v) => Solved::ClosedForm(ClosedForm::Phi, v),
        }
    }
}

} // verus!
