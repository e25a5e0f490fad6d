//! Fibonacci numbers, counted from one (0, 1, 1, 2, ...), by a solution
//! chosen by name. The closed forms work in floating point and are
//! evaluated by the caller.
use vstd::prelude::*;
use crate::fibo::{fibo, lemma_fibo_monotonic, seq_run, seq_run_fits, lemma_seq_run_fibo, ClosedForm, Solved};
use crate::text::same_text;

verus! {

broadcast use vstd::string::group_string_axioms;

/// A solution and its target.
#[derive(PartialEq, Eq, Structural, Clone, Copy, Debug)]
pub enum FibonacciSolutions {
    Sequential(u8),
    RecursiveSlow(u8),
    RecursiveCache(u8),
    Poles(u8),
    Phi(u8),
}

pub struct Fibonacci {
    pub target: FibonacciSolutions,
    cache: Vec<u64>,
}

/// The solution that a name selects: "poles", "recursive_slow" or
/// "rec_slow", "phi", "recursive_cache" or "rec_cache"; anything else is
/// sequential.
pub open spec fn solution_of(name: Seq<char>, target: u8) -> FibonacciSolutions {
    if name == "poles"@ {
        FibonacciSolutions::Poles(target)
    } else if name == "recursive_slow"@ || name == "rec_slow"@ {
        FibonacciSolutions::RecursiveSlow(target)
    } else if name == "phi"@ {
        FibonacciSolutions::Phi(target)
    } else if name == "recursive_cache"@ || name == "rec_cache"@ {
        FibonacciSolutions::RecursiveCache(target)
    } else {
        FibonacciSolutions::Sequential(target)
    }
}

/// When `solve` is defined: the number fits in a `u64`.
pub open spec fn solvable(s: FibonacciSolutions) -> bool {
    match s {
        FibonacciSolutions::Sequential(v) => fibo(v as nat) <= u64::MAX,
        FibonacciSolutions::RecursiveSlow(v) => fibo(v as nat) <= u64::MAX,
        FibonacciSolutions::RecursiveCache(v) => fibo(v as nat) <= u64::MAX,
        _ => true,
    }
}

/// What `solve` gives.
pub open spec fn solution(s: FibonacciSolutions) -> Solved {
    match s {
        FibonacciSolutions::Poles(v) => Solved::ClosedForm(ClosedForm::Poles, v),
        FibonacciSolutions::Phi(v) => Solved::ClosedForm(ClosedForm::Phi, v),
        FibonacciSolutions::Sequential(v) => Solved::Value(fibo(v as nat) as u64),
        FibonacciSolutions::RecursiveSlow(v) => Solved::Value(fibo(v as nat) as u64),
        FibonacciSolutions::RecursiveCache(v) => Solved::Value(fibo(v as nat) as u64),
    }
}

impl Fibonacci {
    /// The chosen solution.
    pub closed spec fn target_view(&self) -> FibonacciSolutions {
        self.target
    }

    /// The cached numbers.
    pub closed spec fn cache_view(&self) -> Seq<u64> {
        self.cache@
    }

    fn recurse_slow(target: u8) -> (r: u64)
        requires
            fibo(target as nat) <= u64::MAX,
        ensures
            r == fibo(target as nat),
        decreases target,
    {
        if target <= 1 {
            0
        } else if target == 2 {
            1
        } else {
            proof {
                lemma_fibo_monotonic((target - 1) as nat, target as nat);
            }
            Fibonacci::recurse_slow(target - 1) + Fibonacci::recurse_slow(target - 2)
        }
    }

    /// Every cached number is the number at its position.
    pub closed spec fn cache_ok(&self) -> bool {
        &&& self.cache@.len() >= 3
        &&& forall|i: int| 0 <= i < self.cache@.len() ==> #[trigger] self.cache@[i] == fibo(i as nat)
    }

    /// The `target`-th number, from the cache where it holds it, otherwise
    /// by recursion on the two before it, caching what it computes.
    fn recurse_cache_run(&mut self, target: usize) -> (r: u64)
        requires
            old(self).cache_ok(),
            fibo(target as nat) <= u64::MAX,
        ensures
            r == fibo(target as nat),
            final(self).cache_ok(),
            final(self).cache@.len() >= old(self).cache@.len(),
            final(self).cache@.len() > target,
            final(self).target == old(self).target,
        decreases target,
    {
        if target < self.cache.len() {
            return self.cache[target];
        }
        proof {
            lemma_fibo_monotonic((target - 1) as nat, target as nat);
            lemma_fibo_monotonic((target - 2) as nat, target as nat);
        }
        let a = self.recurse_cache_run(target - 2);
        let b = self.recurse_cache_run(target - 1);
        let v = a + b;
        if self.cache.len() == target {
            self.cache.push(v);
        }
        v
    }

    fn recurse_cache(&mut self, target: u8) -> (r: u64)
        requires
            fibo(target as nat) <= u64::MAX,
        ensures
            r == fibo(target as nat),
            final(self).target == old(self).target,
            final(self).cache_ok(),
    {
        self.cache = vec![0u64, 0u64, 1u64];
        proof {
            reveal_with_fuel(fibo, 3);
            assert(self.cache_ok());
        }
        self.recurse_cache_run(target as usize)
    }

    fn sequential(target: u8) -> (r: u64)
        requires
            fibo(target as nat) <= u64::MAX,
        ensures
            r == fibo(target as nat),
    {
        let mut cache: Vec<u64> = vec![0u64, 1u64];
        if target < 2 {
            proof {
                reveal_with_fuel(fibo, 2);
            }
            return cache[0];
        }
        let mut target = target;
        let ghost t = target;
        proof {
            lemma_seq_run_fibo(2, (t - 2) as nat);
            reveal_with_fuel(fibo, 3);
        }
        while target > 2
            invariant
                cache@.len() == 2,
                2 <= target <= t,
                seq_run(cache@[0] as nat, cache@[1] as nat, (target - 2) as nat) == seq_run(0, 1, (t - 2) as nat),
                seq_run_fits(cache@[0] as nat, cache@[1] as nat, (target - 2) as nat),
            decreases target,
        {
            let temp = cache[0];
            let c = cache[1];
            cache.set(0, c);
            cache.set(1, c + temp);
            target = target - 1;
        }
        cache[1]
    }

    /// Solves by the chosen solution: the number for the integer
    /// solutions, the closed form and target for the others.
    pub fn solve(&mut self) -> (r: Solved)
        requires
            solvable(old(self).target_view()),
        ensures
            r == solution(old(self).target_view()),
            final(self).target_view() == old(self).target_view(),
    {
        match self.target {
            FibonacciSolutions::Sequential(val) => Solved::Value(Fibonacci::sequential(val)),
            FibonacciSolutions::RecursiveSlow(val) => Solved::Value(Fibonacci::recurse_slow(val)),
            FibonacciSolutions::Poles(val) => Solved::ClosedForm(ClosedForm::Poles, val),
            FibonacciSolutions::Phi(val) => Solved::ClosedForm(ClosedForm::Phi, val),
            FibonacciSolutions::RecursiveCache(val) => Solved::Value(self.recurse_cache(val)),
        }
    }

    /// A solver of a target by the named solution, with an empty cache.
    pub fn new(target_solution: &String, target: u8) -> (r: Fibonacci)
        ensures
            r.target_view() == solution_of(target_solution@, target),
            r.cache_view() == Seq::<u64>::empty(),
    {
        let name = target_solution.as_str();
        let t = if same_text(name, "poles") {
            FibonacciSolutions::Poles(target)
        } else if same_text(name, "recursive_slow") || same_text(name, "rec_slow") {
            FibonacciSolutions::RecursiveSlow(target)
        } else if same_text(name, "phi") {
            FibonacciSolutions::Phi(target)
        } else if same_text(name, "recursive_cache") || same_text(name, "rec_cache") {
            FibonacciSolutions::RecursiveCache(target)
        } else {
            FibonacciSolutions::Sequential(target)
        };
        Fibonacci { target: t, cache: Vec::new() }
    }
}

} // verus!
