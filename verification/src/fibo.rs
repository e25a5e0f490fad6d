//! `fibo`: a collection of solutions for the Fibonacci sequence, counted
//! from one: the first two numbers are 0 and 1 (and the zeroth is 0).
//! The integer solutions are verified here; the closed forms (the golden
//! ratio and the poles) work in floating point and are evaluated by the
//! caller.
use vstd::prelude::*;
use crate::text::same_text;

verus! {

broadcast use vstd::string::group_string_axioms;

/// The `n`-th Fibonacci number, counted from one: 0, 0, 1, 1, 2, 3, 5, ...
/// for n = 0, 1, 2, 3, 4, 5, 6, ...
pub open spec fn fibo(n: nat) -> nat
    decreases n,
{
    if n <= 1 {
        0
    } else if n == 2 {
        1
    } else {
        fibo((n - 1) as nat) + fibo((n - 2) as nat)
    }
}

/// The sequence grows: a later number is at least as large.
pub proof fn lemma_fibo_monotonic(i: nat, j: nat)
    requires
        i <= j,
    ensures
        fibo(i) <= fibo(j),
    decreases j - i,
{
    if i < j {
        lemma_fibo_monotonic(i, (j - 1) as nat);
    }
}

/// Whether the `target`-th number fits in a `u64`, so that the solutions
/// can compute it.
pub fn fibo_fits(target: u8) -> (r: bool)
    ensures
        r == (fibo(target as nat) <= u64::MAX),
{
    if target <= 2 {
        proof {
            reveal_with_fuel(fibo, 3);
        }
        return true;
    }
    proof {
        reveal_with_fuel(fibo, 3);
    }
    let mut a: u64 = 1;
    let mut b: u64 = 1;
    let mut k: u8 = 3;
    while k < target
        invariant
            3 <= k <= target,
            a == fibo((k - 1) as nat),
            b == fibo(k as nat),
        decreases target - k,
    {
        proof {
            assert(fibo((k + 1) as nat) == fibo(k as nat) + fibo((k - 1) as nat));
        }
        match a.checked_add(b) {
            Some(next) => {
                a = b;
                b = next;
                k = k + 1;
            },
            None => {
                proof {
                    lemma_fibo_monotonic((k + 1) as nat, target as nat);
                }
                return false;
            },
        }
    }
    true
}

/// `n` steps of (a, b) -> (b, a + b) from (c0, c1).
pub open spec fn seq_run(c0: nat, c1: nat, n: nat) -> (nat, nat)
    decreases n,
{
    if n == 0 {
        (c0, c1)
    } else {
        seq_run(c1, c0 + c1, (n - 1) as nat)
    }
}

/// Every sum of `seq_run` fits in a `u64`.
pub open spec fn seq_run_fits(c0: nat, c1: nat, n: nat) -> bool
    decreases n,
{
    n == 0 || (c0 + c1 <= u64::MAX && seq_run_fits(c1, c0 + c1, (n - 1) as nat))
}

/// From two consecutive numbers, the run walks the sequence.
pub proof fn lemma_seq_run_fibo(k: nat, n: nat)
    requires
        k >= 2,
    ensures
        seq_run(fibo((k - 1) as nat), fibo(k), n) == (fibo((k + n - 1) as nat), fibo(k + n)),
        fibo(k + n) <= u64::MAX ==> seq_run_fits(fibo((k - 1) as nat), fibo(k), n),
    decreases n,
{
    if n > 0 {
        lemma_seq_run_fibo(k + 1, (n - 1) as nat);
        assert(fibo(k + 1) == fibo(k) + fibo((k - 1) as nat));
        lemma_fibo_monotonic(k + 1, k + n);
    }
}

/// The sequence, step by step from two cached numbers.
pub struct FibonacciSequential {
    pub target: u8,
    cache: Vec<u64>,
}

/// Naive recursion.
pub struct FibonacciRecursiveSlow {
    pub target: u8,
}

/// Recursion that keeps every number it computes.
pub struct FibonacciRecursiveCache {
    pub target: u8,
    cache: Vec<u64>,
}

/// The closed form with the golden ratio.
pub struct FibonacciPhi {
    pub target: u8,
}

/// The closed form with the poles of the generating function.
pub struct FibonacciPoles {
    pub target: u8,
}

/// Something that solves for a Fibonacci number.
pub trait Solvable: Sized {
    /// When `solve` is defined (the result fits in a `u64`).
    spec fn solvable(&self) -> bool;

    /// What `solve` returns.
    spec fn solution(&self) -> nat;

    /// How `solve` leaves the solver.
    spec fn after_solve(&self, after: Self) -> bool;

    /// Solves for the target number.
    fn solve(&mut self) -> (r: u64)
        requires
            old(self).solvable(),
        ensures
            r == old(self).solution(),
            old(self).after_solve(*final(self)),
    ;
}

impl FibonacciSequential {
    /// A solver for a target, starting from the cache (0, 1).
    pub fn new(target: u8) -> (r: Self)
        ensures
            r.target_view() == target,
            r.cache_view() == seq![0u64, 1u64],
    {
        FibonacciSequential { cache: vec![0u64, 1u64], target: target }
    }

    /// The two cached numbers.
    pub closed spec fn cache_view(&self) -> Seq<u64> {
        self.cache@
    }

    /// The target.
    pub closed spec fn target_view(&self) -> u8 {
        self.target
    }
}

impl Solvable for FibonacciSequential {
    open spec fn solvable(&self) -> bool {
        &&& self.cache_view().len() == 2
        &&& self.target_view() >= 2 ==> seq_run_fits(
            self.cache_view()[0] as nat,
            self.cache_view()[1] as nat,
            (self.target_view() - 2) as nat,
        )
    }

    /// Below 2 the first cached number; otherwise the second number after
    /// target - 2 steps.
    open spec fn solution(&self) -> nat {
        if self.target_view() < 2 {
            self.cache_view()[0] as nat
        } else {
            seq_run(self.cache_view()[0] as nat, self.cache_view()[1] as nat, (self.target_view() - 2) as nat).1
        }
    }

    /// The steps are taken on the solver itself: its target ends at 2 and
    /// its cache holds the last two numbers.
    open spec fn after_solve(&self, after: Self) -> bool {
        if self.target_view() <= 2 {
            after.target_view() == self.target_view() && after.cache_view() == self.cache_view()
        } else {
            let (a, b) = seq_run(
                self.cache_view()[0] as nat,
                self.cache_view()[1] as nat,
                (self.target_view() - 2) as nat,
            );
            &&& after.target_view() == 2
            &&& after.cache_view().len() == 2
            &&& after.cache_view()[0] == a
            &&& after.cache_view()[1] == b
        }
    }

    fn solve(&mut self) -> (r: u64) {
        if self.target < 2 {
            return self.cache[0];
        }
        let ghost orig = *self;
        let ghost c0 = self.cache@[0] as nat;
        let ghost c1 = self.cache@[1] as nat;
        let ghost t = self.target;
        while self.target > 2
            invariant
                self.cache@.len() == 2,
                2 <= self.target <= t,
                seq_run(self.cache@[0] as nat, self.cache@[1] as nat, (self.target_view() - 2) as nat) == seq_run(
                    c0,
                    c1,
                    (t - 2) as nat,
                ),
                seq_run_fits(self.cache@[0] as nat, self.cache@[1] as nat, (self.target_view() - 2) as nat),
            decreases self.target,
        {
            let temp = self.cache[0];
            let c = self.cache[1];
            self.cache.set(0, c);
            self.cache.set(1, c + temp);
            self.target = self.target - 1;
        }
        assert(seq_run(self.cache@[0] as nat, self.cache@[1] as nat, 0) == (
            self.cache@[0] as nat,
            self.cache@[1] as nat,
        ));
        proof {
            if t <= 2 {
                assert(self.cache@ =~= orig.cache@);
            }
        }
        self.cache[1]
    }
}

/// The recursion of `FibonacciRecursiveSlow`.
fn recurse_slow(target: u8) -> (r: u64)
    requires
        fibo(target as nat) <= u64::MAX,
    ensures
        r == fibo(target as nat),
    decreases target,
{
    if target <= 1 {
        0
    } else if target == 2 {
        1
    } else {
        proof {
            lemma_fibo_monotonic((target - 1) as nat, target as nat);
        }
        recurse_slow(target - 1) + recurse_slow(target - 2)
    }
}

impl FibonacciRecursiveSlow {
    /// A solver for a target.
    pub fn new(target: u8) -> (r: Self)
        ensures
            r.target == target,
    {
        FibonacciRecursiveSlow { target: target }
    }

    /// The `target`-th number, by naive recursion.
    pub fn rec_solve(&self, target: u8) -> (r: u64)
        requires
            fibo(target as nat) <= u64::MAX,
        ensures
            r == fibo(target as nat),
    {
        recurse_slow(target)
    }
}

impl Solvable for FibonacciRecursiveSlow {
    open spec fn solvable(&self) -> bool {
        fibo(self.target as nat) <= u64::MAX
    }

    open spec fn solution(&self) -> nat {
        fibo(self.target as nat)
    }

    open spec fn after_solve(&self, after: Self) -> bool {
        after == *self
    }

    fn solve(&mut self) -> (r: u64) {
        self.rec_solve(self.target)
    }
}

impl FibonacciRecursiveCache {
    /// A solver for a target, with the first three numbers cached.
    pub fn new(target: u8) -> (r: Self)
        ensures
            r.target_view() == target,
            r.cache_view() == seq![0u64, 0u64, 1u64],
            r.cache_ok(),
    {
        let r = FibonacciRecursiveCache { cache: vec![0u64, 0u64, 1u64], target: target };
        proof {
            reveal_with_fuel(fibo, 3);
        }
        r
    }

    /// The cached numbers.
    pub closed spec fn cache_view(&self) -> Seq<u64> {
        self.cache@
    }

    /// The target.
    pub closed spec fn target_view(&self) -> u8 {
        self.target
    }

    /// The cache holds the first numbers of the sequence, at least three.
    pub open spec fn cache_ok(&self) -> bool {
        &&& self.cache_view().len() >= 3
        &&& forall|i: int| 0 <= i < self.cache_view().len() ==> #[trigger] self.cache_view()[i] == fibo(i as nat)
    }

    /// The `target`-th number; the cache grows to hold it.
    pub fn rec_solve(&mut self, target: usize) -> (r: u64)
        requires
            old(self).cache_ok(),
            fibo(target as nat) <= u64::MAX,
        ensures
            r == fibo(target as nat),
            final(self).cache_ok(),
            final(self).target_view() == old(self).target_view(),
            final(self).cache_view().len() == if target < old(self).cache_view().len() {
                old(self).cache_view().len()
            } else {
                (target + 1) as nat
            },
        decreases target,
    {
        if target < self.cache.len() {
            return self.cache[target];
        }
        proof {
            lemma_fibo_monotonic((target - 1) as nat, target as nat);
        }
        let seq_minus_2: u64 = self.rec_solve(target - 2);
        let seq_minus_1: u64 = self.rec_solve(target - 1);
        self.cache.insert(target, seq_minus_2 + seq_minus_1);
        proof {
            assert forall|i: int| 0 <= i < self.cache_view().len() implies #[trigger] self.cache_view()[i]
                == fibo(i as nat) by {
                if i == target {
                    assert(fibo(target as nat) == fibo((target - 1) as nat) + fibo((target - 2) as nat));
                }
            }
        }
        self.cache[target]
    }
}

impl Solvable for FibonacciRecursiveCache {
    open spec fn solvable(&self) -> bool {
        self.cache_ok() && fibo(self.target_view() as nat) <= u64::MAX
    }

    open spec fn solution(&self) -> nat {
        fibo(self.target_view() as nat)
    }

    /// The cache keeps the first numbers of the sequence and reaches the
    /// target.
    open spec fn after_solve(&self, after: Self) -> bool {
        &&& after.target_view() == self.target_view()
        &&& after.cache_ok()
        &&& after.cache_view().len() > self.target_view()
    }

    fn solve(&mut self) -> (r: u64) {
        let target = self.target as usize;
        self.rec_solve(target)
    }
}

impl FibonacciPhi {
    /// A solver for a target.
    pub fn new(target: u8) -> (r: Self)
        ensures
            r.target == target,
    {
        FibonacciPhi { target: target }
    }
}

impl FibonacciPoles {
    /// A solver for a target.
    pub fn new(target: u8) -> (r: Self)
        ensures
            r.target == target,
    {
        FibonacciPoles { target: target }
    }
}

/// A closed form of the sequence, evaluated in floating point.
#[derive(PartialEq, Eq, Structural, Clone, Copy, Debug)]
pub enum ClosedForm {
    /// With the golden ratio.
    Phi,
    /// With the poles of the generating function.
    Poles,
}

/// What solving gives: a number computed here, or the closed form to
/// evaluate at the target.
#[derive(PartialEq, Eq, Structural, Clone, Copy, Debug)]
pub enum Solved {
    Value(u64),
    ClosedForm(ClosedForm, u8),
}

/// A solver chosen by name.
pub struct Fibonacci {
    target: u8,
    solution_type: String,
}

/// The solution that a name selects.
pub enum Method {
    Poles,
    RecursiveSlow,
    Phi,
    RecursiveCache,
    Sequential,
}

/// The solution for a name: "poles", "recurse_slow" or "rec_slow", "phi",
/// "recurse_cache" or "rec_cache"; anything else is sequential.
pub open spec fn method_of(name: Seq<char>) -> Method {
    if name == "poles"@ {
        Method::Poles
    } else if name == "recurse_slow"@ || name == "rec_slow"@ {
        Method::RecursiveSlow
    } else if name == "phi"@ {
        Method::Phi
    } else if name == "recurse_cache"@ || name == "rec_cache"@ {
        Method::RecursiveCache
    } else {
        Method::Sequential
    }
}

impl Fibonacci {
    /// A solver of a target by the named solution.
    pub fn new(solution: &String, target: u8) -> (r: Self)
        ensures
            r.spec_target() == target,
            r.spec_solution_type() == solution@,
    {
        Fibonacci { target: target, solution_type: solution.clone() }
    }

    /// The target.
    pub closed spec fn spec_target(&self) -> u8 {
        self.target
    }

    /// The name of the solution.
    pub closed spec fn spec_solution_type(&self) -> Seq<char> {
        self.solution_type@
    }

    /// Solves by the named solution: the target-th number for the integer
    /// solutions, the closed form and target for the others.
    pub fn solve(self) -> (r: Solved)
        requires
            method_of(self.spec_solution_type()) != Method::Poles && method_of(self.spec_solution_type())
                != Method::Phi ==> fibo(self.spec_target() as nat) <= u64::MAX,
        ensures
            r == match method_of(self.spec_solution_type()) {
                Method::Poles => Solved::ClosedForm(ClosedForm::Poles, self.spec_target()),
                Method::Phi => Solved::ClosedForm(ClosedForm::Phi, self.spec_target()),
                _ => Solved::Value(fibo(self.spec_target() as nat) as u64),
            },
    {
        let name = self.solution_type.as_str();
        if same_text(name, "poles") {
            Solved::ClosedForm(ClosedForm::Poles, self.target)
        } else if same_text(name, "recurse_slow") || same_text(name, "rec_slow") {
            let mut s = FibonacciRecursiveSlow::new(self.target);
            Solved::Value(s.solve())
        } else if same_text(name, "phi") {
            Solved::ClosedForm(ClosedForm::Phi, self.target)
        } else if same_text(name, "recurse_cache") || same_text(name, "rec_cache") {
            let mut s = FibonacciRecursiveCache::new(self.target);
            Solved::Value(s.solve())
        } else {
            let mut s = FibonacciSequential::new(self.target);
            proof {
                if self.target >= 2 {
                    lemma_seq_run_fibo(2, (self.target - 2) as nat);
                    reveal_with_fuel(fibo, 3);
                }
            }
            let v = s.solve();
            proof {
                if self.target < 2 {
                    reveal_with_fuel(fibo, 2);
                }
            }
            Solved::Value(v)
        }
    }
}

} // verus!
