use ocw_labs::fibo;
use ocw_labs::fibo::{ClosedForm, Solvable, Solved};
use ocw_labs::fibonacci;
use ocw_labs::fibonacci_enum;

/// The value of a closed form at a target, in floating point.
fn closed_form(form: ClosedForm, target: u8) -> u64 {
    let target = i32::from(target);
    match target {
        0 => 0,
        1 => 0,
        2 => 1,
        _ => match form {
            ClosedForm::Phi => {
                let golden_ratio: f64 = 1.618033988749895;
                ((golden_ratio.powi(target - 1) - (1.0 - golden_ratio).powi(target - 1)) / f64::from(5).sqrt())
                    .round() as u64
            },
            ClosedForm::Poles => ((((1.0 + f64::from(5).sqrt()) / 2.0).powi(target - 1)
                + ((1.0 - f64::from(5).sqrt()) / 2.0).powi(target - 1))
                / f64::from(5).sqrt())
            .round() as u64,
        },
    }
}

fn value(s: Solved) -> u64 {
    match s {
        Solved::Value(v) => v,
        Solved::ClosedForm(form, target) => closed_form(form, target),
    }
}

#[test]
fn lib_test() {
    // Known solutions
    let solutions: Vec<u64> = vec![0, 0, 1, 1, 2, 3, 5, 8, 13, 21, 34, 55, 89, 144];
    let solution_types: Vec<String> = vec![
        "seq".to_string(),
        "recurse_slow".to_string(),
        "phi".to_string(),
        "poles".to_string(),
        "recurse_cache".to_string(),
    ];
    for solution_type in solution_types {
        for i in 1u8..13u8 {
            let ith = usize::from(i);
            assert_eq!(value(fibo::Fibonacci::new(&solution_type, i).solve()), solutions[ith]);
            assert_eq!(value(fibonacci::Fibonacci::new(&solution_type, i).solve()), solutions[ith]);
        }
    }
}

#[test]
fn lib_enum_test() {
    assert_eq!(fibonacci_enum::Fibonacci::fibo_sequential(0), 0);
    assert_eq!(fibonacci_enum::Fibonacci::fibo_sequential(2), 1);
    assert_eq!(fibonacci_enum::Fibonacci::fibo_sequential(13), 144);
    assert_eq!(fibonacci_enum::Fibonacci::fibo_recursive(0), 0);
    assert_eq!(fibonacci_enum::Fibonacci::fibo_recursive(2), 1);
    assert_eq!(fibonacci_enum::Fibonacci::fibo_recursive(13), 144);
    assert_eq!(closed_form(ClosedForm::Phi, 0), 0);
    assert_eq!(closed_form(ClosedForm::Phi, 2), 1);
    assert_eq!(closed_form(ClosedForm::Phi, 13), 144);
    assert_eq!(closed_form(ClosedForm::Poles, 0), 0);
    assert_eq!(closed_form(ClosedForm::Poles, 2), 1);
    assert_eq!(closed_form(ClosedForm::Poles, 13), 144);
}

#[test]
fn it_names_the_solutions() {
    assert_eq!(fibo::Fibonacci::new(&"phi".to_string(), 9).solve(), Solved::ClosedForm(ClosedForm::Phi, 9));
    assert_eq!(fibo::Fibonacci::new(&"poles".to_string(), 9).solve(), Solved::ClosedForm(ClosedForm::Poles, 9));
    assert_eq!(fibo::Fibonacci::new(&"rec_cache".to_string(), 20).solve(), Solved::Value(4181));
    assert_eq!(fibo::Fibonacci::new(&"other".to_string(), 93).solve(), Solved::Value(7540113804746346429));
    // The step-by-step method gives 1 for the first number.
    assert_eq!(fibonacci_enum::Fibonacci::fibo_sequential(1), 1);
    assert_eq!(fibonacci_enum::Fibonacci::fibo_recursive(1), 0);
}

#[test]
fn it_solves_with_each_solver() {
    let mut s = fibo::FibonacciSequential::new(10);
    assert_eq!(s.solve(), 34);
    assert_eq!(s.target, 2);
    let mut s = fibo::FibonacciRecursiveSlow::new(10);
    assert_eq!(s.solve(), 34);
    let mut s = fibo::FibonacciRecursiveCache::new(10);
    assert_eq!(s.solve(), 34);
    assert_eq!(s.rec_solve(12), 89);
    let mut f = fibonacci::Fibonacci::new(&"rec_cache".to_string(), 2);
    assert_eq!(f.solve(), Solved::Value(1));
}

#[test]
fn it_calculates_by_the_chosen_solution() {
    assert_eq!(fibonacci_enum::Fibonacci::Sequential(13).calc(), Solved::Value(144));
    assert_eq!(fibonacci_enum::Fibonacci::RecursiveSlow(13).calc(), Solved::Value(144));
    assert_eq!(fibonacci_enum::Fibonacci::Phi(13).calc(), Solved::ClosedForm(ClosedForm::Phi, 13));
    assert_eq!(fibonacci_enum::Fibonacci::Poles(7).calc(), Solved::ClosedForm(ClosedForm::Poles, 7));
    assert!(fibo::fibo_fits(94));
    assert!(!fibo::fibo_fits(95));
    assert!(fibo::fibo_fits(0));
}

#[test]
fn it_caches_as_it_recurses() {
    let mut f = fibonacci::Fibonacci::new(&"rec_cache".to_string(), 5);
    assert_eq!(f.solve(), Solved::Value(3));
    let mut g = fibonacci::Fibonacci::new(&"recursive_cache".to_string(), 13);
    assert_eq!(g.solve(), Solved::Value(144));
    let mut h = fibonacci::Fibonacci::new(&"rec_cache".to_string(), 94);
    assert_eq!(h.solve(), Solved::Value(12200160415121876738));
}
