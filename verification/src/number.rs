//! The fixed-width signed integers that the numeric state machines work
//! on, with the arithmetic they need: values are mathematical integers,
//! and an operation is defined when its result fits the type.
use vstd::prelude::*;

verus! {

/// A signed integer type of fixed width.
pub trait Number: Copy + DeepView<V = Self> + Sized {
    /// The mathematical value.
    spec fn value(self) -> int;

    /// Whether a mathematical integer fits the type.
    spec fn fits(v: int) -> bool;

    /// The number of a value that fits.
    spec fn of(v: int) -> Self;

    /// Every number fits, and is the number of its value.
    proof fn lemma_value(x: Self)
        ensures
            Self::fits(x.value()),
            Self::of(x.value()) == x,
    ;

    /// A number is its own deep view.
    proof fn lemma_deep_view(x: Self)
        ensures
            x.deep_view() == x,
    ;

    /// A value that fits is the value of its number.
    proof fn lemma_of(v: int)
        requires
            Self::fits(v),
        ensures
            Self::of(v).value() == v,
    ;

    /// Zero.
    fn zero() -> (r: Self)
        ensures
            r.value() == 0,
    ;

    /// One.
    fn one() -> (r: Self)
        ensures
            r.value() == 1,
    ;

    /// The sum, when it fits.
    fn plus(self, other: Self) -> (r: Self)
        requires
            Self::fits(self.value() + other.value()),
        ensures
            r.value() == self.value() + other.value(),
    ;

    /// The product, when it fits.
    fn times(self, other: Self) -> (r: Self)
        requires
            Self::fits(self.value() * other.value()),
        ensures
            r.value() == self.value() * other.value(),
    ;
}

impl Number for i8 {
    open spec fn value(self) -> int {
        self as int
    }

    open spec fn fits(v: int) -> bool {
        i8::MIN <= v <= i8::MAX
    }

    open spec fn of(v: int) -> Self {
        v as i8
    }

    proof fn lemma_value(x: Self) {
    }

    proof fn lemma_of(v: int) {
    }

    proof fn lemma_deep_view(x: Self) {
    }

    fn zero() -> (r: Self) {
        0
    }

    fn one() -> (r: Self) {
        1
    }

    fn plus(self, other: Self) -> (r: Self) {
        self + other
    }

    fn times(self, other: Self) -> (r: Self) {
        self * other
    }
}

impl Number for i16 {
    open spec fn value(self) -> int {
        self as int
    }

    open spec fn fits(v: int) -> bool {
        i16::MIN <= v <= i16::MAX
    }

    open spec fn of(v: int) -> Self {
        v as i16
    }

    proof fn lemma_value(x: Self) {
    }

    proof fn lemma_of(v: int) {
    }

    proof fn lemma_deep_view(x: Self) {
    }

    fn zero() -> (r: Self) {
        0
    }

    fn one() -> (r: Self) {
        1
    }

    fn plus(self, other: Self) -> (r: Self) {
        self + other
    }

    fn times(self, other: Self) -> (r: Self) {
        self * other
    }
}

impl Number for i32 {
    open spec fn value(self) -> int {
        self as int
    }

    open spec fn fits(v: int) -> bool {
        i32::MIN <= v <= i32::MAX
    }

    open spec fn of(v: int) -> Self {
        v as i32
    }

    proof fn lemma_value(x: Self) {
    }

    proof fn lemma_of(v: int) {
    }

    proof fn lemma_deep_view(x: Self) {
    }

    fn zero() -> (r: Self) {
        0
    }

    fn one() -> (r: Self) {
        1
    }

    fn plus(self, other: Self) -> (r: Self) {
        self + other
    }

    fn times(self, other: Self) -> (r: Self) {
        self * other
    }
}

impl Number for i64 {
    open spec fn value(self) -> int {
        self as int
    }

    open spec fn fits(v: int) -> bool {
        i64::MIN <= v <= i64::MAX
    }

    open spec fn of(v: int) -> Self {
        v as i64
    }

    proof fn lemma_value(x: Self) {
    }

    proof fn lemma_of(v: int) {
    }

    proof fn lemma_deep_view(x: Self) {
    }

    fn zero() -> (r: Self) {
        0
    }

    fn one() -> (r: Self) {
        1
    }

    fn plus(self, other: Self) -> (r: Self) {
        self + other
    }

    fn times(self, other: Self) -> (r: Self) {
        self * other
    }
}

} // verus!
