//! Verified building blocks from a collection of small course projects:
//! composable state machines, Fibonacci solvers, an XML chunk differ and
//! a few string utilities.
pub mod text;
pub mod lex;
pub mod seqs;
pub mod chunk_index;
pub mod payload;
pub mod state_machine;
pub mod config;
pub mod bigxml;
pub mod number;
pub mod basic;
pub mod fibo;
pub mod fibonacci;
pub mod fibonacci_enum;
pub mod additionals;
pub mod string_service;
pub mod time_series;
pub mod broker;
pub mod options;
