//! A minimal expression-oriented language runtime: a recursive evaluator
//! over in-memory expression trees, with first-class function values, a
//! fixed builtin primitive set (`+`, `-`, `=`, `if`, `cons`, `head`,
//! `tail`), and fork/join futures (`Spawn`/`Sync`).
//!
//! The data model lives in [`ast`], the environment in [`env`], structural
//! equality in [`equality`]. The language's meaning is a mathematical
//! evaluator in [`semantics`]; the executable interpreter in [`interp`] is
//! proved to agree with it exactly, and [`laws`] states and proves the
//! properties the language guarantees.

pub mod ast;
pub mod env;
pub mod equality;
pub mod interp;
pub mod laws;
pub mod semantics;
