//! An interpreter for a small Lisp-2 language: reader, environment and
//! evaluator, with the native primitives they install.
pub mod args;
pub mod base;
pub mod datetime;
pub mod env;
pub mod eval;
pub mod expr;
pub mod kappa_lisp;
pub mod laws;
pub mod print;
pub mod read;
pub mod read_order;
pub mod round_trip;
pub mod single;
pub mod skk;
pub mod stdlib;
pub mod text;
pub mod util;

pub use env::Env;
pub use eval::{eval, funcall};
pub use expr::{Error, Expr, Proc, Result, Type};
pub use kappa_lisp::{init, run, run_new};
pub use read::{read, read_in};
