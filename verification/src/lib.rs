//! A Scheme parsing and evaluation framework.
use vstd::prelude::*;

pub mod budget;
pub mod builtins;
pub mod context;
pub mod display;
pub mod errors;
pub mod eval;
pub mod invariants;
pub mod laws;
pub mod library;
pub mod numeric;
pub mod parse;
pub mod prelude;
pub mod reading;
pub mod semantics;
pub mod text;
pub mod value;

pub use context::Context;
pub use errors::{Error, SyntaxError};
pub use value::{Arity, Func, Primitive, Proc, SExp};

verus! {

/// Runs a code snippet in the base context (see
/// [`library::run_spec`]).
pub fn run(code: &str) -> (r: Result<value::SExp, errors::Error>)
    ensures
        errors::view_result(r) == library::run_spec(library::base_ctx(), code@).1,
{
    context::Context::base().run(code)
}

} // verus!
