//! The base library, and the entry points that evaluate with the default
//! step budget.
use vstd::prelude::*;

use crate::context::{builtin_name, builtin_sexp, builtin_val, default_ctx, Context, CtxV};
use crate::errors::{view_result, ErrV, Error};
use crate::parse::parse_spec;
use crate::semantics::ev;
use crate::value::{Builtin, SExp, Val};

verus! {

/// The step budget of [`Context::eval`]: evaluation that needs more steps
/// ends with [`Error::Exhausted`].
pub const STEP_BUDGET: u64 = 0xffff_ffff_ffff_ffff;

/// The language-level binding of a native procedure: its name and value.
pub open spec fn lang_entry(b: Builtin) -> (Seq<char>, Val) {
    (builtin_name(b), builtin_val(b))
}

/// How many native procedures the base library defines.
pub const BASE_COUNT: usize = 51;

/// The native procedures of the base library, in the order they are
/// defined.
pub open spec fn base_builtin(i: usize) -> Builtin {
    match i {
        0 => Builtin::EqP,
        1 => Builtin::EqvP,
        2 => Builtin::EqualP,
        3 => Builtin::NullP,
        4 => Builtin::MakeVoid,
        5 => Builtin::List,
        6 => Builtin::Not,
        7 => Builtin::Cons,
        8 => Builtin::Car,
        9 => Builtin::Cdr,
        10 => Builtin::SetCar,
        11 => Builtin::SetCdr,
        12 => Builtin::TypeOf,
        13 => Builtin::Display,
        14 => Builtin::Displayln,
        15 => Builtin::Write,
        16 => Builtin::Writeln,
        17 => Builtin::Require,
        18 => Builtin::MapList,
        19 => Builtin::Foldl,
        20 => Builtin::Filter,
        21 => Builtin::ArityValidP,
        22 => Builtin::OfArityP,
        23 => Builtin::ThunkP,
        24 => Builtin::ProcedureP,
        25 => Builtin::EnvironmentP,
        26 => Builtin::StringToList,
        27 => Builtin::ListToString,
        28 => Builtin::ZeroP,
        29 => Builtin::Add1,
        30 => Builtin::Sub1,
        31 => Builtin::NumEq,
        32 => Builtin::Less,
        33 => Builtin::Greater,
        34 => Builtin::Abs,
        35 => Builtin::Plus,
        36 => Builtin::Minus,
        37 => Builtin::Times,
        38 => Builtin::Divide,
        39 => Builtin::Remainder,
        40 => Builtin::Pow,
        41 => Builtin::MakeVector,
        42 => Builtin::VectorCopy,
        43 => Builtin::VectorP,
        44 => Builtin::VectorLength,
        45 => Builtin::VectorRef,
        46 => Builtin::VectorSet,
        47 => Builtin::VectorMap,
        48 => Builtin::Subvector,
        49 => Builtin::VectorHead,
        _ => Builtin::VectorTail,
    }
}

fn base_builtin_exec(i: usize) -> (r: Builtin)
    ensures
        r == base_builtin(i),
{
    match i {
        0 => Builtin::EqP,
        1 => Builtin::EqvP,
        2 => Builtin::EqualP,
        3 => Builtin::NullP,
        4 => Builtin::MakeVoid,
        5 => Builtin::List,
        6 => Builtin::Not,
        7 => Builtin::Cons,
        8 => Builtin::Car,
        9 => Builtin::Cdr,
        10 => Builtin::SetCar,
        11 => Builtin::SetCdr,
        12 => Builtin::TypeOf,
        13 => Builtin::Display,
        14 => Builtin::Displayln,
        15 => Builtin::Write,
        16 => Builtin::Writeln,
        17 => Builtin::Require,
        18 => Builtin::MapList,
        19 => Builtin::Foldl,
        20 => Builtin::Filter,
        21 => Builtin::ArityValidP,
        22 => Builtin::OfArityP,
        23 => Builtin::ThunkP,
        24 => Builtin::ProcedureP,
        25 => Builtin::EnvironmentP,
        26 => Builtin::StringToList,
        27 => Builtin::ListToString,
        28 => Builtin::ZeroP,
        29 => Builtin::Add1,
        30 => Builtin::Sub1,
        31 => Builtin::NumEq,
        32 => Builtin::Less,
        33 => Builtin::Greater,
        34 => Builtin::Abs,
        35 => Builtin::Plus,
        36 => Builtin::Minus,
        37 => Builtin::Times,
        38 => Builtin::Divide,
        39 => Builtin::Remainder,
        40 => Builtin::Pow,
        41 => Builtin::MakeVector,
        42 => Builtin::VectorCopy,
        43 => Builtin::VectorP,
        44 => Builtin::VectorLength,
        45 => Builtin::VectorRef,
        46 => Builtin::VectorSet,
        47 => Builtin::VectorMap,
        48 => Builtin::Subvector,
        49 => Builtin::VectorHead,
        _ => Builtin::VectorTail,
    }
}

/// The language-level definitions of the base library: every native
/// procedure that is not a core form, then `null`, the null list.
pub open spec fn base_lang() -> Seq<(Seq<char>, Val)> {
    Seq::new(BASE_COUNT as nat, |i: int| lang_entry(base_builtin(i as usize))).push(("null"@, Val::Null))
}

/// The base context: the core forms and the base library.
pub open spec fn base_ctx() -> CtxV {
    CtxV { lang: base_lang(), ..default_ctx() }
}

/// What running source text in a context does: a text that does not read is
/// a syntax error and changes nothing; otherwise it is evaluated with the
/// default step budget.
pub open spec fn run_spec(st: CtxV, code: Seq<char>) -> (CtxV, Result<Val, ErrV>) {
    match parse_spec(code) {
        Err(e) => (st, Err(ErrV::Syntax(e))),
        Ok(v) => ev(STEP_BUDGET as nat, st, v),
    }
}

impl Context {
    fn add_builtin(&mut self, b: Builtin)
        ensures
            final(self)@ == (CtxV { lang: old(self)@.lang.push(lang_entry(b)), ..old(self)@ }),
    {
        let name = crate::context::builtin_name_str(b);
        self.push_lang(name, builtin_sexp(b));
    }

    /// Base context - defines a number of useful functions and constants for
    /// use in the runtime.
    pub fn base() -> (r: Self)
        ensures
            r@ == base_ctx(),
    {
        let mut c = Context::new();
        assert(c@.lang =~= Seq::new(0, |k: int| lang_entry(base_builtin(k as usize))));
        let mut i: usize = 0;
        while i < BASE_COUNT
            invariant
                i <= BASE_COUNT,
                c@ == (CtxV { lang: Seq::new(i as nat, |k: int| lang_entry(base_builtin(k as usize))), ..default_ctx() }),
            decreases BASE_COUNT - i,
        {
            c.add_builtin(base_builtin_exec(i));
            assert(c@.lang =~= Seq::new((i + 1) as nat, |k: int| lang_entry(base_builtin(k as usize))));
            i += 1;
        }
        let nil = SExp::Null;
        assert(nil@ == Val::Null);
        c.push_lang("null", nil);
        c
    }

    /// Evaluates an S-expression in this context (see [`ev`]), with the
    /// default step budget. The context keeps any definitions bound during
    /// evaluation (`define`, `set!`).
    pub fn eval(&mut self, expr: SExp) -> (r: Result<SExp, Error>)
        ensures
            (final(self)@, view_result(r)) == ev(STEP_BUDGET as nat, old(self)@, expr@),
    {
        self.eval_fuel(STEP_BUDGET, expr)
    }
}

impl Context {
    /// Runs a code snippet in this context (see [`run_spec`]).
    pub fn run(&mut self, code: &str) -> (r: Result<SExp, Error>)
        ensures
            (final(self)@, view_result(r)) == run_spec(old(self)@, code@),
    {
        match SExp::parse(code) {
            Err(e) => Err(Error::Syntax(e)),
            Ok(v) => self.eval(v),
        }
    }
}

impl SExp {
    /// Evaluates this S-expression in `ctx` (see [`Context::eval`]).
    pub fn eval(self, ctx: &mut Context) -> (r: Result<SExp, Error>)
        ensures
            (final(ctx)@, view_result(r)) == ev(STEP_BUDGET as nat, old(ctx)@, self@),
    {
        ctx.eval(self)
    }
}

} // verus!
