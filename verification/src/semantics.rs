//! The meaning of evaluation: a big-step semantics over the model, with a
//! step budget (`f`) that every nested evaluation draws from.
use vstd::prelude::*;

use crate::context::{
    file_get, ctx_define, ctx_emit, ctx_get, ctx_pop, ctx_push, ctx_set, with_cur,
    CtxV, FrameV, assoc_put,
};
use crate::display::{debug_spec, show_spec};
use crate::errors::{car_spec, cdr_spec, type_err, ErrV, SynV};
use crate::numeric::{div_spec, in_i64, pow_spec, rem_spec};
use crate::parse::parse_spec;
use crate::text::unescape_spec;
use crate::value::{
    bool_val, is_false, items, list_count, list_of, num_val, str_val, sym_val, type_label, undefined_val,
    val_equal, Arity, Builtin, FuncV, Prim, ProcV, Val,
};

verus! {

/// The outcome of evaluating an expression: the new context and the value
/// or error.
pub type Out = (CtxV, Result<Val, ErrV>);

/// What applying a procedure leaves to do: either a finished result, or an
/// expression to be evaluated next, in tail position, in the context given
/// (whose current scope is the one the expression belongs to).
pub enum Flow {
    Done(CtxV, Result<Val, ErrV>),
    Tail(CtxV, Val),
}

// ---------------------------------------------------------------------------
// Procedures
// ---------------------------------------------------------------------------

/// How many arguments each native procedure accepts.
pub open spec fn builtin_arity(b: Builtin) -> Arity {
    match b {
        Builtin::Eval => Arity::Exactly(1),
        Builtin::Apply => Arity::Exactly(2),
        Builtin::And => Arity::AtLeast(0),
        Builtin::Begin => Arity::AtLeast(1),
        Builtin::Case => Arity::AtLeast(2),
        Builtin::Cond => Arity::AtLeast(0),
        Builtin::Do => Arity::AtLeast(3),
        Builtin::Define => Arity::AtLeast(1),
        Builtin::If => Arity::Exactly(3),
        Builtin::Lambda => Arity::AtLeast(2),
        Builtin::Let => Arity::AtLeast(2),
        Builtin::NamedLambda => Arity::AtLeast(2),
        Builtin::Or => Arity::AtLeast(0),
        Builtin::Quasiquote => Arity::Exactly(1),
        Builtin::Quote => Arity::Exactly(1),
        Builtin::SetBang => Arity::Exactly(2),
        Builtin::EqP => Arity::Exactly(2),
        Builtin::EqvP => Arity::Exactly(2),
        Builtin::EqualP => Arity::Exactly(2),
        Builtin::NullP => Arity::Exactly(1),
        Builtin::MakeVoid => Arity::Exactly(0),
        Builtin::List => Arity::AtLeast(0),
        Builtin::Not => Arity::Exactly(1),
        Builtin::Cons => Arity::Exactly(2),
        Builtin::Car => Arity::Exactly(1),
        Builtin::Cdr => Arity::Exactly(1),
        Builtin::SetCar => Arity::Exactly(2),
        Builtin::SetCdr => Arity::Exactly(2),
        Builtin::TypeOf => Arity::Exactly(1),
        Builtin::Display => Arity::Exactly(1),
        Builtin::Displayln => Arity::Exactly(1),
        Builtin::Write => Arity::Exactly(1),
        Builtin::Writeln => Arity::Exactly(1),
        Builtin::Require => Arity::Exactly(1),
        Builtin::MapList => Arity::Exactly(2),
        Builtin::Foldl => Arity::Exactly(3),
        Builtin::Filter => Arity::Exactly(2),
        Builtin::ArityValidP => Arity::Exactly(2),
        Builtin::OfArityP => Arity::Exactly(2),
        Builtin::ThunkP => Arity::Exactly(1),
        Builtin::ProcedureP => Arity::Exactly(1),
        Builtin::EnvironmentP => Arity::Exactly(1),
        Builtin::StringToList => Arity::Exactly(3),
        Builtin::ListToString => Arity::Exactly(1),
        Builtin::ZeroP => Arity::Exactly(1),
        Builtin::Add1 => Arity::Exactly(1),
        Builtin::Sub1 => Arity::Exactly(1),
        Builtin::NumEq => Arity::Exactly(2),
        Builtin::Less => Arity::Exactly(2),
        Builtin::Greater => Arity::Exactly(2),
        Builtin::Abs => Arity::Exactly(1),
        Builtin::Plus => Arity::AtLeast(0),
        Builtin::Minus => Arity::AtLeast(1),
        Builtin::Times => Arity::AtLeast(0),
        Builtin::Divide => Arity::AtLeast(1),
        Builtin::Remainder => Arity::Exactly(2),
        Builtin::Pow => Arity::Exactly(2),
        Builtin::MakeVector => Arity::Between(1, 2),
        Builtin::VectorCopy => Arity::Exactly(1),
        Builtin::VectorP => Arity::Exactly(1),
        Builtin::VectorLength => Arity::Exactly(1),
        Builtin::VectorRef => Arity::Exactly(2),
        Builtin::VectorSet => Arity::Exactly(3),
        Builtin::VectorMap => Arity::Exactly(2),
        Builtin::Subvector => Arity::Exactly(3),
        Builtin::VectorHead => Arity::Exactly(2),
        Builtin::VectorTail => Arity::Exactly(2),
    }
}

/// Whether a native procedure receives its arguments unevaluated: the
/// special forms, and the procedures that evaluate their arguments
/// themselves.
pub open spec fn builtin_defers(b: Builtin) -> bool {
    match b {
        Builtin::Eval | Builtin::Apply | Builtin::And | Builtin::Begin | Builtin::Case | Builtin::Cond
        | Builtin::Do | Builtin::Define | Builtin::If | Builtin::Lambda | Builtin::Let
        | Builtin::NamedLambda | Builtin::Or | Builtin::Quasiquote | Builtin::Quote | Builtin::SetBang
        | Builtin::SetCar | Builtin::SetCdr | Builtin::Display | Builtin::Displayln | Builtin::Write
        | Builtin::Writeln | Builtin::Require | Builtin::MapList | Builtin::Foldl | Builtin::Filter | Builtin::VectorSet
        | Builtin::VectorMap => true,
        _ => false,
    }
}

pub open spec fn proc_defers(p: ProcV) -> bool {
    match p.func {
        FuncV::Builtin(b) => builtin_defers(b),
        FuncV::Lambda(..) => false,
    }
}

/// The error of giving `given` arguments to a procedure, if it does not
/// accept that many.
pub open spec fn arity_error(p: ProcV, given: nat) -> Option<ErrV> {
    match p.func {
        FuncV::Lambda(params, _, _) => if given != params.len() {
            Some(ErrV::Arity(params.len(), given))
        } else {
            None
        },
        FuncV::Builtin(b) => match builtin_arity(b) {
            Arity::Exactly(n) => if given != n {
                Some(ErrV::Arity(n as nat, given))
            } else {
                None
            },
            Arity::AtLeast(n) => if given < n {
                Some(ErrV::ArityMin(n as nat, given))
            } else {
                None
            },
            Arity::Between(lo, hi) => if given < lo {
                Some(ErrV::ArityMin(lo as nat, given))
            } else if given > hi {
                Some(ErrV::ArityMax(hi as nat, given))
            } else {
                None
            },
        },
    }
}

/// A lambda procedure value.
pub open spec fn lambda_val(name: Option<Seq<char>>, params: Seq<Seq<char>>, body: Val, envt: nat) -> Val {
    Val::Atom(Prim::Procedure(ProcV { func: FuncV::Lambda(params, Box::new(body), envt), name }))
}

/// The frame in which a lambda's body runs: its parameters bound, one after
/// the other, to the arguments, nested in the scope the lambda closed over.
pub open spec fn bind_params(vars: Seq<(Seq<char>, Val)>, params: Seq<Seq<char>>, args: Seq<Val>, i: int) -> Seq<(Seq<char>, Val)>
    decreases params.len() - i,
{
    if i < 0 || i >= params.len() || i >= args.len() {
        vars
    } else {
        bind_params(assoc_put(vars, params[i], args[i]), params, args, i + 1)
    }
}

pub open spec fn enter_lambda(st: CtxV, params: Seq<Seq<char>>, args: Seq<Val>, envt: nat) -> CtxV {
    CtxV {
        frames: st.frames.push(FrameV { vars: bind_params(seq![], params, args, 0), parent: Some(envt) }),
        cur: st.frames.len(),
        ..st
    }
}

// ---------------------------------------------------------------------------
// Pure helpers
// ---------------------------------------------------------------------------

/// The head and the rest of a pair.
pub open spec fn split_car(v: Val) -> Result<(Val, Val), ErrV> {
    match v {
        Val::Null => Err(ErrV::NullList),
        Val::Atom(_) => Err(ErrV::NotAList(show_spec(v))),
        Val::Pair(h, t) => Ok((*h, *t)),
    }
}

pub open spec fn is_symbol(v: Val) -> bool {
    v matches Val::Atom(Prim::Symbol(_))
}

pub open spec fn sym_name(v: Val) -> Seq<char> {
    match v {
        Val::Atom(Prim::Symbol(s)) => s,
        _ => seq![],
    }
}

/// The first element at or after `i` that is not a symbol.
pub open spec fn first_non_symbol(xs: Seq<Val>, i: int) -> Option<Val>
    decreases xs.len() - i,
{
    if i < 0 || i >= xs.len() {
        None
    } else if !is_symbol(xs[i]) {
        Some(xs[i])
    } else {
        first_non_symbol(xs, i + 1)
    }
}

/// `lambda` and `named-lambda`: a procedure closing over scope `cur`. The
/// signature must be a non-empty list of symbols; for a named lambda the
/// first symbol is the procedure's name.
pub open spec fn lambda_form(cur: nat, args: Val, named: bool) -> Result<Val, ErrV> {
    match split_car(args) {
        Err(e) => Err(e),
        Ok((sig, body)) => if !(sig is Pair) {
            Err(type_err("list"@, sig))
        } else {
            let names = items(sig);
            match first_non_symbol(names, 0) {
                Some(v) => Err(type_err("symbol"@, v)),
                None => {
                    let ns = names.map_values(|v: Val| sym_name(v));
                    if named {
                        Ok(lambda_val(Some(ns[0]), ns.drop_first(), body, cur))
                    } else {
                        Ok(lambda_val(None, ns, body, cur))
                    }
                },
            }
        },
    }
}

/// `quote`: the argument itself.
pub open spec fn quote_form(args: Val) -> Result<Val, ErrV> {
    match args {
        Val::Pair(h, _) => Ok(*h),
        Val::Null => Err(type_err("list"@, args)),
        _ => Ok(args),
    }
}

/// `eqv?`: the null list, booleans, characters, symbols and numbers compare
/// by value; everything else is different.
pub open spec fn eqv(a: Val, b: Val) -> bool {
    match (a, b) {
        (Val::Null, Val::Null) => true,
        (Val::Atom(Prim::Boolean(x)), Val::Atom(Prim::Boolean(y))) => x == y,
        (Val::Atom(Prim::Character(x)), Val::Atom(Prim::Character(y))) => x == y,
        (Val::Atom(Prim::Symbol(x)), Val::Atom(Prim::Symbol(y))) => x == y,
        (Val::Atom(Prim::Number(x)), Val::Atom(Prim::Number(y))) => x == y,
        _ => false,
    }
}

pub open spec fn exact_val(n: int) -> Result<Val, ErrV> {
    if in_i64(n) {
        Ok(num_val(n))
    } else {
        Err(ErrV::Inexact)
    }
}

pub open spec fn opt_val(o: Option<int>) -> Result<Val, ErrV> {
    match o {
        Some(n) => Ok(num_val(n)),
        None => Err(ErrV::Inexact),
    }
}

/// A procedure taking one number.
pub open spec fn unary_numeric(b: Builtin, x: Val) -> Result<Val, ErrV> {
    match x {
        Val::Atom(Prim::Number(n)) => match b {
            Builtin::Add1 => exact_val(n + 1),
            Builtin::Sub1 => exact_val(n - 1),
            _ => exact_val(if n < 0 { -n } else { n }),
        },
        _ => Err(type_err("number"@, x)),
    }
}

/// A procedure taking two numbers.
pub open spec fn binary_numeric(b: Builtin, args: Val, x: Val, y: Val) -> Result<Val, ErrV> {
    match (x, y) {
        (Val::Atom(Prim::Number(m)), Val::Atom(Prim::Number(n))) => match b {
            Builtin::NumEq => Ok(bool_val(m == n)),
            Builtin::Less => Ok(bool_val(m < n)),
            Builtin::Greater => Ok(bool_val(m > n)),
            Builtin::Remainder => opt_val(rem_spec(m, n)),
            _ => opt_val(pow_spec(m, (n as u32) as nat)),
        },
        _ => Err(type_err("list"@, args)),
    }
}

/// One step of the folds of `+`, `-`, `*` and `/`.
pub open spec fn fold_step(b: Builtin, acc: int, n: int) -> Result<Val, ErrV> {
    match b {
        Builtin::Plus => exact_val(acc + n),
        Builtin::Minus => exact_val(acc - n),
        Builtin::Times => exact_val(acc * n),
        _ => opt_val(div_spec(acc, n)),
    }
}

/// Folds the numbers `xs[i..]` into `acc`; the first non-number or failed
/// step is the error.
pub open spec fn fold_numeric(b: Builtin, acc: Result<Val, ErrV>, xs: Seq<Val>, i: int) -> Result<Val, ErrV>
    decreases xs.len() - i,
{
    if i < 0 || i >= xs.len() {
        acc
    } else {
        match acc {
            Err(e) => Err(e),
            Ok(a) => {
                let next = match (a, xs[i]) {
                    (Val::Atom(Prim::Number(m)), Val::Atom(Prim::Number(n))) => fold_step(b, m, n),
                    (_, x) => Err(type_err("number"@, x)),
                };
                fold_numeric(b, next, xs, i + 1)
            },
        }
    }
}

/// `+` and `*` fold from 0 and 1; `-` and `/` fold from their first
/// argument.
pub open spec fn variadic_numeric(b: Builtin, xs: Seq<Val>) -> Result<Val, ErrV> {
    match b {
        Builtin::Plus => fold_numeric(b, Ok(num_val(0)), xs, 0),
        Builtin::Times => fold_numeric(b, Ok(num_val(1)), xs, 0),
        _ => if xs.len() == 0 {
            Err(ErrV::ArityMin(1, 0))
        } else {
            match xs[0] {
                Val::Atom(Prim::Number(_)) => fold_numeric(b, Ok(xs[0]), xs, 1),
                _ => Err(type_err("number"@, xs[0])),
            }
        },
    }
}

/// Whether `n` arguments satisfy an arity.
pub open spec fn arity_holds(a: Arity, n: nat) -> bool {
    match a {
        Arity::Exactly(k) => n == k,
        Arity::AtLeast(k) => n >= k,
        Arity::Between(lo, hi) => lo <= n && n <= hi,
    }
}

pub open spec fn arity_accepts(p: ProcV, given: nat) -> bool {
    arity_error(p, given) is None
}

/// `procedure-arity-valid?`.
pub open spec fn arity_valid(p: Val, n: Val) -> Result<Val, ErrV> {
    match (p, n) {
        (Val::Atom(Prim::Procedure(pr)), Val::Atom(Prim::Number(k))) => Ok(
            bool_val(arity_accepts(pr, (k as usize) as nat)),
        ),
        (Val::Atom(Prim::Procedure(_)), other) => Err(type_err("number"@, other)),
        (other, _) => Err(type_err("procedure"@, other)),
    }
}

/// The character atoms of a string.
pub open spec fn char_vals(s: Seq<char>) -> Seq<Val>
    decreases s.len(),
{
    if s.len() == 0 {
        seq![]
    } else {
        char_vals(s.drop_last()).push(Val::Atom(Prim::Character(s.last())))
    }
}

/// The list of the characters of a string.
pub open spec fn chars_list(s: Seq<char>) -> Val {
    list_of(char_vals(s))
}

/// `make-vector`: `n` copies of the optional fill value (the null list by
/// default). A negative count is an index error.
pub open spec fn make_vector(args: Val) -> Result<Val, ErrV> {
    match split_car(args) {
        Err(e) => Err(e),
        Ok((first, rest)) => {
            let fill = match rest {
                Val::Null => Val::Null,
                Val::Atom(_) => rest,
                Val::Pair(h, _) => *h,
            };
            match first {
                Val::Atom(Prim::Number(n)) => if n < 0 {
                    Err(ErrV::Index((n as usize) as nat))
                } else {
                    Ok(Val::Atom(Prim::Vector(Seq::new(n as nat, |i: int| fill))))
                },
                _ => Err(type_err("number"@, first)),
            }
        },
    }
}

/// `vector-ref`.
pub open spec fn vector_ref(v: Val, i: Val) -> Result<Val, ErrV> {
    match (v, i) {
        (Val::Atom(Prim::Vector(s)), Val::Atom(Prim::Number(n))) => {
            let k = (n as usize) as nat;
            if k < s.len() {
                Ok(s[k as int])
            } else {
                Err(ErrV::Index(k))
            }
        },
        (Val::Atom(Prim::Vector(_)), other) => Err(type_err("number"@, other)),
        (other, _) => Err(type_err("vector"@, other)),
    }
}

/// `subvector`: the elements from `start` up to `end`, both indices into
/// the vector.
pub open spec fn subvector(v: Val, a: Val, b: Val) -> Result<Val, ErrV> {
    match (v, a, b) {
        (Val::Atom(Prim::Vector(s)), Val::Atom(Prim::Number(n0)), Val::Atom(Prim::Number(n1))) => {
            let i0 = (n0 as usize) as nat;
            let i1 = (n1 as usize) as nat;
            if i0 >= s.len() {
                Err(ErrV::Index(i0))
            } else if i1 >= s.len() {
                Err(ErrV::Index(i1))
            } else if i0 > i1 {
                Err(ErrV::Index(i0))
            } else {
                Ok(Val::Atom(Prim::Vector(s.subrange(i0 as int, i1 as int))))
            }
        },
        (Val::Atom(Prim::Vector(_)), Val::Atom(Prim::Number(_)), other) => Err(type_err("number"@, other)),
        (Val::Atom(Prim::Vector(_)), other, _) => Err(type_err("number"@, other)),
        (other, _, _) => Err(type_err("vector"@, other)),
    }
}

/// `vector-head` (`head` true) and `vector-tail`.
pub open spec fn vector_part(v: Val, i: Val, head: bool) -> Result<Val, ErrV> {
    match (v, i) {
        (Val::Atom(Prim::Vector(s)), Val::Atom(Prim::Number(n))) => {
            let k = (n as usize) as nat;
            if k >= s.len() {
                Err(ErrV::Index(k))
            } else if head {
                Ok(Val::Atom(Prim::Vector(s.subrange(0, k as int))))
            } else {
                Ok(Val::Atom(Prim::Vector(s.subrange(k as int, s.len() as int))))
            }
        },
        (Val::Atom(Prim::Vector(_)), other) => Err(type_err("number"@, other)),
        (other, _) => Err(type_err("vector"@, other)),
    }
}

/// The native procedures that neither evaluate nor print: a function of the
/// (evaluated) arguments alone. `xs` are the arguments' elements.
pub open spec fn pure_builtin(b: Builtin, args: Val) -> Result<Val, ErrV> {
    let xs = items(args);
    let x0 = xs[0];
    let x1 = xs[1];
    match b {
        Builtin::EqP | Builtin::EqualP => Ok(bool_val(val_equal(x0, x1))),
        Builtin::EqvP => Ok(bool_val(eqv(x0, x1))),
        Builtin::NullP => Ok(bool_val(val_equal(args, list_of(seq![Val::Null])))),
        Builtin::MakeVoid => Ok(Val::Atom(Prim::Void)),
        Builtin::List => Ok(args),
        Builtin::Not => Ok(bool_val(val_equal(args, list_of(seq![bool_val(false)])))),
        Builtin::Cons => match split_car(args) {
            Err(e) => Err(e),
            Ok((a, rest)) => match split_car(rest) {
                Err(e) => Err(e),
                Ok((d, _)) => Ok(Val::Pair(Box::new(a), Box::new(d))),
            },
        },
        Builtin::Car => car_spec(x0),
        Builtin::Cdr => cdr_spec(x0),
        Builtin::TypeOf => Ok(str_val(type_label(x0))),
        Builtin::ArityValidP => arity_valid(x0, x1),
        Builtin::OfArityP => if x0 matches Val::Atom(Prim::Procedure(_)) {
            arity_valid(x0, x1)
        } else {
            Ok(bool_val(false))
        },
        Builtin::ThunkP => Ok(
            bool_val(
                match x0 {
                    Val::Atom(Prim::Procedure(p)) => arity_accepts(p, 0),
                    _ => false,
                },
            ),
        ),
        Builtin::ProcedureP => Ok(bool_val(x0 matches Val::Atom(Prim::Procedure(_)))),
        Builtin::EnvironmentP => Ok(bool_val(false)),
        Builtin::StringToList => match x0 {
            Val::Atom(Prim::Str(s)) => Ok(chars_list(s)),
            _ => Err(type_err("string"@, x0)),
        },
        Builtin::ListToString => match x0 {
            Val::Atom(Prim::Character(c)) => Ok(str_val(seq![c])),
            _ => Err(type_err("char"@, x0)),
        },
        Builtin::ZeroP => Ok(bool_val(val_equal(x0, num_val(0)))),
        Builtin::Add1 | Builtin::Sub1 | Builtin::Abs => unary_numeric(b, x0),
        Builtin::NumEq | Builtin::Less | Builtin::Greater | Builtin::Remainder | Builtin::Pow => binary_numeric(
            b,
            args,
            x0,
            x1,
        ),
        Builtin::Plus | Builtin::Minus | Builtin::Times | Builtin::Divide => variadic_numeric(b, xs),
        Builtin::MakeVector => make_vector(args),
        Builtin::VectorCopy => match x0 {
            Val::Atom(Prim::Vector(_)) => Ok(x0),
            _ => Err(type_err("vector"@, x0)),
        },
        Builtin::VectorP => Ok(bool_val(x0 matches Val::Atom(Prim::Vector(_)))),
        Builtin::VectorLength => match x0 {
            Val::Atom(Prim::Vector(s)) => exact_val(s.len() as int),
            _ => Err(type_err("vector"@, x0)),
        },
        Builtin::VectorRef => vector_ref(x0, x1),
        Builtin::Subvector => subvector(x0, x1, xs[2]),
        Builtin::VectorHead => vector_part(x0, x1, true),
        Builtin::VectorTail => vector_part(x0, x1, false),
        _ => Ok(undefined_val()),
    }
}

/// Replaces the head (`head` true) or the tail of a pair.
pub open spec fn set_part(v: Val, n: Val, head: bool) -> Result<Val, ErrV> {
    match v {
        Val::Pair(h, t) => if head {
            Ok(Val::Pair(Box::new(n), t))
        } else {
            Ok(Val::Pair(h, Box::new(n)))
        },
        Val::Null => Err(ErrV::NullList),
        Val::Atom(_) => Err(ErrV::NotAList(show_spec(v))),
    }
}

/// Whether a `case` clause's data match the key: the clause is `else`, or
/// one of its data equals the key.
pub open spec fn clause_matches(objs: Val, key: Val) -> bool {
    val_equal(objs, sym_val("else"@)) || exists|j: int| 0 <= j < items(objs).len() && val_equal(#[trigger] items(objs)[j], key)
}

/// The body of the first `case` clause at or after `i` that matches `key`.
pub open spec fn find_clause(clauses: Seq<Val>, key: Val, i: int) -> Option<Val>
    decreases clauses.len() - i,
{
    if i < 0 || i >= clauses.len() {
        None
    } else {
        match clauses[i] {
            Val::Pair(objs, body) => if clause_matches(*objs, key) {
                Some(*body)
            } else {
                find_clause(clauses, key, i + 1)
            },
            _ => find_clause(clauses, key, i + 1),
        }
    }
}

/// The loop variables of `do`: for each, its name and initial expression,
/// and the step expressions.
pub open spec fn do_vars(vs: Seq<Val>, i: int, inits: Seq<(Seq<char>, Val)>, ups: Seq<(Seq<char>, Val)>) -> Result<(Seq<(Seq<char>, Val)>, Seq<(Seq<char>, Val)>), ErrV>
    decreases vs.len() - i,
{
    if i < 0 || i >= vs.len() {
        Ok((inits, ups))
    } else {
        match split_car(vs[i]) {
            Err(e) => Err(e),
            Ok((name, rest)) => match name {
                Val::Atom(Prim::Symbol(s)) => {
                    let n = list_count(rest);
                    if n == 1 {
                        do_vars(vs, i + 1, assoc_put(inits, s, items(rest)[0]), ups)
                    } else if n == 2 {
                        do_vars(vs, i + 1, assoc_put(inits, s, items(rest)[0]), assoc_put(ups, s, items(rest)[1]))
                    } else if n == 0 {
                        Err(ErrV::ArityMin(1, 0))
                    } else {
                        Err(ErrV::ArityMax(2, n))
                    }
                },
                _ => Err(type_err("symbol"@, name)),
            },
        }
    }
}

/// Binds each name of `defs` to its value, one after the other, in the
/// current scope.
pub open spec fn define_all(st: CtxV, defs: Seq<(Seq<char>, Val)>, i: int) -> CtxV
    decreases defs.len() - i,
{
    if i < 0 || i >= defs.len() {
        st
    } else {
        define_all(ctx_define(st, defs[i].0, defs[i].1), defs, i + 1)
    }
}

/// The parameters and initial expressions of a named `let`.
pub open spec fn let_bindings(xs: Seq<Val>, i: int, params: Seq<Seq<char>>, inits: Seq<Val>) -> Result<(Seq<Seq<char>>, Seq<Val>), ErrV>
    decreases xs.len() - i,
{
    if i < 0 || i >= xs.len() {
        Ok((params, inits))
    } else {
        match split_car(xs[i]) {
            Err(e) => Err(e),
            Ok((s, r)) => match car_spec(r) {
                Err(e) => Err(e),
                Ok(d) => match s {
                    Val::Atom(Prim::Symbol(name)) => let_bindings(xs, i + 1, params.push(name), inits.push(d)),
                    _ => Err(type_err("symbol"@, s)),
                },
            },
        }
    }
}

/// Prints `v` (its `display` form, or with `debug` its `write` form),
/// with a newline after it if asked, with escape sequences rewritten.
pub open spec fn printed_text(v: Val, newline: bool, debug: bool) -> Seq<char> {
    unescape_spec(
        (if debug {
            debug_spec(v)
        } else {
            show_spec(v)
        }) + (if newline {
            seq!['\n']
        } else {
            seq![]
        }),
    )
}

pub open spec fn call1(f: Val, x: Val) -> Val {
    Val::Pair(Box::new(f), Box::new(Val::Pair(Box::new(x), Box::new(Val::Null))))
}

pub open spec fn call2(f: Val, x: Val, y: Val) -> Val {
    Val::Pair(Box::new(f), Box::new(Val::Pair(Box::new(x), Box::new(Val::Pair(Box::new(y), Box::new(Val::Null))))))
}

// ---------------------------------------------------------------------------
// Evaluation
// ---------------------------------------------------------------------------

/// What the evaluation loop leaves: the context, the value or error, and
/// whether the error came up from a nested evaluation or application (and
/// not from the loop itself), in which case the scope is not restored.
pub type LoopOut = (CtxV, Result<Val, ErrV>, bool);

/// Evaluates `e` in `st`. Definitions made on the way persist. The current
/// scope is restored afterwards, except when an error comes up from a nested
/// evaluation or application: then it stays the scope in which that error
/// arose.
pub open spec fn ev(f: nat, st: CtxV, e: Val) -> Out
    decreases f, 0nat,
{
    if f == 0 {
        (st, Err(ErrV::Exhausted))
    } else {
        let (s2, r, keep) = ev_loop((f - 1) as nat, st, e);
        (if keep { s2 } else { with_cur(s2, st.cur) }, r)
    }
}

/// Evaluation, with tail calls continuing in place. A pair whose head
/// evaluates to a procedure is an application; one whose head evaluates to a
/// symbol is an error; any other pair is data, and evaluates to the list of
/// its evaluated elements.
pub open spec fn ev_loop(f: nat, st: CtxV, e: Val) -> LoopOut
    decreases f, 0nat,
{
    if f == 0 {
        (st, Err(ErrV::Exhausted), false)
    } else {
        match e {
            Val::Null => (st, Err(ErrV::NullList), false),
            Val::Atom(Prim::Symbol(s)) => match ctx_get(st, s) {
                None => (st, Err(ErrV::UndefinedSymbol(s)), false),
                Some(v) => if v == undefined_val() {
                    (st, Err(ErrV::UndefinedSymbol(s)), false)
                } else {
                    (st, Ok(v), false)
                },
            },
            Val::Atom(_) => (st, Ok(e), false),
            Val::Pair(h, t) => {
                let (s1, hr) = ev((f - 1) as nat, st, *h);
                match hr {
                    Err(x) => (s1, Err(x), true),
                    Ok(Val::Atom(Prim::Procedure(p))) => {
                        let (s2, ar) = if proc_defers(p) {
                            (s1, Ok(*t))
                        } else {
                            ev_args((f - 1) as nat, s1, *t)
                        };
                        match ar {
                            Err(x) => (s2, Err(x), true),
                            Ok(args) => match apply((f - 1) as nat, s2, p, args) {
                                Flow::Done(s3, r) => (s3, r, r is Err),
                                Flow::Tail(s3, e2) => ev_loop((f - 1) as nat, s3, e2),
                            },
                        }
                    },
                    Ok(Val::Atom(Prim::Symbol(name))) => (s1, Err(ErrV::NotAProcedure(name)), false),
                    Ok(other) => {
                        let (s2, ar) = ev_args((f - 1) as nat, s1, *t);
                        match ar {
                            Err(x) => (s2, Err(x), true),
                            Ok(args) => (s2, Ok(Val::Pair(Box::new(other), Box::new(args))), false),
                        }
                    },
                }
            },
        }
    }
}

/// Evaluates the elements of an argument list, in order, into a proper
/// list.
pub open spec fn ev_args(f: nat, st: CtxV, args: Val) -> Out
    decreases f, 1nat,
{
    if f == 0 {
        (st, Err(ErrV::Exhausted))
    } else {
        let (s, r) = ev_items((f - 1) as nat, st, items(args), 0);
        match r {
            Ok(vs) => (s, Ok(list_of(vs))),
            Err(e) => (s, Err(e)),
        }
    }
}

/// Evaluates `xs[i..]` in order; the first error stops.
pub open spec fn ev_items(f: nat, st: CtxV, xs: Seq<Val>, i: int) -> (CtxV, Result<Seq<Val>, ErrV>)
    decreases f, xs.len() - i + 1,
{
    if i < 0 || i >= xs.len() {
        (st, Ok(seq![]))
    } else {
        let (s1, r) = ev(f, st, xs[i]);
        match r {
            Err(e) => (s1, Err(e)),
            Ok(v) => {
                let (s2, rs) = ev_items(f, s1, xs, i + 1);
                match rs {
                    Ok(vs) => (s2, Ok(seq![v] + vs)),
                    Err(e) => (s2, Err(e)),
                }
            },
        }
    }
}

/// Applies a procedure to its (evaluated or, for special forms, raw)
/// arguments, after checking how many there are.
pub open spec fn apply(f: nat, st: CtxV, p: ProcV, args: Val) -> Flow
    decreases f, 1nat,
{
    if f == 0 {
        Flow::Done(st, Err(ErrV::Exhausted))
    } else {
        match arity_error(p, list_count(args)) {
            Some(e) => Flow::Done(st, Err(e)),
            None => match p.func {
                FuncV::Builtin(b) => builtin((f - 1) as nat, st, b, args),
                FuncV::Lambda(params, body, envt) => defer_body(
                    (f - 1) as nat,
                    enter_lambda(st, params, items(args), envt),
                    items(*body),
                    0,
                ),
            },
        }
    }
}

/// Evaluates a body: every expression but the last in turn, the last in tail
/// position. An empty body is undefined.
pub open spec fn defer_body(f: nat, st: CtxV, xs: Seq<Val>, i: int) -> Flow
    decreases f, xs.len() - i + 1,
{
    if i < 0 || i >= xs.len() {
        Flow::Done(st, Ok(undefined_val()))
    } else if i == xs.len() - 1 {
        Flow::Tail(st, xs[i])
    } else {
        let (s1, r) = ev(f, st, xs[i]);
        match r {
            Err(e) => Flow::Done(s1, Err(e)),
            Ok(_) => defer_body(f, s1, xs, i + 1),
        }
    }
}

pub open spec fn done(o: Out) -> Flow {
    Flow::Done(o.0, o.1)
}

/// The native procedures.
pub open spec fn builtin(f: nat, st: CtxV, b: Builtin, args: Val) -> Flow
    decreases f, 1nat,
{
    if f == 0 {
        Flow::Done(st, Err(ErrV::Exhausted))
    } else {
        let g = (f - 1) as nat;
        match b {
            Builtin::Eval => done(eval_form(g, st, args)),
            Builtin::Apply => done(apply_form(g, st, args)),
            Builtin::And => done(and_from(g, st, items(args), 0, bool_val(true))),
            Builtin::Or => done(or_from(g, st, items(args), 0)),
            Builtin::Begin => done(begin_from(g, st, items(args), 0, undefined_val())),
            Builtin::Case => case_form(g, st, args),
            Builtin::Cond => cond_from(g, st, items(args), 0),
            Builtin::Define => done(define_form(g, st, args)),
            Builtin::Do => done(do_form(g, st, args)),
            Builtin::If => if_form(g, st, args),
            Builtin::Lambda => Flow::Done(st, lambda_form(st.cur, args, false)),
            Builtin::NamedLambda => Flow::Done(st, lambda_form(st.cur, args, true)),
            Builtin::Let => let_form(g, st, args),
            Builtin::Quasiquote => done(quasiquote_form(g, st, args)),
            Builtin::Quote => Flow::Done(st, quote_form(args)),
            Builtin::SetBang => done(set_form(st, args)),
            Builtin::SetCar => done(set_part_form(g, st, args, true)),
            Builtin::SetCdr => done(set_part_form(g, st, args, false)),
            Builtin::Display => done(print_form(g, st, args, false, false)),
            Builtin::Displayln => done(print_form(g, st, args, true, false)),
            Builtin::Write => done(print_form(g, st, args, false, true)),
            Builtin::Writeln => done(print_form(g, st, args, true, true)),
            Builtin::Require => done(require_form(g, st, args)),
            Builtin::MapList => done(map_form(g, st, args)),
            Builtin::Foldl => done(fold_form(g, st, args)),
            Builtin::Filter => done(filter_form(g, st, args)),
            Builtin::VectorSet => done(vector_set_form(g, st, args)),
            Builtin::VectorMap => done(vector_map_form(g, st, args)),
            _ => Flow::Done(st, pure_builtin(b, args)),
        }
    }
}

/// `eval`: evaluates the argument, then evaluates the result.
pub open spec fn eval_form(f: nat, st: CtxV, args: Val) -> Out
    decreases f, 1nat,
{
    match car_spec(args) {
        Err(e) => (st, Err(e)),
        Ok(a) => {
            let (s1, r) = ev(f, st, a);
            match r {
                Err(e) => (s1, Err(e)),
                Ok(v) => ev(f, s1, v),
            }
        },
    }
}

/// `require`: evaluates the argument to the path of a file, and runs the
/// text of that file (reads it, then evaluates it). A file whose text the
/// context has not been given is an `Unread` error; one that could not be
/// read is the error of reading it.
pub open spec fn require_form(f: nat, st: CtxV, args: Val) -> Out
    decreases f, 1nat,
{
    match car_spec(args) {
        Err(e) => (st, Err(e)),
        Ok(a) => {
            let (s1, r) = ev(f, st, a);
            match r {
                Err(e) => (s1, Err(e)),
                Ok(Val::Atom(Prim::Str(path))) => match file_get(s1.files, path, 0) {
                    None => (s1, Err(ErrV::Unread(path))),
                    Some(Err(m)) => (s1, Err(ErrV::IO(m))),
                    Some(Ok(text)) => match parse_spec(text) {
                        Err(e) => (s1, Err(ErrV::Syntax(e))),
                        Ok(v) => ev(f, s1, v),
                    },
                },
                Ok(other) => (s1, Err(type_err("string"@, other))),
            }
        },
    }
}

/// `apply`: evaluates the second argument to a list, puts the first argument
/// in front of it, and evaluates that.
pub open spec fn apply_form(f: nat, st: CtxV, args: Val) -> Out
    decreases f, 1nat,
{
    match split_car(args) {
        Err(e) => (st, Err(e)),
        Ok((op, tl)) => match car_spec(tl) {
            Err(e) => (st, Err(e)),
            Ok(le) => {
                let (s1, r) = ev(f, st, le);
                match r {
                    Err(e) => (s1, Err(e)),
                    Ok(lst) => ev(f, s1, Val::Pair(Box::new(op), Box::new(lst))),
                }
            },
        },
    }
}

/// `and`: the first false value, or the last value (`#t` when there are
/// none); evaluation stops at the first false value.
pub open spec fn and_from(f: nat, st: CtxV, xs: Seq<Val>, i: int, state: Val) -> Out
    decreases f, xs.len() - i + 1,
{
    if i < 0 || i >= xs.len() {
        (st, Ok(state))
    } else {
        let (s1, r) = ev(f, st, xs[i]);
        match r {
            Err(e) => (s1, Err(e)),
            Ok(v) => if is_false(v) {
                (s1, Ok(v))
            } else {
                and_from(f, s1, xs, i + 1, v)
            },
        }
    }
}

/// `or`: the first value that is not false, or `#f`; evaluation stops at
/// the first such value.
pub open spec fn or_from(f: nat, st: CtxV, xs: Seq<Val>, i: int) -> Out
    decreases f, xs.len() - i + 1,
{
    if i < 0 || i >= xs.len() {
        (st, Ok(bool_val(false)))
    } else {
        let (s1, r) = ev(f, st, xs[i]);
        match r {
            Err(e) => (s1, Err(e)),
            Ok(v) => if is_false(v) {
                or_from(f, s1, xs, i + 1)
            } else {
                (s1, Ok(v))
            },
        }
    }
}

/// `begin`: the value of the last expression.
pub open spec fn begin_from(f: nat, st: CtxV, xs: Seq<Val>, i: int, ret: Val) -> Out
    decreases f, xs.len() - i + 1,
{
    if i < 0 || i >= xs.len() {
        (st, Ok(ret))
    } else {
        let (s1, r) = ev(f, st, xs[i]);
        match r {
            Err(e) => (s1, Err(e)),
            Ok(v) => begin_from(f, s1, xs, i + 1, v),
        }
    }
}

/// `case`: evaluates the key, then runs the body of the first clause whose
/// data hold it (or that is `else`). When none matches, the key's value is
/// itself taken as the arguments of `case`.
pub open spec fn case_form(f: nat, st: CtxV, args: Val) -> Flow
    decreases f, 1nat,
{
    if f == 0 {
        Flow::Done(st, Err(ErrV::Exhausted))
    } else {
        match args {
            Val::Pair(head, tail) => {
                let (s1, r) = ev(f, st, *head);
                match r {
                    Err(e) => Flow::Done(s1, Err(e)),
                    Ok(key) => match find_clause(items(*tail), key, 0) {
                        Some(body) => defer_body((f - 1) as nat, s1, items(body), 0),
                        None => case_form((f - 1) as nat, s1, key),
                    },
                }
            },
            Val::Atom(_) => Flow::Done(st, Ok(undefined_val())),
            Val::Null => Flow::Done(st, Err(ErrV::ArityMin(1, 0))),
        }
    }
}

/// `cond`: the body of the first clause whose test is not false (or is
/// `else`); void when there is none.
pub open spec fn cond_from(f: nat, st: CtxV, xs: Seq<Val>, i: int) -> Flow
    decreases f, xs.len() - i + 1,
{
    if f == 0 {
        Flow::Done(st, Err(ErrV::Exhausted))
    } else if i < 0 || i >= xs.len() {
        Flow::Done(st, Ok(Val::Atom(Prim::Void)))
    } else {
        match xs[i] {
            Val::Pair(pred, body) => if val_equal(*pred, sym_val("else"@)) {
                defer_body((f - 1) as nat, st, items(*body), 0)
            } else {
                let (s1, r) = ev(f, st, *pred);
                match r {
                    Err(e) => Flow::Done(s1, Err(e)),
                    Ok(v) => if is_false(v) {
                        cond_from(f, s1, xs, i + 1)
                    } else {
                        defer_body((f - 1) as nat, s1, items(*body), 0)
                    },
                }
            },
            other => Flow::Done(st, Err(ErrV::Syntax(SynV::InvalidCond(other)))),
        }
    }
}

/// `define`: binds a symbol to the value of an expression (undefined when
/// there is none), or `(define (name params...) body...)` to a procedure.
pub open spec fn define_form(f: nat, st: CtxV, args: Val) -> Out
    decreases f, 1nat,
{
    match split_car(args) {
        Err(e) => (st, Err(e)),
        Ok((sig, defn)) => match sig {
            Val::Pair(h, t) => match *h {
                Val::Atom(Prim::Symbol(s)) => match lambda_form(
                    st.cur,
                    Val::Pair(Box::new(sig), Box::new(defn)),
                    true,
                ) {
                    Err(e) => (st, Err(e)),
                    Ok(p) => (ctx_define(st, s, p), Ok(undefined_val())),
                },
                other => (st, Err(type_err("symbol"@, other))),
            },
            Val::Atom(Prim::Symbol(s)) => {
                let n = list_count(defn);
                if n > 1 {
                    (st, Err(ErrV::ArityMax(1, n)))
                } else {
                    match defn {
                        Val::Null => (ctx_define(st, s, undefined_val()), Ok(undefined_val())),
                        _ => {
                            let e = match defn {
                                Val::Pair(h, _) => *h,
                                _ => defn,
                            };
                            let (s1, r) = ev(f, st, e);
                            match r {
                                Err(x) => (s1, Err(x)),
                                Ok(v) => (ctx_define(s1, s, v), Ok(undefined_val())),
                            }
                        },
                    }
                }
            },
            other => (st, Err(type_err("symbol"@, other))),
        },
    }
}

/// `do`: binds the loop variables to their (unevaluated) initial expressions
/// in a new scope, then repeatedly runs the body, tests the termination
/// condition, and re-binds the variables that have step expressions to
/// their values. When the condition holds, the result expressions are
/// evaluated as by `begin`.
pub open spec fn do_form(f: nat, st: CtxV, args: Val) -> Out
    decreases f, 1nat,
{
    if f == 0 {
        (st, Err(ErrV::Exhausted))
    } else {
        match split_car(args) {
            Err(e) => (st, Err(e)),
            Ok((vars, rest)) => match split_car(rest) {
                Err(e) => (st, Err(e)),
                Ok((term, body)) => match do_vars(items(vars), 0, seq![], seq![]) {
                    Err(e) => (st, Err(e)),
                    Ok((inits, ups)) => match split_car(term) {
                        Err(e) => (st, Err(e)),
                        Ok((test, ret)) => {
                            let s0 = define_all(ctx_push(st), inits, 0);
                            let (s1, r) = do_loop((f - 1) as nat, s0, items(body), test, items(ret), ups);
                            (ctx_pop(s1), r)
                        },
                    },
                },
            },
        }
    }
}

/// The iterations of a `do` loop.
pub open spec fn do_loop(f: nat, st: CtxV, body: Seq<Val>, test: Val, ret: Seq<Val>, ups: Seq<(Seq<char>, Val)>) -> Out
    decreases f, 1nat,
{
    if f == 0 {
        (st, Err(ErrV::Exhausted))
    } else {
        let g = (f - 1) as nat;
        let (s1, r1) = run_from(g, st, body, 0);
        match r1 {
            Err(e) => (s1, Err(e)),
            Ok(_) => {
                let (s2, r2) = ev(g, s1, test);
                match r2 {
                    Err(e) => (s2, Err(e)),
                    Ok(c) => if is_false(c) {
                        let (s3, r3) = ev_items(g, s2, ups.map_values(|u: (Seq<char>, Val)| u.1), 0);
                        match r3 {
                            Err(e) => (s3, Err(e)),
                            Ok(vals) => {
                                let news = Seq::new(ups.len(), |k: int| (ups[k].0, vals[k]));
                                do_loop(g, define_all(s3, news, 0), body, test, ret, ups)
                            },
                        }
                    } else {
                        begin_from(g, s2, ret, 0, undefined_val())
                    },
                }
            },
        }
    }
}

/// Evaluates `xs[i..]` for their effects; the first error stops.
pub open spec fn run_from(f: nat, st: CtxV, xs: Seq<Val>, i: int) -> Out
    decreases f, xs.len() - i + 1,
{
    if i < 0 || i >= xs.len() {
        (st, Ok(undefined_val()))
    } else {
        let (s1, r) = ev(f, st, xs[i]);
        match r {
            Err(e) => (s1, Err(e)),
            Ok(_) => run_from(f, s1, xs, i + 1),
        }
    }
}

/// `if`: evaluates the condition, then the second expression (in tail
/// position) when it is `#f`, the first otherwise.
pub open spec fn if_form(f: nat, st: CtxV, args: Val) -> Flow
    decreases f, 1nat,
{
    match split_car(args) {
        Err(e) => Flow::Done(st, Err(e)),
        Ok((c, r1)) => match split_car(r1) {
            Err(e) => Flow::Done(st, Err(e)),
            Ok((a, r2)) => match split_car(r2) {
                Err(e) => Flow::Done(st, Err(e)),
                Ok((b, _)) => {
                    let (s1, r) = ev(f, st, c);
                    match r {
                        Err(e) => Flow::Done(s1, Err(e)),
                        Ok(v) => Flow::Tail(s1, if is_false(v) { b } else { a }),
                    }
                },
            },
        },
    }
}

/// `let`: with a name, binds a procedure of the bindings' names to it in a
/// new scope and applies it to the initial expressions; otherwise defines
/// each binding (as `define` does) in a new scope and runs the body there.
pub open spec fn let_form(f: nat, st: CtxV, args: Val) -> Flow
    decreases f, 1nat,
{
    if f == 0 {
        Flow::Done(st, Err(ErrV::Exhausted))
    } else {
        match split_car(args) {
            Err(e) => Flow::Done(st, Err(e)),
            Ok((dl, stmts)) => match dl {
                Val::Atom(Prim::Symbol(name)) => match split_car(stmts) {
                    Err(e) => Flow::Done(st, Err(e)),
                    Ok((dl2, stmts2)) => match let_bindings(items(dl2), 0, seq![], seq![]) {
                        Err(e) => Flow::Done(st, Err(e)),
                        Ok((params, inits)) => {
                            let s1 = ctx_push(st);
                            let s2 = ctx_define(s1, name, lambda_val(Some(name), params, stmts2, s1.cur));
                            let (s3, r) = ev(f, s2, Val::Pair(Box::new(sym_val(name)), Box::new(list_of(inits))));
                            Flow::Done(ctx_pop(s3), r)
                        },
                    },
                },
                _ => {
                    let s1 = ctx_push(st);
                    let (s2, r) = let_defs((f - 1) as nat, s1, items(dl), 0);
                    match r {
                        Err(e) => Flow::Done(ctx_pop(s2), Err(e)),
                        Ok(_) => match defer_body((f - 1) as nat, s2, items(stmts), 0) {
                            Flow::Done(s3, r3) => Flow::Done(ctx_pop(s3), r3),
                            Flow::Tail(s3, e3) => Flow::Tail(s3, e3),
                        },
                    }
                },
            },
        }
    }
}

/// The bindings of a plain `let`, each handled as by `define`.
pub open spec fn let_defs(f: nat, st: CtxV, xs: Seq<Val>, i: int) -> Out
    decreases f, xs.len() - i + 1,
{
    if f == 0 {
        (st, Err(ErrV::Exhausted))
    } else if i < 0 || i >= xs.len() {
        (st, Ok(undefined_val()))
    } else {
        let (s1, r) = define_form((f - 1) as nat, st, xs[i]);
        match r {
            Err(e) => (s1, Err(e)),
            Ok(_) => let_defs(f, s1, xs, i + 1),
        }
    }
}

/// `quasiquote`: a list's elements of the form `(unquote e)` are replaced by
/// the value of `e`; everything else is kept as it is.
pub open spec fn quasiquote_form(f: nat, st: CtxV, args: Val) -> Out
    decreases f, 1nat,
{
    if f == 0 {
        (st, Err(ErrV::Exhausted))
    } else {
        match car_spec(args) {
            Err(e) => (st, Err(e)),
            Ok(a) => match a {
                Val::Pair(_, _) => {
                    let (s1, r) = qq_from((f - 1) as nat, st, items(a), 0);
                    match r {
                        Ok(vs) => (s1, Ok(list_of(vs))),
                        Err(e) => (s1, Err(e)),
                    }
                },
                _ => (st, Ok(a)),
            },
        }
    }
}

pub open spec fn qq_from(f: nat, st: CtxV, xs: Seq<Val>, i: int) -> (CtxV, Result<Seq<Val>, ErrV>)
    decreases f, xs.len() - i + 1,
{
    if i < 0 || i >= xs.len() {
        (st, Ok(seq![]))
    } else {
        let (s1, r): Out = match xs[i] {
            Val::Pair(h, t) => if *h == sym_val("unquote"@) {
                match car_spec(*t) {
                    Err(e) => (st, Err(e)),
                    Ok(x) => ev(f, st, x),
                }
            } else {
                (st, Ok(xs[i]))
            },
            other => (st, Ok(other)),
        };
        match r {
            Err(e) => (s1, Err(e)),
            Ok(v) => {
                let (s2, rs) = qq_from(f, s1, xs, i + 1);
                match rs {
                    Ok(vs) => (s2, Ok(seq![v] + vs)),
                    Err(e) => (s2, Err(e)),
                }
            },
        }
    }
}

/// `set!`: re-binds a defined symbol to the (unevaluated) second argument.
pub open spec fn set_form(st: CtxV, args: Val) -> Out {
    match split_car(args) {
        Err(e) => (st, Err(e)),
        Ok((name, tl)) => match name {
            Val::Atom(Prim::Symbol(s)) => match car_spec(tl) {
                Err(e) => (st, Err(e)),
                Ok(v) => ctx_set(st, s, v),
            },
            other => (st, Err(type_err("symbol"@, other))),
        },
    }
}

/// `set-car!` and `set-cdr!`: replaces a part of the pair a symbol is bound
/// to, and re-binds the symbol to the result.
pub open spec fn set_part_form(f: nat, st: CtxV, args: Val, head: bool) -> Out
    decreases f, 1nat,
{
    match split_car(args) {
        Err(e) => (st, Err(e)),
        Ok((c, tl)) => match car_spec(tl) {
            Err(e) => (st, Err(e)),
            Ok(new) => match c {
                Val::Atom(Prim::Symbol(key)) => match ctx_get(st, key) {
                    None => (st, Err(ErrV::UndefinedSymbol(key))),
                    Some(val) => {
                        let (s1, r) = ev(f, st, new);
                        match r {
                            Err(e) => (s1, Err(e)),
                            Ok(nv) => match set_part(val, nv, head) {
                                Err(e) => (s1, Err(e)),
                                Ok(v2) => ctx_set(s1, key, v2),
                            },
                        }
                    },
                },
                other => (st, Err(type_err("symbol"@, other))),
            },
        },
    }
}

/// `display`, `displayln`, `write` and `writeln`.
pub open spec fn print_form(f: nat, st: CtxV, args: Val, newline: bool, debug: bool) -> Out
    decreases f, 1nat,
{
    match car_spec(args) {
        Err(e) => (st, Err(e)),
        Ok(a) => {
            let (s1, r) = ev(f, st, a);
            match r {
                Err(e) => (s1, Err(e)),
                Ok(v) => (ctx_emit(s1, printed_text(v, newline, debug)), Ok(undefined_val())),
            }
        },
    }
}

/// `map`: evaluates the list, then `(proc e)` for each of its elements.
pub open spec fn map_form(f: nat, st: CtxV, args: Val) -> Out
    decreases f, 1nat,
{
    if f == 0 {
        (st, Err(ErrV::Exhausted))
    } else {
        match split_car(args) {
            Err(e) => (st, Err(e)),
            Ok((head, tl)) => match car_spec(tl) {
                Err(e) => (st, Err(e)),
                Ok(le) => {
                    let (s1, r) = ev(f, st, le);
                    match r {
                        Err(e) => (s1, Err(e)),
                        Ok(lst) => {
                            let (s2, rs) = map_from((f - 1) as nat, s1, head, items(lst), 0);
                            match rs {
                                Ok(vs) => (s2, Ok(list_of(vs))),
                                Err(e) => (s2, Err(e)),
                            }
                        },
                    }
                },
            },
        }
    }
}

pub open spec fn map_from(f: nat, st: CtxV, head: Val, xs: Seq<Val>, i: int) -> (CtxV, Result<Seq<Val>, ErrV>)
    decreases f, xs.len() - i + 1,
{
    if i < 0 || i >= xs.len() {
        (st, Ok(seq![]))
    } else {
        let (s1, r) = ev(f, st, call1(head, xs[i]));
        match r {
            Err(e) => (s1, Err(e)),
            Ok(v) => {
                let (s2, rs) = map_from(f, s1, head, xs, i + 1);
                match rs {
                    Ok(vs) => (s2, Ok(seq![v] + vs)),
                    Err(e) => (s2, Err(e)),
                }
            },
        }
    }
}

/// `foldl`: evaluates the list, then folds `(proc acc e)` over it from the
/// (unevaluated) initial value.
pub open spec fn fold_form(f: nat, st: CtxV, args: Val) -> Out
    decreases f, 1nat,
{
    if f == 0 {
        (st, Err(ErrV::Exhausted))
    } else {
        match split_car(args) {
            Err(e) => (st, Err(e)),
            Ok((head, tl)) => match split_car(tl) {
                Err(e) => (st, Err(e)),
                Ok((init, tl2)) => match car_spec(tl2) {
                    Err(e) => (st, Err(e)),
                    Ok(le) => {
                        let (s1, r) = ev(f, st, le);
                        match r {
                            Err(e) => (s1, Err(e)),
                            Ok(lst) => fold_from((f - 1) as nat, s1, head, items(lst), 0, init),
                        }
                    },
                },
            },
        }
    }
}

pub open spec fn fold_from(f: nat, st: CtxV, head: Val, xs: Seq<Val>, i: int, acc: Val) -> Out
    decreases f, xs.len() - i + 1,
{
    if i < 0 || i >= xs.len() {
        (st, Ok(acc))
    } else {
        let (s1, r) = ev(f, st, call2(head, acc, xs[i]));
        match r {
            Err(e) => (s1, Err(e)),
            Ok(v) => fold_from(f, s1, head, xs, i + 1, v),
        }
    }
}

/// `filter`: evaluates the list, then keeps the elements `e` for which
/// `(pred e)` is not false.
pub open spec fn filter_form(f: nat, st: CtxV, args: Val) -> Out
    decreases f, 1nat,
{
    if f == 0 {
        (st, Err(ErrV::Exhausted))
    } else {
        match split_car(args) {
            Err(e) => (st, Err(e)),
            Ok((pred, tl)) => match car_spec(tl) {
                Err(e) => (st, Err(e)),
                Ok(le) => {
                    let (s1, r) = ev(f, st, le);
                    match r {
                        Err(e) => (s1, Err(e)),
                        Ok(lst) => {
                            let (s2, rs) = filter_from((f - 1) as nat, s1, pred, items(lst), 0);
                            match rs {
                                Ok(vs) => (s2, Ok(list_of(vs))),
                                Err(e) => (s2, Err(e)),
                            }
                        },
                    }
                },
            },
        }
    }
}

pub open spec fn filter_from(f: nat, st: CtxV, pred: Val, xs: Seq<Val>, i: int) -> (CtxV, Result<Seq<Val>, ErrV>)
    decreases f, xs.len() - i + 1,
{
    if i < 0 || i >= xs.len() {
        (st, Ok(seq![]))
    } else {
        let (s1, r) = ev(f, st, call1(pred, xs[i]));
        match r {
            Err(e) => (s1, Err(e)),
            Ok(v) => {
                let (s2, rs) = filter_from(f, s1, pred, xs, i + 1);
                match rs {
                    Ok(vs) => (s2, Ok(if is_false(v) { vs } else { seq![xs[i]] + vs })),
                    Err(e) => (s2, Err(e)),
                }
            },
        }
    }
}

/// `vector-set!`: evaluates the index, then the new element, and re-binds
/// the symbol to the updated vector.
pub open spec fn vector_set_form(f: nat, st: CtxV, args: Val) -> Out
    decreases f, 1nat,
{
    match split_car(args) {
        Err(e) => (st, Err(e)),
        Ok((s, tl)) => match split_car(tl) {
            Err(e) => (st, Err(e)),
            Ok((num, tl2)) => match car_spec(tl2) {
                Err(e) => (st, Err(e)),
                Ok(head) => match s {
                    Val::Atom(Prim::Symbol(sym)) => {
                        let (s1, r) = ev(f, st, num);
                        match r {
                            Err(e) => (s1, Err(e)),
                            Ok(Val::Atom(Prim::Number(n))) => match ctx_get(s1, sym) {
                                Some(Val::Atom(Prim::Vector(vs))) => {
                                    let (s2, r2) = ev(f, s1, head);
                                    match r2 {
                                        Err(e) => (s2, Err(e)),
                                        Ok(nv) => {
                                            let k = (n as usize) as nat;
                                            if k >= vs.len() {
                                                (s2, Err(ErrV::Index(k)))
                                            } else {
                                                let (s3, r3) = ctx_set(s2, sym, Val::Atom(Prim::Vector(vs.update(k as int, nv))));
                                                (s3, r3)
                                            }
                                        },
                                    }
                                },
                                Some(other) => (s1, Err(type_err("vector"@, other))),
                                None => (s1, Err(ErrV::UndefinedSymbol(sym))),
                            },
                            Ok(other) => (s1, Err(type_err("number"@, other))),
                        }
                    },
                    other => (st, Err(type_err("symbol"@, other))),
                },
            },
        },
    }
}

/// `vector-map`: `(proc e)` for each element of the (unevaluated) vector.
pub open spec fn vector_map_form(f: nat, st: CtxV, args: Val) -> Out
    decreases f, 1nat,
{
    if f == 0 {
        (st, Err(ErrV::Exhausted))
    } else {
        match split_car(args) {
            Err(e) => (st, Err(e)),
            Ok((p, tl)) => match car_spec(tl) {
                Err(e) => (st, Err(e)),
                Ok(Val::Atom(Prim::Vector(vs))) => {
                    let (s1, rs) = map_from((f - 1) as nat, st, p, vs, 0);
                    match rs {
                        Ok(out) => (s1, Ok(Val::Atom(Prim::Vector(out)))),
                        Err(e) => (s1, Err(e)),
                    }
                },
                Ok(other) => (st, Err(type_err("vector"@, other))),
            },
        }
    }
}

} // verus!
