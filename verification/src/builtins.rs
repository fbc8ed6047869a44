//! The native procedures that compute on their arguments alone, and the
//! small pieces of evaluation that do not evaluate: taking lists apart,
//! checking arities, building lambdas.
use vstd::prelude::*;

use crate::errors::{car_spec, cdr_spec, type_err, view_result, ErrV, Error};
use crate::numeric::{checked_abs, checked_add, checked_div, checked_mul, checked_pow, checked_rem, checked_sub};
use crate::context::{bindings_view, vars_put};
use crate::semantics::{
    arity_error, arity_holds, arity_valid, binary_numeric, chars_list, eqv, fold_numeric, fold_step, make_vector,
    opt_val, pure_builtin, char_vals, subvector, unary_numeric, variadic_numeric, vector_part, vector_ref, builtin_arity, builtin_defers, call1, call2, clause_matches, do_vars, find_clause,
    first_non_symbol, lambda_form, let_bindings, printed_text, proc_defers, quote_form, set_part, split_car,
    sym_name,
};
use crate::text::{chars_of, str_eq, string_from_chars};
use crate::value::{
    is_false, items, lemma_view_seq, list_of, num_val, lemma_view_seq_push, list_count, list_len, prim_equal, sexp_size, val_equal,
    view_seq, view_strings, Arity, Builtin, Func, Primitive, Proc, SExp, Val,
};

verus! {

/// The model of a split pair.
pub open spec fn view_split(r: Result<(SExp, SExp), Error>) -> Result<(Val, Val), ErrV> {
    match r {
        Ok((a, b)) => Ok((a@, b@)),
        Err(e) => Err(e@),
    }
}

/// The head and the rest of a pair.
pub fn split_pair(v: SExp) -> (r: Result<(SExp, SExp), Error>)
    ensures
        view_split(r) == split_car(v@),
{
    match v {
        SExp::Pair { head, tail } => Ok((*head, *tail)),
        SExp::Null => Err(Error::NullList),
        SExp::Atom(p) => {
            let a = SExp::Atom(p);
            Err(Error::NotAList { atom: crate::display::show(&a) })
        },
    }
}

/// The first element of a pair.
pub fn first_of(v: SExp) -> (r: Result<SExp, Error>)
    ensures
        view_result(r) == car_spec(v@),
{
    match split_pair(v) {
        Ok((a, _)) => Ok(a),
        Err(e) => Err(e),
    }
}

/// The error of a value that is not of the expected type.
pub fn type_error(expected: &'static str, v: &SExp) -> (r: Error)
    ensures
        r@ == type_err(expected@, v@),
{
    Error::Type { expected, given: string_from_chars(chars_of(v.type_of()).as_slice()) }
}

/// How many elements iterating over a value yields (see [`list_count`]).
pub fn count_items(v: &SExp) -> (r: usize)
    ensures
        r == list_count(v@),
{
    let mut n: usize = 0;
    let mut cur = v;
    loop
        invariant
            n <= usize::MAX,
            list_count(v@) == (if n + list_len(cur@) <= usize::MAX {
                n + list_len(cur@)
            } else {
                usize::MAX as int
            }),
        decreases sexp_size(*cur),
    {
        match cur {
            SExp::Pair { head: _, tail } => {
                assert(list_len(cur@) == 1 + list_len(tail@));
                if n < usize::MAX {
                    n = n + 1;
                }
                cur = tail;
            },
            SExp::Null => {
                return n;
            },
            SExp::Atom(_) => {
                if n < usize::MAX {
                    n = n + 1;
                }
                return n;
            },
        }
    }
}

impl Proc {
    /// Whether this procedure receives its arguments unevaluated.
    pub fn defers(&self) -> (r: bool)
        ensures
            r == proc_defers(self@),
    {
        match &self.func {
            Func::Builtin(b) => builtin_defers_exec(*b),
            Func::Lambda { .. } => false,
        }
    }
}

fn builtin_defers_exec(b: Builtin) -> (r: bool)
    ensures
        r == builtin_defers(b),
{
    match b {
        Builtin::Eval | Builtin::Apply | Builtin::And | Builtin::Begin | Builtin::Case | Builtin::Cond
        | Builtin::Do | Builtin::Define | Builtin::If | Builtin::Lambda | Builtin::Let
        | Builtin::NamedLambda | Builtin::Or | Builtin::Quasiquote | Builtin::Quote | Builtin::SetBang
        | Builtin::SetCar | Builtin::SetCdr | Builtin::Display | Builtin::Displayln | Builtin::Write
        | Builtin::Writeln | Builtin::Require | Builtin::MapList | Builtin::Foldl | Builtin::Filter | Builtin::VectorSet
        | Builtin::VectorMap => true,
        _ => false,
    }
}

/// How many arguments a native procedure accepts.
pub fn builtin_arity_exec(b: Builtin) -> (r: Arity)
    ensures
        r == builtin_arity(b),
{
    match b {
        Builtin::Eval => Arity::Exactly(1),
        Builtin::Apply => Arity::Exactly(2),
        Builtin::And => Arity::AtLeast(0),
        Builtin::Begin => Arity::AtLeast(1),
        Builtin::Case => Arity::AtLeast(2),
        Builtin::Cond => Arity::AtLeast(0),
        Builtin::Do => Arity::AtLeast(3),
        Builtin::Define => Arity::AtLeast(1),
        Builtin::If => Arity::Exactly(3),
        Builtin::Lambda => Arity::AtLeast(2),
        Builtin::Let => Arity::AtLeast(2),
        Builtin::NamedLambda => Arity::AtLeast(2),
        Builtin::Or => Arity::AtLeast(0),
        Builtin::Quasiquote => Arity::Exactly(1),
        Builtin::Quote => Arity::Exactly(1),
        Builtin::SetBang => Arity::Exactly(2),
        Builtin::EqP => Arity::Exactly(2),
        Builtin::EqvP => Arity::Exactly(2),
        Builtin::EqualP => Arity::Exactly(2),
        Builtin::NullP => Arity::Exactly(1),
        Builtin::MakeVoid => Arity::Exactly(0),
        Builtin::List => Arity::AtLeast(0),
        Builtin::Not => Arity::Exactly(1),
        Builtin::Cons => Arity::Exactly(2),
        Builtin::Car => Arity::Exactly(1),
        Builtin::Cdr => Arity::Exactly(1),
        Builtin::SetCar => Arity::Exactly(2),
        Builtin::SetCdr => Arity::Exactly(2),
        Builtin::TypeOf => Arity::Exactly(1),
        Builtin::Display => Arity::Exactly(1),
        Builtin::Displayln => Arity::Exactly(1),
        Builtin::Write => Arity::Exactly(1),
        Builtin::Writeln => Arity::Exactly(1),
        Builtin::Require => Arity::Exactly(1),
        Builtin::MapList => Arity::Exactly(2),
        Builtin::Foldl => Arity::Exactly(3),
        Builtin::Filter => Arity::Exactly(2),
        Builtin::ArityValidP => Arity::Exactly(2),
        Builtin::OfArityP => Arity::Exactly(2),
        Builtin::ThunkP => Arity::Exactly(1),
        Builtin::ProcedureP => Arity::Exactly(1),
        Builtin::EnvironmentP => Arity::Exactly(1),
        Builtin::StringToList => Arity::Exactly(3),
        Builtin::ListToString => Arity::Exactly(1),
        Builtin::ZeroP => Arity::Exactly(1),
        Builtin::Add1 => Arity::Exactly(1),
        Builtin::Sub1 => Arity::Exactly(1),
        Builtin::NumEq => Arity::Exactly(2),
        Builtin::Less => Arity::Exactly(2),
        Builtin::Greater => Arity::Exactly(2),
        Builtin::Abs => Arity::Exactly(1),
        Builtin::Plus => Arity::AtLeast(0),
        Builtin::Minus => Arity::AtLeast(1),
        Builtin::Times => Arity::AtLeast(0),
        Builtin::Divide => Arity::AtLeast(1),
        Builtin::Remainder => Arity::Exactly(2),
        Builtin::Pow => Arity::Exactly(2),
        Builtin::MakeVector => Arity::Between(1, 2),
        Builtin::VectorCopy => Arity::Exactly(1),
        Builtin::VectorP => Arity::Exactly(1),
        Builtin::VectorLength => Arity::Exactly(1),
        Builtin::VectorRef => Arity::Exactly(2),
        Builtin::VectorSet => Arity::Exactly(3),
        Builtin::VectorMap => Arity::Exactly(2),
        Builtin::Subvector => Arity::Exactly(3),
        Builtin::VectorHead => Arity::Exactly(2),
        Builtin::VectorTail => Arity::Exactly(2),
    }
}

/// The model of an optional error.
pub open spec fn view_opt_err(o: Option<Error>) -> Option<ErrV> {
    match o {
        Some(e) => Some(e@),
        None => None,
    }
}

/// The error of giving `given` arguments to a procedure, if it does not
/// accept that many.
pub fn arity_check(p: &Proc, given: usize) -> (r: Option<Error>)
    ensures
        view_opt_err(r) == arity_error(p@, given as nat),
{
    match &p.func {
        Func::Lambda { params, .. } => {
            if given != params.len() {
                Some(Error::Arity { expected: params.len(), given })
            } else {
                None
            }
        },
        Func::Builtin(b) => match builtin_arity_exec(*b) {
            Arity::Exactly(n) => if given != n {
                Some(Error::Arity { expected: n, given })
            } else {
                None
            },
            Arity::AtLeast(n) => if given < n {
                Some(Error::ArityMin { expected: n, given })
            } else {
                None
            },
            Arity::Between(lo, hi) => if given < lo {
                Some(Error::ArityMin { expected: lo, given })
            } else if given > hi {
                Some(Error::ArityMax { expected: hi, given })
            } else {
                None
            },
        },
    }
}

/// `lambda` and `named-lambda`: a procedure closing over scope `cur` (see
/// [`lambda_form`]).
pub fn make_lambda(cur: usize, args: SExp, named: bool) -> (r: Result<SExp, Error>)
    ensures
        view_result(r) == lambda_form(cur as nat, args@, named),
{
    let (sig, body) = match split_pair(args) {
        Ok(p) => p,
        Err(e) => {
            return Err(e);
        },
    };
    let is_pair = match &sig {
        SExp::Pair { .. } => true,
        _ => false,
    };
    if !is_pair {
        return Err(type_error("list", &sig));
    }
    let ghost sv = sig@;
    let names = sig.into_items();
    let ghost nv = view_seq(names@);
    assert(split_car(args@) == Ok::<(Val, Val), ErrV>((sv, body@)));
    assert(nv == items(sv));
    proof {
        lemma_view_seq(names@);
    }
    let mut ns: Vec<String> = Vec::new();
    let mut i: usize = 0;
    while i < names.len()
        invariant
            i <= names.len(),
            nv == view_seq(names@),
            nv == items(sv),
            sv is Pair,
            split_car(args@) == Ok::<(Val, Val), ErrV>((sv, body@)),
            nv.len() == names@.len(),
            forall|k: int| 0 <= k < names@.len() ==> #[trigger] nv[k] == names@[k]@,
            first_non_symbol(nv, 0) == first_non_symbol(nv, i as int),
            view_strings(ns@) == nv.subrange(0, i as int).map_values(|v: Val| sym_name(v)),
        decreases names.len() - i,
    {
        match &names[i] {
            SExp::Atom(Primitive::Symbol(s)) => {
                let ghost before = ns@;
                ns.push(s.clone());
                proof {
                    assert(view_strings(ns@) =~= view_strings(before).push(s@));
                    assert(nv.subrange(0, i as int + 1).map_values(|v: Val| sym_name(v)) =~= nv.subrange(
                        0,
                        i as int,
                    ).map_values(|v: Val| sym_name(v)).push(sym_name(nv[i as int])));
                }
            },
            other => {
                assert(first_non_symbol(nv, i as int) == Some(nv[i as int]));
                return Err(type_error("symbol", other));
            },
        }
        i += 1;
    }
    assert(nv.subrange(0, i as int) =~= nv);
    let ghost all = nv.map_values(|v: Val| sym_name(v));
    assert(view_strings(ns@) == all);
    if named {
        let first = ns.remove(0);
        assert(view_strings(ns@) =~= all.drop_first());
        let p = Proc {
            func: Func::Lambda { params: ns, body: Box::new(body), envt: cur },
            name: Some(first),
        };
        assert(crate::value::proc_view(p).func == crate::value::FuncV::Lambda(all.drop_first(), Box::new(body@), cur as nat));
        Ok(SExp::Atom(Primitive::Procedure(p)))
    } else {
        let p = Proc { func: Func::Lambda { params: ns, body: Box::new(body), envt: cur }, name: None };
        assert(crate::value::proc_view(p).func == crate::value::FuncV::Lambda(all, Box::new(body@), cur as nat));
        Ok(SExp::Atom(Primitive::Procedure(p)))
    }
}

/// `quote`: the argument itself.
pub fn quote_exec(args: SExp) -> (r: Result<SExp, Error>)
    ensures
        view_result(r) == quote_form(args@),
{
    match args {
        SExp::Pair { head, .. } => Ok(*head),
        SExp::Null => Err(type_error("list", &SExp::Null)),
        other => Ok(other),
    }
}

/// Whether a value is `#f`.
pub fn is_false_exec(v: &SExp) -> (r: bool)
    ensures
        r == is_false(v@),
{
    match v {
        SExp::Atom(Primitive::Boolean(b)) => !*b,
        _ => false,
    }
}

/// Equality of atoms as the language sees it (see [`prim_equal`]).
pub fn prim_equal_exec(a: &Primitive, b: &Primitive) -> (r: bool)
    ensures
        r == prim_equal(SExp::Atom(*a)@->Atom_0, SExp::Atom(*b)@->Atom_0),
{
    match (a, b) {
        (Primitive::Void, Primitive::Void) => true,
        (Primitive::Undefined, Primitive::Undefined) => true,
        (Primitive::Boolean(x), Primitive::Boolean(y)) => *x == *y,
        (Primitive::Character(x), Primitive::Character(y)) => *x == *y,
        (Primitive::Number(x), Primitive::Number(y)) => *x == *y,
        (Primitive::String(x), Primitive::String(y)) => str_eq(x.as_str(), y.as_str()),
        (Primitive::Symbol(x), Primitive::Symbol(y)) => str_eq(x.as_str(), y.as_str()),
        _ => false,
    }
}

/// Structural equality of values (see [`val_equal`]).
pub fn val_equal_exec(a: &SExp, b: &SExp) -> (r: bool)
    ensures
        r == val_equal(a@, b@),
    decreases sexp_size(*a),
{
    match (a, b) {
        (SExp::Null, SExp::Null) => true,
        (SExp::Atom(x), SExp::Atom(y)) => prim_equal_exec(x, y),
        (SExp::Pair { head: h1, tail: t1 }, SExp::Pair { head: h2, tail: t2 }) => {
            val_equal_exec(h1, h2) && val_equal_exec(t1, t2)
        },
        _ => false,
    }
}

/// Whether a `case` clause's data match the key (see [`clause_matches`]).
fn clause_matches_exec(objs: &SExp, key: &SExp) -> (r: bool)
    ensures
        r == clause_matches(objs@, key@),
{
    let els = SExp::sym("else");
    if val_equal_exec(objs, &els) {
        return true;
    }
    let its = objs.dup().into_items();
    let ghost iv = items(objs@);
    proof {
        lemma_view_seq(its@);
    }
    let mut j: usize = 0;
    while j < its.len()
        invariant
            j <= its.len(),
            iv == items(objs@),
            iv == view_seq(its@),
            iv.len() == its@.len(),
            forall|k: int| 0 <= k < its@.len() ==> #[trigger] iv[k] == its@[k]@,
            forall|k: int| 0 <= k < j ==> !val_equal(#[trigger] iv[k], key@),
        decreases its.len() - j,
    {
        if val_equal_exec(&its[j], key) {
            assert(val_equal(items(objs@)[j as int], key@));
            return true;
        }
        j += 1;
    }
    false
}

/// The body of the first `case` clause that matches `key` (see
/// [`find_clause`]).
pub fn find_clause_exec(clauses: &Vec<SExp>, key: &SExp) -> (r: Option<SExp>)
    ensures
        match r {
            Some(b) => find_clause(view_seq(clauses@), key@, 0) == Some(b@),
            None => find_clause(view_seq(clauses@), key@, 0) is None,
        },
{
    let ghost cv = view_seq(clauses@);
    proof {
        lemma_view_seq(clauses@);
    }
    let mut i: usize = 0;
    while i < clauses.len()
        invariant
            i <= clauses.len(),
            cv == view_seq(clauses@),
            cv.len() == clauses@.len(),
            forall|k: int| 0 <= k < clauses@.len() ==> #[trigger] cv[k] == clauses@[k]@,
            find_clause(cv, key@, 0) == find_clause(cv, key@, i as int),
        decreases clauses.len() - i,
    {
        match &clauses[i] {
            SExp::Pair { head, tail } => {
                if clause_matches_exec(head, key) {
                    return Some(tail.dup());
                }
            },
            _ => {},
        }
        i += 1;
    }
    None
}

/// Replaces the head (`head` true) or the tail of a pair (see
/// [`set_part`]).
pub fn set_part_exec(v: SExp, n: SExp, head: bool) -> (r: Result<SExp, Error>)
    ensures
        view_result(r) == set_part(v@, n@, head),
{
    match v {
        SExp::Pair { head: h, tail: t } => if head {
            Ok(SExp::Pair { head: Box::new(n), tail: t })
        } else {
            Ok(SExp::Pair { head: h, tail: Box::new(n) })
        },
        SExp::Null => Err(Error::NullList),
        SExp::Atom(p) => {
            let a = SExp::Atom(p);
            Err(Error::NotAList { atom: crate::display::show(&a) })
        },
    }
}

/// What printing `v` writes (see [`printed_text`]).
pub fn printed_chars(v: &SExp, newline: bool, debug: bool) -> (r: Vec<char>)
    ensures
        r@ == printed_text(v@, newline, debug),
{
    let mut c = if debug {
        crate::display::debug_chars(v)
    } else {
        crate::display::show_chars(v)
    };
    let ghost c0 = c@;
    if newline {
        c.push('\n');
        assert(c@ =~= c0 + seq!['\n']);
    } else {
        assert(c@ =~= c0 + Seq::<char>::empty());
    }
    crate::text::unescape(&c)
}

/// A call of `f` on `x`.
pub fn call1_exec(f: SExp, x: SExp) -> (r: SExp)
    ensures
        r@ == call1(f@, x@),
{
    let nil = SExp::Null;
    assert(nil@ == Val::Null);
    let rest = SExp::Pair { head: Box::new(x), tail: Box::new(nil) };
    assert(rest@ == Val::Pair(Box::new(x@), Box::new(Val::Null)));
    SExp::Pair { head: Box::new(f), tail: Box::new(rest) }
}

/// A call of `f` on `x` and `y`.
pub fn call2_exec(f: SExp, x: SExp, y: SExp) -> (r: SExp)
    ensures
        r@ == call2(f@, x@, y@),
{
    let nil = SExp::Null;
    assert(nil@ == Val::Null);
    let rest = SExp::Pair { head: Box::new(y), tail: Box::new(nil) };
    assert(rest@ == Val::Pair(Box::new(y@), Box::new(Val::Null)));
    let mid = SExp::Pair { head: Box::new(x), tail: Box::new(rest) };
    assert(mid@ == Val::Pair(Box::new(x@), Box::new(rest@)));
    SExp::Pair { head: Box::new(f), tail: Box::new(mid) }
}

/// The model of the loop variables of `do`.
pub open spec fn view_do_vars(
    r: Result<(Vec<(String, SExp)>, Vec<(String, SExp)>), Error>,
) -> Result<(Seq<(Seq<char>, Val)>, Seq<(Seq<char>, Val)>), ErrV> {
    match r {
        Ok((a, b)) => Ok((bindings_view(a@), bindings_view(b@))),
        Err(e) => Err(e@),
    }
}

/// The loop variables of `do` (see [`do_vars`]).
pub fn do_vars_exec(vs: &Vec<SExp>) -> (r: Result<(Vec<(String, SExp)>, Vec<(String, SExp)>), Error>)
    ensures
        view_do_vars(r) == do_vars(view_seq(vs@), 0, seq![], seq![]),
{
    let ghost vv = view_seq(vs@);
    proof {
        lemma_view_seq(vs@);
    }
    let mut inits: Vec<(String, SExp)> = Vec::new();
    let mut ups: Vec<(String, SExp)> = Vec::new();
    assert(bindings_view(inits@) =~= Seq::<(Seq<char>, Val)>::empty());
    assert(bindings_view(ups@) =~= Seq::<(Seq<char>, Val)>::empty());
    let mut i: usize = 0;
    while i < vs.len()
        invariant
            i <= vs.len(),
            vv == view_seq(vs@),
            vv.len() == vs@.len(),
            forall|k: int| 0 <= k < vs@.len() ==> #[trigger] vv[k] == vs@[k]@,
            do_vars(vv, 0, seq![], seq![]) == do_vars(vv, i as int, bindings_view(inits@), bindings_view(ups@)),
        decreases vs.len() - i,
    {
        let (name, rest) = match split_pair(vs[i].dup()) {
            Ok(p) => p,
            Err(e) => {
                return Err(e);
            },
        };
        match name {
            SExp::Atom(Primitive::Symbol(s)) => {
                let n = count_items(&rest);
                let ghost rv = rest@;
                let its = rest.into_items();
                proof {
                    lemma_view_seq(its@);
                }
                if n == 1 {
                    assert(its@.len() == 1);
                    vars_put(&mut inits, s.as_str(), its[0].dup());
                } else if n == 2 {
                    assert(its@.len() == 2);
                    vars_put(&mut inits, s.as_str(), its[0].dup());
                    vars_put(&mut ups, s.as_str(), its[1].dup());
                } else if n == 0 {
                    return Err(Error::ArityMin { expected: 1, given: 0 });
                } else {
                    return Err(Error::ArityMax { expected: 2, given: n });
                }
            },
            other => {
                return Err(type_error("symbol", &other));
            },
        }
        i += 1;
    }
    Ok((inits, ups))
}

/// The model of the bindings of a named `let`.
pub open spec fn view_let_bindings(r: Result<(Vec<String>, Vec<SExp>), Error>) -> Result<
    (Seq<Seq<char>>, Seq<Val>),
    ErrV,
> {
    match r {
        Ok((a, b)) => Ok((view_strings(a@), view_seq(b@))),
        Err(e) => Err(e@),
    }
}

/// The parameters and initial expressions of a named `let` (see
/// [`let_bindings`]).
pub fn let_bindings_exec(xs: &Vec<SExp>) -> (r: Result<(Vec<String>, Vec<SExp>), Error>)
    ensures
        view_let_bindings(r) == let_bindings(view_seq(xs@), 0, seq![], seq![]),
{
    let ghost xv = view_seq(xs@);
    proof {
        lemma_view_seq(xs@);
    }
    let mut params: Vec<String> = Vec::new();
    let mut inits: Vec<SExp> = Vec::new();
    assert(view_strings(params@) =~= Seq::<Seq<char>>::empty());
    assert(view_seq(inits@) =~= Seq::<Val>::empty());
    let mut i: usize = 0;
    while i < xs.len()
        invariant
            i <= xs.len(),
            xv == view_seq(xs@),
            xv.len() == xs@.len(),
            forall|k: int| 0 <= k < xs@.len() ==> #[trigger] xv[k] == xs@[k]@,
            let_bindings(xv, 0, seq![], seq![]) == let_bindings(
                xv,
                i as int,
                view_strings(params@),
                view_seq(inits@),
            ),
        decreases xs.len() - i,
    {
        let (s, r) = match split_pair(xs[i].dup()) {
            Ok(p) => p,
            Err(e) => {
                return Err(e);
            },
        };
        let d = match first_of(r) {
            Ok(d) => d,
            Err(e) => {
                return Err(e);
            },
        };
        match s {
            SExp::Atom(Primitive::Symbol(name)) => {
                let ghost p0 = params@;
                let ghost i0 = inits@;
                params.push(name);
                proof {
                    assert(view_strings(params@) =~= view_strings(p0).push(params@[params@.len() - 1]@));
                    lemma_view_seq_push(i0, d);
                }
                inits.push(d);
            },
            other => {
                return Err(type_error("symbol", &other));
            },
        }
        i += 1;
    }
    Ok((params, inits))
}

/// The rest of a pair.
pub fn rest_of(v: SExp) -> (r: Result<SExp, Error>)
    ensures
        view_result(r) == cdr_spec(v@),
{
    match split_pair(v) {
        Ok((_, b)) => Ok(b),
        Err(e) => Err(e),
    }
}

/// `eqv?` (see [`eqv`]).
fn eqv_exec(a: &SExp, b: &SExp) -> (r: bool)
    ensures
        r == eqv(a@, b@),
{
    match (a, b) {
        (SExp::Null, SExp::Null) => true,
        (SExp::Atom(Primitive::Boolean(x)), SExp::Atom(Primitive::Boolean(y))) => *x == *y,
        (SExp::Atom(Primitive::Character(x)), SExp::Atom(Primitive::Character(y))) => *x == *y,
        (SExp::Atom(Primitive::Symbol(x)), SExp::Atom(Primitive::Symbol(y))) => str_eq(x.as_str(), y.as_str()),
        (SExp::Atom(Primitive::Number(x)), SExp::Atom(Primitive::Number(y))) => *x == *y,
        _ => false,
    }
}

/// Whether `args` is the one-element list holding `x`.
fn is_single(args: &SExp, x: SExp) -> (r: bool)
    ensures
        r == val_equal(args@, list_of(seq![x@])),
{
    let nil = SExp::Null;
    assert(nil@ == Val::Null);
    let ghost xv = x@;
    let l = SExp::Pair { head: Box::new(x), tail: Box::new(nil) };
    assert(seq![xv].drop_first() =~= Seq::<Val>::empty());
    assert(list_of(Seq::<Val>::empty()) == Val::Null);
    assert(list_of(seq![xv]) == Val::Pair(Box::new(xv), Box::new(list_of(seq![xv].drop_first()))));
    assert(l@ == list_of(seq![xv]));
    val_equal_exec(args, &l)
}

fn num_result(o: Option<i64>) -> (r: Result<SExp, Error>)
    ensures
        view_result(r) == opt_val(
            match o {
                Some(x) => Some(x as int),
                None => None,
            },
        ),
{
    match o {
        Some(x) => Ok(SExp::from_int(x)),
        None => Err(Error::Inexact),
    }
}

/// A procedure taking one number (see [`unary_numeric`]).
fn unary_exec(b: Builtin, x: &SExp) -> (r: Result<SExp, Error>)
    ensures
        view_result(r) == unary_numeric(b, x@),
{
    match x {
        SExp::Atom(Primitive::Number(n)) => {
            let n = *n;
            match b {
                Builtin::Add1 => match checked_add(n, 1) {
                    Some(v) => Ok(SExp::from_int(v)),
                    None => Err(Error::Inexact),
                },
                Builtin::Sub1 => match checked_sub(n, 1) {
                    Some(v) => Ok(SExp::from_int(v)),
                    None => Err(Error::Inexact),
                },
                _ => match checked_abs(n) {
                    Some(v) => Ok(SExp::from_int(v)),
                    None => Err(Error::Inexact),
                },
            }
        },
        _ => Err(type_error("number", x)),
    }
}

/// A procedure taking two numbers (see [`binary_numeric`]).
fn binary_exec(b: Builtin, args: &SExp, x: &SExp, y: &SExp) -> (r: Result<SExp, Error>)
    ensures
        view_result(r) == binary_numeric(b, args@, x@, y@),
{
    match (x, y) {
        (SExp::Atom(Primitive::Number(m)), SExp::Atom(Primitive::Number(n))) => {
            let m = *m;
            let n = *n;
            match b {
                Builtin::NumEq => Ok(SExp::from_bool(m == n)),
                Builtin::Less => Ok(SExp::from_bool(m < n)),
                Builtin::Greater => Ok(SExp::from_bool(m > n)),
                Builtin::Remainder => num_result(checked_rem(m, n)),
                _ => num_result(checked_pow(m, n as u32)),
            }
        },
        _ => Err(type_error("list", args)),
    }
}

fn fold_step_exec(b: Builtin, acc: i64, n: i64) -> (r: Option<i64>)
    ensures
        fold_step(b, acc as int, n as int) == (match r {
            Some(x) => Ok::<Val, ErrV>(num_val(x as int)),
            None => Err(ErrV::Inexact),
        }),
{
    match b {
        Builtin::Plus => checked_add(acc, n),
        Builtin::Minus => checked_sub(acc, n),
        Builtin::Times => checked_mul(acc, n),
        _ => checked_div(acc, n),
    }
}

proof fn lemma_fold_err(b: Builtin, e: ErrV, xs: Seq<Val>, i: int)
    ensures
        fold_numeric(b, Err(e), xs, i) == Err::<Val, ErrV>(e),
{
}

/// Folds the numbers `xs[start..]` into `acc0` (see [`fold_numeric`]).
fn fold_exec(b: Builtin, acc0: i64, xs: &Vec<SExp>, start: usize) -> (r: Result<SExp, Error>)
    requires
        start <= xs.len(),
    ensures
        view_result(r) == fold_numeric(b, Ok(num_val(acc0 as int)), view_seq(xs@), start as int),
{
    let ghost xv = view_seq(xs@);
    proof {
        lemma_view_seq(xs@);
    }
    let mut acc = acc0;
    let mut i = start;
    while i < xs.len()
        invariant
            start <= i <= xs.len(),
            xv == view_seq(xs@),
            xv.len() == xs@.len(),
            forall|k: int| 0 <= k < xs@.len() ==> #[trigger] xv[k] == xs@[k]@,
            fold_numeric(b, Ok(num_val(acc as int)), xv, i as int) == fold_numeric(
                b,
                Ok(num_val(acc0 as int)),
                xv,
                start as int,
            ),
        decreases xs.len() - i,
    {
        match &xs[i] {
            SExp::Atom(Primitive::Number(n)) => {
                match fold_step_exec(b, acc, *n) {
                    Some(v) => {
                        acc = v;
                    },
                    None => {
                        proof {
                            lemma_fold_err(b, ErrV::Inexact, xv, i + 1);
                        }
                        return Err(Error::Inexact);
                    },
                }
            },
            other => {
                proof {
                    lemma_fold_err(b, type_err("number"@, other@), xv, i + 1);
                }
                return Err(type_error("number", other));
            },
        }
        i += 1;
    }
    Ok(SExp::from_int(acc))
}

/// `+`, `-`, `*` and `/` (see [`variadic_numeric`]).
fn variadic_exec(b: Builtin, xs: &Vec<SExp>) -> (r: Result<SExp, Error>)
    ensures
        view_result(r) == variadic_numeric(b, view_seq(xs@)),
{
    proof {
        lemma_view_seq(xs@);
    }
    match b {
        Builtin::Plus => fold_exec(b, 0, xs, 0),
        Builtin::Times => fold_exec(b, 1, xs, 0),
        _ => {
            if xs.len() == 0 {
                Err(Error::ArityMin { expected: 1, given: 0 })
            } else {
                match &xs[0] {
                    SExp::Atom(Primitive::Number(n)) => fold_exec(b, *n, xs, 1),
                    other => Err(type_error("number", other)),
                }
            }
        },
    }
}

/// `procedure-arity-valid?` (see [`arity_valid`]).
fn arity_valid_exec(p: &SExp, n: &SExp) -> (r: Result<SExp, Error>)
    ensures
        view_result(r) == arity_valid(p@, n@),
{
    match p {
        SExp::Atom(Primitive::Procedure(pr)) => match n {
            SExp::Atom(Primitive::Number(k)) => {
                let ok = match arity_check(pr, *k as usize) {
                    Some(_) => false,
                    None => true,
                };
                Ok(SExp::from_bool(ok))
            },
            other => Err(type_error("number", other)),
        },
        other => Err(type_error("procedure", other)),
    }
}

/// The list of the characters of a string (see [`chars_list`]).
fn chars_list_exec(s: &str) -> (r: SExp)
    ensures
        r@ == chars_list(s@),
{
    let cs = chars_of(s);
    let mut out: Vec<SExp> = Vec::new();
    let mut i: usize = 0;
    proof {
        lemma_view_seq(out@);
        assert(view_seq(out@) =~= Seq::<Val>::empty());
        assert(cs@.subrange(0, 0) =~= Seq::<char>::empty());
    }
    while i < cs.len()
        invariant
            i <= cs.len(),
            view_seq(out@) == char_vals(cs@.subrange(0, i as int)),
        decreases cs.len() - i,
    {
        let x = SExp::from_char(cs[i]);
        proof {
            lemma_view_seq_push(out@, x);
            assert(cs@.subrange(0, i as int + 1).drop_last() =~= cs@.subrange(0, i as int));
        }
        out.push(x);
        i += 1;
    }
    assert(cs@.subrange(0, i as int) =~= s@);
    SExp::from_items(out)
}

/// `make-vector` (see [`make_vector`]).
fn make_vector_exec(args: SExp) -> (r: Result<SExp, Error>)
    ensures
        view_result(r) == make_vector(args@),
{
    let (first, rest) = match split_pair(args) {
        Ok(p) => p,
        Err(e) => {
            return Err(e);
        },
    };
    let fill = match rest {
        SExp::Null => SExp::Null,
        SExp::Pair { head, .. } => *head,
        other => other,
    };
    match first {
        SExp::Atom(Primitive::Number(n)) => {
            if n < 0 {
                Err(Error::Index { i: n as usize })
            } else {
                let count = n as u64;
                let mut out: Vec<SExp> = Vec::new();
                let mut i: u64 = 0;
                proof {
                    lemma_view_seq(out@);
                }
                while i < count
                    invariant
                        i <= count,
                        count == n,
                        view_seq(out@) == Seq::new(i as nat, |k: int| fill@),
                    decreases count - i,
                {
                    let x = fill.dup();
                    proof {
                        lemma_view_seq_push(out@, x);
                    }
                    out.push(x);
                    assert(view_seq(out@) =~= Seq::new((i + 1) as nat, |k: int| fill@));
                    i += 1;
                }
                Ok(SExp::Atom(Primitive::Vector(out)))
            }
        },
        other => Err(type_error("number", &other)),
    }
}

/// `vector-ref` (see [`vector_ref`]).
fn vector_ref_exec(v: &SExp, i: &SExp) -> (r: Result<SExp, Error>)
    ensures
        view_result(r) == vector_ref(v@, i@),
{
    match v {
        SExp::Atom(Primitive::Vector(s)) => match i {
            SExp::Atom(Primitive::Number(n)) => {
                proof {
                    lemma_view_seq(s@);
                }
                let k = *n as usize;
                if k < s.len() {
                    Ok(s[k].dup())
                } else {
                    Err(Error::Index { i: k })
                }
            },
            other => Err(type_error("number", other)),
        },
        other => Err(type_error("vector", other)),
    }
}

fn copy_range(s: &Vec<SExp>, lo: usize, hi: usize) -> (r: Vec<SExp>)
    requires
        lo <= hi <= s.len(),
    ensures
        view_seq(r@) == view_seq(s@).subrange(lo as int, hi as int),
{
    proof {
        lemma_view_seq(s@);
    }
    let mut out: Vec<SExp> = Vec::new();
    let mut i = lo;
    proof {
        lemma_view_seq(out@);
    }
    while i < hi
        invariant
            lo <= i <= hi,
            hi <= s.len(),
            view_seq(s@).len() == s@.len(),
            forall|k: int| 0 <= k < s@.len() ==> #[trigger] view_seq(s@)[k] == s@[k]@,
            view_seq(out@) == view_seq(s@).subrange(lo as int, i as int),
        decreases hi - i,
    {
        let x = s[i].dup();
        proof {
            lemma_view_seq_push(out@, x);
        }
        out.push(x);
        assert(view_seq(out@) =~= view_seq(s@).subrange(lo as int, i as int + 1));
        i += 1;
    }
    out
}

/// `subvector` (see [`subvector`]).
fn subvector_exec(v: &SExp, a: &SExp, b: &SExp) -> (r: Result<SExp, Error>)
    ensures
        view_result(r) == subvector(v@, a@, b@),
{
    match v {
        SExp::Atom(Primitive::Vector(s)) => match a {
            SExp::Atom(Primitive::Number(n0)) => match b {
                SExp::Atom(Primitive::Number(n1)) => {
                    proof {
                        lemma_view_seq(s@);
                    }
                    let i0 = *n0 as usize;
                    let i1 = *n1 as usize;
                    if i0 >= s.len() {
                        Err(Error::Index { i: i0 })
                    } else if i1 >= s.len() {
                        Err(Error::Index { i: i1 })
                    } else if i0 > i1 {
                        Err(Error::Index { i: i0 })
                    } else {
                        Ok(SExp::Atom(Primitive::Vector(copy_range(s, i0, i1))))
                    }
                },
                other => Err(type_error("number", other)),
            },
            other => Err(type_error("number", other)),
        },
        other => Err(type_error("vector", other)),
    }
}

/// `vector-head` (`head` true) and `vector-tail` (see [`vector_part`]).
fn vector_part_exec(v: &SExp, i: &SExp, head: bool) -> (r: Result<SExp, Error>)
    ensures
        view_result(r) == vector_part(v@, i@, head),
{
    match v {
        SExp::Atom(Primitive::Vector(s)) => match i {
            SExp::Atom(Primitive::Number(n)) => {
                proof {
                    lemma_view_seq(s@);
                }
                let k = *n as usize;
                if k >= s.len() {
                    Err(Error::Index { i: k })
                } else if head {
                    Ok(SExp::Atom(Primitive::Vector(copy_range(s, 0, k))))
                } else {
                    Ok(SExp::Atom(Primitive::Vector(copy_range(s, k, s.len()))))
                }
            },
            other => Err(type_error("number", other)),
        },
        other => Err(type_error("vector", other)),
    }
}

/// The native procedures that neither evaluate nor print (see
/// [`pure_builtin`]), given as many arguments as they accept.
pub fn pure_builtin_exec(b: Builtin, args: SExp) -> (r: Result<SExp, Error>)
    requires
        arity_holds(builtin_arity(b), list_count(args@)),
    ensures
        view_result(r) == pure_builtin(b, args@),
{
    let xs = args.dup().into_items();
    let ghost xv = view_seq(xs@);
    proof {
        lemma_view_seq(xs@);
        assert(list_count(args@) <= list_len(args@));
    }
    let n = xs.len();
    let x0 = if n > 0 {
        xs[0].dup()
    } else {
        SExp::Null
    };
    let x1 = if n > 1 {
        xs[1].dup()
    } else {
        SExp::Null
    };
    match b {
        Builtin::EqP | Builtin::EqualP => Ok(SExp::from_bool(val_equal_exec(&x0, &x1))),
        Builtin::EqvP => Ok(SExp::from_bool(eqv_exec(&x0, &x1))),
        Builtin::NullP => Ok(SExp::from_bool(is_single(&args, SExp::Null))),
        Builtin::MakeVoid => Ok(SExp::Atom(Primitive::Void)),
        Builtin::List => Ok(args),
        Builtin::Not => Ok(SExp::from_bool(is_single(&args, SExp::from_bool(false)))),
        Builtin::Cons => {
            let (a, rest) = match split_pair(args) {
                Ok(p) => p,
                Err(e) => {
                    return Err(e);
                },
            };
            let (d, _) = match split_pair(rest) {
                Ok(p) => p,
                Err(e) => {
                    return Err(e);
                },
            };
            Ok(SExp::Pair { head: Box::new(a), tail: Box::new(d) })
        },
        Builtin::Car => first_of(x0),
        Builtin::Cdr => rest_of(x0),
        Builtin::TypeOf => Ok(SExp::from_str_slice(x0.type_of())),
        Builtin::ArityValidP => arity_valid_exec(&x0, &x1),
        Builtin::OfArityP => match &x0 {
            SExp::Atom(Primitive::Procedure(_)) => arity_valid_exec(&x0, &x1),
            _ => Ok(SExp::from_bool(false)),
        },
        Builtin::ThunkP => match &x0 {
            SExp::Atom(Primitive::Procedure(p)) => {
                let ok = match arity_check(p, 0) {
                    Some(_) => false,
                    None => true,
                };
                Ok(SExp::from_bool(ok))
            },
            _ => Ok(SExp::from_bool(false)),
        },
        Builtin::ProcedureP => Ok(
            SExp::from_bool(
                match &x0 {
                    SExp::Atom(Primitive::Procedure(_)) => true,
                    _ => false,
                },
            ),
        ),
        Builtin::EnvironmentP => Ok(SExp::from_bool(false)),
        Builtin::StringToList => match &x0 {
            SExp::Atom(Primitive::String(s)) => Ok(chars_list_exec(s.as_str())),
            other => Err(type_error("string", other)),
        },
        Builtin::ListToString => match &x0 {
            SExp::Atom(Primitive::Character(c)) => {
                let mut v: Vec<char> = Vec::new();
                v.push(*c);
                assert(v@ =~= seq![*c]);
                Ok(SExp::Atom(Primitive::String(string_from_chars(v.as_slice()))))
            },
            other => Err(type_error("char", other)),
        },
        Builtin::ZeroP => Ok(
            SExp::from_bool(
                match &x0 {
                    SExp::Atom(Primitive::Number(k)) => *k == 0,
                    _ => false,
                },
            ),
        ),
        Builtin::Add1 | Builtin::Sub1 | Builtin::Abs => unary_exec(b, &x0),
        Builtin::NumEq | Builtin::Less | Builtin::Greater | Builtin::Remainder | Builtin::Pow => binary_exec(
            b,
            &args,
            &x0,
            &x1,
        ),
        Builtin::Plus | Builtin::Minus | Builtin::Times | Builtin::Divide => variadic_exec(b, &xs),
        Builtin::MakeVector => make_vector_exec(args),
        Builtin::VectorCopy => match x0 {
            SExp::Atom(Primitive::Vector(v)) => Ok(SExp::Atom(Primitive::Vector(v))),
            other => Err(type_error("vector", &other)),
        },
        Builtin::VectorP => Ok(
            SExp::from_bool(
                match &x0 {
                    SExp::Atom(Primitive::Vector(_)) => true,
                    _ => false,
                },
            ),
        ),
        Builtin::VectorLength => match &x0 {
            SExp::Atom(Primitive::Vector(v)) => {
                proof {
                    lemma_view_seq(v@);
                }
                if (v.len() as u64) <= 0x7fff_ffff_ffff_ffffu64 {
                    Ok(SExp::from_int(v.len() as i64))
                } else {
                    Err(Error::Inexact)
                }
            },
            other => Err(type_error("vector", other)),
        },
        Builtin::VectorRef => vector_ref_exec(&x0, &x1),
        Builtin::Subvector => {
            let x2 = if n > 2 {
                xs[2].dup()
            } else {
                SExp::Null
            };
            subvector_exec(&x0, &x1, &x2)
        },
        Builtin::VectorHead => vector_part_exec(&x0, &x1, true),
        Builtin::VectorTail => vector_part_exec(&x0, &x1, false),
        _ => Ok(SExp::Atom(Primitive::Undefined)),
    }
}

} // verus!
