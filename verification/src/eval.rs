//! The evaluator: each function here carries out one rule of the semantics
//! in `semantics.rs`, and its contract says that it does so exactly, for
//! the step budget it is given.
use vstd::prelude::*;

use crate::builtins::{
    call1_exec, call2_exec, count_items, do_vars_exec, find_clause_exec, first_of, is_false_exec, let_bindings_exec,
    make_lambda, printed_chars, pure_builtin_exec, quote_exec, set_part_exec, split_pair, type_error,
    val_equal_exec, arity_check, };
use crate::context::{bindings_view, Context, CtxV};
use crate::errors::{view_result, ErrV, Error, SyntaxError};
use crate::semantics::{
    and_from, apply, apply_form, begin_from, builtin, case_form, cond_from, defer_body, define_all, define_form,
    do_form, do_loop, eval_form, ev, ev_args, ev_items, ev_loop, filter_form, filter_from, fold_form, fold_from,
    if_form, let_defs, let_form, map_form, map_from, or_from, print_form, qq_from, quasiquote_form, run_from,
    require_form, set_form, set_part_form, vector_map_form, vector_set_form, Flow,
};
use crate::parse::parse_program;
use crate::value::{
    items, lemma_view_seq, lemma_view_seq_push, lemma_view_seq_update, sym_val, undefined_val,
    view_seq, Builtin, Func, Primitive, Proc, SExp, Val,
};

verus! {

/// What applying a procedure leaves to do: a finished result, or an
/// expression to evaluate next in tail position.
pub enum Step {
    Done(Result<SExp, Error>),
    Tail(SExp),
}

/// The model of a step, in the context it leaves.
pub open spec fn flow_view(st: CtxV, s: Step) -> Flow {
    match s {
        Step::Done(r) => Flow::Done(st, view_result(r)),
        Step::Tail(e) => Flow::Tail(st, e@),
    }
}

/// The model of a sequence of results.
pub open spec fn view_vec_result(r: Result<Vec<SExp>, Error>) -> Result<Seq<Val>, ErrV> {
    match r {
        Ok(v) => Ok(view_seq(v@)),
        Err(e) => Err(e@),
    }
}

/// An outcome with `acc` put in front of its values.
pub open spec fn prefixed(acc: Seq<Val>, o: (CtxV, Result<Seq<Val>, ErrV>)) -> (CtxV, Result<Seq<Val>, ErrV>) {
    (
        o.0,
        match o.1 {
            Ok(vs) => Ok(acc + vs),
            Err(e) => Err(e),
        },
    )
}

proof fn lemma_prefixed_empty(o: (CtxV, Result<Seq<Val>, ErrV>))
    ensures
        prefixed(Seq::empty(), o) == o,
{
    match o.1 {
        Ok(vs) => {
            assert(Seq::<Val>::empty() + vs =~= vs);
        },
        Err(_) => {},
    }
}

proof fn lemma_prefixed_step(acc: Seq<Val>, v: Val, o: (CtxV, Result<Seq<Val>, ErrV>))
    ensures
        prefixed(
            acc,
            (
                o.0,
                match o.1 {
                    Ok(vs) => Ok(seq![v] + vs),
                    Err(e) => Err(e),
                },
            ),
        ) == prefixed(acc.push(v), o),
{
    match o.1 {
        Ok(vs) => {
            assert(acc + (seq![v] + vs) =~= acc.push(v) + vs);
        },
        Err(_) => {},
    }
}

fn undefined() -> (r: SExp)
    ensures
        r@ == undefined_val(),
{
    SExp::Atom(Primitive::Undefined)
}

fn is_pair(e: &SExp) -> (r: bool)
    ensures
        r == (e@ is Pair),
{
    match e {
        SExp::Pair { .. } => true,
        _ => false,
    }
}

fn is_unquote(e: &SExp) -> (r: bool)
    ensures
        r == (e@ == sym_val("unquote"@)),
{
    match e {
        SExp::Atom(Primitive::Symbol(s)) => crate::text::str_eq(s.as_str(), "unquote"),
        _ => false,
    }
}

impl Context {
    /// Evaluates `e` with a budget of `f` steps (see [`ev`]). Definitions
    /// made on the way persist.
    pub fn eval_fuel(&mut self, f: u64, e: SExp) -> (r: Result<SExp, Error>)
        ensures
            (final(self)@, view_result(r)) == ev(f as nat, old(self)@, e@),
        decreases f, 0int,
    {
        if f == 0 {
            return Err(Error::Exhausted);
        }
        let c = self.scope();
        let (r, keep) = self.eval_loop(f - 1, e);
        if !keep {
            self.set_scope(c);
        }
        r
    }

    fn eval_loop(&mut self, f: u64, e: SExp) -> (r: (Result<SExp, Error>, bool))
        ensures
            (final(self)@, view_result(r.0), r.1) == ev_loop(f as nat, old(self)@, e@),
        decreases f, 0int,
    {
        let mut fl = f;
        let mut expr = e;
        loop
            invariant
                fl <= f,
                ev_loop(fl as nat, self@, expr@) == ev_loop(f as nat, old(self)@, e@),
            decreases fl,
        {
            if fl == 0 {
                return (Err(Error::Exhausted), false);
            }
            match expr {
                SExp::Null => {
                    return (Err(Error::NullList), false);
                },
                SExp::Atom(Primitive::Symbol(s)) => {
                    match self.get(s.as_str()) {
                        None => {
                            return (Err(Error::UndefinedSymbol { sym: s }), false);
                        },
                        Some(v) => match v {
                            SExp::Atom(Primitive::Undefined) => {
                                return (Err(Error::UndefinedSymbol { sym: s }), false);
                            },
                            other => {
                                return (Ok(other), false);
                            },
                        },
                    }
                },
                SExp::Atom(p) => {
                    return (Ok(SExp::Atom(p)), false);
                },
                SExp::Pair { head, tail } => {
                    let hr = self.eval_fuel(fl - 1, *head);
                    match hr {
                        Err(x) => {
                            return (Err(x), true);
                        },
                        Ok(SExp::Atom(Primitive::Procedure(p))) => {
                            let ar = if p.defers() {
                                Ok(*tail)
                            } else {
                                self.eval_args(fl - 1, *tail)
                            };
                            match ar {
                                Err(x) => {
                                    return (Err(x), true);
                                },
                                Ok(args) => {
                                    match self.apply_proc(fl - 1, &p, args) {
                                        Step::Done(r) => {
                                            let keep = r.is_err();
                                            return (r, keep);
                                        },
                                        Step::Tail(e2) => {
                                            expr = e2;
                                            fl = fl - 1;
                                        },
                                    }
                                },
                            }
                        },
                        Ok(SExp::Atom(Primitive::Symbol(name))) => {
                            return (Err(Error::NotAProcedure { exp: name }), false);
                        },
                        Ok(other) => {
                            return match self.eval_args(fl - 1, *tail) {
                                Err(x) => (Err(x), true),
                                Ok(args) => (Ok(SExp::Pair { head: Box::new(other), tail: Box::new(args) }), false),
                            };
                        },
                    }
                },
            }
        }
    }

    fn eval_args(&mut self, f: u64, args: SExp) -> (r: Result<SExp, Error>)
        ensures
            (final(self)@, view_result(r)) == ev_args(f as nat, old(self)@, args@),
        decreases f, 1int,
    {
        if f == 0 {
            return Err(Error::Exhausted);
        }
        let xs = args.into_items();
        match self.eval_items(f - 1, &xs) {
            Ok(vs) => Ok(SExp::from_items(vs)),
            Err(e) => Err(e),
        }
    }

    fn eval_items(&mut self, f: u64, xs: &Vec<SExp>) -> (r: Result<Vec<SExp>, Error>)
        ensures
            (final(self)@, view_vec_result(r)) == ev_items(f as nat, old(self)@, view_seq(xs@), 0),
            r is Ok ==> r->Ok_0.len() == xs.len(),
        decreases f, 1int,
    {
        let ghost xv = view_seq(xs@);
        proof {
            lemma_view_seq(xs@);
        }
        let mut out: Vec<SExp> = Vec::new();
        proof {
            assert(view_seq(out@) =~= Seq::<Val>::empty());
            lemma_prefixed_empty(ev_items(f as nat, self@, xv, 0));
        }
        let mut i: usize = 0;
        while i < xs.len()
            invariant
                i <= xs.len(),
                out.len() == i,
                xv == view_seq(xs@),
                xv.len() == xs@.len(),
                forall|k: int| 0 <= k < xs@.len() ==> #[trigger] xv[k] == xs@[k]@,
                prefixed(view_seq(out@), ev_items(f as nat, self@, xv, i as int)) == ev_items(
                    f as nat,
                    old(self)@,
                    xv,
                    0,
                ),
            decreases xs.len() - i,
        {
            let v = match self.eval_fuel(f, xs[i].dup()) {
                Ok(v) => v,
                Err(e) => {
                    return Err(e);
                },
            };
            proof {
                lemma_prefixed_step(view_seq(out@), v@, ev_items(f as nat, self@, xv, i + 1));
                lemma_view_seq_push(out@, v);
            }
            out.push(v);
            i += 1;
        }
        proof {
            assert(view_seq(out@) + Seq::<Val>::empty() =~= view_seq(out@));
        }
        Ok(out)
    }

    fn apply_proc(&mut self, f: u64, p: &Proc, args: SExp) -> (r: Step)
        ensures
            flow_view(final(self)@, r) == apply(f as nat, old(self)@, p@, args@),
        decreases f, 1int,
    {
        if f == 0 {
            return Step::Done(Err(Error::Exhausted));
        }
        let n = count_items(&args);
        match arity_check(p, n) {
            Some(e) => {
                return Step::Done(Err(e));
            },
            None => {},
        }
        match &p.func {
            Func::Builtin(b) => self.native(f - 1, *b, args),
            Func::Lambda { params, body, envt } => {
                let xs = args.into_items();
                self.enter_frame(params, &xs, *envt);
                let bs = (**body).dup().into_items();
                self.body_step(f - 1, &bs)
            },
        }
    }

    fn body_step(&mut self, f: u64, xs: &Vec<SExp>) -> (r: Step)
        ensures
            flow_view(final(self)@, r) == defer_body(f as nat, old(self)@, view_seq(xs@), 0),
        decreases f, 1int,
    {
        let ghost xv = view_seq(xs@);
        proof {
            lemma_view_seq(xs@);
        }
        let mut i: usize = 0;
        while i < xs.len()
            invariant
                i <= xs.len(),
                xv == view_seq(xs@),
                xv.len() == xs@.len(),
                forall|k: int| 0 <= k < xs@.len() ==> #[trigger] xv[k] == xs@[k]@,
                defer_body(f as nat, self@, xv, i as int) == defer_body(f as nat, old(self)@, xv, 0),
            decreases xs.len() - i,
        {
            if i == xs.len() - 1 {
                return Step::Tail(xs[i].dup());
            }
            match self.eval_fuel(f, xs[i].dup()) {
                Err(e) => {
                    return Step::Done(Err(e));
                },
                Ok(_) => {},
            }
            i += 1;
        }
        Step::Done(Ok(undefined()))
    }

    fn native(&mut self, f: u64, b: Builtin, args: SExp) -> (r: Step)
        requires
            crate::semantics::arity_holds(crate::semantics::builtin_arity(b), crate::value::list_count(args@)),
        ensures
            flow_view(final(self)@, r) == builtin(f as nat, old(self)@, b, args@),
        decreases f, 1int,
    {
        if f == 0 {
            return Step::Done(Err(Error::Exhausted));
        }
        let g = f - 1;
        match b {
            Builtin::Eval => Step::Done(self.form_eval(g, args)),
            Builtin::Apply => Step::Done(self.form_apply(g, args)),
            Builtin::And => {
                let xs = args.into_items();
                Step::Done(self.and_items(g, &xs))
            },
            Builtin::Or => {
                let xs = args.into_items();
                Step::Done(self.or_items(g, &xs))
            },
            Builtin::Begin => {
                let xs = args.into_items();
                Step::Done(self.begin_items(g, &xs))
            },
            Builtin::Case => self.form_case(g, args),
            Builtin::Cond => self.form_cond(g, args),
            Builtin::Define => Step::Done(self.form_define(g, args)),
            Builtin::Do => Step::Done(self.form_do(g, args)),
            Builtin::If => self.form_if(g, args),
            Builtin::Lambda => Step::Done(make_lambda(self.scope(), args, false)),
            Builtin::NamedLambda => Step::Done(make_lambda(self.scope(), args, true)),
            Builtin::Let => self.form_let(g, args),
            Builtin::Quasiquote => Step::Done(self.form_quasiquote(g, args)),
            Builtin::Quote => Step::Done(quote_exec(args)),
            Builtin::SetBang => Step::Done(self.form_set(args)),
            Builtin::SetCar => Step::Done(self.form_set_part(g, args, true)),
            Builtin::SetCdr => Step::Done(self.form_set_part(g, args, false)),
            Builtin::Display => Step::Done(self.form_print(g, args, false, false)),
            Builtin::Displayln => Step::Done(self.form_print(g, args, true, false)),
            Builtin::Write => Step::Done(self.form_print(g, args, false, true)),
            Builtin::Writeln => Step::Done(self.form_print(g, args, true, true)),
            Builtin::Require => Step::Done(self.form_require(g, args)),
            Builtin::MapList => Step::Done(self.form_map(g, args)),
            Builtin::Foldl => Step::Done(self.form_fold(g, args)),
            Builtin::Filter => Step::Done(self.form_filter(g, args)),
            Builtin::VectorSet => Step::Done(self.form_vector_set(g, args)),
            Builtin::VectorMap => Step::Done(self.form_vector_map(g, args)),
            _ => Step::Done(pure_builtin_exec(b, args)),
        }
    }

    fn form_eval(&mut self, f: u64, args: SExp) -> (r: Result<SExp, Error>)
        ensures
            (final(self)@, view_result(r)) == eval_form(f as nat, old(self)@, args@),
        decreases f, 1int,
    {
        let a = match first_of(args) {
            Ok(a) => a,
            Err(e) => {
                return Err(e);
            },
        };
        let v = match self.eval_fuel(f, a) {
            Ok(v) => v,
            Err(e) => {
                return Err(e);
            },
        };
        self.eval_fuel(f, v)
    }

    fn form_require(&mut self, f: u64, args: SExp) -> (r: Result<SExp, Error>)
        ensures
            (final(self)@, view_result(r)) == require_form(f as nat, old(self)@, args@),
        decreases f, 1int,
    {
        let a = match first_of(args) {
            Ok(a) => a,
            Err(e) => {
                return Err(e);
            },
        };
        let v = match self.eval_fuel(f, a) {
            Ok(v) => v,
            Err(e) => {
                return Err(e);
            },
        };
        match v {
            SExp::Atom(Primitive::String(path)) => match self.file(path.as_str()) {
                None => Err(Error::Unread { path }),
                Some(Err(m)) => Err(Error::IO(m)),
                Some(Ok(text)) => match parse_program(text.as_str()) {
                    Err(e) => Err(Error::Syntax(e)),
                    Ok(e) => self.eval_fuel(f, e),
                },
            },
            other => Err(type_error("string", &other)),
        }
    }

    fn form_apply(&mut self, f: u64, args: SExp) -> (r: Result<SExp, Error>)
        ensures
            (final(self)@, view_result(r)) == apply_form(f as nat, old(self)@, args@),
        decreases f, 1int,
    {
        let (op, tl) = match split_pair(args) {
            Ok(p) => p,
            Err(e) => {
                return Err(e);
            },
        };
        let le = match first_of(tl) {
            Ok(a) => a,
            Err(e) => {
                return Err(e);
            },
        };
        let lst = match self.eval_fuel(f, le) {
            Ok(v) => v,
            Err(e) => {
                return Err(e);
            },
        };
        self.eval_fuel(f, SExp::Pair { head: Box::new(op), tail: Box::new(lst) })
    }

    fn and_items(&mut self, f: u64, xs: &Vec<SExp>) -> (r: Result<SExp, Error>)
        ensures
            (final(self)@, view_result(r)) == and_from(
                f as nat,
                old(self)@,
                view_seq(xs@),
                0,
                crate::value::bool_val(true),
            ),
        decreases f, 1int,
    {
        let ghost xv = view_seq(xs@);
        proof {
            lemma_view_seq(xs@);
        }
        let mut state = SExp::from_bool(true);
        let mut i: usize = 0;
        while i < xs.len()
            invariant
                i <= xs.len(),
                xv == view_seq(xs@),
                xv.len() == xs@.len(),
                forall|k: int| 0 <= k < xs@.len() ==> #[trigger] xv[k] == xs@[k]@,
                and_from(f as nat, self@, xv, i as int, state@) == and_from(
                    f as nat,
                    old(self)@,
                    xv,
                    0,
                    crate::value::bool_val(true),
                ),
            decreases xs.len() - i,
        {
            let v = match self.eval_fuel(f, xs[i].dup()) {
                Ok(v) => v,
                Err(e) => {
                    return Err(e);
                },
            };
            if is_false_exec(&v) {
                return Ok(v);
            }
            state = v;
            i += 1;
        }
        Ok(state)
    }

    fn or_items(&mut self, f: u64, xs: &Vec<SExp>) -> (r: Result<SExp, Error>)
        ensures
            (final(self)@, view_result(r)) == or_from(f as nat, old(self)@, view_seq(xs@), 0),
        decreases f, 1int,
    {
        let ghost xv = view_seq(xs@);
        proof {
            lemma_view_seq(xs@);
        }
        let mut i: usize = 0;
        while i < xs.len()
            invariant
                i <= xs.len(),
                xv == view_seq(xs@),
                xv.len() == xs@.len(),
                forall|k: int| 0 <= k < xs@.len() ==> #[trigger] xv[k] == xs@[k]@,
                or_from(f as nat, self@, xv, i as int) == or_from(f as nat, old(self)@, xv, 0),
            decreases xs.len() - i,
        {
            let v = match self.eval_fuel(f, xs[i].dup()) {
                Ok(v) => v,
                Err(e) => {
                    return Err(e);
                },
            };
            if !is_false_exec(&v) {
                return Ok(v);
            }
            i += 1;
        }
        Ok(SExp::from_bool(false))
    }

    fn begin_items(&mut self, f: u64, xs: &Vec<SExp>) -> (r: Result<SExp, Error>)
        ensures
            (final(self)@, view_result(r)) == begin_from(f as nat, old(self)@, view_seq(xs@), 0, undefined_val()),
        decreases f, 1int,
    {
        let ghost xv = view_seq(xs@);
        proof {
            lemma_view_seq(xs@);
        }
        let mut ret = undefined();
        let mut i: usize = 0;
        while i < xs.len()
            invariant
                i <= xs.len(),
                xv == view_seq(xs@),
                xv.len() == xs@.len(),
                forall|k: int| 0 <= k < xs@.len() ==> #[trigger] xv[k] == xs@[k]@,
                begin_from(f as nat, self@, xv, i as int, ret@) == begin_from(
                    f as nat,
                    old(self)@,
                    xv,
                    0,
                    undefined_val(),
                ),
            decreases xs.len() - i,
        {
            let v = match self.eval_fuel(f, xs[i].dup()) {
                Ok(v) => v,
                Err(e) => {
                    return Err(e);
                },
            };
            ret = v;
            i += 1;
        }
        Ok(ret)
    }

    fn run_items(&mut self, f: u64, xs: &Vec<SExp>) -> (r: Result<SExp, Error>)
        ensures
            (final(self)@, view_result(r)) == run_from(f as nat, old(self)@, view_seq(xs@), 0),
        decreases f, 1int,
    {
        let ghost xv = view_seq(xs@);
        proof {
            lemma_view_seq(xs@);
        }
        let mut i: usize = 0;
        while i < xs.len()
            invariant
                i <= xs.len(),
                xv == view_seq(xs@),
                xv.len() == xs@.len(),
                forall|k: int| 0 <= k < xs@.len() ==> #[trigger] xv[k] == xs@[k]@,
                run_from(f as nat, self@, xv, i as int) == run_from(f as nat, old(self)@, xv, 0),
            decreases xs.len() - i,
        {
            match self.eval_fuel(f, xs[i].dup()) {
                Ok(_) => {},
                Err(e) => {
                    return Err(e);
                },
            }
            i += 1;
        }
        Ok(undefined())
    }

    fn form_case(&mut self, f: u64, args0: SExp) -> (r: Step)
        ensures
            flow_view(final(self)@, r) == case_form(f as nat, old(self)@, args0@),
        decreases f, 1int,
    {
        let mut fl = f;
        let mut args = args0;
        loop
            invariant
                fl <= f,
                case_form(fl as nat, self@, args@) == case_form(f as nat, old(self)@, args0@),
            decreases fl,
        {
            if fl == 0 {
                return Step::Done(Err(Error::Exhausted));
            }
            match args {
                SExp::Pair { head, tail } => {
                    let key = match self.eval_fuel(fl, *head) {
                        Ok(k) => k,
                        Err(e) => {
                            return Step::Done(Err(e));
                        },
                    };
                    let clauses = tail.into_items();
                    match find_clause_exec(&clauses, &key) {
                        Some(body) => {
                            let bs = body.into_items();
                            return self.body_step(fl - 1, &bs);
                        },
                        None => {
                            args = key;
                            fl = fl - 1;
                        },
                    }
                },
                SExp::Atom(_) => {
                    return Step::Done(Ok(undefined()));
                },
                SExp::Null => {
                    return Step::Done(Err(Error::ArityMin { expected: 1, given: 0 }));
                },
            }
        }
    }

    fn form_cond(&mut self, f: u64, args: SExp) -> (r: Step)
        ensures
            flow_view(final(self)@, r) == cond_from(f as nat, old(self)@, items(args@), 0),
        decreases f, 1int,
    {
        if f == 0 {
            return Step::Done(Err(Error::Exhausted));
        }
        let xs = args.into_items();
        let ghost xv = view_seq(xs@);
        proof {
            lemma_view_seq(xs@);
        }
        let els = SExp::sym("else");
        let mut i: usize = 0;
        while i < xs.len()
            invariant
                f > 0,
                i <= xs.len(),
                xv == items(args@),
                els@ == sym_val("else"@),
                xv == view_seq(xs@),
                xv.len() == xs@.len(),
                forall|k: int| 0 <= k < xs@.len() ==> #[trigger] xv[k] == xs@[k]@,
                cond_from(f as nat, self@, xv, i as int) == cond_from(f as nat, old(self)@, xv, 0),
            decreases xs.len() - i,
        {
            match &xs[i] {
                SExp::Pair { head: pred, tail: body } => {
                    assert(xv[i as int] == Val::Pair(Box::new(pred@), Box::new(body@)));
                    if val_equal_exec(pred, &els) {
                        let bs = (**body).dup().into_items();
                        return self.body_step(f - 1, &bs);
                    }
                    let v = match self.eval_fuel(f, (**pred).dup()) {
                        Ok(v) => v,
                        Err(e) => {
                            return Step::Done(Err(e));
                        },
                    };
                    if !is_false_exec(&v) {
                        let bs = (**body).dup().into_items();
                        return self.body_step(f - 1, &bs);
                    }
                },
                other => {
                    assert(xv[i as int] == other@);
                    return Step::Done(Err(Error::Syntax(SyntaxError::InvalidCond(other.dup()))));
                },
            }
            i += 1;
        }
        Step::Done(Ok(SExp::Atom(Primitive::Void)))
    }

    fn form_define(&mut self, f: u64, args: SExp) -> (r: Result<SExp, Error>)
        ensures
            (final(self)@, view_result(r)) == define_form(f as nat, old(self)@, args@),
        decreases f, 1int,
    {
        let (sig, defn) = match split_pair(args) {
            Ok(p) => p,
            Err(e) => {
                return Err(e);
            },
        };
        let ghost sv = sig@;
        let ghost dv = defn@;
        assert(crate::semantics::split_car(args@) == Ok::<(Val, Val), ErrV>((sv, dv)));
        match sig {
            SExp::Pair { head, tail } => {
                let ghost hv = (*head)@;
                assert(sv == Val::Pair(Box::new(hv), Box::new((*tail)@)));
                match *head {
                    SExp::Atom(Primitive::Symbol(s)) => {
                        assert(hv == sym_val(s@));
                        let sig2 = SExp::Pair {
                            head: Box::new(SExp::Atom(Primitive::Symbol(s.clone()))),
                            tail,
                        };
                        assert(sig2@ == sv);
                        let whole = SExp::Pair { head: Box::new(sig2), tail: Box::new(defn) };
                        assert(whole@ == Val::Pair(Box::new(sv), Box::new(dv)));
                        match make_lambda(self.scope(), whole, true) {
                            Err(e) => Err(e),
                            Ok(p) => {
                                self.define(s.as_str(), p);
                                Ok(undefined())
                            },
                        }
                    },
                    other => Err(type_error("symbol", &other)),
                }
            },
            SExp::Atom(Primitive::Symbol(s)) => {
                let n = count_items(&defn);
                if n > 1 {
                    return Err(Error::ArityMax { expected: 1, given: n });
                }
                match defn {
                    SExp::Null => {
                        let u = undefined();
                        self.define(s.as_str(), u);
                        Ok(undefined())
                    },
                    other => {
                        let e = match other {
                            SExp::Pair { head, .. } => *head,
                            x => x,
                        };
                        assert(e@ == match dv {
                            Val::Pair(h, _) => *h,
                            _ => dv,
                        });
                        let v = match self.eval_fuel(f, e) {
                            Ok(v) => v,
                            Err(x) => {
                                return Err(x);
                            },
                        };
                        self.define(s.as_str(), v);
                        Ok(undefined())
                    },
                }
            },
            other => Err(type_error("symbol", &other)),
        }
    }

    fn define_each(&mut self, defs: &Vec<(String, SExp)>)
        ensures
            final(self)@ == define_all(old(self)@, bindings_view(defs@), 0),
    {
        let ghost dv = bindings_view(defs@);
        let mut i: usize = 0;
        while i < defs.len()
            invariant
                i <= defs.len(),
                dv == bindings_view(defs@),
                define_all(self@, dv, i as int) == define_all(old(self)@, dv, 0),
            decreases defs.len() - i,
        {
            assert(dv[i as int] == (defs@[i as int].0@, defs@[i as int].1@));
            self.define(defs[i].0.as_str(), defs[i].1.dup());
            i += 1;
        }
    }

    fn form_do(&mut self, f: u64, args: SExp) -> (r: Result<SExp, Error>)
        ensures
            (final(self)@, view_result(r)) == do_form(f as nat, old(self)@, args@),
        decreases f, 1int,
    {
        if f == 0 {
            return Err(Error::Exhausted);
        }
        let (vars, rest) = match split_pair(args) {
            Ok(p) => p,
            Err(e) => {
                return Err(e);
            },
        };
        let (term, body) = match split_pair(rest) {
            Ok(p) => p,
            Err(e) => {
                return Err(e);
            },
        };
        let vs = vars.into_items();
        let (inits, ups) = match do_vars_exec(&vs) {
            Ok(p) => p,
            Err(e) => {
                return Err(e);
            },
        };
        let (test, ret) = match split_pair(term) {
            Ok(p) => p,
            Err(e) => {
                return Err(e);
            },
        };
        self.push();
        self.define_each(&inits);
        let bs = body.into_items();
        let rs = ret.into_items();
        let r = self.do_iterate(f - 1, &bs, &test, &rs, &ups);
        self.pop();
        r
    }

    fn do_iterate(
        &mut self,
        f: u64,
        body: &Vec<SExp>,
        test: &SExp,
        ret: &Vec<SExp>,
        ups: &Vec<(String, SExp)>,
    ) -> (r: Result<SExp, Error>)
        ensures
            (final(self)@, view_result(r)) == do_loop(
                f as nat,
                old(self)@,
                view_seq(body@),
                test@,
                view_seq(ret@),
                bindings_view(ups@),
            ),
        decreases f, 1int,
    {
        let ghost uv = bindings_view(ups@);
        let mut exprs: Vec<SExp> = Vec::new();
        let mut j: usize = 0;
        proof {
            lemma_view_seq(exprs@);
        }
        while j < ups.len()
            invariant
                j <= ups.len(),
                exprs.len() == j,
                uv == bindings_view(ups@),
                view_seq(exprs@) == uv.subrange(0, j as int).map_values(|u: (Seq<char>, Val)| u.1),
            decreases ups.len() - j,
        {
            let ghost e0 = exprs@;
            let x = ups[j].1.dup();
            proof {
                lemma_view_seq_push(e0, x);
                assert(uv[j as int] == (ups@[j as int].0@, ups@[j as int].1@));
            }
            exprs.push(x);
            assert(uv.subrange(0, j as int + 1).map_values(|u: (Seq<char>, Val)| u.1) =~= uv.subrange(
                0,
                j as int,
            ).map_values(|u: (Seq<char>, Val)| u.1).push(uv[j as int].1));
            j += 1;
        }
        assert(uv.subrange(0, j as int) =~= uv);
        let ghost ev_exprs = uv.map_values(|u: (Seq<char>, Val)| u.1);
        let mut fl = f;
        loop
            invariant
                fl <= f,
                exprs.len() == ups.len(),
                uv == bindings_view(ups@),
                view_seq(exprs@) == ev_exprs,
                ev_exprs == uv.map_values(|u: (Seq<char>, Val)| u.1),
                do_loop(fl as nat, self@, view_seq(body@), test@, view_seq(ret@), uv) == do_loop(
                    f as nat,
                    old(self)@,
                    view_seq(body@),
                    test@,
                    view_seq(ret@),
                    uv,
                ),
            decreases fl,
        {
            if fl == 0 {
                return Err(Error::Exhausted);
            }
            let g = fl - 1;
            match self.run_items(g, body) {
                Err(e) => {
                    return Err(e);
                },
                Ok(_) => {},
            }
            let c = match self.eval_fuel(g, test.dup()) {
                Ok(c) => c,
                Err(e) => {
                    return Err(e);
                },
            };
            if is_false_exec(&c) {
                let vals = match self.eval_items(g, &exprs) {
                    Ok(v) => v,
                    Err(e) => {
                        return Err(e);
                    },
                };
                let ghost vv = view_seq(vals@);
                proof {
                    lemma_view_seq(vals@);
                }
                let mut news: Vec<(String, SExp)> = Vec::new();
                let mut k: usize = 0;
                assert(bindings_view(news@) =~= Seq::new(0, |m: int| (uv[m].0, vv[m])));
                while k < ups.len()
                    invariant
                        k <= ups.len(),
                        vals.len() == ups.len(),
                        uv == bindings_view(ups@),
                        vv == view_seq(vals@),
                        vv.len() == vals@.len(),
                        forall|m: int| 0 <= m < vals@.len() ==> #[trigger] vv[m] == vals@[m]@,
                        bindings_view(news@) == Seq::new(k as nat, |m: int| (uv[m].0, vv[m])),
                    decreases ups.len() - k,
                {
                    let ghost n0 = news@;
                    let pair = (ups[k].0.clone(), vals[k].dup());
                    proof {
                        crate::context::lemma_bindings_push(n0, pair);
                    }
                    news.push(pair);
                    assert(bindings_view(news@) =~= Seq::new((k + 1) as nat, |m: int| (uv[m].0, vv[m])));
                    k += 1;
                }
                self.define_each(&news);
                fl = g;
            } else {
                return self.begin_items(g, ret);
            }
        }
    }

    fn form_if(&mut self, f: u64, args: SExp) -> (r: Step)
        ensures
            flow_view(final(self)@, r) == if_form(f as nat, old(self)@, args@),
        decreases f, 1int,
    {
        let (c, r1) = match split_pair(args) {
            Ok(p) => p,
            Err(e) => {
                return Step::Done(Err(e));
            },
        };
        let (a, r2) = match split_pair(r1) {
            Ok(p) => p,
            Err(e) => {
                return Step::Done(Err(e));
            },
        };
        let (b, _) = match split_pair(r2) {
            Ok(p) => p,
            Err(e) => {
                return Step::Done(Err(e));
            },
        };
        let v = match self.eval_fuel(f, c) {
            Ok(v) => v,
            Err(e) => {
                return Step::Done(Err(e));
            },
        };
        if is_false_exec(&v) {
            Step::Tail(b)
        } else {
            Step::Tail(a)
        }
    }

    fn form_let(&mut self, f: u64, args: SExp) -> (r: Step)
        ensures
            flow_view(final(self)@, r) == let_form(f as nat, old(self)@, args@),
        decreases f, 1int,
    {
        if f == 0 {
            return Step::Done(Err(Error::Exhausted));
        }
        let (dl, stmts) = match split_pair(args) {
            Ok(p) => p,
            Err(e) => {
                return Step::Done(Err(e));
            },
        };
        match dl {
            SExp::Atom(Primitive::Symbol(name)) => {
                let (dl2, stmts2) = match split_pair(stmts) {
                    Ok(p) => p,
                    Err(e) => {
                        return Step::Done(Err(e));
                    },
                };
                let ds = dl2.into_items();
                let (params, inits) = match let_bindings_exec(&ds) {
                    Ok(p) => p,
                    Err(e) => {
                        return Step::Done(Err(e));
                    },
                };
                self.push();
                let cur = self.scope();
                let p = Proc {
                    func: Func::Lambda { params, body: Box::new(stmts2), envt: cur },
                    name: Some(name.clone()),
                };
                assert(crate::value::proc_view(p) == crate::value::ProcV {
                    func: crate::value::FuncV::Lambda(
                        crate::value::view_strings(p.func->params@),
                        Box::new(stmts2@),
                        cur as nat,
                    ),
                    name: Some(name@),
                });
                self.define(name.as_str(), SExp::Atom(Primitive::Procedure(p)));
                let call = SExp::Pair {
                    head: Box::new(SExp::Atom(Primitive::Symbol(name))),
                    tail: Box::new(SExp::from_items(inits)),
                };
                let r = self.eval_fuel(f, call);
                self.pop();
                Step::Done(r)
            },
            other => {
                self.push();
                let ds = other.into_items();
                match self.let_defines(f - 1, &ds) {
                    Err(e) => {
                        self.pop();
                        return Step::Done(Err(e));
                    },
                    Ok(_) => {},
                }
                let ss = stmts.into_items();
                match self.body_step(f - 1, &ss) {
                    Step::Done(r3) => {
                        self.pop();
                        Step::Done(r3)
                    },
                    Step::Tail(e3) => Step::Tail(e3),
                }
            },
        }
    }

    fn let_defines(&mut self, f: u64, xs: &Vec<SExp>) -> (r: Result<SExp, Error>)
        ensures
            (final(self)@, view_result(r)) == let_defs(f as nat, old(self)@, view_seq(xs@), 0),
        decreases f, 1int,
    {
        if f == 0 {
            return Err(Error::Exhausted);
        }
        let ghost xv = view_seq(xs@);
        proof {
            lemma_view_seq(xs@);
        }
        let mut i: usize = 0;
        while i < xs.len()
            invariant
                f > 0,
                i <= xs.len(),
                xv == view_seq(xs@),
                xv.len() == xs@.len(),
                forall|k: int| 0 <= k < xs@.len() ==> #[trigger] xv[k] == xs@[k]@,
                let_defs(f as nat, self@, xv, i as int) == let_defs(f as nat, old(self)@, xv, 0),
            decreases xs.len() - i,
        {
            match self.form_define(f - 1, xs[i].dup()) {
                Ok(_) => {},
                Err(e) => {
                    return Err(e);
                },
            }
            i += 1;
        }
        Ok(undefined())
    }

    fn form_quasiquote(&mut self, f: u64, args: SExp) -> (r: Result<SExp, Error>)
        ensures
            (final(self)@, view_result(r)) == quasiquote_form(f as nat, old(self)@, args@),
        decreases f, 1int,
    {
        if f == 0 {
            return Err(Error::Exhausted);
        }
        let a = match first_of(args) {
            Ok(a) => a,
            Err(e) => {
                return Err(e);
            },
        };
        if is_pair(&a) {
            let xs = a.into_items();
            match self.qq_items(f - 1, &xs) {
                Ok(vs) => Ok(SExp::from_items(vs)),
                Err(e) => Err(e),
            }
        } else {
            Ok(a)
        }
    }

    fn qq_items(&mut self, f: u64, xs: &Vec<SExp>) -> (r: Result<Vec<SExp>, Error>)
        ensures
            (final(self)@, view_vec_result(r)) == qq_from(f as nat, old(self)@, view_seq(xs@), 0),
        decreases f, 1int,
    {
        let ghost xv = view_seq(xs@);
        proof {
            lemma_view_seq(xs@);
        }
        let mut out: Vec<SExp> = Vec::new();
        proof {
            assert(view_seq(out@) =~= Seq::<Val>::empty());
            lemma_prefixed_empty(qq_from(f as nat, self@, xv, 0));
        }
        let mut i: usize = 0;
        while i < xs.len()
            invariant
                i <= xs.len(),
                xv == view_seq(xs@),
                xv.len() == xs@.len(),
                forall|k: int| 0 <= k < xs@.len() ==> #[trigger] xv[k] == xs@[k]@,
                prefixed(view_seq(out@), qq_from(f as nat, self@, xv, i as int)) == qq_from(
                    f as nat,
                    old(self)@,
                    xv,
                    0,
                ),
            decreases xs.len() - i,
        {
            let v = match &xs[i] {
                SExp::Pair { head, tail } => {
                    if is_unquote(head) {
                        let x = match first_of((**tail).dup()) {
                            Ok(x) => x,
                            Err(e) => {
                                return Err(e);
                            },
                        };
                        match self.eval_fuel(f, x) {
                            Ok(v) => v,
                            Err(e) => {
                                return Err(e);
                            },
                        }
                    } else {
                        xs[i].dup()
                    }
                },
                other => other.dup(),
            };
            proof {
                lemma_prefixed_step(view_seq(out@), v@, qq_from(f as nat, self@, xv, i + 1));
                lemma_view_seq_push(out@, v);
            }
            out.push(v);
            i += 1;
        }
        proof {
            assert(view_seq(out@) + Seq::<Val>::empty() =~= view_seq(out@));
        }
        Ok(out)
    }

    fn form_set(&mut self, args: SExp) -> (r: Result<SExp, Error>)
        ensures
            (final(self)@, view_result(r)) == set_form(old(self)@, args@),
    {
        let (name, tl) = match split_pair(args) {
            Ok(p) => p,
            Err(e) => {
                return Err(e);
            },
        };
        match name {
            SExp::Atom(Primitive::Symbol(s)) => {
                let v = match first_of(tl) {
                    Ok(v) => v,
                    Err(e) => {
                        return Err(e);
                    },
                };
                self.set(s.as_str(), v)
            },
            other => Err(type_error("symbol", &other)),
        }
    }

    fn form_set_part(&mut self, f: u64, args: SExp, head: bool) -> (r: Result<SExp, Error>)
        ensures
            (final(self)@, view_result(r)) == set_part_form(f as nat, old(self)@, args@, head),
        decreases f, 1int,
    {
        let (c, tl) = match split_pair(args) {
            Ok(p) => p,
            Err(e) => {
                return Err(e);
            },
        };
        let new = match first_of(tl) {
            Ok(v) => v,
            Err(e) => {
                return Err(e);
            },
        };
        match c {
            SExp::Atom(Primitive::Symbol(key)) => match self.get(key.as_str()) {
                None => Err(Error::UndefinedSymbol { sym: key }),
                Some(val) => {
                    let nv = match self.eval_fuel(f, new) {
                        Ok(v) => v,
                        Err(e) => {
                            return Err(e);
                        },
                    };
                    match set_part_exec(val, nv, head) {
                        Err(e) => Err(e),
                        Ok(v2) => self.set(key.as_str(), v2),
                    }
                },
            },
            other => Err(type_error("symbol", &other)),
        }
    }

    fn form_print(&mut self, f: u64, args: SExp, newline: bool, debug: bool) -> (r: Result<SExp, Error>)
        ensures
            (final(self)@, view_result(r)) == print_form(f as nat, old(self)@, args@, newline, debug),
        decreases f, 1int,
    {
        let a = match first_of(args) {
            Ok(a) => a,
            Err(e) => {
                return Err(e);
            },
        };
        let v = match self.eval_fuel(f, a) {
            Ok(v) => v,
            Err(e) => {
                return Err(e);
            },
        };
        let text = printed_chars(&v, newline, debug);
        self.emit(text.as_slice());
        Ok(undefined())
    }

    fn form_map(&mut self, f: u64, args: SExp) -> (r: Result<SExp, Error>)
        ensures
            (final(self)@, view_result(r)) == map_form(f as nat, old(self)@, args@),
        decreases f, 1int,
    {
        if f == 0 {
            return Err(Error::Exhausted);
        }
        let (head, tl) = match split_pair(args) {
            Ok(p) => p,
            Err(e) => {
                return Err(e);
            },
        };
        let le = match first_of(tl) {
            Ok(v) => v,
            Err(e) => {
                return Err(e);
            },
        };
        let lst = match self.eval_fuel(f, le) {
            Ok(v) => v,
            Err(e) => {
                return Err(e);
            },
        };
        let xs = lst.into_items();
        match self.map_items(f - 1, &head, &xs) {
            Ok(vs) => Ok(SExp::from_items(vs)),
            Err(e) => Err(e),
        }
    }

    fn map_items(&mut self, f: u64, head: &SExp, xs: &Vec<SExp>) -> (r: Result<Vec<SExp>, Error>)
        ensures
            (final(self)@, view_vec_result(r)) == map_from(f as nat, old(self)@, head@, view_seq(xs@), 0),
        decreases f, 1int,
    {
        let ghost xv = view_seq(xs@);
        proof {
            lemma_view_seq(xs@);
        }
        let mut out: Vec<SExp> = Vec::new();
        proof {
            assert(view_seq(out@) =~= Seq::<Val>::empty());
            lemma_prefixed_empty(map_from(f as nat, self@, head@, xv, 0));
        }
        let mut i: usize = 0;
        while i < xs.len()
            invariant
                i <= xs.len(),
                xv == view_seq(xs@),
                xv.len() == xs@.len(),
                forall|k: int| 0 <= k < xs@.len() ==> #[trigger] xv[k] == xs@[k]@,
                prefixed(view_seq(out@), map_from(f as nat, self@, head@, xv, i as int)) == map_from(
                    f as nat,
                    old(self)@,
                    head@,
                    xv,
                    0,
                ),
            decreases xs.len() - i,
        {
            let call = call1_exec(head.dup(), xs[i].dup());
            let v = match self.eval_fuel(f, call) {
                Ok(v) => v,
                Err(e) => {
                    return Err(e);
                },
            };
            proof {
                lemma_prefixed_step(view_seq(out@), v@, map_from(f as nat, self@, head@, xv, i + 1));
                lemma_view_seq_push(out@, v);
            }
            out.push(v);
            i += 1;
        }
        proof {
            assert(view_seq(out@) + Seq::<Val>::empty() =~= view_seq(out@));
        }
        Ok(out)
    }

    fn form_fold(&mut self, f: u64, args: SExp) -> (r: Result<SExp, Error>)
        ensures
            (final(self)@, view_result(r)) == fold_form(f as nat, old(self)@, args@),
        decreases f, 1int,
    {
        if f == 0 {
            return Err(Error::Exhausted);
        }
        let (head, tl) = match split_pair(args) {
            Ok(p) => p,
            Err(e) => {
                return Err(e);
            },
        };
        let (init, tl2) = match split_pair(tl) {
            Ok(p) => p,
            Err(e) => {
                return Err(e);
            },
        };
        let le = match first_of(tl2) {
            Ok(v) => v,
            Err(e) => {
                return Err(e);
            },
        };
        let lst = match self.eval_fuel(f, le) {
            Ok(v) => v,
            Err(e) => {
                return Err(e);
            },
        };
        let xs = lst.into_items();
        self.fold_items(f - 1, &head, &xs, init)
    }

    fn fold_items(&mut self, f: u64, head: &SExp, xs: &Vec<SExp>, init: SExp) -> (r: Result<SExp, Error>)
        ensures
            (final(self)@, view_result(r)) == fold_from(f as nat, old(self)@, head@, view_seq(xs@), 0, init@),
        decreases f, 1int,
    {
        let ghost xv = view_seq(xs@);
        proof {
            lemma_view_seq(xs@);
        }
        let mut acc = init;
        let mut i: usize = 0;
        while i < xs.len()
            invariant
                i <= xs.len(),
                xv == view_seq(xs@),
                xv.len() == xs@.len(),
                forall|k: int| 0 <= k < xs@.len() ==> #[trigger] xv[k] == xs@[k]@,
                fold_from(f as nat, self@, head@, xv, i as int, acc@) == fold_from(
                    f as nat,
                    old(self)@,
                    head@,
                    xv,
                    0,
                    init@,
                ),
            decreases xs.len() - i,
        {
            let call = call2_exec(head.dup(), acc, xs[i].dup());
            let v = match self.eval_fuel(f, call) {
                Ok(v) => v,
                Err(e) => {
                    return Err(e);
                },
            };
            acc = v;
            i += 1;
        }
        Ok(acc)
    }

    fn form_filter(&mut self, f: u64, args: SExp) -> (r: Result<SExp, Error>)
        ensures
            (final(self)@, view_result(r)) == filter_form(f as nat, old(self)@, args@),
        decreases f, 1int,
    {
        if f == 0 {
            return Err(Error::Exhausted);
        }
        let (pred, tl) = match split_pair(args) {
            Ok(p) => p,
            Err(e) => {
                return Err(e);
            },
        };
        let le = match first_of(tl) {
            Ok(v) => v,
            Err(e) => {
                return Err(e);
            },
        };
        let lst = match self.eval_fuel(f, le) {
            Ok(v) => v,
            Err(e) => {
                return Err(e);
            },
        };
        let xs = lst.into_items();
        match self.filter_items(f - 1, &pred, &xs) {
            Ok(vs) => Ok(SExp::from_items(vs)),
            Err(e) => Err(e),
        }
    }

    fn filter_items(&mut self, f: u64, pred: &SExp, xs: &Vec<SExp>) -> (r: Result<Vec<SExp>, Error>)
        ensures
            (final(self)@, view_vec_result(r)) == filter_from(f as nat, old(self)@, pred@, view_seq(xs@), 0),
        decreases f, 1int,
    {
        let ghost xv = view_seq(xs@);
        proof {
            lemma_view_seq(xs@);
        }
        let mut out: Vec<SExp> = Vec::new();
        proof {
            assert(view_seq(out@) =~= Seq::<Val>::empty());
            lemma_prefixed_empty(filter_from(f as nat, self@, pred@, xv, 0));
        }
        let mut i: usize = 0;
        while i < xs.len()
            invariant
                i <= xs.len(),
                xv == view_seq(xs@),
                xv.len() == xs@.len(),
                forall|k: int| 0 <= k < xs@.len() ==> #[trigger] xv[k] == xs@[k]@,
                prefixed(view_seq(out@), filter_from(f as nat, self@, pred@, xv, i as int)) == filter_from(
                    f as nat,
                    old(self)@,
                    pred@,
                    xv,
                    0,
                ),
            decreases xs.len() - i,
        {
            let call = call1_exec(pred.dup(), xs[i].dup());
            let v = match self.eval_fuel(f, call) {
                Ok(v) => v,
                Err(e) => {
                    return Err(e);
                },
            };
            if !is_false_exec(&v) {
                let x = xs[i].dup();
                proof {
                    lemma_prefixed_step(view_seq(out@), x@, filter_from(f as nat, self@, pred@, xv, i + 1));
                    lemma_view_seq_push(out@, x);
                }
                out.push(x);
            }
            i += 1;
        }
        proof {
            assert(view_seq(out@) + Seq::<Val>::empty() =~= view_seq(out@));
        }
        Ok(out)
    }

    fn form_vector_set(&mut self, f: u64, args: SExp) -> (r: Result<SExp, Error>)
        ensures
            (final(self)@, view_result(r)) == vector_set_form(f as nat, old(self)@, args@),
        decreases f, 1int,
    {
        let (s, tl) = match split_pair(args) {
            Ok(p) => p,
            Err(e) => {
                return Err(e);
            },
        };
        let (num, tl2) = match split_pair(tl) {
            Ok(p) => p,
            Err(e) => {
                return Err(e);
            },
        };
        let head = match first_of(tl2) {
            Ok(v) => v,
            Err(e) => {
                return Err(e);
            },
        };
        match s {
            SExp::Atom(Primitive::Symbol(sym)) => {
                let nv = match self.eval_fuel(f, num) {
                    Ok(v) => v,
                    Err(e) => {
                        return Err(e);
                    },
                };
                match nv {
                    SExp::Atom(Primitive::Number(n)) => match self.get(sym.as_str()) {
                        Some(SExp::Atom(Primitive::Vector(vs))) => {
                            proof {
                                lemma_view_seq(vs@);
                            }
                            let x = match self.eval_fuel(f, head) {
                                Ok(v) => v,
                                Err(e) => {
                                    return Err(e);
                                },
                            };
                            let k = n as usize;
                            if k >= vs.len() {
                                Err(Error::Index { i: k })
                            } else {
                                let mut vs = vs;
                                proof {
                                    lemma_view_seq_update(vs@, k as int, x);
                                }
                                vs.set(k, x);
                                self.set(sym.as_str(), SExp::Atom(Primitive::Vector(vs)))
                            }
                        },
                        Some(other) => Err(type_error("vector", &other)),
                        None => Err(Error::UndefinedSymbol { sym }),
                    },
                    other => Err(type_error("number", &other)),
                }
            },
            other => Err(type_error("symbol", &other)),
        }
    }

    fn form_vector_map(&mut self, f: u64, args: SExp) -> (r: Result<SExp, Error>)
        ensures
            (final(self)@, view_result(r)) == vector_map_form(f as nat, old(self)@, args@),
        decreases f, 1int,
    {
        if f == 0 {
            return Err(Error::Exhausted);
        }
        let (p, tl) = match split_pair(args) {
            Ok(p) => p,
            Err(e) => {
                return Err(e);
            },
        };
        let v = match first_of(tl) {
            Ok(v) => v,
            Err(e) => {
                return Err(e);
            },
        };
        match v {
            SExp::Atom(Primitive::Vector(vs)) => match self.map_items(f - 1, &p, &vs) {
                Ok(out) => Ok(SExp::Atom(Primitive::Vector(out))),
                Err(e) => Err(e),
            },
            other => Err(type_error("vector", &other)),
        }
    }
}

} // verus!
