//! The step budget changes nothing but whether evaluation runs out: when a
//! budget suffices, every larger budget gives exactly the same outcome.
use vstd::prelude::*;

use crate::context::{ctx_get, file_get, CtxV};
use crate::parse::parse_spec;
use crate::errors::{car_spec, ErrV};
use crate::semantics::{
    and_from, apply, apply_form, arity_error, begin_from, builtin, call1, call2, case_form, cond_from, defer_body,
    define_all, define_form, do_form, do_loop, do_vars, enter_lambda, ev, ev_args, ev_items, ev_loop, eval_form,
    filter_form, filter_from, find_clause, fold_form, fold_from, if_form, let_bindings, let_defs,
    let_form, map_form, map_from, or_from, print_form, proc_defers, qq_from, quasiquote_form, run_from,
    require_form, set_part_form, split_car, vector_map_form, vector_set_form, Flow,
};
use crate::value::{is_false, items, sym_val, undefined_val, Builtin, FuncV, Prim, ProcV, Val};

verus! {

pub open spec fn ran_out<T>(r: Result<T, ErrV>) -> bool {
    r == Err::<T, ErrV>(ErrV::Exhausted)
}

pub open spec fn flow_ran_out(fl: Flow) -> bool {
    match fl {
        Flow::Done(_, r) => ran_out(r),
        Flow::Tail(_, _) => false,
    }
}

/// Evaluation that does not run out of its budget `f` gives the same outcome
/// with any larger budget `g`.
pub proof fn law_budget(f: nat, g: nat, st: CtxV, e: Val)
    requires
        f <= g,
        !ran_out(ev(f, st, e).1),
    ensures
        ev(g, st, e) == ev(f, st, e),
    decreases f, 0nat,
{
    law_budget_loop((f - 1) as nat, (g - 1) as nat, st, e);
}

proof fn law_budget_loop(f: nat, g: nat, st: CtxV, e: Val)
    requires
        f <= g,
        !ran_out(ev_loop(f, st, e).1),
    ensures
        ev_loop(g, st, e) == ev_loop(f, st, e),
    decreases f, 0nat,
{
    match e {
        Val::Pair(h, t) => {
            let (s1, hr) = ev((f - 1) as nat, st, *h);
            law_budget((f - 1) as nat, (g - 1) as nat, st, *h);
            match hr {
                Ok(Val::Atom(Prim::Procedure(p))) => {
                    let (s2, ar) = if proc_defers(p) {
                        (s1, Ok(*t))
                    } else {
                        ev_args((f - 1) as nat, s1, *t)
                    };
                    if !proc_defers(p) {
                        budget_args((f - 1) as nat, (g - 1) as nat, s1, *t);
                    }
                    match ar {
                        Ok(args) => {
                            budget_apply((f - 1) as nat, (g - 1) as nat, s2, p, args);
                            match apply((f - 1) as nat, s2, p, args) {
                                Flow::Done(_, _) => {},
                                Flow::Tail(s3, e2) => {
                                    law_budget_loop((f - 1) as nat, (g - 1) as nat, s3, e2);
                                },
                            }
                        },
                        Err(_) => {},
                    }
                },
                Ok(Val::Atom(Prim::Symbol(_))) => {},
                Ok(_) => {
                    budget_args((f - 1) as nat, (g - 1) as nat, s1, *t);
                },
                _ => {},
            }
        },
        _ => {},
    }
}

proof fn budget_args(f: nat, g: nat, st: CtxV, args: Val)
    requires
        f <= g,
        !ran_out(ev_args(f, st, args).1),
    ensures
        ev_args(g, st, args) == ev_args(f, st, args),
    decreases f, 1nat,
{
    budget_items((f - 1) as nat, (g - 1) as nat, st, items(args), 0);
}

proof fn budget_items(f: nat, g: nat, st: CtxV, xs: Seq<Val>, i: int)
    requires
        f <= g,
        !ran_out(ev_items(f, st, xs, i).1),
    ensures
        ev_items(g, st, xs, i) == ev_items(f, st, xs, i),
    decreases f, xs.len() - i + 1,
{
    if 0 <= i < xs.len() {
        let (s1, r) = ev(f, st, xs[i]);
        law_budget(f, g, st, xs[i]);
        match r {
            Ok(_) => {
                budget_items(f, g, s1, xs, i + 1);
            },
            Err(_) => {},
        }
    }
}

proof fn budget_apply(f: nat, g: nat, st: CtxV, p: ProcV, args: Val)
    requires
        f <= g,
        !flow_ran_out(apply(f, st, p, args)),
    ensures
        apply(g, st, p, args) == apply(f, st, p, args),
    decreases f, 1nat,
{
    match arity_error(p, crate::value::list_count(args)) {
        Some(_) => {},
        None => match p.func {
            FuncV::Builtin(b) => {
                budget_builtin((f - 1) as nat, (g - 1) as nat, st, b, args);
            },
            FuncV::Lambda(params, body, envt) => {
                budget_defer((f - 1) as nat, (g - 1) as nat, enter_lambda(st, params, items(args), envt), items(*body), 0);
            },
        },
    }
}

proof fn budget_defer(f: nat, g: nat, st: CtxV, xs: Seq<Val>, i: int)
    requires
        f <= g,
        !flow_ran_out(defer_body(f, st, xs, i)),
    ensures
        defer_body(g, st, xs, i) == defer_body(f, st, xs, i),
    decreases f, xs.len() - i + 1,
{
    if 0 <= i < xs.len() - 1 {
        let (s1, r) = ev(f, st, xs[i]);
        law_budget(f, g, st, xs[i]);
        match r {
            Ok(_) => {
                budget_defer(f, g, s1, xs, i + 1);
            },
            Err(_) => {},
        }
    }
}

proof fn budget_builtin(f: nat, g: nat, st: CtxV, b: Builtin, args: Val)
    requires
        f <= g,
        !flow_ran_out(builtin(f, st, b, args)),
    ensures
        builtin(g, st, b, args) == builtin(f, st, b, args),
    decreases f, 1nat,
{
    let f1 = (f - 1) as nat;
    let g1 = (g - 1) as nat;
    match b {
        Builtin::Eval => budget_eval_form(f1, g1, st, args),
        Builtin::Apply => budget_apply_form(f1, g1, st, args),
        Builtin::And => budget_and(f1, g1, st, items(args), 0, crate::value::bool_val(true)),
        Builtin::Or => budget_or(f1, g1, st, items(args), 0),
        Builtin::Begin => budget_begin(f1, g1, st, items(args), 0, undefined_val()),
        Builtin::Case => budget_case(f1, g1, st, args),
        Builtin::Cond => budget_cond(f1, g1, st, items(args), 0),
        Builtin::Define => budget_define(f1, g1, st, args),
        Builtin::Do => budget_do(f1, g1, st, args),
        Builtin::If => budget_if(f1, g1, st, args),
        Builtin::Let => budget_let(f1, g1, st, args),
        Builtin::Quasiquote => budget_quasiquote(f1, g1, st, args),
        Builtin::SetCar => budget_set_part(f1, g1, st, args, true),
        Builtin::SetCdr => budget_set_part(f1, g1, st, args, false),
        Builtin::Display => budget_print(f1, g1, st, args, false, false),
        Builtin::Displayln => budget_print(f1, g1, st, args, true, false),
        Builtin::Write => budget_print(f1, g1, st, args, false, true),
        Builtin::Writeln => budget_print(f1, g1, st, args, true, true),
        Builtin::Require => budget_require(f1, g1, st, args),
        Builtin::MapList => budget_map_form(f1, g1, st, args),
        Builtin::Foldl => budget_fold_form(f1, g1, st, args),
        Builtin::Filter => budget_filter_form(f1, g1, st, args),
        Builtin::VectorSet => budget_vector_set(f1, g1, st, args),
        Builtin::VectorMap => budget_vector_map(f1, g1, st, args),
        _ => {},
    }
}

proof fn budget_eval_form(f: nat, g: nat, st: CtxV, args: Val)
    requires
        f <= g,
        !ran_out(eval_form(f, st, args).1),
    ensures
        eval_form(g, st, args) == eval_form(f, st, args),
    decreases f, 1nat,
{
    match car_spec(args) {
        Err(_) => {},
        Ok(a) => {
            let (s1, r) = ev(f, st, a);
            law_budget(f, g, st, a);
            match r {
                Err(_) => {},
                Ok(v) => law_budget(f, g, s1, v),
            }
        },
    }
}

proof fn budget_require(f: nat, g: nat, st: CtxV, args: Val)
    requires
        f <= g,
        !ran_out(require_form(f, st, args).1),
    ensures
        require_form(g, st, args) == require_form(f, st, args),
    decreases f, 1nat,
{
    match car_spec(args) {
        Err(_) => {},
        Ok(a) => {
            let (s1, r) = ev(f, st, a);
            law_budget(f, g, st, a);
            match r {
                Ok(Val::Atom(Prim::Str(path))) => match file_get(s1.files, path, 0) {
                    Some(Ok(text)) => match parse_spec(text) {
                        Ok(v) => law_budget(f, g, s1, v),
                        Err(_) => {},
                    },
                    _ => {},
                },
                _ => {},
            }
        },
    }
}

proof fn budget_apply_form(f: nat, g: nat, st: CtxV, args: Val)
    requires
        f <= g,
        !ran_out(apply_form(f, st, args).1),
    ensures
        apply_form(g, st, args) == apply_form(f, st, args),
    decreases f, 1nat,
{
    match split_car(args) {
        Err(_) => {},
        Ok((op, tl)) => match car_spec(tl) {
            Err(_) => {},
            Ok(le) => {
                let (s1, r) = ev(f, st, le);
                law_budget(f, g, st, le);
                match r {
                    Err(_) => {},
                    Ok(lst) => law_budget(f, g, s1, Val::Pair(Box::new(op), Box::new(lst))),
                }
            },
        },
    }
}

proof fn budget_and(f: nat, g: nat, st: CtxV, xs: Seq<Val>, i: int, state: Val)
    requires
        f <= g,
        !ran_out(and_from(f, st, xs, i, state).1),
    ensures
        and_from(g, st, xs, i, state) == and_from(f, st, xs, i, state),
    decreases f, xs.len() - i + 1,
{
    if 0 <= i < xs.len() {
        let (s1, r) = ev(f, st, xs[i]);
        law_budget(f, g, st, xs[i]);
        match r {
            Ok(v) => if !is_false(v) {
                budget_and(f, g, s1, xs, i + 1, v);
            },
            Err(_) => {},
        }
    }
}

proof fn budget_or(f: nat, g: nat, st: CtxV, xs: Seq<Val>, i: int)
    requires
        f <= g,
        !ran_out(or_from(f, st, xs, i).1),
    ensures
        or_from(g, st, xs, i) == or_from(f, st, xs, i),
    decreases f, xs.len() - i + 1,
{
    if 0 <= i < xs.len() {
        let (s1, r) = ev(f, st, xs[i]);
        law_budget(f, g, st, xs[i]);
        match r {
            Ok(v) => if is_false(v) {
                budget_or(f, g, s1, xs, i + 1);
            },
            Err(_) => {},
        }
    }
}

proof fn budget_begin(f: nat, g: nat, st: CtxV, xs: Seq<Val>, i: int, ret: Val)
    requires
        f <= g,
        !ran_out(begin_from(f, st, xs, i, ret).1),
    ensures
        begin_from(g, st, xs, i, ret) == begin_from(f, st, xs, i, ret),
    decreases f, xs.len() - i + 1,
{
    if 0 <= i < xs.len() {
        let (s1, r) = ev(f, st, xs[i]);
        law_budget(f, g, st, xs[i]);
        match r {
            Ok(v) => {
                budget_begin(f, g, s1, xs, i + 1, v);
            },
            Err(_) => {},
        }
    }
}

proof fn budget_run(f: nat, g: nat, st: CtxV, xs: Seq<Val>, i: int)
    requires
        f <= g,
        !ran_out(run_from(f, st, xs, i).1),
    ensures
        run_from(g, st, xs, i) == run_from(f, st, xs, i),
    decreases f, xs.len() - i + 1,
{
    if 0 <= i < xs.len() {
        let (s1, r) = ev(f, st, xs[i]);
        law_budget(f, g, st, xs[i]);
        match r {
            Ok(_) => {
                budget_run(f, g, s1, xs, i + 1);
            },
            Err(_) => {},
        }
    }
}

proof fn budget_case(f: nat, g: nat, st: CtxV, args: Val)
    requires
        f <= g,
        !flow_ran_out(case_form(f, st, args)),
    ensures
        case_form(g, st, args) == case_form(f, st, args),
    decreases f, 1nat,
{
    match args {
        Val::Pair(head, tail) => {
            let (s1, r) = ev(f, st, *head);
            law_budget(f, g, st, *head);
            match r {
                Err(_) => {},
                Ok(key) => match find_clause(items(*tail), key, 0) {
                    Some(body) => budget_defer((f - 1) as nat, (g - 1) as nat, s1, items(body), 0),
                    None => budget_case((f - 1) as nat, (g - 1) as nat, s1, key),
                },
            }
        },
        _ => {},
    }
}

proof fn budget_cond(f: nat, g: nat, st: CtxV, xs: Seq<Val>, i: int)
    requires
        f <= g,
        !flow_ran_out(cond_from(f, st, xs, i)),
    ensures
        cond_from(g, st, xs, i) == cond_from(f, st, xs, i),
    decreases f, xs.len() - i + 1,
{
    if 0 <= i < xs.len() {
        match xs[i] {
            Val::Pair(pred, body) => if crate::value::val_equal(*pred, sym_val("else"@)) {
                budget_defer((f - 1) as nat, (g - 1) as nat, st, items(*body), 0);
            } else {
                let (s1, r) = ev(f, st, *pred);
                law_budget(f, g, st, *pred);
                match r {
                    Err(_) => {},
                    Ok(v) => if is_false(v) {
                        budget_cond(f, g, s1, xs, i + 1);
                    } else {
                        budget_defer((f - 1) as nat, (g - 1) as nat, s1, items(*body), 0);
                    },
                }
            },
            _ => {},
        }
    }
}

proof fn budget_define(f: nat, g: nat, st: CtxV, args: Val)
    requires
        f <= g,
        !ran_out(define_form(f, st, args).1),
    ensures
        define_form(g, st, args) == define_form(f, st, args),
    decreases f, 1nat,
{
    match split_car(args) {
        Err(_) => {},
        Ok((sig, defn)) => match sig {
            Val::Atom(Prim::Symbol(s)) => {
                if crate::value::list_count(defn) <= 1 {
                    match defn {
                        Val::Null => {},
                        _ => {
                            let e = match defn {
                                Val::Pair(h, _) => *h,
                                _ => defn,
                            };
                            law_budget(f, g, st, e);
                        },
                    }
                }
            },
            _ => {},
        },
    }
}

proof fn budget_do(f: nat, g: nat, st: CtxV, args: Val)
    requires
        f <= g,
        !ran_out(do_form(f, st, args).1),
    ensures
        do_form(g, st, args) == do_form(f, st, args),
    decreases f, 1nat,
{
    match split_car(args) {
        Err(_) => {},
        Ok((vars, rest)) => match split_car(rest) {
            Err(_) => {},
            Ok((term, body)) => match do_vars(items(vars), 0, seq![], seq![]) {
                Err(_) => {},
                Ok((inits, ups)) => match split_car(term) {
                    Err(_) => {},
                    Ok((test, ret)) => {
                        let s0 = define_all(crate::context::ctx_push(st), inits, 0);
                        budget_do_loop((f - 1) as nat, (g - 1) as nat, s0, items(body), test, items(ret), ups);
                    },
                },
            },
        },
    }
}

proof fn budget_do_loop(
    f: nat,
    g: nat,
    st: CtxV,
    body: Seq<Val>,
    test: Val,
    ret: Seq<Val>,
    ups: Seq<(Seq<char>, Val)>,
)
    requires
        f <= g,
        !ran_out(do_loop(f, st, body, test, ret, ups).1),
    ensures
        do_loop(g, st, body, test, ret, ups) == do_loop(f, st, body, test, ret, ups),
    decreases f, 1nat,
{
    let f1 = (f - 1) as nat;
    let g1 = (g - 1) as nat;
    let (s1, r1) = run_from(f1, st, body, 0);
    budget_run(f1, g1, st, body, 0);
    match r1 {
        Err(_) => {},
        Ok(_) => {
            let (s2, r2) = ev(f1, s1, test);
            law_budget(f1, g1, s1, test);
            match r2 {
                Err(_) => {},
                Ok(c) => if is_false(c) {
                    let exprs = ups.map_values(|u: (Seq<char>, Val)| u.1);
                    let (s3, r3) = ev_items(f1, s2, exprs, 0);
                    budget_items(f1, g1, s2, exprs, 0);
                    match r3 {
                        Err(_) => {},
                        Ok(vals) => {
                            let news = Seq::new(ups.len(), |k: int| (ups[k].0, vals[k]));
                            budget_do_loop(f1, g1, define_all(s3, news, 0), body, test, ret, ups);
                        },
                    }
                } else {
                    budget_begin(f1, g1, s2, ret, 0, undefined_val());
                },
            }
        },
    }
}

proof fn budget_if(f: nat, g: nat, st: CtxV, args: Val)
    requires
        f <= g,
        !flow_ran_out(if_form(f, st, args)),
    ensures
        if_form(g, st, args) == if_form(f, st, args),
    decreases f, 1nat,
{
    match split_car(args) {
        Err(_) => {},
        Ok((c, r1)) => match split_car(r1) {
            Err(_) => {},
            Ok((a, r2)) => match split_car(r2) {
                Err(_) => {},
                Ok((b, _)) => law_budget(f, g, st, c),
            },
        },
    }
}

proof fn budget_let(f: nat, g: nat, st: CtxV, args: Val)
    requires
        f <= g,
        !flow_ran_out(let_form(f, st, args)),
    ensures
        let_form(g, st, args) == let_form(f, st, args),
    decreases f, 1nat,
{
    match split_car(args) {
        Err(_) => {},
        Ok((dl, stmts)) => match dl {
            Val::Atom(Prim::Symbol(name)) => match split_car(stmts) {
                Err(_) => {},
                Ok((dl2, stmts2)) => match let_bindings(items(dl2), 0, seq![], seq![]) {
                    Err(_) => {},
                    Ok((params, inits)) => {
                        let s1 = crate::context::ctx_push(st);
                        let s2 = crate::context::ctx_define(
                            s1,
                            name,
                            crate::semantics::lambda_val(Some(name), params, stmts2, s1.cur),
                        );
                        let call = Val::Pair(Box::new(sym_val(name)), Box::new(crate::value::list_of(inits)));
                        law_budget(f, g, s2, call);
                    },
                },
            },
            _ => {
                let s1 = crate::context::ctx_push(st);
                let (s2, r) = let_defs((f - 1) as nat, s1, items(dl), 0);
                budget_let_defs((f - 1) as nat, (g - 1) as nat, s1, items(dl), 0);
                match r {
                    Err(_) => {},
                    Ok(_) => {
                        budget_defer((f - 1) as nat, (g - 1) as nat, s2, items(stmts), 0);
                    },
                }
            },
        },
    }
}

proof fn budget_let_defs(f: nat, g: nat, st: CtxV, xs: Seq<Val>, i: int)
    requires
        f <= g,
        !ran_out(let_defs(f, st, xs, i).1),
    ensures
        let_defs(g, st, xs, i) == let_defs(f, st, xs, i),
    decreases f, xs.len() - i + 1,
{
    if 0 <= i < xs.len() {
        let (s1, r) = define_form((f - 1) as nat, st, xs[i]);
        budget_define((f - 1) as nat, (g - 1) as nat, st, xs[i]);
        match r {
            Ok(_) => {
                budget_let_defs(f, g, s1, xs, i + 1);
            },
            Err(_) => {},
        }
    }
}

proof fn budget_quasiquote(f: nat, g: nat, st: CtxV, args: Val)
    requires
        f <= g,
        !ran_out(quasiquote_form(f, st, args).1),
    ensures
        quasiquote_form(g, st, args) == quasiquote_form(f, st, args),
    decreases f, 1nat,
{
    match car_spec(args) {
        Err(_) => {},
        Ok(a) => match a {
            Val::Pair(_, _) => budget_qq((f - 1) as nat, (g - 1) as nat, st, items(a), 0),
            _ => {},
        },
    }
}

proof fn budget_qq(f: nat, g: nat, st: CtxV, xs: Seq<Val>, i: int)
    requires
        f <= g,
        !ran_out(qq_from(f, st, xs, i).1),
    ensures
        qq_from(g, st, xs, i) == qq_from(f, st, xs, i),
    decreases f, xs.len() - i + 1,
{
    if 0 <= i < xs.len() {
        let (s1, r): (CtxV, Result<Val, ErrV>) = match xs[i] {
            Val::Pair(h, t) => if *h == sym_val("unquote"@) {
                match car_spec(*t) {
                    Err(e) => (st, Err(e)),
                    Ok(x) => ev(f, st, x),
                }
            } else {
                (st, Ok(xs[i]))
            },
            other => (st, Ok(other)),
        };
        match xs[i] {
            Val::Pair(h, t) => if *h == sym_val("unquote"@) {
                match car_spec(*t) {
                    Err(_) => {},
                    Ok(x) => law_budget(f, g, st, x),
                }
            },
            _ => {},
        }
        match r {
            Ok(_) => {
                budget_qq(f, g, s1, xs, i + 1);
            },
            Err(_) => {},
        }
    }
}

proof fn budget_set_part(f: nat, g: nat, st: CtxV, args: Val, head: bool)
    requires
        f <= g,
        !ran_out(set_part_form(f, st, args, head).1),
    ensures
        set_part_form(g, st, args, head) == set_part_form(f, st, args, head),
    decreases f, 1nat,
{
    match split_car(args) {
        Err(_) => {},
        Ok((c, tl)) => match car_spec(tl) {
            Err(_) => {},
            Ok(new) => match c {
                Val::Atom(Prim::Symbol(key)) => match ctx_get(st, key) {
                    None => {},
                    Some(_) => law_budget(f, g, st, new),
                },
                _ => {},
            },
        },
    }
}

proof fn budget_print(f: nat, g: nat, st: CtxV, args: Val, newline: bool, debug: bool)
    requires
        f <= g,
        !ran_out(print_form(f, st, args, newline, debug).1),
    ensures
        print_form(g, st, args, newline, debug) == print_form(f, st, args, newline, debug),
    decreases f, 1nat,
{
    match car_spec(args) {
        Err(_) => {},
        Ok(a) => law_budget(f, g, st, a),
    }
}

proof fn budget_map_form(f: nat, g: nat, st: CtxV, args: Val)
    requires
        f <= g,
        !ran_out(map_form(f, st, args).1),
    ensures
        map_form(g, st, args) == map_form(f, st, args),
    decreases f, 1nat,
{
    match split_car(args) {
        Err(_) => {},
        Ok((head, tl)) => match car_spec(tl) {
            Err(_) => {},
            Ok(le) => {
                let (s1, r) = ev(f, st, le);
                law_budget(f, g, st, le);
                match r {
                    Err(_) => {},
                    Ok(lst) => budget_map((f - 1) as nat, (g - 1) as nat, s1, head, items(lst), 0),
                }
            },
        },
    }
}

proof fn budget_map(f: nat, g: nat, st: CtxV, head: Val, xs: Seq<Val>, i: int)
    requires
        f <= g,
        !ran_out(map_from(f, st, head, xs, i).1),
    ensures
        map_from(g, st, head, xs, i) == map_from(f, st, head, xs, i),
    decreases f, xs.len() - i + 1,
{
    if 0 <= i < xs.len() {
        let (s1, r) = ev(f, st, call1(head, xs[i]));
        law_budget(f, g, st, call1(head, xs[i]));
        match r {
            Ok(_) => {
                budget_map(f, g, s1, head, xs, i + 1);
            },
            Err(_) => {},
        }
    }
}

proof fn budget_fold_form(f: nat, g: nat, st: CtxV, args: Val)
    requires
        f <= g,
        !ran_out(fold_form(f, st, args).1),
    ensures
        fold_form(g, st, args) == fold_form(f, st, args),
    decreases f, 1nat,
{
    match split_car(args) {
        Err(_) => {},
        Ok((head, tl)) => match split_car(tl) {
            Err(_) => {},
            Ok((init, tl2)) => match car_spec(tl2) {
                Err(_) => {},
                Ok(le) => {
                    let (s1, r) = ev(f, st, le);
                    law_budget(f, g, st, le);
                    match r {
                        Err(_) => {},
                        Ok(lst) => budget_fold((f - 1) as nat, (g - 1) as nat, s1, head, items(lst), 0, init),
                    }
                },
            },
        },
    }
}

proof fn budget_fold(f: nat, g: nat, st: CtxV, head: Val, xs: Seq<Val>, i: int, acc: Val)
    requires
        f <= g,
        !ran_out(fold_from(f, st, head, xs, i, acc).1),
    ensures
        fold_from(g, st, head, xs, i, acc) == fold_from(f, st, head, xs, i, acc),
    decreases f, xs.len() - i + 1,
{
    if 0 <= i < xs.len() {
        let (s1, r) = ev(f, st, call2(head, acc, xs[i]));
        law_budget(f, g, st, call2(head, acc, xs[i]));
        match r {
            Ok(v) => {
                budget_fold(f, g, s1, head, xs, i + 1, v);
            },
            Err(_) => {},
        }
    }
}

proof fn budget_filter_form(f: nat, g: nat, st: CtxV, args: Val)
    requires
        f <= g,
        !ran_out(filter_form(f, st, args).1),
    ensures
        filter_form(g, st, args) == filter_form(f, st, args),
    decreases f, 1nat,
{
    match split_car(args) {
        Err(_) => {},
        Ok((pred, tl)) => match car_spec(tl) {
            Err(_) => {},
            Ok(le) => {
                let (s1, r) = ev(f, st, le);
                law_budget(f, g, st, le);
                match r {
                    Err(_) => {},
                    Ok(lst) => budget_filter((f - 1) as nat, (g - 1) as nat, s1, pred, items(lst), 0),
                }
            },
        },
    }
}

proof fn budget_filter(f: nat, g: nat, st: CtxV, pred: Val, xs: Seq<Val>, i: int)
    requires
        f <= g,
        !ran_out(filter_from(f, st, pred, xs, i).1),
    ensures
        filter_from(g, st, pred, xs, i) == filter_from(f, st, pred, xs, i),
    decreases f, xs.len() - i + 1,
{
    if 0 <= i < xs.len() {
        let (s1, r) = ev(f, st, call1(pred, xs[i]));
        law_budget(f, g, st, call1(pred, xs[i]));
        match r {
            Ok(_) => {
                budget_filter(f, g, s1, pred, xs, i + 1);
            },
            Err(_) => {},
        }
    }
}

proof fn budget_vector_set(f: nat, g: nat, st: CtxV, args: Val)
    requires
        f <= g,
        !ran_out(vector_set_form(f, st, args).1),
    ensures
        vector_set_form(g, st, args) == vector_set_form(f, st, args),
    decreases f, 1nat,
{
    match split_car(args) {
        Err(_) => {},
        Ok((s, tl)) => match split_car(tl) {
            Err(_) => {},
            Ok((num, tl2)) => match car_spec(tl2) {
                Err(_) => {},
                Ok(head) => match s {
                    Val::Atom(Prim::Symbol(sym)) => {
                        let (s1, r) = ev(f, st, num);
                        law_budget(f, g, st, num);
                        match r {
                            Ok(Val::Atom(Prim::Number(_))) => match ctx_get(s1, sym) {
                                Some(Val::Atom(Prim::Vector(_))) => law_budget(f, g, s1, head),
                                _ => {},
                            },
                            _ => {},
                        }
                    },
                    _ => {},
                },
            },
        },
    }
}

proof fn budget_vector_map(f: nat, g: nat, st: CtxV, args: Val)
    requires
        f <= g,
        !ran_out(vector_map_form(f, st, args).1),
    ensures
        vector_map_form(g, st, args) == vector_map_form(f, st, args),
    decreases f, 1nat,
{
    match split_car(args) {
        Err(_) => {},
        Ok((p, tl)) => match car_spec(tl) {
            Ok(Val::Atom(Prim::Vector(vs))) => budget_map((f - 1) as nat, (g - 1) as nat, st, p, vs, 0),
            _ => {},
        },
    }
}

} // verus!
