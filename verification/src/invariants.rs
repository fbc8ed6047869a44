//! What every evaluation keeps: the language-level definitions stay as they
//! are, scopes are only ever added, and printed output is only appended to.
use vstd::prelude::*;

use crate::context::{
    chain_set, ctx_define, ctx_emit, ctx_pop, ctx_push, ctx_set, with_cur, assoc_pos, file_get, CtxV, FrameV,
};
use crate::parse::parse_spec;
use crate::errors::{car_spec, ErrV};
use crate::semantics::{
    and_from, apply, apply_form, arity_error, begin_from, builtin, call1, call2, case_form, cond_from, defer_body,
    define_all, define_form, do_form, do_loop, do_vars, enter_lambda, ev, ev_args, ev_items, ev_loop, eval_form,
    filter_form, filter_from, find_clause, fold_form, fold_from, if_form, lambda_form, lambda_val, let_bindings,
    let_defs, let_form, map_form, map_from, or_from, print_form, printed_text, proc_defers, qq_from,
    quasiquote_form, require_form, run_from, set_form, set_part, set_part_form, split_car, vector_map_form, vector_set_form,
    Flow,
};
use crate::value::{is_false, items, sym_val, undefined_val, Builtin, FuncV, Prim, ProcV, Val};

verus! {

/// `b` is what `a` can become by evaluation: the same language-level
/// definitions and capture mode, at least as many frames, and the printed
/// and captured output of `a` at the start of those of `b`.
pub open spec fn grows(a: CtxV, b: CtxV) -> bool {
    &&& b.lang == a.lang
    &&& a.frames.len() <= b.frames.len()
    &&& a.printed.len() <= b.printed.len()
    &&& b.printed.subrange(0, a.printed.len() as int) == a.printed
    &&& match (a.out, b.out) {
        (Some(x), Some(y)) => x.len() <= y.len() && y.subrange(0, x.len() as int) == x,
        (None, None) => true,
        _ => false,
    }
}

/// The context that a flow leaves.
pub open spec fn flow_ctx(fl: Flow) -> CtxV {
    match fl {
        Flow::Done(s, _) => s,
        Flow::Tail(s, _) => s,
    }
}

pub proof fn lemma_grows_refl(a: CtxV)
    ensures
        grows(a, a),
{
    assert(a.printed.subrange(0, a.printed.len() as int) =~= a.printed);
    match a.out {
        Some(x) => {
            assert(x.subrange(0, x.len() as int) =~= x);
        },
        None => {},
    }
}

pub proof fn lemma_grows_trans(a: CtxV, b: CtxV, c: CtxV)
    requires
        grows(a, b),
        grows(b, c),
    ensures
        grows(a, c),
{
    assert(c.printed.subrange(0, a.printed.len() as int) =~= c.printed.subrange(0, b.printed.len() as int).subrange(
        0,
        a.printed.len() as int,
    ));
    match (a.out, b.out, c.out) {
        (Some(x), Some(y), Some(z)) => {
            assert(z.subrange(0, x.len() as int) =~= z.subrange(0, y.len() as int).subrange(0, x.len() as int));
        },
        _ => {},
    }
}

proof fn lemma_chain_set_len(frames: Seq<FrameV>, i: int, key: Seq<char>, value: Val)
    ensures
        match chain_set(frames, i, key, value) {
            Some(g) => g.len() == frames.len(),
            None => true,
        },
    decreases i,
{
    if 0 <= i < frames.len() {
        match assoc_pos(frames[i].vars, key, 0) {
            Some(_) => {},
            None => match frames[i].parent {
                Some(p) => if p < i {
                    lemma_chain_set_len(frames, p as int, key, value);
                },
                None => {},
            },
        }
    }
}

proof fn lemma_define(st: CtxV, key: Seq<char>, value: Val)
    ensures
        grows(st, ctx_define(st, key, value)),
{
    lemma_grows_refl(st);
}

proof fn lemma_set(st: CtxV, key: Seq<char>, value: Val)
    ensures
        grows(st, ctx_set(st, key, value).0),
{
    lemma_grows_refl(st);
    lemma_chain_set_len(st.frames, st.cur as int, key, value);
}

proof fn lemma_push(st: CtxV)
    ensures
        grows(st, ctx_push(st)),
{
    lemma_grows_refl(st);
}

proof fn lemma_pop(st: CtxV)
    ensures
        grows(st, ctx_pop(st)),
{
    lemma_grows_refl(st);
}

proof fn lemma_with_cur(st: CtxV, c: nat)
    ensures
        grows(st, with_cur(st, c)),
{
    lemma_grows_refl(st);
}

proof fn lemma_emit(st: CtxV, text: Seq<char>)
    ensures
        grows(st, ctx_emit(st, text)),
{
    lemma_grows_refl(st);
    let s2 = ctx_emit(st, text);
    match st.out {
        Some(buf) => {
            assert((buf + text).subrange(0, buf.len() as int) =~= buf);
        },
        None => {
            assert((st.printed + text).subrange(0, st.printed.len() as int) =~= st.printed);
        },
    }
}

proof fn lemma_define_all(st: CtxV, defs: Seq<(Seq<char>, Val)>, i: int)
    ensures
        grows(st, define_all(st, defs, i)),
    decreases defs.len() - i,
{
    if 0 <= i < defs.len() {
        let s1 = ctx_define(st, defs[i].0, defs[i].1);
        lemma_define(st, defs[i].0, defs[i].1);
        lemma_define_all(s1, defs, i + 1);
        lemma_grows_trans(st, s1, define_all(s1, defs, i + 1));
    } else {
        lemma_grows_refl(st);
    }
}

proof fn lemma_enter(st: CtxV, params: Seq<Seq<char>>, args: Seq<Val>, envt: nat)
    ensures
        grows(st, enter_lambda(st, params, args, envt)),
{
    lemma_grows_refl(st);
}

// ---------------------------------------------------------------------------
// Evaluation
// ---------------------------------------------------------------------------

/// Evaluation keeps the language-level definitions, adds frames only, and
/// only appends to the output.
pub proof fn law_eval_grows(f: nat, st: CtxV, e: Val)
    ensures
        grows(st, ev(f, st, e).0),
    decreases f, 0nat,
{
    if f == 0 {
        lemma_grows_refl(st);
    } else {
        let (s2, r, keep) = ev_loop((f - 1) as nat, st, e);
        law_eval_loop_grows((f - 1) as nat, st, e);
        lemma_with_cur(s2, st.cur);
        lemma_grows_trans(st, s2, with_cur(s2, st.cur));
    }
}

pub proof fn law_eval_loop_grows(f: nat, st: CtxV, e: Val)
    ensures
        grows(st, ev_loop(f, st, e).0),
    decreases f, 0nat,
{
    lemma_grows_refl(st);
    if f > 0 {
        match e {
            Val::Pair(h, t) => {
                let (s1, hr) = ev((f - 1) as nat, st, *h);
                law_eval_grows((f - 1) as nat, st, *h);
                match hr {
                    Ok(Val::Atom(Prim::Procedure(p))) => {
                        let (s2, ar) = if proc_defers(p) {
                            (s1, Ok(*t))
                        } else {
                            ev_args((f - 1) as nat, s1, *t)
                        };
                        if proc_defers(p) {
                            lemma_grows_refl(s1);
                        } else {
                            lemma_args((f - 1) as nat, s1, *t);
                        }
                        lemma_grows_trans(st, s1, s2);
                        match ar {
                            Ok(args) => {
                                let fl = apply((f - 1) as nat, s2, p, args);
                                lemma_apply((f - 1) as nat, s2, p, args);
                                lemma_grows_trans(st, s2, flow_ctx(fl));
                                match fl {
                                    Flow::Done(s3, _) => {},
                                    Flow::Tail(s3, e2) => {
                                        law_eval_loop_grows((f - 1) as nat, s3, e2);
                                        lemma_grows_trans(st, s3, ev_loop((f - 1) as nat, s3, e2).0);
                                    },
                                }
                            },
                            Err(_) => {},
                        }
                    },
                    Ok(Val::Atom(Prim::Symbol(_))) => {},
                    Ok(_) => {
                        lemma_args((f - 1) as nat, s1, *t);
                        lemma_grows_trans(st, s1, ev_args((f - 1) as nat, s1, *t).0);
                    },
                    _ => {},
                }
            },
            _ => {},
        }
    }
}

proof fn lemma_args(f: nat, st: CtxV, args: Val)
    ensures
        grows(st, ev_args(f, st, args).0),
    decreases f, 1nat,
{
    if f == 0 {
        lemma_grows_refl(st);
    } else {
        lemma_items((f - 1) as nat, st, items(args), 0);
    }
}

proof fn lemma_items(f: nat, st: CtxV, xs: Seq<Val>, i: int)
    ensures
        grows(st, ev_items(f, st, xs, i).0),
    decreases f, xs.len() - i + 1,
{
    if i < 0 || i >= xs.len() {
        lemma_grows_refl(st);
    } else {
        let (s1, r) = ev(f, st, xs[i]);
        law_eval_grows(f, st, xs[i]);
        match r {
            Err(_) => {},
            Ok(v) => {
                lemma_items(f, s1, xs, i + 1);
                lemma_grows_trans(st, s1, ev_items(f, s1, xs, i + 1).0);
            },
        }
    }
}

proof fn lemma_apply(f: nat, st: CtxV, p: ProcV, args: Val)
    ensures
        grows(st, flow_ctx(apply(f, st, p, args))),
    decreases f, 1nat,
{
    lemma_grows_refl(st);
    if f > 0 {
        match arity_error(p, crate::value::list_count(args)) {
            Some(_) => {},
            None => match p.func {
                FuncV::Builtin(b) => {
                    lemma_builtin((f - 1) as nat, st, b, args);
                },
                FuncV::Lambda(params, body, envt) => {
                    let s1 = enter_lambda(st, params, items(args), envt);
                    lemma_enter(st, params, items(args), envt);
                    lemma_defer((f - 1) as nat, s1, items(*body), 0);
                    lemma_grows_trans(st, s1, flow_ctx(defer_body((f - 1) as nat, s1, items(*body), 0)));
                },
            },
        }
    }
}

proof fn lemma_defer(f: nat, st: CtxV, xs: Seq<Val>, i: int)
    ensures
        grows(st, flow_ctx(defer_body(f, st, xs, i))),
    decreases f, xs.len() - i + 1,
{
    lemma_grows_refl(st);
    if 0 <= i < xs.len() - 1 {
        let (s1, r) = ev(f, st, xs[i]);
        law_eval_grows(f, st, xs[i]);
        match r {
            Err(_) => {},
            Ok(_) => {
                lemma_defer(f, s1, xs, i + 1);
                lemma_grows_trans(st, s1, flow_ctx(defer_body(f, s1, xs, i + 1)));
            },
        }
    }
}

proof fn lemma_builtin(f: nat, st: CtxV, b: Builtin, args: Val)
    ensures
        grows(st, flow_ctx(builtin(f, st, b, args))),
    decreases f, 1nat,
{
    lemma_grows_refl(st);
    if f > 0 {
        let g = (f - 1) as nat;
        match b {
            Builtin::Eval => lemma_eval_form(g, st, args),
            Builtin::Apply => lemma_apply_form(g, st, args),
            Builtin::And => lemma_and(g, st, items(args), 0, crate::value::bool_val(true)),
            Builtin::Or => lemma_or(g, st, items(args), 0),
            Builtin::Begin => lemma_begin(g, st, items(args), 0, undefined_val()),
            Builtin::Case => lemma_case(g, st, args),
            Builtin::Cond => lemma_cond(g, st, items(args), 0),
            Builtin::Define => lemma_define_form(g, st, args),
            Builtin::Do => lemma_do(g, st, args),
            Builtin::If => lemma_if(g, st, args),
            Builtin::Let => lemma_let(g, st, args),
            Builtin::Quasiquote => lemma_quasiquote(g, st, args),
            Builtin::SetBang => lemma_set_form(st, args),
            Builtin::SetCar => lemma_set_part(g, st, args, true),
            Builtin::SetCdr => lemma_set_part(g, st, args, false),
            Builtin::Display => lemma_print(g, st, args, false, false),
            Builtin::Displayln => lemma_print(g, st, args, true, false),
            Builtin::Write => lemma_print(g, st, args, false, true),
            Builtin::Writeln => lemma_print(g, st, args, true, true),
            Builtin::Require => lemma_require(g, st, args),
            Builtin::MapList => lemma_map_form(g, st, args),
            Builtin::Foldl => lemma_fold_form(g, st, args),
            Builtin::Filter => lemma_filter_form(g, st, args),
            Builtin::VectorSet => lemma_vector_set(g, st, args),
            Builtin::VectorMap => lemma_vector_map(g, st, args),
            _ => {},
        }
    }
}

proof fn lemma_eval_form(f: nat, st: CtxV, args: Val)
    ensures
        grows(st, eval_form(f, st, args).0),
    decreases f, 1nat,
{
    lemma_grows_refl(st);
    match car_spec(args) {
        Err(_) => {},
        Ok(a) => {
            let (s1, r) = ev(f, st, a);
            law_eval_grows(f, st, a);
            match r {
                Err(_) => {},
                Ok(v) => {
                    law_eval_grows(f, s1, v);
                    lemma_grows_trans(st, s1, ev(f, s1, v).0);
                },
            }
        },
    }
}

proof fn lemma_require(f: nat, st: CtxV, args: Val)
    ensures
        grows(st, require_form(f, st, args).0),
    decreases f, 1nat,
{
    lemma_grows_refl(st);
    match car_spec(args) {
        Err(_) => {},
        Ok(a) => {
            let (s1, r) = ev(f, st, a);
            law_eval_grows(f, st, a);
            match r {
                Ok(Val::Atom(Prim::Str(path))) => match file_get(s1.files, path, 0) {
                    Some(Ok(text)) => match parse_spec(text) {
                        Ok(v) => {
                            law_eval_grows(f, s1, v);
                            lemma_grows_trans(st, s1, ev(f, s1, v).0);
                        },
                        Err(_) => {},
                    },
                    _ => {},
                },
                _ => {},
            }
        },
    }
}

proof fn lemma_apply_form(f: nat, st: CtxV, args: Val)
    ensures
        grows(st, apply_form(f, st, args).0),
    decreases f, 1nat,
{
    lemma_grows_refl(st);
    match split_car(args) {
        Err(_) => {},
        Ok((op, tl)) => match car_spec(tl) {
            Err(_) => {},
            Ok(le) => {
                let (s1, r) = ev(f, st, le);
                law_eval_grows(f, st, le);
                match r {
                    Err(_) => {},
                    Ok(lst) => {
                        let e2 = Val::Pair(Box::new(op), Box::new(lst));
                        law_eval_grows(f, s1, e2);
                        lemma_grows_trans(st, s1, ev(f, s1, e2).0);
                    },
                }
            },
        },
    }
}

proof fn lemma_and(f: nat, st: CtxV, xs: Seq<Val>, i: int, state: Val)
    ensures
        grows(st, and_from(f, st, xs, i, state).0),
    decreases f, xs.len() - i + 1,
{
    lemma_grows_refl(st);
    if 0 <= i < xs.len() {
        let (s1, r) = ev(f, st, xs[i]);
        law_eval_grows(f, st, xs[i]);
        match r {
            Err(_) => {},
            Ok(v) => if !is_false(v) {
                lemma_and(f, s1, xs, i + 1, v);
                lemma_grows_trans(st, s1, and_from(f, s1, xs, i + 1, v).0);
            },
        }
    }
}

proof fn lemma_or(f: nat, st: CtxV, xs: Seq<Val>, i: int)
    ensures
        grows(st, or_from(f, st, xs, i).0),
    decreases f, xs.len() - i + 1,
{
    lemma_grows_refl(st);
    if 0 <= i < xs.len() {
        let (s1, r) = ev(f, st, xs[i]);
        law_eval_grows(f, st, xs[i]);
        match r {
            Err(_) => {},
            Ok(v) => if is_false(v) {
                lemma_or(f, s1, xs, i + 1);
                lemma_grows_trans(st, s1, or_from(f, s1, xs, i + 1).0);
            },
        }
    }
}

proof fn lemma_begin(f: nat, st: CtxV, xs: Seq<Val>, i: int, ret: Val)
    ensures
        grows(st, begin_from(f, st, xs, i, ret).0),
    decreases f, xs.len() - i + 1,
{
    lemma_grows_refl(st);
    if 0 <= i < xs.len() {
        let (s1, r) = ev(f, st, xs[i]);
        law_eval_grows(f, st, xs[i]);
        match r {
            Err(_) => {},
            Ok(v) => {
                lemma_begin(f, s1, xs, i + 1, v);
                lemma_grows_trans(st, s1, begin_from(f, s1, xs, i + 1, v).0);
            },
        }
    }
}

proof fn lemma_run(f: nat, st: CtxV, xs: Seq<Val>, i: int)
    ensures
        grows(st, run_from(f, st, xs, i).0),
    decreases f, xs.len() - i + 1,
{
    lemma_grows_refl(st);
    if 0 <= i < xs.len() {
        let (s1, r) = ev(f, st, xs[i]);
        law_eval_grows(f, st, xs[i]);
        match r {
            Err(_) => {},
            Ok(_) => {
                lemma_run(f, s1, xs, i + 1);
                lemma_grows_trans(st, s1, run_from(f, s1, xs, i + 1).0);
            },
        }
    }
}

proof fn lemma_case(f: nat, st: CtxV, args: Val)
    ensures
        grows(st, flow_ctx(case_form(f, st, args))),
    decreases f, 1nat,
{
    lemma_grows_refl(st);
    if f > 0 {
        match args {
            Val::Pair(head, tail) => {
                let (s1, r) = ev(f, st, *head);
                law_eval_grows(f, st, *head);
                match r {
                    Err(_) => {},
                    Ok(key) => match find_clause(items(*tail), key, 0) {
                        Some(body) => {
                            lemma_defer((f - 1) as nat, s1, items(body), 0);
                            lemma_grows_trans(st, s1, flow_ctx(defer_body((f - 1) as nat, s1, items(body), 0)));
                        },
                        None => {
                            lemma_case((f - 1) as nat, s1, key);
                            lemma_grows_trans(st, s1, flow_ctx(case_form((f - 1) as nat, s1, key)));
                        },
                    },
                }
            },
            _ => {},
        }
    }
}

proof fn lemma_cond(f: nat, st: CtxV, xs: Seq<Val>, i: int)
    ensures
        grows(st, flow_ctx(cond_from(f, st, xs, i))),
    decreases f, xs.len() - i + 1,
{
    lemma_grows_refl(st);
    if f > 0 && 0 <= i < xs.len() {
        match xs[i] {
            Val::Pair(pred, body) => if crate::value::val_equal(*pred, sym_val("else"@)) {
                lemma_defer((f - 1) as nat, st, items(*body), 0);
            } else {
                let (s1, r) = ev(f, st, *pred);
                law_eval_grows(f, st, *pred);
                match r {
                    Err(_) => {},
                    Ok(v) => if is_false(v) {
                        lemma_cond(f, s1, xs, i + 1);
                        lemma_grows_trans(st, s1, flow_ctx(cond_from(f, s1, xs, i + 1)));
                    } else {
                        lemma_defer((f - 1) as nat, s1, items(*body), 0);
                        lemma_grows_trans(st, s1, flow_ctx(defer_body((f - 1) as nat, s1, items(*body), 0)));
                    },
                }
            },
            _ => {},
        }
    }
}

proof fn lemma_define_form(f: nat, st: CtxV, args: Val)
    ensures
        grows(st, define_form(f, st, args).0),
    decreases f, 1nat,
{
    lemma_grows_refl(st);
    match split_car(args) {
        Err(_) => {},
        Ok((sig, defn)) => match sig {
            Val::Pair(h, t) => match *h {
                Val::Atom(Prim::Symbol(s)) => match lambda_form(
                    st.cur,
                    Val::Pair(Box::new(sig), Box::new(defn)),
                    true,
                ) {
                    Err(_) => {},
                    Ok(p) => lemma_define(st, s, p),
                },
                _ => {},
            },
            Val::Atom(Prim::Symbol(s)) => {
                let n = crate::value::list_count(defn);
                if n <= 1 {
                    match defn {
                        Val::Null => lemma_define(st, s, undefined_val()),
                        _ => {
                            let e = match defn {
                                Val::Pair(h, _) => *h,
                                _ => defn,
                            };
                            let (s1, r) = ev(f, st, e);
                            law_eval_grows(f, st, e);
                            match r {
                                Err(_) => {},
                                Ok(v) => {
                                    lemma_define(s1, s, v);
                                    lemma_grows_trans(st, s1, ctx_define(s1, s, v));
                                },
                            }
                        },
                    }
                }
            },
            _ => {},
        },
    }
}

proof fn lemma_do(f: nat, st: CtxV, args: Val)
    ensures
        grows(st, do_form(f, st, args).0),
    decreases f, 1nat,
{
    lemma_grows_refl(st);
    if f > 0 {
        match split_car(args) {
            Err(_) => {},
            Ok((vars, rest)) => match split_car(rest) {
                Err(_) => {},
                Ok((term, body)) => match do_vars(items(vars), 0, seq![], seq![]) {
                    Err(_) => {},
                    Ok((inits, ups)) => match split_car(term) {
                        Err(_) => {},
                        Ok((test, ret)) => {
                            let s00 = ctx_push(st);
                            lemma_push(st);
                            let s0 = define_all(s00, inits, 0);
                            lemma_define_all(s00, inits, 0);
                            lemma_grows_trans(st, s00, s0);
                            let (s1, r) = do_loop((f - 1) as nat, s0, items(body), test, items(ret), ups);
                            lemma_do_loop((f - 1) as nat, s0, items(body), test, items(ret), ups);
                            lemma_grows_trans(st, s0, s1);
                            lemma_pop(s1);
                            lemma_grows_trans(st, s1, ctx_pop(s1));
                        },
                    },
                },
            },
        }
    }
}

proof fn lemma_do_loop(
    f: nat,
    st: CtxV,
    body: Seq<Val>,
    test: Val,
    ret: Seq<Val>,
    ups: Seq<(Seq<char>, Val)>,
)
    ensures
        grows(st, do_loop(f, st, body, test, ret, ups).0),
    decreases f, 1nat,
{
    lemma_grows_refl(st);
    if f > 0 {
        let g = (f - 1) as nat;
        let (s1, r1) = run_from(g, st, body, 0);
        lemma_run(g, st, body, 0);
        match r1 {
            Err(_) => {},
            Ok(_) => {
                let (s2, r2) = ev(g, s1, test);
                law_eval_grows(g, s1, test);
                lemma_grows_trans(st, s1, s2);
                match r2 {
                    Err(_) => {},
                    Ok(c) => if is_false(c) {
                        let exprs = ups.map_values(|u: (Seq<char>, Val)| u.1);
                        let (s3, r3) = ev_items(g, s2, exprs, 0);
                        lemma_items(g, s2, exprs, 0);
                        lemma_grows_trans(st, s2, s3);
                        match r3 {
                            Err(_) => {},
                            Ok(vals) => {
                                let news = Seq::new(ups.len(), |k: int| (ups[k].0, vals[k]));
                                let s4 = define_all(s3, news, 0);
                                lemma_define_all(s3, news, 0);
                                lemma_grows_trans(st, s3, s4);
                                lemma_do_loop(g, s4, body, test, ret, ups);
                                lemma_grows_trans(st, s4, do_loop(g, s4, body, test, ret, ups).0);
                            },
                        }
                    } else {
                        lemma_begin(g, s2, ret, 0, undefined_val());
                        lemma_grows_trans(st, s2, begin_from(g, s2, ret, 0, undefined_val()).0);
                    },
                }
            },
        }
    }
}

proof fn lemma_if(f: nat, st: CtxV, args: Val)
    ensures
        grows(st, flow_ctx(if_form(f, st, args))),
    decreases f, 1nat,
{
    lemma_grows_refl(st);
    match split_car(args) {
        Err(_) => {},
        Ok((c, r1)) => match split_car(r1) {
            Err(_) => {},
            Ok((a, r2)) => match split_car(r2) {
                Err(_) => {},
                Ok((b, _)) => {
                    law_eval_grows(f, st, c);
                },
            },
        },
    }
}

proof fn lemma_let(f: nat, st: CtxV, args: Val)
    ensures
        grows(st, flow_ctx(let_form(f, st, args))),
    decreases f, 1nat,
{
    lemma_grows_refl(st);
    if f > 0 {
        match split_car(args) {
            Err(_) => {},
            Ok((dl, stmts)) => match dl {
                Val::Atom(Prim::Symbol(name)) => match split_car(stmts) {
                    Err(_) => {},
                    Ok((dl2, stmts2)) => match let_bindings(items(dl2), 0, seq![], seq![]) {
                        Err(_) => {},
                        Ok((params, inits)) => {
                            let s1 = ctx_push(st);
                            lemma_push(st);
                            let s2 = ctx_define(s1, name, lambda_val(Some(name), params, stmts2, s1.cur));
                            lemma_define(s1, name, lambda_val(Some(name), params, stmts2, s1.cur));
                            lemma_grows_trans(st, s1, s2);
                            let call = Val::Pair(Box::new(sym_val(name)), Box::new(crate::value::list_of(inits)));
                            let (s3, r) = ev(f, s2, call);
                            law_eval_grows(f, s2, call);
                            lemma_grows_trans(st, s2, s3);
                            lemma_pop(s3);
                            lemma_grows_trans(st, s3, ctx_pop(s3));
                        },
                    },
                },
                _ => {
                    let s1 = ctx_push(st);
                    lemma_push(st);
                    let (s2, r) = let_defs((f - 1) as nat, s1, items(dl), 0);
                    lemma_let_defs((f - 1) as nat, s1, items(dl), 0);
                    lemma_grows_trans(st, s1, s2);
                    match r {
                        Err(_) => {
                            lemma_pop(s2);
                            lemma_grows_trans(st, s2, ctx_pop(s2));
                        },
                        Ok(_) => {
                            let fl = defer_body((f - 1) as nat, s2, items(stmts), 0);
                            lemma_defer((f - 1) as nat, s2, items(stmts), 0);
                            lemma_grows_trans(st, s2, flow_ctx(fl));
                            match fl {
                                Flow::Done(s3, _) => {
                                    lemma_pop(s3);
                                    lemma_grows_trans(st, s3, ctx_pop(s3));
                                },
                                Flow::Tail(_, _) => {},
                            }
                        },
                    }
                },
            },
        }
    }
}

proof fn lemma_let_defs(f: nat, st: CtxV, xs: Seq<Val>, i: int)
    ensures
        grows(st, let_defs(f, st, xs, i).0),
    decreases f, xs.len() - i + 1,
{
    lemma_grows_refl(st);
    if f > 0 && 0 <= i < xs.len() {
        let (s1, r) = define_form((f - 1) as nat, st, xs[i]);
        lemma_define_form((f - 1) as nat, st, xs[i]);
        match r {
            Err(_) => {},
            Ok(_) => {
                lemma_let_defs(f, s1, xs, i + 1);
                lemma_grows_trans(st, s1, let_defs(f, s1, xs, i + 1).0);
            },
        }
    }
}

proof fn lemma_quasiquote(f: nat, st: CtxV, args: Val)
    ensures
        grows(st, quasiquote_form(f, st, args).0),
    decreases f, 1nat,
{
    lemma_grows_refl(st);
    if f > 0 {
        match car_spec(args) {
            Err(_) => {},
            Ok(a) => match a {
                Val::Pair(_, _) => lemma_qq((f - 1) as nat, st, items(a), 0),
                _ => {},
            },
        }
    }
}

proof fn lemma_qq(f: nat, st: CtxV, xs: Seq<Val>, i: int)
    ensures
        grows(st, qq_from(f, st, xs, i).0),
    decreases f, xs.len() - i + 1,
{
    lemma_grows_refl(st);
    if 0 <= i < xs.len() {
        let (s1, r): (CtxV, Result<Val, ErrV>) = match xs[i] {
            Val::Pair(h, t) => if *h == sym_val("unquote"@) {
                match car_spec(*t) {
                    Err(e) => (st, Err(e)),
                    Ok(x) => ev(f, st, x),
                }
            } else {
                (st, Ok(xs[i]))
            },
            other => (st, Ok(other)),
        };
        match xs[i] {
            Val::Pair(h, t) => if *h == sym_val("unquote"@) {
                match car_spec(*t) {
                    Err(_) => {},
                    Ok(x) => law_eval_grows(f, st, x),
                }
            },
            _ => {},
        }
        match r {
            Err(_) => {},
            Ok(v) => {
                lemma_qq(f, s1, xs, i + 1);
                lemma_grows_trans(st, s1, qq_from(f, s1, xs, i + 1).0);
            },
        }
    }
}

proof fn lemma_set_form(st: CtxV, args: Val)
    ensures
        grows(st, set_form(st, args).0),
{
    lemma_grows_refl(st);
    match split_car(args) {
        Err(_) => {},
        Ok((name, tl)) => match name {
            Val::Atom(Prim::Symbol(s)) => match car_spec(tl) {
                Err(_) => {},
                Ok(v) => lemma_set(st, s, v),
            },
            _ => {},
        },
    }
}

proof fn lemma_set_part(f: nat, st: CtxV, args: Val, head: bool)
    ensures
        grows(st, set_part_form(f, st, args, head).0),
    decreases f, 1nat,
{
    lemma_grows_refl(st);
    match split_car(args) {
        Err(_) => {},
        Ok((c, tl)) => match car_spec(tl) {
            Err(_) => {},
            Ok(new) => match c {
                Val::Atom(Prim::Symbol(key)) => match crate::context::ctx_get(st, key) {
                    None => {},
                    Some(val) => {
                        let (s1, r) = ev(f, st, new);
                        law_eval_grows(f, st, new);
                        match r {
                            Err(_) => {},
                            Ok(nv) => match set_part(val, nv, head) {
                                Err(_) => {},
                                Ok(v2) => {
                                    lemma_set(s1, key, v2);
                                    lemma_grows_trans(st, s1, ctx_set(s1, key, v2).0);
                                },
                            },
                        }
                    },
                },
                _ => {},
            },
        },
    }
}

proof fn lemma_print(f: nat, st: CtxV, args: Val, newline: bool, debug: bool)
    ensures
        grows(st, print_form(f, st, args, newline, debug).0),
    decreases f, 1nat,
{
    lemma_grows_refl(st);
    match car_spec(args) {
        Err(_) => {},
        Ok(a) => {
            let (s1, r) = ev(f, st, a);
            law_eval_grows(f, st, a);
            match r {
                Err(_) => {},
                Ok(v) => {
                    let text = printed_text(v, newline, debug);
                    lemma_emit(s1, text);
                    lemma_grows_trans(st, s1, ctx_emit(s1, text));
                },
            }
        },
    }
}

proof fn lemma_map_form(f: nat, st: CtxV, args: Val)
    ensures
        grows(st, map_form(f, st, args).0),
    decreases f, 1nat,
{
    lemma_grows_refl(st);
    if f > 0 {
        match split_car(args) {
            Err(_) => {},
            Ok((head, tl)) => match car_spec(tl) {
                Err(_) => {},
                Ok(le) => {
                    let (s1, r) = ev(f, st, le);
                    law_eval_grows(f, st, le);
                    match r {
                        Err(_) => {},
                        Ok(lst) => {
                            lemma_map((f - 1) as nat, s1, head, items(lst), 0);
                            lemma_grows_trans(st, s1, map_from((f - 1) as nat, s1, head, items(lst), 0).0);
                        },
                    }
                },
            },
        }
    }
}

proof fn lemma_map(f: nat, st: CtxV, head: Val, xs: Seq<Val>, i: int)
    ensures
        grows(st, map_from(f, st, head, xs, i).0),
    decreases f, xs.len() - i + 1,
{
    lemma_grows_refl(st);
    if 0 <= i < xs.len() {
        let (s1, r) = ev(f, st, call1(head, xs[i]));
        law_eval_grows(f, st, call1(head, xs[i]));
        match r {
            Err(_) => {},
            Ok(_) => {
                lemma_map(f, s1, head, xs, i + 1);
                lemma_grows_trans(st, s1, map_from(f, s1, head, xs, i + 1).0);
            },
        }
    }
}

proof fn lemma_fold_form(f: nat, st: CtxV, args: Val)
    ensures
        grows(st, fold_form(f, st, args).0),
    decreases f, 1nat,
{
    lemma_grows_refl(st);
    if f > 0 {
        match split_car(args) {
            Err(_) => {},
            Ok((head, tl)) => match split_car(tl) {
                Err(_) => {},
                Ok((init, tl2)) => match car_spec(tl2) {
                    Err(_) => {},
                    Ok(le) => {
                        let (s1, r) = ev(f, st, le);
                        law_eval_grows(f, st, le);
                        match r {
                            Err(_) => {},
                            Ok(lst) => {
                                lemma_fold((f - 1) as nat, s1, head, items(lst), 0, init);
                                lemma_grows_trans(
                                    st,
                                    s1,
                                    fold_from((f - 1) as nat, s1, head, items(lst), 0, init).0,
                                );
                            },
                        }
                    },
                },
            },
        }
    }
}

proof fn lemma_fold(f: nat, st: CtxV, head: Val, xs: Seq<Val>, i: int, acc: Val)
    ensures
        grows(st, fold_from(f, st, head, xs, i, acc).0),
    decreases f, xs.len() - i + 1,
{
    lemma_grows_refl(st);
    if 0 <= i < xs.len() {
        let (s1, r) = ev(f, st, call2(head, acc, xs[i]));
        law_eval_grows(f, st, call2(head, acc, xs[i]));
        match r {
            Err(_) => {},
            Ok(v) => {
                lemma_fold(f, s1, head, xs, i + 1, v);
                lemma_grows_trans(st, s1, fold_from(f, s1, head, xs, i + 1, v).0);
            },
        }
    }
}

proof fn lemma_filter_form(f: nat, st: CtxV, args: Val)
    ensures
        grows(st, filter_form(f, st, args).0),
    decreases f, 1nat,
{
    lemma_grows_refl(st);
    if f > 0 {
        match split_car(args) {
            Err(_) => {},
            Ok((pred, tl)) => match car_spec(tl) {
                Err(_) => {},
                Ok(le) => {
                    let (s1, r) = ev(f, st, le);
                    law_eval_grows(f, st, le);
                    match r {
                        Err(_) => {},
                        Ok(lst) => {
                            lemma_filter((f - 1) as nat, s1, pred, items(lst), 0);
                            lemma_grows_trans(st, s1, filter_from((f - 1) as nat, s1, pred, items(lst), 0).0);
                        },
                    }
                },
            },
        }
    }
}

proof fn lemma_filter(f: nat, st: CtxV, pred: Val, xs: Seq<Val>, i: int)
    ensures
        grows(st, filter_from(f, st, pred, xs, i).0),
    decreases f, xs.len() - i + 1,
{
    lemma_grows_refl(st);
    if 0 <= i < xs.len() {
        let (s1, r) = ev(f, st, call1(pred, xs[i]));
        law_eval_grows(f, st, call1(pred, xs[i]));
        match r {
            Err(_) => {},
            Ok(_) => {
                lemma_filter(f, s1, pred, xs, i + 1);
                lemma_grows_trans(st, s1, filter_from(f, s1, pred, xs, i + 1).0);
            },
        }
    }
}

proof fn lemma_vector_set(f: nat, st: CtxV, args: Val)
    ensures
        grows(st, vector_set_form(f, st, args).0),
    decreases f, 1nat,
{
    lemma_grows_refl(st);
    match split_car(args) {
        Err(_) => {},
        Ok((s, tl)) => match split_car(tl) {
            Err(_) => {},
            Ok((num, tl2)) => match car_spec(tl2) {
                Err(_) => {},
                Ok(head) => match s {
                    Val::Atom(Prim::Symbol(sym)) => {
                        let (s1, r) = ev(f, st, num);
                        law_eval_grows(f, st, num);
                        match r {
                            Ok(Val::Atom(Prim::Number(n))) => match crate::context::ctx_get(s1, sym) {
                                Some(Val::Atom(Prim::Vector(vs))) => {
                                    let (s2, r2) = ev(f, s1, head);
                                    law_eval_grows(f, s1, head);
                                    lemma_grows_trans(st, s1, s2);
                                    match r2 {
                                        Err(_) => {},
                                        Ok(nv) => {
                                            let k = (n as usize) as nat;
                                            if k < vs.len() {
                                                let v2 = Val::Atom(Prim::Vector(vs.update(k as int, nv)));
                                                lemma_set(s2, sym, v2);
                                                lemma_grows_trans(st, s2, ctx_set(s2, sym, v2).0);
                                            }
                                        },
                                    }
                                },
                                _ => {},
                            },
                            _ => {},
                        }
                    },
                    _ => {},
                },
            },
        },
    }
}

proof fn lemma_vector_map(f: nat, st: CtxV, args: Val)
    ensures
        grows(st, vector_map_form(f, st, args).0),
    decreases f, 1nat,
{
    lemma_grows_refl(st);
    if f > 0 {
        match split_car(args) {
            Err(_) => {},
            Ok((p, tl)) => match car_spec(tl) {
                Ok(Val::Atom(Prim::Vector(vs))) => lemma_map((f - 1) as nat, st, p, vs, 0),
                _ => {},
            },
        }
    }
}

} // verus!
