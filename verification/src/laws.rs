//! Properties of contexts and evaluation that relate several operations.
use vstd::prelude::*;

use crate::context::{
    assoc_get, assoc_pos, assoc_put, chain_get, chain_set, core_builtin, ctx_define, ctx_get, ctx_pop, ctx_push,
    ctx_set, lemma_assoc_pos, CtxV, FrameV,
};
use crate::errors::ErrV;
use crate::numeric::in_i64;
use crate::semantics::{clause_matches, ev, ev_loop, find_clause, pure_builtin, vector_set_form};
use crate::text::{occurs_at, replace_all, replace_from, unescape_spec};
use crate::value::{bool_val, items, list_of, num_val, sym_val, undefined_val, val_equal, Builtin, Prim, Val};

verus! {

// ---------------------------------------------------------------------------
// Bindings
// ---------------------------------------------------------------------------

proof fn lemma_put_get_same(vars: Seq<(Seq<char>, Val)>, key: Seq<char>, value: Val)
    ensures
        assoc_get(assoc_put(vars, key, value), key) == Some(value),
{
    lemma_assoc_pos(vars, key, 0);
    let w = assoc_put(vars, key, value);
    lemma_assoc_pos(w, key, 0);
    match assoc_pos(vars, key, 0) {
        Some(j) => {
            assert(w[j as int].0 == key);
            match assoc_pos(w, key, 0) {
                Some(m) => {
                    assert(m == j);
                },
                None => {
                    assert(w[j as int].0 == key);
                },
            }
        },
        None => {
            assert(w[vars.len() as int].0 == key);
            match assoc_pos(w, key, 0) {
                Some(m) => {
                    assert(m == vars.len());
                },
                None => {},
            }
        },
    }
}

proof fn lemma_put_get_other(vars: Seq<(Seq<char>, Val)>, key: Seq<char>, value: Val, other: Seq<char>)
    requires
        other != key,
    ensures
        assoc_get(assoc_put(vars, key, value), other) == assoc_get(vars, other),
{
    lemma_assoc_pos(vars, key, 0);
    lemma_assoc_pos(vars, other, 0);
    let w = assoc_put(vars, key, value);
    lemma_assoc_pos(w, other, 0);
    match assoc_pos(vars, other, 0) {
        Some(j) => {
            assert(w[j as int] == vars[j as int]);
            match assoc_pos(w, other, 0) {
                Some(m) => {
                    if m < j {
                        assert(w[m as int] == vars[m as int]);
                    }
                    assert(m == j);
                },
                None => {},
            }
        },
        None => {
            match assoc_pos(w, other, 0) {
                Some(m) => {
                    if m < vars.len() {
                        assert(w[m as int] == vars[m as int]);
                    }
                },
                None => {},
            }
        },
    }
}

/// Lookups that start below `n` see only the first `n` frames.
proof fn lemma_chain_prefix(frames: Seq<FrameV>, more: Seq<FrameV>, i: int, key: Seq<char>)
    requires
        i < frames.len(),
        more.len() >= frames.len(),
        forall|k: int| 0 <= k < frames.len() ==> #[trigger] more[k] == frames[k],
    ensures
        chain_get(more, i, key) == chain_get(frames, i, key),
    decreases i,
{
    if i >= 0 {
        match assoc_get(frames[i].vars, key) {
            Some(_) => {},
            None => match frames[i].parent {
                Some(p) => if p < i {
                    lemma_chain_prefix(frames, more, p as int, key);
                },
                None => {},
            },
        }
    }
}

/// Updating one frame changes no lookup of another key.
proof fn lemma_chain_update_other(frames: Seq<FrameV>, c: int, key: Seq<char>, value: Val, i: int, other: Seq<char>)
    requires
        0 <= c < frames.len(),
        other != key,
    ensures
        chain_get(
            frames.update(
                c,
                FrameV { vars: assoc_put(frames[c].vars, key, value), parent: frames[c].parent },
            ),
            i,
            other,
        ) == chain_get(frames, i, other),
    decreases i,
{
    let g = frames.update(c, FrameV { vars: assoc_put(frames[c].vars, key, value), parent: frames[c].parent });
    if 0 <= i < frames.len() {
        if i == c {
            lemma_put_get_other(frames[c].vars, key, value, other);
        }
        assert(g[i].parent == frames[i].parent);
        match frames[i].parent {
            Some(p) => if p < i {
                lemma_chain_update_other(frames, c, key, value, p as int, other);
            },
            None => {},
        }
    }
}

/// `set` finds a binding exactly when a lookup in the scopes does, and the
/// lookup then sees the new value.
proof fn lemma_chain_set(frames: Seq<FrameV>, i: int, key: Seq<char>, value: Val)
    ensures
        chain_set(frames, i, key, value) is Some <==> chain_get(frames, i, key) is Some,
        match chain_set(frames, i, key, value) {
            Some(g) => chain_get(g, i, key) == Some(value) && g.len() == frames.len(),
            None => true,
        },
    decreases i,
{
    if 0 <= i < frames.len() {
        lemma_assoc_pos(frames[i].vars, key, 0);
        match assoc_pos(frames[i].vars, key, 0) {
            Some(j) => {
                let g = chain_set(frames, i, key, value).unwrap();
                let nv = frames[i].vars.update(j as int, (key, value));
                assert(g[i].vars == nv);
                lemma_assoc_pos(nv, key, 0);
                match assoc_pos(nv, key, 0) {
                    Some(m) => {
                        if m < j {
                            assert(nv[m as int] == frames[i].vars[m as int]);
                        }
                        if m > j {
                            assert(nv[j as int].0 == key);
                        }
                        assert(m == j);
                    },
                    None => {
                        assert(nv[j as int].0 == key);
                    },
                }
            },
            None => match frames[i].parent {
                Some(p) => if p < i {
                    lemma_chain_set(frames, p as int, key, value);
                    let o = chain_set(frames, p as int, key, value);
                    match o {
                        Some(g) => {
                            lemma_chain_set_keeps(frames, p as int, key, value, i);
                        },
                        None => {},
                    }
                },
                None => {},
            },
        }
    }
}

/// What `chain_set` from frame `p` leaves of the frames above `p`.
proof fn lemma_chain_set_keeps(frames: Seq<FrameV>, p: int, key: Seq<char>, value: Val, i: int)
    requires
        p < i < frames.len(),
        chain_set(frames, p, key, value) is Some,
    ensures
        chain_set(frames, p, key, value).unwrap()[i] == frames[i],
    decreases p,
{
    if 0 <= p < frames.len() {
        match assoc_pos(frames[p].vars, key, 0) {
            Some(_) => {},
            None => match frames[p].parent {
                Some(q) => if q < p {
                    lemma_chain_set_keeps(frames, q as int, key, value, i);
                },
                None => {},
            },
        }
    }
}

// ---------------------------------------------------------------------------
// Laws of contexts
// ---------------------------------------------------------------------------

/// A definition is what a lookup of its name then finds, unless the name
/// is one of the core forms, which always take precedence.
pub proof fn law_define_then_get(st: CtxV, key: Seq<char>, value: Val)
    requires
        st.cur < st.frames.len(),
        core_builtin(key) is None,
    ensures
        ctx_get(ctx_define(st, key, value), key) == Some(value),
{
    lemma_put_get_same(st.frames[st.cur as int].vars, key, value);
}

/// Defining one name changes no lookup of another.
pub proof fn law_define_keeps_others(st: CtxV, key: Seq<char>, value: Val, other: Seq<char>)
    requires
        other != key,
    ensures
        ctx_get(ctx_define(st, key, value), other) == ctx_get(st, other),
{
    if st.cur < st.frames.len() {
        lemma_chain_update_other(st.frames, st.cur as int, key, value, st.cur as int, other);
    }
}

/// `set!` of a name that some scope defines succeeds, and a lookup then finds
/// the new value.
pub proof fn law_set_then_get(st: CtxV, key: Seq<char>, value: Val)
    requires
        core_builtin(key) is None,
        chain_get(st.frames, st.cur as int, key) is Some,
    ensures
        ctx_set(st, key, value).1 == Ok::<Val, ErrV>(undefined_val()),
        ctx_get(ctx_set(st, key, value).0, key) == Some(value),
{
    lemma_chain_set(st.frames, st.cur as int, key, value);
}

/// `set!` of a name that no scope defines is an error and changes nothing.
pub proof fn law_set_undefined(st: CtxV, key: Seq<char>, value: Val)
    requires
        chain_get(st.frames, st.cur as int, key) is None,
    ensures
        ctx_set(st, key, value) == (st, Err::<Val, ErrV>(ErrV::UndefinedSymbol(key))),
{
    lemma_chain_set(st.frames, st.cur as int, key, value);
}

/// Entering a scope and leaving it again restores every lookup.
pub proof fn law_pop_push(st: CtxV, key: Seq<char>)
    requires
        st.cur < st.frames.len(),
    ensures
        ctx_get(ctx_pop(ctx_push(st)), key) == ctx_get(st, key),
{
    let pushed = ctx_push(st);
    assert(pushed.frames[pushed.cur as int].parent == Some(st.cur));
    let popped = ctx_pop(pushed);
    assert(popped.cur == st.cur);
    lemma_chain_prefix(st.frames, popped.frames, st.cur as int, key);
}

/// Definitions made in an inner scope are gone once it is left.
pub proof fn law_scoped_define(st: CtxV, key: Seq<char>, value: Val, other: Seq<char>)
    requires
        st.cur < st.frames.len(),
    ensures
        ctx_get(ctx_pop(ctx_define(ctx_push(st), key, value)), other) == ctx_get(st, other),
{
    let pushed = ctx_push(st);
    let defined = ctx_define(pushed, key, value);
    assert(defined.frames[defined.cur as int].parent == Some(st.cur));
    let popped = ctx_pop(defined);
    assert(popped.cur == st.cur);
    assert forall|k: int| 0 <= k < st.frames.len() implies #[trigger] popped.frames[k] == st.frames[k] by {}
    lemma_chain_prefix(st.frames, popped.frames, st.cur as int, other);
}

/// The core forms cannot be redefined: a lookup of one of their names
/// always finds the native procedure.
pub proof fn law_core_precedence(st: CtxV, key: Seq<char>, b: Builtin)
    requires
        core_builtin(key) == Some(b),
    ensures
        ctx_get(st, key) == Some(crate::context::builtin_val(b)),
{
}

/// Defining the name of a core form changes no lookup of it: the core form
/// still takes precedence.
pub proof fn law_define_core_unchanged(st: CtxV, key: Seq<char>, value: Val)
    requires
        core_builtin(key) is Some,
    ensures
        ctx_get(ctx_define(st, key, value), key) == ctx_get(st, key),
{
}

/// A definition in the scopes takes precedence over a language-level
/// definition of the same name.
pub proof fn law_define_overrides_language(st: CtxV, key: Seq<char>, value: Val)
    requires
        st.cur < st.frames.len(),
        core_builtin(key) is None,
        assoc_get(st.lang, key) is Some,
    ensures
        ctx_get(ctx_define(st, key, value), key) == Some(value),
        ctx_get(st, key) is Some,
{
    law_define_then_get(st, key, value);
}

/// Leaving the outermost scope puts an empty outermost scope in its place:
/// a definition made afterwards is found by a lookup.
pub proof fn law_pop_outermost_then_define(st: CtxV, key: Seq<char>, value: Val)
    requires
        st.cur < st.frames.len(),
        st.frames[st.cur as int].parent is None,
        core_builtin(key) is None,
    ensures
        ctx_pop(st).cur < ctx_pop(st).frames.len(),
        ctx_pop(st).frames[ctx_pop(st).cur as int].parent is None,
        ctx_pop(st).frames[ctx_pop(st).cur as int].vars == Seq::<(Seq<char>, Val)>::empty(),
        ctx_get(ctx_define(ctx_pop(st), key, value), key) == Some(value),
{
    law_define_then_get(ctx_pop(st), key, value);
}

/// Leaving the outermost scope clears every definition of the scopes: what
/// a lookup finds afterwards is a core form or a language-level definition.
pub proof fn law_pop_outermost(st: CtxV, key: Seq<char>)
    requires
        st.cur < st.frames.len(),
        st.frames[st.cur as int].parent is None,
    ensures
        ctx_get(ctx_pop(st), key) == match core_builtin(key) {
            Some(b) => Some(crate::context::builtin_val(b)),
            None => assoc_get(st.lang, key),
        },
{
    let p = ctx_pop(st);
    assert(p.frames[p.cur as int].vars == Seq::<(Seq<char>, Val)>::empty());
    assert(assoc_pos(p.frames[p.cur as int].vars, key, 0) is None);
}

// ---------------------------------------------------------------------------
// Laws of evaluation
// ---------------------------------------------------------------------------

proof fn lemma_loop_ok_restores(f: nat, st: CtxV, e: Val)
    ensures
        ev_loop(f, st, e).1 is Ok ==> !ev_loop(f, st, e).2,
    decreases f,
{
    if f > 0 {
        match e {
            Val::Pair(h, t) => {
                let (s1, hr) = ev((f - 1) as nat, st, *h);
                match hr {
                    Ok(Val::Atom(Prim::Procedure(p))) => {
                        let (s2, ar) = if crate::semantics::proc_defers(p) {
                            (s1, Ok(*t))
                        } else {
                            crate::semantics::ev_args((f - 1) as nat, s1, *t)
                        };
                        match ar {
                            Ok(args) => match crate::semantics::apply((f - 1) as nat, s2, p, args) {
                                crate::semantics::Flow::Done(_, _) => {},
                                crate::semantics::Flow::Tail(s3, e2) => {
                                    lemma_loop_ok_restores((f - 1) as nat, s3, e2);
                                },
                            },
                            Err(_) => {},
                        }
                    },
                    _ => {},
                }
            },
            _ => {},
        }
    }
}

/// Evaluation that succeeds leaves the current scope as it found it.
pub proof fn law_eval_keeps_scope(f: nat, st: CtxV, e: Val)
    ensures
        ev(f, st, e).1 is Ok ==> ev(f, st, e).0.cur == st.cur,
{
    if f > 0 {
        lemma_loop_ok_restores((f - 1) as nat, st, e);
    }
}

/// Atoms other than symbols evaluate to themselves and change nothing.
pub proof fn law_self_evaluating(f: nat, st: CtxV, p: Prim)
    requires
        f >= 2,
        !(p is Symbol),
    ensures
        ev(f, st, Val::Atom(p)) == (st, Ok::<Val, ErrV>(Val::Atom(p))),
{
    assert(ev_loop((f - 1) as nat, st, Val::Atom(p)) == (st, Ok::<Val, ErrV>(Val::Atom(p)), false));
}

/// A symbol evaluates to its definition; one without a definition (or
/// defined as undefined) is an error.
pub proof fn law_symbol_lookup(f: nat, st: CtxV, s: Seq<char>)
    requires
        f >= 2,
    ensures
        ev(f, st, Val::Atom(Prim::Symbol(s))) == (st, match ctx_get(st, s) {
            Some(v) => if v == undefined_val() {
                Err(ErrV::UndefinedSymbol(s))
            } else {
                Ok(v)
            },
            None => Err(ErrV::UndefinedSymbol(s)),
        }),
{
    let e = Val::Atom(Prim::Symbol(s));
    assert(ev_loop((f - 1) as nat, st, e).0 == st);
}

/// `quote` gives back its argument unevaluated and changes nothing.
pub proof fn law_quote(f: nat, st: CtxV, x: Val)
    requires
        f >= 4,
    ensures
        ev(f, st, list_of(seq![crate::value::sym_val("quote"@), x])) == (st, Ok::<Val, ErrV>(x)),
{
    let q = crate::value::sym_val("quote"@);
    let args = Val::Pair(Box::new(x), Box::new(Val::Null));
    let e = Val::Pair(Box::new(q), Box::new(args));
    assert(seq![q, x].drop_first() =~= seq![x]);
    assert(seq![x].drop_first() =~= Seq::<Val>::empty());
    assert(list_of(Seq::<Val>::empty()) == Val::Null);
    assert(list_of(seq![x]) == args);
    assert(list_of(seq![q, x]) == e);
    reveal_strlit("eval");
    reveal_strlit("apply");
    reveal_strlit("and");
    reveal_strlit("begin");
    reveal_strlit("case");
    reveal_strlit("cond");
    reveal_strlit("do");
    reveal_strlit("define");
    reveal_strlit("if");
    reveal_strlit("lambda");
    reveal_strlit("let");
    reveal_strlit("named-lambda");
    reveal_strlit("or");
    reveal_strlit("quasiquote");
    reveal_strlit("quote");
    assert("quote"@.len() != "eval"@.len());
    assert("quote"@[0] != "apply"@[0]);
    assert("quote"@.len() != "and"@.len());
    assert("quote"@[0] != "begin"@[0]);
    assert("quote"@.len() != "case"@.len());
    assert("quote"@.len() != "cond"@.len());
    assert("quote"@.len() != "do"@.len());
    assert("quote"@.len() != "define"@.len());
    assert("quote"@.len() != "if"@.len());
    assert("quote"@.len() != "lambda"@.len());
    assert("quote"@.len() != "let"@.len());
    assert("quote"@.len() != "named-lambda"@.len());
    assert("quote"@.len() != "or"@.len());
    assert("quote"@.len() != "quasiquote"@.len());
    assert(core_builtin("quote"@) == Some(Builtin::Quote));
    let g = (f - 1) as nat;
    assert(ev_loop((g - 2) as nat, st, q) == (
        st,
        Ok::<Val, ErrV>(crate::context::builtin_val(Builtin::Quote)),
        false,
    ));
    assert(ev((g - 1) as nat, st, q) == (st, Ok::<Val, ErrV>(crate::context::builtin_val(Builtin::Quote))));
    assert(items(args) =~= seq![x] + items(Val::Null));
    assert(crate::value::list_count(args) == 1);
    let p = crate::value::ProcV {
        func: crate::value::FuncV::Builtin(Builtin::Quote),
        name: Some(crate::context::builtin_name(Builtin::Quote)),
    };
    assert(crate::semantics::arity_error(p, 1) is None);
    assert(crate::semantics::builtin((g - 2) as nat, st, Builtin::Quote, args) == crate::semantics::Flow::Done(
        st,
        Ok::<Val, ErrV>(x),
    ));
    assert(crate::semantics::apply((g - 1) as nat, st, p, args) == crate::semantics::Flow::Done(
        st,
        Ok::<Val, ErrV>(x),
    ));
    assert(ev_loop(g, st, e) == (st, Ok::<Val, ErrV>(x), false));
}

/// `cons` builds a pair whose `car` and `cdr` are its arguments.
pub proof fn law_car_cdr_cons(a: Val, b: Val)
    ensures
        pure_builtin(Builtin::Cons, list_of(seq![a, b])) == Ok::<Val, ErrV>(Val::Pair(Box::new(a), Box::new(b))),
        pure_builtin(Builtin::Car, list_of(seq![Val::Pair(Box::new(a), Box::new(b))])) == Ok::<Val, ErrV>(a),
        pure_builtin(Builtin::Cdr, list_of(seq![Val::Pair(Box::new(a), Box::new(b))])) == Ok::<Val, ErrV>(b),
{
    let p = Val::Pair(Box::new(a), Box::new(b));
    assert(seq![a, b].drop_first() =~= seq![b]);
    assert(seq![b].drop_first() =~= Seq::<Val>::empty());
    assert(seq![p].drop_first() =~= Seq::<Val>::empty());
    assert(list_of(Seq::<Val>::empty()) == Val::Null);
    assert(list_of(seq![b]) == Val::Pair(Box::new(b), Box::new(Val::Null)));
    assert(list_of(seq![a, b]) == Val::Pair(Box::new(a), Box::new(list_of(seq![b]))));
    let l1 = list_of(seq![p]);
    assert(l1 == Val::Pair(Box::new(p), Box::new(Val::Null)));
    assert(items(l1) =~= seq![p] + items(Val::Null));
}

/// Evaluating `(define name expr)` evaluates `expr` and binds `name` to its
/// value in the current scope, where a lookup then finds it; when `expr`
/// fails, so does the definition.
pub proof fn law_define_binds(f: nat, st: CtxV, name: Seq<char>, e: Val)
    requires
        f >= 4,
        st.cur < st.frames.len(),
        core_builtin(name) is None,
    ensures
        ({
            let d = list_of(seq![crate::value::sym_val("define"@), crate::value::sym_val(name), e]);
            let (s1, r) = ev((f - 4) as nat, st, e);
            match r {
                Ok(v) => ev(f, st, d) == (ctx_define(s1, name, v), Ok::<Val, ErrV>(undefined_val()))
                    && ctx_get(ev(f, st, d).0, name) == Some(v),
                Err(x) => ev(f, st, d) == (s1, Err::<Val, ErrV>(x)),
            }
        }),
{
    let dsym = crate::value::sym_val("define"@);
    let nsym = crate::value::sym_val(name);
    let nil = Val::Null;
    let defn = Val::Pair(Box::new(e), Box::new(nil));
    let args = Val::Pair(Box::new(nsym), Box::new(defn));
    let d = Val::Pair(Box::new(dsym), Box::new(args));
    assert(seq![dsym, nsym, e].drop_first() =~= seq![nsym, e]);
    assert(seq![nsym, e].drop_first() =~= seq![e]);
    assert(seq![e].drop_first() =~= Seq::<Val>::empty());
    assert(list_of(Seq::<Val>::empty()) == Val::Null);
    assert(list_of(seq![e]) == defn);
    assert(list_of(seq![nsym, e]) == args);
    assert(list_of(seq![dsym, nsym, e]) == d);
    reveal_strlit("eval");
    reveal_strlit("apply");
    reveal_strlit("and");
    reveal_strlit("begin");
    reveal_strlit("case");
    reveal_strlit("cond");
    reveal_strlit("do");
    reveal_strlit("if");
    reveal_strlit("lambda");
    reveal_strlit("let");
    reveal_strlit("named-lambda");
    reveal_strlit("or");
    reveal_strlit("quasiquote");
    reveal_strlit("quote");
    reveal_strlit("define");
    assert("define"@.len() != "eval"@.len());
    assert("define"@.len() != "apply"@.len());
    assert("define"@.len() != "and"@.len());
    assert("define"@.len() != "begin"@.len());
    assert("define"@.len() != "case"@.len());
    assert("define"@.len() != "cond"@.len());
    assert("define"@.len() != "do"@.len());
    assert("define"@.len() != "if"@.len());
    assert("define"@[0] != "lambda"@[0]);
    assert("define"@.len() != "let"@.len());
    assert("define"@.len() != "named-lambda"@.len());
    assert("define"@.len() != "or"@.len());
    assert("define"@.len() != "quasiquote"@.len());
    assert("define"@.len() != "quote"@.len());
    assert(core_builtin("define"@) == Some(Builtin::Define));
    let g = (f - 1) as nat;
    let bv = crate::context::builtin_val(Builtin::Define);
    assert(ev_loop((g - 2) as nat, st, dsym) == (st, Ok::<Val, ErrV>(bv), false));
    assert(ev((g - 1) as nat, st, dsym) == (st, Ok::<Val, ErrV>(bv)));
    assert(items(defn) =~= seq![e] + items(Val::Null));
    assert(items(args) =~= seq![nsym] + items(defn));
    assert(crate::value::list_count(defn) == 1);
    assert(crate::value::list_count(args) == 2);
    let p = crate::value::ProcV {
        func: crate::value::FuncV::Builtin(Builtin::Define),
        name: Some(crate::context::builtin_name(Builtin::Define)),
    };
    assert(crate::semantics::arity_error(p, 2) is None);
    let (s1, r) = ev((f - 4) as nat, st, e);
    crate::invariants::law_eval_grows((f - 4) as nat, st, e);
    law_eval_keeps_scope((f - 4) as nat, st, e);
    let out = crate::semantics::define_form((f - 4) as nat, st, args);
    match r {
        Ok(v) => {
            assert(out == (ctx_define(s1, name, v), Ok::<Val, ErrV>(undefined_val())));
            law_define_then_get(s1, name, v);
        },
        Err(x) => {
            assert(out == (s1, Err::<Val, ErrV>(x)));
        },
    }
    assert(crate::semantics::builtin((g - 2) as nat, st, Builtin::Define, args) == crate::semantics::Flow::Done(
        out.0,
        out.1,
    ));
    assert(crate::semantics::apply((g - 1) as nat, st, p, args) == crate::semantics::Flow::Done(out.0, out.1));
    assert(ev_loop(g, st, d) == (out.0, out.1, out.1 is Err));
    if r is Ok {
        assert(crate::context::with_cur(out.0, st.cur) == out.0);
    }
}

// ---------------------------------------------------------------------------
// Kinds of values
// ---------------------------------------------------------------------------

/// Whether two values are of the same kind: both the empty list, both
/// pairs, or atoms of the same kind.
pub open spec fn same_kind(a: Val, b: Val) -> bool {
    match (a, b) {
        (Val::Null, Val::Null) => true,
        (Val::Pair(_, _), Val::Pair(_, _)) => true,
        (Val::Atom(p), Val::Atom(q)) => match (p, q) {
            (Prim::Void, Prim::Void) => true,
            (Prim::Undefined, Prim::Undefined) => true,
            (Prim::Boolean(_), Prim::Boolean(_)) => true,
            (Prim::Character(_), Prim::Character(_)) => true,
            (Prim::Number(_), Prim::Number(_)) => true,
            (Prim::Str(_), Prim::Str(_)) => true,
            (Prim::Symbol(_), Prim::Symbol(_)) => true,
            (Prim::Procedure(_), Prim::Procedure(_)) => true,
            (Prim::Vector(_), Prim::Vector(_)) => true,
            _ => false,
        },
        _ => false,
    }
}

/// `type-of` always succeeds, and what it gives depends only on the kind of
/// its argument.
pub proof fn law_type_of_kind(a: Val, b: Val)
    requires
        same_kind(a, b),
    ensures
        pure_builtin(Builtin::TypeOf, list_of(seq![a])) is Ok,
        pure_builtin(Builtin::TypeOf, list_of(seq![a])) == pure_builtin(Builtin::TypeOf, list_of(seq![b])),
{
    crate::value::lemma_items_list_of(seq![a]);
    crate::value::lemma_items_list_of(seq![b]);
}

/// `case` with a key that evaluates to itself runs the body of the first
/// clause one of whose data equals the key.
pub proof fn law_case_runs_first_match(f: nat, st: CtxV, key: Val, clauses: Seq<Val>, c: int, j: int)
    requires
        f >= 3,
        self_evaluating(key),
        0 <= c < clauses.len(),
        clauses[c] is Pair,
        0 <= j < items(*clauses[c]->Pair_0).len(),
        val_equal(items(*clauses[c]->Pair_0)[j], key),
        forall|i: int| 0 <= i < c && clauses[i] is Pair ==> !clause_matches(#[trigger] *clauses[i]->Pair_0, key),
    ensures
        crate::semantics::case_form(f, st, Val::Pair(Box::new(key), Box::new(list_of(clauses))))
            == crate::semantics::defer_body((f - 1) as nat, st, items(*clauses[c]->Pair_1), 0),
{
    law_self_evaluating(f, st, key->Atom_0);
    crate::value::lemma_items_list_of(clauses);
    law_case_first(clauses, key, c, j);
}

/// The position of the first `cond` clause at or after `i` whose test is
/// not `#f` (an `else` clause counts).
pub open spec fn first_taken(xs: Seq<Val>, i: int) -> int
    decreases xs.len() - i,
{
    if i < 0 || i >= xs.len() {
        i
    } else if xs[i] is Pair && *xs[i]->Pair_0 != bool_val(false) {
        i
    } else {
        first_taken(xs, i + 1)
    }
}

/// `cond` whose tests evaluate to themselves runs the body of the first
/// clause whose test is not `#f`, or an `else` clause; with none, it gives
/// void.
pub proof fn law_cond(f: nat, st: CtxV, xs: Seq<Val>, i: int)
    requires
        f >= 2,
        0 <= i <= xs.len(),
        forall|k: int| 0 <= k < xs.len() ==> (#[trigger] xs[k] is Pair) && (self_evaluating(*xs[k]->Pair_0)
            || *xs[k]->Pair_0 == sym_val("else"@)),
    ensures
        first_taken(xs, i) < xs.len() ==> crate::semantics::cond_from(f, st, xs, i) == crate::semantics::defer_body(
            (f - 1) as nat,
            st,
            items(*xs[first_taken(xs, i)]->Pair_1),
            0,
        ),
        first_taken(xs, i) >= xs.len() ==> crate::semantics::cond_from(f, st, xs, i) == crate::semantics::Flow::Done(
            st,
            Ok::<Val, ErrV>(Val::Atom(Prim::Void)),
        ),
    decreases xs.len() - i,
{
    if i < xs.len() {
        assert(xs[i] is Pair);
        let p = *xs[i]->Pair_0;
        if p == sym_val("else"@) {
            assert(val_equal(p, sym_val("else"@)));
            assert(p != bool_val(false));
        } else {
            law_self_evaluating(f, st, p->Atom_0);
            assert(!val_equal(p, sym_val("else"@)));
            law_cond(f, st, xs, i + 1);
        }
    }
}

// ---------------------------------------------------------------------------
// Printed text
// ---------------------------------------------------------------------------

/// The characters that may follow a backslash in an escape sequence.
pub open spec fn is_escape_char(c: char) -> bool {
    c == 'n' || c == 't' || c == '\\' || c == 'r' || c == '0' || c == '"'
}

/// Whether an escape sequence (a backslash and one of the escape
/// characters) starts at position `i` of `s`.
pub open spec fn escape_at(s: Seq<char>, i: int) -> bool {
    0 <= i && i + 1 < s.len() && s[i] == '\\' && is_escape_char(s[i + 1])
}

/// Replacing a pattern by something shorter never lengthens the text; the
/// text comes back unchanged when the pattern does not occur, and shorter
/// when it does.
proof fn lemma_replace_shrinks(s: Seq<char>, i: int, pat: Seq<char>, rep: Seq<char>)
    requires
        0 <= i <= s.len(),
        rep.len() < pat.len(),
    ensures
        replace_from(s, i, pat, rep).len() <= s.len() - i,
        replace_from(s, i, pat, rep) == s.subrange(i, s.len() as int) || replace_from(s, i, pat, rep).len() < s.len()
            - i,
        (forall|j: int| i <= j ==> !#[trigger] occurs_at(s, j, pat)) ==> replace_from(s, i, pat, rep) == s.subrange(
            i,
            s.len() as int,
        ),
        forall|j: int| i <= j && #[trigger] occurs_at(s, j, pat) ==> replace_from(s, i, pat, rep).len() < s.len() - i,
    decreases s.len() - i,
{
    if i >= s.len() {
        assert(s.subrange(i, s.len() as int) =~= Seq::<char>::empty());
    } else if occurs_at(s, i, pat) {
        lemma_replace_shrinks(s, i + pat.len(), pat, rep);
    } else {
        lemma_replace_shrinks(s, i + 1, pat, rep);
        assert(seq![s[i]] + s.subrange(i + 1, s.len() as int) =~= s.subrange(i, s.len() as int));
    }
}

/// One step of the rewriting: a two-character sequence `\c` becomes the
/// single character `r`.
proof fn lemma_unescape_step(s: Seq<char>, c: char, r: char)
    ensures
        replace_all(s, seq!['\\', c], seq![r]).len() <= s.len(),
        replace_all(s, seq!['\\', c], seq![r]) == s || replace_all(s, seq!['\\', c], seq![r]).len() < s.len(),
        (forall|j: int| 0 <= j && j + 1 < s.len() ==> !(#[trigger] s[j] == '\\' && s[j + 1] == c)) ==> replace_all(
            s,
            seq!['\\', c],
            seq![r],
        ) == s,
        forall|j: int|
            0 <= j && j + 1 < s.len() && s[j] == '\\' && #[trigger] s[j + 1] == c ==> replace_all(
                s,
                seq!['\\', c],
                seq![r],
            ).len() < s.len(),
{
    let pat = seq!['\\', c];
    lemma_replace_shrinks(s, 0, pat, seq![r]);
    assert(s.subrange(0, s.len() as int) =~= s);
    assert forall|j: int| 0 <= j && j + 1 < s.len() && s[j] == '\\' && #[trigger] s[j + 1] == c implies occurs_at(
        s,
        j,
        pat,
    ) by {
        assert(s.subrange(j, j + 2) =~= pat);
    }
    if forall|j: int| 0 <= j && j + 1 < s.len() ==> !(#[trigger] s[j] == '\\' && s[j + 1] == c) {
        assert forall|j: int| 0 <= j implies !#[trigger] occurs_at(s, j, pat) by {
            if occurs_at(s, j, pat) {
                assert(s.subrange(j, j + 2)[0] == s[j]);
                assert(s.subrange(j, j + 2)[1] == s[j + 1]);
            }
        }
    }
}

/// Rewriting escape sequences never lengthens text. Text without an escape
/// sequence (a backslash followed by `n`, `t`, `r`, `0`, a backslash or a
/// double quote) comes back unchanged; text with one comes back shorter.
pub proof fn law_unescape_length(s: Seq<char>)
    ensures
        unescape_spec(s).len() <= s.len(),
        (forall|i: int| !#[trigger] escape_at(s, i)) ==> unescape_spec(s) == s,
        (exists|i: int| #[trigger] escape_at(s, i)) ==> unescape_spec(s).len() < s.len(),
{
    let s1 = replace_all(s, seq!['\\', 'n'], seq!['\n']);
    let s2 = replace_all(s1, seq!['\\', 't'], seq!['\t']);
    let s3 = replace_all(s2, seq!['\\', '\\'], seq!['\\']);
    let s4 = replace_all(s3, seq!['\\', 'r'], seq!['\r']);
    let s5 = replace_all(s4, seq!['\\', '0'], seq!['\0']);
    let s6 = replace_all(s5, seq!['\\', '"'], seq!['"']);
    lemma_unescape_step(s, 'n', '\n');
    lemma_unescape_step(s1, 't', '\t');
    lemma_unescape_step(s2, '\\', '\\');
    lemma_unescape_step(s3, 'r', '\r');
    lemma_unescape_step(s4, '0', '\0');
    lemma_unescape_step(s5, '"', '"');
    assert(unescape_spec(s) == s6);
    if forall|i: int| !#[trigger] escape_at(s, i) {
        assert forall|j: int| 0 <= j && j + 1 < s.len() implies !(#[trigger] s[j] == '\\' && is_escape_char(s[j + 1])) by {
            assert(!escape_at(s, j));
        }
    }
    if exists|i: int| #[trigger] escape_at(s, i) {
        let i = choose|i: int| #[trigger] escape_at(s, i);
        if s6.len() == s.len() {
            assert(s1 == s && s2 == s && s3 == s && s4 == s && s5 == s);
            let c = s[i + 1];
            assert(s[i] == '\\');
            assert(s5[i + 1] == c);
            assert(false);
        }
    }
}

// ---------------------------------------------------------------------------
// Comparing numbers
// ---------------------------------------------------------------------------

/// `<`, `>` and `=` compare two integers the usual way: `(< m n)` is true
/// exactly when `m` is strictly below `n`, `(> m n)` exactly when it is
/// strictly above, and `(= m n)` exactly when they are the same number. So
/// `(< n n)` and `(> n n)` are false, `(< m n)` is `(> n m)`, and exactly one
/// of `(< m n)`, `(= m n)`, `(> m n)` holds.
pub proof fn law_numeric_compare(m: int, n: int)
    ensures
        pure_builtin(Builtin::Less, list_of(seq![num_val(m), num_val(n)])) == Ok::<Val, ErrV>(bool_val(m < n)),
        pure_builtin(Builtin::Greater, list_of(seq![num_val(m), num_val(n)])) == Ok::<Val, ErrV>(bool_val(n < m)),
        pure_builtin(Builtin::NumEq, list_of(seq![num_val(m), num_val(n)])) == Ok::<Val, ErrV>(bool_val(m == n)),
        pure_builtin(Builtin::Less, list_of(seq![num_val(m), num_val(n)])) == pure_builtin(
            Builtin::Greater,
            list_of(seq![num_val(n), num_val(m)]),
        ),
        pure_builtin(Builtin::Less, list_of(seq![num_val(n), num_val(n)])) == Ok::<Val, ErrV>(bool_val(false)),
{
    crate::value::lemma_items_list_of(seq![num_val(m), num_val(n)]);
    crate::value::lemma_items_list_of(seq![num_val(n), num_val(m)]);
    crate::value::lemma_items_list_of(seq![num_val(n), num_val(n)]);
}

/// The quotient and remainder rounded toward zero: `x` is `q * d + r`, the
/// remainder is smaller than `d` in size and has the sign of `x` (or is 0).
proof fn lemma_trunc(x: int, d: int)
    requires
        d != 0,
    ensures
        x == crate::numeric::trunc_div(x, d) * d + crate::numeric::trunc_rem(x, d),
        crate::numeric::trunc_rem(x, d) < abs_int(d),
        -abs_int(d) < crate::numeric::trunc_rem(x, d),
        crate::numeric::trunc_rem(x, d) == 0 || (crate::numeric::trunc_rem(x, d) > 0) == (x > 0),
{
    let q = crate::numeric::trunc_div(x, d);
    let r = crate::numeric::trunc_rem(x, d);
    if x == 0 {
    } else if x > 0 && d > 0 {
        vstd::arithmetic::div_mod::lemma_fundamental_div_mod(x, d);
        vstd::arithmetic::div_mod::lemma_mod_bound(x, d);
        assert(d * (x / d) == (x / d) * d) by (nonlinear_arith);
    } else if x < 0 && d < 0 {
        vstd::arithmetic::div_mod::lemma_fundamental_div_mod(x * -1, d * -1);
        vstd::arithmetic::div_mod::lemma_mod_bound(x * -1, d * -1);
        let q0 = (x * -1) / (d * -1);
        let m0 = (x * -1) % (d * -1);
        assert(q == q0);
        assert(r == m0 * -1);
        assert(x * -1 == (d * -1) * q0 + m0);
        assert(x == q0 * d + m0 * -1) by (nonlinear_arith)
            requires
                x * -1 == (d * -1) * q0 + m0,
        ;
    } else if x < 0 {
        vstd::arithmetic::div_mod::lemma_fundamental_div_mod(x * -1, d);
        vstd::arithmetic::div_mod::lemma_mod_bound(x * -1, d);
        let q0 = (x * -1) / d;
        let m0 = (x * -1) % d;
        assert(q == q0 * -1);
        assert(r == m0 * -1);
        assert(x == (q0 * -1) * d + m0 * -1) by (nonlinear_arith)
            requires
                x * -1 == d * q0 + m0,
        ;
    } else {
        vstd::arithmetic::div_mod::lemma_fundamental_div_mod(x, d * -1);
        vstd::arithmetic::div_mod::lemma_mod_bound(x, d * -1);
        let q0 = x / (d * -1);
        let m0 = x % (d * -1);
        assert(q == q0 * -1);
        assert(r == m0);
        assert(x == (q0 * -1) * d + m0) by (nonlinear_arith)
            requires
                x == (d * -1) * q0 + m0,
        ;
    }
}

/// The size of an integer.
pub open spec fn abs_int(n: int) -> int {
    if n < 0 {
        -n
    } else {
        n
    }
}

/// `add1` and `sub1` add and take one, and `abs` gives the size of a
/// number; a result outside the 64-bit range is an `Inexact` error.
pub proof fn law_unary_arithmetic(n: int)
    requires
        in_i64(n),
    ensures
        pure_builtin(Builtin::Add1, list_of(seq![num_val(n)])) == (if in_i64(n + 1) {
            Ok::<Val, ErrV>(num_val(n + 1))
        } else {
            Err(ErrV::Inexact)
        }),
        pure_builtin(Builtin::Sub1, list_of(seq![num_val(n)])) == (if in_i64(n - 1) {
            Ok::<Val, ErrV>(num_val(n - 1))
        } else {
            Err(ErrV::Inexact)
        }),
        n != i64::MIN ==> (pure_builtin(Builtin::Abs, list_of(seq![num_val(n)])) matches Ok(
            Val::Atom(Prim::Number(m)),
        ) && m >= 0 && (m == n || m == -n)),
{
    crate::value::lemma_items_list_of(seq![num_val(n)]);
}

/// `+`, `-` and `*` of two numbers are their sum, difference and product,
/// or an `Inexact` error where that falls outside the 64-bit range; `+` and
/// `*` of no numbers are 0 and 1.
pub proof fn law_binary_arithmetic(a: int, b: int)
    requires
        in_i64(a),
        in_i64(b),
    ensures
        pure_builtin(Builtin::Plus, list_of(seq![num_val(a), num_val(b)])) == (if in_i64(a + b) {
            Ok::<Val, ErrV>(num_val(a + b))
        } else {
            Err(ErrV::Inexact)
        }),
        pure_builtin(Builtin::Minus, list_of(seq![num_val(a), num_val(b)])) == (if in_i64(a - b) {
            Ok::<Val, ErrV>(num_val(a - b))
        } else {
            Err(ErrV::Inexact)
        }),
        pure_builtin(Builtin::Times, list_of(seq![num_val(a), num_val(b)])) == (if in_i64(a * b) {
            Ok::<Val, ErrV>(num_val(a * b))
        } else {
            Err(ErrV::Inexact)
        }),
        pure_builtin(Builtin::Plus, list_of(Seq::<Val>::empty())) == Ok::<Val, ErrV>(num_val(0)),
        pure_builtin(Builtin::Times, list_of(Seq::<Val>::empty())) == Ok::<Val, ErrV>(num_val(1)),
{
    let xs = seq![num_val(a), num_val(b)];
    crate::value::lemma_items_list_of(xs);
    crate::value::lemma_items_list_of(Seq::<Val>::empty());
    assert(1 * a == a);
    let b0 = Builtin::Plus;
    assert(crate::semantics::fold_numeric(b0, Ok(num_val(0)), xs, 0) == crate::semantics::fold_numeric(
        b0,
        Ok(num_val(a)),
        xs,
        1,
    ));
    let b1 = Builtin::Times;
    assert(crate::semantics::fold_numeric(b1, Ok(num_val(1)), xs, 0) == crate::semantics::fold_numeric(
        b1,
        Ok(num_val(a)),
        xs,
        1,
    ));
    let b2 = Builtin::Minus;
    assert(crate::semantics::fold_numeric(b2, Ok(num_val(a)), xs, 1) == crate::semantics::fold_numeric(
        b2,
        crate::semantics::fold_step(b2, a, b),
        xs,
        2,
    ));
    assert(crate::semantics::fold_numeric(b0, Ok(num_val(a)), xs, 1) == crate::semantics::fold_numeric(
        b0,
        crate::semantics::fold_step(b0, a, b),
        xs,
        2,
    ));
    assert(crate::semantics::fold_numeric(b1, Ok(num_val(a)), xs, 1) == crate::semantics::fold_numeric(
        b1,
        crate::semantics::fold_step(b1, a, b),
        xs,
        2,
    ));
}

/// `remainder` of `a` by a non-zero `b` is `a` less a multiple of `b`,
/// smaller than `b` in size, with the sign of `a` (or 0). `/` of `a` by a
/// `b` that divides it is the quotient `q` with `q * b == a`, and whenever
/// `/` gives a number, that number times `b` is `a`.
pub proof fn law_division(a: int, b: int, q: int)
    requires
        in_i64(a),
        in_i64(b),
    ensures
        b != 0 && !(a == i64::MIN && b == -1) ==> (pure_builtin(
            Builtin::Remainder,
            list_of(seq![num_val(a), num_val(b)]),
        ) matches Ok(Val::Atom(Prim::Number(r))) && -abs_int(b) < r < abs_int(b) && (a - r) % abs_int(b) == 0 && (r
            == 0 || (r > 0) == (a > 0))),
        b != 0 && a == q * b && !(a == i64::MIN && b == -1) ==> pure_builtin(
            Builtin::Divide,
            list_of(seq![num_val(a), num_val(b)]),
        ) == Ok::<Val, ErrV>(num_val(q)),
        pure_builtin(Builtin::Divide, list_of(seq![num_val(a), num_val(b)])) matches Ok(Val::Atom(Prim::Number(q2)))
            ==> q2 * b == a,
{
    let xs = seq![num_val(a), num_val(b)];
    crate::value::lemma_items_list_of(xs);
    let bd = Builtin::Divide;
    assert(crate::semantics::fold_numeric(bd, Ok(num_val(a)), xs, 1) == crate::semantics::fold_numeric(
        bd,
        crate::semantics::fold_step(bd, a, b),
        xs,
        2,
    ));
    if b != 0 {
        lemma_trunc(a, b);
        let t = crate::numeric::trunc_div(a, b);
        let r = crate::numeric::trunc_rem(a, b);
        let m = abs_int(b);
        let tt = if b < 0 { -t } else { t };
        assert(a - r == tt * m) by (nonlinear_arith)
            requires
                a == t * b + r,
                m == abs_int(b),
                tt == (if b < 0 { -t } else { t }),
        ;
        vstd::arithmetic::div_mod::lemma_mod_multiples_basic(tt, m);
        if a == q * b {
            assert(r == (q - t) * b) by (nonlinear_arith)
                requires
                    a == t * b + r,
                    a == q * b,
            ;
            assert(r == 0) by (nonlinear_arith)
                requires
                    r == (q - t) * b,
                    -abs_int(b) < r < abs_int(b),
                    b != 0,
            ;
            assert(t == q) by (nonlinear_arith)
                requires
                    t * b == q * b,
                    b != 0,
            ;
        }
    }
}

/// `pow` of `a` and an exponent `e` is `a` multiplied by itself `e` times:
/// 1 for the exponent 0, and `a` times `(pow a (- e 1))` otherwise, or an
/// `Inexact` error where that falls outside the 64-bit range.
pub proof fn law_pow(a: int, e: int)
    requires
        in_i64(a),
        0 <= e <= u32::MAX,
    ensures
        pure_builtin(Builtin::Pow, list_of(seq![num_val(a), num_val(0)])) == Ok::<Val, ErrV>(num_val(1)),
        pure_builtin(Builtin::Pow, list_of(seq![num_val(a), num_val(1)])) == Ok::<Val, ErrV>(num_val(a)),
        e > 0 ==> (pure_builtin(Builtin::Pow, list_of(seq![num_val(a), num_val(e)])) matches Ok(
            Val::Atom(Prim::Number(p)),
        ) ==> (pure_builtin(Builtin::Pow, list_of(seq![num_val(a), num_val(e - 1)])) matches Ok(
            Val::Atom(Prim::Number(p0)),
        ) ==> p == a * p0)),
{
    crate::value::lemma_items_list_of(seq![num_val(a), num_val(0)]);
    crate::value::lemma_items_list_of(seq![num_val(a), num_val(1)]);
    crate::value::lemma_items_list_of(seq![num_val(a), num_val(e)]);
    crate::value::lemma_items_list_of(seq![num_val(a), num_val(e - 1)]);
    assert((0int as u32) as nat == 0);
    assert((1int as u32) as nat == 1);
    assert((e as u32) as nat == e);
    vstd::arithmetic::power::lemma_pow0(a);
    vstd::arithmetic::power::lemma_pow1(a);
    if e > 0 {
        assert(((e - 1) as u32) as nat == e - 1);
        vstd::arithmetic::power::lemma_pow_adds(a, (e - 1) as nat, 1);
        assert(vstd::arithmetic::power::pow(a, e as nat) == vstd::arithmetic::power::pow(a, (e - 1) as nat) * a);
        let p0 = vstd::arithmetic::power::pow(a, (e - 1) as nat);
        assert(p0 * a == a * p0) by (nonlinear_arith);
    }
}

// ---------------------------------------------------------------------------
// Vectors
// ---------------------------------------------------------------------------

/// `vector-ref` at an index below the length gives the element at that
/// index, counted from the front; after the element at `k` is replaced by
/// `x`, `vector-ref` at `k` gives `x` and at every other index what it gave
/// before. An index at or past the end is an `Index` error.
pub proof fn law_vector_ref(s: Seq<Val>, k: int, x: Val, j: int)
    requires
        s.len() <= usize::MAX,
        0 <= k < s.len(),
        0 <= j <= usize::MAX,
        j != k,
    ensures
        pure_builtin(Builtin::VectorRef, list_of(seq![Val::Atom(Prim::Vector(s)), num_val(k)])) == Ok::<Val, ErrV>(
            s[k],
        ),
        pure_builtin(Builtin::VectorRef, list_of(seq![Val::Atom(Prim::Vector(s.update(k, x))), num_val(k)]))
            == Ok::<Val, ErrV>(x),
        pure_builtin(Builtin::VectorRef, list_of(seq![Val::Atom(Prim::Vector(s.update(k, x))), num_val(j)]))
            == pure_builtin(Builtin::VectorRef, list_of(seq![Val::Atom(Prim::Vector(s)), num_val(j)])),
        j >= s.len() ==> pure_builtin(Builtin::VectorRef, list_of(seq![Val::Atom(Prim::Vector(s)), num_val(j)]))
            == Err::<Val, ErrV>(ErrV::Index(j as nat)),
{
    let v = Val::Atom(Prim::Vector(s));
    let w = Val::Atom(Prim::Vector(s.update(k, x)));
    crate::value::lemma_items_list_of(seq![v, num_val(k)]);
    crate::value::lemma_items_list_of(seq![w, num_val(k)]);
    crate::value::lemma_items_list_of(seq![v, num_val(j)]);
    crate::value::lemma_items_list_of(seq![w, num_val(j)]);
    assert((k as usize) as nat == k);
    assert((j as usize) as nat == j);
}

/// After `(vector-set! v i x)` succeeds, `v` names a vector of the same
/// length as before, whose element at the index is the new element (so
/// `vector-ref` there gives it) and whose other elements are unchanged.
pub proof fn law_vector_set_then_ref(f: nat, st: CtxV, name: Seq<char>, ie: Val, xe: Val)
    ensures
        ({
            let args = Val::Pair(
                Box::new(sym_val(name)),
                Box::new(Val::Pair(Box::new(ie), Box::new(Val::Pair(Box::new(xe), Box::new(Val::Null))))),
            );
            let out = vector_set_form(f, st, args);
            let (s1, r1) = ev(f, st, ie);
            let (s2, r2) = ev(f, s1, xe);
            out.1 is Ok ==> match (r1, r2, ctx_get(s1, name), ctx_get(out.0, name)) {
                (
                    Ok(Val::Atom(Prim::Number(n))),
                    Ok(x),
                    Some(Val::Atom(Prim::Vector(before))),
                    Some(Val::Atom(Prim::Vector(after))),
                ) => {
                    let k = (n as usize) as int;
                    &&& after.len() == before.len()
                    &&& 0 <= k < after.len()
                    &&& after[k] == x
                    &&& forall|i: int| 0 <= i < after.len() && i != k ==> #[trigger] after[i] == before[i]
                    &&& pure_builtin(Builtin::VectorRef, list_of(seq![Val::Atom(Prim::Vector(after)), num_val(n)]))
                        == Ok::<Val, ErrV>(x)
                },
                _ => false,
            }
        }),
{
    let args = Val::Pair(
        Box::new(sym_val(name)),
        Box::new(Val::Pair(Box::new(ie), Box::new(Val::Pair(Box::new(xe), Box::new(Val::Null))))),
    );
    let out = vector_set_form(f, st, args);
    let (s1, r1) = ev(f, st, ie);
    let (s2, r2) = ev(f, s1, xe);
    if out.1 is Ok {
        match r1 {
            Ok(Val::Atom(Prim::Number(n))) => match ctx_get(s1, name) {
                Some(Val::Atom(Prim::Vector(vs))) => match r2 {
                    Ok(x) => {
                        let k = (n as usize) as nat;
                        let w = vs.update(k as int, x);
                        if core_builtin(name) is Some {
                            assert(false);
                        }
                        if chain_get(s2.frames, s2.cur as int, name) is None {
                            law_set_undefined(s2, name, Val::Atom(Prim::Vector(w)));
                        }
                        law_set_then_get(s2, name, Val::Atom(Prim::Vector(w)));
                        assert(out.0 == ctx_set(s2, name, Val::Atom(Prim::Vector(w))).0);
                        crate::value::lemma_items_list_of(seq![Val::Atom(Prim::Vector(w)), num_val(n)]);
                    },
                    _ => {},
                },
                _ => {},
            },
            _ => {},
        }
    }
}

/// `make-vector` of a length `n` and a fill `x` is a vector of `n`
/// elements, each `x`, and `vector-length` gives back `n`.
pub proof fn law_make_vector(n: int, x: Val, i: int)
    requires
        0 <= n <= i64::MAX,
        0 <= i < n,
    ensures
        pure_builtin(Builtin::MakeVector, list_of(seq![num_val(n), x])) matches Ok(Val::Atom(Prim::Vector(v))) && v.len()
            == n && v[i] == x && pure_builtin(Builtin::VectorLength, list_of(seq![Val::Atom(Prim::Vector(v))]))
            == Ok::<Val, ErrV>(num_val(n)),
{
    crate::value::lemma_items_list_of(seq![num_val(n), x]);
    let v = Seq::new(n as nat, |k: int| x);
    crate::value::lemma_items_list_of(seq![Val::Atom(Prim::Vector(v))]);
    let args = list_of(seq![num_val(n), x]);
    assert(seq![num_val(n), x].drop_first() =~= seq![x]);
    assert(seq![x].drop_first() =~= Seq::<Val>::empty());
    assert(list_of(Seq::<Val>::empty()) == Val::Null);
    assert(list_of(seq![x]) == Val::Pair(Box::new(x), Box::new(list_of(Seq::<Val>::empty()))));
    assert(list_of(seq![num_val(n), x]) == Val::Pair(Box::new(num_val(n)), Box::new(list_of(seq![x]))));
    assert(args == Val::Pair(Box::new(num_val(n)), Box::new(Val::Pair(Box::new(x), Box::new(Val::Null)))));
    assert(crate::semantics::make_vector(args) == Ok::<Val, ErrV>(Val::Atom(Prim::Vector(v))));
}

/// `vector-head` and `vector-tail` at an index below the length split the
/// vector there: the head has that many elements, and the head followed by
/// the tail is the vector. `subvector` from `a` to `b` holds, at each
/// position `i`, the element at `a + i`.
pub proof fn law_vector_parts(s: Seq<Val>, k: int, a: int, b: int, i: int)
    requires
        s.len() <= usize::MAX,
        0 <= k < s.len(),
        0 <= a <= b < s.len(),
        0 <= i < b - a,
    ensures
        pure_builtin(Builtin::VectorHead, list_of(seq![Val::Atom(Prim::Vector(s)), num_val(k)])) matches Ok(
            Val::Atom(Prim::Vector(h)),
        ) && pure_builtin(Builtin::VectorTail, list_of(seq![Val::Atom(Prim::Vector(s)), num_val(k)])) matches Ok(
            Val::Atom(Prim::Vector(t)),
        ) && h.len() == k && h + t == s,
        pure_builtin(Builtin::Subvector, list_of(seq![Val::Atom(Prim::Vector(s)), num_val(a), num_val(b)])) matches Ok(
            Val::Atom(Prim::Vector(w)),
        ) && w.len() == b - a && w[i] == s[a + i],
{
    let v = Val::Atom(Prim::Vector(s));
    crate::value::lemma_items_list_of(seq![v, num_val(k)]);
    crate::value::lemma_items_list_of(seq![v, num_val(a), num_val(b)]);
    assert((k as usize) as nat == k);
    assert((a as usize) as nat == a);
    assert((b as usize) as nat == b);
    assert(s.subrange(0, k) + s.subrange(k, s.len() as int) =~= s);
}

// ---------------------------------------------------------------------------
// Conditionals
// ---------------------------------------------------------------------------

/// `if` goes on with its second argument when the test's value is anything
/// but `#f`, and with its third when it is `#f`, in the context the test
/// left; a test that fails is the error.
pub proof fn law_if(f: nat, st: CtxV, c: Val, a: Val, b: Val)
    ensures
        ({
            let (s1, r) = ev(f, st, c);
            let out = crate::semantics::if_form(f, st, list_of(seq![c, a, b]));
            match r {
                Ok(v) => out == crate::semantics::Flow::Tail(s1, if v == bool_val(false) { b } else { a }),
                Err(e) => out == crate::semantics::Flow::Done(s1, Err::<Val, ErrV>(e)),
            }
        }),
{
    assert(seq![c, a, b].drop_first() =~= seq![a, b]);
    assert(seq![a, b].drop_first() =~= seq![b]);
    assert(seq![b].drop_first() =~= Seq::<Val>::empty());
    assert(list_of(Seq::<Val>::empty()) == Val::Null);
    assert(list_of(seq![b]) == Val::Pair(Box::new(b), Box::new(Val::Null)));
    assert(list_of(seq![a, b]) == Val::Pair(Box::new(a), Box::new(list_of(seq![b]))));
    assert(list_of(seq![c, a, b]) == Val::Pair(Box::new(c), Box::new(list_of(seq![a, b]))));
}

/// Whether a value evaluates to itself: an atom that is not a symbol.
pub open spec fn self_evaluating(v: Val) -> bool {
    v is Atom && !(v->Atom_0 is Symbol)
}

/// `and` of values that evaluate to themselves: `#f` if one of them is `#f`
/// (the first such stops the evaluation), otherwise the last one, or `#t`
/// when there is none. `or`: the first that is not `#f`, or `#f` when all
/// are.
pub proof fn law_and_or(f: nat, st: CtxV, xs: Seq<Val>, i: int)
    requires
        f >= 2,
        0 <= i <= xs.len(),
        forall|k: int| 0 <= k < xs.len() ==> self_evaluating(#[trigger] xs[k]),
    ensures
        crate::semantics::and_from(f, st, xs, i, bool_val(true)) == (st, Ok::<Val, ErrV>(
            if exists|k: int| i <= k < xs.len() && #[trigger] xs[k] == bool_val(false) {
                bool_val(false)
            } else if i == xs.len() {
                bool_val(true)
            } else {
                xs[xs.len() - 1]
            },
        )),
        crate::semantics::or_from(f, st, xs, i) == (st, Ok::<Val, ErrV>(
            if exists|k: int| i <= k < xs.len() && #[trigger] xs[k] != bool_val(false) {
                xs[first_true(xs, i)]
            } else {
                bool_val(false)
            },
        )),
    decreases xs.len() - i,
{
    if i < xs.len() {
        assert(self_evaluating(xs[i]));
        law_self_evaluating(f, st, xs[i]->Atom_0);
        law_and_or(f, st, xs, i + 1);
        lemma_and_state(f, st, xs, i + 1, xs[i]);
        if xs[i] != bool_val(false) {
            assert(first_true(xs, i) == i);
        } else {
            assert(first_true(xs, i) == first_true(xs, i + 1));
            if exists|k: int| i + 1 <= k < xs.len() && #[trigger] xs[k] != bool_val(false) {
            } else {
                assert forall|k: int| i <= k < xs.len() implies #[trigger] xs[k] == bool_val(false) by {
                    if k > i {
                        assert(!(i + 1 <= k < xs.len() && xs[k] != bool_val(false)));
                    }
                }
            }
        }
        if exists|k: int| i <= k < xs.len() && #[trigger] xs[k] == bool_val(false) {
            if xs[i] != bool_val(false) {
                let k = choose|k: int| i <= k < xs.len() && #[trigger] xs[k] == bool_val(false);
                assert(i + 1 <= k < xs.len() && xs[k] == bool_val(false));
            }
        } else {
            if i + 1 < xs.len() {
                assert(!(exists|k: int| i + 1 <= k < xs.len() && #[trigger] xs[k] == bool_val(false)));
            }
        }
    }
}

/// The position of the first value at or after `i` that is not `#f`.
pub open spec fn first_true(xs: Seq<Val>, i: int) -> int
    decreases xs.len() - i,
{
    if i < 0 || i >= xs.len() {
        i
    } else if xs[i] != bool_val(false) {
        i
    } else {
        first_true(xs, i + 1)
    }
}

/// Which value `and` carries along does not change its result once there
/// is a value after it.
proof fn lemma_and_state(f: nat, st: CtxV, xs: Seq<Val>, i: int, state: Val)
    requires
        f >= 2,
        0 <= i <= xs.len(),
        forall|k: int| 0 <= k < xs.len() ==> self_evaluating(#[trigger] xs[k]),
    ensures
        i < xs.len() ==> crate::semantics::and_from(f, st, xs, i, state) == crate::semantics::and_from(
            f,
            st,
            xs,
            i,
            bool_val(true),
        ),
        i == xs.len() ==> crate::semantics::and_from(f, st, xs, i, state) == (st, Ok::<Val, ErrV>(state)),
{
    if i < xs.len() {
        assert(self_evaluating(xs[i]));
        law_self_evaluating(f, st, xs[i]->Atom_0);
    }
}

// ---------------------------------------------------------------------------
// `case`
// ---------------------------------------------------------------------------

/// A `case` clause is chosen for a key when one of its data, at any
/// position, equals the key; `else` matches every key; a clause none of
/// whose data equals the key, and that is not `else`, is not chosen.
pub proof fn law_case_clause(objs: Val, key: Val, j: int)
    ensures
        0 <= j < items(objs).len() && val_equal(items(objs)[j], key) ==> clause_matches(objs, key),
        val_equal(objs, sym_val("else"@)) ==> clause_matches(objs, key),
        !val_equal(objs, sym_val("else"@)) && (forall|i: int|
            0 <= i < items(objs).len() ==> !val_equal(#[trigger] items(objs)[i], key)) ==> !clause_matches(objs, key),
{
}

/// `case` takes the body of the first clause chosen for the key: clauses
/// before it are passed over, and a chosen clause wins over every later one.
pub proof fn law_case_first(clauses: Seq<Val>, key: Val, c: int, j: int)
    requires
        0 <= c < clauses.len(),
        clauses[c] is Pair,
        0 <= j < items(*clauses[c]->Pair_0).len(),
        val_equal(items(*clauses[c]->Pair_0)[j], key),
        forall|i: int| 0 <= i < c && clauses[i] is Pair ==> !clause_matches(#[trigger] *clauses[i]->Pair_0, key),
    ensures
        find_clause(clauses, key, 0) == Some(*clauses[c]->Pair_1),
{
    law_case_clause(*clauses[c]->Pair_0, key, j);
    lemma_find_clause_skips(clauses, key, 0, c);
}

proof fn lemma_find_clause_skips(clauses: Seq<Val>, key: Val, i: int, c: int)
    requires
        0 <= i <= c < clauses.len(),
        clauses[c] is Pair,
        clause_matches(*clauses[c]->Pair_0, key),
        forall|k: int| 0 <= k < c && clauses[k] is Pair ==> !clause_matches(#[trigger] *clauses[k]->Pair_0, key),
    ensures
        find_clause(clauses, key, i) == Some(*clauses[c]->Pair_1),
    decreases c - i,
{
    if i < c {
        lemma_find_clause_skips(clauses, key, i + 1, c);
    }
}

} // verus!
