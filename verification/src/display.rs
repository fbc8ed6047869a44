//! How values are printed: the `display` form ([`show_spec`]) and the
//! `write` form ([`debug_spec`]).
use vstd::prelude::*;

use crate::text::{int_text, int_to_chars, push_all, push_str, str_eq, string_from_chars};
use crate::value::{
    lemma_size_seq, lemma_view_seq, sexp_size, size_seq, sym_val, view_seq, Prim, Primitive, SExp,
    Val,
};

verus! {

/// The printed form of an atom.
pub open spec fn show_prim(p: Prim) -> Seq<char>
    decreases p,
{
    match p {
        Prim::Void => seq![],
        Prim::Undefined => seq![],
        Prim::Boolean(b) => if b { "#t"@ } else { "#f"@ },
        Prim::Character(c) => seq![c],
        Prim::Number(n) => int_text(n),
        Prim::Str(s) => s,
        Prim::Symbol(s) => s,
        Prim::Procedure(_) => "#<procedure>"@,
        Prim::Vector(s) => "#("@ + show_join(s) + ")"@,
    }
}

/// The printed forms of the elements, separated by single spaces.
pub open spec fn show_join(s: Seq<Val>) -> Seq<char>
    decreases s,
{
    if s.len() == 0 {
        seq![]
    } else if s.len() == 1 {
        show_spec(s[0])
    } else {
        show_join(s.drop_last()) + " "@ + show_spec(s[s.len() - 1])
    }
}

/// The printed forms of the elements that iterating over `t` yields, each
/// preceded by a space.
pub open spec fn show_rest(t: Val) -> Seq<char>
    decreases t,
{
    match t {
        Val::Null => seq![],
        Val::Atom(a) => " "@ + show_prim(a),
        Val::Pair(h, t2) => " "@ + show_spec(*h) + show_rest(*t2),
    }
}

/// The printed (`display`) form of a value: `()` for the null list,
/// `'x` for `(quote x)`, `(a b c)` for lists and `(a . b)` for a pair whose
/// tail is an atom.
pub open spec fn show_spec(v: Val) -> Seq<char>
    decreases v,
{
    match v {
        Val::Null => "()"@,
        Val::Atom(p) => show_prim(p),
        Val::Pair(h, t) => if *h == sym_val("quote"@) {
            match *t {
                Val::Pair(h2, t2) => if *t2 == Val::Null {
                    "'"@ + show_spec(*h2)
                } else {
                    "'"@ + show_spec(*t)
                },
                _ => "'"@ + show_spec(*t),
            }
        } else {
            match *t {
                Val::Atom(a) => "("@ + show_spec(*h) + " . "@ + show_prim(a) + ")"@,
                _ => "("@ + show_spec(*h) + show_rest(*t) + ")"@,
            }
        },
    }
}

/// The `write` form of an atom.
pub open spec fn debug_prim(p: Prim) -> Seq<char>
    decreases p,
{
    match p {
        Prim::Void => "#<void>"@,
        Prim::Undefined => "#<undefined>"@,
        Prim::Boolean(b) => if b { "#t"@ } else { "#f"@ },
        Prim::Character(c) => "#\\"@ + seq![c],
        Prim::Number(n) => int_text(n),
        Prim::Str(s) => "\""@ + s + "\""@,
        Prim::Symbol(s) => s,
        Prim::Procedure(_) => "#<procedure>"@,
        Prim::Vector(s) => "#("@ + debug_join(s) + ")"@,
    }
}

/// The `write` forms of the elements, separated by single spaces.
pub open spec fn debug_join(s: Seq<Val>) -> Seq<char>
    decreases s,
{
    if s.len() == 0 {
        seq![]
    } else if s.len() == 1 {
        debug_spec(s[0])
    } else {
        debug_join(s.drop_last()) + " "@ + debug_spec(s[s.len() - 1])
    }
}

/// The `write` form of a value: the structure of the S-expression spelled
/// out (`Null`, `Atom(..)`, `Pair { head: .., tail: .. }`).
pub open spec fn debug_spec(v: Val) -> Seq<char>
    decreases v,
{
    match v {
        Val::Null => "Null"@,
        Val::Atom(p) => "Atom("@ + debug_prim(p) + ")"@,
        Val::Pair(h, t) => "Pair { head: "@ + debug_spec(*h) + ", tail: "@ + debug_spec(*t) + " }"@,
    }
}

fn lit(out: &mut Vec<char>, s: &str)
    ensures
        final(out)@ == old(out)@ + s@,
{
    push_str(out, s);
}

fn show_prim_into(p: &Primitive, out: &mut Vec<char>)
    ensures
        final(out)@ == old(out)@ + show_prim(p@->Atom_0),
    decreases sexp_size(SExp::Atom(*p)), 0nat,
{
    match p {
        Primitive::Void => {
            assert(out@ =~= out@ + Seq::<char>::empty());
        },
        Primitive::Undefined => {
            assert(out@ =~= out@ + Seq::<char>::empty());
        },
        Primitive::Boolean(b) => {
            if *b {
                lit(out, "#t");
            } else {
                lit(out, "#f");
            }
        },
        Primitive::Character(c) => {
            out.push(*c);
            assert(out@ =~= old(out)@ + seq![*c]);
        },
        Primitive::Number(n) => {
            let t = int_to_chars(*n);
            push_all(out, t.as_slice());
        },
        Primitive::String(s) => {
            push_str(out, s.as_str());
        },
        Primitive::Symbol(s) => {
            push_str(out, s.as_str());
        },
        Primitive::Procedure(_) => {
            lit(out, "#<procedure>");
        },
        Primitive::Vector(v) => {
            lit(out, "#(");
            let ghost start = out@;
            let mut i: usize = 0;
            proof {
                lemma_view_seq(v@);
                assert(view_seq(v@).subrange(0, 0) =~= Seq::<Val>::empty());
                assert(out@ =~= start + show_join(view_seq(v@).subrange(0, 0)));
            }
            while i < v.len()
                invariant
                    i <= v.len(),
                    sexp_size(SExp::Atom(*p)) > size_seq(v@),
                    view_seq(v@).len() == v@.len(),
                    forall|j: int| 0 <= j < v@.len() ==> #[trigger] view_seq(v@)[j] == v@[j]@,
                    out@ == start + show_join(view_seq(v@).subrange(0, i as int)),
                decreases v.len() - i,
            {
                proof {
                    lemma_size_seq(v@, i as int);
                }
                let ghost prev = out@;
                if i > 0 {
                    lit(out, " ");
                }
                show_into(&v[i], out);
                i += 1;
                proof {
                    let s = view_seq(v@).subrange(0, i as int);
                    assert(s.drop_last() =~= view_seq(v@).subrange(0, i - 1));
                    assert(s[s.len() - 1] == v@[i - 1]@);
                    if i > 1 {
                        assert(out@ =~= start + show_join(s));
                    } else {
                        assert(out@ =~= start + show_join(s));
                    }
                }
            }
            lit(out, ")");
            proof {
                assert(view_seq(v@).subrange(0, v@.len() as int) =~= view_seq(v@));
                assert(out@ =~= old(out)@ + show_prim(p@->Atom_0));
            }
        },
    }
}

fn show_rest_into(t: &SExp, out: &mut Vec<char>)
    ensures
        final(out)@ == old(out)@ + show_rest(t@),
    decreases sexp_size(*t), 1nat,
{
    match t {
        SExp::Null => {
            assert(out@ =~= out@ + Seq::<char>::empty());
        },
        SExp::Atom(a) => {
            lit(out, " ");
            show_prim_into(a, out);
            assert(out@ =~= old(out)@ + show_rest(t@));
        },
        SExp::Pair { head, tail } => {
            lit(out, " ");
            show_into(head, out);
            show_rest_into(tail, out);
            assert(out@ =~= old(out)@ + show_rest(t@));
        },
    }
}

fn is_quote_symbol(e: &SExp) -> (r: bool)
    ensures
        r == (e@ == sym_val("quote"@)),
{
    match e {
        SExp::Atom(Primitive::Symbol(s)) => str_eq(s.as_str(), "quote"),
        _ => false,
    }
}

/// Appends the printed form of `e` to `out`.
pub fn show_into(e: &SExp, out: &mut Vec<char>)
    ensures
        final(out)@ == old(out)@ + show_spec(e@),
    decreases sexp_size(*e), 2nat,
{
    match e {
        SExp::Null => {
            lit(out, "()");
        },
        SExp::Atom(p) => {
            show_prim_into(p, out);
        },
        SExp::Pair { head, tail } => {
            if is_quote_symbol(head) {
                let ghost pre = out@;
                lit(out, "'");
                assert(show_spec(e@) == "'"@ + match tail@ {
                    Val::Pair(h2, t2) => if *t2 == Val::Null { show_spec(*h2) } else { show_spec(tail@) },
                    _ => show_spec(tail@),
                });
                match &**tail {
                    SExp::Pair { head: h2, tail: t2 } => {
                        assert(sexp_size(**h2) < sexp_size(**tail));
                        if t2.is_null() {
                            show_into(h2, out);
                        } else {
                            show_into(tail, out);
                        }
                    },
                    _ => {
                        show_into(tail, out);
                    },
                }
                assert(out@ =~= old(out)@ + show_spec(e@));
            } else {
                lit(out, "(");
                show_into(head, out);
                match &**tail {
                    SExp::Atom(a) => {
                        lit(out, " . ");
                        show_prim_into(a, out);
                    },
                    _ => {
                        show_rest_into(tail, out);
                    },
                }
                lit(out, ")");
                assert(out@ =~= old(out)@ + show_spec(e@));
            }
        },
    }
}

/// The printed (`display`) form of an S-expression.
pub fn show_chars(e: &SExp) -> (r: Vec<char>)
    ensures
        r@ == show_spec(e@),
{
    let mut out: Vec<char> = Vec::new();
    show_into(e, &mut out);
    assert(out@ =~= show_spec(e@));
    out
}

/// The printed (`display`) form of an S-expression, as a `String`.
pub fn show(e: &SExp) -> (r: String)
    ensures
        r@ == show_spec(e@),
{
    string_from_chars(show_chars(e).as_slice())
}

fn debug_prim_into(p: &Primitive, out: &mut Vec<char>)
    ensures
        final(out)@ == old(out)@ + debug_prim(p@->Atom_0),
    decreases sexp_size(SExp::Atom(*p)), 0nat,
{
    match p {
        Primitive::Void => lit(out, "#<void>"),
        Primitive::Undefined => lit(out, "#<undefined>"),
        Primitive::Boolean(b) => {
            if *b {
                lit(out, "#t");
            } else {
                lit(out, "#f");
            }
        },
        Primitive::Character(c) => {
            lit(out, "#\\");
            out.push(*c);
            assert(out@ =~= old(out)@ + debug_prim(p@->Atom_0));
        },
        Primitive::Number(n) => {
            let t = int_to_chars(*n);
            push_all(out, t.as_slice());
        },
        Primitive::String(s) => {
            lit(out, "\"");
            push_str(out, s.as_str());
            lit(out, "\"");
            assert(out@ =~= old(out)@ + debug_prim(p@->Atom_0));
        },
        Primitive::Symbol(s) => {
            push_str(out, s.as_str());
        },
        Primitive::Procedure(_) => {
            lit(out, "#<procedure>");
        },
        Primitive::Vector(v) => {
            lit(out, "#(");
            let ghost start = out@;
            let mut i: usize = 0;
            proof {
                lemma_view_seq(v@);
                assert(view_seq(v@).subrange(0, 0) =~= Seq::<Val>::empty());
                assert(out@ =~= start + debug_join(view_seq(v@).subrange(0, 0)));
            }
            while i < v.len()
                invariant
                    i <= v.len(),
                    sexp_size(SExp::Atom(*p)) > size_seq(v@),
                    view_seq(v@).len() == v@.len(),
                    forall|j: int| 0 <= j < v@.len() ==> #[trigger] view_seq(v@)[j] == v@[j]@,
                    out@ == start + debug_join(view_seq(v@).subrange(0, i as int)),
                decreases v.len() - i,
            {
                proof {
                    lemma_size_seq(v@, i as int);
                }
                if i > 0 {
                    lit(out, " ");
                }
                debug_into(&v[i], out);
                i += 1;
                proof {
                    let s = view_seq(v@).subrange(0, i as int);
                    assert(s.drop_last() =~= view_seq(v@).subrange(0, i - 1));
                    assert(s[s.len() - 1] == v@[i - 1]@);
                    assert(out@ =~= start + debug_join(s));
                }
            }
            lit(out, ")");
            proof {
                assert(view_seq(v@).subrange(0, v@.len() as int) =~= view_seq(v@));
                assert(out@ =~= old(out)@ + debug_prim(p@->Atom_0));
            }
        },
    }
}

/// Appends the `write` form of `e` to `out`.
pub fn debug_into(e: &SExp, out: &mut Vec<char>)
    ensures
        final(out)@ == old(out)@ + debug_spec(e@),
    decreases sexp_size(*e), 1nat,
{
    match e {
        SExp::Null => lit(out, "Null"),
        SExp::Atom(p) => {
            lit(out, "Atom(");
            debug_prim_into(p, out);
            lit(out, ")");
            assert(out@ =~= old(out)@ + debug_spec(e@));
        },
        SExp::Pair { head, tail } => {
            lit(out, "Pair { head: ");
            debug_into(head, out);
            lit(out, ", tail: ");
            debug_into(tail, out);
            lit(out, " }");
            assert(out@ =~= old(out)@ + debug_spec(e@));
        },
    }
}

/// The `write` form of an S-expression.
pub fn debug_chars(e: &SExp) -> (r: Vec<char>)
    ensures
        r@ == debug_spec(e@),
{
    let mut out: Vec<char> = Vec::new();
    debug_into(e, &mut out);
    assert(out@ =~= debug_spec(e@));
    out
}

impl SExp {
    /// Whether this is the null list.
    pub fn is_null(&self) -> (r: bool)
        ensures
            r == (self@ == Val::Null),
    {
        match self {
            SExp::Null => true,
            _ => false,
        }
    }

    /// The printed (`display`) form of this S-expression.
    pub fn to_text(&self) -> (r: String)
        ensures
            r@ == show_spec(self@),
    {
        show(self)
    }

    /// The `write` form of this S-expression.
    pub fn to_debug_text(&self) -> (r: String)
        ensures
            r@ == debug_spec(self@),
    {
        string_from_chars(debug_chars(self).as_slice())
    }
}

} // verus!
