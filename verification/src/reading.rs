//! Properties of reading source text: what printing and reading again give
//! back, and what whitespace means to the reader.
use vstd::prelude::*;

use crate::display::{show_prim, show_rest, show_spec};
use crate::numeric::in_i64;
use crate::parse::{
    all_digits, all_symbol_chars, atom_end, atom_of, digits_value, int_literal, quote_of, is_delim, is_ws, lemma_skip_ws, lemma_token_end,
    opens_with_list, parse_spec, read_all, read_datum, read_list, skip_ws, token_end,
};
use crate::semantics::printed_text;
use crate::text::{digit_char, int_text, nat_digits, unescape_spec};
use crate::value::{bool_val, num_val, sym_val, Prim, Val};

verus! {

// ---------------------------------------------------------------------------
// Printing and reading integers
// ---------------------------------------------------------------------------

proof fn lemma_digit_char(d: int)
    requires
        0 <= d < 10,
    ensures
        '0' <= digit_char(d) <= '9',
        digit_char(d) as int - '0' as int == d,
{
}

/// The decimal digits of `k` are digits, at least one, and spell `k`.
proof fn lemma_nat_digits(k: nat)
    ensures
        nat_digits(k).len() >= 1,
        all_digits(nat_digits(k)),
        digits_value(nat_digits(k)) == k,
    decreases k,
{
    if k < 10 {
        lemma_digit_char(k as int);
        let d = nat_digits(k);
        assert(d.drop_last() =~= Seq::<char>::empty());
        assert(d.last() == digit_char(k as int));
        assert(digits_value(d) == digits_value(d.drop_last()) * 10 + (d.last() as int - '0' as int));
    } else {
        lemma_nat_digits(k / 10);
        lemma_digit_char((k % 10) as int);
        let p = nat_digits(k / 10);
        let d = nat_digits(k);
        assert(d == p.push(digit_char((k % 10) as int)));
        assert(d.drop_last() =~= p);
        vstd::arithmetic::div_mod::lemma_fundamental_div_mod(k as int, 10);
        assert(d.last() == digit_char((k % 10) as int));
        assert(digits_value(d) == digits_value(p) * 10 + (digit_char((k % 10) as int) as int - '0' as int));
        assert forall|i: int| 0 <= i < d.len() implies crate::parse::is_digit(#[trigger] d[i]) by {
            if i < p.len() {
                assert(d[i] == p[i]);
            }
        }
    }
}

proof fn lemma_token_end_all(s: Seq<char>, i: nat)
    requires
        i <= s.len(),
        forall|k: int| i <= k < s.len() ==> !is_delim(#[trigger] s[k]),
    ensures
        token_end(s, i) == s.len(),
    decreases s.len() - i,
{
    if i < s.len() {
        lemma_token_end_all(s, i + 1);
    }
}

/// The printed form of an integer is a token that reads as it.
proof fn lemma_int_atom(n: int)
    requires
        in_i64(n),
    ensures
        atom_of(int_text(n)) == Ok::<Val, crate::errors::SynV>(num_val(n)),
        int_text(n).len() > 0,
        int_text(n)[0] != '#',
        forall|k: int| 0 <= k < int_text(n).len() ==> token_char(#[trigger] int_text(n)[k]),
{
    let t = int_text(n);
    let m: nat = if n < 0 { (-n) as nat } else { n as nat };
    lemma_nat_digits(m);
    let d = nat_digits(m);
    if n < 0 {
        assert(t.drop_first() =~= d);
        assert(t[0] == '-');
    } else {
        assert(t == d);
        assert(crate::parse::is_digit(t[0]));
    }
    assert(int_literal(t) == Some(n));
    reveal_strlit("#t");
    reveal_strlit("#f");
    assert(t != "#t"@ && t != "#f"@) by {
        if t == "#t"@ || t == "#f"@ {
            assert(t[0] == '#');
        }
    }
    assert forall|k: int| 0 <= k < t.len() implies token_char(#[trigger] t[k]) by {
        if n < 0 && k > 0 {
            assert(t[k] == d[k - 1]);
        }
        if n >= 0 {
            assert(t[k] == d[k]);
        }
    }
}

/// The printed form of an integer reads back as that integer.
proof fn lemma_int_text_reads(n: int)
    requires
        in_i64(n),
    ensures
        parse_spec(int_text(n)) == Ok::<Val, crate::errors::SynV>(num_val(n)),
{
    let t = int_text(n);
    let m: nat = if n < 0 { (-n) as nat } else { n as nat };
    lemma_nat_digits(m);
    let d = nat_digits(m);
    if n < 0 {
        assert(t.drop_first() =~= d);
        assert(t[0] == '-');
    } else {
        assert(t == d);
        assert(crate::parse::is_digit(t[0]));
    }
    assert(int_literal(t) == Some(n));
    reveal_strlit("#t");
    reveal_strlit("#f");
    assert(t != "#t"@ && t != "#f"@) by {
        if t == "#t"@ || t == "#f"@ {
            assert(t[0] == '#');
        }
    }
    assert(atom_of(t) == Ok::<Val, crate::errors::SynV>(num_val(n)));
    assert forall|k: int| 0 <= k < t.len() implies !is_delim(#[trigger] t[k]) by {
        if n < 0 && k > 0 {
            assert(t[k] == d[k - 1]);
        }
        if n >= 0 {
            assert(t[k] == d[k]);
        }
    }
    lemma_token_end_all(t, 0);
    assert(skip_ws(t, 0) == 0);
    assert(atom_end(t, 0) == t.len());
    assert(t.subrange(0, t.len() as int) =~= t);
    assert(read_datum(t, 0) == Ok::<(Val, nat), crate::errors::SynV>((num_val(n), t.len())));
    assert(skip_ws(t, t.len()) == t.len());
    assert(read_all(t, t.len(), seq![num_val(n)]) == Ok::<Seq<Val>, crate::errors::SynV>(seq![num_val(n)]));
    assert(read_all(t, 0, seq![]) == Ok::<Seq<Val>, crate::errors::SynV>(seq![num_val(n)])) by {
        assert(seq![].push(num_val(n)) =~= seq![num_val(n)]);
    }
}

/// Printing an integer and reading the text back gives the same integer;
/// the printed form of a negative integer starts with `-` and that of any
/// other with a digit.
pub proof fn law_integer_round_trip(n: int)
    requires
        in_i64(n),
    ensures
        parse_spec(show_spec(num_val(n))) == Ok::<Val, crate::errors::SynV>(num_val(n)),
        parse_spec(printed_text(num_val(n), false, false)) == Ok::<Val, crate::errors::SynV>(num_val(n)),
        show_spec(num_val(n)).len() > 0,
        (show_spec(num_val(n))[0] == '-') == (n < 0),
{
    lemma_int_text_reads(n);
    let t = int_text(n);
    let m: nat = if n < 0 { (-n) as nat } else { n as nat };
    lemma_nat_digits(m);
    if n >= 0 {
        assert(crate::parse::is_digit(nat_digits(m)[0]));
    }
    assert(crate::display::show_prim(crate::value::Prim::Number(n)) == t);
    assert(show_spec(num_val(n)) == crate::display::show_prim(crate::value::Prim::Number(n)));
    assert(t + Seq::<char>::empty() =~= t);
    assert(printed_text(num_val(n), false, false) == unescape_spec(t + Seq::<char>::empty()));
    crate::laws::law_unescape_length(t);
    assert forall|i: int| !#[trigger] crate::laws::escape_at(t, i) by {
        if crate::laws::escape_at(t, i) {
            if n < 0 && i > 0 {
                assert(t[i] == nat_digits(m)[i - 1]);
            }
        }
    }
}

// ---------------------------------------------------------------------------
// Printing and reading values
// ---------------------------------------------------------------------------

/// Whether the printed (`display`) form of a value is one that reads back:
/// the null list, integers, booleans, symbols whose names read as
/// themselves, and proper lists of such values (a list headed by the symbol
/// `quote` having exactly one element after it, as `'x` prints).
pub open spec fn readable(v: Val) -> bool
    decreases v,
{
    match v {
        Val::Null => true,
        Val::Atom(Prim::Number(n)) => in_i64(n),
        Val::Atom(Prim::Boolean(_)) => true,
        Val::Atom(Prim::Symbol(name)) => name.len() > 0 && all_symbol_chars(name) && atom_of(name) == Ok::<
            Val,
            crate::errors::SynV,
        >(sym_val(name)),
        Val::Atom(_) => false,
        Val::Pair(h, t) => readable(*h) && readable_rest(*t) && (*h == sym_val("quote"@) ==> (*t matches Val::Pair(
            _,
            t2,
        ) && *t2 == Val::Null)),
    }
}

/// Whether the rest of a list is a proper list of readable values.
pub open spec fn readable_rest(t: Val) -> bool
    decreases t,
{
    match t {
        Val::Null => true,
        Val::Atom(_) => false,
        Val::Pair(h, t2) => readable(*h) && readable_rest(*t2),
    }
}

/// The characters an atom's printed form may hold.
pub open spec fn token_char(c: char) -> bool {
    !is_delim(c) && c != '\\'
}

/// The characters a readable value's printed form may hold.
pub open spec fn shown_char(c: char) -> bool {
    c != '\\' && c != '"'
}

/// The printed form of a readable atom reads as that atom, is not empty, and
/// holds only characters that continue a token.
proof fn lemma_atom_reads(p: Prim)
    requires
        readable(Val::Atom(p)),
    ensures
        show_prim(p).len() > 0,
        atom_of(show_prim(p)) == Ok::<Val, crate::errors::SynV>(Val::Atom(p)),
        forall|k: int| 0 <= k < show_prim(p).len() ==> token_char(#[trigger] show_prim(p)[k]),
        show_prim(p)[0] != '#' || (show_prim(p).len() > 1 && show_prim(p)[1] != '\\'),
{
    reveal_strlit("#t");
    reveal_strlit("#f");
    match p {
        Prim::Number(n) => {
            assert(in_i64(n));
            lemma_int_atom(n);
            assert(show_prim(p) == int_text(n));
            assert(Val::Atom(p) == num_val(n));
            assert(atom_of(show_prim(p)) == atom_of(int_text(n)));
        },
        Prim::Boolean(b) => {
            if b {
                assert(show_prim(p) == "#t"@);
                assert(atom_of("#t"@) == Ok::<Val, crate::errors::SynV>(bool_val(true)));
            } else {
                assert(show_prim(p) == "#f"@);
                assert("#f"@ != "#t"@) by {
                    assert("#f"@[1] != "#t"@[1]);
                }
                assert(atom_of("#f"@) == Ok::<Val, crate::errors::SynV>(bool_val(false)));
            }
        },
        Prim::Symbol(name) => {
            assert forall|k: int| 0 <= k < name.len() implies token_char(#[trigger] name[k]) by {
                assert(crate::parse::is_symbol_char(name[k]));
            }
        },
        _ => {},
    }
}

/// A readable value prints as a non-empty text that starts a datum and
/// holds no backslash or double quote.
proof fn lemma_shown(v: Val)
    requires
        readable(v),
    ensures
        show_spec(v).len() > 0,
        !is_ws(show_spec(v)[0]),
        show_spec(v)[0] != ')',
        forall|k: int| 0 <= k < show_spec(v).len() ==> shown_char(#[trigger] show_spec(v)[k]),
    decreases v,
{
    match v {
        Val::Null => {
            reveal_strlit("()");
        },
        Val::Atom(p) => {
            lemma_atom_reads(p);
            assert(show_spec(v) == show_prim(p));
        },
        Val::Pair(h, t) => {
            lemma_shown(*h);
            assert(readable_rest(*t));
            if *h == sym_val("quote"@) {
                match *t {
                    Val::Pair(h2, t2) => {
                        assert(readable(*h2));
                        lemma_shown(*h2);
                        reveal_strlit("'");
                        let w = "'"@ + show_spec(*h2);
                        assert(show_spec(v) == w);
                        assert forall|k: int| 0 <= k < w.len() implies shown_char(#[trigger] w[k]) by {
                            if k > 0 {
                                assert(w[k] == show_spec(*h2)[k - 1]);
                            }
                        }
                    },
                    _ => {},
                }
            } else {
                lemma_rest_shown(*t);
                assert(!(*t is Atom));
                reveal_strlit("(");
                reveal_strlit(")");
                let w = "("@ + show_spec(*h) + show_rest(*t) + ")"@;
                assert(show_spec(v) == w);
                let a = show_spec(*h);
                let r = show_rest(*t);
                assert forall|k: int| 0 <= k < w.len() implies shown_char(#[trigger] w[k]) by {
                    if 1 <= k < 1 + a.len() {
                        assert(w[k] == a[k - 1]);
                    } else if 1 + a.len() <= k < 1 + a.len() + r.len() {
                        assert(w[k] == r[k - 1 - a.len()]);
                    }
                }
            }
        },
    }
}

proof fn lemma_rest_shown(t: Val)
    requires
        readable_rest(t),
    ensures
        show_rest(t).len() > 0 ==> show_rest(t)[0] == ' ',
        forall|k: int| 0 <= k < show_rest(t).len() ==> shown_char(#[trigger] show_rest(t)[k]),
    decreases t,
{
    match t {
        Val::Pair(h, t2) => {
            lemma_shown(*h);
            lemma_rest_shown(*t2);
            reveal_strlit(" ");
            let a = show_spec(*h);
            let r = show_rest(*t2);
            let w = " "@ + a + r;
            assert(show_rest(t) == w);
            assert forall|k: int| 0 <= k < w.len() implies shown_char(#[trigger] w[k]) by {
                if 1 <= k < 1 + a.len() {
                    assert(w[k] == a[k - 1]);
                } else if 1 + a.len() <= k {
                    assert(w[k] == r[k - 1 - a.len()]);
                }
            }
        },
        _ => {},
    }
}

/// Where the text holds the printed form of a readable value, followed by a
/// delimiter or the end, the reader reads that value and stops after it.
proof fn lemma_read_shown(s: Seq<char>, i: nat, v: Val)
    requires
        readable(v),
        i + show_spec(v).len() <= s.len(),
        s.subrange(i as int, i + show_spec(v).len() as int) == show_spec(v),
        i + show_spec(v).len() == s.len() || is_delim(s[i + show_spec(v).len() as int]),
    ensures
        read_datum(s, i) == Ok::<(Val, nat), crate::errors::SynV>((v, i + show_spec(v).len())),
    decreases v, 0nat,
{
    let w = show_spec(v);
    let e = i + w.len();
    lemma_shown(v);
    assert forall|k: int| 0 <= k < w.len() implies s[i + k] == #[trigger] w[k] by {
        assert(s.subrange(i as int, e as int)[k] == s[i + k]);
    }
    assert(s[i as int] == w[0]);
    assert(skip_ws(s, i) == i);
    match v {
        Val::Null => {
            reveal_strlit("()");
            assert(w.len() == 2);
            assert(w[0] == '(');
            assert(w[1] == ')');
            assert(s[i as int] == '(');
            assert(s[i + 1int] == ')');
            assert(read_list(s, i + 1) == Ok::<(Val, nat), crate::errors::SynV>((Val::Null, i + 2)));
            assert(skip_ws(s, i + 1) == i + 1);
        },
        Val::Atom(p) => {
            lemma_atom_reads(p);
            assert(w == show_prim(p));
            assert forall|k: int| i <= k < e implies !is_delim(#[trigger] s[k]) by {
                assert(s[k] == w[k - i]);
                assert(token_char(w[k - i]));
            }
            lemma_token_end_all_until(s, i, e);
            if w[0] == '#' {
                assert(s[i + 1int] == w[1]);
            }
            assert(atom_end(s, i) == e);
        },
        Val::Pair(h, t) => {
            if *h == sym_val("quote"@) {
                assert(readable_rest(*t));
                match *t {
                    Val::Pair(h2, t2) => {
                        assert(readable(*h2));
                        reveal_strlit("'");
                        let a = show_spec(*h2);
                        assert(w == "'"@ + a);
                        assert(s.subrange(i + 1int, i + 1 + a.len() as int) =~= a) by {
                            assert forall|k: int| 0 <= k < a.len() implies #[trigger] s.subrange(i + 1int, i + 1 + a.len() as int)[k]
                                == a[k] by {
                                assert(s[i + 1int + k] == w[1 + k]);
                            }
                        }
                        lemma_read_shown(s, i + 1, *h2);
                        assert(quote_of(*h2) == v);
                    },
                    _ => {},
                }
            } else {
                reveal_strlit("(");
                reveal_strlit(")");
                let a = show_spec(*h);
                let r = show_rest(*t);
                assert(readable_rest(*t));
                assert(!(*t is Atom));
                assert(w == "("@ + a + r + ")"@);
                lemma_shown(*h);
                lemma_rest_shown(*t);
                let e1 = i + 1 + a.len();
                assert(s.subrange(i + 1int, e1 as int) =~= a) by {
                    assert forall|k: int| 0 <= k < a.len() implies #[trigger] s.subrange(i + 1int, e1 as int)[k] == a[k] by {
                        assert(s[i + 1int + k] == w[1 + k]);
                    }
                }
                assert(s[i + 1int] == a[0]);
                assert(skip_ws(s, i + 1) == i + 1);
                if r.len() > 0 {
                    assert(s[e1 as int] == w[1 + a.len() as int]);
                    assert(w[1 + a.len() as int] == r[0]);
                } else {
                    assert(s[e1 as int] == w[1 + a.len() as int]);
                }
                lemma_read_shown(s, i + 1, *h);
                assert(s.subrange(e1 as int, e1 + r.len() as int + 1) =~= r + ")"@) by {
                    assert forall|k: int| 0 <= k < r.len() + 1 implies #[trigger] s.subrange(e1 as int, e1 + r.len() as int + 1)[k]
                        == (r + ")"@)[k] by {
                        assert(s[e1 + k] == w[1 + a.len() as int + k]);
                    }
                }
                lemma_read_rest(s, e1, *t);
            }
        },
    }
}

/// Where the text holds the printed rest of a list and its `)`, the reader
/// reads that rest.
proof fn lemma_read_rest(s: Seq<char>, i: nat, t: Val)
    requires
        readable_rest(t),
        i + show_rest(t).len() + 1 <= s.len(),
        s.subrange(i as int, i + show_rest(t).len() as int + 1) == show_rest(t) + ")"@,
    ensures
        read_list(s, i) == Ok::<(Val, nat), crate::errors::SynV>((t, i + show_rest(t).len() + 1)),
    decreases t, 1nat,
{
    reveal_strlit(")");
    reveal_strlit(" ");
    let r = show_rest(t);
    let w = r + ")"@;
    assert forall|k: int| 0 <= k < w.len() implies s[i + k] == #[trigger] w[k] by {
        assert(s.subrange(i as int, i + w.len() as int)[k] == s[i + k]);
    }
    match t {
        Val::Null => {
            assert(r.len() == 0);
            assert(s[i as int] == w[0]);
            assert(skip_ws(s, i) == i);
        },
        Val::Pair(h, t2) => {
            let a = show_spec(*h);
            let r2 = show_rest(*t2);
            assert(r == " "@ + a + r2);
            lemma_shown(*h);
            lemma_rest_shown(*t2);
            assert(s[i as int] == w[0]);
            assert(s[i + 1int] == w[1]);
            assert(w[1] == a[0]);
            assert(skip_ws(s, i + 1) == i + 1);
            assert(skip_ws(s, i) == i + 1);
            let e1 = i + 1 + a.len();
            assert(s.subrange(i + 1int, e1 as int) =~= a) by {
                assert forall|k: int| 0 <= k < a.len() implies #[trigger] s.subrange(i + 1int, e1 as int)[k] == a[k] by {
                    assert(s[i + 1int + k] == w[1 + k]);
                }
            }
            assert(s[e1 as int] == w[1 + a.len() as int]);
            if r2.len() > 0 {
                assert(w[1 + a.len() as int] == r2[0]);
            }
            lemma_read_shown(s, i + 1, *h);
            assert(s.subrange(e1 as int, e1 + r2.len() as int + 1) =~= r2 + ")"@) by {
                assert forall|k: int| 0 <= k < r2.len() + 1 implies #[trigger] s.subrange(e1 as int, e1 + r2.len() as int + 1)[k]
                    == (r2 + ")"@)[k] by {
                    assert(s[e1 + k] == w[1 + a.len() as int + k]);
                }
            }
            lemma_read_rest(s, e1, *t2);
        },
        _ => {},
    }
}

proof fn lemma_token_end_all_until(s: Seq<char>, i: nat, e: nat)
    requires
        i <= e <= s.len(),
        forall|k: int| i <= k < e ==> !is_delim(#[trigger] s[k]),
        e == s.len() || is_delim(s[e as int]),
    ensures
        token_end(s, i) == e,
    decreases e - i,
{
    if i < e {
        lemma_token_end_all_until(s, i + 1, e);
    }
}

/// What `display` prints of a readable value reads back as that value:
/// integers, booleans, symbols, the null list and proper lists of them
/// (with `'x` for `(quote x)`) survive printing and reading.
pub proof fn law_display_round_trip(v: Val)
    requires
        readable(v),
    ensures
        parse_spec(show_spec(v)) == Ok::<Val, crate::errors::SynV>(v),
        parse_spec(printed_text(v, false, false)) == Ok::<Val, crate::errors::SynV>(v),
{
    let t = show_spec(v);
    lemma_shown(v);
    assert(t.subrange(0, t.len() as int) =~= t);
    lemma_read_shown(t, 0, v);
    assert(skip_ws(t, 0) == 0);
    assert(skip_ws(t, t.len()) == t.len());
    assert(read_all(t, t.len(), seq![v]) == Ok::<Seq<Val>, crate::errors::SynV>(seq![v]));
    assert(read_all(t, 0, seq![]) == Ok::<Seq<Val>, crate::errors::SynV>(seq![v])) by {
        assert(seq![].push(v) =~= seq![v]);
    }
    assert(t + Seq::<char>::empty() =~= t);
    assert(printed_text(v, false, false) == unescape_spec(t + Seq::<char>::empty()));
    crate::laws::law_unescape_length(t);
    assert forall|i: int| !#[trigger] crate::laws::escape_at(t, i) by {
        if crate::laws::escape_at(t, i) {
            assert(shown_char(t[i]));
        }
    }
}

/// `display` and `displayln` of an integer or boolean print its printed
/// form (then a newline, for `displayln`), which reads back as the value,
/// and give back the undefined value.
pub proof fn law_display_prints(f: nat, st: crate::context::CtxV, x: Val, newline: bool)
    requires
        f >= 2,
        readable(x),
        x matches Val::Atom(p) && (p is Number || p is Boolean),
    ensures
        crate::semantics::print_form(f, st, crate::value::list_of(seq![x]), newline, false) == (
            crate::context::ctx_emit(st, show_spec(x) + (if newline { seq!['\n'] } else { seq![] })),
            Ok::<Val, crate::errors::ErrV>(crate::value::undefined_val()),
        ),
        parse_spec(show_spec(x)) == Ok::<Val, crate::errors::SynV>(x),
{
    law_display_round_trip(x);
    crate::laws::law_self_evaluating(f, st, x->Atom_0);
    assert(crate::value::list_of(seq![x]) == Val::Pair(
        Box::new(x),
        Box::new(crate::value::list_of(seq![x].drop_first())),
    ));
    let t = show_spec(x) + (if newline { seq!['\n'] } else { seq![] });
    lemma_shown(x);
    crate::laws::law_unescape_length(t);
    assert forall|i: int| !#[trigger] crate::laws::escape_at(t, i) by {
        if crate::laws::escape_at(t, i) {
            if i < show_spec(x).len() {
                assert(t[i] == show_spec(x)[i]);
                assert(shown_char(show_spec(x)[i]));
            }
        }
    }
    assert(printed_text(x, newline, false) == unescape_spec(t));
}

/// A double-quoted text with no double quote or backslash inside reads as
/// the string of that text, and `#\` followed by any character reads as
/// that character.
pub proof fn law_read_string_and_char(w: Seq<char>, c: char)
    requires
        forall|k: int| 0 <= k < w.len() ==> #[trigger] w[k] != '"' && w[k] != '\\',
    ensures
        parse_spec(seq!['"'] + w + seq!['"']) == Ok::<Val, crate::errors::SynV>(crate::value::str_val(w)),
        parse_spec(seq!['#', '\\', c]) == Ok::<Val, crate::errors::SynV>(Val::Atom(Prim::Character(c))),
{
    let s = seq!['"'] + w + seq!['"'];
    let n = s.len();
    assert(s[0] == '"');
    assert(skip_ws(s, 0) == 0);
    assert forall|k: int| 1 <= k < n - 1 implies #[trigger] s[k] == w[k - 1] by {}
    lemma_string_end_at(s, 1, (n - 1) as nat);
    assert(s.subrange(1, n - 1) =~= w);
    assert(read_datum(s, 0) == Ok::<(Val, nat), crate::errors::SynV>((crate::value::str_val(w), n)));
    assert(skip_ws(s, n) == n);
    assert(read_all(s, n, seq![crate::value::str_val(w)]) == Ok::<Seq<Val>, crate::errors::SynV>(
        seq![crate::value::str_val(w)],
    ));
    assert(read_all(s, 0, seq![]) == Ok::<Seq<Val>, crate::errors::SynV>(seq![crate::value::str_val(w)])) by {
        assert(seq![].push(crate::value::str_val(w)) =~= seq![crate::value::str_val(w)]);
    }
    let t = seq!['#', '\\', c];
    assert(skip_ws(t, 0) == 0);
    assert(token_end(t, 3) == 3);
    assert(atom_end(t, 0) == 3);
    assert(t.subrange(0, 3) =~= t);
    reveal_strlit("#t");
    reveal_strlit("#f");
    assert(t != "#t"@ && t != "#f"@);
    assert(int_literal(t) is None) by {
        assert(!crate::parse::is_digit(t[0]));
    }
    assert(atom_of(t) == Ok::<Val, crate::errors::SynV>(Val::Atom(Prim::Character(c))));
    assert(skip_ws(t, 3) == 3);
    assert(read_all(t, 3, seq![Val::Atom(Prim::Character(c))]) == Ok::<Seq<Val>, crate::errors::SynV>(
        seq![Val::Atom(Prim::Character(c))],
    ));
    assert(read_all(t, 0, seq![]) == Ok::<Seq<Val>, crate::errors::SynV>(seq![Val::Atom(Prim::Character(c))])) by {
        assert(seq![].push(Val::Atom(Prim::Character(c))) =~= seq![Val::Atom(Prim::Character(c))]);
    }
}

proof fn lemma_string_end_at(s: Seq<char>, i: nat, e: nat)
    requires
        1 <= i <= e < s.len(),
        s[e as int] == '"',
        s[e - 1] != '\\',
        forall|k: int| i <= k < e ==> #[trigger] s[k] != '"',
    ensures
        crate::parse::string_end(s, i) == Some(e),
    decreases e - i,
{
    if i < e {
        lemma_string_end_at(s, i + 1, e);
    }
}

// ---------------------------------------------------------------------------
// Whitespace
// ---------------------------------------------------------------------------

/// `t` is `s` with the whitespace character at `i` (a space, tab, newline or
/// carriage return, not right after a backslash) replaced by another one, in
/// a text that holds no string literal.
pub open spec fn blank_swap(s: Seq<char>, t: Seq<char>, i: int) -> bool {
    &&& s.len() == t.len()
    &&& 0 <= i < s.len()
    &&& (s[i] == ' ' || s[i] == '\t' || s[i] == '\n' || s[i] == '\r')
    &&& (t[i] == ' ' || t[i] == '\t' || t[i] == '\n' || t[i] == '\r')
    &&& forall|k: int| 0 <= k < s.len() && k != i ==> #[trigger] s[k] == t[k]
    &&& (i == 0 || s[i - 1] != '\\')
    &&& forall|k: int| 0 <= k < s.len() ==> #[trigger] s[k] != '"'
}

proof fn lemma_blank_swap_sym(s: Seq<char>, t: Seq<char>, i: int)
    requires
        blank_swap(s, t, i),
    ensures
        blank_swap(t, s, i),
{
    assert forall|k: int| 0 <= k < t.len() implies #[trigger] t[k] != '"' by {
        if k != i {
            assert(s[k] == t[k]);
        }
    }
}

proof fn lemma_swap_skip(s: Seq<char>, t: Seq<char>, i: int, k: nat)
    requires
        blank_swap(s, t, i),
    ensures
        skip_ws(t, k) == skip_ws(s, k),
    decreases s.len() - k,
{
    if k < s.len() {
        if k as int != i {
            assert(s[k as int] == t[k as int]);
        }
        lemma_swap_skip(s, t, i, k + 1);
    }
}

proof fn lemma_swap_token_end(s: Seq<char>, t: Seq<char>, i: int, k: nat)
    requires
        blank_swap(s, t, i),
    ensures
        token_end(t, k) == token_end(s, k),
        k <= i < token_end(s, k) ==> false,
    decreases s.len() - k,
{
    if k < s.len() {
        if k as int != i {
            assert(s[k as int] == t[k as int]);
        }
        lemma_swap_token_end(s, t, i, k + 1);
    }
}

/// Where the reader starts a datum (not at whitespace), both texts hold the
/// same character, and an atom read there is the same.
proof fn lemma_swap_atom(s: Seq<char>, t: Seq<char>, i: int, j: nat)
    requires
        blank_swap(s, t, i),
        j < s.len(),
        !is_delim(s[j as int]),
    ensures
        atom_end(t, j) == atom_end(s, j),
        j <= atom_end(s, j) <= s.len(),
        t.subrange(j as int, atom_end(s, j) as int) == s.subrange(j as int, atom_end(s, j) as int),
{
    assert(j as int != i);
    assert(s[j as int] == t[j as int]);
    if j + 2 < s.len() {
        if j + 1 != i {
            assert(s[j + 1 as int] == t[j + 1 as int]);
        }
    }
    let e = atom_end(s, j);
    if j + 2 < s.len() && s[j as int] == '#' && s[j + 1 as int] == '\\' {
        lemma_swap_token_end(s, t, i, j + 3);
        lemma_token_end(s, j + 3);
        assert(j + 2 != i);
        assert(s[j + 2 as int] == t[j + 2 as int]);
    } else {
        lemma_swap_token_end(s, t, i, j);
        lemma_token_end(s, j);
    }
    assert forall|m: int| 0 <= m < e - j implies #[trigger] t.subrange(j as int, e as int)[m] == s.subrange(
        j as int,
        e as int,
    )[m] by {
        assert(j + m != i);
        assert(s[j + m] == t[j + m]);
    }
    assert(t.subrange(j as int, e as int) =~= s.subrange(j as int, e as int));
}

proof fn lemma_swap_datum(s: Seq<char>, t: Seq<char>, i: int, k: nat)
    requires
        blank_swap(s, t, i),
    ensures
        read_datum(s, k) is Ok ==> read_datum(t, k) == read_datum(s, k),
    decreases s.len() - k, 0nat,
{
    let j = skip_ws(s, k);
    lemma_swap_skip(s, t, i, k);
    if k <= s.len() {
        lemma_skip_ws(s, k);
    }
    if j < s.len() && j >= k {
        assert(!is_ws(s[j as int]));
        assert(j as int != i);
        assert(s[j as int] == t[j as int]);
        if s[j as int] == '(' {
            lemma_swap_list(s, t, i, j + 1);
        } else if s[j as int] == ')' {
        } else if s[j as int] == '\'' {
            lemma_swap_datum(s, t, i, j + 1);
        } else if s[j as int] == '"' {
        } else {
            lemma_swap_atom(s, t, i, j);
        }
    }
}

proof fn lemma_swap_list(s: Seq<char>, t: Seq<char>, i: int, k: nat)
    requires
        blank_swap(s, t, i),
    ensures
        read_list(s, k) is Ok ==> read_list(t, k) == read_list(s, k),
    decreases s.len() - k, 1nat,
{
    let j = skip_ws(s, k);
    lemma_swap_skip(s, t, i, k);
    if k <= s.len() {
        lemma_skip_ws(s, k);
    }
    if j < s.len() && j >= k {
        assert(!is_ws(s[j as int]));
        assert(j as int != i);
        assert(s[j as int] == t[j as int]);
        if s[j as int] != ')' {
            lemma_swap_datum(s, t, i, j);
            match read_datum(s, j) {
                Ok((v, m)) => {
                    if j < m && m <= s.len() {
                        lemma_swap_list(s, t, i, m);
                    }
                },
                Err(_) => {},
            }
        }
    }
}

proof fn lemma_swap_all(s: Seq<char>, t: Seq<char>, i: int, k: nat, acc: Seq<Val>)
    requires
        blank_swap(s, t, i),
    ensures
        read_all(s, k, acc) is Ok ==> read_all(t, k, acc) == read_all(s, k, acc),
    decreases s.len() - k,
{
    let j = skip_ws(s, k);
    lemma_swap_skip(s, t, i, k);
    if j < s.len() && j >= k {
        lemma_swap_datum(s, t, i, j);
        match read_datum(s, j) {
            Ok((v, m)) => {
                if j < m && m <= s.len() {
                    lemma_swap_all(s, t, i, m, acc.push(v));
                }
            },
            Err(_) => {},
        }
    }
}

proof fn lemma_swap_parse(s: Seq<char>, t: Seq<char>, i: int)
    requires
        blank_swap(s, t, i),
    ensures
        parse_spec(s) is Ok ==> parse_spec(t) == parse_spec(s),
{
    lemma_swap_all(s, t, i, 0, seq![]);
    lemma_swap_skip(s, t, i, 0);
    lemma_skip_ws(s, 0);
    let j = skip_ws(s, 0);
    if j < s.len() {
        assert(!is_ws(s[j as int]));
        assert(j as int != i);
        assert(s[j as int] == t[j as int]);
    }
    assert(opens_with_list(t) == opens_with_list(s));
}

/// Whitespace between tokens is interchangeable: in a text with no string
/// literal, replacing a space, tab, newline or carriage return (one not
/// right after a backslash, where it would be a character literal) by
/// another of the four changes nothing that reads: what one text reads as,
/// the other reads as too.
pub proof fn law_whitespace_interchangeable(s: Seq<char>, i: int, c: char)
    requires
        0 <= i < s.len(),
        s[i] == ' ' || s[i] == '\t' || s[i] == '\n' || s[i] == '\r',
        c == ' ' || c == '\t' || c == '\n' || c == '\r',
        i == 0 || s[i - 1] != '\\',
        forall|k: int| 0 <= k < s.len() ==> #[trigger] s[k] != '"',
    ensures
        parse_spec(s) is Ok ==> parse_spec(s.update(i, c)) == parse_spec(s),
        parse_spec(s.update(i, c)) is Ok ==> parse_spec(s.update(i, c)) == parse_spec(s),
{
    let t = s.update(i, c);
    assert(blank_swap(s, t, i));
    lemma_swap_parse(s, t, i);
    lemma_blank_swap_sym(s, t, i);
    lemma_swap_parse(t, s, i);
}

} // verus!
