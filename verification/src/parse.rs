//! Reading source text into S-expressions.
//!
//! The grammar: whitespace separates tokens; `(` and `)` delimit lists; `'`
//! quotes the datum after it; `"` starts a string that ends at the next `"`
//! not preceded by a backslash (escape sequences are kept as written); any
//! other run of characters is an atom: `#t`, `#f`, an integer, a character
//! `#\c`, or a symbol. Numbers are exact: a token that reads as a
//! floating-point number, or as an integer out of the `i64` range, is
//! [`SyntaxError::NotANumber`]. Several data in a row are read as one
//! `begin` form.
use vstd::prelude::*;

use crate::errors::{SynV, SyntaxError};
use crate::numeric::in_i64;
use crate::text::string_from_chars;
use crate::value::{bool_val, lemma_view_seq, list_of, num_val, str_val, sym_val, view_seq, Prim, Primitive, SExp, Val};

verus! {

pub open spec fn is_ws(c: char) -> bool {
    c == ' ' || c == '\t' || c == '\n' || c == '\r'
}

pub open spec fn is_delim(c: char) -> bool {
    is_ws(c) || c == '(' || c == ')' || c == '\'' || c == '"'
}

pub open spec fn is_digit(c: char) -> bool {
    '0' <= c && c <= '9'
}

/// The characters that symbols are made of.
pub open spec fn is_symbol_char(c: char) -> bool {
    ('a' <= c && c <= 'z') || ('A' <= c && c <= 'Z') || is_digit(c) || c == '!' || c == '$' || c == '%'
        || c == '&' || c == '*' || c == '+' || c == '-' || c == '.' || c == '/' || c == ':' || c == '<'
        || c == '=' || c == '>' || c == '?' || c == '@' || c == '^' || c == '_' || c == '~'
}

/// The first position at or after `i` that is not whitespace.
pub open spec fn skip_ws(s: Seq<char>, i: nat) -> nat
    decreases s.len() - i,
{
    if i < s.len() && is_ws(s[i as int]) {
        skip_ws(s, i + 1)
    } else {
        i
    }
}

/// The first position at or after `i` that holds a delimiter.
pub open spec fn token_end(s: Seq<char>, i: nat) -> nat
    decreases s.len() - i,
{
    if i < s.len() && !is_delim(s[i as int]) {
        token_end(s, i + 1)
    } else {
        i
    }
}

/// The end of the atom that starts at `i`: after `#\` the next character
/// belongs to the atom whatever it is.
pub open spec fn atom_end(s: Seq<char>, i: nat) -> nat {
    if i + 2 < s.len() && s[i as int] == '#' && s[i + 1 as int] == '\\' {
        token_end(s, i + 3)
    } else {
        token_end(s, i)
    }
}

/// The position of the `"` that closes a string whose text starts at `i`.
pub open spec fn string_end(s: Seq<char>, i: nat) -> Option<nat>
    decreases s.len() - i,
{
    if i >= s.len() {
        None
    } else if s[i as int] == '"' && !(i > 0 && s[i - 1] == '\\') {
        Some(i)
    } else {
        string_end(s, i + 1)
    }
}

pub proof fn lemma_skip_ws(s: Seq<char>, i: nat)
    requires
        i <= s.len(),
    ensures
        i <= skip_ws(s, i) <= s.len(),
        skip_ws(s, i) < s.len() ==> !is_ws(s[skip_ws(s, i) as int]),
    decreases s.len() - i,
{
    if i < s.len() && is_ws(s[i as int]) {
        lemma_skip_ws(s, i + 1);
    }
}

pub proof fn lemma_token_end(s: Seq<char>, i: nat)
    requires
        i <= s.len(),
    ensures
        i <= token_end(s, i) <= s.len(),
    decreases s.len() - i,
{
    if i < s.len() && !is_delim(s[i as int]) {
        lemma_token_end(s, i + 1);
    }
}

pub proof fn lemma_string_end(s: Seq<char>, i: nat)
    ensures
        match string_end(s, i) {
            Some(k) => i <= k < s.len(),
            None => true,
        },
    decreases s.len() - i,
{
    if i < s.len() && !(s[i as int] == '"' && !(i > 0 && s[i - 1] == '\\')) {
        lemma_string_end(s, i + 1);
    }
}

/// The value of a string of decimal digits.
pub open spec fn digits_value(d: Seq<char>) -> int
    decreases d.len(),
{
    if d.len() == 0 {
        0
    } else {
        digits_value(d.drop_last()) * 10 + (d.last() as int - '0' as int)
    }
}

pub open spec fn all_digits(d: Seq<char>) -> bool {
    forall|k: int| 0 <= k < d.len() ==> is_digit(#[trigger] d[k])
}

/// The value of an integer literal (an optional sign, then digits), when it
/// fits in an `i64`.
pub open spec fn int_literal(t: Seq<char>) -> Option<int> {
    let neg = t.len() > 0 && t[0] == '-';
    let d = if t.len() > 0 && (t[0] == '-' || t[0] == '+') {
        t.drop_first()
    } else {
        t
    };
    if d.len() > 0 && all_digits(d) {
        let v = if neg {
            -digits_value(d)
        } else {
            digits_value(d)
        };
        if in_i64(v) {
            Some(v)
        } else {
            None
        }
    } else {
        None
    }
}

/// How many digits follow position `i`.
pub open spec fn count_digits(u: Seq<char>, i: nat) -> nat
    decreases u.len() - i,
{
    if i < u.len() && is_digit(u[i as int]) {
        1 + count_digits(u, i + 1)
    } else {
        0
    }
}

/// Whether `u` spells the lower-case word `w` in any mix of cases.
pub open spec fn eq_ci(u: Seq<char>, w: Seq<char>) -> bool {
    u.len() == w.len() && forall|k: int|
        0 <= k < u.len() ==> #[trigger] u[k] == w[k] || (u[k] as u32) + 32 == (w[k] as u32)
}

/// Whether a token reads as a floating-point number: an optional sign, then
/// `inf`, `infinity` or `nan` in any case, or digits with at most one `.`
/// (at least one digit in all), optionally followed by an exponent (`e` or
/// `E`, an optional sign, and digits).
pub open spec fn float_like(t: Seq<char>) -> bool {
    let u = if t.len() > 0 && (t[0] == '-' || t[0] == '+') {
        t.drop_first()
    } else {
        t
    };
    if eq_ci(u, "inf"@) || eq_ci(u, "infinity"@) || eq_ci(u, "nan"@) {
        true
    } else {
        let a = count_digits(u, 0);
        let has_dot = a < u.len() && u[a as int] == '.';
        let b = if has_dot {
            count_digits(u, a + 1)
        } else {
            0
        };
        let i2: nat = if has_dot {
            a + 1 + b
        } else {
            a
        };
        (a + b > 0) && (i2 == u.len() || (u[i2 as int] == 'e' || u[i2 as int] == 'E') && {
            let j = i2 + 1;
            let j2: nat = if j < u.len() && (u[j as int] == '+' || u[j as int] == '-') {
                j + 1
            } else {
                j
            };
            let c = count_digits(u, j2);
            c > 0 && j2 + c == u.len()
        })
    }
}

pub open spec fn all_symbol_chars(t: Seq<char>) -> bool {
    forall|k: int| 0 <= k < t.len() ==> is_symbol_char(#[trigger] t[k])
}

/// The value of an atom token.
pub open spec fn atom_of(t: Seq<char>) -> Result<Val, SynV> {
    if t == "#t"@ {
        Ok(bool_val(true))
    } else if t == "#f"@ {
        Ok(bool_val(false))
    } else {
        match int_literal(t) {
            Some(n) => Ok(num_val(n)),
            None => if t.len() == 3 && t[0] == '#' && t[1] == '\\' {
                Ok(Val::Atom(Prim::Character(t[2])))
            } else if float_like(t) {
                Err(SynV::NotANumber(t))
            } else if all_symbol_chars(t) {
                Ok(sym_val(t))
            } else {
                Err(SynV::NotAPrimitive(t))
            },
        }
    }
}

/// `(quote v)`.
pub open spec fn quote_of(v: Val) -> Val {
    Val::Pair(Box::new(sym_val("quote"@)), Box::new(Val::Pair(Box::new(v), Box::new(Val::Null))))
}

/// Reads the datum that starts at or after `i`: its value and the position
/// after it.
pub open spec fn read_datum(s: Seq<char>, i: nat) -> Result<(Val, nat), SynV>
    decreases s.len() - i, 0nat,
{
    let j = skip_ws(s, i);
    if j >= s.len() || j < i {
        Err(SynV::NotAToken(seq![]))
    } else if s[j as int] == '(' {
        read_list(s, j + 1)
    } else if s[j as int] == ')' {
        Err(SynV::UnmatchedParen(s, '(', Some(')')))
    } else if s[j as int] == '\'' {
        match read_datum(s, j + 1) {
            Ok((v, k)) => Ok((quote_of(v), k)),
            Err(e) => Err(e),
        }
    } else if s[j as int] == '"' {
        match string_end(s, j + 1) {
            Some(k) => Ok((str_val(s.subrange(j + 1 as int, k as int)), k + 1)),
            None => Err(SynV::UnmatchedQuote(s.subrange(j as int, s.len() as int))),
        }
    } else {
        let e = atom_end(s, j);
        match atom_of(s.subrange(j as int, e as int)) {
            Ok(v) => Ok((v, e)),
            Err(x) => Err(x),
        }
    }
}

/// Reads the rest of a list whose elements start at or after `i`, up to
/// and including its `)`.
pub open spec fn read_list(s: Seq<char>, i: nat) -> Result<(Val, nat), SynV>
    decreases s.len() - i, 1nat,
{
    let j = skip_ws(s, i);
    if j >= s.len() || j < i {
        Err(SynV::UnmatchedParen(s, ')', None))
    } else if s[j as int] == ')' {
        Ok((Val::Null, j + 1))
    } else {
        match read_datum(s, j) {
            Err(e) => Err(e),
            Ok((v, k)) => if j < k && k <= s.len() {
                match read_list(s, k) {
                    Ok((rest, m)) => Ok((Val::Pair(Box::new(v), Box::new(rest)), m)),
                    Err(e) => Err(e),
                }
            } else {
                Err(SynV::NotAToken(seq![]))
            },
        }
    }
}

/// Reads the data from position `i` on, after those in `acc`.
pub open spec fn read_all(s: Seq<char>, i: nat, acc: Seq<Val>) -> Result<Seq<Val>, SynV>
    decreases s.len() - i,
{
    let j = skip_ws(s, i);
    if j >= s.len() || j < i {
        Ok(acc)
    } else {
        match read_datum(s, j) {
            Err(e) => Err(e),
            Ok((v, k)) => if j < k && k <= s.len() {
                read_all(s, k, acc.push(v))
            } else {
                Err(SynV::NotAToken(seq![]))
            },
        }
    }
}

/// Whether the first character of `s` that is not white space opens a list.
pub open spec fn opens_with_list(s: Seq<char>) -> bool {
    skip_ws(s, 0) < s.len() && s[skip_ws(s, 0) as int] == '('
}

/// The S-expression that a source text reads as: its one datum, or, where
/// the text begins with a list, a `begin` form of its data. Text with no
/// datum is an error, and so is text of several data that does not begin
/// with a list.
pub open spec fn parse_spec(s: Seq<char>) -> Result<Val, SynV> {
    match read_all(s, 0, seq![]) {
        Err(e) => Err(e),
        Ok(vs) => if vs.len() == 0 {
            Err(SynV::NotAToken(seq![]))
        } else if vs.len() == 1 {
            Ok(vs[0])
        } else if !opens_with_list(s) {
            Err(SynV::NotAToken(s))
        } else {
            Ok(list_of(seq![sym_val("begin"@)] + vs))
        },
    }
}

// ---------------------------------------------------------------------------
// The reader
// ---------------------------------------------------------------------------

fn is_ws_exec(c: char) -> (r: bool)
    ensures
        r == is_ws(c),
{
    c == ' ' || c == '\t' || c == '\n' || c == '\r'
}

fn is_delim_exec(c: char) -> (r: bool)
    ensures
        r == is_delim(c),
{
    is_ws_exec(c) || c == '(' || c == ')' || c == '\'' || c == '"'
}

fn is_digit_exec(c: char) -> (r: bool)
    ensures
        r == is_digit(c),
{
    '0' <= c && c <= '9'
}

fn is_symbol_char_exec(c: char) -> (r: bool)
    ensures
        r == is_symbol_char(c),
{
    ('a' <= c && c <= 'z') || ('A' <= c && c <= 'Z') || is_digit_exec(c) || c == '!' || c == '$' || c == '%'
        || c == '&' || c == '*' || c == '+' || c == '-' || c == '.' || c == '/' || c == ':' || c == '<'
        || c == '=' || c == '>' || c == '?' || c == '@' || c == '^' || c == '_' || c == '~'
}

fn skip_ws_exec(s: &[char], i: usize) -> (r: usize)
    requires
        i <= s@.len(),
    ensures
        r == skip_ws(s@, i as nat),
{
    let mut k = i;
    while k < s.len() && is_ws_exec(s[k])
        invariant
            i <= k <= s@.len(),
            skip_ws(s@, k as nat) == skip_ws(s@, i as nat),
        decreases s@.len() - k,
    {
        k += 1;
    }
    k
}

fn opens_with_list_exec(s: &[char]) -> (r: bool)
    ensures
        r == opens_with_list(s@),
{
    let j = skip_ws_exec(s, 0);
    j < s.len() && s[j] == '('
}

fn token_end_exec(s: &[char], i: usize) -> (r: usize)
    requires
        i <= s@.len(),
    ensures
        r == token_end(s@, i as nat),
{
    let mut k = i;
    while k < s.len() && !is_delim_exec(s[k])
        invariant
            i <= k <= s@.len(),
            token_end(s@, k as nat) == token_end(s@, i as nat),
        decreases s@.len() - k,
    {
        k += 1;
    }
    k
}

fn atom_end_exec(s: &[char], i: usize) -> (r: usize)
    requires
        i <= s@.len(),
    ensures
        r == atom_end(s@, i as nat),
{
    if i < s.len() && s.len() - i > 2 && s[i] == '#' && s[i + 1] == '\\' {
        token_end_exec(s, i + 3)
    } else {
        token_end_exec(s, i)
    }
}

fn string_end_exec(s: &[char], i: usize) -> (r: Option<usize>)
    requires
        i <= s@.len(),
    ensures
        match r {
            Some(k) => string_end(s@, i as nat) == Some(k as nat),
            None => string_end(s@, i as nat) is None,
        },
{
    let mut k = i;
    while k < s.len()
        invariant
            i <= k <= s@.len(),
            string_end(s@, k as nat) == string_end(s@, i as nat),
        decreases s@.len() - k,
    {
        if s[k] == '"' && !(k > 0 && s[k - 1] == '\\') {
            return Some(k);
        }
        k += 1;
    }
    None
}

fn eq_ci_exec(u: &[char], w: &str) -> (r: bool)
    ensures
        r == eq_ci(u@, w@),
{
    let wc = crate::text::chars_of(w);
    if u.len() != wc.len() {
        return false;
    }
    let mut k: usize = 0;
    while k < u.len()
        invariant
            k <= u@.len(),
            u@.len() == wc@.len(),
            wc@ == w@,
            forall|m: int| 0 <= m < k ==> #[trigger] u@[m] == w@[m] || (u@[m] as u32) + 32 == (w@[m] as u32),
        decreases u@.len() - k,
    {
        let a = u[k];
        let b = wc[k];
        if !(a == b || (a as u32) as u64 + 32 == (b as u32) as u64) {
            return false;
        }
        k += 1;
    }
    true
}

fn count_digits_exec(u: &[char], i: usize) -> (r: usize)
    requires
        i <= u@.len(),
    ensures
        r == count_digits(u@, i as nat),
        i + r <= u@.len(),
{
    let mut k = i;
    while k < u.len() && is_digit_exec(u[k])
        invariant
            i <= k <= u@.len(),
            count_digits(u@, i as nat) == (k - i) + count_digits(u@, k as nat),
        decreases u@.len() - k,
    {
        k += 1;
    }
    k - i
}

/// Whether a token reads as a floating-point number (see [`float_like`]).
fn float_like_exec(t: &[char]) -> (r: bool)
    ensures
        r == float_like(t@),
{
    let n = t.len();
    let u = if n > 0 && (t[0] == '-' || t[0] == '+') {
        vstd::slice::slice_subrange(t, 1, n)
    } else {
        t
    };
    proof {
        if t@.len() > 0 && (t@[0] == '-' || t@[0] == '+') {
            assert(u@ =~= t@.drop_first());
        }
    }
    if eq_ci_exec(u, "inf") || eq_ci_exec(u, "infinity") || eq_ci_exec(u, "nan") {
        return true;
    }
    let a = count_digits_exec(u, 0);
    let has_dot = a < u.len() && u[a] == '.';
    let b = if has_dot {
        count_digits_exec(u, a + 1)
    } else {
        0
    };
    let i2 = if has_dot {
        a + 1 + b
    } else {
        a
    };
    if a + b == 0 {
        return false;
    }
    if i2 == u.len() {
        return true;
    }
    if !(u[i2] == 'e' || u[i2] == 'E') {
        return false;
    }
    let j = i2 + 1;
    let j2 = if j < u.len() && (u[j] == '+' || u[j] == '-') {
        j + 1
    } else {
        j
    };
    let c = count_digits_exec(u, j2);
    c > 0 && j2 + c == u.len()
}

proof fn lemma_digits_step(d: Seq<char>, k: int)
    requires
        0 <= k < d.len(),
    ensures
        digits_value(d.subrange(0, k + 1)) == digits_value(d.subrange(0, k)) * 10 + (d[k] as int - '0' as int),
{
    assert(d.subrange(0, k + 1).drop_last() =~= d.subrange(0, k));
}

/// The value of an integer literal (see [`int_literal`]).
fn int_literal_exec(t: &[char]) -> (r: Option<i64>)
    ensures
        match r {
            Some(n) => int_literal(t@) == Some(n as int),
            None => int_literal(t@) is None,
        },
{
    let n = t.len();
    let neg = n > 0 && t[0] == '-';
    let d = if n > 0 && (t[0] == '-' || t[0] == '+') {
        vstd::slice::slice_subrange(t, 1, n)
    } else {
        t
    };
    proof {
        if t@.len() > 0 && (t@[0] == '-' || t@[0] == '+') {
            assert(d@ =~= t@.drop_first());
        }
    }
    if d.len() == 0 {
        return None;
    }
    let mut acc: u128 = 0;
    let mut big = false;
    let mut k: usize = 0;
    assert(d@.subrange(0, 0) =~= Seq::<char>::empty());
    while k < d.len()
        invariant
            k <= d@.len(),
            d@.len() > 0,
            d@ == (if t@.len() > 0 && (t@[0] == '-' || t@[0] == '+') {
                t@.drop_first()
            } else {
                t@
            }),
            forall|m: int| 0 <= m < k ==> is_digit(#[trigger] d@[m]),
            digits_value(d@.subrange(0, k as int)) >= 0,
            !big ==> acc == digits_value(d@.subrange(0, k as int)) && acc <= 100_000_000_000_000_000_009u128,
            big ==> digits_value(d@.subrange(0, k as int)) > 10_000_000_000_000_000_000,
        decreases d@.len() - k,
    {
        let c = d[k];
        if !is_digit_exec(c) {
            assert(!all_digits(d@));
            return None;
        }
        proof {
            lemma_digits_step(d@, k as int);
        }
        let dg = ((c as u32) - ('0' as u32)) as u128;
        if !big {
            if acc > 10_000_000_000_000_000_000u128 {
                big = true;
            } else {
                acc = acc * 10 + dg;
            }
        }
        k += 1;
    }
    assert(d@.subrange(0, k as int) =~= d@);
    assert(all_digits(d@));
    if big {
        return None;
    }
    let v: i128 = if neg {
        -(acc as i128)
    } else {
        acc as i128
    };
    if -9_223_372_036_854_775_808i128 <= v && v <= 9_223_372_036_854_775_807i128 {
        Some(v as i64)
    } else {
        None
    }
}

fn no_token() -> (r: SyntaxError)
    ensures
        r@ == SynV::NotAToken(seq![]),
{
    let v: Vec<char> = Vec::new();
    assert(v@ =~= Seq::<char>::empty());
    SyntaxError::NotAToken(string_from_chars(v.as_slice()))
}

/// The model of a read atom.
pub open spec fn view_atom(r: Result<SExp, SyntaxError>) -> Result<Val, SynV> {
    match r {
        Ok(v) => Ok(v@),
        Err(e) => Err(e@),
    }
}

/// The value of an atom token (see [`atom_of`]).
fn atom_of_exec(t: &[char]) -> (r: Result<SExp, SyntaxError>)
    ensures
        view_atom(r) == atom_of(t@),
{
    proof {
        reveal_strlit("#t");
        reveal_strlit("#f");
    }
    if t.len() == 2 && t[0] == '#' && t[1] == 't' {
        assert(t@ =~= "#t"@);
        return Ok(SExp::from_bool(true));
    }
    if t.len() == 2 && t[0] == '#' && t[1] == 'f' {
        assert(t@ =~= "#f"@);
        return Ok(SExp::from_bool(false));
    }
    assert(t@ != "#t"@ && t@ != "#f"@);
    match int_literal_exec(t) {
        Some(n) => {
            return Ok(SExp::from_int(n));
        },
        None => {},
    }
    if t.len() == 3 && t[0] == '#' && t[1] == '\\' {
        return Ok(SExp::from_char(t[2]));
    }
    if float_like_exec(t) {
        return Err(SyntaxError::NotANumber(string_from_chars(t)));
    }
    let mut k: usize = 0;
    while k < t.len()
        invariant
            k <= t@.len(),
            t@ != "#t"@ && t@ != "#f"@,
            int_literal(t@) is None,
            !(t@.len() == 3 && t@[0] == '#' && t@[1] == '\\'),
            !float_like(t@),
            forall|m: int| 0 <= m < k ==> is_symbol_char(#[trigger] t@[m]),
        decreases t@.len() - k,
    {
        if !is_symbol_char_exec(t[k]) {
            assert(!all_symbol_chars(t@));
            return Err(SyntaxError::NotAPrimitive(string_from_chars(t)));
        }
        k += 1;
    }
    Ok(SExp::Atom(Primitive::Symbol(string_from_chars(t))))
}

/// The model of a datum read with the position after it.
pub open spec fn view_read(r: Result<(SExp, usize), SyntaxError>) -> Result<(Val, nat), SynV> {
    match r {
        Ok((v, k)) => Ok((v@, k as nat)),
        Err(e) => Err(e@),
    }
}

fn quote_exec(v: SExp) -> (r: SExp)
    ensures
        r@ == quote_of(v@),
{
    let nil = SExp::Null;
    assert(nil@ == Val::Null);
    let inner = SExp::Pair { head: Box::new(v), tail: Box::new(nil) };
    assert(inner@ == Val::Pair(Box::new(v@), Box::new(Val::Null)));
    SExp::Pair { head: Box::new(SExp::sym("quote")), tail: Box::new(inner) }
}

/// Reads the datum at or after `i` (see [`read_datum`]).
fn read_datum_exec(s: &[char], i: usize) -> (r: Result<(SExp, usize), SyntaxError>)
    requires
        i <= s@.len(),
    ensures
        view_read(r) == read_datum(s@, i as nat),
        r matches Ok((_, k)) ==> k <= s@.len(),
    decreases s@.len() - i, 0int,
{
    proof {
        lemma_skip_ws(s@, i as nat);
    }
    let j = skip_ws_exec(s, i);
    if j >= s.len() {
        return Err(no_token());
    }
    let c = s[j];
    if c == '(' {
        read_list_exec(s, j + 1)
    } else if c == ')' {
        Err(SyntaxError::UnmatchedParen { exp: string_from_chars(s), expected: '(', given: Some(')') })
    } else if c == '\'' {
        match read_datum_exec(s, j + 1) {
            Ok((v, k)) => Ok((quote_exec(v), k)),
            Err(e) => Err(e),
        }
    } else if c == '"' {
        proof {
            lemma_string_end(s@, (j + 1) as nat);
        }
        match string_end_exec(s, j + 1) {
            Some(k) => {
                let text = string_from_chars(vstd::slice::slice_subrange(s, j + 1, k));
                Ok((SExp::Atom(Primitive::String(text)), k + 1))
            },
            None => Err(SyntaxError::UnmatchedQuote(string_from_chars(vstd::slice::slice_subrange(s, j, s.len())))),
        }
    } else {
        proof {
            lemma_token_end(s@, j as nat);
            if j + 2 < s@.len() {
                lemma_token_end(s@, (j + 3) as nat);
            }
        }
        let e = atom_end_exec(s, j);
        match atom_of_exec(vstd::slice::slice_subrange(s, j, e)) {
            Ok(v) => Ok((v, e)),
            Err(x) => Err(x),
        }
    }
}

/// Reads the rest of a list (see [`read_list`]).
fn read_list_exec(s: &[char], i: usize) -> (r: Result<(SExp, usize), SyntaxError>)
    requires
        i <= s@.len(),
    ensures
        view_read(r) == read_list(s@, i as nat),
        r matches Ok((_, k)) ==> k <= s@.len(),
    decreases s@.len() - i, 1int,
{
    proof {
        lemma_skip_ws(s@, i as nat);
    }
    let j = skip_ws_exec(s, i);
    if j >= s.len() {
        return Err(SyntaxError::UnmatchedParen { exp: string_from_chars(s), expected: ')', given: None });
    }
    if s[j] == ')' {
        let nil = SExp::Null;
        assert(nil@ == Val::Null);
        return Ok((nil, j + 1));
    }
    match read_datum_exec(s, j) {
        Err(e) => Err(e),
        Ok((v, k)) => {
            if j < k && k <= s.len() {
                match read_list_exec(s, k) {
                    Ok((rest, m)) => Ok((SExp::Pair { head: Box::new(v), tail: Box::new(rest) }, m)),
                    Err(e) => Err(e),
                }
            } else {
                Err(no_token())
            }
        },
    }
}

/// The model of the data read from a text.
pub open spec fn view_items(r: Result<Vec<SExp>, SyntaxError>) -> Result<Seq<Val>, SynV> {
    match r {
        Ok(v) => Ok(view_seq(v@)),
        Err(e) => Err(e@),
    }
}

fn read_all_exec(s: &[char]) -> (r: Result<Vec<SExp>, SyntaxError>)
    ensures
        view_items(r) == read_all(s@, 0, seq![]),
{
    let mut out: Vec<SExp> = Vec::new();
    let mut i: usize = 0;
    proof {
        lemma_view_seq(out@);
        assert(view_seq(out@) =~= Seq::<Val>::empty());
    }
    loop
        invariant
            i <= s@.len(),
            read_all(s@, i as nat, view_seq(out@)) == read_all(s@, 0, seq![]),
        decreases s@.len() - i,
    {
        proof {
            lemma_skip_ws(s@, i as nat);
        }
        let j = skip_ws_exec(s, i);
        if j >= s.len() {
            return Ok(out);
        }
        match read_datum_exec(s, j) {
            Err(e) => {
                return Err(e);
            },
            Ok((v, k)) => {
                if j < k && k <= s.len() {
                    proof {
                        crate::value::lemma_view_seq_push(out@, v);
                    }
                    out.push(v);
                    i = k;
                } else {
                    return Err(no_token());
                }
            },
        }
    }
}

/// Reads source text into one S-expression (see [`parse_spec`]).
pub fn parse_program(code: &str) -> (r: Result<SExp, SyntaxError>)
    ensures
        view_atom(r) == parse_spec(code@),
{
    let cs = crate::text::chars_of(code);
    let s = cs.as_slice();
    let mut vs = match read_all_exec(s) {
        Ok(v) => v,
        Err(e) => {
            return Err(e);
        },
    };
    proof {
        lemma_view_seq(vs@);
    }
    if vs.len() == 0 {
        Err(no_token())
    } else if vs.len() == 1 {
        Ok(vs.pop().unwrap())
    } else if !opens_with_list_exec(s) {
        Err(SyntaxError::NotAToken(string_from_chars(s)))
    } else {
        let ghost before = view_seq(vs@);
        vs.insert(0, SExp::sym("begin"));
        proof {
            lemma_view_seq(vs@);
            assert(view_seq(vs@) =~= seq![sym_val("begin"@)] + before);
        }
        Ok(SExp::from_items(vs))
    }
}

impl std::str::FromStr for SExp {
    type Err = SyntaxError;

    fn from_str(code: &str) -> (r: Result<SExp, SyntaxError>)
        ensures
            view_atom(r) == parse_spec(code@),
    {
        parse_program(code)
    }
}

impl SExp {
    /// Reads source text into an S-expression (see [`parse_spec`]).
    pub fn parse(code: &str) -> (r: Result<SExp, SyntaxError>)
        ensures
            view_atom(r) == parse_spec(code@),
    {
        parse_program(code)
    }
}

} // verus!
