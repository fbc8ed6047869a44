//! The errors of parsing and evaluation, their model, and their messages.
use vstd::prelude::*;

use crate::display::{show_into, show_spec};
use crate::text::{nat_digits, push_all, push_str, string_from_chars, usize_to_chars};
use crate::value::{type_label, SExp, Val};

verus! {

/// Errors found while reading source text.
#[derive(Debug)]
pub enum SyntaxError {
    UnmatchedQuote(String),
    UnmatchedParen { exp: String, expected: char, given: Option<char> },
    InvalidCond(SExp),
    NotANumber(String),
    NotAPrimitive(String),
    NotAToken(String),
}

/// Multipurpose error type.
///
/// Numbers are exact integers: `Inexact` reports an arithmetic result that is
/// not one (an overflow, an inexact quotient, a division by zero).
/// `Exhausted` reports that evaluation ran out of its step budget.
/// `Unread` reports a `require` of a file whose text the context has not
/// been given (see [`crate::context::Context::provide_file`]).
#[derive(Debug)]
pub enum Error {
    Syntax(SyntaxError),
    Type { expected: &'static str, given: String },
    UndefinedSymbol { sym: String },
    Arity { expected: usize, given: usize },
    ArityMin { expected: usize, given: usize },
    ArityMax { expected: usize, given: usize },
    NotAList { atom: String },
    NullList,
    NotAProcedure { exp: String },
    Index { i: usize },
    IO(String),
    Unread { path: String },
    Inexact,
    Exhausted,
}

/// The model of a syntax error.
pub enum SynV {
    UnmatchedQuote(Seq<char>),
    UnmatchedParen(Seq<char>, char, Option<char>),
    InvalidCond(Val),
    NotANumber(Seq<char>),
    NotAPrimitive(Seq<char>),
    NotAToken(Seq<char>),
}

/// The model of an error.
pub enum ErrV {
    Syntax(SynV),
    Type(Seq<char>, Seq<char>),
    UndefinedSymbol(Seq<char>),
    Arity(nat, nat),
    ArityMin(nat, nat),
    ArityMax(nat, nat),
    NotAList(Seq<char>),
    NullList,
    NotAProcedure(Seq<char>),
    Index(nat),
    IO(Seq<char>),
    Unread(Seq<char>),
    Inexact,
    Exhausted,
}

pub open spec fn syn_view(e: SyntaxError) -> SynV {
    match e {
        SyntaxError::UnmatchedQuote(s) => SynV::UnmatchedQuote(s@),
        SyntaxError::UnmatchedParen { exp, expected, given } => SynV::UnmatchedParen(
            exp@,
            expected,
            given,
        ),
        SyntaxError::InvalidCond(e) => SynV::InvalidCond(e@),
        SyntaxError::NotANumber(s) => SynV::NotANumber(s@),
        SyntaxError::NotAPrimitive(s) => SynV::NotAPrimitive(s@),
        SyntaxError::NotAToken(s) => SynV::NotAToken(s@),
    }
}

pub open spec fn err_view(e: Error) -> ErrV {
    match e {
        Error::Syntax(s) => ErrV::Syntax(syn_view(s)),
        Error::Type { expected, given } => ErrV::Type(expected@, given@),
        Error::UndefinedSymbol { sym } => ErrV::UndefinedSymbol(sym@),
        Error::Arity { expected, given } => ErrV::Arity(expected as nat, given as nat),
        Error::ArityMin { expected, given } => ErrV::ArityMin(expected as nat, given as nat),
        Error::ArityMax { expected, given } => ErrV::ArityMax(expected as nat, given as nat),
        Error::NotAList { atom } => ErrV::NotAList(atom@),
        Error::NullList => ErrV::NullList,
        Error::NotAProcedure { exp } => ErrV::NotAProcedure(exp@),
        Error::Index { i } => ErrV::Index(i as nat),
        Error::IO(s) => ErrV::IO(s@),
        Error::Unread { path } => ErrV::Unread(path@),
        Error::Inexact => ErrV::Inexact,
        Error::Exhausted => ErrV::Exhausted,
    }
}

impl View for Error {
    type V = ErrV;

    open spec fn view(&self) -> ErrV {
        err_view(*self)
    }
}

impl View for SyntaxError {
    type V = SynV;

    open spec fn view(&self) -> SynV {
        syn_view(*self)
    }
}

/// The model of an evaluation result.
pub open spec fn view_result(r: Result<SExp, Error>) -> Result<Val, ErrV> {
    match r {
        Ok(v) => Ok(v@),
        Err(e) => Err(e@),
    }
}

/// The first element of a pair; the null list and atoms have none.
pub open spec fn car_spec(v: Val) -> Result<Val, ErrV> {
    match v {
        Val::Null => Err(ErrV::NullList),
        Val::Atom(_) => Err(ErrV::NotAList(show_spec(v))),
        Val::Pair(h, _) => Ok(*h),
    }
}

/// The rest of a pair; the null list and atoms have none.
pub open spec fn cdr_spec(v: Val) -> Result<Val, ErrV> {
    match v {
        Val::Null => Err(ErrV::NullList),
        Val::Atom(_) => Err(ErrV::NotAList(show_spec(v))),
        Val::Pair(_, t) => Ok(*t),
    }
}

pub open spec fn type_err(expected: Seq<char>, v: Val) -> ErrV {
    ErrV::Type(expected, type_label(v))
}

/// The message of a syntax error.
pub open spec fn syntax_message(e: SynV) -> Seq<char> {
    match e {
        SynV::UnmatchedQuote(s) => "Unmatched quote: "@ + s,
        SynV::UnmatchedParen(exp, expected, given) => match given {
            Some(g) => "Paren mismatch: expected "@ + seq![expected] + ", given "@ + seq![g]
                + " in expression "@ + exp,
            None => "Paren mismatch: expected "@ + seq![expected]
                + " and no match found in expression "@ + exp,
        },
        SynV::InvalidCond(v) => "Invalid `cond` clause: "@ + show_spec(v),
        SynV::NotANumber(s) => "Could not parse as a number: "@ + s,
        SynV::NotAPrimitive(s) => "Could not parse as a primitive value: "@ + s,
        SynV::NotAToken(s) => "Unrecognized token: "@ + s,
    }
}

/// The message of an error.
pub open spec fn error_message(e: ErrV) -> Seq<char> {
    match e {
        ErrV::Syntax(s) => syntax_message(s),
        ErrV::Type(expected, given) => "Type error: expected "@ + expected + ", got "@ + given,
        ErrV::UndefinedSymbol(s) => "Undefined symbol: "@ + s,
        ErrV::Arity(expected, given) => "Arity mismatch: expected "@ + nat_digits(expected)
            + " parameters, got "@ + nat_digits(given) + "."@,
        ErrV::ArityMin(expected, given) => "Arity mismatch: expected at least "@ + nat_digits(
            expected,
        ) + " parameters, got "@ + nat_digits(given) + "."@,
        ErrV::ArityMax(expected, given) => "Arity mismatch: expected at most "@ + nat_digits(
            expected,
        ) + " parameters, got "@ + nat_digits(given) + "."@,
        ErrV::NotAList(atom) => "Expected a list, got "@ + atom,
        ErrV::NullList => "Expected a pair, got null."@,
        ErrV::NotAProcedure(exp) => exp + " is not a procedure."@,
        ErrV::Index(i) => "Tried to access invalid index: ["@ + nat_digits(i) + "]"@,
        ErrV::IO(s) => "I/O error: "@ + s,
        ErrV::Unread(path) => "File not yet read: "@ + path,
        ErrV::Inexact => "Arithmetic error: the result is not an exact integer"@,
        ErrV::Exhausted => "Evaluation exceeded its step budget"@,
    }
}

fn lit(out: &mut Vec<char>, s: &str)
    ensures
        final(out)@ == old(out)@ + s@,
{
    push_str(out, s);
}

fn arity_message(out: &mut Vec<char>, prefix: &str, expected: usize, given: usize)
    ensures
        final(out)@ == old(out)@ + prefix@ + nat_digits(expected as nat) + " parameters, got "@
            + nat_digits(given as nat) + "."@,
{
    lit(out, prefix);
    push_all(out, usize_to_chars(expected).as_slice());
    lit(out, " parameters, got ");
    push_all(out, usize_to_chars(given).as_slice());
    lit(out, ".");
}

impl SyntaxError {
    /// The message of this syntax error.
    pub fn message(&self) -> (r: String)
        ensures
            r@ == syntax_message(self@),
    {
        let mut out: Vec<char> = Vec::new();
        match self {
            SyntaxError::UnmatchedQuote(s) => {
                lit(&mut out, "Unmatched quote: ");
                push_str(&mut out, s.as_str());
            },
            SyntaxError::UnmatchedParen { exp, expected, given } => {
                lit(&mut out, "Paren mismatch: expected ");
                out.push(*expected);
                match given {
                    Some(g) => {
                        lit(&mut out, ", given ");
                        out.push(*g);
                        lit(&mut out, " in expression ");
                    },
                    None => {
                        lit(&mut out, " and no match found in expression ");
                    },
                }
                push_str(&mut out, exp.as_str());
            },
            SyntaxError::InvalidCond(v) => {
                lit(&mut out, "Invalid `cond` clause: ");
                show_into(v, &mut out);
            },
            SyntaxError::NotANumber(s) => {
                lit(&mut out, "Could not parse as a number: ");
                push_str(&mut out, s.as_str());
            },
            SyntaxError::NotAPrimitive(s) => {
                lit(&mut out, "Could not parse as a primitive value: ");
                push_str(&mut out, s.as_str());
            },
            SyntaxError::NotAToken(s) => {
                lit(&mut out, "Unrecognized token: ");
                push_str(&mut out, s.as_str());
            },
        }
        assert(out@ =~= syntax_message(self@));
        string_from_chars(out.as_slice())
    }
}

impl Error {
    /// The message of this error.
    pub fn message(&self) -> (r: String)
        ensures
            r@ == error_message(self@),
    {
        let mut out: Vec<char> = Vec::new();
        match self {
            Error::Syntax(s) => {
                return s.message();
            },
            Error::Type { expected, given } => {
                lit(&mut out, "Type error: expected ");
                push_str(&mut out, expected);
                lit(&mut out, ", got ");
                push_str(&mut out, given.as_str());
            },
            Error::UndefinedSymbol { sym } => {
                lit(&mut out, "Undefined symbol: ");
                push_str(&mut out, sym.as_str());
            },
            Error::Arity { expected, given } => {
                arity_message(&mut out, "Arity mismatch: expected ", *expected, *given);
            },
            Error::ArityMin { expected, given } => {
                arity_message(&mut out, "Arity mismatch: expected at least ", *expected, *given);
            },
            Error::ArityMax { expected, given } => {
                arity_message(&mut out, "Arity mismatch: expected at most ", *expected, *given);
            },
            Error::NotAList { atom } => {
                lit(&mut out, "Expected a list, got ");
                push_str(&mut out, atom.as_str());
            },
            Error::NullList => {
                lit(&mut out, "Expected a pair, got null.");
            },
            Error::NotAProcedure { exp } => {
                push_str(&mut out, exp.as_str());
                lit(&mut out, " is not a procedure.");
            },
            Error::Index { i } => {
                lit(&mut out, "Tried to access invalid index: [");
                push_all(&mut out, usize_to_chars(*i).as_slice());
                lit(&mut out, "]");
            },
            Error::IO(s) => {
                lit(&mut out, "I/O error: ");
                push_str(&mut out, s.as_str());
            },
            Error::Unread { path } => {
                lit(&mut out, "File not yet read: ");
                push_str(&mut out, path.as_str());
            },
            Error::Inexact => {
                lit(&mut out, "Arithmetic error: the result is not an exact integer");
            },
            Error::Exhausted => {
                lit(&mut out, "Evaluation exceeded its step budget");
            },
        }
        assert(out@ =~= error_message(self@));
        string_from_chars(out.as_slice())
    }
}

} // verus!
