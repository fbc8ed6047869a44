//! S-expressions, their primitive atoms and procedures, and the mathematical
//! model ([`Val`]) that every contract of the library speaks of.
use vstd::prelude::*;

use crate::text::{chars_of, string_from_chars};

verus! {

/// The procedures that the runtime provides natively: the special forms of
/// the core language and the functions of the base library.
#[derive(Clone, Copy, Debug, PartialEq, Eq)]
pub enum Builtin {
    Eval,
    Apply,
    And,
    Begin,
    Case,
    Cond,
    Do,
    Define,
    If,
    Lambda,
    Let,
    NamedLambda,
    Or,
    Quasiquote,
    Quote,
    SetBang,
    EqP,
    EqvP,
    EqualP,
    NullP,
    MakeVoid,
    List,
    Not,
    Cons,
    Car,
    Cdr,
    SetCar,
    SetCdr,
    TypeOf,
    Display,
    Displayln,
    Write,
    Writeln,
    Require,
    MapList,
    Foldl,
    Filter,
    ArityValidP,
    OfArityP,
    ThunkP,
    ProcedureP,
    EnvironmentP,
    StringToList,
    ListToString,
    ZeroP,
    Add1,
    Sub1,
    NumEq,
    Less,
    Greater,
    Abs,
    Plus,
    Minus,
    Times,
    Divide,
    Remainder,
    Pow,
    MakeVector,
    VectorCopy,
    VectorP,
    VectorLength,
    VectorRef,
    VectorSet,
    VectorMap,
    Subvector,
    VectorHead,
    VectorTail,
}

/// How many arguments a procedure accepts.
#[derive(Clone, Copy, Debug, PartialEq, Eq)]
pub enum Arity {
    Exactly(usize),
    AtLeast(usize),
    Between(usize, usize),
}

/// A procedure value: what it runs, and the name it was defined under.
#[derive(Debug, PartialEq)]
pub struct Proc {
    pub func: Func,
    pub name: Option<String>,
}

/// The body of a procedure: a native one, or a lambda closing over the
/// environment frame `envt`.
#[derive(Debug, PartialEq)]
pub enum Func {
    Builtin(Builtin),
    Lambda { params: Vec<String>, body: Box<SExp>, envt: usize },
}

/// The atoms of the language. Numbers are exact integers.
#[derive(Debug)]
pub enum Primitive {
    Void,
    Undefined,
    Boolean(bool),
    Character(char),
    Number(i64),
    String(String),
    Symbol(String),
    Procedure(Proc),
    Vector(Vec<SExp>),
}

/// An S-Expression: the null list, an atom, or a pair.
#[derive(Debug, PartialEq)]
pub enum SExp {
    Null,
    Atom(Primitive),
    Pair { head: Box<SExp>, tail: Box<SExp> },
}

// ---------------------------------------------------------------------------
// The model
// ---------------------------------------------------------------------------

/// The mathematical value of an S-expression.
pub enum Val {
    Null,
    Atom(Prim),
    Pair(Box<Val>, Box<Val>),
}

/// The mathematical value of an atom.
pub enum Prim {
    Void,
    Undefined,
    Boolean(bool),
    Character(char),
    Number(int),
    Str(Seq<char>),
    Symbol(Seq<char>),
    Procedure(ProcV),
    Vector(Seq<Val>),
}

/// The mathematical value of a procedure.
pub struct ProcV {
    pub func: FuncV,
    pub name: Option<Seq<char>>,
}

/// The mathematical value of a procedure body.
pub enum FuncV {
    Builtin(Builtin),
    Lambda(Seq<Seq<char>>, Box<Val>, nat),
}

pub open spec fn view_strings(s: Seq<String>) -> Seq<Seq<char>> {
    s.map_values(|x: String| x@)
}

pub open spec fn view_opt_string(o: Option<String>) -> Option<Seq<char>> {
    match o {
        Some(s) => Some(s@),
        None => None,
    }
}

/// The values of a sequence of S-expressions.
pub open spec fn view_seq(s: Seq<SExp>) -> Seq<Val>
    decreases s,
{
    if s.len() == 0 {
        seq![]
    } else {
        view_seq(s.drop_last()).push(sexp_view(s[s.len() - 1]))
    }
}

/// The value of a procedure.
pub open spec fn proc_view(p: Proc) -> ProcV
    decreases p,
{
    ProcV {
        func: match p.func {
            Func::Builtin(b) => FuncV::Builtin(b),
            Func::Lambda { params, body, envt } => FuncV::Lambda(
                view_strings(params@),
                Box::new(sexp_view(*body)),
                envt as nat,
            ),
        },
        name: view_opt_string(p.name),
    }
}

/// The value of an S-expression.
pub open spec fn sexp_view(e: SExp) -> Val
    decreases e,
{
    match e {
        SExp::Null => Val::Null,
        SExp::Atom(p) => Val::Atom(
            match p {
                Primitive::Void => Prim::Void,
                Primitive::Undefined => Prim::Undefined,
                Primitive::Boolean(b) => Prim::Boolean(b),
                Primitive::Character(c) => Prim::Character(c),
                Primitive::Number(n) => Prim::Number(n as int),
                Primitive::String(s) => Prim::Str(s@),
                Primitive::Symbol(s) => Prim::Symbol(s@),
                Primitive::Procedure(p) => Prim::Procedure(proc_view(p)),
                Primitive::Vector(v) => Prim::Vector(view_seq(v@)),
            },
        ),
        SExp::Pair { head, tail } => Val::Pair(Box::new(sexp_view(*head)), Box::new(sexp_view(*tail))),
    }
}

impl View for SExp {
    type V = Val;

    open spec fn view(&self) -> Val {
        sexp_view(*self)
    }
}

impl View for Primitive {
    type V = Val;

    open spec fn view(&self) -> Val {
        sexp_view(SExp::Atom(*self))
    }
}

impl View for Proc {
    type V = ProcV;

    open spec fn view(&self) -> ProcV {
        proc_view(*self)
    }
}

pub proof fn lemma_view_seq(s: Seq<SExp>)
    ensures
        view_seq(s).len() == s.len(),
        forall|i: int| 0 <= i < s.len() ==> #[trigger] view_seq(s)[i] == s[i]@,
    decreases s.len(),
{
    if s.len() > 0 {
        lemma_view_seq(s.drop_last());
    }
}

pub proof fn lemma_view_seq_push(s: Seq<SExp>, x: SExp)
    ensures
        view_seq(s.push(x)) == view_seq(s).push(x@),
{
    assert(s.push(x).drop_last() =~= s);
}

pub proof fn lemma_view_seq_update(s: Seq<SExp>, i: int, x: SExp)
    requires
        0 <= i < s.len(),
    ensures
        view_seq(s.update(i, x)) == view_seq(s).update(i, x@),
{
    lemma_view_seq(s);
    lemma_view_seq(s.update(i, x));
    assert(view_seq(s.update(i, x)) =~= view_seq(s).update(i, x@));
}

/// A size measure on S-expressions, used to justify structural recursion.
pub open spec fn size_seq(s: Seq<SExp>) -> nat
    decreases s,
{
    if s.len() == 0 {
        0
    } else {
        size_seq(s.drop_last()) + sexp_size(s[s.len() - 1])
    }
}

pub open spec fn sexp_size(e: SExp) -> nat
    decreases e,
{
    match e {
        SExp::Atom(Primitive::Vector(v)) => 1 + size_seq(v@),
        SExp::Atom(Primitive::Procedure(p)) => match p.func {
            Func::Lambda { body, .. } => 1 + sexp_size(*body),
            _ => 1,
        },
        SExp::Pair { head, tail } => 1 + sexp_size(*head) + sexp_size(*tail),
        _ => 1,
    }
}

pub proof fn lemma_size_seq(s: Seq<SExp>, i: int)
    requires
        0 <= i < s.len(),
    ensures
        sexp_size(s[i]) <= size_seq(s),
    decreases s.len(),
{
    if i < s.len() - 1 {
        lemma_size_seq(s.drop_last(), i);
    }
}

// ---------------------------------------------------------------------------
// Lists in the model
// ---------------------------------------------------------------------------

/// The elements that iterating over a value yields: the heads of a chain of
/// pairs, then the final atom if the chain does not end in the null list.
pub open spec fn items(v: Val) -> Seq<Val>
    decreases v,
{
    match v {
        Val::Null => seq![],
        Val::Atom(_) => seq![v],
        Val::Pair(h, t) => seq![*h] + items(*t),
    }
}

/// The proper list holding the given elements.
pub open spec fn list_of(s: Seq<Val>) -> Val
    decreases s.len(),
{
    if s.len() == 0 {
        Val::Null
    } else {
        Val::Pair(Box::new(s[0]), Box::new(list_of(s.drop_first())))
    }
}

pub proof fn lemma_items_list_of(s: Seq<Val>)
    ensures
        items(list_of(s)) == s,
    decreases s.len(),
{
    if s.len() > 0 {
        lemma_items_list_of(s.drop_first());
        assert(seq![s[0]] + s.drop_first() =~= s);
    }
}

/// The number of elements of a value (see [`items`]).
pub open spec fn list_len(v: Val) -> nat {
    items(v).len()
}

/// The number of elements of a value as a machine count: [`list_len`],
/// which no list held in memory can exceed `usize::MAX`.
pub open spec fn list_count(v: Val) -> nat {
    if list_len(v) <= usize::MAX {
        list_len(v)
    } else {
        usize::MAX as nat
    }
}

pub open spec fn sym_val(s: Seq<char>) -> Val {
    Val::Atom(Prim::Symbol(s))
}

pub open spec fn bool_val(b: bool) -> Val {
    Val::Atom(Prim::Boolean(b))
}

pub open spec fn num_val(n: int) -> Val {
    Val::Atom(Prim::Number(n))
}

pub open spec fn str_val(s: Seq<char>) -> Val {
    Val::Atom(Prim::Str(s))
}

pub open spec fn undefined_val() -> Val {
    Val::Atom(Prim::Undefined)
}

pub open spec fn is_false(v: Val) -> bool {
    v == bool_val(false)
}

/// Equality of atoms as the language sees it: void, undefined, booleans,
/// characters, numbers, strings and symbols compare by value; procedures and
/// vectors are never equal to anything.
pub open spec fn prim_equal(a: Prim, b: Prim) -> bool {
    match (a, b) {
        (Prim::Void, Prim::Void) => true,
        (Prim::Undefined, Prim::Undefined) => true,
        (Prim::Boolean(x), Prim::Boolean(y)) => x == y,
        (Prim::Character(x), Prim::Character(y)) => x == y,
        (Prim::Number(x), Prim::Number(y)) => x == y,
        (Prim::Str(x), Prim::Str(y)) => x == y,
        (Prim::Symbol(x), Prim::Symbol(y)) => x == y,
        _ => false,
    }
}

/// Structural equality of values, comparing atoms with [`prim_equal`].
pub open spec fn val_equal(a: Val, b: Val) -> bool
    decreases a,
{
    match (a, b) {
        (Val::Null, Val::Null) => true,
        (Val::Atom(x), Val::Atom(y)) => prim_equal(x, y),
        (Val::Pair(h1, t1), Val::Pair(h2, t2)) => val_equal(*h1, *h2) && val_equal(*t1, *t2),
        _ => false,
    }
}

/// The name of the type of an atom.
pub open spec fn prim_type_label(p: Prim) -> Seq<char> {
    match p {
        Prim::Void => "void"@,
        Prim::Undefined => "undefined"@,
        Prim::Boolean(_) => "bool"@,
        Prim::Character(_) => "char"@,
        Prim::Number(_) => "number"@,
        Prim::Str(_) => "string"@,
        Prim::Symbol(_) => "symbol"@,
        Prim::Procedure(_) => "procedure"@,
        Prim::Vector(_) => "vector"@,
    }
}

/// The name of the type of a value: `null` for the null list, `list` for a
/// pair.
pub open spec fn type_label(v: Val) -> Seq<char> {
    match v {
        Val::Null => "null"@,
        Val::Pair(_, _) => "list"@,
        Val::Atom(p) => prim_type_label(p),
    }
}

// ---------------------------------------------------------------------------
// Executable operations
// ---------------------------------------------------------------------------

/// The name of the type of an atom.
pub fn prim_type_str(p: &Primitive) -> (r: &'static str)
    ensures
        r@ == prim_type_label(sexp_view(SExp::Atom(*p))->Atom_0),
{
    match p {
        Primitive::Void => "void",
        Primitive::Undefined => "undefined",
        Primitive::Boolean(_) => "bool",
        Primitive::Character(_) => "char",
        Primitive::Number(_) => "number",
        Primitive::String(_) => "string",
        Primitive::Symbol(_) => "symbol",
        Primitive::Procedure(_) => "procedure",
        Primitive::Vector(_) => "vector",
    }
}

impl Primitive {
    /// The name of this atom's type.
    pub fn type_of(&self) -> (r: &'static str)
        ensures
            r@ == type_label(self@),
    {
        prim_type_str(self)
    }
}

fn copy_strings(v: &Vec<String>) -> (r: Vec<String>)
    ensures
        view_strings(r@) == view_strings(v@),
{
    let mut out: Vec<String> = Vec::new();
    let mut i: usize = 0;
    while i < v.len()
        invariant
            i <= v.len(),
            out@ == v@.subrange(0, i as int),
        decreases v.len() - i,
    {
        out.push(v[i].clone());
        i += 1;
        assert(out@ =~= v@.subrange(0, i as int));
    }
    assert(out@ =~= v@);
    out
}

fn copy_opt_string(o: &Option<String>) -> (r: Option<String>)
    ensures
        view_opt_string(r) == view_opt_string(*o),
{
    match o {
        Some(s) => Some(s.clone()),
        None => None,
    }
}

impl SExp {
    /// A copy of this S-expression with the same value.
    pub fn dup(&self) -> (r: SExp)
        ensures
            r@ == self@,
        decreases sexp_size(*self),
    {
        match self {
            SExp::Null => SExp::Null,
            SExp::Pair { head, tail } => SExp::Pair {
                head: Box::new(head.dup()),
                tail: Box::new(tail.dup()),
            },
            SExp::Atom(p) => SExp::Atom(
                match p {
                    Primitive::Void => Primitive::Void,
                    Primitive::Undefined => Primitive::Undefined,
                    Primitive::Boolean(b) => Primitive::Boolean(*b),
                    Primitive::Character(c) => Primitive::Character(*c),
                    Primitive::Number(n) => Primitive::Number(*n),
                    Primitive::String(s) => Primitive::String(s.clone()),
                    Primitive::Symbol(s) => Primitive::Symbol(s.clone()),
                    Primitive::Procedure(pr) => {
                        let func = match &pr.func {
                            Func::Builtin(b) => Func::Builtin(*b),
                            Func::Lambda { params, body, envt } => Func::Lambda {
                                params: copy_strings(params),
                                body: Box::new(body.dup()),
                                envt: *envt,
                            },
                        };
                        let q = Proc { func, name: copy_opt_string(&pr.name) };
                        assert(proc_view(q) == proc_view(*pr));
                        Primitive::Procedure(q)
                    },
                    Primitive::Vector(v) => {
                        let mut out: Vec<SExp> = Vec::new();
                        let mut i: usize = 0;
                        while i < v.len()
                            invariant
                                i <= v.len(),
                                out.len() == i,
                                sexp_size(*self) > size_seq(v@),
                                forall|j: int| 0 <= j < i ==> #[trigger] out@[j]@ == v@[j]@,
                            decreases v.len() - i,
                        {
                            proof {
                                lemma_size_seq(v@, i as int);
                            }
                            out.push(v[i].dup());
                            i += 1;
                        }
                        proof {
                            lemma_view_seq(out@);
                            lemma_view_seq(v@);
                            assert(view_seq(out@) =~= view_seq(v@));
                        }
                        Primitive::Vector(out)
                    },
                },
            ),
        }
    }

    /// The natural way to build up a list - from the end to the beginning:
    /// a pair whose head is `exp` and whose tail is `self`.
    pub fn cons(self, exp: SExp) -> (r: SExp)
        ensures
            r@ == Val::Pair(Box::new(exp@), Box::new(self@)),
    {
        SExp::Pair { head: Box::new(exp), tail: Box::new(self) }
    }

    /// A symbol atom with the given name.
    pub fn sym(name: &str) -> (r: SExp)
        ensures
            r@ == sym_val(name@),
    {
        SExp::Atom(Primitive::Symbol(string_from_chars(chars_of(name).as_slice())))
    }

    /// A symbol atom with the given name (another name for [`SExp::sym`]).
    pub fn make_symbol(name: &str) -> (r: SExp)
        ensures
            r@ == sym_val(name@),
    {
        SExp::sym(name)
    }

    /// A string atom.
    pub fn from_str_slice(s: &str) -> (r: SExp)
        ensures
            r@ == str_val(s@),
    {
        SExp::Atom(Primitive::String(string_from_chars(chars_of(s).as_slice())))
    }

    /// A boolean atom.
    pub fn from_bool(b: bool) -> (r: SExp)
        ensures
            r@ == bool_val(b),
    {
        SExp::Atom(Primitive::Boolean(b))
    }

    /// A number atom.
    pub fn from_int(n: i64) -> (r: SExp)
        ensures
            r@ == num_val(n as int),
    {
        SExp::Atom(Primitive::Number(n))
    }

    /// A character atom.
    pub fn from_char(c: char) -> (r: SExp)
        ensures
            r@ == Val::Atom(Prim::Character(c)),
    {
        SExp::Atom(Primitive::Character(c))
    }

    /// The name of this value's type: `null`, `list`, or the type of the atom.
    pub fn type_of(&self) -> (r: &'static str)
        ensures
            r@ == type_label(self@),
    {
        match self {
            SExp::Null => "null",
            SExp::Pair { .. } => "list",
            SExp::Atom(p) => prim_type_str(p),
        }
    }

    /// Splits a list into the elements that iterating over it yields.
    pub fn into_items(self) -> (r: Vec<SExp>)
        ensures
            view_seq(r@) == items(self@),
    {
        let mut out: Vec<SExp> = Vec::new();
        let mut rest = self;
        proof {
            lemma_view_seq(out@);
            assert(view_seq(out@) =~= Seq::<Val>::empty());
            assert(view_seq(out@) + items(rest@) =~= items(self@));
        }
        loop
            invariant
                view_seq(out@) + items(rest@) == items(self@),
            decreases sexp_size(rest),
        {
            match rest {
                SExp::Pair { head, tail } => {
                    let ghost before = out@;
                    let ghost hv = head@;
                    let ghost tv = tail@;
                    out.push(*head);
                    proof {
                        assert(out@.drop_last() == before);
                        assert(view_seq(out@) == view_seq(before).push(hv));
                    }
                    rest = *tail;
                    assert(view_seq(out@) + items(tv) =~= view_seq(before) + (seq![hv] + items(tv)));
                },
                SExp::Null => {
                    assert(view_seq(out@) =~= view_seq(out@) + items(SExp::Null@));
                    return out;
                },
                SExp::Atom(p) => {
                    let ghost before = out@;
                    let a = SExp::Atom(p);
                    let ghost av = a@;
                    out.push(a);
                    proof {
                        assert(out@.drop_last() == before);
                        assert(view_seq(out@) == view_seq(before).push(av));
                    }
                    assert(view_seq(out@) =~= view_seq(before) + items(av));
                    return out;
                },
            }
        }
    }

    /// The proper list of the given elements, in order.
    pub fn from_items(v: Vec<SExp>) -> (r: SExp)
        ensures
            r@ == list_of(view_seq(v@)),
    {
        let mut v = v;
        let mut out = SExp::Null;
        let ghost orig = v@;
        proof {
            lemma_view_seq(orig);
        }
        while v.len() > 0
            invariant
                v@ == orig.subrange(0, v@.len() as int),
                v@.len() <= orig.len(),
                view_seq(orig).len() == orig.len(),
                forall|i: int| 0 <= i < orig.len() ==> #[trigger] view_seq(orig)[i] == orig[i]@,
                out@ == list_of(view_seq(orig).subrange(v@.len() as int, orig.len() as int)),
            decreases v.len(),
        {
            let e = v.pop().unwrap();
            let ghost k = v@.len() as int;
            out = SExp::Pair { head: Box::new(e), tail: Box::new(out) };
            assert(view_seq(orig).subrange(k, orig.len() as int).drop_first() =~= view_seq(
                orig,
            ).subrange(k + 1, orig.len() as int));
            assert(v@ =~= orig.subrange(0, v@.len() as int));
        }
        assert(view_seq(orig).subrange(0, orig.len() as int) =~= view_seq(orig));
        out
    }

    /// The first element of a pair.
    pub fn car(&self) -> (r: Result<SExp, crate::errors::Error>)
        ensures
            crate::errors::view_result(r) == crate::errors::car_spec(self@),
    {
        match self {
            SExp::Null => Err(crate::errors::Error::NullList),
            SExp::Atom(_) => Err(crate::errors::Error::NotAList { atom: crate::display::show(self) }),
            SExp::Pair { head, .. } => Ok(head.dup()),
        }
    }

    /// The rest of a pair.
    pub fn cdr(&self) -> (r: Result<SExp, crate::errors::Error>)
        ensures
            crate::errors::view_result(r) == crate::errors::cdr_spec(self@),
    {
        match self {
            SExp::Null => Err(crate::errors::Error::NullList),
            SExp::Atom(_) => Err(crate::errors::Error::NotAList { atom: crate::display::show(self) }),
            SExp::Pair { tail, .. } => Ok(tail.dup()),
        }
    }
}

} // verus!

verus! {

impl Clone for SExp {
    fn clone(&self) -> (r: Self)
        ensures
            r@ == self@,
    {
        self.dup()
    }
}

/// Atoms compare as the language compares them (see [`prim_equal`]):
/// procedures and vectors are never equal to anything.
impl PartialEq for Primitive {
    fn eq(&self, other: &Self) -> (r: bool) {
        crate::builtins::prim_equal_exec(self, other)
    }
}

impl vstd::std_specs::cmp::PartialEqSpecImpl for Primitive {
    open spec fn obeys_eq_spec() -> bool {
        true
    }

    open spec fn eq_spec(&self, other: &Self) -> bool {
        prim_equal(SExp::Atom(*self)@->Atom_0, SExp::Atom(*other)@->Atom_0)
    }
}

impl From<bool> for SExp {
    fn from(v: bool) -> (r: Self) {
        SExp::Atom(Primitive::Boolean(v))
    }
}

impl vstd::std_specs::convert::FromSpecImpl<bool> for SExp {
    open spec fn obeys_from_spec() -> bool {
        true
    }

    open spec fn from_spec(v: bool) -> Self {
        SExp::Atom(Primitive::Boolean(v))
    }
}

impl From<i64> for SExp {
    fn from(v: i64) -> (r: Self) {
        SExp::Atom(Primitive::Number(v))
    }
}

impl vstd::std_specs::convert::FromSpecImpl<i64> for SExp {
    open spec fn obeys_from_spec() -> bool {
        true
    }

    open spec fn from_spec(v: i64) -> Self {
        SExp::Atom(Primitive::Number(v))
    }
}

impl From<char> for SExp {
    fn from(v: char) -> (r: Self) {
        SExp::Atom(Primitive::Character(v))
    }
}

impl vstd::std_specs::convert::FromSpecImpl<char> for SExp {
    open spec fn obeys_from_spec() -> bool {
        true
    }

    open spec fn from_spec(v: char) -> Self {
        SExp::Atom(Primitive::Character(v))
    }
}

} // verus!
