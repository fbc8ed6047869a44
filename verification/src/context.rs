//! Evaluation contexts: the core special forms, a heap of environment frames
//! with the current scope, the language-level definitions, and printed
//! output.
use vstd::prelude::*;

use crate::errors::{ErrV, Error};
use crate::text::{str_eq, string_from_chars};
use crate::value::{proc_view, undefined_val, Builtin, Func, FuncV, Prim, Primitive, Proc, ProcV, SExp, Val};

verus! {

/// One scope: its bindings, and the scope it is nested in.
pub struct Frame {
    vars: Vec<(String, SExp)>,
    parent: Option<usize>,
}

/// Evaluation context for LISP expressions.
///
/// `Context::default()` only provides the core special forms; use
/// `Context::base()` for a context with the base library defined.
///
/// A context keeps the scopes that procedures close over in a heap of
/// frames; `cur` is the frame of the current scope. Definitions made with
/// [`Context::define_lang`] hold throughout the runtime but can be
/// overridden by user definitions.
///
/// `require` runs the text of a file. A context does not read files itself:
/// it is given their texts (or the error of reading them) with
/// [`Context::provide_file`], and evaluation that requires a file it has not
/// been given ends with [`Error::Unread`].
pub struct Context {
    frames: Vec<Frame>,
    cur: usize,
    lang: Vec<(String, SExp)>,
    out: Option<Vec<char>>,
    printed: Vec<char>,
    files: Vec<(String, Result<String, String>)>,
}

/// The model of a frame.
pub struct FrameV {
    pub vars: Seq<(Seq<char>, Val)>,
    pub parent: Option<nat>,
}

/// The model of a context.
pub struct CtxV {
    pub frames: Seq<FrameV>,
    pub cur: nat,
    pub lang: Seq<(Seq<char>, Val)>,
    pub out: Option<Seq<char>>,
    pub printed: Seq<char>,
    pub files: Seq<(Seq<char>, Result<Seq<char>, Seq<char>>)>,
}

/// The model of a file given to a context: its path, and its text or the
/// error of reading it.
pub open spec fn file_view(e: (String, Result<String, String>)) -> (Seq<char>, Result<Seq<char>, Seq<char>>) {
    (
        e.0@,
        match e.1 {
            Ok(t) => Ok(t@),
            Err(m) => Err(m@),
        },
    )
}

pub open spec fn files_view(s: Seq<(String, Result<String, String>)>) -> Seq<(Seq<char>, Result<Seq<char>, Seq<char>>)> {
    s.map_values(|e: (String, Result<String, String>)| file_view(e))
}

/// The first entry for `path` at or after position `i`: the text of the file,
/// or the error of reading it.
pub open spec fn file_get(files: Seq<(Seq<char>, Result<Seq<char>, Seq<char>>)>, path: Seq<char>, i: int) -> Option<
    Result<Seq<char>, Seq<char>>,
>
    decreases files.len() - i,
{
    if i < 0 || i >= files.len() {
        None
    } else if files[i].0 == path {
        Some(files[i].1)
    } else {
        file_get(files, path, i + 1)
    }
}

pub open spec fn binding_view(b: (String, SExp)) -> (Seq<char>, Val) {
    (b.0@, b.1@)
}

pub open spec fn bindings_view(s: Seq<(String, SExp)>) -> Seq<(Seq<char>, Val)> {
    s.map_values(|b: (String, SExp)| binding_view(b))
}

pub closed spec fn frame_view(f: Frame) -> FrameV {
    FrameV {
        vars: bindings_view(f.vars@),
        parent: match f.parent {
            Some(p) => Some(p as nat),
            None => None,
        },
    }
}

pub open spec fn frames_view(s: Seq<Frame>) -> Seq<FrameV> {
    s.map_values(|f: Frame| frame_view(f))
}

pub proof fn lemma_bindings_push(s: Seq<(String, SExp)>, b: (String, SExp))
    ensures
        bindings_view(s.push(b)) == bindings_view(s).push(binding_view(b)),
{
    assert(bindings_view(s.push(b)) =~= bindings_view(s).push(binding_view(b)));
}

pub proof fn lemma_bindings_update(s: Seq<(String, SExp)>, i: int, b: (String, SExp))
    requires
        0 <= i < s.len(),
    ensures
        bindings_view(s.update(i, b)) == bindings_view(s).update(i, binding_view(b)),
{
    assert(bindings_view(s.update(i, b)) =~= bindings_view(s).update(i, binding_view(b)));
}

proof fn lemma_frames_push(s: Seq<Frame>, f: Frame)
    ensures
        frames_view(s.push(f)) == frames_view(s).push(frame_view(f)),
{
    assert(frames_view(s.push(f)) =~= frames_view(s).push(frame_view(f)));
}

proof fn lemma_frames_update(s: Seq<Frame>, i: int, f: Frame)
    requires
        0 <= i < s.len(),
    ensures
        frames_view(s.update(i, f)) == frames_view(s).update(i, frame_view(f)),
{
    assert(frames_view(s.update(i, f)) =~= frames_view(s).update(i, frame_view(f)));
}

proof fn lemma_empty_frame(v: Vec<(String, SExp)>, p: Option<usize>)
    requires
        v@.len() == 0,
    ensures
        frame_view(Frame { vars: v, parent: p }).vars == Seq::<(Seq<char>, Val)>::empty(),
{
    assert(bindings_view(v@) =~= Seq::<(Seq<char>, Val)>::empty());
}

impl View for Context {
    type V = CtxV;

    closed spec fn view(&self) -> CtxV {
        CtxV {
            frames: frames_view(self.frames@),
            cur: self.cur as nat,
            lang: bindings_view(self.lang@),
            out: match self.out {
                Some(b) => Some(b@),
                None => None,
            },
            printed: self.printed@,
            files: files_view(self.files@),
        }
    }
}

// ---------------------------------------------------------------------------
// Bindings
// ---------------------------------------------------------------------------

/// The first position at or after `i` of a binding for `key`.
pub open spec fn assoc_pos(vars: Seq<(Seq<char>, Val)>, key: Seq<char>, i: int) -> Option<nat>
    decreases vars.len() - i,
{
    if i < 0 || i >= vars.len() {
        None
    } else if vars[i].0 == key {
        Some(i as nat)
    } else {
        assoc_pos(vars, key, i + 1)
    }
}

/// The value bound to `key`, if any.
pub open spec fn assoc_get(vars: Seq<(Seq<char>, Val)>, key: Seq<char>) -> Option<Val> {
    match assoc_pos(vars, key, 0) {
        Some(j) => Some(vars[j as int].1),
        None => None,
    }
}

/// `vars` with `key` bound to `value`: the existing binding replaced, or a
/// new one added at the end.
pub open spec fn assoc_put(vars: Seq<(Seq<char>, Val)>, key: Seq<char>, value: Val) -> Seq<(Seq<char>, Val)> {
    match assoc_pos(vars, key, 0) {
        Some(j) => vars.update(j as int, (key, value)),
        None => vars.push((key, value)),
    }
}

pub proof fn lemma_assoc_pos(vars: Seq<(Seq<char>, Val)>, key: Seq<char>, i: int)
    requires
        0 <= i,
    ensures
        match assoc_pos(vars, key, i) {
            Some(j) => i <= j < vars.len() && vars[j as int].0 == key && forall|k: int|
                i <= k < j ==> vars[k].0 != key,
            None => forall|k: int| i <= k < vars.len() ==> vars[k].0 != key,
        },
    decreases vars.len() - i,
{
    if i < vars.len() && vars[i].0 != key {
        lemma_assoc_pos(vars, key, i + 1);
    }
}

/// Looks `key` up in the chain of frames that starts at frame `i`, from the
/// innermost scope outward.
pub open spec fn chain_get(frames: Seq<FrameV>, i: int, key: Seq<char>) -> Option<Val>
    decreases i,
{
    if i < 0 || i >= frames.len() {
        None
    } else {
        match assoc_get(frames[i].vars, key) {
            Some(v) => Some(v),
            None => match frames[i].parent {
                Some(p) => if p < i {
                    chain_get(frames, p as int, key)
                } else {
                    None
                },
                None => None,
            },
        }
    }
}

/// Re-binds `key` in the innermost frame of the chain starting at `i` that
/// binds it; `None` when no frame of the chain does.
pub open spec fn chain_set(frames: Seq<FrameV>, i: int, key: Seq<char>, value: Val) -> Option<Seq<FrameV>>
    decreases i,
{
    if i < 0 || i >= frames.len() {
        None
    } else {
        match assoc_pos(frames[i].vars, key, 0) {
            Some(j) => Some(
                frames.update(
                    i,
                    FrameV { vars: frames[i].vars.update(j as int, (key, value)), parent: frames[i].parent },
                ),
            ),
            None => match frames[i].parent {
                Some(p) => if p < i {
                    chain_set(frames, p as int, key, value)
                } else {
                    None
                },
                None => None,
            },
        }
    }
}

// ---------------------------------------------------------------------------
// The core language
// ---------------------------------------------------------------------------

/// The name that each native procedure is defined under.
pub open spec fn builtin_name(b: Builtin) -> Seq<char> {
    match b {
        Builtin::Eval => "eval"@,
        Builtin::Apply => "apply"@,
        Builtin::And => "and"@,
        Builtin::Begin => "begin"@,
        Builtin::Case => "case"@,
        Builtin::Cond => "cond"@,
        Builtin::Do => "do"@,
        Builtin::Define => "define"@,
        Builtin::If => "if"@,
        Builtin::Lambda => "lambda"@,
        Builtin::Let => "let"@,
        Builtin::NamedLambda => "named-lambda"@,
        Builtin::Or => "or"@,
        Builtin::Quasiquote => "quasiquote"@,
        Builtin::Quote => "quote"@,
        Builtin::SetBang => "set!"@,
        Builtin::EqP => "eq?"@,
        Builtin::EqvP => "eqv?"@,
        Builtin::EqualP => "equal?"@,
        Builtin::NullP => "null?"@,
        Builtin::MakeVoid => "void"@,
        Builtin::List => "list"@,
        Builtin::Not => "not"@,
        Builtin::Cons => "cons"@,
        Builtin::Car => "car"@,
        Builtin::Cdr => "cdr"@,
        Builtin::SetCar => "set-car!"@,
        Builtin::SetCdr => "set-cdr!"@,
        Builtin::TypeOf => "type-of"@,
        Builtin::Display => "display"@,
        Builtin::Displayln => "displayln"@,
        Builtin::Write => "write"@,
        Builtin::Writeln => "writeln"@,
        Builtin::Require => "require"@,
        Builtin::MapList => "map"@,
        Builtin::Foldl => "foldl"@,
        Builtin::Filter => "filter"@,
        Builtin::ArityValidP => "procedure-arity-valid?"@,
        Builtin::OfArityP => "procedure-of-arity?"@,
        Builtin::ThunkP => "thunk?"@,
        Builtin::ProcedureP => "procedure?"@,
        Builtin::EnvironmentP => "environment?"@,
        Builtin::StringToList => "string->list"@,
        Builtin::ListToString => "list->string"@,
        Builtin::ZeroP => "zero?"@,
        Builtin::Add1 => "add1"@,
        Builtin::Sub1 => "sub1"@,
        Builtin::NumEq => "="@,
        Builtin::Less => "<"@,
        Builtin::Greater => ">"@,
        Builtin::Abs => "abs"@,
        Builtin::Plus => "+"@,
        Builtin::Minus => "-"@,
        Builtin::Times => "*"@,
        Builtin::Divide => "/"@,
        Builtin::Remainder => "remainder"@,
        Builtin::Pow => "pow"@,
        Builtin::MakeVector => "make-vector"@,
        Builtin::VectorCopy => "vector-copy"@,
        Builtin::VectorP => "vector?"@,
        Builtin::VectorLength => "vector-length"@,
        Builtin::VectorRef => "vector-ref"@,
        Builtin::VectorSet => "vector-set!"@,
        Builtin::VectorMap => "vector-map"@,
        Builtin::Subvector => "subvector"@,
        Builtin::VectorHead => "vector-head"@,
        Builtin::VectorTail => "vector-tail"@,
    }
}

/// The name of a native procedure.
pub fn builtin_name_str(b: Builtin) -> (r: &'static str)
    ensures
        r@ == builtin_name(b),
{
    match b {
        Builtin::Eval => "eval",
        Builtin::Apply => "apply",
        Builtin::And => "and",
        Builtin::Begin => "begin",
        Builtin::Case => "case",
        Builtin::Cond => "cond",
        Builtin::Do => "do",
        Builtin::Define => "define",
        Builtin::If => "if",
        Builtin::Lambda => "lambda",
        Builtin::Let => "let",
        Builtin::NamedLambda => "named-lambda",
        Builtin::Or => "or",
        Builtin::Quasiquote => "quasiquote",
        Builtin::Quote => "quote",
        Builtin::SetBang => "set!",
        Builtin::EqP => "eq?",
        Builtin::EqvP => "eqv?",
        Builtin::EqualP => "equal?",
        Builtin::NullP => "null?",
        Builtin::MakeVoid => "void",
        Builtin::List => "list",
        Builtin::Not => "not",
        Builtin::Cons => "cons",
        Builtin::Car => "car",
        Builtin::Cdr => "cdr",
        Builtin::SetCar => "set-car!",
        Builtin::SetCdr => "set-cdr!",
        Builtin::TypeOf => "type-of",
        Builtin::Display => "display",
        Builtin::Displayln => "displayln",
        Builtin::Write => "write",
        Builtin::Writeln => "writeln",
        Builtin::Require => "require",
        Builtin::MapList => "map",
        Builtin::Foldl => "foldl",
        Builtin::Filter => "filter",
        Builtin::ArityValidP => "procedure-arity-valid?",
        Builtin::OfArityP => "procedure-of-arity?",
        Builtin::ThunkP => "thunk?",
        Builtin::ProcedureP => "procedure?",
        Builtin::EnvironmentP => "environment?",
        Builtin::StringToList => "string->list",
        Builtin::ListToString => "list->string",
        Builtin::ZeroP => "zero?",
        Builtin::Add1 => "add1",
        Builtin::Sub1 => "sub1",
        Builtin::NumEq => "=",
        Builtin::Less => "<",
        Builtin::Greater => ">",
        Builtin::Abs => "abs",
        Builtin::Plus => "+",
        Builtin::Minus => "-",
        Builtin::Times => "*",
        Builtin::Divide => "/",
        Builtin::Remainder => "remainder",
        Builtin::Pow => "pow",
        Builtin::MakeVector => "make-vector",
        Builtin::VectorCopy => "vector-copy",
        Builtin::VectorP => "vector?",
        Builtin::VectorLength => "vector-length",
        Builtin::VectorRef => "vector-ref",
        Builtin::VectorSet => "vector-set!",
        Builtin::VectorMap => "vector-map",
        Builtin::Subvector => "subvector",
        Builtin::VectorHead => "vector-head",
        Builtin::VectorTail => "vector-tail",
    }
}

/// The special forms and core procedures, which no definition can shadow.
pub open spec fn core_builtin(key: Seq<char>) -> Option<Builtin> {
    if key == "eval"@ {
        Some(Builtin::Eval)
    } else if key == "apply"@ {
        Some(Builtin::Apply)
    } else if key == "and"@ {
        Some(Builtin::And)
    } else if key == "begin"@ {
        Some(Builtin::Begin)
    } else if key == "case"@ {
        Some(Builtin::Case)
    } else if key == "cond"@ {
        Some(Builtin::Cond)
    } else if key == "do"@ {
        Some(Builtin::Do)
    } else if key == "define"@ {
        Some(Builtin::Define)
    } else if key == "if"@ {
        Some(Builtin::If)
    } else if key == "lambda"@ {
        Some(Builtin::Lambda)
    } else if key == "let"@ {
        Some(Builtin::Let)
    } else if key == "named-lambda"@ {
        Some(Builtin::NamedLambda)
    } else if key == "or"@ {
        Some(Builtin::Or)
    } else if key == "quasiquote"@ {
        Some(Builtin::Quasiquote)
    } else if key == "quote"@ {
        Some(Builtin::Quote)
    } else if key == "set!"@ {
        Some(Builtin::SetBang)
    } else {
        None
    }
}

/// The procedure value of a native procedure.
pub open spec fn builtin_val(b: Builtin) -> Val {
    Val::Atom(Prim::Procedure(ProcV { func: FuncV::Builtin(b), name: Some(builtin_name(b)) }))
}

fn core_lookup(key: &str) -> (r: Option<Builtin>)
    ensures
        r == core_builtin(key@),
{
    if str_eq(key, "eval") {
        Some(Builtin::Eval)
    } else if str_eq(key, "apply") {
        Some(Builtin::Apply)
    } else if str_eq(key, "and") {
        Some(Builtin::And)
    } else if str_eq(key, "begin") {
        Some(Builtin::Begin)
    } else if str_eq(key, "case") {
        Some(Builtin::Case)
    } else if str_eq(key, "cond") {
        Some(Builtin::Cond)
    } else if str_eq(key, "do") {
        Some(Builtin::Do)
    } else if str_eq(key, "define") {
        Some(Builtin::Define)
    } else if str_eq(key, "if") {
        Some(Builtin::If)
    } else if str_eq(key, "lambda") {
        Some(Builtin::Lambda)
    } else if str_eq(key, "let") {
        Some(Builtin::Let)
    } else if str_eq(key, "named-lambda") {
        Some(Builtin::NamedLambda)
    } else if str_eq(key, "or") {
        Some(Builtin::Or)
    } else if str_eq(key, "quasiquote") {
        Some(Builtin::Quasiquote)
    } else if str_eq(key, "quote") {
        Some(Builtin::Quote)
    } else if str_eq(key, "set!") {
        Some(Builtin::SetBang)
    } else {
        None
    }
}

/// The procedure value of a native procedure.
pub fn builtin_sexp(b: Builtin) -> (r: SExp)
    ensures
        r@ == builtin_val(b),
{
    let name = builtin_name_str(b);
    let cs = crate::text::chars_of(name);
    let p = Proc { func: Func::Builtin(b), name: Some(string_from_chars(cs.as_slice())) };
    assert(proc_view(p) == ProcV { func: FuncV::Builtin(b), name: Some(builtin_name(b)) });
    SExp::Atom(Primitive::Procedure(p))
}

// ---------------------------------------------------------------------------
// Context operations in the model
// ---------------------------------------------------------------------------

/// The definition of `key`: the core forms first, then the scopes from the
/// innermost outward, then the language-level definitions.
pub open spec fn ctx_get(st: CtxV, key: Seq<char>) -> Option<Val> {
    match core_builtin(key) {
        Some(b) => Some(builtin_val(b)),
        None => match chain_get(st.frames, st.cur as int, key) {
            Some(v) => Some(v),
            None => assoc_get(st.lang, key),
        },
    }
}

/// `st` with `key` bound to `value` in the current scope.
pub open spec fn ctx_define(st: CtxV, key: Seq<char>, value: Val) -> CtxV {
    if st.cur < st.frames.len() {
        CtxV {
            frames: st.frames.update(
                st.cur as int,
                FrameV {
                    vars: assoc_put(st.frames[st.cur as int].vars, key, value),
                    parent: st.frames[st.cur as int].parent,
                },
            ),
            ..st
        }
    } else {
        st
    }
}

/// Re-binds an existing definition of `key` in the scopes; an error when no
/// scope defines it.
pub open spec fn ctx_set(st: CtxV, key: Seq<char>, value: Val) -> (CtxV, Result<Val, ErrV>) {
    match chain_set(st.frames, st.cur as int, key, value) {
        Some(frames) => (CtxV { frames, ..st }, Ok(undefined_val())),
        None => (st, Err(ErrV::UndefinedSymbol(key))),
    }
}

/// `st` with a new, empty scope nested in the current one.
pub open spec fn ctx_push(st: CtxV) -> CtxV {
    CtxV {
        frames: st.frames.push(FrameV { vars: seq![], parent: Some(st.cur) }),
        cur: st.frames.len(),
        ..st
    }
}

/// `st` with the current scope left for the one it is nested in; leaving the
/// outermost scope replaces it with an empty one.
pub open spec fn ctx_pop(st: CtxV) -> CtxV {
    if st.cur < st.frames.len() && st.frames[st.cur as int].parent is Some {
        CtxV { cur: st.frames[st.cur as int].parent->Some_0, ..st }
    } else {
        CtxV {
            frames: st.frames.push(FrameV { vars: seq![], parent: None }),
            cur: st.frames.len(),
            ..st
        }
    }
}

/// `st` with the current scope set to frame `c`.
pub open spec fn with_cur(st: CtxV, c: nat) -> CtxV {
    CtxV { cur: c, ..st }
}

/// `st` with `text` printed: captured when capturing, otherwise queued for
/// standard output.
pub open spec fn ctx_emit(st: CtxV, text: Seq<char>) -> CtxV {
    match st.out {
        Some(buf) => CtxV { out: Some(buf + text), ..st },
        None => CtxV { printed: st.printed + text, ..st },
    }
}

/// The context with no definitions but the core forms: one empty scope.
pub open spec fn default_ctx() -> CtxV {
    CtxV {
        frames: seq![FrameV { vars: seq![], parent: None }],
        cur: 0,
        lang: seq![],
        out: None,
        printed: seq![],
        files: seq![],
    }
}

// ---------------------------------------------------------------------------
// Executable context operations
// ---------------------------------------------------------------------------

fn find_binding(vars: &Vec<(String, SExp)>, key: &str) -> (r: Option<usize>)
    ensures
        match r {
            Some(j) => assoc_pos(bindings_view(vars@), key@, 0) == Some(j as nat) && j < vars.len(),
            None => assoc_pos(bindings_view(vars@), key@, 0) is None,
        },
{
    let mut i: usize = 0;
    while i < vars.len()
        invariant
            i <= vars.len(),
            assoc_pos(bindings_view(vars@), key@, 0) == assoc_pos(bindings_view(vars@), key@, i as int),
        decreases vars.len() - i,
    {
        if str_eq(vars[i].0.as_str(), key) {
            return Some(i);
        }
        i += 1;
    }
    None
}

/// Binds `key` to `value` in a list of bindings, replacing an earlier
/// binding of `key`.
pub fn vars_put(vars: &mut Vec<(String, SExp)>, key: &str, value: SExp)
    ensures
        bindings_view(final(vars)@) == assoc_put(bindings_view(old(vars)@), key@, value@),
{
    let k = string_from_chars(crate::text::chars_of(key).as_slice());
    match find_binding(vars, key) {
        Some(j) => {
            proof {
                lemma_bindings_update(vars@, j as int, (k, value));
            }
            vars.set(j, (k, value));
        },
        None => {
            proof {
                lemma_bindings_push(vars@, (k, value));
            }
            vars.push((k, value));
        },
    }
}

/// A copy of a list of bindings.
fn dup_vars(v: &Vec<(String, SExp)>) -> (r: Vec<(String, SExp)>)
    ensures
        bindings_view(r@) == bindings_view(v@),
{
    let mut out: Vec<(String, SExp)> = Vec::new();
    let mut i: usize = 0;
    while i < v.len()
        invariant
            i <= v.len(),
            bindings_view(out@) == bindings_view(v@.subrange(0, i as int)),
        decreases v.len() - i,
    {
        let b = (v[i].0.clone(), v[i].1.dup());
        proof {
            lemma_bindings_push(out@, b);
            assert(v@.subrange(0, i + 1) =~= v@.subrange(0, i as int).push(v@[i as int]));
            lemma_bindings_push(v@.subrange(0, i as int), v@[i as int]);
        }
        out.push(b);
        i += 1;
    }
    assert(v@.subrange(0, v.len() as int) =~= v@);
    out
}

impl Default for Context {
    fn default() -> (r: Self)
        ensures
            r@ == default_ctx(),
    {
        let mut frames: Vec<Frame> = Vec::new();
        frames.push(Frame { vars: Vec::new(), parent: None });
        let r = Context { frames, cur: 0, lang: Vec::new(), out: None, printed: Vec::new(), files: Vec::new() };
        proof {
            lemma_empty_frame(r.frames@[0].vars, None);
            assert(r@.frames[0] == FrameV { vars: seq![], parent: None });
            assert(r@.frames =~= default_ctx().frames);
        }
        assert(r@.lang =~= Seq::<(Seq<char>, Val)>::empty());
        assert(r@.printed =~= Seq::<char>::empty());
        assert(r@.files =~= Seq::<(Seq<char>, Result<Seq<char>, Seq<char>>)>::empty());
        r
    }
}

impl Context {
    /// A context that only knows the core forms.
    pub fn new() -> (r: Self)
        ensures
            r@ == default_ctx(),
    {
        Self::default()
    }

    /// Adds a new, nested scope.
    pub fn push(&mut self)
        ensures
            final(self)@ == ctx_push(old(self)@),
    {
        let n = self.frames.len();
        let fr = Frame { vars: Vec::new(), parent: Some(self.cur) };
        proof {
            lemma_empty_frame(fr.vars, fr.parent);
            lemma_frames_push(self.frames@, fr);
        }
        self.frames.push(fr);
        self.cur = n;
    }

    /// Removes the most recently added scope. If the current scope is the
    /// outermost one, all definitions are cleared and it is replaced with an
    /// empty one.
    pub fn pop(&mut self)
        ensures
            final(self)@ == ctx_pop(old(self)@),
    {
        let n = self.frames.len();
        if self.cur < n {
            match self.frames[self.cur].parent {
                Some(p) => {
                    self.cur = p;
                    return;
                },
                None => {},
            }
        }
        let fr = Frame { vars: Vec::new(), parent: None };
        proof {
            lemma_empty_frame(fr.vars, fr.parent);
            lemma_frames_push(self.frames@, fr);
        }
        self.frames.push(fr);
        self.cur = n;
    }

    /// Creates a new definition in the current scope.
    pub fn define(&mut self, key: &str, value: SExp)
        ensures
            final(self)@ == ctx_define(old(self)@, key@, value@),
    {
        let c = self.cur;
        if c >= self.frames.len() {
            return;
        }
        let mut frame = Frame { vars: Vec::new(), parent: None };
        std::mem::swap(&mut frame, &mut self.frames[c]);
        let ghost old_frame = frame;
        let ghost frames0 = self.frames@;
        vars_put(&mut frame.vars, key, value);
        proof {
            assert(old(self).frames@[c as int] == old_frame);
            lemma_frames_update(frames0, c as int, frame);
        }
        std::mem::swap(&mut frame, &mut self.frames[c]);
        proof {
            assert(self.frames@ =~= old(self).frames@.update(c as int, self.frames@[c as int]));
            lemma_frames_update(old(self).frames@, c as int, self.frames@[c as int]);
            assert(old(self)@.frames[c as int] == frame_view(old_frame));
            assert(frame_view(self.frames@[c as int]) == FrameV {
                vars: assoc_put(old(self)@.frames[c as int].vars, key@, value@),
                parent: old(self)@.frames[c as int].parent,
            });
            assert(self@.frames == ctx_define(old(self)@, key@, value@).frames);
        }
    }

    /// Enters a procedure's scope: a new frame nested in frame `envt`, with
    /// each parameter bound, one after the other, to its argument.
    pub fn enter_frame(&mut self, params: &Vec<String>, args: &Vec<SExp>, envt: usize)
        ensures
            final(self)@ == crate::semantics::enter_lambda(
                old(self)@,
                crate::value::view_strings(params@),
                crate::value::view_seq(args@),
                envt as nat,
            ),
    {
        let ghost ps = crate::value::view_strings(params@);
        let ghost xs = crate::value::view_seq(args@);
        proof {
            crate::value::lemma_view_seq(args@);
        }
        let mut vars: Vec<(String, SExp)> = Vec::new();
        assert(bindings_view(vars@) =~= Seq::<(Seq<char>, Val)>::empty());
        let mut i: usize = 0;
        while i < params.len() && i < args.len()
            invariant
                ps == crate::value::view_strings(params@),
                xs == crate::value::view_seq(args@),
                xs.len() == args@.len(),
                forall|k: int| 0 <= k < args@.len() ==> #[trigger] xs[k] == args@[k]@,
                crate::semantics::bind_params(bindings_view(vars@), ps, xs, i as int)
                    == crate::semantics::bind_params(seq![], ps, xs, 0),
            decreases params.len() - i,
        {
            vars_put(&mut vars, params[i].as_str(), args[i].dup());
            i += 1;
        }
        let n = self.frames.len();
        let fr = Frame { vars, parent: Some(envt) };
        proof {
            lemma_frames_push(self.frames@, fr);
        }
        self.frames.push(fr);
        self.cur = n;
    }

    /// Appends a language-level definition of `key`; an earlier definition of
    /// the same name, if any, keeps precedence.
    pub fn push_lang(&mut self, key: &str, value: SExp)
        ensures
            final(self)@ == (CtxV { lang: old(self)@.lang.push((key@, value@)), ..old(self)@ }),
    {
        let k = string_from_chars(crate::text::chars_of(key).as_slice());
        proof {
            lemma_bindings_push(self.lang@, (k, value));
        }
        self.lang.push((k, value));
    }


    /// Binds `key` at the language level, replacing any earlier definition
    /// there.
    pub fn define_lang(&mut self, key: &str, value: SExp)
        ensures
            final(self)@ == (CtxV { lang: assoc_put(old(self)@.lang, key@, value@), ..old(self)@ }),
    {
        let k = string_from_chars(crate::text::chars_of(key).as_slice());
        match find_binding(&self.lang, key) {
            Some(j) => {
                proof {
                    lemma_bindings_update(self.lang@, j as int, (k, value));
                }
                self.lang.set(j, (k, value));
            },
            None => {
                proof {
                    lemma_bindings_push(self.lang@, (k, value));
                }
                self.lang.push((k, value));
            },
        }
    }

    fn chain_lookup(&self, key: &str) -> (r: Option<SExp>)
        ensures
            match r {
                Some(v) => chain_get(self@.frames, self@.cur as int, key@) == Some(v@),
                None => chain_get(self@.frames, self@.cur as int, key@) is None,
            },
    {
        let mut i = self.cur;
        loop
            invariant
                chain_get(self@.frames, self@.cur as int, key@) == chain_get(self@.frames, i as int, key@),
            decreases i,
        {
            if i >= self.frames.len() {
                return None;
            }
            let fr = &self.frames[i];
            match find_binding(&fr.vars, key) {
                Some(j) => {
                    proof {
                        assert(self@.frames[i as int] == frame_view(self.frames@[i as int]));
                        assert(bindings_view(fr.vars@)[j as int] == binding_view(fr.vars@[j as int]));
                    }
                    return Some(fr.vars[j].1.clone());
                },
                None => {},
            }
            match fr.parent {
                Some(p) => {
                    if p < i {
                        i = p;
                    } else {
                        return None;
                    }
                },
                None => {
                    return None;
                },
            }
        }
    }

    /// The definition of a symbol: the core forms first, then the scopes
    /// from the innermost outward, then the language-level definitions.
    /// `None` when there is none.
    pub fn get(&self, key: &str) -> (r: Option<SExp>)
        ensures
            match r {
                Some(v) => ctx_get(self@, key@) == Some(v@),
                None => ctx_get(self@, key@) is None,
            },
    {
        match core_lookup(key) {
            Some(b) => {
                return Some(builtin_sexp(b));
            },
            None => {},
        }
        match self.chain_lookup(key) {
            Some(v) => {
                return Some(v);
            },
            None => {},
        }
        match find_binding(&self.lang, key) {
            Some(j) => {
                proof {
                    assert(bindings_view(self.lang@)[j as int] == binding_view(self.lang@[j as int]));
                }
                Some(self.lang[j].1.clone())
            },
            None => None,
        }
    }

    /// Re-binds an existing definition to a new value: `Ok` if a scope
    /// defines the symbol (and then it is updated there), `Err` otherwise.
    pub fn set(&mut self, key: &str, value: SExp) -> (r: Result<SExp, Error>)
        ensures
            (final(self)@, crate::errors::view_result(r)) == ctx_set(old(self)@, key@, value@),
    {
        let mut i = self.cur;
        loop
            invariant
                self@ == old(self)@,
                self.frames@ == old(self).frames@,
                self.cur == old(self).cur,
                chain_set(self@.frames, self@.cur as int, key@, value@) == chain_set(
                    self@.frames,
                    i as int,
                    key@,
                    value@,
                ),
            decreases i,
        {
            if i >= self.frames.len() {
                return Err(Error::UndefinedSymbol { sym: string_from_chars(crate::text::chars_of(key).as_slice()) });
            }
            match find_binding(&self.frames[i].vars, key) {
                Some(j) => {
                    let k = string_from_chars(crate::text::chars_of(key).as_slice());
                    let mut frame = Frame { vars: Vec::new(), parent: None };
                    std::mem::swap(&mut frame, &mut self.frames[i]);
                    let ghost old_frame = frame;
                    let ghost frames0 = self.frames@;
                    proof {
                        lemma_bindings_update(frame.vars@, j as int, (k, value));
                    }
                    frame.vars.set(j, (k, value));
                    proof {
                        assert(old(self).frames@[i as int] == old_frame);
                        lemma_frames_update(old(self).frames@, i as int, frame);
                    }
                    std::mem::swap(&mut frame, &mut self.frames[i]);
                    proof {
                        assert(self.frames@ =~= old(self).frames@.update(i as int, self.frames@[i as int]));
                    }
                    return Ok(SExp::Atom(Primitive::Undefined));
                },
                None => {},
            }
            match self.frames[i].parent {
                Some(p) => {
                    if p < i {
                        i = p;
                    } else {
                        return Err(Error::UndefinedSymbol { sym: string_from_chars(crate::text::chars_of(key).as_slice()) });
                    }
                },
                None => {
                    return Err(Error::UndefinedSymbol { sym: string_from_chars(crate::text::chars_of(key).as_slice()) });
                },
            }
        }
    }

    /// The current scope.
    pub fn scope(&self) -> (r: usize)
        ensures
            r == self@.cur,
    {
        self.cur
    }

    /// Makes frame `c` the current scope.
    pub(crate) fn set_scope(&mut self, c: usize)
        ensures
            final(self)@ == with_cur(old(self)@, c as nat),
    {
        self.cur = c;
    }

    /// Prints `text`: captured when capturing, otherwise queued for standard
    /// output.
    pub fn emit(&mut self, text: &[char])
        ensures
            final(self)@ == ctx_emit(old(self)@, text@),
    {
        match &mut self.out {
            Some(buf) => {
                crate::text::push_all(buf, text);
            },
            None => {
                crate::text::push_all(&mut self.printed, text);
            },
        }
    }

    /// Starts capturing printed content in a buffer.
    pub fn capture(&mut self)
        ensures
            final(self)@ == (CtxV { out: Some(seq![]), ..old(self)@ }),
    {
        self.out = Some(Vec::new());
        assert(self@.out->Some_0 =~= Seq::<char>::empty());
    }

    /// This context, capturing `display` and `write` output in a buffer.
    pub fn capturing(self) -> (r: Self)
        ensures
            r@ == (CtxV { out: Some(seq![]), ..self@ }),
    {
        let mut s = self;
        s.capture();
        s
    }

    /// Takes the captured output, ending the capture.
    pub fn get_output(&mut self) -> (r: Option<String>)
        ensures
            final(self)@ == (CtxV { out: None, ..old(self)@ }),
            match old(self)@.out {
                Some(b) => r matches Some(s) && s@ == b,
                None => r is None,
            },
    {
        let o = self.out.take();
        match o {
            Some(b) => Some(string_from_chars(b.as_slice())),
            None => None,
        }
    }

    /// Takes what was printed while not capturing; the caller writes it to
    /// standard output.
    pub fn take_printed(&mut self) -> (r: String)
        ensures
            r@ == old(self)@.printed,
            final(self)@ == (CtxV { printed: seq![], ..old(self)@ }),
    {
        let mut p: Vec<char> = Vec::new();
        std::mem::swap(&mut p, &mut self.printed);
        assert(self@.printed =~= Seq::<char>::empty());
        string_from_chars(p.as_slice())
    }

    /// Forgets the texts of files given with [`Context::provide_file`].
    pub fn forget_files(&mut self)
        ensures
            final(self)@ == (CtxV { files: seq![], ..old(self)@ }),
    {
        self.files = Vec::new();
        assert(files_view(self.files@) =~= Seq::<(Seq<char>, Result<Seq<char>, Seq<char>>)>::empty());
    }

    /// A copy of this context, with the same definitions, scopes, output and
    /// files.
    pub fn snapshot(&self) -> (r: Self)
        ensures
            r@ == self@,
    {
        let mut frames: Vec<Frame> = Vec::new();
        let mut i: usize = 0;
        while i < self.frames.len()
            invariant
                i <= self.frames.len(),
                frames_view(frames@) == frames_view(self.frames@.subrange(0, i as int)),
            decreases self.frames.len() - i,
        {
            let fr = Frame { vars: dup_vars(&self.frames[i].vars), parent: self.frames[i].parent };
            proof {
                lemma_frames_push(frames@, fr);
                assert(self.frames@.subrange(0, i + 1) =~= self.frames@.subrange(0, i as int).push(self.frames@[i as int]));
                assert(frame_view(fr) == frame_view(self.frames@[i as int]));
            }
            frames.push(fr);
            i += 1;
        }
        assert(self.frames@.subrange(0, self.frames.len() as int) =~= self.frames@);
        let out = match &self.out {
            Some(b) => {
                let mut c: Vec<char> = Vec::new();
                crate::text::push_all(&mut c, b.as_slice());
                assert(c@ =~= b@);
                Some(c)
            },
            None => None,
        };
        let mut printed: Vec<char> = Vec::new();
        crate::text::push_all(&mut printed, self.printed.as_slice());
        assert(printed@ =~= self.printed@);
        let mut files: Vec<(String, Result<String, String>)> = Vec::new();
        let mut k: usize = 0;
        while k < self.files.len()
            invariant
                k <= self.files.len(),
                files_view(files@) == files_view(self.files@.subrange(0, k as int)),
            decreases self.files.len() - k,
        {
            let e = (
                self.files[k].0.clone(),
                match &self.files[k].1 {
                    Ok(t) => Ok(t.clone()),
                    Err(m) => Err(m.clone()),
                },
            );
            proof {
                assert(self.files@.subrange(0, k + 1) =~= self.files@.subrange(0, k as int).push(self.files@[k as int]));
                assert(files_view(files@.push(e)) =~= files_view(files@).push(file_view(e)));
                assert(files_view(self.files@.subrange(0, k + 1)) =~= files_view(self.files@.subrange(0, k as int)).push(
                    file_view(self.files@[k as int]),
                ));
            }
            files.push(e);
            k += 1;
        }
        assert(self.files@.subrange(0, self.files.len() as int) =~= self.files@);
        Context { frames, cur: self.cur, lang: dup_vars(&self.lang), out, printed, files }
    }

    /// Gives the context the text of the file at `path`, or the error of
    /// reading it, for `require`. The first entry given for a path is the one
    /// that counts.
    pub fn provide_file(&mut self, path: &str, text: Result<String, String>)
        ensures
            final(self)@ == (CtxV {
                files: old(self)@.files.push((path@, match text {
                    Ok(t) => Ok(t@),
                    Err(m) => Err(m@),
                })),
                ..old(self)@
            }),
    {
        let k = string_from_chars(crate::text::chars_of(path).as_slice());
        let e = (k, text);
        self.files.push(e);
        assert(files_view(self.files@) =~= files_view(old(self).files@).push(file_view(e)));
    }

    /// The text of the file at `path` that the context was given, or the
    /// error of reading it; `None` when it was given neither.
    pub fn file(&self, path: &str) -> (r: Option<Result<String, String>>)
        ensures
            match r {
                None => file_get(self@.files, path@, 0) is None,
                Some(Ok(t)) => file_get(self@.files, path@, 0) == Some(Ok::<Seq<char>, Seq<char>>(t@)),
                Some(Err(m)) => file_get(self@.files, path@, 0) == Some(Err::<Seq<char>, Seq<char>>(m@)),
            },
    {
        let mut i: usize = 0;
        while i < self.files.len()
            invariant
                i <= self.files.len(),
                self@.files == files_view(self.files@),
                self@.files.len() == self.files@.len(),
                file_get(self@.files, path@, 0) == file_get(self@.files, path@, i as int),
            decreases self.files.len() - i,
        {
            if str_eq(self.files[i].0.as_str(), path) {
                return match &self.files[i].1 {
                    Ok(t) => Some(Ok(t.clone())),
                    Err(m) => Some(Err(m.clone())),
                };
            }
            i += 1;
        }
        None
    }
}

} // verus!
