use parsley::context::Context;
use parsley::errors::{Error, SyntaxError};
use parsley::run;
use parsley::value::{Primitive, SExp};

fn go(code: &str) -> Result<SExp, Error> {
    Context::base().run(code)
}

fn integer(v: i64) -> SExp {
    SExp::from_int(v)
}

fn text(e: &SExp) -> String {
    e.to_text()
}

#[test]
fn run_doc_example() {
    assert!(run("x").is_err());
    assert!(run("null").is_ok());
    assert_eq!(run("null").unwrap(), SExp::Null);
}

#[test]
fn run_keeps_definitions() {
    let mut ctx = Context::base();
    assert!(ctx.run("x").is_err());
    assert!(ctx.run("(define x 6)").is_ok());
    assert_eq!(ctx.run("x").unwrap(), integer(6));
}

#[test]
fn eval_doc_example() {
    let result = Context::base().eval(SExp::from_items(vec![SExp::sym("eq?"), integer(0), integer(1)]));
    assert_eq!(result.unwrap(), SExp::from_bool(false));

    let mut ctx = Context::base();
    let exp1 = SExp::from_items(vec![SExp::sym("define"), SExp::sym("x"), integer(10)]);
    let exp2 = SExp::sym("x");
    assert!(ctx.eval(exp1).is_ok());
    assert_eq!(ctx.eval(exp2).unwrap(), integer(10));
}

#[test]
fn arithmetic() {
    assert_eq!(go("(+ 1 2 3)").unwrap(), integer(6));
    assert_eq!(go("(+)").unwrap(), integer(0));
    assert_eq!(go("(*)").unwrap(), integer(1));
    assert_eq!(go("(* 2 3 4)").unwrap(), integer(24));
    assert_eq!(go("(- 10 3 2)").unwrap(), integer(5));
    assert_eq!(go("(- 5)").unwrap(), integer(5));
    assert_eq!(go("(/ 12 3)").unwrap(), integer(4));
    assert_eq!(go("(remainder 7 3)").unwrap(), integer(1));
    assert_eq!(go("(remainder -7 3)").unwrap(), integer(-1));
    assert_eq!(go("(pow 2 10)").unwrap(), integer(1024));
    assert_eq!(go("(abs -5)").unwrap(), integer(5));
    assert_eq!(go("(add1 41)").unwrap(), integer(42));
    assert_eq!(go("(sub1 0)").unwrap(), integer(-1));
    assert_eq!(go("(= 3 3)").unwrap(), SExp::from_bool(true));
    assert_eq!(go("(< 1 2)").unwrap(), SExp::from_bool(true));
    assert_eq!(go("(> 1 2)").unwrap(), SExp::from_bool(false));
    assert_eq!(go("(zero? 0)").unwrap(), SExp::from_bool(true));
    assert_eq!(go("(zero? 1)").unwrap(), SExp::from_bool(false));
}

#[test]
fn arithmetic_that_is_not_exact() {
    assert!(matches!(go("(/ 7 2)"), Err(Error::Inexact)));
    assert!(matches!(go("(/ 1 0)"), Err(Error::Inexact)));
    assert!(matches!(go("(remainder 1 0)"), Err(Error::Inexact)));
    assert!(matches!(go("(+ 9223372036854775807 1)"), Err(Error::Inexact)));
    assert!(matches!(go("(pow 10 30)"), Err(Error::Inexact)));
    assert!(matches!(go("(abs -9223372036854775808)"), Err(Error::Inexact)));
}

#[test]
fn arithmetic_type_errors() {
    match go("(+ 1 \"a\")") {
        Err(Error::Type { expected, given }) => {
            assert_eq!(expected, "number");
            assert_eq!(given, "string");
        },
        other => panic!("unexpected {:?}", other),
    }
    assert!(matches!(go("(-)"), Err(Error::ArityMin { expected: 1, given: 0 })));
}

#[test]
fn lists() {
    assert_eq!(text(&go("(list 1 2 3)").unwrap()), "(1 2 3)");
    assert_eq!(text(&go("(cons 1 2)").unwrap()), "(1 . 2)");
    assert_eq!(text(&go("(cons 1 null)").unwrap()), "(1)");
    assert_eq!(go("(car (list 1 2))").unwrap(), integer(1));
    assert_eq!(text(&go("(cdr (list 1 2))").unwrap()), "(2)");
    assert!(matches!(go("(car null)"), Err(Error::NullList)));
    assert!(matches!(go("(car 5)"), Err(Error::NotAList { .. })));
    assert_eq!(go("(null? null)").unwrap(), SExp::from_bool(true));
    assert_eq!(go("(null? (list 1))").unwrap(), SExp::from_bool(false));
    assert_eq!(go("(not #f)").unwrap(), SExp::from_bool(true));
    assert_eq!(go("(not 0)").unwrap(), SExp::from_bool(false));
}

#[test]
fn equality() {
    assert_eq!(go("(eq? null null)").unwrap(), SExp::from_bool(true));
    assert_eq!(go("(eq? null 2)").unwrap(), SExp::from_bool(false));
    assert_eq!(go("(eq? \"woohoo\" \"woohoo\")").unwrap(), SExp::from_bool(true));
    assert_eq!(go("(equal? (list 1 (list 2)) (list 1 (list 2)))").unwrap(), SExp::from_bool(true));
    assert_eq!(go("(eq? 0 (list 1 2))").unwrap(), SExp::from_bool(false));
    assert_eq!(go("(eqv? 'a 'a)").unwrap(), SExp::from_bool(true));
    assert_eq!(go("(eqv? \"a\" \"a\")").unwrap(), SExp::from_bool(false));
    assert_eq!(go("(eq? car car)").unwrap(), SExp::from_bool(false));
}

#[test]
fn type_names() {
    assert_eq!(go("(type-of null)").unwrap(), SExp::from_str_slice("null"));
    assert_eq!(go("(type-of (list 1))").unwrap(), SExp::from_str_slice("list"));
    assert_eq!(go("(type-of 3)").unwrap(), SExp::from_str_slice("number"));
    assert_eq!(go("(type-of #\\b)").unwrap(), SExp::from_str_slice("char"));
    assert_eq!(go("(type-of #t)").unwrap(), SExp::from_str_slice("bool"));
    assert_eq!(go("(type-of \"yes\")").unwrap(), SExp::from_str_slice("string"));
    assert_eq!(go("(type-of +)").unwrap(), SExp::from_str_slice("procedure"));
    assert_eq!(go("(type-of 'a)").unwrap(), SExp::from_str_slice("symbol"));
    assert_eq!(go("(type-of (make-vector 1))").unwrap(), SExp::from_str_slice("vector"));
}

#[test]
fn procedures() {
    assert_eq!(go("(procedure? car)").unwrap(), SExp::from_bool(true));
    assert_eq!(go("(procedure? 1)").unwrap(), SExp::from_bool(false));
    assert_eq!(go("(thunk? void)").unwrap(), SExp::from_bool(true));
    assert_eq!(go("(thunk? car)").unwrap(), SExp::from_bool(false));
    assert_eq!(go("(procedure-arity-valid? car 1)").unwrap(), SExp::from_bool(true));
    assert_eq!(go("(procedure-arity-valid? car 2)").unwrap(), SExp::from_bool(false));
    assert_eq!(go("(procedure-of-arity? 5 1)").unwrap(), SExp::from_bool(false));
    assert_eq!(go("(environment? 1)").unwrap(), SExp::from_bool(false));
    assert_eq!(go("(void)").unwrap(), SExp::Atom(Primitive::Void));
}

#[test]
fn strings() {
    assert_eq!(text(&go("(string->list \"ab\" 0 0)").unwrap()), "(a b)");
    assert_eq!(go("(list->string #\\a)").unwrap(), SExp::from_str_slice("a"));
    assert!(matches!(go("(list->string 1)"), Err(Error::Type { .. })));
}

#[test]
fn control_forms() {
    assert_eq!(go("(do ((i 0 (add1 i))) ((= i 3) i) (void))").unwrap(), integer(3));
    assert!(matches!(go("(do ((i 0 (add1 i))) ((= i 3) i))"), Err(Error::ArityMin { expected: 3, given: 2 })));
    assert_eq!(go("(case 2 ((1) 'one) ((2) 'two) (else 'other))").unwrap(), SExp::sym("two"));
    assert_eq!(go("(case 9 ((1) 'one) (else 'other))").unwrap(), SExp::sym("other"));
    assert_eq!(go("(let loop ((i 0)) (if (= i 5) i (loop (add1 i))))").unwrap(), integer(5));
    assert_eq!(go("(begin (define x 1) (set! x 5) x)").unwrap(), integer(5));
    assert!(matches!(go("(set! y 5)"), Err(Error::UndefinedSymbol { .. })));
    assert_eq!(go("(apply + (list 1 2 3))").unwrap(), integer(6));
    assert_eq!(go("(eval '(+ 1 2))").unwrap(), integer(3));
    assert_eq!(go("(named-lambda (f x) x)").unwrap().type_of(), "procedure");
    assert_eq!(go("((named-lambda (f x) (* x 2)) 4)").unwrap(), integer(8));
}

#[test]
fn deep_tail_recursion() {
    assert_eq!(
        go("(begin (define (count n) (if (= n 0) 'done (count (sub1 n)))) (count 20000))").unwrap(),
        SExp::sym("done")
    );
}

#[test]
fn higher_order() {
    assert_eq!(text(&go("(map add1 (list 1 2 3))").unwrap()), "(2 3 4)");
    assert_eq!(go("(foldl + 0 (list 1 2 3))").unwrap(), integer(6));
    assert_eq!(text(&go("(filter zero? (list 0 1 0))").unwrap()), "(0 0)");
}

#[test]
fn pairs_are_updated_in_place() {
    assert_eq!(text(&go("(begin (define p (cons 1 2)) (set-car! p 5) p)").unwrap()), "(5 . 2)");
    assert_eq!(text(&go("(begin (define p (cons 1 2)) (set-cdr! p 7) p)").unwrap()), "(1 . 7)");
    assert!(matches!(go("(set-car! q 1)"), Err(Error::UndefinedSymbol { .. })));
}

#[test]
fn vectors() {
    assert_eq!(text(&go("(make-vector 3 0)").unwrap()), "#(0 0 0)");
    assert_eq!(text(&go("(make-vector 2)").unwrap()), "#(() ())");
    assert_eq!(go("(vector-length (make-vector 4 1))").unwrap(), integer(4));
    assert_eq!(go("(vector? (make-vector 1))").unwrap(), SExp::from_bool(true));
    assert_eq!(go("(vector? 1)").unwrap(), SExp::from_bool(false));
    assert_eq!(go("(vector-ref (make-vector 3 7) 1)").unwrap(), integer(7));
    assert!(matches!(go("(vector-ref (make-vector 3 7) 3)"), Err(Error::Index { i: 3 })));
    assert_eq!(
        text(&go("(begin (define v (make-vector 3 0)) (vector-set! v 1 5) v)").unwrap()),
        "#(0 5 0)"
    );
    assert_eq!(
        text(&go("(begin (define v (make-vector 3 0)) (vector-set! v 1 5) (subvector v 0 2))").unwrap()),
        "#(0 5)"
    );
    assert_eq!(
        text(&go("(begin (define v (make-vector 3 0)) (vector-set! v 2 5) (vector-head v 2))").unwrap()),
        "#(0 0)"
    );
    assert_eq!(
        text(&go("(begin (define v (make-vector 3 0)) (vector-set! v 2 5) (vector-tail v 2))").unwrap()),
        "#(5)"
    );
    assert_eq!(text(&go("(vector-copy (make-vector 2 1))").unwrap()), "#(1 1)");
    assert!(matches!(go("(make-vector -1)"), Err(Error::Index { .. })));
    assert!(matches!(go("(vector-set! nothing 0 1)"), Err(Error::UndefinedSymbol { .. })));
}

#[test]
fn vector_map_applies_to_each_element() {
    let mut ctx = Context::base();
    let v = SExp::Atom(Primitive::Vector(vec![integer(1), integer(2)]));
    let call = SExp::from_items(vec![SExp::sym("vector-map"), SExp::sym("add1"), v]);
    assert_eq!(text(&ctx.eval(call).unwrap()), "#(2 3)");
    // the vector is taken as written, not evaluated
    assert!(matches!(ctx.run("(vector-map add1 v)"), Err(Error::Type { .. })));
}

#[test]
fn printing_is_captured() {
    let mut ctx = Context::base().capturing();
    assert!(ctx.run("(display \"hi\")").is_ok());
    assert!(ctx.run("(displayln 42)").is_ok());
    assert!(ctx.run("(write \"x\")").is_ok());
    assert_eq!(ctx.get_output(), Some(String::from("hi42\nAtom(\"x\")")));
    assert_eq!(ctx.get_output(), None);
}

#[test]
fn printing_without_capture_is_queued() {
    let mut ctx = Context::base();
    assert!(ctx.run("(display \"a\\tb\")").is_ok());
    assert_eq!(ctx.take_printed(), "a\tb");
    assert_eq!(ctx.take_printed(), "");
}

#[test]
fn syntax_errors() {
    assert!(matches!(go("(1 2"), Err(Error::Syntax(SyntaxError::UnmatchedParen { expected: ')', given: None, .. }))));
    assert!(matches!(go(")"), Err(Error::Syntax(SyntaxError::UnmatchedParen { expected: '(', .. }))));
    assert!(matches!(go("\"abc"), Err(Error::Syntax(SyntaxError::UnmatchedQuote(_)))));
    assert!(matches!(go("2.5"), Err(Error::Syntax(SyntaxError::NotANumber(_)))));
    assert!(matches!(go("inf"), Err(Error::Syntax(SyntaxError::NotANumber(_)))));
    assert!(matches!(go("a|b"), Err(Error::Syntax(SyntaxError::NotAPrimitive(_)))));
    assert!(matches!(go(""), Err(Error::Syntax(SyntaxError::NotAToken(_)))));
}

#[test]
fn several_data_run_in_order() {
    assert_eq!(go("(define x 2) (define y 3) (* x y)").unwrap(), integer(6));
}

#[test]
fn error_messages() {
    assert_eq!(go("potato").unwrap_err().message(), "Undefined symbol: potato");
    assert_eq!(go("(car null)").unwrap_err().message(), "Expected a pair, got null.");
    assert_eq!(go("(car 1 2)").unwrap_err().message(), "Arity mismatch: expected 1 parameters, got 2.");
}

#[test]
fn conversions_into_values() {
    assert_eq!(SExp::from(3i64), integer(3));
    assert_eq!(SExp::from(true), SExp::from_bool(true));
    assert_eq!(SExp::from('z'), SExp::from_char('z'));
}

#[test]
fn nested_recursion() {
    assert_eq!(
        go("(begin (define (sum n) (if (= n 0) 0 (+ n (sum (sub1 n))))) (sum 1000))").unwrap(),
        integer(500500)
    );
}

#[test]
fn error_inside_a_procedure_leaves_its_scope_current() {
    let mut ctx = Context::base();
    assert!(ctx.run("(define (f x) (car x))").is_ok());
    assert!(matches!(ctx.run("(f 1)"), Err(Error::NotAList { .. })));
    // the scope of the failed call is still the current one
    assert_eq!(ctx.run("x").unwrap(), integer(1));
    ctx.pop();
    assert!(ctx.run("x").is_err());
    assert_eq!(ctx.run("(f (list 7))").unwrap(), integer(7));
}

#[test]
fn error_raised_by_the_loop_restores_the_scope() {
    let mut ctx = Context::base();
    assert!(ctx.run("(define (g x) y)").is_ok());
    assert!(matches!(ctx.run("(g 1)"), Err(Error::UndefinedSymbol { .. })));
    assert!(ctx.run("x").is_err());
}

#[test]
fn scope_definitions_beat_language_definitions_but_not_core_forms() {
    let mut ctx = Context::base();
    assert!(matches!(ctx.get("and"), Some(SExp::Atom(Primitive::Procedure(_)))));
    ctx.define("and", integer(5));
    assert!(matches!(ctx.get("and"), Some(SExp::Atom(Primitive::Procedure(_)))));
    assert_eq!(ctx.get("null"), Some(SExp::Null));
    ctx.define("null", integer(3));
    assert_eq!(ctx.get("null"), Some(integer(3)));
}

#[test]
fn popping_the_outermost_scope_leaves_an_empty_one() {
    let mut ctx = Context::base();
    ctx.define("y", integer(1));
    ctx.pop();
    assert_eq!(ctx.get("y"), None);
    assert_eq!(ctx.get("null"), Some(SExp::Null));
    ctx.define("z", integer(2));
    assert_eq!(ctx.get("z"), Some(integer(2)));
}

#[test]
fn written_quote_of_a_list_evaluates_to_the_list() {
    assert_eq!(
        go("'(a b c d)").unwrap(),
        SExp::Null.cons(SExp::sym("d")).cons(SExp::sym("c")).cons(SExp::sym("b")).cons(SExp::sym("a"))
    );
}

#[test]
fn require_runs_the_text_it_was_given() {
    let mut ctx = Context::base();
    match ctx.run("(require \"lib.scm\")") {
        Err(Error::Unread { path }) => assert_eq!(path, "lib.scm"),
        other => panic!("unexpected {:?}", other),
    }
    ctx.provide_file("lib.scm", Ok("(define (sq x) (* x x)) (sq 4)".to_string()));
    assert_eq!(ctx.file("lib.scm"), Some(Ok("(define (sq x) (* x x)) (sq 4)".to_string())));
    assert_eq!(ctx.run("(require \"lib.scm\")").unwrap(), integer(16));
    assert_eq!(ctx.run("(sq 5)").unwrap(), integer(25));
}

#[test]
fn require_reports_what_went_wrong() {
    let mut ctx = Context::base();
    ctx.provide_file("gone.scm", Err("No such file or directory".to_string()));
    match ctx.run("(require \"gone.scm\")") {
        Err(Error::IO(m)) => assert_eq!(m, "No such file or directory"),
        other => panic!("unexpected {:?}", other),
    }
    ctx.provide_file("bad.scm", Ok("(a".to_string()));
    assert!(matches!(ctx.run("(require \"bad.scm\")"), Err(Error::Syntax(SyntaxError::UnmatchedParen { .. }))));
    match ctx.run("(require 5)") {
        Err(Error::Type { expected, given }) => {
            assert_eq!(expected, "string");
            assert_eq!(given, "number");
        },
        other => panic!("unexpected {:?}", other),
    }
    assert!(ctx.run("(require)").is_err());
}

#[test]
fn a_snapshot_is_independent_of_its_context() {
    let mut ctx = Context::base();
    ctx.run("(define x 1)").unwrap();
    let mut copy = ctx.snapshot();
    copy.run("(define x 2)").unwrap();
    assert_eq!(ctx.run("x").unwrap(), integer(1));
    assert_eq!(copy.run("x").unwrap(), integer(2));
    ctx.provide_file("f", Ok("1".to_string()));
    ctx.forget_files();
    assert_eq!(ctx.file("f"), None);
}
