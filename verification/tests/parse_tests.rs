use parsley::context::Context;
use parsley::errors::SyntaxError;
use parsley::value::SExp;

fn read(code: &str) -> SExp {
    code.parse::<SExp>().unwrap()
}

fn sy(name: &str) -> SExp {
    SExp::make_symbol(name)
}

#[test]
fn parse_empty_list() {
    assert_eq!(read("()"), SExp::Null);
}

#[test]
fn parse_list_of_lists() {
    assert_eq!(read("(() () ())"), SExp::Null.cons(SExp::Null).cons(SExp::Null).cons(SExp::Null));
}

#[test]
fn parse_atom() {
    assert_eq!(read("hello"), sy("hello"));
}

#[test]
fn parse_list_of_atoms() {
    assert_eq!(
        read("(a bc de fgh ijk l mnop)"),
        SExp::Null
            .cons(sy("mnop"))
            .cons(sy("l"))
            .cons(sy("ijk"))
            .cons(sy("fgh"))
            .cons(sy("de"))
            .cons(sy("bc"))
            .cons(sy("a")),
    );
}

#[test]
fn reads_primitive_types() {
    assert_eq!(read("#f"), SExp::from_bool(false));
    assert_eq!(read("#t"), SExp::from_bool(true));
    assert_eq!(read("0"), SExp::from_int(0));
    assert_eq!(read("-17"), SExp::from_int(-17));
    assert_eq!(read("+5"), SExp::from_int(5));
    assert_eq!(read("#\\c"), SExp::from_char('c'));
    assert_eq!(read("#\\'"), SExp::from_char('\''));
    assert_eq!(read("\"test string with spaces\""), SExp::from_str_slice("test string with spaces"));
}

#[test]
fn reads_floats_as_errors() {
    for code in ["2.0", "inf", "-inf", "NaN", "1e5", ".5", "99999999999999999999"] {
        match code.parse::<SExp>() {
            Err(SyntaxError::NotANumber(t)) => assert_eq!(t, code),
            other => panic!("{} read as {:?}", code, other),
        }
    }
}

#[test]
fn reads_mixed_type_list() {
    assert_eq!(
        read("(0 #f () \"xyz\" #\\? #t \"\" \"   \")"),
        SExp::Null
            .cons(SExp::from_str_slice("   "))
            .cons(SExp::from_str_slice(""))
            .cons(SExp::from_bool(true))
            .cons(SExp::from_char('?'))
            .cons(SExp::from_str_slice("xyz"))
            .cons(SExp::Null)
            .cons(SExp::from_bool(false))
            .cons(SExp::from_int(0)),
    );
}

#[test]
fn quote_syntax() {
    let abcd = SExp::Null.cons(sy("d")).cons(sy("c")).cons(sy("b")).cons(sy("a"));
    assert_eq!(read("'(a b c d)"), SExp::Null.cons(abcd).cons(sy("quote")));
    assert_eq!(read("'potato"), SExp::Null.cons(sy("potato")).cons(sy("quote")));
}

#[test]
fn reads_symbols_with_punctuation() {
    assert_eq!(read("string->list"), sy("string->list"));
    assert_eq!(read("set!"), sy("set!"));
    assert_eq!(read("-"), sy("-"));
    assert_eq!(read("..."), sy("..."));
}

#[test]
fn reads_several_data_as_begin() {
    assert_eq!(
        read(" (a) 2"),
        SExp::Null.cons(SExp::from_int(2)).cons(SExp::Null.cons(sy("a"))).cons(sy("begin"))
    );
    match "1 2".parse::<SExp>() {
        Err(SyntaxError::NotAToken(text)) => assert_eq!(text, "1 2"),
        other => panic!("unexpected {:?}", other),
    }
}

#[test]
fn reads_errors() {
    assert!(matches!("(a".parse::<SExp>(), Err(SyntaxError::UnmatchedParen { .. })));
    assert!(matches!("a)".parse::<SExp>(), Err(SyntaxError::UnmatchedParen { .. })));
    assert!(matches!("\"open".parse::<SExp>(), Err(SyntaxError::UnmatchedQuote(_))));
    assert!(matches!("'".parse::<SExp>(), Err(SyntaxError::NotAToken(_))));
    assert!(matches!("#q".parse::<SExp>(), Err(SyntaxError::NotAPrimitive(_))));
}

#[test]
fn printed_forms() {
    assert_eq!(read("(a (b c) \"s\" #\\x 12)").to_text(), "(a (b c) s x 12)");
    assert_eq!(read("'x").to_text(), "'x");
    assert_eq!(read("(1 . 2)").to_text(), "(1 . 2)");
    assert_eq!(read("#t").to_debug_text(), "Atom(#t)");
    assert_eq!(read("(1)").to_debug_text(), "Pair { head: Atom(1), tail: Null }");
}

#[test]
fn context_scopes() {

    let mut ctx = Context::default();
    assert_eq!(ctx.get("x"), None);
    ctx.push();
    ctx.define("x", SExp::Null);
    assert_eq!(ctx.get("x"), Some(SExp::Null));
    ctx.pop();
    assert_eq!(ctx.get("x"), None);
}

#[test]
fn context_define_get_set() {

    let mut ctx = Context::default();
    assert!(ctx.get("potato").is_none());
    assert!(ctx.set("x", SExp::from_int(3)).is_err());
    ctx.define("x", SExp::from_int(3));
    assert_eq!(ctx.get("x"), Some(SExp::from_int(3)));
    assert!(ctx.set("x", SExp::from_str_slice("potato")).is_ok());
    assert_eq!(ctx.get("x"), Some(SExp::from_str_slice("potato")));
}

#[test]
fn core_forms_cannot_be_overridden() {

    let mut ctx = Context::base();
    ctx.define("and", SExp::from_int(1));
    assert_eq!(ctx.get("and").unwrap().type_of(), "procedure");
    assert!(ctx.run("(define null \"foo\")").is_ok());
    assert_eq!(ctx.run("null").unwrap(), SExp::from_str_slice("foo"));
}

#[test]
fn pop_clears_the_outermost_scope() {
    let mut ctx = Context::base();
    ctx.define("x", SExp::from_int(1));
    ctx.define("car", SExp::from_int(5));
    assert_eq!(ctx.get("car"), Some(SExp::from_int(5)));
    ctx.pop();
    assert_eq!(ctx.get("x"), None);
    assert_eq!(ctx.get("car").unwrap().type_of(), "procedure");
}

#[test]
fn define_keeps_other_names() {
    let mut ctx = Context::default();
    ctx.define("x", SExp::from_int(1));
    ctx.define("y", SExp::from_int(2));
    ctx.define("x", SExp::from_int(3));
    assert_eq!(ctx.get("y"), Some(SExp::from_int(2)));
    assert_eq!(ctx.get("x"), Some(SExp::from_int(3)));
}

#[test]
fn step_budget() {
    let code = "(begin (define (f n) (if (= n 0) 0 (f (sub1 n)))) (f 50))";
    let mut small = Context::base();
    assert!(matches!(small.eval_fuel(20, read(code)), Err(parsley::errors::Error::Exhausted)));
    let mut large = Context::base();
    let mut unbounded = Context::base();
    assert_eq!(large.eval_fuel(100_000, read(code)).unwrap(), SExp::from_int(0));
    assert_eq!(unbounded.eval(read(code)).unwrap(), SExp::from_int(0));
}

#[test]
fn evaluation_leaves_language_definitions() {
    let mut ctx = Context::base();
    assert!(ctx.run("(define (car x) 42)").is_ok());
    assert_eq!(ctx.run("(car 1)").unwrap(), SExp::from_int(42));
    ctx.pop();
    assert_eq!(ctx.run("(car (cons 1 2))").unwrap(), SExp::from_int(1));
}

#[test]
fn empty_list() {
    assert_eq!(read("()"), SExp::Null);
}

#[test]
fn list_of_lists() {
    assert_eq!(read("(() () ())"), SExp::Null.cons(SExp::Null).cons(SExp::Null).cons(SExp::Null));
}

#[test]
fn list_of_atoms() {
    assert_eq!(
        read("(a bc de fgh ijk l mnop)"),
        SExp::Null
            .cons(sy("mnop"))
            .cons(sy("l"))
            .cons(sy("ijk"))
            .cons(sy("fgh"))
            .cons(sy("de"))
            .cons(sy("bc"))
            .cons(sy("a")),
    );
}

#[test]
fn library_doc_example() {
    assert_eq!(parsley::run("(null? '())").unwrap(), parsley::run("#t").unwrap());
    assert_eq!(parsley::run("(* (+ 3 4 5) (- 5 2))").unwrap(), parsley::run("36").unwrap());
    let expr = "
(define (sqr x) (* x x))
(define (sum-of-squares x y) (+ (sqr x) (sqr y)))
(sum-of-squares 3 4)
";
    assert_eq!(parsley::run(expr).unwrap(), parsley::run("25").unwrap());
}

#[test]
fn unescape_keeps_plain_text_and_shortens_escapes() {
    let plain: Vec<char> = "a\\b c\"d".chars().collect();
    assert_eq!(parsley::text::unescape(&plain), plain);
    let escaped: Vec<char> = "x\\ny\\\\z".chars().collect();
    let out = parsley::text::unescape(&escaped);
    assert_eq!(out, "x\ny\\z".chars().collect::<Vec<char>>());
    assert!(out.len() < escaped.len());
}
