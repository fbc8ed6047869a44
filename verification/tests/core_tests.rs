use parsley::context::Context;
use parsley::errors::Error;
use parsley::value::{Primitive, SExp};

fn s(name: &str) -> SExp {
    SExp::sym(name)
}

fn l(items: Vec<SExp>) -> SExp {
    SExp::from_items(items)
}

fn ev(e: SExp) -> Result<SExp, Error> {
    Context::base().eval(e)
}

fn check(e: SExp, expected: SExp) {
    assert_eq!(ev(e).expect("Evaluation failed"), expected);
}

fn num(v: i64) -> SExp {
    SExp::from_int(v)
}

fn bo(v: bool) -> SExp {
    SExp::from_bool(v)
}

fn st(v: &str) -> SExp {
    SExp::from_str_slice(v)
}

fn ch(v: char) -> SExp {
    SExp::from_char(v)
}

#[test]
fn quote() {
    check(l(vec![s("quote"), SExp::Null]), SExp::Null);
    let list = l(vec![s("abc"), s("xyz")]);
    check(l(vec![s("quote"), list.clone()]), list);
}

#[test]
fn quasiquote() {
    check(l(vec![s("quasiquote"), SExp::Null]), SExp::Null);

    let list = l(vec![num(1), num(2), bo(false), st("foobar")]);
    check(l(vec![s("quasiquote"), list.clone()]), list);

    check(
        l(vec![
            s("quasiquote"),
            l(vec![
                ch('a'),
                st("hello world"),
                l(vec![s("unquote"), l(vec![s("null?"), s("null")])]),
                num(6),
            ]),
        ]),
        l(vec![ch('a'), st("hello world"), bo(true), num(6)]),
    );
}

#[test]
fn cond() {
    // validate empty value
    check(l(vec![s("cond")]), SExp::Atom(Primitive::Void));
    // validate else behavior
    check(l(vec![s("cond"), l(vec![s("else"), ch('a')])]), ch('a'));
    // validate typical use cases
    check(l(vec![s("cond"), l(vec![bo(true), ch('b')]), l(vec![s("else"), ch('a')])]), ch('b'));
    check(l(vec![s("cond"), l(vec![bo(false), ch('b')]), l(vec![s("else"), ch('a')])]), ch('a'));
    check(
        l(vec![
            s("cond"),
            l(vec![bo(false), ch('c')]),
            l(vec![bo(true), ch('b')]),
            l(vec![bo(true), ch('d')]),
            l(vec![s("else"), ch('a')]),
        ]),
        ch('b'),
    );
    check(
        l(vec![
            s("cond"),
            l(vec![bo(false), ch('c')]),
            l(vec![bo(false), ch('b')]),
            l(vec![bo(false), ch('d')]),
            l(vec![s("else"), ch('a')]),
        ]),
        ch('a'),
    );
    // multiple consequent expressions
    check(
        l(vec![
            s("cond"),
            l(vec![bo(true), num(3), l(vec![s("null?"), s("null")])]),
            l(vec![s("else"), num(3)]),
        ]),
        bo(true),
    );
    // ensure that evaluation stops at first non-#f predicate
    assert!(ev(l(vec![s("cond"), l(vec![bo(true), s("potato")]), l(vec![s("else"), st("good")])])).is_err());
    assert!(ev(l(vec![s("cond"), l(vec![bo(true), st("good")]), l(vec![s("else"), s("potato")])])).is_ok());
}

#[test]
fn cond_clause_must_be_a_list() {
    match ev(l(vec![s("cond"), num(3)])) {
        Err(Error::Syntax(_)) => {},
        other => panic!("unexpected {:?}", other),
    }
}

#[test]
fn define() {
    // validate errors for insufficient/too many arguments
    assert!(ev(l(vec![s("define")])).is_err());
    assert!(ev(l(vec![s("define"), s("x")])).is_ok());
    assert!(ev(l(vec![s("define"), s("x"), num(3), num(7)])).is_err());
    // very basic case
    check(l(vec![s("define"), s("x"), num(3)]), SExp::Atom(Primitive::Undefined));
    check(l(vec![s("begin"), l(vec![s("define"), s("x"), num(3)]), s("x")]), num(3));
    // functional form
    check(
        l(vec![s("define"), l(vec![s("x"), s("y")]), l(vec![s("+"), num(3), s("y")])]),
        SExp::Atom(Primitive::Undefined),
    );
    check(
        l(vec![
            s("begin"),
            l(vec![s("define"), l(vec![s("x"), s("y"), s("z")]), s("y")]),
            l(vec![s("x"), num(4), num(5)]),
        ]),
        num(4),
    );
    check(
        l(vec![
            s("begin"),
            l(vec![s("define"), l(vec![s("x"), s("y"), s("z")]), s("y"), s("z")]),
            l(vec![s("x"), num(4), num(5)]),
        ]),
        num(5),
    );
}

#[test]
fn lambda() {
    // validate argument handling
    assert!(ev(l(vec![s("lambda")])).is_err());
    assert!(ev(l(vec![s("lambda"), s("x")])).is_err());
    assert!(ev(l(vec![s("lambda"), l(vec![s("x")])])).is_err());
    assert!(ev(l(vec![l(vec![s("lambda"), l(vec![s("x")]), s("x")]), num(3), num(4)])).is_err());
    // validate behavior
    check(l(vec![l(vec![s("lambda"), l(vec![s("x")]), s("x")]), num(27)]), num(27));
    check(
        l(vec![
            l(vec![s("lambda"), l(vec![s("x"), s("y")]), st("potato"), s("y"), bo(true), s("x")]),
            num(27),
            num(35),
        ]),
        num(27),
    );
    check(l(vec![l(vec![s("lambda"), l(vec![s("x")]), l(vec![s("*"), s("x"), s("x")])]), num(11)]), num(121));
}

#[test]
fn begin_needs_an_expression() {
    match ev(l(vec![s("begin")])) {
        Err(Error::ArityMin { expected: 1, given: 0 }) => {},
        other => panic!("unexpected {:?}", other),
    }
}

#[test]
fn a_list_whose_head_is_data_evaluates_to_its_values() {
    check(l(vec![num(1), num(2)]), l(vec![num(1), num(2)]));
    check(
        l(vec![num(1), l(vec![s("+"), num(1), num(2)]), st("x")]),
        l(vec![num(1), num(3), st("x")]),
    );
    check(l(vec![bo(true)]), l(vec![bo(true)]));
    match ev(l(vec![num(1), s("no-such-name")])) {
        Err(Error::UndefinedSymbol { sym }) => assert_eq!(sym, "no-such-name"),
        other => panic!("unexpected {:?}", other),
    }
}

#[test]
fn application_of_a_symbol() {
    match ev(l(vec![l(vec![s("quote"), s("abc")]), num(2)])) {
        Err(Error::NotAProcedure { exp }) => assert_eq!(exp, "abc"),
        other => panic!("unexpected {:?}", other),
    }
}

#[test]
fn arity_errors_report_counts() {
    match ev(l(vec![s("car"), num(1), num(2)])) {
        Err(Error::Arity { expected: 1, given: 2 }) => {},
        other => panic!("unexpected {:?}", other),
    }
    match ev(l(vec![s("make-vector")])) {
        Err(Error::ArityMin { expected: 1, given: 0 }) => {},
        other => panic!("unexpected {:?}", other),
    }
    match ev(l(vec![s("make-vector"), num(1), num(2), num(3)])) {
        Err(Error::ArityMax { expected: 2, given: 3 }) => {},
        other => panic!("unexpected {:?}", other),
    }
}

#[test]
fn eq_test() {
    let eq = || s("eq?");
    let null = || s("null");
    assert_eq!(ev(l(vec![eq(), null(), null()])).unwrap(), bo(true));
    assert_eq!(ev(l(vec![eq(), null(), num(2)])).unwrap(), bo(false));
    assert_eq!(ev(l(vec![eq(), st("woohoo"), st("woohoo")])).unwrap(), bo(true));
    assert_eq!(ev(l(vec![eq(), num(1 + 2 + 3), num(6)])).unwrap(), bo(true));
    assert_eq!(ev(l(vec![eq(), l(vec![num(1), num(2)]), l(vec![num(1), num(2)])])).unwrap(), bo(true));
    assert_eq!(ev(l(vec![eq(), num(0), l(vec![num(1), num(2)])])).unwrap(), bo(false));
}

#[test]
fn null_test() {
    let null = || s("null?");
    let null_c = || s("null");
    let quote = || s("quote");
    assert_eq!(ev(l(vec![null(), l(vec![quote(), s("test")])])).unwrap(), bo(false));
    assert_eq!(ev(l(vec![null(), null_c()])).unwrap(), bo(true));
    assert_eq!(ev(l(vec![null(), l(vec![quote(), SExp::Null])])).unwrap(), bo(true));
    assert_eq!(ev(l(vec![null(), l(vec![quote(), l(vec![bo(false), SExp::Null])])])).unwrap(), bo(false));
}

#[test]
fn null_const() {
    assert_eq!(ev(s("null")).unwrap(), SExp::Null);
}

#[test]
fn not() {
    let not = || s("not");
    assert_eq!(ev(l(vec![not(), bo(false)])).unwrap(), bo(true));
    assert_eq!(ev(l(vec![not(), bo(true)])).unwrap(), bo(false));
    assert_eq!(ev(l(vec![not(), s("null")])).unwrap(), bo(false));
    assert_eq!(ev(l(vec![not(), l(vec![num(1), num(2), num(3), num(4)])])).unwrap(), bo(false));
}

#[test]
fn cons() {
    let cons = || s("cons");
    let item_1 = || num(5);
    let item_2 = || st("abc");
    let item_3 = || s("null");

    // sanity check
    assert_eq!(l(vec![item_1()]), SExp::Pair { head: Box::new(item_1()), tail: Box::new(SExp::Null) });
    assert_eq!(ev(l(vec![cons(), item_1(), item_3()])).unwrap(), SExp::Null.cons(item_1()));
    assert_eq!(ev(l(vec![cons(), item_1(), item_2()])).unwrap(), item_2().cons(item_1()));
    assert_eq!(ev(l(vec![cons(), item_1(), l(vec![item_2()])])).unwrap(), SExp::Null.cons(item_2()).cons(item_1()));
}

#[test]
fn car() {
    let car = || s("car");
    assert!(ev(SExp::Null.cons(SExp::Null).cons(car())).is_err());
    assert!(ev(SExp::Null.cons(st("test")).cons(car())).is_err());
    assert_eq!(ev(l(vec![car(), l(vec![num(3), num(5)])])).unwrap(), num(3));
}

#[test]
fn cdr() {
    let cdr = || s("cdr");
    assert!(ev(SExp::Null.cons(SExp::Null).cons(cdr())).is_err());
    assert!(ev(SExp::Null.cons(st("test")).cons(cdr())).is_err());
    assert_eq!(ev(l(vec![cdr(), l(vec![num(3), num(5)])])).unwrap(), l(vec![num(5)]));
}

#[test]
fn type_of() {
    let tpf = || s("type-of");
    assert_eq!(
        ev(l(vec![tpf(), s("null")])).unwrap(),
        ev(l(vec![tpf(), SExp::Null.cons(SExp::Null).cons(s("quote"))])).unwrap()
    );
    assert_eq!(ev(l(vec![tpf(), ch('b')])).unwrap(), ev(l(vec![tpf(), ch('\n')])).unwrap());
    assert_eq!(ev(l(vec![tpf(), bo(true)])).unwrap(), ev(l(vec![tpf(), bo(false)])).unwrap());
    assert_eq!(ev(l(vec![tpf(), st("yes")])).unwrap(), ev(l(vec![tpf(), st("potato")])).unwrap());
    assert_eq!(ev(l(vec![tpf(), s("null?")])).unwrap(), ev(l(vec![tpf(), s("+")])).unwrap());
    assert_eq!(
        ev(l(vec![tpf(), l(vec![st("abc"), num(123)])])).unwrap(),
        ev(l(vec![tpf(), l(vec![bo(false), ch('\0')])])).unwrap()
    );
}
