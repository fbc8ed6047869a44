use parsley::context::Context;
use parsley::errors::Error;
use parsley::value::SExp;

fn sym(name: &str) -> SExp {
    SExp::make_symbol(name)
}

fn list(items: Vec<SExp>) -> SExp {
    SExp::from_items(items)
}

fn eval(e: SExp) -> Result<SExp, Error> {
    e.eval(&mut Context::default())
}

fn assert_eval_eq(e: SExp, expected: SExp) {
    assert_eq!(eval(e).expect("Evaluation failed"), expected);
}

fn b(v: bool) -> SExp {
    SExp::from_bool(v)
}

fn n(v: i64) -> SExp {
    SExp::from_int(v)
}

fn s(v: &str) -> SExp {
    SExp::from_str_slice(v)
}

fn c(v: char) -> SExp {
    SExp::from_char(v)
}

#[test]
fn null_list() {
    assert!(eval(SExp::Null).is_err());
    assert_eval_eq(list(vec![sym("quote"), SExp::Null]), SExp::Null);
}

#[test]
fn atom() {
    assert!(eval(sym("test")).is_err());
    assert_eval_eq(list(vec![sym("quote"), sym("test")]), sym("test"));
}

#[test]
fn list_quote() {
    assert_eval_eq(list(vec![sym("quote"), SExp::Null]), SExp::Null);

    let l = list(vec![sym("abc"), sym("xyz")]);
    assert_eval_eq(list(vec![sym("quote"), l.clone()]), l);
}

#[test]
fn r_if() {
    // ensure the right consequent is returned
    assert_eval_eq(list(vec![sym("if"), b(true), s("one"), s("two")]), s("one"));
    assert_eval_eq(list(vec![sym("if"), b(false), s("one"), s("two")]), s("two"));
    // ensure only the correct consequent is evaluated
    assert!(eval(list(vec![sym("if"), b(true), n(4), sym("potato")])).is_ok());
    assert!(eval(list(vec![sym("if"), b(true), sym("potato"), n(5)])).is_err());
    assert!(eval(list(vec![sym("if"), b(false), n(3), sym("potato")])).is_err());
    assert!(eval(list(vec![sym("if"), b(false), sym("potato"), s("hooray")])).is_ok());
}

#[test]
fn and() {
    // validate return value
    assert_eval_eq(list(vec![sym("and")]), b(true));
    assert_eval_eq(list(vec![sym("and"), b(true), b(true)]), b(true));
    assert_eval_eq(list(vec![sym("and"), b(false), b(true)]), b(false));
    assert_eval_eq(list(vec![sym("and"), b(false), b(false)]), b(false));
    assert_eval_eq(list(vec![sym("and"), b(true), n(3)]), n(3));
    assert_eval_eq(list(vec![sym("and"), list(vec![sym("quote"), SExp::Null])]), SExp::Null);
    assert_eval_eq(list(vec![sym("and"), c('a'), c('b'), b(false), c('c')]), b(false));
    // ensure that evaluation occurs until a false is encountered
    assert!(eval(list(vec![sym("and"), b(false), sym("potato")])).is_ok());
    assert!(eval(list(vec![sym("and"), b(true), sym("potato")])).is_err());
}

#[test]
fn or() {
    // validate return value
    assert_eval_eq(list(vec![sym("or")]), b(false));
    assert_eval_eq(list(vec![sym("or"), b(true), b(true)]), b(true));
    assert_eval_eq(list(vec![sym("or"), b(false), b(true)]), b(true));
    assert_eval_eq(list(vec![sym("or"), b(true), b(false)]), b(true));
    assert_eval_eq(list(vec![sym("or"), b(false), b(false)]), b(false));
    assert_eval_eq(list(vec![sym("or"), n(3), b(true)]), n(3));
    assert_eval_eq(list(vec![sym("or"), list(vec![sym("quote"), SExp::Null]), n(5)]), SExp::Null);
    assert_eval_eq(list(vec![sym("or"), b(false), c('a'), c('b'), c('c')]), c('a'));
    // ensure that evaluation stops at first non-false value
    assert!(eval(list(vec![sym("or"), b(false), sym("potato")])).is_err());
    assert!(eval(list(vec![sym("or"), b(true), sym("potato")])).is_ok());
}

#[test]
fn begin() {
    assert!(eval(list(vec![sym("begin")])).is_err());
    assert_eval_eq(list(vec![sym("begin"), n(0), n(1)]), n(1));
}

#[test]
fn r_let() {
    // validate errors for insufficient arguments
    assert!(eval(list(vec![sym("let")])).is_err());
    assert!(eval(list(vec![sym("let"), SExp::Null])).is_err());
    // very basic case
    assert_eval_eq(list(vec![sym("let"), list(vec![list(vec![sym("x"), n(3)])]), sym("x")]), n(3));
    // multiple body statements
    assert_eval_eq(
        list(vec![
            sym("let"),
            list(vec![list(vec![sym("x"), n(3)]), list(vec![sym("y"), n(5)])]),
            sym("x"),
            sym("y"),
        ]),
        n(5),
    );
}

fn base_eval(e: SExp) -> Result<SExp, Error> {
    e.eval(&mut Context::base())
}

#[test]
fn tests_cond() {
    // validate empty value
    assert_eval_eq(list(vec![sym("cond")]), SExp::Atom(parsley::Primitive::Void));
    // validate else behavior
    assert_eval_eq(list(vec![sym("cond"), list(vec![sym("else"), c('a')])]), c('a'));
    // validate typical use cases
    assert_eval_eq(list(vec![sym("cond"), list(vec![b(true), c('b')]), list(vec![sym("else"), c('a')])]), c('b'));
    assert_eval_eq(list(vec![sym("cond"), list(vec![b(false), c('b')]), list(vec![sym("else"), c('a')])]), c('a'));
    assert_eval_eq(
        list(vec![
            sym("cond"),
            list(vec![b(false), c('c')]),
            list(vec![b(true), c('b')]),
            list(vec![b(true), c('d')]),
            list(vec![sym("else"), c('a')]),
        ]),
        c('b'),
    );
    assert_eval_eq(
        list(vec![
            sym("cond"),
            list(vec![b(false), c('c')]),
            list(vec![b(false), c('b')]),
            list(vec![b(false), c('d')]),
            list(vec![sym("else"), c('a')]),
        ]),
        c('a'),
    );
    // ensure that evaluation stops at first non-#f predicate
    assert!(eval(list(vec![sym("cond"), list(vec![b(true), sym("potato")]), list(vec![sym("else"), s("good")])])).is_err());
    assert!(eval(list(vec![sym("cond"), list(vec![b(true), s("good")]), list(vec![sym("else"), sym("potato")])])).is_ok());
}

#[test]
fn eval_empty_list() {
    let mut ctx = Context::default();
    assert!(SExp::Null.eval(&mut ctx).is_err());

    let mut ctx = Context::default();
    assert_eq!(SExp::Null.cons(SExp::Null).cons(sym("quote")).eval(&mut ctx).unwrap(), SExp::Null);
}

#[test]
fn eval_atom() {
    let mut ctx = Context::default();
    assert!(sym("test").eval(&mut ctx).is_err());

    let mut ctx = Context::default();
    assert_eq!(SExp::Null.cons(sym("test")).cons(sym("quote")).eval(&mut ctx).unwrap(), sym("test"));
}

#[test]
fn eval_list_quote() {
    let test_list = SExp::Null.cons(SExp::Null).cons(sym("quote"));
    let mut ctx = Context::default();
    assert_eq!(test_list.eval(&mut ctx).unwrap(), SExp::Null);

    let test_list_2 = SExp::Null.cons(sym("xyz")).cons(sym("abc"));
    let test_again = SExp::Null.cons(test_list_2.clone()).cons(sym("quote"));
    let mut ctx = Context::default();
    assert_eq!(test_again.eval(&mut ctx).unwrap(), test_list_2);
}

#[test]
fn eval_null_test() {
    let null = || sym("null?");
    let quote = || sym("quote");

    let mut ctx = Context::base();
    assert_eq!(
        SExp::Null.cons(SExp::Null.cons(sym("test")).cons(quote())).cons(null()).eval(&mut ctx).unwrap(),
        b(false)
    );

    let mut ctx = Context::base();
    assert_eq!(
        SExp::Null.cons(SExp::Null.cons(SExp::Null).cons(quote())).cons(null()).eval(&mut ctx).unwrap(),
        b(true)
    );

    let mut ctx = Context::base();
    assert_eq!(
        SExp::Null
            .cons(SExp::Null.cons(SExp::Null.cons(SExp::Null).cons(b(false))).cons(quote()))
            .cons(null())
            .eval(&mut ctx)
            .unwrap(),
        b(false)
    );
}

#[test]
fn eval_cons() {
    let cons = || sym("cons");
    let item_1 = || n(5);
    let item_2 = || s("abc");
    let item_3 = || sym("null");

    // sanity check
    assert_eq!(
        SExp::Null.cons(item_1()),
        SExp::Pair { head: Box::new(item_1()), tail: Box::new(SExp::Null) }
    );

    let mut ctx = Context::base();
    assert_eq!(
        SExp::Null.cons(item_3()).cons(item_1()).cons(cons()).eval(&mut ctx).unwrap(),
        SExp::Null.cons(item_1())
    );

    let mut ctx = Context::base();
    assert_eq!(
        SExp::Null.cons(item_2()).cons(item_1()).cons(cons()).eval(&mut ctx).unwrap(),
        item_2().cons(item_1())
    );
}

#[test]
fn eval_if() {
    let mut ctx = Context::default();
    assert_eq!(
        SExp::Null.cons(s("two")).cons(s("one")).cons(b(true)).cons(sym("if")).eval(&mut ctx).unwrap(),
        s("one")
    );

    let mut ctx = Context::default();
    assert_eq!(
        SExp::Null.cons(s("two")).cons(s("one")).cons(b(false)).cons(sym("if")).eval(&mut ctx).unwrap(),
        s("two")
    );
}

#[test]
fn eval_and() {
    let and = || sym("and");
    let mut ctx = Context::default();
    assert_eq!(SExp::Null.cons(and()).eval(&mut ctx).unwrap(), b(true));
    let mut ctx = Context::default();
    assert_eq!(SExp::Null.cons(b(true)).cons(b(true)).cons(and()).eval(&mut ctx).unwrap(), b(true));
    let mut ctx = Context::default();
    assert_eq!(SExp::Null.cons(b(true)).cons(b(false)).cons(and()).eval(&mut ctx).unwrap(), b(false));
    let mut ctx = Context::default();
    assert_eq!(SExp::Null.cons(b(false)).cons(b(false)).cons(and()).eval(&mut ctx).unwrap(), b(false));
    let mut ctx = Context::default();
    assert_eq!(SExp::Null.cons(n(3)).cons(b(true)).cons(and()).eval(&mut ctx).unwrap(), n(3));
    let mut ctx = Context::default();
    assert_eq!(
        SExp::Null.cons(SExp::Null.cons(SExp::Null).cons(sym("quote"))).cons(and()).eval(&mut ctx).unwrap(),
        SExp::Null
    );
    let mut ctx = Context::default();
    assert_eq!(list(vec![and(), c('a'), c('b'), b(false), c('c')]).eval(&mut ctx).unwrap(), b(false));
}

#[test]
fn eval_or() {
    let or = || sym("or");
    let mut ctx = Context::default();
    assert_eq!(SExp::Null.cons(or()).eval(&mut ctx).unwrap(), b(false));
    let mut ctx = Context::default();
    assert_eq!(SExp::Null.cons(b(true)).cons(b(true)).cons(or()).eval(&mut ctx).unwrap(), b(true));
    let mut ctx = Context::default();
    assert_eq!(SExp::Null.cons(b(true)).cons(b(false)).cons(or()).eval(&mut ctx).unwrap(), b(true));
    let mut ctx = Context::default();
    assert_eq!(SExp::Null.cons(b(false)).cons(b(false)).cons(or()).eval(&mut ctx).unwrap(), b(false));
    let mut ctx = Context::default();
    assert_eq!(list(vec![or(), n(3), b(true)]).eval(&mut ctx).unwrap(), n(3));
    let mut ctx = Context::default();
    assert_eq!(
        SExp::Null.cons(SExp::Null.cons(SExp::Null).cons(sym("quote"))).cons(or()).eval(&mut ctx).unwrap(),
        SExp::Null
    );
    let mut ctx = Context::default();
    assert_eq!(list(vec![or(), b(false), c('a'), c('b'), c('c')]).eval(&mut ctx).unwrap(), c('a'));
}

#[test]
fn eval_cond() {
    let cond = || sym("cond");
    let else_ = || sym("else");
    let mut ctx = Context::default();
    assert_eq!(SExp::Null.cons(cond()).eval(&mut ctx).unwrap(), SExp::Atom(parsley::Primitive::Void));
    let mut ctx = Context::default();
    assert_eq!(list(vec![cond(), list(vec![else_(), c('a')])]).eval(&mut ctx).unwrap(), c('a'));
    let mut ctx = Context::default();
    assert_eq!(
        SExp::Null
            .cons(list(vec![c('a')]).cons(else_()))
            .cons(list(vec![c('b')]).cons(b(true)))
            .cons(cond())
            .eval(&mut ctx)
            .unwrap(),
        c('b')
    );
    let mut ctx = Context::default();
    assert_eq!(
        SExp::Null
            .cons(list(vec![c('a')]).cons(else_()))
            .cons(list(vec![c('b')]).cons(b(false)))
            .cons(cond())
            .eval(&mut ctx)
            .unwrap(),
        c('a')
    );
    let mut ctx = Context::default();
    assert_eq!(
        SExp::Null
            .cons(list(vec![c('a')]).cons(else_()))
            .cons(list(vec![c('d')]).cons(b(true)))
            .cons(list(vec![c('b')]).cons(b(true)))
            .cons(list(vec![c('c')]).cons(b(false)))
            .cons(cond())
            .eval(&mut ctx)
            .unwrap(),
        c('b')
    );
    let mut ctx = Context::default();
    assert_eq!(
        SExp::Null
            .cons(list(vec![c('a')]).cons(else_()))
            .cons(list(vec![c('d')]).cons(b(false)))
            .cons(list(vec![c('b')]).cons(b(false)))
            .cons(list(vec![c('c')]).cons(b(false)))
            .cons(cond())
            .eval(&mut ctx)
            .unwrap(),
        c('a')
    );
}

#[test]
fn eval_begin() {
    let mut ctx = Context::default();
    assert!(SExp::Null.cons(sym("begin")).eval(&mut ctx).is_err());
    let mut ctx = Context::default();
    assert_eq!(list(vec![sym("begin"), n(0), n(1)]).eval(&mut ctx).unwrap(), n(1));
}

#[test]
fn eval_let() {
    let x = || sym("x");
    let y = || sym("y");
    let let_ = || sym("let");
    let mut ctx = Context::default();
    assert!(SExp::Null.cons(let_()).eval(&mut ctx).is_err());
    let mut ctx = Context::default();
    assert!(SExp::Null.cons(SExp::Null).cons(let_()).eval(&mut ctx).is_err());
    let mut ctx = Context::default();
    assert_eq!(
        SExp::Null.cons(x()).cons(SExp::Null.cons(list(vec![n(3)]).cons(x()))).cons(let_()).eval(&mut ctx).unwrap(),
        n(3)
    );
    let mut ctx = Context::default();
    assert_eq!(
        SExp::Null
            .cons(y())
            .cons(x())
            .cons(SExp::Null.cons(list(vec![n(5)]).cons(y())).cons(list(vec![n(3)]).cons(x())))
            .cons(let_())
            .eval(&mut ctx)
            .unwrap(),
        n(5)
    );
}

#[test]
fn tests_null_list() {
    assert!(base_eval(SExp::Null).is_err());
    assert_eq!(base_eval(list(vec![sym("quote"), SExp::Null])).unwrap(), SExp::Null);
}

#[test]
fn tests_atom() {
    assert!(base_eval(sym("test")).is_err());
    assert_eq!(base_eval(list(vec![sym("quote"), sym("test")])).unwrap(), sym("test"));
}

#[test]
fn tests_r_if() {
    assert_eq!(base_eval(list(vec![sym("if"), b(true), s("one"), s("two")])).unwrap(), s("one"));
    assert_eq!(base_eval(list(vec![sym("if"), b(false), s("one"), s("two")])).unwrap(), s("two"));
    assert!(base_eval(list(vec![sym("if"), b(true), n(4), sym("potato")])).is_ok());
    assert!(base_eval(list(vec![sym("if"), b(true), sym("potato"), n(5)])).is_err());
    assert!(base_eval(list(vec![sym("if"), b(false), n(3), sym("potato")])).is_err());
    assert!(base_eval(list(vec![sym("if"), b(false), sym("potato"), s("hooray")])).is_ok());
}

#[test]
fn tests_and() {
    assert_eq!(base_eval(list(vec![sym("and")])).unwrap(), b(true));
    assert_eq!(base_eval(list(vec![sym("and"), b(true), b(true)])).unwrap(), b(true));
    assert_eq!(base_eval(list(vec![sym("and"), b(false), b(true)])).unwrap(), b(false));
    assert_eq!(base_eval(list(vec![sym("and"), b(false), b(false)])).unwrap(), b(false));
    assert_eq!(base_eval(list(vec![sym("and"), b(true), n(3)])).unwrap(), n(3));
    assert_eq!(base_eval(list(vec![sym("and"), list(vec![sym("quote"), SExp::Null])])).unwrap(), SExp::Null);
    assert_eq!(base_eval(list(vec![sym("and"), c('a'), c('b'), b(false), c('c')])).unwrap(), b(false));
    assert!(base_eval(list(vec![sym("and"), b(false), sym("potato")])).is_ok());
    assert!(base_eval(list(vec![sym("and"), b(true), sym("potato")])).is_err());
}

#[test]
fn tests_or() {
    assert_eq!(base_eval(list(vec![sym("or")])).unwrap(), b(false));
    assert_eq!(base_eval(list(vec![sym("or"), b(true), b(true)])).unwrap(), b(true));
    assert_eq!(base_eval(list(vec![sym("or"), b(false), b(true)])).unwrap(), b(true));
    assert_eq!(base_eval(list(vec![sym("or"), b(true), b(false)])).unwrap(), b(true));
    assert_eq!(base_eval(list(vec![sym("or"), b(false), b(false)])).unwrap(), b(false));
    assert_eq!(base_eval(list(vec![sym("or"), n(3), b(true)])).unwrap(), n(3));
    assert_eq!(base_eval(list(vec![sym("or"), list(vec![sym("quote"), SExp::Null]), n(5)])).unwrap(), SExp::Null);
    assert_eq!(base_eval(list(vec![sym("or"), b(false), c('a'), c('b'), c('c')])).unwrap(), c('a'));
    assert!(base_eval(list(vec![sym("or"), b(false), sym("potato")])).is_err());
    assert!(base_eval(list(vec![sym("or"), b(true), sym("potato")])).is_ok());
}

#[test]
fn tests_r_let() {
    assert!(base_eval(list(vec![sym("let")])).is_err());
    assert!(base_eval(list(vec![sym("let"), SExp::Null])).is_err());
    assert_eq!(base_eval(list(vec![sym("let"), list(vec![list(vec![sym("x"), n(3)])]), sym("x")])).unwrap(), n(3));
    assert_eq!(
        base_eval(list(vec![
            sym("let"),
            list(vec![list(vec![sym("x"), n(3)]), list(vec![sym("y"), n(5)])]),
            sym("x"),
            sym("y"),
        ]))
        .unwrap(),
        n(5)
    );
}
