use kappa_lisp::read::Cursor;
use kappa_lisp::util::{kcons, kfloat, kint, kkw, klist, knil, kstr, ksym};
use kappa_lisp::eval::eval_in;
use kappa_lisp::{init, read, read_in, run, run_new, Env, Error, Expr};

fn fresh() -> Env {
    let mut env = Env::new();
    init(&mut env).unwrap();
    env
}

#[test]
fn round_trip_through_text() {
    let samples = vec![
        kint(0),
        kint(-42),
        kint(9_223_372_036_854_775_807),
        kstr("a b (c)"),
        ksym("sym-bol"),
        kkw("key"),
        knil(),
        klist(vec![kint(1), ksym("x"), kstr("s")]),
        kcons(kint(1), kcons(kint(2), kint(3))),
        klist(vec![klist(vec![]), kcons(ksym("a"), ksym("b"))]),
    ];
    for e in samples {
        let text = e.to_text();
        assert_eq!(read(&text), Ok(e.clone()), "text {}", text);
    }
}

#[test]
fn round_trip_float() {
    let e = kfloat(2.5f32.to_bits());
    assert_eq!(read(&e.to_text()), Ok(e));
}

#[test]
fn read_in_yields_forms_in_order() {
    let mut input = Cursor::new(" 1 (a . b)\n\"s\" :k ");
    assert_eq!(read_in(&mut input), Some(kint(1)));
    assert_eq!(read_in(&mut input), Some(kcons(ksym("a"), ksym("b"))));
    assert_eq!(read_in(&mut input), Some(kstr("s")));
    assert_eq!(read_in(&mut input), Some(kkw("k")));
    assert_eq!(read_in(&mut input), None);
}

#[test]
fn read_errors() {
    assert_eq!(read(""), Err(Error::ReadError));
    assert_eq!(read("   "), Err(Error::ReadError));
    assert_eq!(read("(1 2"), Err(Error::ReadError));
    assert_eq!(read("\"open"), Err(Error::ReadError));
    assert_eq!(read("#x"), Err(Error::ReadError));
    assert_eq!(read(")"), Err(Error::ReadError));
    assert_eq!(read("(1 . 2 3)"), Err(Error::ReadError));
    assert_eq!(read("99999999999999999999"), Err(Error::ReadError));
}

#[test]
fn read_signs_and_symbols() {
    assert_eq!(read("-"), Ok(ksym("-")));
    assert_eq!(read("+foo"), Ok(ksym("+foo")));
    assert_eq!(read("(- 1)"), Ok(klist(vec![ksym("-"), kint(1)])));
    assert_eq!(read("-9223372036854775807"), Ok(kint(-9_223_372_036_854_775_807)));
}

#[test]
fn arithmetic_folding() {
    assert_eq!(run_new("(+)"), Ok(kint(0)));
    assert_eq!(run_new("(*)"), Ok(kint(1)));
    assert_eq!(run_new("(+ 1 2 3)"), Ok(kint(6)));
    assert_eq!(run_new("(+ 1 2 3.0)"), Ok(kfloat(6.0f32.to_bits())));
    assert_eq!(run_new("(- 1.0 2 3)"), Ok(kfloat((-4.0f32).to_bits())));
    assert_eq!(run_new("(/ 7 -2)"), Ok(kint(-3)));
    assert_eq!(run_new("(/ -7 2)"), Ok(kint(-3)));
}

#[test]
fn float_operations() {
    assert_eq!(run_new("(+ 1.5 2.25)"), Ok(kfloat(3.75f32.to_bits())));
    assert_eq!(run_new("(- 1.5 0.25)"), Ok(kfloat(1.25f32.to_bits())));
    assert_eq!(run_new("(* 1.5 4)"), Ok(kfloat(6.0f32.to_bits())));
    assert_eq!(run_new("(/ 1 4.0)"), Ok(kfloat(0.25f32.to_bits())));
    assert_eq!(run_new("(+ 1 0.5)"), Ok(kfloat(1.5f32.to_bits())));
    assert_eq!(read("2.5"), Ok(kfloat(2.5f32.to_bits())));
    assert_eq!(read("1."), Ok(kfloat(1.0f32.to_bits())));
}

#[test]
fn arithmetic_errors() {
    assert_eq!(run_new("(/ 1 0)"), Err(Error::InvalidArgument(kint(0))));
    assert_eq!(
        run_new("(+ 9223372036854775807 1)"),
        Err(Error::InvalidArgument(kint(1)))
    );
    assert_eq!(run_new("(+ 1 \"a\")"), Err(Error::Type(kappa_lisp::Type::Int, kstr("a"))));
    assert_eq!(run_new("(< 1 'a)"), Err(Error::Type(kappa_lisp::Type::Int, ksym("a"))));
}

#[test]
fn parameter_binding() {
    assert_eq!(run_new("((lambda (x y &optional z) z) 1 2)"), Ok(knil()));
    assert_eq!(run_new("((lambda (x y &optional z) z) 1 2 3)"), Ok(kint(3)));
    assert_eq!(
        run_new("((lambda (x &rest y) y) 1 2 3)"),
        Ok(klist(vec![kint(2), kint(3)]))
    );
    assert_eq!(run_new("((lambda (x &rest y) y) 1)"), Ok(knil()));
    assert_eq!(run_new("((lambda (&optional a b) b) 1)"), Ok(knil()));
}

#[test]
fn arity_errors() {
    assert_eq!(run_new("((lambda (x y) x) 1)"), Err(Error::Form(ksym("y"))));
    assert_eq!(run_new("((lambda (x y) x) 1 2 3)"), Err(Error::ArityExceed));
    assert_eq!(
        run_new("((lambda (x &rest y z) x) 1)"),
        Err(Error::Form(klist(vec![ksym("z")])))
    );
    assert_eq!(run_new("((lambda (1) 1) 2)"), Err(Error::Form(kint(1))));
}

#[test]
fn scoping() {
    let mut env = fresh();
    assert_eq!(run(&mut env, "((lambda (x) (set 'inner x)) 7)"), Ok(knil()));
    assert_eq!(run(&mut env, "inner"), Err(Error::Unbound("inner".to_string())));
    assert_eq!(run(&mut env, "x"), Err(Error::Unbound("x".to_string())));
    assert_eq!(run(&mut env, "(set 'outer 3)"), Ok(knil()));
    assert_eq!(run(&mut env, "((lambda (y) (+ outer y)) 4)"), Ok(kint(7)));
    assert_eq!(run(&mut env, "outer"), Ok(kint(3)));
    assert_eq!(run(&mut env, "(fset 'twice (lambda (n) (* 2 n)))"), Ok(knil()));
    assert_eq!(run(&mut env, "(twice 21)"), Ok(kint(42)));
}

#[test]
fn dynamic_extent_of_parameters() {
    let mut env = fresh();
    run(&mut env, "(fset 'peek (lambda () v))").unwrap();
    assert_eq!(run(&mut env, "((lambda (v) (peek)) 5)"), Ok(kint(5)));
    assert_eq!(run(&mut env, "(peek)"), Err(Error::Unbound("v".to_string())));
}

#[test]
fn conditional_truthiness() {
    assert_eq!(run_new("(if () 1 2)"), Ok(kint(2)));
    assert_eq!(run_new("(if 1 1 2)"), Ok(kint(1)));
    assert_eq!(run_new("(if 0 1 2)"), Ok(kint(1)));
    assert_eq!(run_new("(if \"\" 1 2)"), Ok(kint(1)));
    assert_eq!(run_new("(if nil 1)"), Ok(knil()));
    assert_eq!(run_new("(if 1)"), Err(Error::ArityShort));
    assert_eq!(run_new("(if 1 2 3 4)"), Err(Error::ArityExceed));
}

#[test]
fn namespaces() {
    assert_eq!(run_new("(funcall #'+ 1 2)"), Ok(kint(3)));
    assert_eq!(run_new("(funcall (lambda (x y) (* x y)) 1 2)"), Ok(kint(2)));
    assert_eq!(run_new("(funcall #'car '(1 2))"), Ok(kint(1)));
    let mut env = fresh();
    run(&mut env, "(set 'car 5)").unwrap();
    assert_eq!(run(&mut env, "(car '(9))"), Ok(kint(9)));
    assert_eq!(run(&mut env, "car"), Ok(kint(5)));
    assert_eq!(run_new("#'nothing"), Err(Error::Unbound("nothing".to_string())));
}

#[test]
fn evaluator_errors() {
    assert_eq!(run_new("(funcall 1 2)"), Err(Error::NotFunction(kint(1))));
    assert_eq!(run_new("(1 2)"), Err(Error::NotFunction(kint(1))));
    assert_eq!(run_new("(car 1)"), Err(Error::Type(kappa_lisp::Type::Cons, kint(1))));
    assert_eq!(run_new("(car)"), Err(Error::ArityShort));
    assert_eq!(run_new("(car '(1) 2)"), Err(Error::ArityExceed));
    assert_eq!(run_new("(lambda)"), Err(Error::Form(knil())));
    assert_eq!(run_new("(undefined-fn 1)"), Err(Error::Unbound("undefined-fn".to_string())));
    assert_eq!(run_new("(+ 1 . 2)"), Err(Error::InvalidArgument(kcons(kint(1), kint(2)))));
    assert_eq!(run_new("(set 1 2)"), Err(Error::Type(kappa_lisp::Type::Sym, kint(1))));
}

#[test]
fn too_deep() {
    let mut env = fresh();
    run(&mut env, "(defun forever (x) (forever x))").unwrap();
    let form = read("(forever 1)").unwrap();
    assert_eq!(eval_in(&mut env, &form, 200), Err(Error::TooDeep));
}

#[test]
fn dotted_marker_is_a_lone_dot() {
    assert_eq!(read("(a .b)"), Ok(klist(vec![ksym("a"), ksym(".b")])));
    assert_eq!(read("(a . b)"), Ok(kcons(ksym("a"), ksym("b"))));
    let e = klist(vec![ksym("a"), ksym(".b")]);
    assert_eq!(read(&e.to_text()), Ok(e));
}

#[test]
fn smallest_integer_reads() {
    assert_eq!(read("-9223372036854775808"), Ok(kint(i64::MIN)));
    assert_eq!(read("9223372036854775808"), Err(Error::ReadError));
    assert_eq!(read(&kint(i64::MIN).to_text()), Ok(kint(i64::MIN)));
}

#[test]
fn arguments_left_to_right() {
    let mut env = fresh();
    assert_eq!(run(&mut env, "(cons (set 'v 1) (set 'v 2))"), Ok(kcons(knil(), knil())));
    assert_eq!(run(&mut env, "v"), Ok(kint(2)));
}

#[test]
fn macro_gets_unevaluated_arguments() {
    let mut env = fresh();
    assert_eq!(
        run(&mut env, "(fset 'm (cons 'macro (lambda (a) (cons 'quote (cons a nil)))))"),
        Ok(knil())
    );
    assert_eq!(
        run(&mut env, "(m (no-such-fn 1))"),
        Ok(klist(vec![ksym("no-such-fn"), kint(1)]))
    );
}

#[test]
fn lambda_body_sets_then_reads() {
    let mut env = fresh();
    assert_eq!(run(&mut env, "((lambda () (set 'zz 1) zz))"), Ok(kint(1)));
    assert_eq!(run(&mut env, "zz"), Err(Error::Unbound("zz".to_string())));
}

#[test]
fn special_form_errors() {
    assert_eq!(run_new("(quote)"), Err(Error::ArityShort));
    assert_eq!(run_new("(quote a b)"), Err(Error::ArityExceed));
    assert_eq!(run_new("(set 'a 1 2)"), Err(Error::ArityExceed));
    assert_eq!(run_new("(function)"), Err(Error::Form(knil())));
    assert_eq!(run_new("(\"s\")"), Err(Error::NotFunction(kstr("s"))));
    assert_eq!(
        run_new("(fset \"f\" (lambda (x) x))"),
        Err(Error::Type(kappa_lisp::Type::Sym, kstr("f")))
    );
}

#[test]
fn long_assoc_list() {
    let mut env = fresh();
    let mut text = String::from("(set 'big '(");
    for i in 0..300 {
        text.push_str(&format!("(k{} . {}) ", i, i));
    }
    text.push_str("))");
    run(&mut env, &text).unwrap();
    assert_eq!(run(&mut env, "(cdr (assoc 'k299 big))"), Ok(kint(299)));
}

#[test]
fn macros_and_recursion() {
    let mut env = fresh();
    run(
        &mut env,
        "(defun fib (n) (if (< n 2) 1 (+ (fib (- n 1)) (fib (- n 2)))))",
    )
    .unwrap();
    assert_eq!(run(&mut env, "(fib 10)"), Ok(kint(89)));
}

#[test]
fn strings() {
    assert_eq!(run_new("(concat)"), Ok(kstr("")));
    assert_eq!(run_new("(concat \"a\" 1)"), Err(Error::Type(kappa_lisp::Type::Str, kint(1))));
    assert_eq!(run_new("(string-to-number \"-12\")"), Ok(kint(-12)));
    assert_eq!(run_new("(string-to-number \"+5\")"), Ok(kint(5)));
    assert_eq!(
        run_new("(string-to-number \"-9223372036854775808\")"),
        Ok(kint(i64::MIN))
    );
    assert_eq!(
        run_new("(string-to-number \"1x\")"),
        Err(Error::InvalidArgument(klist(vec![kstr("1x")])))
    );
    assert_eq!(run_new("(substring \"abcdefg\" 2 2)"), Ok(kstr("")));
    assert_eq!(
        run_new("(substring \"abc\" 2 1)"),
        Err(Error::InvalidArgument(klist(vec![kstr("abc"), kint(2), kint(1)])))
    );
}

#[test]
fn skk_calc_errors() {
    let mut env = fresh();
    assert_eq!(
        run(&mut env, "(skk-calc '+)"),
        Err(Error::Unbound("skk-num-list".to_string()))
    );
    run(&mut env, "(set 'skk-num-list '(3 0))").unwrap();
    assert_eq!(
        run(&mut env, "(skk-calc '%)"),
        Err(Error::User("unknown operator %".to_string()))
    );
    assert_eq!(
        run(&mut env, "(skk-calc '/)"),
        Err(Error::InvalidArgument(klist(vec![kint(3), kint(0)])))
    );
}

#[test]
fn skk_current_date_calls_back() {
    let mut env = fresh();
    assert_eq!(run(&mut env, "(skk-current-date)"), Ok(knil()));
    assert_eq!(
        run(&mut env, "(skk-current-date (lambda (d f g a) (list f g a)) 1 2)"),
        Ok(klist(vec![kint(1), knil(), kint(2)]))
    );
    assert_eq!(
        run(&mut env, "(length-of (skk-current-date (lambda (d f g a) d)))"),
        Err(Error::Unbound("length-of".to_string()))
    );
}

#[test]
fn clock_primitives() {
    let now = run_new("(current-time)").unwrap();
    let text = now.to_text();
    assert!(text.starts_with('(') && text.ends_with(" 0)"), "{}", text);
    match run_new("(current-time-string '(0 0 0 0))") {
        Ok(Expr::Str(s)) => assert!(s.contains("1970") || s.contains("1969"), "{}", s),
        other => panic!("{:?}", other),
    }
    let date = run_new("(skk-current-date-1 '(0 0 0 0))").unwrap();
    let first = run_new("(car (skk-current-date-1 '(0 0 0 0)))").unwrap();
    assert!(first == kstr("1970") || first == kstr("1969"), "{}", date.to_text());
    assert_eq!(
        run_new("(current-time-string '(0 0 -1 0))"),
        Err(Error::InvalidArgument(klist(vec![kint(0), kint(0), kint(-1), kint(0)])))
    );
}

#[test]
fn printing() {
    let e = read("(1 (2 . 3) \"s\" :k nil sym)").unwrap();
    assert_eq!(e.to_text(), "(1 (2 . 3) \"s\" :k nil sym)");
    assert_eq!(Error::ArityShort.to_text(), "too few argument");
    assert_eq!(Error::Unbound("x".to_string()).to_text(), "unbound variable: x");
    assert_eq!(run_new("(lambda (x) x)").unwrap().to_text(), "(lambda (x) (progn x))");
}

#[test]
fn read_uint_stops_at_largest_integer() {
    let digits: Vec<char> = "9223372036854775808".chars().collect();
    assert_eq!(kappa_lisp::read::read_uint(&digits, 0), None);
    let digits: Vec<char> = "9223372036854775807 ".chars().collect();
    assert_eq!(kappa_lisp::read::read_uint(&digits, 0), Some((i64::MAX, 19)));
}

#[test]
fn fresh_environment_binds_nothing_else() {
    assert_eq!(
        run_new("undefined-name"),
        Err(Error::Unbound("undefined-name".to_string()))
    );
    assert_eq!(
        run_new("(undefined-fn)"),
        Err(Error::Unbound("undefined-fn".to_string()))
    );
}

#[test]
fn rebinding_replaces_value() {
    let mut env = fresh();
    for i in 0..50 {
        run(&mut env, &format!("(set 'x {})", i)).unwrap();
    }
    assert_eq!(run(&mut env, "x"), Ok(kint(49)));
}

#[test]
fn date_primitives_succeed_on_valid_time() {
    assert!(matches!(run_new("(current-time-string '(1 2 3 0))"), Ok(Expr::Str(_))));
    assert!(run_new("(skk-current-date-1 '(1 2 3 0))").is_ok());
}
