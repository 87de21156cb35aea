use kappa_lisp::util::kint;
use kappa_lisp::{init, run, Env};

#[test]
fn test_skk_calc() {
    let mut env = Env::new();
    init(&mut env).unwrap();
    run(&mut env, "(set 'skk-num-list '(3 2))").unwrap();
    assert_eq!(run(&mut env, "(skk-calc '+)"), Ok(kint(5)));
    assert_eq!(run(&mut env, "(skk-calc '-)"), Ok(kint(1)));
    assert_eq!(run(&mut env, "(skk-calc '*)"), Ok(kint(6)));
    assert_eq!(run(&mut env, "(skk-calc '/)"), Ok(kint(1)));
}
