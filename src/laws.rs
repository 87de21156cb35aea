use vstd::prelude::*;
use crate::env::{EnvModel, scope_find};
use std::rc::Rc;
use crate::args::match_args;
use crate::expr::Type;
use crate::eval::{
    EVAL_DEPTH, fset_name, if_full_outcome, if_name, set_name,
    apply_outcome, args_outcome, bind_plan, call_outcome, eval_outcome, feval_outcome,
    form_outcome, function_name, is_special_name, lambda_name, literal, macro_outcome,
    native_outcome, optional_name, progn_name, progn_outcome, registered_all, rest_name,
    sym_name, sym_outcome,
};
use crate::expr::{Error, Expr, Native, Proc, Result};
use crate::expr::{car_of, cdr_of};
use crate::util::{is_sym_named, list_of, proc_is_macro, witnessed};

verus! {

/// A lambda with two required parameters (two symbols other than
/// `&optional` and `&rest`) fails on one argument with the missing-parameter
/// error naming the second parameter, and on three arguments with
/// `ArityExceed`; `funcall` returns exactly these errors.
pub proof fn lemma_two_required_arity(a: Expr, b: Expr, x: Expr, y: Expr, z: Expr)
    requires
        a is Sym,
        b is Sym,
        !is_sym_named(a, optional_name()) && !is_sym_named(a, rest_name()),
        !is_sym_named(b, optional_name()) && !is_sym_named(b, rest_name()),
    ensures
        bind_plan(list_of(seq![a, b]), list_of(seq![x]), list_of(seq![x]), false) == Err::<
            Seq<(Seq<char>, Expr)>,
            Error,
        >(Error::Form(b)),
        bind_plan(
            list_of(seq![a, b]),
            list_of(seq![x, y, z]),
            list_of(seq![x, y, z]),
            false,
        ) == Err::<Seq<(Seq<char>, Expr)>, Error>(Error::ArityExceed),
{
    let params = list_of(seq![a, b]);
    assert(seq![a, b].drop_first() =~= seq![b]);
    assert(seq![b].drop_first() =~= Seq::<Expr>::empty());
    assert(seq![x].drop_first() =~= Seq::<Expr>::empty());
    assert(seq![x, y, z].drop_first() =~= seq![y, z]);
    assert(seq![y, z].drop_first() =~= seq![z]);
    assert(seq![z].drop_first() =~= Seq::<Expr>::empty());
    reveal_with_fuel(list_of, 4);
    reveal_with_fuel(bind_plan, 4);
}

/// Parameters after `&optional` bind nil when their argument is missing,
/// and `&rest` binds the list of the remaining arguments: for symbols `x`,
/// `y`, `z` (none of them `&optional` or `&rest`), `(x y &optional z)` on
/// `(a b)` binds `x` to `a`, `y` to `b` and `z` to nil, on `(a b c)` binds
/// `z` to `c`; `(x &rest y)` on `(a . more)` binds `y` to `more`.
pub proof fn lemma_optional_and_rest_binding(
    x: Expr,
    y: Expr,
    z: Expr,
    opt: Expr,
    rest: Expr,
    a: Expr,
    b: Expr,
    c: Expr,
    more: Expr,
)
    requires
        x is Sym && y is Sym && z is Sym,
        !is_sym_named(x, optional_name()) && !is_sym_named(x, rest_name()),
        !is_sym_named(y, optional_name()) && !is_sym_named(y, rest_name()),
        !is_sym_named(z, optional_name()) && !is_sym_named(z, rest_name()),
        is_sym_named(opt, optional_name()),
        is_sym_named(rest, rest_name()),
        more is Nil || more is Cons,
    ensures
        bind_plan(list_of(seq![x, y, opt, z]), list_of(seq![a, b]), list_of(seq![a, b]), false)
            == Ok::<Seq<(Seq<char>, Expr)>, Error>(
            seq![(sym_name(x), a), (sym_name(y), b), (sym_name(z), Expr::Nil)],
        ),
        bind_plan(
            list_of(seq![x, y, opt, z]),
            list_of(seq![a, b, c]),
            list_of(seq![a, b, c]),
            false,
        ) == Ok::<Seq<(Seq<char>, Expr)>, Error>(
            seq![(sym_name(x), a), (sym_name(y), b), (sym_name(z), c)],
        ),
        ({
            let args = Expr::Cons(std::rc::Rc::new(a), std::rc::Rc::new(more));
            bind_plan(list_of(seq![x, rest, y]), args, args, false) == Ok::<
                Seq<(Seq<char>, Expr)>,
                Error,
            >(seq![(sym_name(x), a), (sym_name(y), more)])
        }),
{
    assert(optional_name() != rest_name());
    assert(seq![x, y, opt, z].drop_first() =~= seq![y, opt, z]);
    assert(seq![y, opt, z].drop_first() =~= seq![opt, z]);
    assert(seq![opt, z].drop_first() =~= seq![z]);
    assert(seq![z].drop_first() =~= Seq::<Expr>::empty());
    assert(seq![a, b].drop_first() =~= seq![b]);
    assert(seq![b].drop_first() =~= Seq::<Expr>::empty());
    assert(seq![a, b, c].drop_first() =~= seq![b, c]);
    assert(seq![b, c].drop_first() =~= seq![c]);
    assert(seq![c].drop_first() =~= Seq::<Expr>::empty());
    assert(seq![x, rest, y].drop_first() =~= seq![rest, y]);
    assert(seq![rest, y].drop_first() =~= seq![y]);
    assert(seq![y].drop_first() =~= Seq::<Expr>::empty());
    reveal_with_fuel(list_of, 5);
    reveal_with_fuel(bind_plan, 5);
    assert(seq![(sym_name(x), a)] + (seq![(sym_name(y), b)] + seq![(sym_name(z), Expr::Nil)])
        =~= seq![(sym_name(x), a), (sym_name(y), b), (sym_name(z), Expr::Nil)]);
    assert(seq![(sym_name(z), Expr::Nil)] + Seq::<(Seq<char>, Expr)>::empty() =~= seq![
        (sym_name(z), Expr::Nil),
    ]);
    assert(seq![(sym_name(x), a)] + (seq![(sym_name(y), b)] + seq![(sym_name(z), c)]) =~= seq![
        (sym_name(x), a),
        (sym_name(y), b),
        (sym_name(z), c),
    ]);
    assert(seq![(sym_name(z), c)] + Seq::<(Seq<char>, Expr)>::empty() =~= seq![
        (sym_name(z), c),
    ]);
    assert(seq![(sym_name(x), a)] + seq![(sym_name(y), more)] =~= seq![
        (sym_name(x), a),
        (sym_name(y), more),
    ]);
}

/// The last binding made of a name is the one found.
proof fn lemma_last_binding_found(m: EnvModel, bs: Seq<(Seq<char>, Expr)>)
    requires
        m.wf(),
        bs.len() > 0,
    ensures
        registered_all(m, bs).find(bs.last().0) == Some(bs.last().1),
    decreases bs.len(),
{
    let m1 = m.registered(bs[0].0, bs[0].1);
    assert(m1.wf());
    if bs.len() == 1 {
        assert(bs.drop_first() =~= Seq::<(Seq<char>, Expr)>::empty());
        assert(m1.vars.last() == m.vars.last().insert(bs[0].0, bs[0].1));
    } else {
        assert(bs.drop_first().last() == bs.last());
        lemma_last_binding_found(m1, bs.drop_first());
    }
}

/// A proper list of literals: neither symbols nor lists.
pub open spec fn all_literal(l: Expr) -> bool
    decreases l,
{
    match l {
        Expr::Nil => true,
        Expr::Cons(a, d) => literal(*a) && all_literal(*d),
        _ => false,
    }
}

proof fn lemma_literal_args(m: EnvModel, l: Expr, w: Expr, ar: Result<Expr>, m4: EnvModel, d: nat)
    requires
        all_literal(l),
        args_outcome(m, l, w, ar, m4, d),
    ensures
        ar == Ok::<Expr, Error>(l),
        m4 == m,
    decreases l,
{
    if l is Cons {
        let (v, m1) = choose|v: Result<Expr>, m1: EnvModel|
            #[trigger] witnessed((v, m1)) && eval_outcome(m, car_of(l), v, m1, d) && match v {
                Err(e) => ar == Err::<Expr, Error>(e) && m4 == m1,
                Ok(x) => exists|rt: Result<Expr>|
                    #[trigger] witnessed(rt) && args_outcome(m1, cdr_of(l), w, rt, m4, d) && match rt {
                        Ok(tl) => ar == Ok::<Expr, Error>(Expr::Cons(Rc::new(x), Rc::new(tl))),
                        Err(e) => ar == Err::<Expr, Error>(e),
                    },
            };
        assert(v == Ok::<Expr, Error>(car_of(l)) && m1 == m);
        let rt = choose|rt: Result<Expr>|
            #[trigger] witnessed(rt) && args_outcome(m1, cdr_of(l), w, rt, m4, d) && match rt {
                Ok(tl) => ar == Ok::<Expr, Error>(Expr::Cons(Rc::new(car_of(l)), Rc::new(tl))),
                Err(e) => ar == Err::<Expr, Error>(e),
            };
        lemma_literal_args(m, cdr_of(l), w, rt, m4, d);
    }
}

/// Applying a symbol that names a primitive (and no special form) to
/// literal arguments gives that native's outcome on exactly those
/// arguments, and changes nothing.
pub proof fn lemma_literal_application(m: EnvModel, e: Expr, n: Native, r: Result<Expr>, m2: EnvModel, d: nat)
    requires
        m.wf(),
        e is Cons,
        car_of(e) is Sym,
        !is_special_name(sym_name(car_of(e))),
        m.ffind(sym_name(car_of(e))) is Some,
        m.ffind(sym_name(car_of(e)))->Some_0 is Prim,
        m.ffind(sym_name(car_of(e)))->Some_0->Prim_1 == n,
        all_literal(cdr_of(e)),
        d >= 3,
        eval_outcome(m, e, r, m2, d),
    ensures
        m2 == m,
        native_outcome(m, n, cdr_of(e), r, (d - 2) as nat),
{
    let dd = (d - 1) as nat;
    let head = car_of(e);
    let rest = cdr_of(e);
    let p = m.ffind(sym_name(head))->Some_0;
    assert(form_outcome(m, head, rest, r, m2, dd));
    assert(apply_outcome(m, head, rest, r, m2, dd));
    let (rp, m1) = choose|rp: Result<Proc>, m1: EnvModel|
        #[trigger] witnessed((rp, m1)) && feval_outcome(m, head, rp, m1, dd) && match rp {
            Err(er) => r == Err::<Expr, Error>(er) && m2 == m1,
            Ok(f) => exists|mr: Result<Option<Proc>>, m3: EnvModel|
                #[trigger] witnessed((mr, m3)) && macro_outcome(m1, f, mr, m3, dd) && match mr {
                    Err(er) => r == Err::<Expr, Error>(er) && m2 == m3,
                    Ok(Some(t)) => exists|br: Result<Expr>|
                        #[trigger] witnessed(br) && call_outcome(m3, t, rest, br, dd) && match br {
                            Err(er) => r == Err::<Expr, Error>(er) && m2 == m3,
                            Ok(b) => eval_outcome(m3, b, r, m2, dd),
                        },
                    Ok(None) => exists|ar: Result<Expr>, m4: EnvModel|
                        #[trigger] witnessed((ar, m4)) && args_outcome(m3, rest, rest, ar, m4, dd)
                            && match ar {
                            Err(er) => r == Err::<Expr, Error>(er) && m2 == m4,
                            Ok(a) => call_outcome(m4, f, a, r, dd) && m2 == m4,
                        },
                },
        };
    assert(rp == Ok::<Proc, Error>(p) && m1 == m);
    assert(!proc_is_macro(p));
    let (mr, m3) = choose|mr: Result<Option<Proc>>, m3: EnvModel|
        #[trigger] witnessed((mr, m3)) && macro_outcome(m1, p, mr, m3, dd) && match mr {
            Err(er) => r == Err::<Expr, Error>(er) && m2 == m3,
            Ok(Some(t)) => exists|br: Result<Expr>|
                #[trigger] witnessed(br) && call_outcome(m3, t, rest, br, dd) && match br {
                    Err(er) => r == Err::<Expr, Error>(er) && m2 == m3,
                    Ok(b) => eval_outcome(m3, b, r, m2, dd),
                },
            Ok(None) => exists|ar: Result<Expr>, m4: EnvModel|
                #[trigger] witnessed((ar, m4)) && args_outcome(m3, rest, rest, ar, m4, dd) && match ar {
                    Err(er) => r == Err::<Expr, Error>(er) && m2 == m4,
                    Ok(a) => call_outcome(m4, p, a, r, dd) && m2 == m4,
                },
        };
    assert(mr == Ok::<Option<Proc>, Error>(None) && m3 == m);
    let (ar, m4) = choose|ar: Result<Expr>, m4: EnvModel|
        #[trigger] witnessed((ar, m4)) && args_outcome(m3, rest, rest, ar, m4, dd) && match ar {
            Err(er) => r == Err::<Expr, Error>(er) && m2 == m4,
            Ok(a) => call_outcome(m4, p, a, r, dd) && m2 == m4,
        };
    lemma_literal_args(m3, rest, rest, ar, m4, dd);
    assert(call_outcome(m, p, rest, r, dd));
}

/// The arithmetic folds through evaluation: with `+` and `*` bound to
/// their primitives (as `init` binds them), `(+)` is 0, `(*)` is 1 and
/// `(+ 1 2 3)` is 6.
pub proof fn lemma_arithmetic_examples(m: EnvModel, plus: Expr, times: Expr, r: Result<Expr>, m2: EnvModel, d: nat)
    requires
        m.wf(),
        is_sym_named(plus, seq!['+']),
        is_sym_named(times, seq!['*']),
        crate::util::native_bound(m, seq!['+'], Native::Add),
        crate::util::native_bound(m, seq!['*'], Native::Mul),
        d >= 3,
    ensures
        eval_outcome(m, list_of(seq![plus]), r, m2, d) ==> r == Ok::<Expr, Error>(Expr::Int(0)),
        eval_outcome(m, list_of(seq![times]), r, m2, d) ==> r == Ok::<Expr, Error>(Expr::Int(1)),
        eval_outcome(
            m,
            list_of(seq![plus, Expr::Int(1), Expr::Int(2), Expr::Int(3)]),
            r,
            m2,
            d,
        ) ==> r == Ok::<Expr, Error>(Expr::Int(6)),
{
    reveal_with_fuel(list_of, 5);
    assert(seq![plus].drop_first() =~= Seq::<Expr>::empty());
    assert(seq![times].drop_first() =~= Seq::<Expr>::empty());
    let s4 = seq![plus, Expr::Int(1), Expr::Int(2), Expr::Int(3)];
    assert(s4.drop_first() =~= seq![Expr::Int(1), Expr::Int(2), Expr::Int(3)]);
    assert(s4.drop_first().drop_first() =~= seq![Expr::Int(2), Expr::Int(3)]);
    assert(s4.drop_first().drop_first().drop_first() =~= seq![Expr::Int(3)]);
    assert(seq![Expr::Int(3)].drop_first() =~= Seq::<Expr>::empty());
    assert(!is_special_name(seq!['+']));
    assert(!is_special_name(seq!['*']));
    reveal_with_fuel(all_literal, 4);
    if eval_outcome(m, list_of(seq![plus]), r, m2, d) {
        lemma_literal_application(m, list_of(seq![plus]), Native::Add, r, m2, d);
    }
    if eval_outcome(m, list_of(seq![times]), r, m2, d) {
        lemma_literal_application(m, list_of(seq![times]), Native::Mul, r, m2, d);
    }
    if eval_outcome(m, list_of(s4), r, m2, d) {
        lemma_literal_application(m, list_of(s4), Native::Add, r, m2, d);
        reveal_with_fuel(crate::base::arith_fold, 4);
    }
}

/// Evaluating `(if c then [else])`, as `eval` does with its whole budget:
/// the condition is evaluated first; a value other than nil gives what
/// `then` evaluates to, nil gives what `else` evaluates to, or nil when
/// there is no `else`; the branch not taken is not evaluated; an error of
/// the condition is the result.
pub proof fn lemma_if_semantics(m: EnvModel, e: Expr, r: Result<Expr>, m2: EnvModel)
    requires
        e is Cons,
        is_sym_named(car_of(e), if_name()),
        eval_outcome(m, e, r, m2, EVAL_DEPTH as nat),
    ensures
        if_full_outcome(m, cdr_of(e), r, m2, (EVAL_DEPTH - 1) as nat),
        match match_args(seq![Type::Any, Type::Any, Type::Any], 2, cdr_of(e), 0) {
            Err(er) => r == Err::<Expr, Error>(er) && m2 == m,
            Ok(v) => exists|c: Result<Expr>, m1: EnvModel|
                #[trigger] witnessed((c, m1)) && eval_outcome(m, v[0]->Some_0, c, m1, (EVAL_DEPTH - 1) as nat)
                    && match c {
                    Err(er) => r == Err::<Expr, Error>(er) && m2 == m1,
                    Ok(cv) => if cv is Nil {
                        if v[2] is Some {
                            eval_outcome(m1, v[2]->Some_0, r, m2, (EVAL_DEPTH - 1) as nat)
                        } else {
                            r == Ok::<Expr, Error>(Expr::Nil) && m2 == m1
                        }
                    } else {
                        eval_outcome(m1, v[1]->Some_0, r, m2, (EVAL_DEPTH - 1) as nat)
                    },
                },
        },
{
    assert(if_name() != seq!['q', 'u', 'o', 't', 'e']);
    assert(if_name() != function_name());
    assert(if_name() != lambda_name());
    assert(if_name() != progn_name());
    assert(if_name() != fset_name());
    assert(if_name() != set_name());
    assert(form_outcome(m, car_of(e), cdr_of(e), r, m2, (EVAL_DEPTH - 1) as nat));
}

/// A body `(progn s)` for a symbol `s` evaluates to what `s` does, and
/// changes nothing: this is how a lambda's body gives its result (see
/// `funcall`, which evaluates the body in a new frame of bindings).
pub proof fn lemma_progn_symbol(m: EnvModel, p: Expr, z: Expr, r: Result<Expr>, mb: EnvModel, d: nat)
    requires
        is_sym_named(p, progn_name()),
        z is Sym,
        d > 0,
        eval_outcome(m, list_of(seq![p, z]), r, mb, d),
    ensures
        sym_outcome(m, z, r),
        mb == m,
{
    let e = list_of(seq![p, z]);
    assert(seq![p, z].drop_first() =~= seq![z]);
    assert(seq![z].drop_first() =~= Seq::<Expr>::empty());
    reveal_with_fuel(list_of, 3);
    assert(car_of(e) == p);
    let rest = cdr_of(e);
    assert(rest == list_of(seq![z]));
    assert(car_of(rest) == z && cdr_of(rest) is Nil);
    assert(progn_name() != seq!['q', 'u', 'o', 't', 'e']);
    assert(progn_name() != function_name());
    assert(progn_name() != lambda_name());
    assert(form_outcome(m, p, rest, r, mb, (d - 1) as nat));
    assert(progn_outcome(m, rest, Expr::Nil, rest, r, mb, (d - 1) as nat));
    let (v, m1) = choose|v: Result<Expr>, m1: EnvModel|
        #[trigger] witnessed((v, m1)) && eval_outcome(m, car_of(rest), v, m1, (d - 1) as nat)
            && match v {
            Err(e) => r == Err::<Expr, Error>(e) && mb == m1,
            Ok(x) => progn_outcome(m1, cdr_of(rest), x, rest, r, mb, (d - 1) as nat),
        };
    assert(m1 == m && sym_outcome(m, z, v));
}

/// What the lambdas of the binding law return when applied (by `funcall`
/// and `lemma_progn_symbol`, the value of the body's symbol once the
/// parameters are bound in a new frame): `(lambda (x y &optional z) z)` gives
/// nil on `(a b)` and `c` on `(a b c)`, and `(lambda (x &rest y) y)` gives
/// `more` on `(a . more)`, in any environment.
pub proof fn lemma_lambda_results(
    m: EnvModel,
    x: Expr,
    y: Expr,
    z: Expr,
    opt: Expr,
    rest: Expr,
    a: Expr,
    b: Expr,
    c: Expr,
    more: Expr,
    r: Result<Expr>,
)
    requires
        m.wf(),
        x is Sym && y is Sym && z is Sym,
        !is_sym_named(x, optional_name()) && !is_sym_named(x, rest_name()),
        !is_sym_named(y, optional_name()) && !is_sym_named(y, rest_name()),
        !is_sym_named(z, optional_name()) && !is_sym_named(z, rest_name()),
        is_sym_named(opt, optional_name()),
        is_sym_named(rest, rest_name()),
        more is Nil || more is Cons,
    ensures
        sym_outcome(
            registered_all(
                m.pushed(),
                bind_plan(
                    list_of(seq![x, y, opt, z]),
                    list_of(seq![a, b]),
                    list_of(seq![a, b]),
                    false,
                )->Ok_0,
            ),
            z,
            r,
        ) ==> r == Ok::<Expr, Error>(Expr::Nil),
        sym_outcome(
            registered_all(
                m.pushed(),
                bind_plan(
                    list_of(seq![x, y, opt, z]),
                    list_of(seq![a, b, c]),
                    list_of(seq![a, b, c]),
                    false,
                )->Ok_0,
            ),
            z,
            r,
        ) ==> r == Ok::<Expr, Error>(c),
        ({
            let args = Expr::Cons(std::rc::Rc::new(a), std::rc::Rc::new(more));
            sym_outcome(
                registered_all(
                    m.pushed(),
                    bind_plan(list_of(seq![x, rest, y]), args, args, false)->Ok_0,
                ),
                y,
                r,
            ) ==> r == Ok::<Expr, Error>(more)
        }),
{
    lemma_optional_and_rest_binding(x, y, z, opt, rest, a, b, c, more);
    let p = m.pushed();
    assert(p.wf());
    lemma_last_binding_found(p, seq![(sym_name(x), a), (sym_name(y), b), (sym_name(z), Expr::Nil)]);
    lemma_last_binding_found(p, seq![(sym_name(x), a), (sym_name(y), b), (sym_name(z), c)]);
    lemma_last_binding_found(p, seq![(sym_name(x), a), (sym_name(y), more)]);
}

/// A binding made in a frame that is pushed and then popped is gone: the
/// environment is as before, in both namespaces.
pub proof fn lemma_local_binding_invisible(m: EnvModel, k: Seq<char>, v: Expr, f: crate::expr::Proc)
    requires
        m.wf(),
    ensures
        m.pushed().registered(k, v).popped() == m,
        m.pushed().fregistered(k, f).popped() == m,
{
    assert(m.pushed().registered(k, v).vars.drop_last() =~= m.vars);
    assert(m.pushed().registered(k, v).funs.drop_last() =~= m.funs);
    assert(m.pushed().fregistered(k, f).vars.drop_last() =~= m.vars);
    assert(m.pushed().fregistered(k, f).funs.drop_last() =~= m.funs);
}

/// At top level, where no local frame is open, a binding goes to the global
/// frame: it is found at once, and from inside any local frame opened later
/// that does not bind the same name.
pub proof fn lemma_top_level_binding_persists(m: EnvModel, k: Seq<char>, v: Expr, f: crate::expr::Proc)
    requires
        m.wf(),
        m.depth() == 0,
    ensures
        m.registered(k, v).find(k) == Some(v),
        m.registered(k, v).pushed().find(k) == Some(v),
        m.fregistered(k, f).ffind(k) == Some(f),
        m.fregistered(k, f).pushed().ffind(k) == Some(f),
{
    let m1 = m.registered(k, v);
    assert(m1.pushed().vars.drop_last() =~= m1.vars);
    assert(m1.vars.drop_last().len() == 0);
    let m2 = m.fregistered(k, f);
    assert(m2.pushed().funs.drop_last() =~= m2.funs);
    assert(m2.funs.drop_last().len() == 0);
    reveal_with_fuel(scope_find, 3);
}

} // verus!
