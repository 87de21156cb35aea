use vstd::prelude::*;
use std::rc::Rc;
use crate::args::{arg, get_args, match_args, types1, types2, types3, types4};
use crate::base;
use crate::env::{Env, EnvModel};
use crate::expr::{Error, Expr, Native, Proc, Result, Type, car_of, cdr_of, copy_expr, copy_proc};
use crate::skk;
use crate::datetime;
use crate::util::{is_sym_named, is_sym_t, ksym, lemma_witnessed, str_is, witnessed};

verus! {

/// How deeply evaluation may nest before it stops with `TooDeep`. Each
/// evaluation, special form and call takes one level, so a recursion of
/// depth n uses a few times n levels. The budget is large: a program that
/// recurses that deep may run out of the host's stack first.
pub const EVAL_DEPTH: usize = 100_000;

/// Only the innermost frame of each namespace may differ between `a` and `b`.
pub open spec fn only_top_changed(a: EnvModel, b: EnvModel) -> bool {
    &&& b.wf()
    &&& b.vars.len() == a.vars.len()
    &&& b.funs.len() == a.funs.len()
    &&& b.vars.drop_last() == a.vars.drop_last()
    &&& b.funs.drop_last() == a.funs.drop_last()
}

pub open spec fn optional_name() -> Seq<char> {
    seq!['&', 'o', 'p', 't', 'i', 'o', 'n', 'a', 'l']
}

pub open spec fn rest_name() -> Seq<char> {
    seq!['&', 'r', 'e', 's', 't']
}

pub open spec fn sym_name(e: Expr) -> Seq<char> {
    (*e->Sym_0)@
}

/// The bindings that a parameter list makes for an argument list, in order,
/// or the error that binding meets. `opt` is set once `&optional` was seen.
/// A plain name takes one argument, or nil when optional; `&rest name` takes
/// the remaining list; arguments left over are `ArityExceed`, a missing
/// required argument is `Form` naming the parameter.
pub open spec fn bind_plan(params: Expr, args: Expr, whole: Expr, opt: bool) -> Result<
    Seq<(Seq<char>, Expr)>,
>
    decreases params,
{
    match params {
        Expr::Nil => if args is Nil {
            Ok(Seq::empty())
        } else {
            Err(Error::ArityExceed)
        },
        Expr::Cons(p, prest) => {
            if is_sym_named(*p, optional_name()) {
                bind_plan(*prest, args, whole, true)
            } else if is_sym_named(*p, rest_name()) {
                match *prest {
                    Expr::Cons(name, tail) => if !(*tail is Nil) {
                        Err(Error::Form(*tail))
                    } else if *name is Sym {
                        Ok(seq![(sym_name(*name), args)])
                    } else {
                        Err(Error::Form(*name))
                    },
                    _ => Err(Error::Form(*prest)),
                }
            } else {
                match args {
                    Expr::Cons(a, arest) => if *p is Sym {
                        match bind_plan(*prest, *arest, whole, opt) {
                            Ok(bs) => Ok(seq![(sym_name(*p), *a)] + bs),
                            Err(e) => Err(e),
                        }
                    } else {
                        Err(Error::Form(*p))
                    },
                    Expr::Nil => if !opt {
                        Err(Error::Form(*p))
                    } else if *p is Sym {
                        match bind_plan(*prest, Expr::Nil, whole, opt) {
                            Ok(bs) => Ok(seq![(sym_name(*p), Expr::Nil)] + bs),
                            Err(e) => Err(e),
                        }
                    } else {
                        Err(Error::Form(*p))
                    },
                    _ => Err(Error::Form(whole)),
                }
            }
        },
        _ => Err(Error::Form(whole)),
    }
}

/// The environment after binding each of `bs` in turn in its innermost frame.
pub open spec fn registered_all(m: EnvModel, bs: Seq<(Seq<char>, Expr)>) -> EnvModel
    decreases bs.len(),
{
    if bs.len() == 0 {
        m
    } else {
        registered_all(m.registered(bs[0].0, bs[0].1), bs.drop_first())
    }
}

/// The number of pairs along the spine of a list.
pub open spec fn spine_len(e: Expr) -> nat
    decreases e,
{
    match e {
        Expr::Cons(_, d) => 1 + spine_len(*d),
        _ => 0,
    }
}

/// An expression that evaluates to itself: neither a symbol nor a list.
pub open spec fn literal(e: Expr) -> bool {
    !(e is Sym || e is Cons)
}

pub open spec fn if_name() -> Seq<char> {
    seq!['i', 'f']
}

pub open spec fn function_name() -> Seq<char> {
    seq!['f', 'u', 'n', 'c', 't', 'i', 'o', 'n']
}

/// What the native `n` returns on `args` in `m`, `depth` levels from the
/// budget's end: each native's own contract, and for `funcall` the outcome
/// of the call it makes.
pub open spec fn native_outcome(m: EnvModel, n: Native, args: Expr, r: Result<Expr>, depth: nat) -> bool
    decreases depth, 3int, 0nat,
{
    match n {
        Native::Add | Native::Sub | Native::Mul | Native::Div => r == base::arith_result(n, args),
        Native::Gt | Native::Ge | Native::Lt | Native::Le | Native::NumEq | Native::NumNe =>
            base::cmp_result_ok(n, args, r),
        Native::Cons => match match_args(seq![Type::Any, Type::Any], 2, args, 0) {
            Ok(v) => r == Ok::<Expr, Error>(
                Expr::Cons(Rc::new(v[0]->Some_0), Rc::new(v[1]->Some_0)),
            ),
            Err(e) => r == Err::<Expr, Error>(e),
        },
        Native::Car => match match_args(seq![Type::Cons], 1, args, 0) {
            Ok(v) => r == Ok::<Expr, Error>(*v[0]->Some_0->Cons_0),
            Err(e) => r == Err::<Expr, Error>(e),
        },
        Native::Cdr => match match_args(seq![Type::Cons], 1, args, 0) {
            Ok(v) => r == Ok::<Expr, Error>(*v[0]->Some_0->Cons_1),
            Err(e) => r == Err::<Expr, Error>(e),
        },
        Native::Concat => match base::concat_fold(Seq::empty(), args, args) {
            Ok(t) => r is Ok && r->Ok_0 is Str && (*r->Ok_0->Str_0)@ == t,
            Err(e) => r == Err::<Expr, Error>(e),
        },
        Native::EqualP => base::equal_p_outcome(args, r),
        Native::StringToNumber => base::string_to_number_outcome(args, r),
        Native::Substring => base::substring_outcome(args, r),
        Native::CurrentTime => datetime::current_time_outcome(args, r),
        Native::CurrentTimeString => datetime::current_time_string_outcome(args, r),
        Native::SkkCalc => skk::skk_calc_outcome(m, args, r),
        Native::SkkCurrentDate1 => skk::current_date_1_outcome(args, r),
        Native::SkkCurrentDate => skk_current_date_outcome(m, args, r, depth),
        Native::SkkDefaultCurrentDate => r == Ok::<Expr, Error>(Expr::Nil),
        Native::Funcall => funcall_native_outcome(m, args, r, depth),
    }
}

/// What `(funcall f arg...)` returns: for a procedure `f`, the outcome of
/// calling it on the remaining arguments; otherwise the error.
pub open spec fn funcall_native_outcome(m: EnvModel, args: Expr, r: Result<Expr>, depth: nat) -> bool
    decreases depth, 2int, 0nat,
{
    &&& !(args is Cons) ==> r == Err::<Expr, Error>(Error::Form(args))
    &&& args is Cons && !(*args->Cons_0 is Proc) ==> r == Err::<Expr, Error>(
        Error::NotFunction(*args->Cons_0),
    )
    &&& args is Cons && *args->Cons_0 is Proc ==> call_outcome(
        m,
        (*args->Cons_0)->Proc_0,
        *args->Cons_1,
        r,
        depth,
    )
}

/// What `skk-current-date` returns: nil without a function; with one, the
/// clock's error, or the outcome of calling the function on the current
/// date list, the format, nil and the and-time flag.
pub open spec fn skk_current_date_outcome(m: EnvModel, args: Expr, r: Result<Expr>, depth: nat) -> bool
    decreases depth, 2int, 0nat,
{
    match match_args(seq![Type::Proc, Type::Any, Type::Any], 0, args, 0) {
        Err(e) => r == Err::<Expr, Error>(e),
        Ok(v) => {
            &&& v[0] is None ==> r == Ok::<Expr, Error>(Expr::Nil)
            &&& v[0] is Some ==> (r is Err && r->Err_0 is InvalidArgument) || exists|info: Expr|
                #[trigger] witnessed(info) && (exists|p: crate::datetime::DateParts|
                    info@ == skk::date_sexp(p)) && call_outcome(
                    m,
                    v[0]->Some_0->Proc_0,
                    crate::util::list_of(
                        seq![
                            info,
                            if v[1] is Some { v[1]->Some_0 } else { Expr::Nil },
                            Expr::Nil,
                            if v[2] is Some { v[2]->Some_0 } else { Expr::Nil },
                        ],
                    ),
                    r,
                    depth,
                )
        },
    }
}

/// What applying `f` to the evaluated `args` gives in `m`, with `depth`
/// levels of budget: a wrapped expression is not a function; a primitive
/// gives its native's outcome; a lambda fails as its parameter binding
/// fails, and otherwise gives what its body evaluates to in a new frame that
/// holds the bindings. The environment is left as it was.
pub open spec fn call_outcome(m: EnvModel, f: Proc, args: Expr, r: Result<Expr>, depth: nat) -> bool
    decreases depth, 1int, 0nat,
{
    &&& f is Expr ==> r == Err::<Expr, Error>(Error::NotFunction(Expr::Proc(f)))
    &&& depth == 0 && !(f is Expr) ==> r == Err::<Expr, Error>(Error::TooDeep)
    &&& depth > 0 && f is Lambda ==> match bind_plan(*f->Lambda_0, args, args, false) {
        Err(e) => r == Err::<Expr, Error>(e),
        Ok(bs) => exists|mb: EnvModel|
            #[trigger] witnessed(mb) && eval_outcome(registered_all(m.pushed(), bs), *f->Lambda_1, r, mb, (depth - 1) as nat),
    }
    &&& depth > 0 && f is Prim ==> native_outcome(m, f->Prim_1, args, r, (depth - 1) as nat)
}

/// An expression result made of a procedure result.
pub open spec fn proc_result(rp: Result<Proc>) -> Result<Expr> {
    match rp {
        Ok(p) => Ok(Expr::Proc(p)),
        Err(e) => Err(e),
    }
}

/// What evaluating `e` in `m` gives, and the environment after it, with
/// `depth` levels of budget: an atom other than a symbol is itself, a
/// symbol its value, and a list a special form or an application.
pub open spec fn eval_outcome(m: EnvModel, e: Expr, r: Result<Expr>, m2: EnvModel, depth: nat) -> bool
    decreases depth, 0int, 0nat,
{
    if e is Sym {
        m2 == m && sym_outcome(m, e, r)
    } else if e is Cons {
        if depth == 0 {
            r == Err::<Expr, Error>(Error::TooDeep) && m2 == m
        } else {
            form_outcome(m, car_of(e), cdr_of(e), r, m2, (depth - 1) as nat)
        }
    } else {
        r == Ok::<Expr, Error>(e) && m2 == m
    }
}

/// Resolving the head of an application (see `feval`).
pub open spec fn feval_outcome(m: EnvModel, x: Expr, rp: Result<Proc>, m2: EnvModel, depth: nat) -> bool
    decreases depth, 1int, 0nat,
{
    if x is Sym {
        m2 == m && match m.ffind(sym_name(x)) {
            Some(p) => rp == Ok::<Proc, Error>(p),
            None => rp == Err::<Proc, Error>(Error::Unbound(*x->Sym_0)),
        }
    } else if x is Proc {
        m2 == m && rp == Ok::<Proc, Error>(x->Proc_0)
    } else if x is Cons && car_of(x) is Sym {
        if sym_name(car_of(x)) == lambda_name() {
            m2 == m && if cdr_of(x) is Cons {
                rp is Ok && lambda_of(rp->Ok_0, cdr_of(x))
            } else {
                rp == Err::<Proc, Error>(Error::Form(cdr_of(x)))
            }
        } else if depth == 0 {
            rp == Err::<Proc, Error>(Error::TooDeep) && m2 == m
        } else {
            exists|v: Result<Expr>|
                #[trigger] witnessed(v) && eval_outcome(m, x, v, m2, (depth - 1) as nat) && match v {
                    Ok(val) => rp == Ok::<Proc, Error>(Proc::Expr(Rc::new(val))),
                    Err(e) => rp == Err::<Proc, Error>(e),
                }
        }
    } else {
        rp == Err::<Proc, Error>(Error::NotFunction(x)) && m2 == m
    }
}

/// The transformer of a macro marker: its tail resolved as a head is.
pub open spec fn macro_outcome(m: EnvModel, f: Proc, mr: Result<Option<Proc>>, m2: EnvModel, depth: nat) -> bool
    decreases depth, 2int, 0nat,
{
    if crate::util::proc_is_macro(f) {
        exists|rp: Result<Proc>|
            #[trigger] witnessed(rp) && feval_outcome(m, cdr_of(*f->Expr_0), rp, m2, depth) && match rp {
                Ok(t) => mr == Ok::<Option<Proc>, Error>(Some(t)),
                Err(e) => mr == Err::<Option<Proc>, Error>(e),
            }
    } else {
        mr == Ok::<Option<Proc>, Error>(None) && m2 == m
    }
}

/// The forms of `list` evaluated in order; the value of the last one (or
/// `last` when there are none left).
pub open spec fn progn_outcome(m: EnvModel, list: Expr, last: Expr, whole: Expr, r: Result<Expr>, m2: EnvModel, depth: nat) -> bool
    decreases depth, 2int, spine_len(list),
{
    if list is Nil {
        r == Ok::<Expr, Error>(last) && m2 == m
    } else if list is Cons {
        exists|v: Result<Expr>, m1: EnvModel|
            #[trigger] witnessed((v, m1)) && eval_outcome(m, car_of(list), v, m1, depth) && match v {
                Err(e) => r == Err::<Expr, Error>(e) && m2 == m1,
                Ok(x) => progn_outcome(m1, cdr_of(list), x, whole, r, m2, depth),
            }
    } else {
        r == Err::<Expr, Error>(Error::Form(whole)) && m2 == m
    }
}

/// The elements of `list` evaluated left to right into a new list.
pub open spec fn args_outcome(m: EnvModel, list: Expr, whole: Expr, r: Result<Expr>, m2: EnvModel, depth: nat) -> bool
    decreases depth, 2int, spine_len(list),
{
    if list is Nil {
        r == Ok::<Expr, Error>(Expr::Nil) && m2 == m
    } else if list is Cons {
        exists|v: Result<Expr>, m1: EnvModel|
            #[trigger] witnessed((v, m1)) && eval_outcome(m, car_of(list), v, m1, depth) && match v {
                Err(e) => r == Err::<Expr, Error>(e) && m2 == m1,
                Ok(x) => exists|rt: Result<Expr>|
                    #[trigger] witnessed(rt) && args_outcome(m1, cdr_of(list), whole, rt, m2, depth) && match rt {
                        Ok(tl) => r == Ok::<Expr, Error>(Expr::Cons(Rc::new(x), Rc::new(tl))),
                        Err(e) => r == Err::<Expr, Error>(e),
                    },
            }
    } else {
        r == Err::<Expr, Error>(Error::InvalidArgument(whole)) && m2 == m
    }
}

/// `(if c then [else])`: the condition is evaluated; any value but nil
/// chooses `then`, nil chooses `else` or gives nil.
pub open spec fn if_full_outcome(m: EnvModel, args: Expr, r: Result<Expr>, m2: EnvModel, depth: nat) -> bool
    decreases depth, 3int, 0nat,
{
    match match_args(seq![Type::Any, Type::Any, Type::Any], 2, args, 0) {
        Err(e) => r == Err::<Expr, Error>(e) && m2 == m,
        Ok(v) => exists|c: Result<Expr>, m1: EnvModel|
            #[trigger] witnessed((c, m1)) && eval_outcome(m, v[0]->Some_0, c, m1, depth) && match c {
                Err(e) => r == Err::<Expr, Error>(e) && m2 == m1,
                Ok(cv) => if cv is Nil {
                    if v[2] is Some {
                        eval_outcome(m1, v[2]->Some_0, r, m2, depth)
                    } else {
                        r == Ok::<Expr, Error>(Expr::Nil) && m2 == m1
                    }
                } else {
                    eval_outcome(m1, v[1]->Some_0, r, m2, depth)
                },
            },
    }
}

/// `(set name value)`: both are evaluated, the name must give a symbol, and
/// the value is bound to it in the innermost frame.
pub open spec fn set_outcome(m: EnvModel, args: Expr, r: Result<Expr>, m2: EnvModel, depth: nat) -> bool
    decreases depth, 3int, 0nat,
{
    match match_args(seq![Type::Any, Type::Any], 2, args, 0) {
        Err(e) => r == Err::<Expr, Error>(e) && m2 == m,
        Ok(v) => exists|n: Result<Expr>, m1: EnvModel|
            #[trigger] witnessed((n, m1)) && eval_outcome(m, v[0]->Some_0, n, m1, depth) && match n {
                Err(e) => r == Err::<Expr, Error>(e) && m2 == m1,
                Ok(name) => exists|w: Result<Expr>, m3: EnvModel|
                    #[trigger] witnessed((w, m3)) && eval_outcome(m1, v[1]->Some_0, w, m3, depth) && match w {
                        Err(e) => r == Err::<Expr, Error>(e) && m2 == m3,
                        Ok(val) => if name is Sym {
                            r == Ok::<Expr, Error>(Expr::Nil) && m2 == m3.registered(sym_name(name), val)
                        } else {
                            r == Err::<Expr, Error>(Error::Type(Type::Sym, name)) && m2 == m3
                        },
                    },
            },
    }
}

/// `(fset name function)`: the name is evaluated and must give a symbol,
/// the function is resolved as a head is, and bound to it.
pub open spec fn fset_outcome(m: EnvModel, args: Expr, r: Result<Expr>, m2: EnvModel, depth: nat) -> bool
    decreases depth, 3int, 0nat,
{
    match match_args(seq![Type::Any, Type::Any], 2, args, 0) {
        Err(e) => r == Err::<Expr, Error>(e) && m2 == m,
        Ok(v) => exists|n: Result<Expr>, m1: EnvModel|
            #[trigger] witnessed((n, m1)) && eval_outcome(m, v[0]->Some_0, n, m1, depth) && match n {
                Err(e) => r == Err::<Expr, Error>(e) && m2 == m1,
                Ok(name) => exists|fp: Result<Proc>, m3: EnvModel|
                    #[trigger] witnessed((fp, m3)) && feval_outcome(m1, v[1]->Some_0, fp, m3, depth) && match fp {
                        Err(e) => r == Err::<Expr, Error>(e) && m2 == m3,
                        Ok(p) => if name is Sym {
                            r == Ok::<Expr, Error>(Expr::Nil) && m2 == m3.fregistered(sym_name(name), p)
                        } else {
                            r == Err::<Expr, Error>(Error::Type(Type::Sym, name)) && m2 == m3
                        },
                    },
            },
    }
}

/// An application `(head . rest)`: the head is resolved; a macro gets `rest`
/// unevaluated and what it returns is evaluated; any other procedure gets
/// the elements of `rest` evaluated left to right.
pub open spec fn apply_outcome(m: EnvModel, head: Expr, rest: Expr, r: Result<Expr>, m2: EnvModel, depth: nat) -> bool
    decreases depth, 4int, 0nat,
{
    exists|rp: Result<Proc>, m1: EnvModel|
        #[trigger] witnessed((rp, m1)) && feval_outcome(m, head, rp, m1, depth) && match rp {
            Err(e) => r == Err::<Expr, Error>(e) && m2 == m1,
            Ok(f) => exists|mr: Result<Option<Proc>>, m3: EnvModel|
                #[trigger] witnessed((mr, m3)) && macro_outcome(m1, f, mr, m3, depth) && match mr {
                    Err(e) => r == Err::<Expr, Error>(e) && m2 == m3,
                    Ok(Some(t)) => exists|br: Result<Expr>|
                        #[trigger] witnessed(br) && call_outcome(m3, t, rest, br, depth) && match br {
                            Err(e) => r == Err::<Expr, Error>(e) && m2 == m3,
                            Ok(b) => eval_outcome(m3, b, r, m2, depth),
                        },
                    Ok(None) => exists|ar: Result<Expr>, m4: EnvModel|
                        #[trigger] witnessed((ar, m4)) && args_outcome(m3, rest, rest, ar, m4, depth) && match ar {
                            Err(e) => r == Err::<Expr, Error>(e) && m2 == m4,
                            Ok(a) => call_outcome(m4, f, a, r, depth) && m2 == m4,
                        },
                },
        }
}

/// A list form whose head is `head`: a special form by the head's name, or
/// an application.
pub open spec fn form_outcome(m: EnvModel, head: Expr, rest: Expr, r: Result<Expr>, m2: EnvModel, depth: nat) -> bool
    decreases depth, 5int, 0nat,
{
    let name = if head is Sym {
        sym_name(head)
    } else {
        Seq::empty()
    };
    if head is Sym && name == seq!['q', 'u', 'o', 't', 'e'] {
        m2 == m && match match_args(seq![Type::Any], 1, rest, 0) {
            Ok(v) => r == Ok::<Expr, Error>(v[0]->Some_0),
            Err(e) => r == Err::<Expr, Error>(e),
        }
    } else if head is Sym && name == function_name() {
        if rest is Cons {
            exists|rp: Result<Proc>| #[trigger] witnessed(rp) && feval_outcome(m, car_of(rest), rp, m2, depth) && r == proc_result(rp)
        } else {
            r == Err::<Expr, Error>(Error::Form(rest)) && m2 == m
        }
    } else if head is Sym && name == lambda_name() {
        m2 == m && if rest is Cons {
            r is Ok && r->Ok_0 is Proc && lambda_of(r->Ok_0->Proc_0, rest)
        } else {
            r == Err::<Expr, Error>(Error::Form(rest))
        }
    } else if head is Sym && name == progn_name() {
        progn_outcome(m, rest, Expr::Nil, rest, r, m2, depth)
    } else if head is Sym && name == fset_name() {
        fset_outcome(m, rest, r, m2, depth)
    } else if head is Sym && name == set_name() {
        set_outcome(m, rest, r, m2, depth)
    } else if head is Sym && name == if_name() {
        if_full_outcome(m, rest, r, m2, depth)
    } else {
        apply_outcome(m, head, rest, r, m2, depth)
    }
}

pub open spec fn lambda_name() -> Seq<char> {
    seq!['l', 'a', 'm', 'b', 'd', 'a']
}

pub open spec fn progn_name() -> Seq<char> {
    seq!['p', 'r', 'o', 'g', 'n']
}

pub open spec fn set_name() -> Seq<char> {
    seq!['s', 'e', 't']
}

pub open spec fn fset_name() -> Seq<char> {
    seq!['f', 's', 'e', 't']
}

/// `p` is the lambda that `(lambda . rest)` makes: the parameters of `rest`,
/// and a body that is `(progn . body)`.
pub open spec fn lambda_of(p: Proc, rest: Expr) -> bool {
    &&& rest is Cons
    &&& p is Lambda
    &&& *p->Lambda_0 == *rest->Cons_0
    &&& *p->Lambda_1 is Cons
    &&& is_sym_named(*(*p->Lambda_1)->Cons_0, progn_name())
    &&& *(*p->Lambda_1)->Cons_1 == *rest->Cons_1
}

/// What a symbol evaluates to in `m`: its value, or itself for an unbound
/// `t`, or `Unbound`.
pub open spec fn sym_outcome(m: EnvModel, e: Expr, r: Result<Expr>) -> bool {
    match m.find(sym_name(e)) {
        Some(v) => r == Ok::<Expr, Error>(v),
        None => if sym_name(e) == seq!['t'] {
            r is Ok && is_sym_t(r->Ok_0)
        } else {
            r == Err::<Expr, Error>(Error::Unbound(*e->Sym_0))
        },
    }
}

/// The names of the special forms.
pub open spec fn is_special_name(n: Seq<char>) -> bool {
    n == seq!['q', 'u', 'o', 't', 'e'] || n == function_name() || n == lambda_name() || n
        == progn_name() || n == fset_name() || n == set_name() || n == if_name()
}

fn bind_name(env: &mut Env, name: &Expr, value: Expr) -> (r: Result<()>)
    requires
        old(env).wf(),
    ensures
        final(env).wf(),
        *name is Sym ==> r is Ok && final(env)@ == old(env)@.registered(sym_name(*name), value),
        !(*name is Sym) ==> r == Err::<(), Error>(Error::Form(*name)) && final(env)@ == old(env)@,
{
    match name {
        Expr::Sym(s) => {
            env.register((**s).clone(), value);
            Ok(())
        },
        _ => Err(Error::Form(copy_expr(name))),
    }
}

proof fn lemma_registered_top(m: EnvModel, k: Seq<char>, v: Expr)
    requires
        m.wf(),
    ensures
        only_top_changed(m, m.registered(k, v)),
{
    assert(m.registered(k, v).vars.drop_last() =~= m.vars.drop_last());
}

fn is_named(e: &Expr, name: &str) -> (r: bool)
    ensures
        r == is_sym_named(*e, name@),
{
    match e {
        Expr::Sym(s) => str_is(s, name),
        _ => false,
    }
}

/// Bind `params` to `args` in the innermost frame (see `bind_plan`).
fn bind_names(env: &mut Env, params: &Expr, args: &Expr, whole: &Expr, opt: bool) -> (r: Result<()>)
    requires
        old(env).wf(),
    ensures
        final(env).wf(),
        only_top_changed(old(env)@, final(env)@),
        match bind_plan(*params, *args, *whole, opt) {
            Ok(bs) => r is Ok && final(env)@ == registered_all(old(env)@, bs),
            Err(e) => r == Err::<(), Error>(e),
        },
    decreases params,
{
    proof {
        reveal_strlit("&optional");
        reveal_strlit("&rest");
        assert("&optional"@ =~= optional_name());
        assert("&rest"@ =~= rest_name());
        assert(only_top_changed(old(env)@, old(env)@));
    }
    match params {
        Expr::Nil => match args {
            Expr::Nil => Ok(()),
            _ => Err(Error::ArityExceed),
        },
        Expr::Cons(p, prest) => {
            let ghost pg = car_of(*params);
            let ghost prg = cdr_of(*params);
            let ghost ag = car_of(*args);
            let ghost arg_rest = cdr_of(*args);
            if is_named(&**p, "&optional") {
                return bind_names(env, &**prest, args, whole, true);
            }
            if is_named(&**p, "&rest") {
                return match &**prest {
                    Expr::Cons(name, tail) => match &**tail {
                        Expr::Nil => {
                            let r = bind_name(env, &**name, copy_expr(args));
                            proof {
                                if r is Ok {
                                    lemma_registered_top(old(env)@, sym_name(car_of(prg)), *args);
                                    let bs = seq![(sym_name(car_of(prg)), *args)];
                                    let m1 = old(env)@.registered(sym_name(car_of(prg)), *args);
                                    assert(bs.drop_first() =~= Seq::<(Seq<char>, Expr)>::empty());
                                    assert(registered_all(m1, bs.drop_first()) == m1);
                                    assert(registered_all(old(env)@, bs) == m1);
                                }
                            }
                            r
                        },
                        t => Err(Error::Form(copy_expr(t))),
                    },
                    other => Err(Error::Form(copy_expr(other))),
                };
            }
            match args {
                Expr::Cons(a, arest) => {
                    let r = bind_name(env, &**p, copy_expr(&**a));
                    match r {
                        Err(e) => Err(e),
                        Ok(()) => {
                            proof {
                                lemma_registered_top(old(env)@, sym_name(pg), ag);
                            }
                            let r2 = bind_names(env, &**prest, &**arest, whole, opt);
                            proof {
                                let plan = bind_plan(prg, arg_rest, *whole, opt);
                                if plan is Ok {
                                    let bs = seq![(sym_name(pg), ag)] + plan->Ok_0;
                                    assert(bs.drop_first() =~= plan->Ok_0);
                                }
                            }
                            r2
                        },
                    }
                },
                Expr::Nil => {
                    if !opt {
                        return Err(Error::Form(copy_expr(&**p)));
                    }
                    let r = bind_name(env, &**p, Expr::Nil);
                    match r {
                        Err(e) => Err(e),
                        Ok(()) => {
                            proof {
                                lemma_registered_top(old(env)@, sym_name(pg), Expr::Nil);
                            }
                            let r2 = bind_names(env, &**prest, &Expr::Nil, whole, opt);
                            proof {
                                let plan = bind_plan(prg, Expr::Nil, *whole, opt);
                                if plan is Ok {
                                    let bs = seq![(sym_name(pg), Expr::Nil)] + plan->Ok_0;
                                    assert(bs.drop_first() =~= plan->Ok_0);
                                }
                            }
                            r2
                        },
                    }
                },
                _ => Err(Error::Form(copy_expr(whole))),
            }
        },
        _ => Err(Error::Form(copy_expr(whole))),
    }
}

/// Apply a procedure to an already evaluated argument list. A lambda runs
/// in a fresh local frame holding its parameters, which is removed again
/// on every path; the environment comes back as it was.
pub fn funcall_in(env: &mut Env, f: &Proc, args: &Expr, depth: usize) -> (r: Result<Expr>)
    requires
        old(env).wf(),
    ensures
        final(env).wf(),
        final(env)@ == old(env)@,
        call_outcome(old(env)@, *f, *args, r, depth as nat),
    decreases depth, 0int,
{
    match f {
        Proc::Expr(_) => Err(Error::NotFunction(Expr::Proc(copy_proc(f)))),
        Proc::Prim(_, n) => {
            if depth == 0 {
                return Err(Error::TooDeep);
            }
            call_native(env, *n, args, depth - 1)
        },
        Proc::Lambda(params, body) => {
            if depth == 0 {
                return Err(Error::TooDeep);
            }
            env.new_local();
            let ghost pushed = env@;
            let b = bind_names(env, &**params, args, args, false);
            let ghost bound = env@;
            let r = match b {
                Ok(()) => eval_in(env, &**body, depth - 1),
                Err(e) => Err(e),
            };
            let ghost mb = env@;
            proof {
                lemma_witnessed(mb);
            }
            env.end_local();
            assert(env@.vars =~= old(env)@.vars);
            assert(env@.funs =~= old(env)@.funs);
            r
        },
    }
}

/// Apply a procedure to an evaluated argument list.
pub fn funcall(env: &mut Env, f: &Proc, args: &Expr) -> (r: Result<Expr>)
    requires
        old(env).wf(),
    ensures
        final(env).wf(),
        final(env)@ == old(env)@,
        call_outcome(old(env)@, *f, *args, r, EVAL_DEPTH as nat),
{
    funcall_in(env, f, args, EVAL_DEPTH)
}

fn call_native(env: &mut Env, n: Native, args: &Expr, depth: usize) -> (r: Result<Expr>)
    requires
        old(env).wf(),
    ensures
        final(env).wf(),
        final(env)@ == old(env)@,
        native_outcome(old(env)@, n, *args, r, depth as nat),
    decreases depth, 2int,
{
    match n {
        Native::Add => base::k_add(args),
        Native::Sub => base::k_sub(args),
        Native::Mul => base::k_mul(args),
        Native::Div => base::k_div(args),
        Native::Gt => base::k_gt(args),
        Native::Ge => base::k_ge(args),
        Native::Lt => base::k_lt(args),
        Native::Le => base::k_le(args),
        Native::NumEq => base::k_eq(args),
        Native::NumNe => base::k_neq(args),
        Native::Concat => base::k_concat(args),
        Native::Funcall => k_funcall_in(env, args, depth),
        Native::Cons => base::k_cons(args),
        Native::Car => base::k_car(args),
        Native::Cdr => base::k_cdr(args),
        Native::EqualP => base::k_equal_p(args),
        Native::StringToNumber => base::k_string_to_number(args),
        Native::Substring => base::k_substring(args),
        Native::CurrentTime => datetime::k_current_time(args),
        Native::CurrentTimeString => datetime::k_current_time_string(args),
        Native::SkkCalc => skk::k_skk_calc(env, args),
        Native::SkkCurrentDate1 => skk::k_skk_current_date_1(args),
        Native::SkkCurrentDate => k_skk_current_date_in(env, args, depth),
        Native::SkkDefaultCurrentDate => skk::k_skk_default_current_date(args),
    }
}

/// `(funcall f arg...)`: apply the procedure value `f` to the arguments.
pub fn k_funcall_in(env: &mut Env, args: &Expr, depth: usize) -> (r: Result<Expr>)
    requires
        old(env).wf(),
    ensures
        final(env).wf(),
        final(env)@ == old(env)@,
        funcall_native_outcome(old(env)@, *args, r, depth as nat),
    decreases depth, 1int,
{
    match args {
        Expr::Cons(f, rest) => match &**f {
            Expr::Proc(p) => funcall_in(env, p, &**rest, depth),
            other => Err(Error::NotFunction(copy_expr(other))),
        },
        _ => Err(Error::Form(copy_expr(args))),
    }
}

/// `(skk-current-date [f format and-time])`: hand the current date list,
/// `format`, nil and `and-time` to `f`; nil without `f`.
pub fn k_skk_current_date_in(env: &mut Env, args: &Expr, depth: usize) -> (r: Result<Expr>)
    requires
        old(env).wf(),
    ensures
        final(env).wf(),
        final(env)@ == old(env)@,
        skk_current_date_outcome(old(env)@, *args, r, depth as nat),
    decreases depth, 1int,
{
    let vals = get_args(args, &types3(Type::Proc, Type::Any, Type::Any), 0)?;
    assert(vals@.len() == 3);
    match &vals[0] {
        None => Ok(Expr::Nil),
        Some(Expr::Proc(f)) => {
            proof {
                reveal_with_fuel(match_args, 2);
            }
            let info = skk::k_skk_current_date_1(&Expr::Nil)?;
            proof {
                lemma_witnessed(info);
            }
            let format = match &vals[1] {
                Some(x) => copy_expr(x),
                None => Expr::Nil,
            };
            let and_time = match &vals[2] {
                Some(x) => copy_expr(x),
                None => Expr::Nil,
            };
            let l = crate::util::klist(vec![info, format, Expr::Nil, and_time]);
            funcall_in(env, f, &l, depth)
        },
        Some(other) => Err(Error::Type(Type::Proc, copy_expr(other))),
    }
}

/// The list `items` followed by the tail `tl`.
pub open spec fn prepend_list(items: Seq<Expr>, tl: Expr) -> Expr
    decreases items.len(),
{
    if items.len() == 0 {
        tl
    } else {
        Expr::Cons(Rc::new(items[0]), Rc::new(prepend_list(items.drop_first(), tl)))
    }
}

pub open spec fn prepend_result(items: Seq<Expr>, r: Result<Expr>) -> Result<Expr> {
    match r {
        Ok(tl) => Ok(prepend_list(items, tl)),
        Err(e) => Err(e),
    }
}

proof fn lemma_prepend_push(items: Seq<Expr>, x: Expr, tl: Expr)
    ensures
        prepend_list(items.push(x), tl) == prepend_list(
            items,
            Expr::Cons(Rc::new(x), Rc::new(tl)),
        ),
    decreases items.len(),
{
    reveal_with_fuel(prepend_list, 2);
    if items.len() > 0 {
        assert(items.push(x).drop_first() =~= items.drop_first().push(x));
        lemma_prepend_push(items.drop_first(), x, tl);
        assert(items.push(x)[0] == items[0]);
    } else {
        assert(items.push(x).drop_first() =~= Seq::<Expr>::empty());
        assert(items.push(x)[0] == x);
    }
}

proof fn lemma_prepend_nil(items: Seq<Expr>)
    ensures
        prepend_list(items, Expr::Nil) == crate::util::list_of(items),
    decreases items.len(),
{
    if items.len() > 0 {
        lemma_prepend_nil(items.drop_first());
    }
}

/// Evaluate each element of a list, left to right, into a new list. A list
/// that does not end in nil is an invalid argument.
fn eval_args(env: &mut Env, list: &Expr, depth: usize) -> (r: Result<Expr>)
    requires
        old(env).wf(),
    ensures
        final(env).wf(),
        only_top_changed(old(env)@, final(env)@),
        args_outcome(old(env)@, *list, *list, r, final(env)@, depth as nat),
    decreases depth, 5int,
{
    let mut out: Vec<Expr> = Vec::new();
    let mut cur = copy_expr(list);
    proof {
        assert(only_top_changed(old(env)@, env@));
        assert(out@ =~= Seq::<Expr>::empty());
        assert forall|rt: Result<Expr>, m2: EnvModel|
            #[trigger] args_outcome(env@, cur, *list, rt, m2, depth as nat) implies args_outcome(
            old(env)@,
            *list,
            *list,
            prepend_result(out@, rt),
            m2,
            depth as nat,
        ) by {
            assert(prepend_result(out@, rt) == rt);
        }
    }
    loop
        invariant
            env.wf(),
            only_top_changed(old(env)@, env@),
            forall|rt: Result<Expr>, m2: EnvModel|
                #[trigger] args_outcome(env@, cur, *list, rt, m2, depth as nat) ==> args_outcome(
                    old(env)@,
                    *list,
                    *list,
                    prepend_result(out@, rt),
                    m2,
                    depth as nat,
                ),
        decreases spine_len(cur),
    {
        let ghost before = env@;
        let ghost cur0 = cur;
        let ghost out0 = out@;
        match cur {
            Expr::Nil => {
                let r = crate::util::klist(out);
                proof {
                    assert(args_outcome(before, cur0, *list, Ok(Expr::Nil), before, depth as nat));
                    lemma_prepend_nil(out0);
                }
                return Ok(r);
            },
            Expr::Cons(h, t) => {
                let v = eval_in(env, &*h, depth);
                match v {
                    Err(e) => {
                        proof {
                            assert(cur0 is Cons);
                            assert(eval_outcome(before, car_of(cur0), v, env@, depth as nat));
                            assert(v == Err::<Expr, Error>(e));
                            assert(exists|v1: Result<Expr>, m1: EnvModel|
                                #[trigger] eval_outcome(before, car_of(cur0), v1, m1, depth as nat)
                                    && v1 == Err::<Expr, Error>(e) && m1 == env@);
                            lemma_witnessed((v, env@));
                            assert(args_outcome(before, cur0, *list, Err(e), env@, depth as nat));
                        }
                        return Err(e);
                    },
                    Ok(x) => {
                        let ghost after = env@;
                        out.push(x);
                        cur = copy_expr(&*t);
                        proof {
                            assert forall|rt: Result<Expr>, m2: EnvModel|
                                #[trigger] args_outcome(after, cur, *list, rt, m2, depth as nat) implies args_outcome(
                                old(env)@,
                                *list,
                                *list,
                                prepend_result(out@, rt),
                                m2,
                                depth as nat,
                            ) by {
                                let r1 = match rt {
                                    Ok(tl) => Ok::<Expr, Error>(Expr::Cons(Rc::new(x), Rc::new(tl))),
                                    Err(e) => Err::<Expr, Error>(e),
                                };
                                assert(eval_outcome(before, car_of(cur0), Ok::<Expr, Error>(x), after, depth as nat));
                                lemma_witnessed((Ok::<Expr, Error>(x), after));
                                lemma_witnessed(rt);
                                assert(args_outcome(before, cur0, *list, r1, m2, depth as nat));
                                if rt is Ok {
                                    lemma_prepend_push(out0, x, rt->Ok_0);
                                }
                                assert(prepend_result(out0, r1) == prepend_result(out@, rt));
                            }
                        }
                    },
                }
            },
            _ => {
                proof {
                    assert(args_outcome(before, cur0, *list, Err(Error::InvalidArgument(*list)), before, depth as nat));
                }
                return Err(Error::InvalidArgument(copy_expr(list)));
            },
        }
    }
}

/// Resolve the head of an application to a procedure: a symbol through the
/// function namespace, a `(lambda ...)` form directly, another list headed by
/// a symbol by evaluating it and wrapping the value, a procedure as itself.
fn feval(env: &mut Env, expr: &Expr, depth: usize) -> (r: Result<Proc>)
    requires
        old(env).wf(),
    ensures
        final(env).wf(),
        only_top_changed(old(env)@, final(env)@),
        *expr is Sym ==> final(env)@ == old(env)@ && match old(env)@.ffind(sym_name(*expr)) {
            Some(p) => r == Ok::<Proc, Error>(p),
            None => r == Err::<Proc, Error>(Error::Unbound(*expr->Sym_0)),
        },
        *expr is Proc ==> r == Ok::<Proc, Error>(expr->Proc_0) && final(env)@ == old(env)@,
        !(*expr is Sym || *expr is Proc || *expr is Cons) ==> r == Err::<Proc, Error>(
            Error::NotFunction(*expr),
        ),
        *expr is Cons && is_sym_named(*expr->Cons_0, lambda_name()) && *expr->Cons_1 is Cons ==> r
            is Ok && lambda_of(r->Ok_0, *expr->Cons_1) && final(env)@ == old(env)@,
        feval_outcome(old(env)@, *expr, r, final(env)@, depth as nat),
    decreases depth, 4int,
{
    proof {
        assert(only_top_changed(old(env)@, env@));
    }
    match expr {
        Expr::Sym(name) => match env.ffind(&**name) {
            Ok(p) => Ok(copy_proc(p)),
            Err(e) => Err(e),
        },
        Expr::Cons(op, rest) => match &**op {
            Expr::Sym(name) => {
                proof {
                    reveal_strlit("lambda");
                    assert("lambda"@ =~= lambda_name());
                }
                if str_is(name, "lambda") {
                    f_lambda(&**rest)
                } else {
                    if depth == 0 {
                        return Err(Error::TooDeep);
                    }
                    let v = eval_in(env, expr, depth - 1);
                    proof {
                        lemma_witnessed(v);
                    }
                    match v {
                        Ok(val) => Ok(Proc::Expr(Rc::new(val))),
                        Err(e) => Err(e),
                    }
                }
            },
            _ => Err(Error::NotFunction(copy_expr(expr))),
        },
        Expr::Proc(p) => Ok(copy_proc(p)),
        _ => Err(Error::NotFunction(copy_expr(expr))),
    }
}

/// The transformer of a macro marker `(macro . f)`, or `None` for any other
/// procedure.
pub fn macro_fn(env: &mut Env, p: &Proc, depth: usize) -> (r: Result<Option<Proc>>)
    requires
        old(env).wf(),
    ensures
        final(env).wf(),
        only_top_changed(old(env)@, final(env)@),
        !crate::util::proc_is_macro(*p) ==> r == Ok::<Option<Proc>, Error>(None) && final(env)@
            == old(env)@,
        macro_outcome(old(env)@, *p, r, final(env)@, depth as nat),
        crate::util::proc_is_macro(*p) && cdr_of(*(*p)->Expr_0) is Proc ==> r == Ok::<
            Option<Proc>,
            Error,
        >(Some(cdr_of(*(*p)->Expr_0)->Proc_0)) && final(env)@ == old(env)@,
        crate::util::proc_is_macro(*p) && cdr_of(*(*p)->Expr_0) is Sym ==> final(env)@ == old(
            env,
        )@ && match old(env)@.ffind(sym_name(cdr_of(*(*p)->Expr_0))) {
            Some(t) => r == Ok::<Option<Proc>, Error>(Some(t)),
            None => r is Err,
        },
    decreases depth, 5int,
{
    proof {
        reveal_strlit("macro");
        assert("macro"@ =~= seq!['m', 'a', 'c', 'r', 'o']);
        assert(only_top_changed(old(env)@, env@));
    }
    match p {
        Proc::Expr(e) => match &**e {
            Expr::Cons(head, f) => {
                if is_named(&**head, "macro") {
                    let t = feval(env, &**f, depth);
                    proof {
                        lemma_witnessed(t);
                    }
                    match t {
                        Ok(t) => Ok(Some(t)),
                        Err(er) => Err(er),
                    }
                } else {
                    Ok(None)
                }
            },
            _ => Ok(None),
        },
        _ => Ok(None),
    }
}

/// `(lambda params . body)` makes a lambda whose body is `(progn . body)`.
fn f_lambda(args: &Expr) -> (r: Result<Proc>)
    ensures
        *args is Cons ==> r is Ok && lambda_of(r->Ok_0, *args),
        !(*args is Cons) ==> r == Err::<Proc, Error>(Error::Form(*args)),
{
    proof {
        reveal_strlit("progn");
        assert("progn"@ =~= progn_name());
    }
    match args {
        Expr::Cons(params, body) => Ok(
            Proc::Lambda(
                params.clone(),
                Rc::new(Expr::Cons(Rc::new(ksym("progn")), body.clone())),
            ),
        ),
        _ => Err(Error::Form(copy_expr(args))),
    }
}

fn k_quote(args: &Expr) -> (r: Result<Expr>)
    ensures
        match match_args(seq![Type::Any], 1, *args, 0) {
            Ok(v) => r == Ok::<Expr, Error>(v[0]->Some_0),
            Err(e) => r == Err::<Expr, Error>(e),
        },
{
    let vals = get_args(args, &types1(Type::Any), 1)?;
    proof {
        assert(vals@.len() == 1);
        assert(vals@[0] is Some);
    }
    Ok(arg(&vals, 0))
}

fn k_progn(env: &mut Env, args: &Expr, depth: usize) -> (r: Result<Expr>)
    requires
        old(env).wf(),
    ensures
        final(env).wf(),
        only_top_changed(old(env)@, final(env)@),
        progn_outcome(old(env)@, *args, Expr::Nil, *args, r, final(env)@, depth as nat),
    decreases depth, 5int,
{
    let mut res = Expr::Nil;
    let mut cur = copy_expr(args);
    proof {
        assert(only_top_changed(old(env)@, env@));
    }
    loop
        invariant
            env.wf(),
            only_top_changed(old(env)@, env@),
            forall|r2: Result<Expr>, m2: EnvModel|
                #[trigger] progn_outcome(env@, cur, res, *args, r2, m2, depth as nat)
                    ==> progn_outcome(old(env)@, *args, Expr::Nil, *args, r2, m2, depth as nat),
        decreases spine_len(cur),
    {
        let ghost before = env@;
        let ghost cur0 = cur;
        let ghost res0 = res;
        match cur {
            Expr::Nil => {
                proof {
                    assert(progn_outcome(before, cur0, res0, *args, Ok::<Expr, Error>(res0), before, depth as nat));
                }
                return Ok(res);
            },
            Expr::Cons(h, t) => {
                let v = eval_in(env, &*h, depth);
                match v {
                    Ok(x) => {
                        let ghost after = env@;
                        res = x;
                        cur = copy_expr(&*t);
                        proof {
                            assert forall|r2: Result<Expr>, m2: EnvModel|
                                #[trigger] progn_outcome(after, cur, res, *args, r2, m2, depth as nat)
                                implies progn_outcome(old(env)@, *args, Expr::Nil, *args, r2, m2, depth as nat) by {
                                assert(eval_outcome(before, car_of(cur0), Ok::<Expr, Error>(x), after, depth as nat));
                                lemma_witnessed((Ok::<Expr, Error>(x), after));
                                assert(progn_outcome(before, cur0, res0, *args, r2, m2, depth as nat));
                            }
                        }
                    },
                    Err(e) => {
                        proof {
                            assert(eval_outcome(before, car_of(cur0), v, env@, depth as nat));
                            lemma_witnessed((v, env@));
                            assert(progn_outcome(before, cur0, res0, *args, Err::<Expr, Error>(e), env@, depth as nat));
                        }
                        return Err(e);
                    },
                }
            },
            _ => {
                proof {
                    assert(progn_outcome(before, cur0, res0, *args, Err::<Expr, Error>(Error::Form(*args)), before, depth as nat));
                }
                return Err(Error::Form(copy_expr(args)));
            },
        }
    }
}

fn k_fset(env: &mut Env, args: &Expr, depth: usize) -> (r: Result<Expr>)
    requires
        old(env).wf(),
    ensures
        final(env).wf(),
        only_top_changed(old(env)@, final(env)@),
        fset_outcome(old(env)@, *args, r, final(env)@, depth as nat),
    decreases depth, 5int,
{
    let vals = get_args(args, &types2(Type::Any, Type::Any), 2)?;
    assert(vals@.len() == 2 && vals@[0] is Some && vals@[1] is Some);
    let ghost m0 = env@;
    let name = eval_in(env, &arg(&vals, 0), depth);
    let ghost m1 = env@;
    let name = match name {
        Ok(n) => n,
        Err(e) => {
            proof {
                assert(eval_outcome(m0, vals@[0]->Some_0, Err::<Expr, Error>(e), m1, depth as nat));
                lemma_witnessed((Err::<Expr, Error>(e), m1));
            }
            return Err(e);
        },
    };
    proof {
        assert(eval_outcome(m0, vals@[0]->Some_0, Ok::<Expr, Error>(name), m1, depth as nat));
        lemma_witnessed((Ok::<Expr, Error>(name), m1));
    }
    let f = feval(env, &arg(&vals, 1), depth);
    let ghost m3 = env@;
    proof {
        assert(feval_outcome(m1, vals@[1]->Some_0, f, m3, depth as nat));
        lemma_witnessed((f, m3));
    }
    let f = match f {
        Ok(p) => p,
        Err(e) => {
            return Err(e);
        },
    };
    match name {
        Expr::Sym(s) => {
            let ghost before = env@;
            env.fregister((*s).clone(), f);
            assert(env@.funs.drop_last() =~= before.funs.drop_last());
            Ok(Expr::Nil)
        },
        other => Err(Error::Type(Type::Sym, other)),
    }
}

fn k_set(env: &mut Env, args: &Expr, depth: usize) -> (r: Result<Expr>)
    requires
        old(env).wf(),
    ensures
        final(env).wf(),
        only_top_changed(old(env)@, final(env)@),
        set_outcome(old(env)@, *args, r, final(env)@, depth as nat),
    decreases depth, 5int,
{
    let vals = get_args(args, &types2(Type::Any, Type::Any), 2)?;
    assert(vals@.len() == 2 && vals@[0] is Some && vals@[1] is Some);
    let ghost m0 = env@;
    let name = eval_in(env, &arg(&vals, 0), depth);
    let ghost m1 = env@;
    let name = match name {
        Ok(n) => n,
        Err(e) => {
            proof {
                assert(eval_outcome(m0, vals@[0]->Some_0, Err::<Expr, Error>(e), m1, depth as nat));
                lemma_witnessed((Err::<Expr, Error>(e), m1));
            }
            return Err(e);
        },
    };
    proof {
        assert(eval_outcome(m0, vals@[0]->Some_0, Ok::<Expr, Error>(name), m1, depth as nat));
        lemma_witnessed((Ok::<Expr, Error>(name), m1));
    }
    let value = eval_in(env, &arg(&vals, 1), depth);
    let ghost m3 = env@;
    proof {
        assert(eval_outcome(m1, vals@[1]->Some_0, value, m3, depth as nat));
        lemma_witnessed((value, m3));
    }
    let value = match value {
        Ok(v) => v,
        Err(e) => {
            return Err(e);
        },
    };
    match name {
        Expr::Sym(s) => {
            let ghost before = env@;
            env.register((*s).clone(), value);
            proof {
                lemma_registered_top(before, (*s)@, value);
            }
            Ok(Expr::Nil)
        },
        other => Err(Error::Type(Type::Sym, other)),
    }
}

fn k_if(env: &mut Env, args: &Expr, depth: usize) -> (r: Result<Expr>)
    requires
        old(env).wf(),
    ensures
        final(env).wf(),
        only_top_changed(old(env)@, final(env)@),
        if_full_outcome(old(env)@, *args, r, final(env)@, depth as nat),
    decreases depth, 5int,
{
    let vals = get_args(args, &types3(Type::Any, Type::Any, Type::Any), 2)?;
    assert(vals@.len() == 3 && vals@[0] is Some && vals@[1] is Some);
    let ghost m0 = env@;
    let c = eval_in(env, &arg(&vals, 0), depth);
    let ghost m1 = env@;
    proof {
        assert(eval_outcome(m0, vals@[0]->Some_0, c, m1, depth as nat));
        lemma_witnessed((c, m1));
    }
    let c = match c {
        Ok(c) => c,
        Err(e) => {
            return Err(e);
        },
    };
    match c {
        Expr::Nil => match &vals[2] {
            Some(e) => eval_in(env, e, depth),
            None => Ok(Expr::Nil),
        },
        _ => eval_in(env, &arg(&vals, 1), depth),
    }
}

/// The special forms, recognised by the head symbol before any lookup.
enum Special {
    Quote,
    Function,
    Lambda,
    Progn,
    Fset,
    SetValue,
    If,
}

fn special_form(name: &String) -> (r: Option<Special>)
    ensures
        r is None ==> name@ != seq!['q', 'u', 'o', 't', 'e'],
        r is Some && r->Some_0 is Quote <==> name@ == seq!['q', 'u', 'o', 't', 'e'],
        r is Some && r->Some_0 is If <==> name@ == if_name(),
        r is Some && r->Some_0 is Function <==> name@ == function_name(),
        r is Some && r->Some_0 is Lambda <==> name@ == lambda_name(),
        r is Some && r->Some_0 is SetValue <==> name@ == set_name(),
        r is Some && r->Some_0 is Fset <==> name@ == fset_name(),
        r is Some && r->Some_0 is Progn <==> name@ == progn_name(),
        r is None <==> !is_special_name(name@),
{
    proof {
        reveal_strlit("quote");
        reveal_strlit("function");
        reveal_strlit("lambda");
        reveal_strlit("progn");
        reveal_strlit("fset");
        reveal_strlit("set");
        reveal_strlit("if");
        assert("quote"@ =~= seq!['q', 'u', 'o', 't', 'e']);
        assert("function"@ =~= function_name());
        assert("if"@ =~= if_name());
        assert("lambda"@ =~= lambda_name());
        assert("progn"@ =~= progn_name());
        assert("fset"@ =~= fset_name());
        assert("set"@ =~= set_name());
    }
    if str_is(name, "quote") {
        Some(Special::Quote)
    } else if str_is(name, "function") {
        Some(Special::Function)
    } else if str_is(name, "lambda") {
        Some(Special::Lambda)
    } else if str_is(name, "progn") {
        Some(Special::Progn)
    } else if str_is(name, "fset") {
        Some(Special::Fset)
    } else if str_is(name, "set") {
        Some(Special::SetValue)
    } else if str_is(name, "if") {
        Some(Special::If)
    } else {
        None
    }
}

/// Evaluate `expr`, nesting at most `depth` levels. Atoms other than
/// symbols evaluate to themselves; a symbol to its value (`t` to itself when
/// unbound); a list is a special form or an application.
pub fn eval_in(env: &mut Env, expr: &Expr, depth: usize) -> (r: Result<Expr>)
    requires
        old(env).wf(),
    ensures
        final(env).wf(),
        only_top_changed(old(env)@, final(env)@),
        eval_outcome(old(env)@, *expr, r, final(env)@, depth as nat),
    decreases depth, 3int,
{
    proof {
        reveal_strlit("t");
        assert("t"@ =~= seq!['t']);
        assert(only_top_changed(old(env)@, env@));
    }
    match expr {
        Expr::Sym(name) => match env.find(&**name) {
            Ok(v) => Ok(copy_expr(v)),
            Err(e) => {
                if str_is(name, "t") {
                    Ok(ksym("t"))
                } else {
                    Err(e)
                }
            },
        },
        Expr::Cons(head, rest) => {
            if depth == 0 {
                return Err(Error::TooDeep);
            }
            let d = depth - 1;
            let special = match &**head {
                Expr::Sym(name) => special_form(&**name),
                _ => None,
            };
            match special {
                Some(Special::Quote) => {
                    proof {
                        reveal_with_fuel(match_args, 3);
                    }
                    k_quote(&**rest)
                },
                Some(Special::Function) => match &**rest {
                    Expr::Cons(x, _) => {
                        let p = feval(env, &**x, d);
                        proof {
                            assert(feval_outcome(old(env)@, car_of(**rest), p, env@, d as nat));
                            lemma_witnessed(p);
                        }
                        match p {
                            Ok(p) => Ok(Expr::Proc(p)),
                            Err(e) => Err(e),
                        }
                    },
                    other => Err(Error::Form(copy_expr(other))),
                },
                Some(Special::Lambda) => {
                    let p = f_lambda(&**rest)?;
                    Ok(Expr::Proc(p))
                },
                Some(Special::Progn) => k_progn(env, &**rest, d),
                Some(Special::Fset) => k_fset(env, &**rest, d),
                Some(Special::SetValue) => k_set(env, &**rest, d),
                Some(Special::If) => k_if(env, &**rest, d),
                None => {
                    let ghost m0 = env@;
                    let fr = feval(env, &**head, d);
                    let ghost m1 = env@;
                    proof {
                        assert(feval_outcome(m0, **head, fr, m1, d as nat));
                        lemma_witnessed((fr, m1));
                    }
                    let f = match fr {
                        Ok(f) => f,
                        Err(e) => {
                            return Err(e);
                        },
                    };
                    let mr = macro_fn(env, &f, d);
                    let ghost m3 = env@;
                    proof {
                        assert(macro_outcome(m1, f, mr, m3, d as nat));
                        lemma_witnessed((mr, m3));
                    }
                    match mr {
                        Err(e) => Err(e),
                        Ok(Some(m)) => {
                            let br = funcall_in(env, &m, &**rest, d);
                            proof {
                                assert(call_outcome(m3, m, **rest, br, d as nat));
                                lemma_witnessed(br);
                            }
                            match br {
                                Err(e) => Err(e),
                                Ok(body) => {
                                    let r = eval_in(env, &body, d);
                                    proof {
                                        assert(eval_outcome(m3, body, r, env@, d as nat));
                                    }
                                    r
                                },
                            }
                        },
                        Ok(None) => {
                            let ar = eval_args(env, &**rest, d);
                            let ghost m4 = env@;
                            proof {
                                assert(args_outcome(m3, **rest, **rest, ar, m4, d as nat));
                                lemma_witnessed((ar, m4));
                            }
                            match ar {
                                Err(e) => Err(e),
                                Ok(argv) => {
                                    let r = funcall_in(env, &f, &argv, d);
                                    proof {
                                        assert(call_outcome(m4, f, argv, r, d as nat));
                                    }
                                    r
                                },
                            }
                        },
                    }
                },
            }
        },
        _ => Ok(copy_expr(expr)),
    }
}

/// Evaluate `expr` in `env`.
pub fn eval(env: &mut Env, expr: &Expr) -> (r: Result<Expr>)
    requires
        old(env).wf(),
    ensures
        final(env).wf(),
        only_top_changed(old(env)@, final(env)@),
        eval_outcome(old(env)@, *expr, r, final(env)@, EVAL_DEPTH as nat),
{
    eval_in(env, expr, EVAL_DEPTH)
}

} // verus!
