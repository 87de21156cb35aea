use vstd::prelude::*;
use std::rc::Rc;
use crate::args::{arg, get_args, match_args, types1, types2, types3, types4};
use crate::base::int_op;
use crate::datetime::{DateParts, instant_of, local_parts, timespec_of};
use crate::env::{Env, EnvModel};
use crate::expr::{Error, Expr, Kint, Native, Result, Sexp, Type, copy_expr, sexp_of};
use crate::text::{chars_of, int_decimal, int_to_decimal, string_of};
use crate::util::{install, klist, lemma_top_native_bound, list_of, native_bound, top_native};

verus! {

pub open spec fn month_name(m: int) -> Seq<char> {
    if m == 0 { seq!['J', 'a', 'n'] } else if m == 1 { seq!['F', 'e', 'b'] }
    else if m == 2 { seq!['M', 'a', 'r'] } else if m == 3 { seq!['A', 'p', 'r'] }
    else if m == 4 { seq!['M', 'a', 'y'] } else if m == 5 { seq!['J', 'u', 'n'] }
    else if m == 6 { seq!['J', 'u', 'l'] } else if m == 7 { seq!['A', 'u', 'g'] }
    else if m == 8 { seq!['S', 'e', 'p'] } else if m == 9 { seq!['O', 'c', 't'] }
    else if m == 10 { seq!['N', 'o', 'v'] } else { seq!['D', 'e', 'c'] }
}

pub open spec fn day_name(d: int) -> Seq<char> {
    if d == 0 { seq!['S', 'u', 'n'] } else if d == 1 { seq!['M', 'o', 'n'] }
    else if d == 2 { seq!['T', 'u', 'e'] } else if d == 3 { seq!['W', 'e', 'd'] }
    else if d == 4 { seq!['T', 'h', 'u'] } else if d == 5 { seq!['F', 'r', 'i'] }
    else { seq!['S', 'a', 't'] }
}

fn name_string(a: char, b: char, c: char) -> (r: String)
    ensures
        r@ == seq![a, b, c],
{
    let mut v: Vec<char> = Vec::new();
    v.push(a);
    v.push(b);
    v.push(c);
    assert(v@ =~= seq![a, b, c]);
    string_of(&v)
}

fn month_string(m: i32) -> (r: String)
    ensures
        r@ == month_name(m as int),
{
    if m == 0 { name_string('J', 'a', 'n') } else if m == 1 { name_string('F', 'e', 'b') }
    else if m == 2 { name_string('M', 'a', 'r') } else if m == 3 { name_string('A', 'p', 'r') }
    else if m == 4 { name_string('M', 'a', 'y') } else if m == 5 { name_string('J', 'u', 'n') }
    else if m == 6 { name_string('J', 'u', 'l') } else if m == 7 { name_string('A', 'u', 'g') }
    else if m == 8 { name_string('S', 'e', 'p') } else if m == 9 { name_string('O', 'c', 't') }
    else if m == 10 { name_string('N', 'o', 'v') } else { name_string('D', 'e', 'c') }
}

fn day_string(d: i32) -> (r: String)
    ensures
        r@ == day_name(d as int),
{
    if d == 0 { name_string('S', 'u', 'n') } else if d == 1 { name_string('M', 'o', 'n') }
    else if d == 2 { name_string('T', 'u', 'e') } else if d == 3 { name_string('W', 'e', 'd') }
    else if d == 4 { name_string('T', 'h', 'u') } else if d == 5 { name_string('F', 'r', 'i') }
    else { name_string('S', 'a', 't') }
}

/// The proper list of the forms in `s`.
pub open spec fn sexp_list(s: Seq<Sexp>) -> Sexp
    decreases s.len(),
{
    if s.len() == 0 {
        Sexp::Nil
    } else {
        Sexp::Cons(Box::new(s[0]), Box::new(sexp_list(s.drop_first())))
    }
}

/// The date list of a broken-down time: year, month name, day, weekday
/// name, hour, minute and second, each a string.
pub open spec fn date_sexp(p: DateParts) -> Sexp {
    sexp_list(
        seq![
            Sexp::Str(int_decimal(p.year as int + 1900)),
            Sexp::Str(month_name(p.month as int)),
            Sexp::Str(int_decimal(p.mday as int)),
            Sexp::Str(day_name(p.wday as int)),
            Sexp::Str(int_decimal(p.hour as int)),
            Sexp::Str(int_decimal(p.min as int)),
            Sexp::Str(int_decimal(p.sec as int)),
        ],
    )
}

proof fn lemma_list_view(s: Seq<Expr>)
    ensures
        sexp_of(list_of(s)) == sexp_list(s.map_values(|e: Expr| sexp_of(e))),
    decreases s.len(),
{
    if s.len() > 0 {
        lemma_list_view(s.drop_first());
        assert(s.drop_first().map_values(|e: Expr| sexp_of(e)) =~= s.map_values(
            |e: Expr| sexp_of(e),
        ).drop_first());
    }
}

fn str_expr(s: String) -> (r: Expr)
    ensures
        r@ == Sexp::Str(s@),
{
    Expr::Str(Rc::new(s))
}

/// The date list of a broken-down time.
pub fn date_list(p: DateParts) -> (r: Expr)
    ensures
        r@ == date_sexp(p),
{
    let items = vec![
        str_expr(int_to_decimal(p.year as i64 + 1900)),
        str_expr(month_string(p.month)),
        str_expr(int_to_decimal(p.mday as i64)),
        str_expr(day_string(p.wday)),
        str_expr(int_to_decimal(p.hour as i64)),
        str_expr(int_to_decimal(p.min as i64)),
        str_expr(int_to_decimal(p.sec as i64)),
    ];
    let ghost s = items@;
    let r = klist(items);
    proof {
        lemma_list_view(s);
        assert(s.map_values(|e: Expr| sexp_of(e)) =~= seq![
            Sexp::Str(int_decimal(p.year as int + 1900)),
            Sexp::Str(month_name(p.month as int)),
            Sexp::Str(int_decimal(p.mday as int)),
            Sexp::Str(day_name(p.wday as int)),
            Sexp::Str(int_decimal(p.hour as int)),
            Sexp::Str(int_decimal(p.min as int)),
            Sexp::Str(int_decimal(p.sec as int)),
        ]);
    }
    r
}

/// What `k_skk_current_date_1` returns.
pub open spec fn current_date_1_outcome(args: Expr, r: Result<Expr>) -> bool {
    &&& match match_args(seq![Type::Any], 0, args, 0) {
        Ok(v) => (v[0] is Some && timespec_of(v[0]->Some_0) is Err) ==> r == Err::<
            Expr,
            Error,
        >(timespec_of(v[0]->Some_0)->Err_0),
        Err(e) => r == Err::<Expr, Error>(e),
    }
    &&& r is Ok ==> exists|p: DateParts| r->Ok_0@ == date_sexp(p)
    &&& match match_args(seq![Type::Any], 0, args, 0) {
        Ok(v) => {
            &&& (v[0] is Some && timespec_of(v[0]->Some_0) is Ok) ==> r is Ok
            &&& v[0] is None && r is Err ==> r->Err_0 is InvalidArgument
        },
        Err(_) => true,
    }
}

/// `(skk-current-date-1 [time])`: the date list of the given time, or now.
pub fn k_skk_current_date_1(args: &Expr) -> (r: Result<Expr>)
    ensures
        current_date_1_outcome(*args, r),
{
    let vals = get_args(args, &types1(Type::Any), 0)?;
    assert(vals@.len() == 1);
    let t = instant_of(&vals[0])?;
    let parts = local_parts(t);
    Ok(date_list(parts))
}

/// `(skk-current-date [f format and-time])`: hand the current date list,
/// `format`, nil and `and-time` to `f`; nil without `f`.
pub fn k_skk_current_date(env: &mut Env, args: &Expr) -> (r: Result<Expr>)
    requires
        old(env).wf(),
    ensures
        final(env).wf(),
        final(env)@ == old(env)@,
        crate::eval::skk_current_date_outcome(old(env)@, *args, r, crate::eval::EVAL_DEPTH as nat),
{
    crate::eval::k_skk_current_date_in(env, args, crate::eval::EVAL_DEPTH)
}

/// `(skk-default-current-date ...)`: nil.
pub fn k_skk_default_current_date(args: &Expr) -> (r: Result<Expr>)
    ensures
        r == Ok::<Expr, Error>(Expr::Nil),
{
    Ok(Expr::Nil)
}

pub open spec fn skk_num_list_name() -> Seq<char> {
    seq!['s', 'k', 'k', '-', 'n', 'u', 'm', '-', 'l', 'i', 's', 't']
}

/// The operator symbols `skk-calc` knows: `+ - * /`.
pub open spec fn skk_op(name: Seq<char>) -> Option<Native> {
    if name == seq!['+'] {
        Some(Native::Add)
    } else if name == seq!['-'] {
        Some(Native::Sub)
    } else if name == seq!['*'] {
        Some(Native::Mul)
    } else if name == seq!['/'] {
        Some(Native::Div)
    } else {
        None
    }
}

fn op_of(name: &String) -> (r: Option<Native>)
    ensures
        r == skk_op(name@),
{
    proof {
        reveal_strlit("+");
        reveal_strlit("-");
        reveal_strlit("*");
        reveal_strlit("/");
        assert("+"@ =~= seq!['+']);
        assert("-"@ =~= seq!['-']);
        assert("*"@ =~= seq!['*']);
        assert("/"@ =~= seq!['/']);
    }
    if crate::util::str_is(name, "+") {
        Some(Native::Add)
    } else if crate::util::str_is(name, "-") {
        Some(Native::Sub)
    } else if crate::util::str_is(name, "*") {
        Some(Native::Mul)
    } else if crate::util::str_is(name, "/") {
        Some(Native::Div)
    } else {
        None
    }
}

/// What `k_skk_calc` returns.
pub open spec fn skk_calc_outcome(m: EnvModel, args: Expr, r: Result<Expr>) -> bool {
    match match_args(seq![Type::Sym], 1, args, 0) {
        Err(e) => r == Err::<Expr, Error>(e),
        Ok(v) => match m.find(skk_num_list_name()) {
            None => r is Err && r->Err_0 is Unbound,
            Some(nums) => match match_args(seq![Type::Int, Type::Int], 2, nums, 0) {
                Err(e) => r == Err::<Expr, Error>(e),
                Ok(w) => match skk_op((*v[0]->Some_0->Sym_0)@) {
                    None => r is Err && r->Err_0 is User,
                    Some(op) => match int_op(
                        op,
                        w[0]->Some_0->Int_0 as int,
                        w[1]->Some_0->Int_0 as int,
                    ) {
                        Some(n) => r == Ok::<Expr, Error>(Expr::Int(n as Kint)),
                        None => r == Err::<Expr, Error>(Error::InvalidArgument(nums)),
                    },
                },
            },
        },
    }
}

/// `(skk-calc op)`: apply the operator symbol `op` to the two integers of
/// the variable `skk-num-list`.
pub fn k_skk_calc(env: &Env, args: &Expr) -> (r: Result<Expr>)
    requires
        env.wf(),
    ensures
        skk_calc_outcome(env@, *args, r),
{
    let vals = get_args(args, &types1(Type::Sym), 1)?;
    assert(vals@.len() == 1 && vals@[0] is Some);
    proof {
        reveal_with_fuel(match_args, 3);
        reveal_strlit("skk-num-list");
        assert("skk-num-list"@ =~= skk_num_list_name());
    }
    let name = match arg(&vals, 0) {
        Expr::Sym(s) => s,
        _ => Rc::new(String::new()),
    };
    let nums = copy_expr(env.find(&"skk-num-list".to_owned())?);
    let ns = get_args(&nums, &types2(Type::Int, Type::Int), 2)?;
    assert(ns@.len() == 2 && ns@[0] is Some && ns@[1] is Some);
    let x = match arg(&ns, 0) {
        Expr::Int(x) => x,
        _ => 0,
    };
    let y = match arg(&ns, 1) {
        Expr::Int(y) => y,
        _ => 0,
    };
    let res = match op_of(&*name) {
        Some(Native::Add) => x.checked_add(y),
        Some(Native::Sub) => x.checked_sub(y),
        Some(Native::Mul) => x.checked_mul(y),
        Some(_) => x.checked_div(y),
        None => {
            let mut msg = chars_of("unknown operator ");
            let op = chars_of(name.as_str());
            let mut i: usize = 0;
            while i < op.len()
                invariant
                    i <= op@.len(),
                decreases op@.len() - i,
            {
                msg.push(op[i]);
                i = i + 1;
            }
            return Err(Error::User(string_of(&msg)));
        },
    };
    match res {
        Some(n) => Ok(Expr::Int(n)),
        None => Err(Error::InvalidArgument(nums)),
    }
}

/// The date and calculator primitives are bound in the innermost function frame.
pub open spec fn skk_top(m: EnvModel) -> bool {
    &&& top_native(m, seq!['s', 'k', 'k', '-', 'c', 'a', 'l', 'c'], Native::SkkCalc)
    &&& top_native(m, seq!['s', 'k', 'k', '-', 'c', 'u', 'r', 'r', 'e', 'n', 't', '-', 'd', 'a', 't', 'e', '-', '1'], Native::SkkCurrentDate1)
    &&& top_native(m, seq!['s', 'k', 'k', '-', 'c', 'u', 'r', 'r', 'e', 'n', 't', '-', 'd', 'a', 't', 'e'], Native::SkkCurrentDate)
}

/// The date and calculator primitives are bound under their names.
pub open spec fn skk_installed(m: EnvModel) -> bool {
    &&& native_bound(m, seq!['s', 'k', 'k', '-', 'c', 'a', 'l', 'c'], Native::SkkCalc)
    &&& native_bound(m, seq!['s', 'k', 'k', '-', 'c', 'u', 'r', 'r', 'e', 'n', 't', '-', 'd', 'a', 't', 'e', '-', '1'], Native::SkkCurrentDate1)
    &&& native_bound(m, seq!['s', 'k', 'k', '-', 'c', 'u', 'r', 'r', 'e', 'n', 't', '-', 'd', 'a', 't', 'e'], Native::SkkCurrentDate)
}

/// The names this library binds.
pub open spec fn is_skk_name(k: Seq<char>) -> bool {
    k == seq!['s', 'k', 'k', '-', 'c', 'a', 'l', 'c']
        || k == seq!['s', 'k', 'k', '-', 'c', 'u', 'r', 'r', 'e', 'n', 't', '-', 'd', 'a', 't', 'e', '-', '1']
        || k == seq!['s', 'k', 'k', '-', 'c', 'u', 'r', 'r', 'e', 'n', 't', '-', 'd', 'a', 't', 'e']
}

/// Install the date and calculator primitives.
pub fn init(env: &mut Env) -> (r: Result<()>)
    requires
        old(env).wf(),
    ensures
        final(env).wf(),
        r is Ok,
        final(env)@.depth() == old(env)@.depth(),
        final(env)@.vars == old(env)@.vars,
        skk_top(final(env)@),
        skk_installed(final(env)@),
        forall|k: Seq<char>, n: Native|
            !is_skk_name(k) && #[trigger] top_native(old(env)@, k, n) ==> top_native(final(env)@, k, n),
        final(env)@.funs.last().dom() == old(env)@.funs.last().dom().union(
            Set::new(|k: Seq<char>| is_skk_name(k)),
        ),
{
    proof {
        reveal_strlit("skk-calc");
        assert("skk-calc"@ =~= seq!['s', 'k', 'k', '-', 'c', 'a', 'l', 'c']);
        assert("skk-calc"@.len() == 8 && "skk-calc"@[0] == 's' && "skk-calc"@[1] == 'k' && "skk-calc"@[2] == 'k' && "skk-calc"@[3] == '-' && "skk-calc"@[4] == 'c' && "skk-calc"@[5] == 'a' && "skk-calc"@[6] == 'l' && "skk-calc"@[7] == 'c');
        reveal_strlit("skk-current-date-1");
        assert("skk-current-date-1"@ =~= seq!['s', 'k', 'k', '-', 'c', 'u', 'r', 'r', 'e', 'n', 't', '-', 'd', 'a', 't', 'e', '-', '1']);
        assert("skk-current-date-1"@.len() == 18 && "skk-current-date-1"@[0] == 's' && "skk-current-date-1"@[1] == 'k' && "skk-current-date-1"@[2] == 'k' && "skk-current-date-1"@[3] == '-' && "skk-current-date-1"@[4] == 'c' && "skk-current-date-1"@[5] == 'u' && "skk-current-date-1"@[6] == 'r' && "skk-current-date-1"@[7] == 'r' && "skk-current-date-1"@[8] == 'e' && "skk-current-date-1"@[9] == 'n' && "skk-current-date-1"@[10] == 't' && "skk-current-date-1"@[11] == '-' && "skk-current-date-1"@[12] == 'd' && "skk-current-date-1"@[13] == 'a' && "skk-current-date-1"@[14] == 't' && "skk-current-date-1"@[15] == 'e' && "skk-current-date-1"@[16] == '-' && "skk-current-date-1"@[17] == '1');
        reveal_strlit("skk-current-date");
        assert("skk-current-date"@ =~= seq!['s', 'k', 'k', '-', 'c', 'u', 'r', 'r', 'e', 'n', 't', '-', 'd', 'a', 't', 'e']);
        assert("skk-current-date"@.len() == 16 && "skk-current-date"@[0] == 's' && "skk-current-date"@[1] == 'k' && "skk-current-date"@[2] == 'k' && "skk-current-date"@[3] == '-' && "skk-current-date"@[4] == 'c' && "skk-current-date"@[5] == 'u' && "skk-current-date"@[6] == 'r' && "skk-current-date"@[7] == 'r' && "skk-current-date"@[8] == 'e' && "skk-current-date"@[9] == 'n' && "skk-current-date"@[10] == 't' && "skk-current-date"@[11] == '-' && "skk-current-date"@[12] == 'd' && "skk-current-date"@[13] == 'a' && "skk-current-date"@[14] == 't' && "skk-current-date"@[15] == 'e');
    }
    install(env, "skk-calc", "k_skk_calc", Native::SkkCalc);
    install(env, "skk-current-date-1", "k_skk_current_date_1", Native::SkkCurrentDate1);
    install(env, "skk-current-date", "k_skk_current_date", Native::SkkCurrentDate);
    proof {
        assert forall|k: Seq<char>, n: Native| #[trigger] top_native(env@, k, n) implies native_bound(env@, k, n) by {
            lemma_top_native_bound(env@, k, n);
        }
    }
    proof {
        assert(env@.funs.last().dom() =~= old(env)@.funs.last().dom().union(
            Set::new(|k: Seq<char>| is_skk_name(k)),
        ));
    }
    Ok(())
}

} // verus!
