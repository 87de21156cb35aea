use vstd::prelude::*;
use std::rc::Rc;
use crate::args::{arg, get_args, match_args, types1, types2, types3, types4};
use crate::env::Env;
use crate::expr::{Error, Expr, Kint, Native, Result, Type, copy_expr, expr_eq, expr_equal};
use crate::read::{digits_value, is_digit, lemma_digits_mono};
use crate::single::{
    single_add, single_div, single_from_int, single_mul, single_sub, single_difference,
    single_of_int, single_product, single_quotient, single_sum,
};
use crate::text::{chars_of, string_of};
use crate::env::EnvModel;
use crate::util::{install, is_sym_t, kbool, ksym, lemma_top_native_bound, native_bound, top_native};

verus! {

/// Integer division that rounds toward zero.
pub open spec fn trunc_div(x: int, d: int) -> int {
    if x == 0 {
        0
    } else if x > 0 && d > 0 {
        x / d
    } else if x < 0 && d < 0 {
        (-x) / (-d)
    } else if x < 0 {
        -((-x) / d)
    } else {
        -(x / (-d))
    }
}

/// An integer operation, or `None` when it divides by zero or leaves the
/// integer range.
pub open spec fn int_op(op: Native, x: int, y: int) -> Option<int> {
    let v = match op {
        Native::Add => x + y,
        Native::Sub => x - y,
        Native::Mul => x * y,
        _ => trunc_div(x, y),
    };
    if (op == Native::Div && y == 0) || v < i64::MIN || v > i64::MAX {
        None
    } else {
        Some(v)
    }
}

pub open spec fn float_op(op: Native, a: u32, b: u32) -> u32 {
    match op {
        Native::Add => single_sum(a, b),
        Native::Sub => single_difference(a, b),
        Native::Mul => single_product(a, b),
        _ => single_quotient(a, b),
    }
}

/// One step of an arithmetic fold: integers stay integers, and a float on
/// either side makes the result a float.
pub open spec fn arith_step(op: Native, x: Expr, y: Expr) -> Result<Expr> {
    match x {
        Expr::Int(a) => match y {
            Expr::Int(b) => match int_op(op, a as int, b as int) {
                Some(v) => Ok(Expr::Int(v as Kint)),
                None => Err(Error::InvalidArgument(y)),
            },
            Expr::Float(b) => Ok(Expr::Float(float_op(op, single_of_int(a as int), b))),
            _ => Err(Error::Type(Type::Int, y)),
        },
        Expr::Float(a) => match y {
            Expr::Int(b) => Ok(Expr::Float(float_op(op, a, single_of_int(b as int)))),
            Expr::Float(b) => Ok(Expr::Float(float_op(op, a, b))),
            _ => Err(Error::Type(Type::Int, x)),
        },
        _ => Err(Error::Type(Type::Int, x)),
    }
}

/// Fold `arith_step` over the list `rest`, left to right.
pub open spec fn arith_fold(op: Native, acc: Expr, rest: Expr, whole: Expr) -> Result<Expr>
    decreases rest,
{
    match rest {
        Expr::Nil => Ok(acc),
        Expr::Cons(h, t) => match arith_step(op, acc, *h) {
            Ok(a) => arith_fold(op, a, *t, whole),
            Err(e) => Err(e),
        },
        _ => Err(Error::InvalidArgument(whole)),
    }
}

pub open spec fn arith_identity(op: Native) -> Expr {
    if op == Native::Mul || op == Native::Div {
        Expr::Int(1)
    } else {
        Expr::Int(0)
    }
}

/// An arithmetic primitive on its argument list: with two or more
/// arguments the first is the start and the rest are folded in; with fewer,
/// the operation's identity is the start (so `(- 1)` is `-1`).
pub open spec fn arith_result(op: Native, args: Expr) -> Result<Expr> {
    if args is Cons && *args->Cons_1 is Cons {
        arith_fold(op, *args->Cons_0, *args->Cons_1, *args->Cons_1)
    } else {
        arith_fold(op, arith_identity(op), args, args)
    }
}

fn arith_apply(op: Native, x: &Expr, y: &Expr) -> (r: Result<Expr>)
    requires
        op == Native::Add || op == Native::Sub || op == Native::Mul || op == Native::Div,
    ensures
        r == arith_step(op, *x, *y),
{
    match x {
        Expr::Int(a) => match y {
            Expr::Int(b) => {
                let v = match op {
                    Native::Add => a.checked_add(*b),
                    Native::Sub => a.checked_sub(*b),
                    Native::Mul => a.checked_mul(*b),
                    _ => a.checked_div(*b),
                };
                match v {
                    Some(v) => Ok(Expr::Int(v)),
                    None => Err(Error::InvalidArgument(copy_expr(y))),
                }
            },
            Expr::Float(b) => Ok(Expr::Float(float_apply(op, single_from_int(*a), *b))),
            _ => Err(Error::Type(Type::Int, copy_expr(y))),
        },
        Expr::Float(a) => match y {
            Expr::Int(b) => Ok(Expr::Float(float_apply(op, *a, single_from_int(*b)))),
            Expr::Float(b) => Ok(Expr::Float(float_apply(op, *a, *b))),
            _ => Err(Error::Type(Type::Int, copy_expr(x))),
        },
        _ => Err(Error::Type(Type::Int, copy_expr(x))),
    }
}

fn float_apply(op: Native, a: u32, b: u32) -> (r: u32)
    ensures
        r == float_op(op, a, b),
{
    match op {
        Native::Add => single_add(a, b),
        Native::Sub => single_sub(a, b),
        Native::Mul => single_mul(a, b),
        _ => single_div(a, b),
    }
}

fn arith_fold_from(op: Native, acc: Expr, rest: &Expr, whole: &Expr) -> (r: Result<Expr>)
    requires
        op == Native::Add || op == Native::Sub || op == Native::Mul || op == Native::Div,
    ensures
        r == arith_fold(op, acc, *rest, *whole),
    decreases rest,
{
    match rest {
        Expr::Nil => Ok(acc),
        Expr::Cons(h, t) => match arith_apply(op, &acc, &**h) {
            Ok(a) => arith_fold_from(op, a, &**t, whole),
            Err(e) => Err(e),
        },
        _ => Err(Error::InvalidArgument(copy_expr(whole))),
    }
}

fn k_arith(op: Native, args: &Expr) -> (r: Result<Expr>)
    requires
        op == Native::Add || op == Native::Sub || op == Native::Mul || op == Native::Div,
    ensures
        r == arith_result(op, *args),
{
    match args {
        Expr::Cons(hd, tl) => match &**tl {
            Expr::Cons(_, _) => {
                return arith_fold_from(op, copy_expr(&**hd), &**tl, &**tl);
            },
            _ => {},
        },
        _ => {},
    }
    let init = if matches!(op, Native::Mul) || matches!(op, Native::Div) {
        Expr::Int(1)
    } else {
        Expr::Int(0)
    };
    arith_fold_from(op, init, args, args)
}

/// `(+ x...)`.
pub fn k_add(args: &Expr) -> (r: Result<Expr>)
    ensures
        r == arith_result(Native::Add, *args),
{
    k_arith(Native::Add, args)
}

/// `(- x...)`.
pub fn k_sub(args: &Expr) -> (r: Result<Expr>)
    ensures
        r == arith_result(Native::Sub, *args),
{
    k_arith(Native::Sub, args)
}

/// `(* x...)`.
pub fn k_mul(args: &Expr) -> (r: Result<Expr>)
    ensures
        r == arith_result(Native::Mul, *args),
{
    k_arith(Native::Mul, args)
}

/// `(/ x...)`: integer division rounds toward zero.
pub fn k_div(args: &Expr) -> (r: Result<Expr>)
    ensures
        r == arith_result(Native::Div, *args),
{
    k_arith(Native::Div, args)
}

/// The comparison that a comparison primitive makes.
pub open spec fn cmp_holds(op: Native, x: int, y: int) -> bool {
    match op {
        Native::Gt => x > y,
        Native::Ge => x >= y,
        Native::Lt => x < y,
        Native::Le => x <= y,
        Native::NumEq => x == y,
        _ => x != y,
    }
}

/// A comparison primitive: two integers, and `t` or nil.
pub open spec fn cmp_result_ok(op: Native, args: Expr, r: Result<Expr>) -> bool {
    match match_args(seq![Type::Int, Type::Int], 2, args, 0) {
        Ok(v) => {
            let x = v[0]->Some_0->Int_0 as int;
            let y = v[1]->Some_0->Int_0 as int;
            &&& r is Ok
            &&& cmp_holds(op, x, y) ==> is_sym_t(r->Ok_0)
            &&& !cmp_holds(op, x, y) ==> r->Ok_0 is Nil
        },
        Err(e) => r == Err::<Expr, Error>(e),
    }
}

fn k_cmp(op: Native, args: &Expr) -> (r: Result<Expr>)
    ensures
        cmp_result_ok(op, *args, r),
{
    let vals = get_args(args, &types2(Type::Int, Type::Int), 2)?;
    assert(vals@.len() == 2 && vals@[0] is Some && vals@[1] is Some);
    let x = match arg(&vals, 0) {
        Expr::Int(x) => x,
        _ => 0,
    };
    let y = match arg(&vals, 1) {
        Expr::Int(y) => y,
        _ => 0,
    };
    proof {
        reveal_with_fuel(match_args, 3);
    }
    let b = match op {
        Native::Gt => x > y,
        Native::Ge => x >= y,
        Native::Lt => x < y,
        Native::Le => x <= y,
        Native::NumEq => x == y,
        _ => x != y,
    };
    Ok(kbool(b))
}

/// `(> x y)`.
pub fn k_gt(args: &Expr) -> (r: Result<Expr>)
    ensures
        cmp_result_ok(Native::Gt, *args, r),
{
    k_cmp(Native::Gt, args)
}

/// `(>= x y)`.
pub fn k_ge(args: &Expr) -> (r: Result<Expr>)
    ensures
        cmp_result_ok(Native::Ge, *args, r),
{
    k_cmp(Native::Ge, args)
}

/// `(< x y)`.
pub fn k_lt(args: &Expr) -> (r: Result<Expr>)
    ensures
        cmp_result_ok(Native::Lt, *args, r),
{
    k_cmp(Native::Lt, args)
}

/// `(<= x y)`.
pub fn k_le(args: &Expr) -> (r: Result<Expr>)
    ensures
        cmp_result_ok(Native::Le, *args, r),
{
    k_cmp(Native::Le, args)
}

/// `(= x y)`.
pub fn k_eq(args: &Expr) -> (r: Result<Expr>)
    ensures
        cmp_result_ok(Native::NumEq, *args, r),
{
    k_cmp(Native::NumEq, args)
}

/// `(/= x y)`.
pub fn k_neq(args: &Expr) -> (r: Result<Expr>)
    ensures
        cmp_result_ok(Native::NumNe, *args, r),
{
    k_cmp(Native::NumNe, args)
}

/// The concatenation of a list of strings appended to `acc`.
pub open spec fn concat_fold(acc: Seq<char>, rest: Expr, whole: Expr) -> Result<Seq<char>>
    decreases rest,
{
    match rest {
        Expr::Nil => Ok(acc),
        Expr::Cons(h, t) => match *h {
            Expr::Str(s) => concat_fold(acc + (*s)@, *t, whole),
            _ => Err(Error::Type(Type::Str, *h)),
        },
        _ => Err(Error::InvalidArgument(whole)),
    }
}

fn concat_from(acc: &mut Vec<char>, rest: &Expr, whole: &Expr) -> (r: Result<()>)
    ensures
        match concat_fold(old(acc)@, *rest, *whole) {
            Ok(s) => r is Ok && final(acc)@ == s,
            Err(e) => r == Err::<(), Error>(e),
        },
    decreases rest,
{
    match rest {
        Expr::Nil => Ok(()),
        Expr::Cons(h, t) => match &**h {
            Expr::Str(s) => {
                let cs = chars_of(s.as_str());
                let mut i: usize = 0;
                let ghost start = acc@;
                while i < cs.len()
                    invariant
                        i <= cs@.len(),
                        cs@ == (**s)@,
                        acc@ == start + cs@.subrange(0, i as int),
                    decreases cs@.len() - i,
                {
                    acc.push(cs[i]);
                    i = i + 1;
                    assert(acc@ =~= start + cs@.subrange(0, i as int));
                }
                assert(cs@.subrange(0, cs@.len() as int) =~= cs@);
                concat_from(acc, &**t, whole)
            },
            other => Err(Error::Type(Type::Str, copy_expr(other))),
        },
        _ => Err(Error::InvalidArgument(copy_expr(whole))),
    }
}

/// `(concat s...)`: the strings joined in order.
pub fn k_concat(args: &Expr) -> (r: Result<Expr>)
    ensures
        match concat_fold(Seq::empty(), *args, *args) {
            Ok(s) => r is Ok && r->Ok_0 is Str && (*r->Ok_0->Str_0)@ == s,
            Err(e) => r == Err::<Expr, Error>(e),
        },
{
    let mut acc: Vec<char> = Vec::new();
    concat_from(&mut acc, args, args)?;
    Ok(Expr::Str(Rc::new(string_of(&acc))))
}

/// `(funcall f arg...)`: apply the procedure value `f` to the arguments.
pub fn k_funcall(env: &mut Env, args: &Expr) -> (r: Result<Expr>)
    requires
        old(env).wf(),
    ensures
        final(env).wf(),
        final(env)@ == old(env)@,
        crate::eval::funcall_native_outcome(old(env)@, *args, r, crate::eval::EVAL_DEPTH as nat),
{
    crate::eval::k_funcall_in(env, args, crate::eval::EVAL_DEPTH)
}

/// `(cons a b)`.
pub fn k_cons(args: &Expr) -> (r: Result<Expr>)
    ensures
        match match_args(seq![Type::Any, Type::Any], 2, *args, 0) {
            Ok(v) => r == Ok::<Expr, Error>(
                Expr::Cons(Rc::new(v[0]->Some_0), Rc::new(v[1]->Some_0)),
            ),
            Err(e) => r == Err::<Expr, Error>(e),
        },
{
    let vals = get_args(args, &types2(Type::Any, Type::Any), 2)?;
    assert(vals@.len() == 2 && vals@[0] is Some && vals@[1] is Some);
    Ok(Expr::Cons(Rc::new(arg(&vals, 0)), Rc::new(arg(&vals, 1))))
}

/// `(car pair)`.
pub fn k_car(args: &Expr) -> (r: Result<Expr>)
    ensures
        match match_args(seq![Type::Cons], 1, *args, 0) {
            Ok(v) => r == Ok::<Expr, Error>(*v[0]->Some_0->Cons_0),
            Err(e) => r == Err::<Expr, Error>(e),
        },
{
    let vals = get_args(args, &types1(Type::Cons), 1)?;
    assert(vals@.len() == 1 && vals@[0] is Some);
    proof {
        reveal_with_fuel(match_args, 2);
    }
    match &vals[0] {
        Some(Expr::Cons(a, _)) => Ok(copy_expr(&**a)),
        _ => Err(Error::ArityShort),
    }
}

/// `(cdr pair)`.
pub fn k_cdr(args: &Expr) -> (r: Result<Expr>)
    ensures
        match match_args(seq![Type::Cons], 1, *args, 0) {
            Ok(v) => r == Ok::<Expr, Error>(*v[0]->Some_0->Cons_1),
            Err(e) => r == Err::<Expr, Error>(e),
        },
{
    let vals = get_args(args, &types1(Type::Cons), 1)?;
    assert(vals@.len() == 1 && vals@[0] is Some);
    proof {
        reveal_with_fuel(match_args, 2);
    }
    match &vals[0] {
        Some(Expr::Cons(_, d)) => Ok(copy_expr(&**d)),
        _ => Err(Error::ArityShort),
    }
}

/// What `k_equal_p` returns.
pub open spec fn equal_p_outcome(args: Expr, r: Result<Expr>) -> bool {
    match match_args(seq![Type::Any, Type::Any], 2, args, 0) {
        Ok(v) => r is Ok && (expr_equal(v[0]->Some_0, v[1]->Some_0) ==> is_sym_t(r->Ok_0)) && (
        !expr_equal(v[0]->Some_0, v[1]->Some_0) ==> r->Ok_0 is Nil),
        Err(e) => r == Err::<Expr, Error>(e),
    }
}

/// `(equalp a b)`: `t` when the two are structurally equal, else nil.
pub fn k_equal_p(args: &Expr) -> (r: Result<Expr>)
    ensures
        equal_p_outcome(*args, r),
{
    let vals = get_args(args, &types2(Type::Any, Type::Any), 2)?;
    assert(vals@.len() == 2 && vals@[0] is Some && vals@[1] is Some);
    let x = arg(&vals, 0);
    let y = arg(&vals, 1);
    Ok(kbool(expr_eq(&x, &y)))
}

/// The integer that `t` writes: an optional sign and one or more decimal
/// digits, within the integer range.
pub open spec fn int_text(t: Seq<char>) -> Option<int> {
    let signed = t.len() > 0 && (t[0] == '-' || t[0] == '+');
    let start: int = if signed {
        1
    } else {
        0
    };
    let v = digits_value(t, start, t.len() as int);
    let n = if signed && t[0] == '-' {
        -v
    } else {
        v
    };
    if t.len() <= start || exists|k: int| start <= k < t.len() && !is_digit(#[trigger] t[k]) {
        None
    } else if n < i64::MIN || n > i64::MAX {
        None
    } else {
        Some(n)
    }
}

/// Parse a decimal integer as `str::parse` does for `i64`.
pub fn parse_int(t: &Vec<char>) -> (r: Option<Kint>)
    ensures
        match int_text(t@) {
            Some(n) => r is Some && r->Some_0 as int == n,
            None => r is None,
        },
{
    let signed = t.len() > 0 && (t[0] == '-' || t[0] == '+');
    let neg = signed && t[0] == '-';
    let start: usize = if signed {
        1
    } else {
        0
    };
    assert(signed == (t@.len() > 0 && (t@[0] == '-' || t@[0] == '+')));
    if t.len() <= start {
        return None;
    }
    let mut i = start;
    let mut acc: i128 = 0;
    let limit: i128 = 9_223_372_036_854_775_808;
    while i < t.len()
        invariant
            start <= i <= t@.len(),
            signed == (t@.len() > 0 && (t@[0] == '-' || t@[0] == '+')),
            neg == (signed && t@[0] == '-'),
            start == (if signed {
                1int
            } else {
                0int
            }),
            forall|k: int| start <= k < i ==> is_digit(#[trigger] t@[k]),
            acc as int == digits_value(t@, start as int, i as int),
            0 <= acc <= limit,
            limit == 9_223_372_036_854_775_808,
        decreases t@.len() - i,
    {
        let c = t[i];
        if !('0' <= c && c <= '9') {
            assert(start <= i < t@.len() && !is_digit(t@[i as int]));
            return None;
        }
        let d = (c as u32 - '0' as u32) as i128;
        let next = acc * 10 + d;
        assert(next as int == digits_value(t@, start as int, i + 1));
        if next > limit {
            proof {
                if forall|k: int| start <= k < t@.len() ==> is_digit(#[trigger] t@[k]) {
                    lemma_digits_mono(t@, start as int, i + 1, t@.len() as int);
                } else {
                    let k = choose|k: int| start <= k < t@.len() && !is_digit(#[trigger] t@[k]);
                    assert(start <= k < t@.len() && !is_digit(t@[k]));
                }
            }
            return None;
        }
        acc = next;
        i = i + 1;
    }
    if neg {
        Some((-acc) as i64)
    } else if acc > 9_223_372_036_854_775_807 {
        None
    } else {
        Some(acc as i64)
    }
}

/// What `k_string_to_number` returns.
pub open spec fn string_to_number_outcome(args: Expr, r: Result<Expr>) -> bool {
    match match_args(seq![Type::Str], 1, args, 0) {
        Ok(v) => match int_text((*v[0]->Some_0->Str_0)@) {
            Some(n) => r == Ok::<Expr, Error>(Expr::Int(n as Kint)),
            None => r == Err::<Expr, Error>(Error::InvalidArgument(args)),
        },
        Err(e) => r == Err::<Expr, Error>(e),
    }
}

/// `(string-to-number s)`: the integer that `s` writes.
pub fn k_string_to_number(args: &Expr) -> (r: Result<Expr>)
    ensures
        string_to_number_outcome(*args, r),
{
    let vals = get_args(args, &types1(Type::Str), 1)?;
    assert(vals@.len() == 1 && vals@[0] is Some);
    proof {
        reveal_with_fuel(match_args, 2);
    }
    match &vals[0] {
        Some(Expr::Str(s)) => {
            let t = chars_of(s.as_str());
            match parse_int(&t) {
                Some(n) => Ok(Expr::Int(n)),
                None => Err(Error::InvalidArgument(copy_expr(args))),
            }
        },
        _ => Err(Error::ArityShort),
    }
}

/// What `k_substring` returns.
pub open spec fn substring_outcome(args: Expr, r: Result<Expr>) -> bool {
    match match_args(seq![Type::Str, Type::Int, Type::Int], 1, args, 0) {
        Ok(v) => {
            let s = (*v[0]->Some_0->Str_0)@;
            let start = if v[1] is Some {
                v[1]->Some_0->Int_0 as int
            } else {
                0
            };
            let end = if v[2] is Some {
                v[2]->Some_0->Int_0 as int
            } else {
                s.len() as int
            };
            if 0 <= start <= end < s.len() {
                r is Ok && r->Ok_0 is Str && (*r->Ok_0->Str_0)@ == s.subrange(start, end)
            } else {
                r == Err::<Expr, Error>(Error::InvalidArgument(args))
            }
        },
        Err(e) => r == Err::<Expr, Error>(e),
    }
}

/// `(substring s [start end])`: the characters from `start` up to `end`,
/// where `0 <= start <= end < length`; `start` defaults to 0 and `end` to the
/// length.
pub fn k_substring(args: &Expr) -> (r: Result<Expr>)
    ensures
        substring_outcome(*args, r),
{
    let vals = get_args(args, &types3(Type::Str, Type::Int, Type::Int), 1)?;
    assert(vals@.len() == 3 && vals@[0] is Some);
    proof {
        reveal_with_fuel(match_args, 4);
    }
    let t = match &vals[0] {
        Some(Expr::Str(s)) => chars_of(s.as_str()),
        _ => Vec::new(),
    };
    let len = t.len() as i128;
    let start: i128 = match &vals[1] {
        Some(Expr::Int(x)) => *x as i128,
        _ => 0,
    };
    let end: i128 = match &vals[2] {
        Some(Expr::Int(x)) => *x as i128,
        _ => len,
    };
    if 0 <= start && start <= end && end < len {
        let mut out: Vec<char> = Vec::new();
        let mut i = start as usize;
        let e = end as usize;
        while i < e
            invariant
                0 <= start as int <= i as int <= e as int,
                e as int == end as int,
                (end as int) < t@.len(),
                out@ == t@.subrange(start as int, i as int),
            decreases e - i,
        {
            out.push(t[i]);
            i = i + 1;
            assert(out@ =~= t@.subrange(start as int, i as int));
        }
        Ok(Expr::Str(Rc::new(string_of(&out))))
    } else {
        Err(Error::InvalidArgument(copy_expr(args)))
    }
}

/// The base primitives are bound in the innermost function frame.
pub open spec fn base_top(m: EnvModel) -> bool {
    &&& top_native(m, seq!['+'], Native::Add)
    &&& top_native(m, seq!['-'], Native::Sub)
    &&& top_native(m, seq!['/'], Native::Div)
    &&& top_native(m, seq!['*'], Native::Mul)
    &&& top_native(m, seq!['>'], Native::Gt)
    &&& top_native(m, seq!['>', '='], Native::Ge)
    &&& top_native(m, seq!['<'], Native::Lt)
    &&& top_native(m, seq!['<', '='], Native::Le)
    &&& top_native(m, seq!['='], Native::NumEq)
    &&& top_native(m, seq!['/', '='], Native::NumNe)
    &&& top_native(m, seq!['c', 'o', 'n', 'c', 'a', 't'], Native::Concat)
    &&& top_native(m, seq!['f', 'u', 'n', 'c', 'a', 'l', 'l'], Native::Funcall)
    &&& top_native(m, seq!['c', 'o', 'n', 's'], Native::Cons)
    &&& top_native(m, seq!['c', 'a', 'r'], Native::Car)
    &&& top_native(m, seq!['c', 'd', 'r'], Native::Cdr)
    &&& top_native(m, seq!['e', 'q', 'u', 'a', 'l', 'p'], Native::EqualP)
    &&& top_native(m, seq!['s', 't', 'r', 'i', 'n', 'g', '-', 't', 'o', '-', 'n', 'u', 'm', 'b', 'e', 'r'], Native::StringToNumber)
    &&& top_native(m, seq!['s', 'u', 'b', 's', 't', 'r', 'i', 'n', 'g'], Native::Substring)
}

/// The names this library binds.
pub open spec fn is_base_name(k: Seq<char>) -> bool {
    k == seq!['+']
        || k == seq!['-']
        || k == seq!['/']
        || k == seq!['*']
        || k == seq!['>']
        || k == seq!['>', '=']
        || k == seq!['<']
        || k == seq!['<', '=']
        || k == seq!['=']
        || k == seq!['/', '=']
        || k == seq!['c', 'o', 'n', 'c', 'a', 't']
        || k == seq!['f', 'u', 'n', 'c', 'a', 'l', 'l']
        || k == seq!['c', 'o', 'n', 's']
        || k == seq!['c', 'a', 'r']
        || k == seq!['c', 'd', 'r']
        || k == seq!['e', 'q', 'u', 'a', 'l', 'p']
        || k == seq!['s', 't', 'r', 'i', 'n', 'g', '-', 't', 'o', '-', 'n', 'u', 'm', 'b', 'e', 'r']
        || k == seq!['s', 'u', 'b', 's', 't', 'r', 'i', 'n', 'g']
}

/// The base primitives are bound under their names, and `t` is a value.
pub open spec fn base_installed(m: EnvModel) -> bool {
    &&& native_bound(m, seq!['+'], Native::Add)
    &&& native_bound(m, seq!['-'], Native::Sub)
    &&& native_bound(m, seq!['/'], Native::Div)
    &&& native_bound(m, seq!['*'], Native::Mul)
    &&& native_bound(m, seq!['>'], Native::Gt)
    &&& native_bound(m, seq!['>', '='], Native::Ge)
    &&& native_bound(m, seq!['<'], Native::Lt)
    &&& native_bound(m, seq!['<', '='], Native::Le)
    &&& native_bound(m, seq!['='], Native::NumEq)
    &&& native_bound(m, seq!['/', '='], Native::NumNe)
    &&& native_bound(m, seq!['c', 'o', 'n', 'c', 'a', 't'], Native::Concat)
    &&& native_bound(m, seq!['f', 'u', 'n', 'c', 'a', 'l', 'l'], Native::Funcall)
    &&& native_bound(m, seq!['c', 'o', 'n', 's'], Native::Cons)
    &&& native_bound(m, seq!['c', 'a', 'r'], Native::Car)
    &&& native_bound(m, seq!['c', 'd', 'r'], Native::Cdr)
    &&& native_bound(m, seq!['e', 'q', 'u', 'a', 'l', 'p'], Native::EqualP)
    &&& native_bound(m, seq!['s', 't', 'r', 'i', 'n', 'g', '-', 't', 'o', '-', 'n', 'u', 'm', 'b', 'e', 'r'], Native::StringToNumber)
    &&& native_bound(m, seq!['s', 'u', 'b', 's', 't', 'r', 'i', 'n', 'g'], Native::Substring)
    &&& m.find(seq!['t']) is Some
}

/// Install the base primitives: arithmetic, comparison, strings and pairs,
/// and the value `t`.
pub fn init(env: &mut Env) -> (r: Result<()>)
    requires
        old(env).wf(),
    ensures
        final(env).wf(),
        r is Ok,
        final(env)@.depth() == old(env)@.depth(),
        base_installed(final(env)@),
        base_top(final(env)@),
        final(env)@.vars.last().contains_key(seq!['t']),
        final(env)@.vars.drop_last() == old(env)@.vars.drop_last(),
        final(env)@.funs.drop_last() == old(env)@.funs.drop_last(),
        forall|k: Seq<char>, n: Native|
            !is_base_name(k) && #[trigger] top_native(old(env)@, k, n) ==> top_native(final(env)@, k, n),
        final(env)@.funs.last().dom() == old(env)@.funs.last().dom().union(
            Set::new(|k: Seq<char>| is_base_name(k)),
        ),
        final(env)@.vars.last().dom() == old(env)@.vars.last().dom().insert(seq!['t']),
{
    proof {
        reveal_strlit("+");
        assert("+"@ =~= seq!['+']);
        assert("+"@.len() == 1 && "+"@[0] == '+');
        reveal_strlit("-");
        assert("-"@ =~= seq!['-']);
        assert("-"@.len() == 1 && "-"@[0] == '-');
        reveal_strlit("/");
        assert("/"@ =~= seq!['/']);
        assert("/"@.len() == 1 && "/"@[0] == '/');
        reveal_strlit("*");
        assert("*"@ =~= seq!['*']);
        assert("*"@.len() == 1 && "*"@[0] == '*');
        reveal_strlit(">");
        assert(">"@ =~= seq!['>']);
        assert(">"@.len() == 1 && ">"@[0] == '>');
        reveal_strlit(">=");
        assert(">="@ =~= seq!['>', '=']);
        assert(">="@.len() == 2 && ">="@[0] == '>' && ">="@[1] == '=');
        reveal_strlit("<");
        assert("<"@ =~= seq!['<']);
        assert("<"@.len() == 1 && "<"@[0] == '<');
        reveal_strlit("<=");
        assert("<="@ =~= seq!['<', '=']);
        assert("<="@.len() == 2 && "<="@[0] == '<' && "<="@[1] == '=');
        reveal_strlit("=");
        assert("="@ =~= seq!['=']);
        assert("="@.len() == 1 && "="@[0] == '=');
        reveal_strlit("/=");
        assert("/="@ =~= seq!['/', '=']);
        assert("/="@.len() == 2 && "/="@[0] == '/' && "/="@[1] == '=');
        reveal_strlit("concat");
        assert("concat"@ =~= seq!['c', 'o', 'n', 'c', 'a', 't']);
        assert("concat"@.len() == 6 && "concat"@[0] == 'c' && "concat"@[1] == 'o' && "concat"@[2] == 'n' && "concat"@[3] == 'c' && "concat"@[4] == 'a' && "concat"@[5] == 't');
        reveal_strlit("funcall");
        assert("funcall"@ =~= seq!['f', 'u', 'n', 'c', 'a', 'l', 'l']);
        assert("funcall"@.len() == 7 && "funcall"@[0] == 'f' && "funcall"@[1] == 'u' && "funcall"@[2] == 'n' && "funcall"@[3] == 'c' && "funcall"@[4] == 'a' && "funcall"@[5] == 'l' && "funcall"@[6] == 'l');
        reveal_strlit("cons");
        assert("cons"@ =~= seq!['c', 'o', 'n', 's']);
        assert("cons"@.len() == 4 && "cons"@[0] == 'c' && "cons"@[1] == 'o' && "cons"@[2] == 'n' && "cons"@[3] == 's');
        reveal_strlit("car");
        assert("car"@ =~= seq!['c', 'a', 'r']);
        assert("car"@.len() == 3 && "car"@[0] == 'c' && "car"@[1] == 'a' && "car"@[2] == 'r');
        reveal_strlit("cdr");
        assert("cdr"@ =~= seq!['c', 'd', 'r']);
        assert("cdr"@.len() == 3 && "cdr"@[0] == 'c' && "cdr"@[1] == 'd' && "cdr"@[2] == 'r');
        reveal_strlit("equalp");
        assert("equalp"@ =~= seq!['e', 'q', 'u', 'a', 'l', 'p']);
        assert("equalp"@.len() == 6 && "equalp"@[0] == 'e' && "equalp"@[1] == 'q' && "equalp"@[2] == 'u' && "equalp"@[3] == 'a' && "equalp"@[4] == 'l' && "equalp"@[5] == 'p');
        reveal_strlit("string-to-number");
        assert("string-to-number"@ =~= seq!['s', 't', 'r', 'i', 'n', 'g', '-', 't', 'o', '-', 'n', 'u', 'm', 'b', 'e', 'r']);
        assert("string-to-number"@.len() == 16 && "string-to-number"@[0] == 's' && "string-to-number"@[1] == 't' && "string-to-number"@[2] == 'r' && "string-to-number"@[3] == 'i' && "string-to-number"@[4] == 'n' && "string-to-number"@[5] == 'g' && "string-to-number"@[6] == '-' && "string-to-number"@[7] == 't' && "string-to-number"@[8] == 'o' && "string-to-number"@[9] == '-' && "string-to-number"@[10] == 'n' && "string-to-number"@[11] == 'u' && "string-to-number"@[12] == 'm' && "string-to-number"@[13] == 'b' && "string-to-number"@[14] == 'e' && "string-to-number"@[15] == 'r');
        reveal_strlit("substring");
        assert("substring"@ =~= seq!['s', 'u', 'b', 's', 't', 'r', 'i', 'n', 'g']);
        assert("substring"@.len() == 9 && "substring"@[0] == 's' && "substring"@[1] == 'u' && "substring"@[2] == 'b' && "substring"@[3] == 's' && "substring"@[4] == 't' && "substring"@[5] == 'r' && "substring"@[6] == 'i' && "substring"@[7] == 'n' && "substring"@[8] == 'g');
        reveal_strlit("t");
        assert("t"@ =~= seq!['t']);
        assert("t"@.len() == 1 && "t"@[0] == 't');
    }
    install(env, "+", "k_add", Native::Add);
    install(env, "-", "k_sub", Native::Sub);
    install(env, "/", "k_div", Native::Div);
    install(env, "*", "k_mul", Native::Mul);
    install(env, ">", "k_gt", Native::Gt);
    install(env, ">=", "k_ge", Native::Ge);
    install(env, "<", "k_lt", Native::Lt);
    install(env, "<=", "k_le", Native::Le);
    install(env, "=", "k_eq", Native::NumEq);
    install(env, "/=", "k_neq", Native::NumNe);
    install(env, "concat", "k_concat", Native::Concat);
    install(env, "funcall", "k_funcall", Native::Funcall);
    install(env, "cons", "k_cons", Native::Cons);
    install(env, "car", "k_car", Native::Car);
    install(env, "cdr", "k_cdr", Native::Cdr);
    install(env, "equalp", "k_equal_p", Native::EqualP);
    install(env, "string-to-number", "k_string_to_number", Native::StringToNumber);
    install(env, "substring", "k_substring", Native::Substring);
    let ghost before = env@;
    env.register("t".to_owned(), ksym("t"));
    proof {
        assert(env@.funs == before.funs);
        let m = env@;
        assert(m.vars.last().contains_key(seq!['t']));
        assert(m.vars.drop_last() =~= old(env)@.vars.drop_last());
        assert forall|k: Seq<char>, n: Native| #[trigger] top_native(before, k, n) implies native_bound(
            m,
            k,
            n,
        ) by {
            lemma_top_native_bound(m, k, n);
        }
    }
    proof {
        assert(env@.funs.last().dom() =~= old(env)@.funs.last().dom().union(
            Set::new(|k: Seq<char>| is_base_name(k)),
        ));
    }
    Ok(())
}

} // verus!
