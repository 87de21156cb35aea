use vstd::prelude::*;
use std::rc::Rc;
use crate::expr::{Error, Expr, Kint, Native, Proc, Type, copy_expr};

verus! {

/// The proper list of the items of `s`.
pub open spec fn list_of(s: Seq<Expr>) -> Expr
    decreases s.len(),
{
    if s.len() == 0 {
        Expr::Nil
    } else {
        Expr::Cons(Rc::new(s[0]), Rc::new(list_of(s.drop_first())))
    }
}

/// A marker for the value chosen for an existential: it always holds, and
/// `lemma_witnessed` states so.
pub closed spec fn witnessed<A>(a: A) -> bool {
    true
}

pub proof fn lemma_witnessed<A>(a: A)
    ensures
        witnessed(a),
{
}

/// `t` for true, nil for false.
pub fn kbool(b: bool) -> (r: Expr)
    ensures
        b ==> is_sym_t(r),
        !b ==> r is Nil,
{
    proof {
        reveal_strlit("t");
        assert("t"@ =~= seq!['t']);
    }
    if b {
        ksym("t")
    } else {
        Expr::Nil
    }
}

/// `e` is the symbol `t`.
pub open spec fn is_sym_t(e: Expr) -> bool {
    e is Sym && (*e->Sym_0)@ == seq!['t']
}

pub fn kint(i: Kint) -> (r: Expr)
    ensures
        r == Expr::Int(i),
{
    Expr::Int(i)
}

/// The float whose single-precision bit pattern is `bits`.
pub fn kfloat(bits: u32) -> (r: Expr)
    ensures
        r == Expr::Float(bits),
{
    Expr::Float(bits)
}

pub fn kcons(car: Expr, cdr: Expr) -> (r: Expr)
    ensures
        r == Expr::Cons(Rc::new(car), Rc::new(cdr)),
{
    Expr::Cons(Rc::new(car), Rc::new(cdr))
}

pub fn knil() -> (r: Expr)
    ensures
        r is Nil,
{
    Expr::Nil
}

pub fn ksym(s: &str) -> (r: Expr)
    ensures
        r is Sym,
        (*r->Sym_0)@ == s@,
{
    Expr::Sym(Rc::new(s.to_owned()))
}

pub fn kkw(s: &str) -> (r: Expr)
    ensures
        r is Keyword,
        (*r->Keyword_0)@ == s@,
{
    Expr::Keyword(Rc::new(s.to_owned()))
}

pub fn kstr(s: &str) -> (r: Expr)
    ensures
        r is Str,
        (*r->Str_0)@ == s@,
{
    Expr::Str(Rc::new(s.to_owned()))
}

pub fn kproc(p: Proc) -> (r: Expr)
    ensures
        r == Expr::Proc(p),
{
    Expr::Proc(p)
}

/// The macro marker `(macro . p)`.
pub fn kmacro(p: Proc) -> (r: Expr)
    ensures
        r is Cons,
        is_sym_named(*r->Cons_0, seq!['m', 'a', 'c', 'r', 'o']),
        *r->Cons_1 == Expr::Proc(p),
{
    proof {
        reveal_strlit("macro");
        assert("macro"@ =~= seq!['m', 'a', 'c', 'r', 'o']);
    }
    kcons(ksym("macro"), Expr::Proc(p))
}

/// `e` is the symbol named `s`.
pub open spec fn is_sym_named(e: Expr, s: Seq<char>) -> bool {
    e is Sym && (*e->Sym_0)@ == s
}

pub fn klambda(param: Expr, body: Expr) -> (r: Proc)
    ensures
        r == Proc::Lambda(Rc::new(param), Rc::new(body)),
{
    Proc::Lambda(Rc::new(param), Rc::new(body))
}

pub fn kprim(name: &str, f: Native) -> (r: Proc)
    ensures
        r is Prim,
        r->Prim_0@ == name@,
        r->Prim_1 == f,
{
    Proc::Prim(name.to_owned(), f)
}

/// `name` is bound in the function namespace of `m` to a primitive that
/// runs the native `n`.
pub open spec fn native_bound(m: crate::env::EnvModel, name: Seq<char>, n: Native) -> bool {
    &&& m.ffind(name) is Some
    &&& m.ffind(name)->Some_0 is Prim
    &&& m.ffind(name)->Some_0->Prim_1 == n
}

/// The innermost function frame of `m` binds `name` to a primitive running `n`.
pub open spec fn top_native(m: crate::env::EnvModel, name: Seq<char>, n: Native) -> bool {
    &&& m.funs.last().contains_key(name)
    &&& m.funs.last()[name] is Prim
    &&& m.funs.last()[name]->Prim_1 == n
}

pub proof fn lemma_top_native_bound(m: crate::env::EnvModel, name: Seq<char>, n: Native)
    requires
        m.wf(),
        top_native(m, name, n),
    ensures
        native_bound(m, name, n),
{
}

/// Bind `name` in the innermost function frame to the primitive `n`, called
/// `label`; the other bindings of that frame stay.
pub fn install(env: &mut crate::env::Env, name: &str, label: &str, n: Native)
    requires
        old(env).wf(),
    ensures
        final(env).wf(),
        final(env)@.vars == old(env)@.vars,
        final(env)@.funs.len() == old(env)@.funs.len(),
        final(env)@.funs.drop_last() == old(env)@.funs.drop_last(),
        top_native(final(env)@, name@, n),
        forall|k: Seq<char>, n2: Native|
            k != name@ && #[trigger] top_native(old(env)@, k, n2) ==> top_native(final(env)@, k, n2),
        final(env)@.funs.last().dom() == old(env)@.funs.last().dom().insert(name@),
{
    env.fregister(name.to_owned(), kprim(label, n));
    assert(env@.funs.drop_last() =~= old(env)@.funs.drop_last());
}

/// A procedure is a macro when it wraps a list headed by the symbol `macro`.
pub open spec fn proc_is_macro(p: Proc) -> bool {
    p is Expr && (*p->Expr_0) is Cons && is_sym_named(*(*p->Expr_0)->Cons_0, seq!['m', 'a', 'c', 'r', 'o'])
}

pub fn is_macro(p: &Proc) -> (r: bool)
    ensures
        r == proc_is_macro(*p),
{
    proof {
        reveal_strlit("macro");
        assert("macro"@ =~= seq!['m', 'a', 'c', 'r', 'o']);
    }
    match p {
        Proc::Expr(e) => match &**e {
            Expr::Cons(head, _) => match &**head {
                Expr::Sym(s) => str_is(s, "macro"),
                _ => false,
            },
            _ => false,
        },
        _ => false,
    }
}

/// Whether the string `s` reads `t`.
pub fn str_is(s: &String, t: &str) -> (r: bool)
    ensures
        r == (s@ == t@),
{
    let ts = t.to_owned();
    *s == ts
}

pub fn car(cons: &Expr) -> (r: Result<Expr, Error>)
    ensures
        cons is Cons ==> r == Ok::<Expr, Error>(*cons->Cons_0),
        !(cons is Cons) ==> r == Err::<Expr, Error>(Error::Type(Type::Cons, *cons)),
{
    match cons {
        Expr::Cons(a, _) => Ok(copy_expr(a)),
        arg => Err(Error::Type(Type::Cons, copy_expr(arg))),
    }
}

pub fn cdr(cons: &Expr) -> (r: Result<Expr, Error>)
    ensures
        cons is Cons ==> r == Ok::<Expr, Error>(*cons->Cons_1),
        !(cons is Cons) ==> r == Err::<Expr, Error>(Error::Type(Type::Cons, *cons)),
{
    match cons {
        Expr::Cons(_, d) => Ok(copy_expr(d)),
        arg => Err(Error::Type(Type::Cons, copy_expr(arg))),
    }
}

/// The proper list of `items`, in order.
pub fn klist(items: Vec<Expr>) -> (r: Expr)
    ensures
        r == list_of(items@),
{
    let mut acc = Expr::Nil;
    let mut i: usize = items.len();
    let ghost s = items@;
    let mut items = items;
    while i > 0
        invariant
            i <= s.len(),
            items@ == s.subrange(0, i as int),
            acc == list_of(s.subrange(i as int, s.len() as int)),
        decreases i,
    {
        let x = items.pop().unwrap();
        i = i - 1;
        proof {
            assert(s.subrange(i as int, s.len() as int).drop_first() =~= s.subrange(
                i + 1,
                s.len() as int,
            ));
        }
        acc = kcons(x, acc);
        assert(items@ =~= s.subrange(0, i as int));
    }
    assert(s.subrange(0, s.len() as int) =~= s);
    acc
}

} // verus!
