use vstd::prelude::*;
use crate::expr::{Error, Expr, Result, Type, car_of, cdr_of, copy_expr};

verus! {

/// Whether `e` has the shape that the tag `t` names; `Any` admits everything.
pub open spec fn has_type(e: Expr, t: Type) -> bool {
    match t {
        Type::Int => e is Int,
        Type::Float => e is Float,
        Type::Cons => e is Cons,
        Type::Nil => e is Nil,
        Type::Sym => e is Sym,
        Type::Keyword => e is Keyword,
        Type::Str => e is Str,
        Type::Proc => e is Proc,
        Type::Any => true,
    }
}

pub fn check_type(e: &Expr, t: Type) -> (r: bool)
    ensures
        r == has_type(*e, t),
{
    match t {
        Type::Int => matches!(e, Expr::Int(_)),
        Type::Float => matches!(e, Expr::Float(_)),
        Type::Cons => matches!(e, Expr::Cons(_, _)),
        Type::Nil => matches!(e, Expr::Nil),
        Type::Sym => matches!(e, Expr::Sym(_)),
        Type::Keyword => matches!(e, Expr::Keyword(_)),
        Type::Str => matches!(e, Expr::Str(_)),
        Type::Proc => matches!(e, Expr::Proc(_)),
        Type::Any => true,
    }
}

/// Match an argument list against the tags `types[i..]`; the positions
/// from `required` on may be missing. Each position yields its argument, or
/// `None` when it is missing. Too few arguments is `ArityShort`, too many
/// `ArityExceed`, a wrong shape `Type`, and a list that does not end in nil
/// `InvalidArgument` with the tail that is not a list.
pub open spec fn match_args(types: Seq<Type>, required: int, args: Expr, i: int) -> Result<
    Seq<Option<Expr>>,
>
    decreases types.len() - i,
{
    if i >= types.len() || i < 0 {
        if args is Nil {
            Ok(Seq::empty())
        } else {
            Err(Error::ArityExceed)
        }
    } else {
        match args {
            Expr::Cons(h, t) => if has_type(*h, types[i]) {
                match match_args(types, required, *t, i + 1) {
                    Ok(rest) => Ok(seq![Some(*h)] + rest),
                    Err(e) => Err(e),
                }
            } else {
                Err(Error::Type(types[i], *h))
            },
            Expr::Nil => if i < required {
                Err(Error::ArityShort)
            } else {
                Ok(Seq::new((types.len() - i) as nat, |k: int| None))
            },
            _ => Err(Error::InvalidArgument(args)),
        }
    }
}

pub proof fn lemma_match_args_shape(types: Seq<Type>, required: int, args: Expr, i: int)
    requires
        0 <= i <= types.len(),
    ensures
        match_args(types, required, args, i) is Ok ==> {
            let s = match_args(types, required, args, i)->Ok_0;
            &&& s.len() == types.len() - i
            &&& forall|k: int| 0 <= k < required - i && k < s.len() ==> #[trigger] s[k] is Some
        },
    decreases types.len() - i,
{
    if i < types.len() {
        if args is Cons {
            lemma_match_args_shape(types, required, cdr_of(args), i + 1);
            let r = match_args(types, required, args, i);
            if r is Ok {
                let rest = match_args(types, required, cdr_of(args), i + 1)->Ok_0;
                assert(r->Ok_0 == seq![Some(car_of(args))] + rest);
                assert forall|k: int| 0 <= k < required - i && k < r->Ok_0.len() implies #[trigger] r->Ok_0[k] is Some by {
                    if k > 0 {
                        assert(r->Ok_0[k] == rest[k - 1]);
                    }
                }
            }
        }
    }
}

/// The list of tags `[a]`.
pub fn types1(a: Type) -> (r: Vec<Type>)
    ensures
        r@ == seq![a],
{
    let mut v: Vec<Type> = Vec::new();
    v.push(a);
    assert(v@ =~= seq![a]);
    v
}

/// The list of tags `[a, b]`.
pub fn types2(a: Type, b: Type) -> (r: Vec<Type>)
    ensures
        r@ == seq![a, b],
{
    let mut v: Vec<Type> = Vec::new();
    v.push(a);
    v.push(b);
    assert(v@ =~= seq![a, b]);
    v
}

/// The list of tags `[a, b, c]`.
pub fn types3(a: Type, b: Type, c: Type) -> (r: Vec<Type>)
    ensures
        r@ == seq![a, b, c],
{
    let mut v: Vec<Type> = Vec::new();
    v.push(a);
    v.push(b);
    v.push(c);
    assert(v@ =~= seq![a, b, c]);
    v
}

/// The list of tags `[a, b, c, d]`.
pub fn types4(a: Type, b: Type, c: Type, d: Type) -> (r: Vec<Type>)
    ensures
        r@ == seq![a, b, c, d],
{
    let mut v: Vec<Type> = Vec::new();
    v.push(a);
    v.push(b);
    v.push(c);
    v.push(d);
    assert(v@ =~= seq![a, b, c, d]);
    v
}

/// The argument binder every primitive uses: `types` gives the expected tag
/// of each position, and the positions from `required` on are optional.
pub fn get_args(args: &Expr, types: &Vec<Type>, required: usize) -> (r: Result<Vec<Option<Expr>>>)
    requires
        required <= types@.len(),
    ensures
        match match_args(types@, required as int, *args, 0) {
            Ok(s) => r is Ok && r->Ok_0@ == s,
            Err(e) => r == Err::<Vec<Option<Expr>>, Error>(e),
        },
        r is Ok ==> r->Ok_0@.len() == types@.len(),
        r is Ok ==> forall|k: int| 0 <= k < required ==> #[trigger] r->Ok_0@[k] is Some,
{
    proof {
        lemma_match_args_shape(types@, required as int, *args, 0);
    }
    let mut out: Vec<Option<Expr>> = Vec::new();
    let r = match_from(args, types, required, 0, &mut out);
    match r {
        Ok(()) => Ok(out),
        Err(e) => Err(e),
    }
}

fn match_from(
    args: &Expr,
    types: &Vec<Type>,
    required: usize,
    i: usize,
    out: &mut Vec<Option<Expr>>,
) -> (r: Result<()>)
    requires
        i <= types@.len(),
    ensures
        match match_args(types@, required as int, *args, i as int) {
            Ok(s) => r is Ok && final(out)@ == old(out)@ + s,
            Err(e) => r == Err::<(), Error>(e),
        },
    decreases types@.len() - i,
{
    if i >= types.len() {
        return match args {
            Expr::Nil => {
                assert(old(out)@ + Seq::<Option<Expr>>::empty() =~= old(out)@);
                Ok(())
            },
            _ => Err(Error::ArityExceed),
        };
    }
    match args {
        Expr::Cons(h, t) => {
            if check_type(&**h, types[i]) {
                out.push(Some(copy_expr(&**h)));
                let r = match_from(&**t, types, required, i + 1, out);
                proof {
                    let ms = match_args(types@, required as int, cdr_of(*args), i + 1);
                    if ms is Ok {
                        assert(old(out)@ + (seq![Some(car_of(*args))] + ms->Ok_0) =~= old(
                            out,
                        )@.push(Some(car_of(*args))) + ms->Ok_0);
                    }
                }
                r
            } else {
                Err(Error::Type(types[i], copy_expr(&**h)))
            }
        },
        Expr::Nil => {
            if i < required {
                Err(Error::ArityShort)
            } else {
                let mut k = i;
                while k < types.len()
                    invariant
                        i <= k <= types@.len(),
                        out@ == old(out)@ + Seq::new((k - i) as nat, |j: int| None::<Expr>),
                    decreases types@.len() - k,
                {
                    out.push(None);
                    k = k + 1;
                    assert(out@ =~= old(out)@ + Seq::new((k - i) as nat, |j: int| None::<Expr>));
                }
                Ok(())
            }
        },
        _ => Err(Error::InvalidArgument(copy_expr(args))),
    }
}

/// The argument at a position that `get_args` filled.
pub fn arg(vals: &Vec<Option<Expr>>, i: usize) -> (r: Expr)
    requires
        i < vals@.len(),
        vals@[i as int] is Some,
    ensures
        r == vals@[i as int]->Some_0,
{
    match &vals[i] {
        Some(e) => copy_expr(e),
        None => Expr::Nil,
    }
}

} // verus!
