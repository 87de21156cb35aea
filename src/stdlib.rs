use vstd::prelude::*;
use std::rc::Rc;
use crate::env::{Env, EnvModel};
use crate::eval::{EVAL_DEPTH, eval, eval_outcome, only_top_changed};
use crate::expr::{Error, Expr, Native, Proc, Result};
use crate::util::{klambda, klist, knil, ksym, lemma_witnessed, proc_is_macro, top_native, witnessed};
use crate::read::{Cursor, parse_form, read_in};

verus! {

/// Loading the text `s` from position `p` on in `m`: each form that reads
/// is evaluated in turn, in the environment the previous one left; the
/// first error stops it, and the end of what reads ends it with `Ok`.
pub open spec fn load_outcome(s: Seq<char>, p: int, m: EnvModel, r: Result<()>, m2: EnvModel) -> bool
    decreases s.len() - p,
{
    match parse_form(s, p) {
        None => r == Ok::<(), Error>(()) && m2 == m,
        Some((x, q)) => if q <= p || q > s.len() {
            false
        } else {
            exists|e: Expr, v: Result<Expr>, m1: EnvModel|
                #[trigger] witnessed((e, v, m1)) && e@ == x && eval_outcome(
                    m,
                    e,
                    v,
                    m1,
                    EVAL_DEPTH as nat,
                ) && match v {
                    Err(er) => r == Err::<(), Error>(er) && m2 == m1,
                    Ok(_) => load_outcome(s, q, m1, r, m2),
                }
        },
    }
}

/// Read and evaluate every form of `source` in order, stopping at the first
/// error.
pub fn load(env: &mut Env, source: &str) -> (r: Result<()>)
    requires
        old(env).wf(),
    ensures
        final(env).wf(),
        only_top_changed(old(env)@, final(env)@),
        load_outcome(source@, 0, old(env)@, r, final(env)@),
{
    let mut input = Cursor::new(source);
    let ghost n = input.text().len();
    assert(only_top_changed(old(env)@, env@));
    loop
        invariant
            env.wf(),
            input.wf(),
            input.text() == source@,
            input.text().len() == n,
            0 <= input.position() <= n,
            only_top_changed(old(env)@, env@),
            forall|r2: Result<()>, m2: EnvModel|
                #[trigger] load_outcome(source@, input.position(), env@, r2, m2)
                    ==> load_outcome(source@, 0, old(env)@, r2, m2),
        decreases n - input.position(),
    {
        let ghost before = env@;
        let ghost p0 = input.position();
        match read_in(&mut input) {
            Some(e) => {
                proof {
                    input.lemma_position_bound();
                }
                let v = eval(env, &e);
                let ghost after = env@;
                proof {
                    lemma_witnessed((e, v, after));
                }
                match v {
                    Err(er) => {
                        proof {
                            assert(load_outcome(source@, p0, before, Err::<(), Error>(er), after));
                        }
                        return Err(er);
                    },
                    Ok(_) => {
                        proof {
                            assert forall|r2: Result<()>, m2: EnvModel|
                                #[trigger] load_outcome(source@, input.position(), after, r2, m2)
                                implies load_outcome(source@, 0, old(env)@, r2, m2) by {
                                assert(load_outcome(source@, p0, before, r2, m2));
                            }
                        }
                    },
                }
            },
            None => {
                proof {
                    assert(load_outcome(source@, p0, before, Ok::<(), Error>(()), before));
                }
                return Ok(());
            },
        }
    }
}

/// The prelude is bound in the innermost function frame: `list` and `assoc`
/// to lambdas, `defun` to a macro.
pub open spec fn prelude_top(m: EnvModel) -> bool {
    let f = m.funs.last();
    &&& f.contains_key(seq!['l', 'i', 's', 't']) && f[seq!['l', 'i', 's', 't']] is Lambda
    &&& f.contains_key(seq!['d', 'e', 'f', 'u', 'n']) && proc_is_macro(f[seq!['d', 'e', 'f', 'u', 'n']])
    &&& f.contains_key(seq!['a', 's', 's', 'o', 'c']) && f[seq!['a', 's', 's', 'o', 'c']] is Lambda
}

/// The prelude is bound: `list` and `assoc` to lambdas, `defun` to a macro.
pub open spec fn prelude_installed(m: EnvModel) -> bool {
    &&& m.ffind(seq!['l', 'i', 's', 't']) is Some && m.ffind(seq!['l', 'i', 's', 't'])->Some_0 is Lambda
    &&& m.ffind(seq!['d', 'e', 'f', 'u', 'n']) is Some && proc_is_macro(
        m.ffind(seq!['d', 'e', 'f', 'u', 'n'])->Some_0,
    )
    &&& m.ffind(seq!['a', 's', 's', 'o', 'c']) is Some && m.ffind(
        seq!['a', 's', 's', 'o', 'c'],
    )->Some_0 is Lambda
}

/// The names the prelude binds.
pub open spec fn is_prelude_name(k: Seq<char>) -> bool {
    k == seq!['l', 'i', 's', 't'] || k == seq!['d', 'e', 'f', 'u', 'n'] || k == seq!['a', 's', 's', 'o', 'c']
}

/// `(quote x)`.
fn quoted(x: Expr) -> (r: Expr) {
    klist(vec![ksym("quote"), x])
}

/// `(lambda (&rest items) items)`: the list of its arguments.
fn list_proc() -> (r: Proc)
    ensures
        r is Lambda,
{
    klambda(
        klist(vec![ksym("&rest"), ksym("items")]),
        klist(vec![ksym("progn"), ksym("items")]),
    )
}

/// The macro `(defun name params . body)`, which expands to
/// `(fset 'name (lambda params . body))`.
fn defun_proc() -> (r: Proc)
    ensures
        proc_is_macro(r),
{
    proof {
        reveal_strlit("macro");
        assert("macro"@ =~= seq!['m', 'a', 'c', 'r', 'o']);
    }
    let params = klist(vec![ksym("name"), ksym("params"), ksym("&rest"), ksym("body")]);
    let expansion = klist(
        vec![
            ksym("list"),
            quoted(ksym("fset")),
            klist(vec![ksym("list"), quoted(ksym("quote")), ksym("name")]),
            klist(
                vec![
                    ksym("cons"),
                    quoted(ksym("lambda")),
                    klist(vec![ksym("cons"), ksym("params"), ksym("body")]),
                ],
            ),
        ],
    );
    let head = ksym("macro");
    let ghost h = head;
    let items = vec![head, ksym("lambda"), params, expansion];
    assert(items@[0] == h);
    let e = klist(items);
    assert(e == crate::util::list_of(items@));
    reveal_with_fuel(crate::util::list_of, 2);
    Proc::Expr(Rc::new(e))
}

/// `(lambda (key alist) ...)`: the first pair of `alist` whose head is
/// `equalp` to `key`, or nil.
fn assoc_proc() -> (r: Proc)
    ensures
        r is Lambda,
{
    let first = klist(vec![ksym("car"), ksym("alist")]);
    let test = klist(vec![ksym("equalp"), ksym("key"), klist(vec![ksym("car"), first])]);
    let again = klist(vec![ksym("assoc"), ksym("key"), klist(vec![ksym("cdr"), ksym("alist")])]);
    let inner = klist(vec![ksym("if"), test, klist(vec![ksym("car"), ksym("alist")]), again]);
    let body = klist(vec![ksym("if"), ksym("alist"), inner, knil()]);
    klambda(klist(vec![ksym("key"), ksym("alist")]), klist(vec![ksym("progn"), body]))
}

/// Bind `name` to `p` in the innermost function frame.
fn bind_proc(env: &mut Env, name: &str, p: Proc)
    requires
        old(env).wf(),
    ensures
        final(env).wf(),
        final(env)@.vars == old(env)@.vars,
        final(env)@.funs.len() == old(env)@.funs.len(),
        final(env)@.funs.drop_last() == old(env)@.funs.drop_last(),
        final(env)@.funs.last() == old(env)@.funs.last().insert(name@, p),
{
    env.fregister(name.to_owned(), p);
    assert(env@.funs.drop_last() =~= old(env)@.funs.drop_last());
}

/// Install the prelude: `list`, the `defun` macro and `assoc`.
pub fn init(env: &mut Env) -> (r: Result<()>)
    requires
        old(env).wf(),
    ensures
        final(env).wf(),
        r is Ok,
        final(env)@.vars == old(env)@.vars,
        final(env)@.funs.len() == old(env)@.funs.len(),
        final(env)@.funs.drop_last() == old(env)@.funs.drop_last(),
        prelude_top(final(env)@),
        forall|k: Seq<char>, n: Native|
            !is_prelude_name(k) && #[trigger] top_native(old(env)@, k, n) ==> top_native(final(env)@, k, n),
        final(env)@.funs.last().dom() == old(env)@.funs.last().dom().union(
            Set::new(|k: Seq<char>| is_prelude_name(k)),
        ),
{
    proof {
        reveal_strlit("list");
        assert("list"@ =~= seq!['l', 'i', 's', 't']);
        assert("list"@.len() == 4 && "list"@[0] == 'l' && "list"@[1] == 'i' && "list"@[2] == 's' && "list"@[3] == 't');
        reveal_strlit("defun");
        assert("defun"@ =~= seq!['d', 'e', 'f', 'u', 'n']);
        assert("defun"@.len() == 5 && "defun"@[0] == 'd' && "defun"@[1] == 'e' && "defun"@[2] == 'f' && "defun"@[3] == 'u' && "defun"@[4] == 'n');
        reveal_strlit("assoc");
        assert("assoc"@ =~= seq!['a', 's', 's', 'o', 'c']);
        assert("assoc"@.len() == 5 && "assoc"@[0] == 'a' && "assoc"@[1] == 's' && "assoc"@[2] == 's' && "assoc"@[3] == 'o' && "assoc"@[4] == 'c');
    }
    bind_proc(env, "list", list_proc());
    bind_proc(env, "defun", defun_proc());
    bind_proc(env, "assoc", assoc_proc());
    proof {
        assert(env@.funs.last().dom() =~= old(env)@.funs.last().dom().union(
            Set::new(|k: Seq<char>| is_prelude_name(k)),
        ));
    }
    Ok(())
}

} // verus!
