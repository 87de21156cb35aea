use vstd::prelude::*;
use crate::base;
use crate::datetime;
use crate::env::Env;
use crate::env::EnvModel;
use crate::eval::{EVAL_DEPTH, eval, eval_outcome, only_top_changed};
use crate::expr::{Error, Expr, Result};
use crate::read::{parse_form, read};
use crate::expr::Native;
use crate::skk;
use crate::util::{lemma_top_native_bound, lemma_witnessed, native_bound, top_native, witnessed};
use crate::stdlib;

verus! {

/// The function names the libraries bind.
pub open spec fn is_library_name(k: Seq<char>) -> bool {
    base::is_base_name(k) || datetime::is_datetime_name(k) || skk::is_skk_name(k)
        || stdlib::is_prelude_name(k)
}

/// Install every library in `env`: the base primitives, the clock, the
/// date and calculator primitives, and the prelude.
pub fn init(env: &mut Env) -> (r: Result<()>)
    requires
        old(env).wf(),
    ensures
        final(env).wf(),
        r is Ok,
        final(env)@.depth() == old(env)@.depth(),
        base::base_installed(final(env)@),
        datetime::datetime_installed(final(env)@),
        stdlib::prelude_installed(final(env)@),
        skk::skk_installed(final(env)@),
        final(env)@.funs.last().dom() == old(env)@.funs.last().dom().union(
            Set::new(|k: Seq<char>| is_library_name(k)),
        ),
        final(env)@.vars.last().dom() == old(env)@.vars.last().dom().insert(seq!['t']),
{
    let r1 = base::init(env);
    let ghost m1 = env@;
    let r2 = datetime::init(env);
    let ghost m2 = env@;
    let r3 = skk::init(env);
    let r4 = stdlib::init(env);
    proof {
        let m = env@;
        assert(base::base_top(m));
        assert(datetime::datetime_top(m));
        assert(skk::skk_top(m));
        assert(stdlib::prelude_top(m));
        assert(m.vars == m1.vars);
        assert forall|k: Seq<char>, n: Native| #[trigger] top_native(m, k, n) implies native_bound(m, k, n) by {
            lemma_top_native_bound(m, k, n);
        }
        assert(m.funs.last().dom() =~= old(env)@.funs.last().dom().union(
            Set::new(|k: Seq<char>| is_library_name(k)),
        ));
    }
    Ok(())
}

/// An environment as `init` leaves a fresh one: no local frame, every
/// library installed, and nothing else bound: no function but the
/// libraries', no value but `t`.
pub open spec fn initialised(m: EnvModel) -> bool {
    &&& m.wf()
    &&& m.depth() == 0
    &&& base::base_installed(m)
    &&& datetime::datetime_installed(m)
    &&& stdlib::prelude_installed(m)
    &&& skk::skk_installed(m)
    &&& forall|k: Seq<char>| !is_library_name(k) ==> #[trigger] m.ffind(k) is None
    &&& forall|k: Seq<char>| k != seq!['t'] ==> #[trigger] m.find(k) is None
}

/// Read one form from `sexp` and evaluate it in `env`: text that does not
/// read is a `ReadError`; otherwise the result and the environment are
/// those of evaluating the form read.
pub fn run(env: &mut Env, sexp: &str) -> (r: Result<Expr>)
    requires
        old(env).wf(),
    ensures
        final(env).wf(),
        only_top_changed(old(env)@, final(env)@),
        parse_form(sexp@, 0) is None ==> r == Err::<Expr, Error>(Error::ReadError)
            && final(env)@ == old(env)@,
        parse_form(sexp@, 0) is Some ==> exists|e: Expr|
            #[trigger] witnessed(e) && e@ == parse_form(sexp@, 0)->Some_0.0 && eval_outcome(
                old(env)@,
                e,
                r,
                final(env)@,
                EVAL_DEPTH as nat,
            ),
{
    proof {
        assert(only_top_changed(old(env)@, env@));
    }
    let expr = read(sexp)?;
    proof {
        lemma_witnessed(expr);
    }
    eval(env, &expr)
}

/// Evaluate one form in a fresh, fully initialised environment.
pub fn run_new(sexp: &str) -> (r: Result<Expr>)
    ensures
        parse_form(sexp@, 0) is None ==> r == Err::<Expr, Error>(Error::ReadError),
        parse_form(sexp@, 0) is Some ==> exists|m0: EnvModel, e: Expr, m2: EnvModel|
            #[trigger] witnessed((m0, e, m2)) && initialised(m0) && e@ == parse_form(sexp@, 0)->Some_0.0
                && eval_outcome(m0, e, r, m2, EVAL_DEPTH as nat),
{
    let mut env = Env::new();
    let ghost fresh = env@;
    init(&mut env)?;
    let ghost m0 = env@;
    proof {
        assert forall|k: Seq<char>| !is_library_name(k) implies #[trigger] m0.ffind(k) is None by {
            assert(!m0.funs.last().contains_key(k));
            assert(m0.funs.drop_last().len() == 0);
            reveal_with_fuel(crate::env::scope_find, 2);
        }
        assert forall|k: Seq<char>| k != seq!['t'] implies #[trigger] m0.find(k) is None by {
            assert(!m0.vars.last().contains_key(k));
            assert(m0.vars.drop_last().len() == 0);
            reveal_with_fuel(crate::env::scope_find, 2);
        }
    }
    let expr = read(sexp)?;
    let r = eval(&mut env, &expr);
    proof {
        lemma_witnessed((m0, expr, env@));
    }
    r
}

} // verus!
