use vstd::prelude::*;
use crate::args::{arg, get_args, match_args, types1, types2, types3, types4};
use crate::env::{Env, EnvModel};
use crate::expr::{Error, Expr, Kint, Native, Result, Type, copy_expr};
use crate::util::{install, klist, lemma_top_native_bound, list_of, native_bound, top_native};

verus! {

/// A point in time: seconds since the epoch and nanoseconds after them.
#[derive(Clone, Copy, Debug, PartialEq, Eq, Structural)]
pub struct Timespec {
    pub sec: i64,
    pub nsec: i32,
}

/// The broken-down local time of an instant.
#[derive(Clone, Copy, Debug, PartialEq, Eq, Structural)]
pub struct DateParts {
    /// Years since 1900.
    pub year: i32,
    /// Months since January, 0 to 11.
    pub month: i32,
    /// Day of the month, 1 to 31.
    pub mday: i32,
    /// Days since Sunday, 0 to 6.
    pub wday: i32,
    pub hour: i32,
    pub min: i32,
    pub sec: i32,
}

pub const LOWER_BITS: i64 = 16;

/// The widest distance from the epoch, in seconds, that this library hands
/// to the local-time conversion (about 34,000 years either way).
pub const SEC_RANGE: i64 = 1_099_511_627_776;

pub open spec fn timespec_ok(sec: int, nsec: int) -> bool {
    -SEC_RANGE <= sec <= SEC_RANGE && 0 <= nsec < 1_000_000_000
}

/// Relies on time::get_time: the clock's seconds and nanoseconds, with the
/// nanoseconds below one second (its `Timespec::new` asserts this).
#[verifier::external_body]
fn clock_now() -> (r: Timespec)
    ensures
        0 <= r.nsec < 1_000_000_000,
{
    let t = time::get_time();
    Timespec { sec: t.sec, nsec: t.nsec }
}

/// Relies on time::at and Tm::ctime: the instant as local time in the
/// form of C's `ctime`. What it says depends on the machine's time zone.
#[verifier::external_body]
fn ctime_text(t: Timespec) -> (r: String)
    requires
        timespec_ok(t.sec as int, t.nsec as int),
{
    let tm = time::at(time::Timespec::new(t.sec, t.nsec));
    format!("{}", tm.ctime())
}

/// Relies on time::at: the instant as broken-down local time, each field in
/// the range that `Tm` documents.
#[verifier::external_body]
pub(crate) fn local_parts(t: Timespec) -> (r: DateParts)
    requires
        timespec_ok(t.sec as int, t.nsec as int),
    ensures
        0 <= r.month <= 11,
        0 <= r.wday <= 6,
        1 <= r.mday <= 31,
        0 <= r.hour <= 23,
        0 <= r.min <= 59,
        0 <= r.sec <= 60,
{
    let tm = time::at(time::Timespec::new(t.sec, t.nsec));
    DateParts {
        year: tm.tm_year,
        month: tm.tm_mon,
        mday: tm.tm_mday,
        wday: tm.tm_wday,
        hour: tm.tm_hour,
        min: tm.tm_min,
        sec: tm.tm_sec,
    }
}

/// The instant that a time list `(high low nsec _)` gives: the seconds are
/// `high * 2^16 + low`.
pub open spec fn timespec_of(args: Expr) -> Result<Timespec> {
    match match_args(seq![Type::Int, Type::Int, Type::Int, Type::Int], 4, args, 0) {
        Ok(v) => {
            let sec = v[0]->Some_0->Int_0 as int * 65536 + v[1]->Some_0->Int_0 as int;
            let nsec = v[2]->Some_0->Int_0 as int;
            if timespec_ok(sec, nsec) {
                Ok(Timespec { sec: sec as i64, nsec: nsec as i32 })
            } else {
                Err(Error::InvalidArgument(args))
            }
        },
        Err(e) => Err(e),
    }
}

/// Read a time list `(high low nsec _)`; an instant outside the supported
/// range is an invalid argument.
pub fn datetime_info_to_timespec(args: &Expr) -> (r: Result<Timespec>)
    ensures
        r == timespec_of(*args),
{
    let vals = get_args(args, &types4(Type::Int, Type::Int, Type::Int, Type::Int), 4)?;
    assert(vals@.len() == 4 && vals@[0] is Some && vals@[1] is Some && vals@[2] is Some);
    let hi = match arg(&vals, 0) {
        Expr::Int(x) => x,
        _ => 0,
    };
    let lo = match arg(&vals, 1) {
        Expr::Int(x) => x,
        _ => 0,
    };
    let nsec = match arg(&vals, 2) {
        Expr::Int(x) => x,
        _ => 0,
    };
    proof {
        reveal_with_fuel(match_args, 5);
    }
    let sec: i128 = hi as i128 * 65536 + lo as i128;
    if sec < -SEC_RANGE as i128 || sec > SEC_RANGE as i128 || nsec < 0 || nsec >= 1_000_000_000 {
        return Err(Error::InvalidArgument(copy_expr(args)));
    }
    Ok(Timespec { sec: sec as i64, nsec: nsec as i32 })
}

/// What `k_current_time` returns: with no arguments, four integers
/// `(high low nsec 0)` where `low` is below 2^16 and `nsec` below 10^9.
pub open spec fn current_time_outcome(args: Expr, r: Result<Expr>) -> bool {
    match match_args(Seq::empty(), 0, args, 0) {
        Ok(_) => r is Ok && exists|hi: i64, lo: i64, ns: i64|
            0 <= lo < 65536 && 0 <= ns < 1_000_000_000 && r->Ok_0 == list_of(
                seq![Expr::Int(hi), Expr::Int(lo), Expr::Int(ns), Expr::Int(0)],
            ),
        Err(e) => r == Err::<Expr, Error>(e),
    }
}

/// `(current-time)`: the clock as `(high low nsec 0)`, where `high` is the
/// seconds shifted right by 16 bits and `low` their lower 16 bits.
pub fn k_current_time(args: &Expr) -> (r: Result<Expr>)
    ensures
        current_time_outcome(*args, r),
{
    get_args(args, &Vec::new(), 0)?;
    let t = clock_now();
    let hi = t.sec >> LOWER_BITS;
    let sec = t.sec;
    let lo = sec & 0xffff;
    assert(0 <= lo < 65536) by (bit_vector)
        requires
            lo == sec & 0xffff,
    ;
    Ok(klist(vec![Expr::Int(hi), Expr::Int(lo), Expr::Int(t.nsec as Kint), Expr::Int(0)]))
}

/// The instant an optional time argument names, or the clock's.
pub(crate) fn instant_of(given: &Option<Expr>) -> (r: Result<Timespec>)
    ensures
        given is Some ==> r == timespec_of(given->Some_0),
        r is Ok ==> timespec_ok(r->Ok_0.sec as int, r->Ok_0.nsec as int),
        given is None && r is Err ==> r->Err_0 is InvalidArgument,
{
    match given {
        Some(st) => datetime_info_to_timespec(st),
        None => {
            let t = clock_now();
            if t.sec < -SEC_RANGE || t.sec > SEC_RANGE {
                Err(Error::InvalidArgument(Expr::Int(t.sec)))
            } else {
                Ok(t)
            }
        },
    }
}

/// What `k_current_time_string` returns.
pub open spec fn current_time_string_outcome(args: Expr, r: Result<Expr>) -> bool {
    match match_args(seq![Type::Any, Type::Any], 0, args, 0) {
        Ok(v) => {
            &&& (v[0] is Some && timespec_of(v[0]->Some_0) is Err) ==> r == Err::<
                Expr,
                Error,
            >(timespec_of(v[0]->Some_0)->Err_0)
            &&& (v[0] is Some && timespec_of(v[0]->Some_0) is Ok) ==> r is Ok && r->Ok_0 is Str
            &&& v[0] is None && r is Err ==> r->Err_0 is InvalidArgument
        },
        Err(e) => r == Err::<Expr, Error>(e),
    }
}

/// `(current-time-string [time])`: the given time, or now, as `ctime` text.
pub fn k_current_time_string(args: &Expr) -> (r: Result<Expr>)
    ensures
        current_time_string_outcome(*args, r),
{
    let vals = get_args(args, &types2(Type::Any, Type::Any), 0)?;
    assert(vals@.len() == 2);
    let t = instant_of(&vals[0])?;
    Ok(Expr::Str(std::rc::Rc::new(ctime_text(t))))
}

/// The clock primitives are bound in the innermost function frame.
pub open spec fn datetime_top(m: EnvModel) -> bool {
    &&& top_native(m, seq!['c', 'u', 'r', 'r', 'e', 'n', 't', '-', 't', 'i', 'm', 'e', '-', 's', 't', 'r', 'i', 'n', 'g'], Native::CurrentTimeString)
    &&& top_native(m, seq!['c', 'u', 'r', 'r', 'e', 'n', 't', '-', 't', 'i', 'm', 'e'], Native::CurrentTime)
}

/// The clock primitives are bound under their names.
pub open spec fn datetime_installed(m: EnvModel) -> bool {
    &&& native_bound(m, seq!['c', 'u', 'r', 'r', 'e', 'n', 't', '-', 't', 'i', 'm', 'e', '-', 's', 't', 'r', 'i', 'n', 'g'], Native::CurrentTimeString)
    &&& native_bound(m, seq!['c', 'u', 'r', 'r', 'e', 'n', 't', '-', 't', 'i', 'm', 'e'], Native::CurrentTime)
}

/// The names this library binds.
pub open spec fn is_datetime_name(k: Seq<char>) -> bool {
    k == seq!['c', 'u', 'r', 'r', 'e', 'n', 't', '-', 't', 'i', 'm', 'e', '-', 's', 't', 'r', 'i', 'n', 'g']
        || k == seq!['c', 'u', 'r', 'r', 'e', 'n', 't', '-', 't', 'i', 'm', 'e']
}

/// Install the clock primitives.
pub fn init(env: &mut Env) -> (r: Result<()>)
    requires
        old(env).wf(),
    ensures
        final(env).wf(),
        r is Ok,
        final(env)@.depth() == old(env)@.depth(),
        final(env)@.vars == old(env)@.vars,
        datetime_top(final(env)@),
        datetime_installed(final(env)@),
        forall|k: Seq<char>, n: Native|
            !is_datetime_name(k) && #[trigger] top_native(old(env)@, k, n) ==> top_native(final(env)@, k, n),
        final(env)@.funs.last().dom() == old(env)@.funs.last().dom().union(
            Set::new(|k: Seq<char>| is_datetime_name(k)),
        ),
{
    proof {
        reveal_strlit("current-time-string");
        assert("current-time-string"@ =~= seq!['c', 'u', 'r', 'r', 'e', 'n', 't', '-', 't', 'i', 'm', 'e', '-', 's', 't', 'r', 'i', 'n', 'g']);
        assert("current-time-string"@.len() == 19 && "current-time-string"@[0] == 'c' && "current-time-string"@[1] == 'u' && "current-time-string"@[2] == 'r' && "current-time-string"@[3] == 'r' && "current-time-string"@[4] == 'e' && "current-time-string"@[5] == 'n' && "current-time-string"@[6] == 't' && "current-time-string"@[7] == '-' && "current-time-string"@[8] == 't' && "current-time-string"@[9] == 'i' && "current-time-string"@[10] == 'm' && "current-time-string"@[11] == 'e' && "current-time-string"@[12] == '-' && "current-time-string"@[13] == 's' && "current-time-string"@[14] == 't' && "current-time-string"@[15] == 'r' && "current-time-string"@[16] == 'i' && "current-time-string"@[17] == 'n' && "current-time-string"@[18] == 'g');
        reveal_strlit("current-time");
        assert("current-time"@ =~= seq!['c', 'u', 'r', 'r', 'e', 'n', 't', '-', 't', 'i', 'm', 'e']);
        assert("current-time"@.len() == 12 && "current-time"@[0] == 'c' && "current-time"@[1] == 'u' && "current-time"@[2] == 'r' && "current-time"@[3] == 'r' && "current-time"@[4] == 'e' && "current-time"@[5] == 'n' && "current-time"@[6] == 't' && "current-time"@[7] == '-' && "current-time"@[8] == 't' && "current-time"@[9] == 'i' && "current-time"@[10] == 'm' && "current-time"@[11] == 'e');
    }
    install(env, "current-time-string", "k_current_time_string", Native::CurrentTimeString);
    install(env, "current-time", "k_current_time", Native::CurrentTime);
    proof {
        assert forall|k: Seq<char>, n: Native| #[trigger] top_native(env@, k, n) implies native_bound(env@, k, n) by {
            lemma_top_native_bound(env@, k, n);
        }
    }
    proof {
        assert(env@.funs.last().dom() =~= old(env)@.funs.last().dom().union(
            Set::new(|k: Seq<char>| is_datetime_name(k)),
        ));
    }
    Ok(())
}

} // verus!
