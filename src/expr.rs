use vstd::prelude::*;
use std::rc::Rc;

verus! {

/// The integer type of the language.
pub type Kint = i64;

/// Expressions: the values the reader produces and the evaluator works on.
/// A float is held as the bit pattern of an IEEE-754 single-precision number.
#[derive(Debug)]
pub enum Expr {
    Int(Kint),
    Float(u32),
    Cons(Rc<Expr>, Rc<Expr>),
    Nil,
    Sym(Rc<String>),
    Keyword(Rc<String>),
    Str(Rc<String>),
    Proc(Proc),
}

/// Type tags used in diagnostics.
#[derive(PartialEq, Eq, Structural, Clone, Copy, Debug)]
pub enum Type {
    Int,
    Float,
    Cons,
    Nil,
    Sym,
    Keyword,
    Str,
    Proc,
    Any,
}

/// The native functions that the libraries install. The set is closed:
/// a primitive names one of these, and the evaluator dispatches on it.
#[derive(PartialEq, Eq, Structural, Clone, Copy, Debug)]
pub enum Native {
    Add,
    Sub,
    Mul,
    Div,
    Gt,
    Ge,
    Lt,
    Le,
    NumEq,
    NumNe,
    Concat,
    Funcall,
    Cons,
    Car,
    Cdr,
    EqualP,
    StringToNumber,
    Substring,
    CurrentTime,
    CurrentTimeString,
    SkkCalc,
    SkkCurrentDate1,
    SkkCurrentDate,
    SkkDefaultCurrentDate,
}

/// Procedures: user lambdas, native primitives, and wrapped expressions
/// (a wrapped `(macro . f)` marks a macro transformer).
#[derive(Debug)]
pub enum Proc {
    Lambda(Rc<Expr>, Rc<Expr>),
    Prim(String, Native),
    Expr(Rc<Expr>),
}

/// Errors shared by the reader and the evaluator.
#[derive(Debug)]
pub enum Error {
    ReadError,
    InvalidArgument(Expr),
    Type(Type, Expr),
    ArityShort,
    ArityExceed,
    Form(Expr),
    NotFunction(Expr),
    Unbound(String),
    User(String),
    /// Evaluation nested deeper than the evaluator's budget.
    TooDeep,
}

pub type Result<T> = core::result::Result<T, Error>;

/// IEEE-754 single-precision equality on bit patterns: NaN equals nothing,
/// and the two zeros are equal.
pub open spec fn single_eq(x: u32, y: u32) -> bool {
    &&& !single_is_nan(x)
    &&& !single_is_nan(y)
    &&& (x == y || (x & 0x7fff_ffffu32 == 0 && y & 0x7fff_ffffu32 == 0))
}

pub open spec fn single_is_nan(x: u32) -> bool {
    x & 0x7f80_0000u32 == 0x7f80_0000u32 && x & 0x007f_ffffu32 != 0
}

/// Structural equality: deep on data; two lambdas are equal when their
/// parameters and bodies are; other procedures equal nothing.
pub open spec fn expr_equal(a: Expr, b: Expr) -> bool
    decreases a,
{
    match a {
        Expr::Int(x) => b is Int && b->Int_0 == x,
        Expr::Float(x) => b is Float && single_eq(x, b->Float_0),
        Expr::Cons(x1, y1) => match b {
            Expr::Cons(x2, y2) => expr_equal(*x1, *x2) && expr_equal(*y1, *y2),
            _ => false,
        },
        Expr::Nil => b is Nil,
        Expr::Sym(s) => b is Sym && (*b->Sym_0)@ == (*s)@,
        Expr::Keyword(s) => b is Keyword && (*b->Keyword_0)@ == (*s)@,
        Expr::Str(s) => b is Str && (*b->Str_0)@ == (*s)@,
        Expr::Proc(p) => match p {
            Proc::Lambda(p1, b1) => match b {
                Expr::Proc(Proc::Lambda(p2, b2)) => expr_equal(*p1, *p2) && expr_equal(*b1, *b2),
                _ => false,
            },
            _ => false,
        },
    }
}

pub open spec fn proc_equal(p: Proc, q: Proc) -> bool {
    expr_equal(Expr::Proc(p), Expr::Proc(q))
}

pub open spec fn error_equal(a: Error, b: Error) -> bool {
    match a {
        Error::ReadError => b is ReadError,
        Error::InvalidArgument(x) => b is InvalidArgument && expr_equal(x, b->InvalidArgument_0),
        Error::Type(t, x) => b is Type && b->Type_0 == t && expr_equal(x, b->Type_1),
        Error::ArityShort => b is ArityShort,
        Error::ArityExceed => b is ArityExceed,
        Error::Form(x) => b is Form && expr_equal(x, b->Form_0),
        Error::NotFunction(x) => b is NotFunction && expr_equal(x, b->NotFunction_0),
        Error::Unbound(s) => b is Unbound && b->Unbound_0@ == s@,
        Error::User(s) => b is User && b->User_0@ == s@,
        Error::TooDeep => b is TooDeep,
    }
}

/// The mathematical form of an expression: atoms carry their text, and a
/// procedure is opaque.
pub enum Sexp {
    Int(int),
    Float(u32),
    Cons(Box<Sexp>, Box<Sexp>),
    Nil,
    Sym(Seq<char>),
    Keyword(Seq<char>),
    Str(Seq<char>),
    Proc,
}

pub open spec fn sexp_of(e: Expr) -> Sexp
    decreases e,
{
    match e {
        Expr::Int(i) => Sexp::Int(i as int),
        Expr::Float(f) => Sexp::Float(f),
        Expr::Cons(a, d) => Sexp::Cons(Box::new(sexp_of(*a)), Box::new(sexp_of(*d))),
        Expr::Nil => Sexp::Nil,
        Expr::Sym(s) => Sexp::Sym((*s)@),
        Expr::Keyword(s) => Sexp::Keyword((*s)@),
        Expr::Str(s) => Sexp::Str((*s)@),
        Expr::Proc(_) => Sexp::Proc,
    }
}

pub proof fn lemma_sexp_shape(e: Expr)
    ensures
        (sexp_of(e) is Cons) == (e is Cons),
        (sexp_of(e) is Nil) == (e is Nil),
        e is Cons ==> sexp_of(e) == Sexp::Cons(
            Box::new(sexp_of(*e->Cons_0)),
            Box::new(sexp_of(*e->Cons_1)),
        ),
        e is Cons ==> ((sexp_of(*e->Cons_1) is Nil) == (*e->Cons_1 is Nil)),
{
    if e is Cons {
        lemma_sexp_shape_one(cdr_of(e));
    }
}

/// The tail of a pair.
pub open spec fn cdr_of(e: Expr) -> Expr {
    *e->Cons_1
}

/// The head of a pair.
pub open spec fn car_of(e: Expr) -> Expr {
    *e->Cons_0
}

proof fn lemma_sexp_shape_one(e: Expr)
    ensures
        (sexp_of(e) is Nil) == (e is Nil),
{
}

impl View for Expr {
    type V = Sexp;

    open spec fn view(&self) -> Sexp {
        sexp_of(*self)
    }
}

pub fn single_is_nan_exec(x: u32) -> (r: bool)
    ensures
        r == single_is_nan(x),
{
    x & 0x7f80_0000u32 == 0x7f80_0000u32 && x & 0x007f_ffffu32 != 0
}

/// Equality of two single-precision floats given by their bit patterns.
pub fn single_equal(x: u32, y: u32) -> (r: bool)
    ensures
        r == single_eq(x, y),
{
    !single_is_nan_exec(x) && !single_is_nan_exec(y) && (x == y || (x & 0x7fff_ffffu32 == 0 && y
        & 0x7fff_ffffu32 == 0))
}

/// Structural equality of two expressions.
pub fn expr_eq(a: &Expr, b: &Expr) -> (r: bool)
    ensures
        r == expr_equal(*a, *b),
    decreases a,
{
    match a {
        Expr::Int(x) => match b {
            Expr::Int(y) => *x == *y,
            _ => false,
        },
        Expr::Float(x) => match b {
            Expr::Float(y) => single_equal(*x, *y),
            _ => false,
        },
        Expr::Cons(x1, y1) => match b {
            Expr::Cons(x2, y2) => expr_eq(&**x1, &**x2) && expr_eq(&**y1, &**y2),
            _ => false,
        },
        Expr::Nil => match b {
            Expr::Nil => true,
            _ => false,
        },
        Expr::Sym(x) => match b {
            Expr::Sym(y) => **x == **y,
            _ => false,
        },
        Expr::Keyword(x) => match b {
            Expr::Keyword(y) => **x == **y,
            _ => false,
        },
        Expr::Str(x) => match b {
            Expr::Str(y) => **x == **y,
            _ => false,
        },
        Expr::Proc(Proc::Lambda(p1, b1)) => match b {
            Expr::Proc(Proc::Lambda(p2, b2)) => expr_eq(&**p1, &**p2) && expr_eq(&**b1, &**b2),
            _ => false,
        },
        Expr::Proc(_) => false,
    }
}

/// A copy of `e` that shares its list cells and strings.
pub fn copy_expr(e: &Expr) -> (r: Expr)
    ensures
        r == *e,
{
    match e {
        Expr::Int(x) => Expr::Int(*x),
        Expr::Float(x) => Expr::Float(*x),
        Expr::Cons(a, d) => Expr::Cons(a.clone(), d.clone()),
        Expr::Nil => Expr::Nil,
        Expr::Sym(s) => Expr::Sym(s.clone()),
        Expr::Keyword(s) => Expr::Keyword(s.clone()),
        Expr::Str(s) => Expr::Str(s.clone()),
        Expr::Proc(p) => Expr::Proc(copy_proc(p)),
    }
}

/// A copy of `p` that shares its parts.
pub fn copy_proc(p: &Proc) -> (r: Proc)
    ensures
        r == *p,
{
    match p {
        Proc::Lambda(a, b) => Proc::Lambda(a.clone(), b.clone()),
        Proc::Prim(name, n) => Proc::Prim(name.clone(), *n),
        Proc::Expr(e) => Proc::Expr(e.clone()),
    }
}

pub fn copy_error(e: &Error) -> (r: Error)
    ensures
        r == *e,
{
    match e {
        Error::ReadError => Error::ReadError,
        Error::InvalidArgument(x) => Error::InvalidArgument(copy_expr(x)),
        Error::Type(t, x) => Error::Type(*t, copy_expr(x)),
        Error::ArityShort => Error::ArityShort,
        Error::ArityExceed => Error::ArityExceed,
        Error::Form(x) => Error::Form(copy_expr(x)),
        Error::NotFunction(x) => Error::NotFunction(copy_expr(x)),
        Error::Unbound(s) => Error::Unbound(s.clone()),
        Error::User(s) => Error::User(s.clone()),
        Error::TooDeep => Error::TooDeep,
    }
}

impl Clone for Expr {
    fn clone(&self) -> Self {
        copy_expr(self)
    }
}

impl Clone for Proc {
    fn clone(&self) -> Self {
        copy_proc(self)
    }
}

impl Clone for Error {
    fn clone(&self) -> Self {
        copy_error(self)
    }
}

impl PartialEq for Expr {
    fn eq(&self, o: &Expr) -> (r: bool) {
        expr_eq(self, o)
    }
}

impl vstd::std_specs::cmp::PartialEqSpecImpl for Expr {
    open spec fn obeys_eq_spec() -> bool {
        false
    }

    open spec fn eq_spec(&self, o: &Expr) -> bool {
        expr_equal(*self, *o)
    }
}

impl PartialEq for Proc {
    fn eq(&self, o: &Proc) -> (r: bool) {
        match (self, o) {
            (Proc::Lambda(p1, b1), Proc::Lambda(p2, b2)) => expr_eq(&**p1, &**p2) && expr_eq(
                &**b1,
                &**b2,
            ),
            _ => false,
        }
    }
}

impl vstd::std_specs::cmp::PartialEqSpecImpl for Proc {
    open spec fn obeys_eq_spec() -> bool {
        false
    }

    open spec fn eq_spec(&self, o: &Proc) -> bool {
        proc_equal(*self, *o)
    }
}

impl PartialEq for Error {
    fn eq(&self, o: &Error) -> (r: bool) {
        match self {
            Error::ReadError => matches!(o, Error::ReadError),
            Error::InvalidArgument(x) => match o {
                Error::InvalidArgument(y) => expr_eq(x, y),
                _ => false,
            },
            Error::Type(t, x) => match o {
                Error::Type(u, y) => *t == *u && expr_eq(x, y),
                _ => false,
            },
            Error::ArityShort => matches!(o, Error::ArityShort),
            Error::ArityExceed => matches!(o, Error::ArityExceed),
            Error::Form(x) => match o {
                Error::Form(y) => expr_eq(x, y),
                _ => false,
            },
            Error::NotFunction(x) => match o {
                Error::NotFunction(y) => expr_eq(x, y),
                _ => false,
            },
            Error::Unbound(s) => match o {
                Error::Unbound(t) => *s == *t,
                _ => false,
            },
            Error::User(s) => match o {
                Error::User(t) => *s == *t,
                _ => false,
            },
            Error::TooDeep => matches!(o, Error::TooDeep),
        }
    }
}

impl vstd::std_specs::cmp::PartialEqSpecImpl for Error {
    open spec fn obeys_eq_spec() -> bool {
        false
    }

    open spec fn eq_spec(&self, o: &Error) -> bool {
        error_equal(*self, *o)
    }
}

} // verus!
