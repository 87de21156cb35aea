use vstd::prelude::*;
use crate::expr::{Error, Expr, Proc, Sexp, Type};
use crate::single::{single_text, single_to_text};
use crate::text::int_to_decimal;
use crate::text::{chars_of, string_of};

verus! {


/// The written form of an expression without procedures: integers in
/// decimal, floats as rustc_apfloat writes them (which may not read back), strings in double quotes, keywords after `:`, nil as `nil`, and
/// lists in parentheses with ` . ` before a tail that is not nil.
pub open spec fn show(x: Sexp) -> Seq<char>
    decreases x, 0int,
{
    match x {
        Sexp::Int(i) => crate::text::int_decimal(i),
        Sexp::Float(f) => single_text(f),
        Sexp::Cons(a, d) => seq!['('] + show(*a) + show_rest(*d),
        Sexp::Nil => seq!['n', 'i', 'l'],
        Sexp::Sym(t) => t,
        Sexp::Keyword(t) => seq![':'] + t,
        Sexp::Str(t) => seq!['"'] + t + seq!['"'],
        Sexp::Proc => seq!['#'],
    }
}

/// The rest of a list after its first element, up to the closing parenthesis.
pub open spec fn show_rest(d: Sexp) -> Seq<char>
    decreases d, 1int,
{
    match d {
        Sexp::Nil => seq![')'],
        Sexp::Cons(a, d2) => seq![' '] + show(*a) + show_rest(*d2),
        _ => seq![' ', '.', ' '] + show(d) + seq![')'],
    }
}

/// Whether a procedure occurs in the expression.
pub open spec fn has_proc(x: Sexp) -> bool
    decreases x,
{
    match x {
        Sexp::Cons(a, d) => has_proc(*a) || has_proc(*d),
        Sexp::Proc => true,
        _ => false,
    }
}

fn push_str(out: &mut Vec<char>, s: &str)
    ensures
        final(out)@ == old(out)@ + s@,
{
    let cs = chars_of(s);
    push_all(out, &cs);
}

fn push_all(out: &mut Vec<char>, cs: &Vec<char>)
    ensures
        final(out)@ == old(out)@ + cs@,
{
    let mut i: usize = 0;
    while i < cs.len()
        invariant
            i <= cs@.len(),
            out@ == old(out)@ + cs@.subrange(0, i as int),
        decreases cs@.len() - i,
    {
        out.push(cs[i]);
        i = i + 1;
        assert(out@ =~= old(out)@ + cs@.subrange(0, i as int));
    }
    assert(cs@.subrange(0, cs@.len() as int) =~= cs@);
}

fn push_string(out: &mut Vec<char>, s: &String)
    ensures
        final(out)@ == old(out)@ + s@,
{
    push_str(out, s.as_str());
}

fn write_expr(out: &mut Vec<char>, e: &Expr)
    ensures
        !has_proc(e@) ==> final(out)@ == old(out)@ + show(e@),
    decreases e, 0int,
{
    match e {
        Expr::Int(i) => push_string(out, &int_to_decimal(*i)),
        Expr::Float(f) => push_string(out, &single_to_text(*f)),
        Expr::Cons(a, d) => {
            out.push('(');
            write_expr(out, &**a);
            write_rest(out, &**d);
            proof {
                crate::expr::lemma_sexp_shape(*e);
                if !has_proc(e@) {
                    assert(final(out)@ =~= old(out)@ + show(e@));
                }
            }
        },
        Expr::Nil => {
            push_str(out, "nil");
            proof {
                reveal_strlit("nil");
                assert("nil"@ =~= seq!['n', 'i', 'l']);
            }
        },
        Expr::Sym(s) => push_string(out, &**s),
        Expr::Keyword(s) => {
            out.push(':');
            push_string(out, &**s);
            assert(final(out)@ =~= old(out)@ + show(e@));
        },
        Expr::Str(s) => {
            out.push('"');
            push_string(out, &**s);
            out.push('"');
            assert(final(out)@ =~= old(out)@ + show(e@));
        },
        Expr::Proc(p) => write_proc(out, p),
    }
}

fn write_rest(out: &mut Vec<char>, d: &Expr)
    ensures
        !has_proc(d@) ==> final(out)@ == old(out)@ + show_rest(d@),
    decreases d, 1int,
{
    match d {
        Expr::Nil => {
            out.push(')');
            assert(final(out)@ =~= old(out)@ + show_rest(d@));
        },
        Expr::Cons(a, d2) => {
            out.push(' ');
            write_expr(out, &**a);
            write_rest(out, &**d2);
            proof {
                crate::expr::lemma_sexp_shape(*d);
                if !has_proc(d@) {
                    assert(final(out)@ =~= old(out)@ + show_rest(d@));
                }
            }
        },
        _ => {
            out.push(' ');
            out.push('.');
            out.push(' ');
            write_expr(out, d);
            out.push(')');
            proof {
                crate::expr::lemma_sexp_shape(*d);
                if !has_proc(d@) {
                    assert(final(out)@ =~= old(out)@ + show_rest(d@));
                }
            }
        },
    }
}

fn write_proc(out: &mut Vec<char>, p: &Proc)
    decreases p, 0int,
{
    match p {
        Proc::Lambda(params, body) => {
            push_str(out, "(lambda ");
            write_expr(out, &**params);
            out.push(' ');
            write_expr(out, &**body);
            out.push(')');
        },
        Proc::Prim(name, _) => push_string(out, name),
        Proc::Expr(e) => write_expr(out, &**e),
    }
}

impl Expr {
    /// The written form of the expression (see `show`); a lambda is written
    /// `(lambda params body)` and a primitive by its name.
    pub fn to_text(&self) -> (r: String)
        ensures
            !has_proc(self@) ==> r@ == show(self@),
    {
        let mut out: Vec<char> = Vec::new();
        write_expr(&mut out, self);
        string_of(&out)
    }
}

impl Type {
    /// The name of the type in messages.
    pub fn to_text(&self) -> (r: String) {
        let s = match self {
            Type::Int => "integer",
            Type::Float => "float",
            Type::Cons => "cons",
            Type::Nil => "nil",
            Type::Sym => "symbol",
            Type::Keyword => "keyword",
            Type::Str => "string",
            Type::Proc => "procedure",
            Type::Any => "any",
        };
        s.to_owned()
    }
}

impl Error {
    /// A message describing the error.
    pub fn to_text(&self) -> (r: String) {
        let mut out: Vec<char> = Vec::new();
        match self {
            Error::ReadError => push_str(&mut out, "read error"),
            Error::InvalidArgument(e) => {
                push_str(&mut out, "invalid argument: ");
                write_expr(&mut out, e);
            },
            Error::Type(t, e) => {
                push_str(&mut out, "type mismatch: expected: ");
                push_string(&mut out, &t.to_text());
                push_str(&mut out, ", got: ");
                write_expr(&mut out, e);
            },
            Error::ArityShort => push_str(&mut out, "too few argument"),
            Error::ArityExceed => push_str(&mut out, "too many argument"),
            Error::Form(e) => {
                push_str(&mut out, "invalid form: ");
                write_expr(&mut out, e);
            },
            Error::NotFunction(e) => {
                push_str(&mut out, "not a function: ");
                write_expr(&mut out, e);
            },
            Error::Unbound(s) => {
                push_str(&mut out, "unbound variable: ");
                push_string(&mut out, s);
            },
            Error::User(s) => {
                push_str(&mut out, "user error: ");
                push_string(&mut out, s);
            },
            Error::TooDeep => push_str(&mut out, "evaluation nested too deeply"),
        }
        string_of(&out)
    }
}

} // verus!
