use vstd::prelude::*;
use std::rc::Rc;
use crate::expr::{Error, Expr, Kint, Result, Sexp, lemma_sexp_shape, sexp_of};
use crate::single::{single_add, single_from_decimal, single_from_int, single_of_decimal, single_of_int, single_sum};
use crate::text::{chars_of, string_of};

verus! {

/// Unicode white space, as `char::is_whitespace` defines it.
pub open spec fn is_white(c: char) -> bool {
    ('\u{9}' <= c && c <= '\u{d}') || c == ' ' || c == '\u{85}' || c == '\u{a0}' || c
        == '\u{1680}' || ('\u{2000}' <= c && c <= '\u{200a}') || c == '\u{2028}' || c
        == '\u{2029}' || c == '\u{202f}' || c == '\u{205f}' || c == '\u{3000}'
}

pub open spec fn is_delim(c: char) -> bool {
    is_white(c) || c == '(' || c == ')' || c == '"' || c == '\''
}

pub open spec fn is_digit(c: char) -> bool {
    '0' <= c && c <= '9'
}

/// The first position at or after `p` that does not hold white space.
pub open spec fn skip_ws(s: Seq<char>, p: int) -> int
    decreases s.len() - p,
{
    if 0 <= p < s.len() && is_white(s[p]) {
        skip_ws(s, p + 1)
    } else {
        p
    }
}

/// The first position at or after `p` that holds a delimiter, or the end.
pub open spec fn token_end(s: Seq<char>, p: int) -> int
    decreases s.len() - p,
{
    if 0 <= p < s.len() && !is_delim(s[p]) {
        token_end(s, p + 1)
    } else {
        p
    }
}

/// The first position at or after `p` that does not hold a decimal digit.
pub open spec fn digits_end(s: Seq<char>, p: int) -> int
    decreases s.len() - p,
{
    if 0 <= p < s.len() && is_digit(s[p]) {
        digits_end(s, p + 1)
    } else {
        p
    }
}

/// The value of the decimal digits in `s[p..q]`.
pub open spec fn digits_value(s: Seq<char>, p: int, q: int) -> int
    decreases q - p,
{
    if q <= p {
        0
    } else {
        digits_value(s, p, q - 1) * 10 + (s[q - 1] as int - '0' as int)
    }
}

pub open spec fn symbol_of(t: Seq<char>) -> Sexp {
    if t == seq!['n', 'i', 'l'] {
        Sexp::Nil
    } else {
        Sexp::Sym(t)
    }
}

/// The two-element list `(head x)`, where `head` is a symbol.
pub open spec fn tagged(head: Seq<char>, x: Sexp) -> Sexp {
    Sexp::Cons(Box::new(Sexp::Sym(head)), Box::new(Sexp::Cons(Box::new(x), Box::new(Sexp::Nil))))
}

pub open spec fn quote_name() -> Seq<char> {
    seq!['q', 'u', 'o', 't', 'e']
}

pub open spec fn function_name() -> Seq<char> {
    seq!['f', 'u', 'n', 'c', 't', 'i', 'o', 'n']
}

/// The numeral handed to the decimal parser for the fraction after the
/// point: `0.` or `-0.` followed by the fraction's digits.
pub open spec fn fraction_text(neg: bool, digits: Seq<char>) -> Seq<char> {
    (if neg {
        seq!['-', '0', '.']
    } else {
        seq!['0', '.']
    }) + digits
}

/// A number starting at `q`: an optional sign, decimal digits, and an
/// optional fraction. The integer part must fit the integer type.
pub open spec fn parse_number(s: Seq<char>, q: int) -> Option<(Sexp, int)> {
    let neg = s[q] == '-';
    let start = if is_digit(s[q]) {
        q
    } else {
        q + 1
    };
    let e = digits_end(s, start);
    let v = digits_value(s, start, e);
    if signed_value(neg, v) is None {
        None
    } else {
        let i = signed_value(neg, v)->Some_0;
        if e < s.len() && s[e] == '.' {
            let fe = digits_end(s, e + 1);
            match single_of_decimal(fraction_text(neg, s.subrange(e + 1, fe))) {
                Some(f) => Some((Sexp::Float(single_sum(single_of_int(i), f)), fe)),
                None => None,
            }
        } else {
            Some((Sexp::Int(i), e))
        }
    }
}

/// The form that starts at or after `p` (after white space), and the
/// position just past it.
pub open spec fn parse_form(s: Seq<char>, p: int) -> Option<(Sexp, int)>
    decreases s.len() - p, 0int,
{
    let q = skip_ws(s, p);
    if p < 0 || q < p || q >= s.len() {
        None
    } else {
        let c = s[q];
        if is_digit(c) || ((c == '-' || c == '+') && q + 1 < s.len() && is_digit(s[q + 1])) {
            parse_number(s, q)
        } else if c == '(' {
            parse_list(s, q + 1)
        } else if c == ')' {
            None
        } else if c == '"' {
            let e = string_end(s, q + 1);
            if e < s.len() {
                Some((Sexp::Str(s.subrange(q + 1, e)), e + 1))
            } else {
                None
            }
        } else if c == '\'' {
            match parse_form(s, q + 1) {
                Some((x, r)) => Some((tagged(quote_name(), x), r)),
                None => None,
            }
        } else if c == '#' {
            if q + 1 < s.len() && s[q + 1] == '\'' {
                match parse_form(s, q + 2) {
                    Some((x, r)) => Some((tagged(function_name(), x), r)),
                    None => None,
                }
            } else {
                None
            }
        } else if c == ':' {
            let e = token_end(s, q + 1);
            Some((Sexp::Keyword(s.subrange(q + 1, e)), e))
        } else {
            let e = token_end(s, q);
            Some((symbol_of(s.subrange(q, e)), e))
        }
    }
}

/// The rest of a list whose opening parenthesis is before `p`: forms up to
/// `)`, where the token `.` alone followed by `x )` makes `x` the final tail.
pub open spec fn parse_list(s: Seq<char>, p: int) -> Option<(Sexp, int)>
    decreases s.len() - p, 1int,
{
    let q = skip_ws(s, p);
    if p < 0 || q < p || q >= s.len() {
        None
    } else if s[q] == ')' {
        Some((Sexp::Nil, q + 1))
    } else {
        match parse_form(s, q) {
            None => None,
            Some((car, q1)) => {
                let q2 = skip_ws(s, q1);
                if q1 <= q || q2 < q1 || q2 >= s.len() {
                    None
                } else if s[q2] == '.' && token_end(s, q2) == q2 + 1 {
                    match parse_list(s, q2 + 1) {
                        Some((Sexp::Cons(x, tail), r)) => if *tail == Sexp::Nil {
                            Some((Sexp::Cons(Box::new(car), x), r))
                        } else {
                            None
                        },
                        _ => None,
                    }
                } else {
                    match parse_list(s, q2) {
                        Some((cdr, r)) => Some((Sexp::Cons(Box::new(car), Box::new(cdr)), r)),
                        None => None,
                    }
                }
            },
        }
    }
}

/// The position of the first `"` at or after `p`, or the end.
pub open spec fn string_end(s: Seq<char>, p: int) -> int
    decreases s.len() - p,
{
    if 0 <= p < s.len() && s[p] != '"' {
        string_end(s, p + 1)
    } else {
        p
    }
}

pub proof fn lemma_skip_ws(s: Seq<char>, p: int)
    requires
        0 <= p <= s.len(),
    ensures
        p <= skip_ws(s, p) <= s.len(),
        skip_ws(s, p) < s.len() ==> !is_white(s[skip_ws(s, p)]),
    decreases s.len() - p,
{
    if p < s.len() && is_white(s[p]) {
        lemma_skip_ws(s, p + 1);
    }
}

pub proof fn lemma_token_end(s: Seq<char>, p: int)
    requires
        0 <= p <= s.len(),
    ensures
        p <= token_end(s, p) <= s.len(),
        forall|k: int| p <= k < token_end(s, p) ==> !is_delim(#[trigger] s[k]),
    decreases s.len() - p,
{
    if p < s.len() && !is_delim(s[p]) {
        lemma_token_end(s, p + 1);
    }
}

pub proof fn lemma_string_end(s: Seq<char>, p: int)
    requires
        0 <= p <= s.len(),
    ensures
        p <= string_end(s, p) <= s.len(),
        string_end(s, p) < s.len() ==> s[string_end(s, p)] == '"',
    decreases s.len() - p,
{
    if p < s.len() && s[p] != '"' {
        lemma_string_end(s, p + 1);
    }
}

pub proof fn lemma_digits_end(s: Seq<char>, p: int)
    requires
        0 <= p <= s.len(),
    ensures
        p <= digits_end(s, p) <= s.len(),
        forall|k: int| p <= k < digits_end(s, p) ==> is_digit(#[trigger] s[k]),
    decreases s.len() - p,
{
    if p < s.len() && is_digit(s[p]) {
        lemma_digits_end(s, p + 1);
    }
}

pub proof fn lemma_digits_mono(s: Seq<char>, p: int, i: int, j: int)
    requires
        p <= i <= j <= s.len(),
        forall|k: int| p <= k < j ==> is_digit(#[trigger] s[k]),
    ensures
        0 <= digits_value(s, p, i) <= digits_value(s, p, j),
    decreases j - p,
{
    if i < j {
        lemma_digits_mono(s, p, i, j - 1);
    } else if j > p {
        lemma_digits_mono(s, p, j - 1, j - 1);
    }
}

fn is_white_char(c: char) -> (r: bool)
    ensures
        r == is_white(c),
{
    ('\u{9}' <= c && c <= '\u{d}') || c == ' ' || c == '\u{85}' || c == '\u{a0}' || c
        == '\u{1680}' || ('\u{2000}' <= c && c <= '\u{200a}') || c == '\u{2028}' || c
        == '\u{2029}' || c == '\u{202f}' || c == '\u{205f}' || c == '\u{3000}'
}

fn is_digit_char(c: char) -> (r: bool)
    ensures
        r == is_digit(c),
{
    '0' <= c && c <= '9'
}

/// Whether `c` ends a symbol: white space, a parenthesis, `"` or `'`.
pub fn is_delimiter(c: char) -> (r: bool)
    ensures
        r == is_delim(c),
{
    is_white_char(c) || c == '(' || c == ')' || c == '"' || c == '\''
}

/// The position of the first character at or after `p` that is not white
/// space (the end when there is none).
pub fn peek_nonwhitespaces(s: &Vec<char>, p: usize) -> (q: usize)
    requires
        p <= s@.len(),
    ensures
        q == skip_ws(s@, p as int),
{
    let mut i = p;
    while i < s.len() && is_white_char(s[i])
        invariant
            p <= i <= s@.len(),
            skip_ws(s@, p as int) == skip_ws(s@, i as int),
        decreases s@.len() - i,
    {
        i = i + 1;
    }
    i
}

/// The first character at or after `p` that is not white space, and the
/// position after it; `None` at the end of the input.
pub fn next_nonwhitespaces(s: &Vec<char>, p: usize) -> (r: Option<(char, usize)>)
    requires
        p <= s@.len(),
    ensures
        skip_ws(s@, p as int) < s@.len() ==> r == Some((s@[skip_ws(s@, p as int)], (skip_ws(s@, p as int) + 1) as usize)),
        skip_ws(s@, p as int) >= s@.len() ==> r is None,
{
    let q = peek_nonwhitespaces(s, p);
    if q < s.len() {
        Some((s[q], q + 1))
    } else {
        None
    }
}

fn token_stop(s: &Vec<char>, p: usize) -> (e: usize)
    requires
        p <= s@.len(),
    ensures
        e == token_end(s@, p as int),
{
    let mut i = p;
    while i < s.len() && !is_delimiter(s[i])
        invariant
            p <= i <= s@.len(),
            token_end(s@, p as int) == token_end(s@, i as int),
        decreases s@.len() - i,
    {
        i = i + 1;
    }
    i
}

fn digits_stop(s: &Vec<char>, p: usize) -> (e: usize)
    requires
        p <= s@.len(),
    ensures
        e == digits_end(s@, p as int),
{
    let mut i = p;
    while i < s.len() && is_digit_char(s[i])
        invariant
            p <= i <= s@.len(),
            digits_end(s@, p as int) == digits_end(s@, i as int),
        decreases s@.len() - i,
    {
        i = i + 1;
    }
    i
}

fn chars_between(s: &Vec<char>, a: usize, b: usize) -> (r: Vec<char>)
    requires
        a <= b <= s@.len(),
    ensures
        r@ == s@.subrange(a as int, b as int),
{
    let mut v: Vec<char> = Vec::new();
    let mut i = a;
    while i < b
        invariant
            a <= i <= b <= s@.len(),
            v@ == s@.subrange(a as int, i as int),
        decreases b - i,
    {
        v.push(s[i]);
        i = i + 1;
        assert(v@ =~= s@.subrange(a as int, i as int));
    }
    v
}

/// The largest magnitude an integer may have: that of the smallest one.
pub open spec fn max_magnitude() -> int {
    i64::MAX + 1
}

/// The decimal digits that start at `p`, as a magnitude, and the position
/// after them; `None` when the value is above the magnitude of the smallest
/// integer.
fn read_magnitude(s: &Vec<char>, p: usize) -> (r: Option<(u64, usize)>)
    requires
        p <= s@.len(),
    ensures
        ({
            let e = digits_end(s@, p as int);
            let v = digits_value(s@, p as int, e);
            &&& v > max_magnitude() ==> r is None
            &&& v <= max_magnitude() ==> r is Some && r->Some_0.0 as int == v && r->Some_0.1 as int
                == e
        }),
{
    proof {
        lemma_digits_end(s@, p as int);
    }
    let mut i = p;
    let mut acc: u64 = 0;
    while i < s.len() && is_digit_char(s[i])
        invariant
            p <= i <= s@.len(),
            i <= digits_end(s@, p as int),
            digits_end(s@, p as int) == digits_end(s@, i as int),
            acc as int == digits_value(s@, p as int, i as int),
            acc as int <= max_magnitude(),
            forall|k: int| p <= k < digits_end(s@, p as int) ==> is_digit(#[trigger] s@[k]),
        decreases s@.len() - i,
    {
        let d = (s[i] as u32 - '0' as u32) as u64;
        proof {
            lemma_digits_end(s@, i + 1);
            lemma_digits_mono(s@, p as int, i + 1, digits_end(s@, p as int));
        }
        match acc.checked_mul(10) {
            None => {
                return None;
            },
            Some(m) => match m.checked_add(d) {
                None => {
                    return None;
                },
                Some(n) => {
                    if n > 9_223_372_036_854_775_808u64 {
                        return None;
                    }
                    acc = n;
                },
            },
        }
        i = i + 1;
    }
    Some((acc, i))
}

/// The decimal digits that start at `p`, as an integer, and the position
/// after them; `None` when the value does not fit the integer type.
pub fn read_uint(s: &Vec<char>, p: usize) -> (r: Option<(Kint, usize)>)
    requires
        p <= s@.len(),
    ensures
        ({
            let e = digits_end(s@, p as int);
            let v = digits_value(s@, p as int, e);
            &&& v > i64::MAX ==> r is None
            &&& v <= i64::MAX ==> r is Some && r->Some_0.0 as int == v && r->Some_0.1 as int == e
        }),
{
    match read_magnitude(s, p) {
        None => None,
        Some((v, e)) => {
            if v > 9_223_372_036_854_775_807u64 {
                None
            } else {
                Some((v as i64, e))
            }
        },
    }
}

/// The integer a sign is to give a magnitude: `None` when it is out of range.
pub open spec fn signed_value(neg: bool, v: int) -> Option<int> {
    if neg {
        if v > max_magnitude() {
            None
        } else {
            Some(-v)
        }
    } else if v > i64::MAX {
        None
    } else {
        Some(v)
    }
}

/// An integer with an optional sign at `q`, and the position after it.
pub fn read_int(s: &Vec<char>, q: usize) -> (r: Option<(Kint, usize)>)
    requires
        q < s@.len(),
        is_digit(s@[q as int]) || ((s@[q as int] == '-' || s@[q as int] == '+') && q + 1 < s@.len()
            && is_digit(s@[q + 1])),
    ensures
        ({
            let start = if is_digit(s@[q as int]) {
                q as int
            } else {
                q + 1
            };
            let e = digits_end(s@, start);
            let v = digits_value(s@, start, e);
            match signed_value(s@[q as int] == '-', v) {
                None => r is None,
                Some(n) => r is Some && r->Some_0.0 as int == n && r->Some_0.1 as int == e,
            }
        }),
{
    let neg = s[q] == '-';
    let start = if is_digit_char(s[q]) {
        q
    } else {
        let n = s.len();
        assert(q + 1 < n);
        q + 1
    };
    match read_magnitude(s, start) {
        None => None,
        Some((v, e)) => {
            if neg {
                if v == 9_223_372_036_854_775_808u64 {
                    Some((i64::MIN, e))
                } else {
                    Some((-(v as i64), e))
                }
            } else if v > 9_223_372_036_854_775_807u64 {
                None
            } else {
                Some((v as i64, e))
            }
        },
    }
}

/// `r` is what the exec reader returns for the spec result `p`.
pub open spec fn read_as(r: Option<(Expr, usize)>, p: Option<(Sexp, int)>) -> bool {
    match p {
        None => r is None,
        Some((x, q)) => r is Some && r->Some_0.0@ == x && r->Some_0.1 == q,
    }
}

fn push_range(text: &mut Vec<char>, s: &Vec<char>, a: usize, b: usize)
    requires
        a <= b <= s@.len(),
    ensures
        final(text)@ == old(text)@ + s@.subrange(a as int, b as int),
{
    let mut i = a;
    while i < b
        invariant
            a <= i <= b <= s@.len(),
            text@ == old(text)@ + s@.subrange(a as int, i as int),
        decreases b - i,
    {
        text.push(s[i]);
        i = i + 1;
        assert(text@ =~= old(text)@ + s@.subrange(a as int, i as int));
    }
}

fn read_number(s: &Vec<char>, q: usize) -> (r: Option<(Expr, usize)>)
    requires
        q < s@.len(),
        is_digit(s@[q as int]) || ((s@[q as int] == '-' || s@[q as int] == '+') && q + 1 < s@.len()
            && is_digit(s@[q + 1])),
    ensures
        read_as(r, parse_number(s@, q as int)),
        r is Some ==> q < r->Some_0.1 <= s@.len(),
{
    let ghost start = if is_digit(s@[q as int]) {
        q as int
    } else {
        q + 1
    };
    proof {
        lemma_digits_end(s@, start);
        lemma_digits_end(s@, start + 1);
        assert(digits_end(s@, start) == digits_end(s@, start + 1));
        assert(digits_end(s@, start) > q);
    }
    match read_int(s, q) {
        None => None,
        Some((i, e)) => {
            if e < s.len() && s[e] == '.' {
                let fe = digits_stop(s, e + 1);
                proof {
                    lemma_digits_end(s@, e + 1);
                }
                let mut text: Vec<char> = Vec::new();
                if s[q] == '-' {
                    text.push('-');
                }
                text.push('0');
                text.push('.');
                push_range(&mut text, s, e + 1, fe);
                assert(text@ =~= fraction_text(s@[q as int] == '-', s@.subrange(e + 1, fe as int)));
                match single_from_decimal(&text) {
                    Some(f) => Some((Expr::Float(single_add(single_from_int(i), f)), fe)),
                    None => None,
                }
            } else {
                Some((Expr::Int(i), e))
            }
        },
    }
}

/// The list `(head x)`.
fn tag(head: &str, x: Expr) -> (r: Expr)
    ensures
        r@ == tagged(head@, x@),
{
    let ghost xv = x@;
    let tail = Expr::Cons(Rc::new(x), Rc::new(Expr::Nil));
    assert(sexp_of(Expr::Nil) == Sexp::Nil);
    assert(tail@ == Sexp::Cons(Box::new(xv), Box::new(Sexp::Nil)));
    let h = Expr::Sym(Rc::new(head.to_owned()));
    assert(h@ == Sexp::Sym(head@));
    let r = Expr::Cons(Rc::new(h), Rc::new(tail));
    assert(r@ == Sexp::Cons(Box::new(h@), Box::new(tail@)));
    r
}

fn read_string(s: &Vec<char>, p: usize) -> (r: Option<(Expr, usize)>)
    requires
        p <= s@.len(),
    ensures
        ({
            let e = string_end(s@, p as int);
            &&& e < s@.len() ==> r is Some && r->Some_0.0@ == Sexp::Str(s@.subrange(p as int, e))
                && r->Some_0.1 == e + 1
            &&& e >= s@.len() ==> r is None
        }),
        r is Some ==> p < r->Some_0.1 <= s@.len(),
{
    proof {
        lemma_string_end(s@, p as int);
    }
    let mut i = p;
    while i < s.len() && s[i] != '"'
        invariant
            p <= i <= s@.len(),
            string_end(s@, p as int) == string_end(s@, i as int),
        decreases s@.len() - i,
    {
        i = i + 1;
    }
    if i < s.len() {
        let t = chars_between(s, p, i);
        Some((Expr::Str(Rc::new(string_of(&t))), i + 1))
    } else {
        None
    }
}

fn read_keyword(s: &Vec<char>, p: usize) -> (r: (Expr, usize))
    requires
        p <= s@.len(),
    ensures
        r.0@ == Sexp::Keyword(s@.subrange(p as int, token_end(s@, p as int))),
        r.1 == token_end(s@, p as int),
        p <= r.1 <= s@.len(),
{
    let e = token_stop(s, p);
    proof {
        lemma_token_end(s@, p as int);
    }
    let t = chars_between(s, p, e);
    (Expr::Keyword(Rc::new(string_of(&t))), e)
}

fn read_symbol(s: &Vec<char>, p: usize) -> (r: (Expr, usize))
    requires
        p <= s@.len(),
    ensures
        r.0@ == symbol_of(s@.subrange(p as int, token_end(s@, p as int))),
        r.1 == token_end(s@, p as int),
        r.1 <= s@.len(),
        p < s@.len() && !is_delim(s@[p as int]) ==> r.1 > p,
{
    let e = token_stop(s, p);
    proof {
        lemma_token_end(s@, p as int);
        if p < s@.len() {
            lemma_token_end(s@, p + 1);
        }
    }
    let t = chars_between(s, p, e);
    if t.len() == 3 && t[0] == 'n' && t[1] == 'i' && t[2] == 'l' {
        assert(t@ =~= seq!['n', 'i', 'l']);
        (Expr::Nil, e)
    } else {
        assert(t@ != seq!['n', 'i', 'l']);
        (Expr::Sym(Rc::new(string_of(&t))), e)
    }
}

fn read_list(s: &Vec<char>, p: usize) -> (r: Option<(Expr, usize)>)
    requires
        p <= s@.len(),
    ensures
        read_as(r, parse_list(s@, p as int)),
        r is Some ==> p < r->Some_0.1 <= s@.len(),
    decreases s@.len() - p, 1int,
{
    let q = peek_nonwhitespaces(s, p);
    proof {
        lemma_skip_ws(s@, p as int);
    }
    if q >= s.len() {
        return None;
    }
    if s[q] == ')' {
        return Some((Expr::Nil, q + 1));
    }
    match read_form(s, q) {
        None => None,
        Some((car, q1)) => {
            if q1 <= q {
                return None;
            }
            let q2 = peek_nonwhitespaces(s, q1);
            proof {
                lemma_skip_ws(s@, q1 as int);
            }
            if q2 >= s.len() {
                return None;
            }
            if s[q2] == '.' && token_stop(s, q2) == q2 + 1 {
                let rest = read_list(s, q2 + 1);
                proof {
                    if rest is Some {
                        lemma_sexp_shape(rest->Some_0.0);
                    }
                }
                match rest {
                    Some((Expr::Cons(x, tail), r)) => match &*tail {
                        Expr::Nil => {
                            let ghost cv = car@;
                            let res = Expr::Cons(Rc::new(car), x);
                            proof {
                                lemma_sexp_shape(res);
                            }
                            Some((res, r))
                        },
                        _ => None,
                    },
                    _ => None,
                }
            } else {
                match read_list(s, q2) {
                    Some((cdr, r)) => {
                        let res = Expr::Cons(Rc::new(car), Rc::new(cdr));
                        proof {
                            lemma_sexp_shape(res);
                        }
                        Some((res, r))
                    },
                    None => None,
                }
            }
        },
    }
}

/// One form from `s` at or after `p`, and the position after it.
fn read_form(s: &Vec<char>, p: usize) -> (r: Option<(Expr, usize)>)
    requires
        p <= s@.len(),
    ensures
        read_as(r, parse_form(s@, p as int)),
        r is Some ==> p < r->Some_0.1 <= s@.len(),
    decreases s@.len() - p, 0int,
{
    let q = peek_nonwhitespaces(s, p);
    proof {
        lemma_skip_ws(s@, p as int);
        reveal_strlit("quote");
        reveal_strlit("function");
        assert("quote"@ =~= quote_name());
        assert("function"@ =~= function_name());
    }
    if q >= s.len() {
        return None;
    }
    let c = s[q];
    if is_digit_char(c) || ((c == '-' || c == '+') && q + 1 < s.len() && is_digit_char(s[q + 1])) {
        read_number(s, q)
    } else if c == '(' {
        read_list(s, q + 1)
    } else if c == ')' {
        None
    } else if c == '"' {
        read_string(s, q + 1)
    } else if c == '\'' {
        match read_form(s, q + 1) {
            Some((x, r)) => Some((tag("quote", x), r)),
            None => None,
        }
    } else if c == '#' {
        if q + 1 < s.len() && s[q + 1] == '\'' {
            match read_form(s, q + 2) {
                Some((x, r)) => Some((tag("function", x), r)),
                None => None,
            }
        } else {
            None
        }
    } else if c == ':' {
        let (k, e) = read_keyword(s, q + 1);
        Some((k, e))
    } else {
        let (x, e) = read_symbol(s, q);
        Some((x, e))
    }
}

/// A buffer of characters with a read position, from which forms are read
/// one after another.
pub struct Cursor {
    chars: Vec<char>,
    pos: usize,
}

impl Cursor {
    pub closed spec fn text(&self) -> Seq<char> {
        self.chars@
    }

    pub closed spec fn position(&self) -> int {
        self.pos as int
    }

    pub closed spec fn wf(&self) -> bool {
        self.pos <= self.chars@.len()
    }

    pub proof fn lemma_position_bound(&self)
        requires
            self.wf(),
        ensures
            0 <= self.position() <= self.text().len(),
    {
    }

    pub fn new(s: &str) -> (r: Cursor)
        ensures
            r.wf(),
            r.text() == s@,
            r.position() == 0,
    {
        Cursor { chars: chars_of(s), pos: 0 }
    }
}

/// Read the next form from the cursor and move past it. At the end of the
/// input, or on malformed text, `None` comes back and the cursor stays.
pub fn read_in(input: &mut Cursor) -> (r: Option<Expr>)
    requires
        old(input).wf(),
    ensures
        final(input).wf(),
        final(input).text() == old(input).text(),
        match parse_form(old(input).text(), old(input).position()) {
            None => r is None && final(input).position() == old(input).position(),
            Some((x, q)) => r is Some && r->Some_0@ == x && final(input).position() == q,
        },
        r is Some ==> final(input).position() > old(input).position(),
{
    match read_form(&input.chars, input.pos) {
        Some((e, q)) => {
            input.pos = q;
            Some(e)
        },
        None => None,
    }
}

/// Read one form from the start of `s`; what follows it is ignored.
pub fn read(s: &str) -> (r: Result<Expr>)
    ensures
        match parse_form(s@, 0) {
            None => r == Err::<Expr, Error>(Error::ReadError),
            Some((x, _)) => r is Ok && r->Ok_0@ == x,
        },
{
    let chars = chars_of(s);
    match read_form(&chars, 0) {
        Some((e, _)) => Ok(e),
        None => Err(Error::ReadError),
    }
}

} // verus!
