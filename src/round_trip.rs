use vstd::prelude::*;
use crate::expr::Sexp;
use crate::print::{show, show_rest};
use crate::read::{
    digits_end, digits_value, is_delim, is_digit, is_white, lemma_skip_ws, max_magnitude, parse_form,
    parse_list, signed_value, skip_ws, string_end, token_end,
};
use crate::text::{decimal_text, digit_char, int_decimal};

verus! {

/// `s` holds the text `w` from position `p` on.
pub open spec fn at(s: Seq<char>, p: int, w: Seq<char>) -> bool {
    0 <= p && p + w.len() <= s.len() && s.subrange(p, p + w.len()) == w
}

/// What may follow an atom so that it ends there: nothing, white space or
/// a closing parenthesis.
pub open spec fn ends_after(s: Seq<char>, q: int) -> bool {
    q == s.len() || (0 <= q < s.len() && (is_white(s[q]) || s[q] == ')'))
}

/// A symbol name that reads back as itself: no delimiter in it, neither
/// `nil` nor the dot `.`, and not starting like a number, a keyword or a `#`
/// form.
pub open spec fn symbol_text_ok(t: Seq<char>) -> bool {
    &&& t.len() > 0
    &&& forall|k: int| 0 <= k < t.len() ==> !is_delim(#[trigger] t[k])
    &&& t != seq!['n', 'i', 'l']
    &&& t != seq!['.']
    &&& !is_digit(t[0])
    &&& (t[0] == '-' || t[0] == '+') ==> (t.len() == 1 || !is_digit(t[1]))
    &&& t[0] != ':' && t[0] != '#'
}

/// The expressions whose written form reads back as themselves: integers,
/// strings without `"`, symbols as above, keywords
/// without delimiters, nil, and proper or dotted lists of these.
pub open spec fn printable(x: Sexp) -> bool
    decreases x,
{
    match x {
        Sexp::Int(i) => i64::MIN <= i <= i64::MAX,
        Sexp::Float(_) => false,
        Sexp::Cons(a, d) => printable(*a) && printable(*d),
        Sexp::Nil => true,
        Sexp::Sym(t) => symbol_text_ok(t),
        Sexp::Keyword(t) => forall|k: int| 0 <= k < t.len() ==> !is_delim(#[trigger] t[k]),
        Sexp::Str(t) => forall|k: int| 0 <= k < t.len() ==> #[trigger] t[k] != '"',
        Sexp::Proc => false,
    }
}

proof fn lemma_at_split(s: Seq<char>, p: int, w1: Seq<char>, w2: Seq<char>)
    requires
        at(s, p, w1 + w2),
    ensures
        at(s, p, w1),
        at(s, p + w1.len(), w2),
{
    assert(s.subrange(p, p + w1.len()) =~= (w1 + w2).subrange(0, w1.len() as int));
    assert((w1 + w2).subrange(0, w1.len() as int) =~= w1);
    assert(s.subrange(p + w1.len(), p + w1.len() + w2.len()) =~= (w1 + w2).subrange(
        w1.len() as int,
        (w1.len() + w2.len()) as int,
    ));
    assert((w1 + w2).subrange(w1.len() as int, (w1.len() + w2.len()) as int) =~= w2);
}

proof fn lemma_at_index(s: Seq<char>, p: int, w: Seq<char>, k: int)
    requires
        at(s, p, w),
        0 <= k < w.len(),
    ensures
        s[p + k] == w[k],
{
    assert(s.subrange(p, p + w.len())[k] == s[p + k]);
}

proof fn lemma_token_run(s: Seq<char>, p: int, n: int)
    requires
        0 <= p,
        0 <= n,
        p + n <= s.len(),
        forall|k: int| p <= k < p + n ==> !is_delim(#[trigger] s[k]),
        p + n == s.len() || is_delim(s[p + n]),
    ensures
        token_end(s, p) == p + n,
    decreases n,
{
    if n > 0 {
        lemma_token_run(s, p + 1, n - 1);
    }
}

proof fn lemma_digit_run(s: Seq<char>, p: int, n: int)
    requires
        0 <= p,
        0 <= n,
        p + n <= s.len(),
        forall|k: int| p <= k < p + n ==> is_digit(#[trigger] s[k]),
        p + n == s.len() || !is_digit(s[p + n]),
    ensures
        digits_end(s, p) == p + n,
    decreases n,
{
    if n > 0 {
        lemma_digit_run(s, p + 1, n - 1);
    }
}

proof fn lemma_string_run(s: Seq<char>, p: int, n: int)
    requires
        0 <= p,
        0 <= n,
        p + n < s.len(),
        forall|k: int| p <= k < p + n ==> #[trigger] s[k] != '"',
        s[p + n] == '"',
    ensures
        string_end(s, p) == p + n,
    decreases n,
{
    if n > 0 {
        lemma_string_run(s, p + 1, n - 1);
    }
}

proof fn lemma_digit_char(d: nat)
    requires
        d < 10,
    ensures
        is_digit(digit_char(d)),
        digit_char(d) as int - '0' as int == d,
{
}

proof fn lemma_decimal(n: nat)
    ensures
        decimal_text(n).len() >= 1,
        forall|k: int| 0 <= k < decimal_text(n).len() ==> is_digit(#[trigger] decimal_text(n)[k]),
    decreases n,
{
    lemma_digit_char(n % 10);
    if n >= 10 {
        lemma_decimal(n / 10);
        let a = decimal_text(n / 10);
        let b = seq![digit_char(n % 10)];
        assert forall|k: int| 0 <= k < (a + b).len() implies is_digit(#[trigger] (a + b)[k]) by {
            if k < a.len() {
                assert((a + b)[k] == a[k]);
            } else {
                assert((a + b)[k] == b[k - a.len()]);
            }
        }
    } else {
        lemma_digit_char(n);
    }
}

proof fn lemma_decimal_value(s: Seq<char>, p: int, n: nat)
    requires
        at(s, p, decimal_text(n)),
    ensures
        digits_value(s, p, p + decimal_text(n).len()) == n,
    decreases n,
{
    let w = decimal_text(n);
    lemma_decimal(n);
    lemma_digit_char(n % 10);
    if n >= 10 {
        let a = decimal_text(n / 10);
        assert(w == a + seq![digit_char(n % 10)]);
        lemma_at_split(s, p, a, seq![digit_char(n % 10)]);
        lemma_decimal_value(s, p, n / 10);
        lemma_at_index(s, p, w, w.len() - 1);
        assert(w[w.len() - 1] == digit_char(n % 10));
        let q = p + w.len();
        assert(q - 1 == p + a.len());
        assert(digits_value(s, p, q) == digits_value(s, p, q - 1) * 10 + (s[q - 1] as int
            - '0' as int));
        vstd::arithmetic::div_mod::lemma_fundamental_div_mod(n as int, 10);
        assert(n == (n / 10) * 10 + n % 10);
    } else {
        assert(w == seq![digit_char(n)]);
        lemma_at_index(s, p, w, 0);
        lemma_digit_char(n);
        assert(digits_value(s, p, p + 1) == digits_value(s, p, p) * 10 + (s[p] as int
            - '0' as int));
    }
}

/// The facts about the first character of a written form that the reader
/// depends on.
proof fn lemma_show_first(x: Sexp)
    requires
        printable(x),
    ensures
        show(x).len() >= 1,
        !is_white(show(x)[0]),
        show(x)[0] != ')',
        show(x)[0] == '.' ==> show(x).len() >= 2 && !is_delim(show(x)[1]),
{
    match x {
        Sexp::Int(i) => {
            if i < 0 {
                lemma_decimal((-i) as nat);
            } else {
                lemma_decimal(i as nat);
            }
        },
        Sexp::Sym(t) => {
            assert(!is_delim(t[0]));
            if t[0] == '.' && t.len() == 1 {
                assert(t =~= seq!['.']);
            }
            if t.len() >= 2 {
                assert(!is_delim(t[1]));
            }
        },
        _ => {},
    }
}

proof fn lemma_parse_list_skip(s: Seq<char>, p: int, p2: int)
    requires
        0 <= p <= p2 <= s.len(),
        skip_ws(s, p) == skip_ws(s, p2),
    ensures
        parse_list(s, p) == parse_list(s, p2),
{
    lemma_skip_ws(s, p2);
}

proof fn lemma_parse_form_skip(s: Seq<char>, p: int, p2: int)
    requires
        0 <= p <= p2 <= s.len(),
        skip_ws(s, p) == skip_ws(s, p2),
    ensures
        parse_form(s, p) == parse_form(s, p2),
{
    lemma_skip_ws(s, p2);
}

proof fn lemma_read_atom(s: Seq<char>, p: int, x: Sexp)
    requires
        printable(x),
        !(x is Cons),
        at(s, p, show(x)),
        ends_after(s, p + show(x).len()),
    ensures
        parse_form(s, p) == Some((x, p + show(x).len())),
{
    let w = show(x);
    let e = p + w.len();
    lemma_show_first(x);
    lemma_at_index(s, p, w, 0);
    assert(skip_ws(s, p) == p);
    assert forall|k: int| p <= k < e implies s[k] == w[k - p] by {
        lemma_at_index(s, p, w, k - p);
    }
    match x {
        Sexp::Int(i) => {
            let neg = i < 0;
            let m: nat = if neg {
                (-i) as nat
            } else {
                i as nat
            };
            let dt = decimal_text(m);
            lemma_decimal(m);
            let start = if neg {
                p + 1
            } else {
                p
            };
            if neg {
                lemma_at_split(s, p, seq!['-'], dt);
            } else {
                assert(w == dt);
            }
            assert(at(s, start, dt));
            assert forall|k: int| start <= k < start + dt.len() implies is_digit(#[trigger] s[k]) by {
                lemma_at_index(s, start, dt, k - start);
            }
            lemma_at_index(s, start, dt, 0);
            lemma_digit_run(s, start, dt.len() as int);
            lemma_decimal_value(s, start, m);
            assert(digits_end(s, start) == e);
        },
        Sexp::Str(t) => {
            assert(w == seq!['"'] + t + seq!['"']);
            assert forall|k: int| p + 1 <= k < p + 1 + t.len() implies #[trigger] s[k] != '"' by {
                assert(s[k] == w[k - p]);
                assert(w[k - p] == t[k - p - 1]);
            }
            assert(s[e - 1] == w[w.len() - 1]);
            lemma_string_run(s, p + 1, t.len() as int);
            assert(s.subrange(p + 1, e - 1) =~= t);
        },
        Sexp::Sym(t) => {
            assert(w == t);
            assert forall|k: int| p <= k < e implies !is_delim(#[trigger] s[k]) by {
                assert(s[k] == t[k - p]);
            }
            if t.len() > 1 {
                assert(s[p + 1] == t[1]);
            }
            lemma_token_run(s, p, t.len() as int);
            assert(s.subrange(p, e) =~= t);
        },
        Sexp::Keyword(t) => {
            assert(w == seq![':'] + t);
            assert forall|k: int| p + 1 <= k < e implies !is_delim(#[trigger] s[k]) by {
                assert(s[k] == w[k - p]);
                assert(w[k - p] == t[k - p - 1]);
            }
            lemma_token_run(s, p + 1, t.len() as int);
            assert(s.subrange(p + 1, e) =~= t);
        },
        Sexp::Nil => {
            assert(w == seq!['n', 'i', 'l']);
            assert forall|k: int| p <= k < e implies !is_delim(#[trigger] s[k]) by {
                assert(s[k] == w[k - p]);
            }
            lemma_token_run(s, p, 3);
            assert(s.subrange(p, e) =~= seq!['n', 'i', 'l']);
        },
        _ => {},
    }
}

proof fn lemma_show_rest_first(d: Sexp)
    ensures
        show_rest(d).len() >= 1,
        show_rest(d)[0] == ')' || show_rest(d)[0] == ' ',
        d is Nil ==> show_rest(d) == seq![')'],
{
}

proof fn lemma_read_form(s: Seq<char>, p: int, x: Sexp)
    requires
        printable(x),
        at(s, p, show(x)),
        ends_after(s, p + show(x).len()),
    ensures
        parse_form(s, p) == Some((x, p + show(x).len())),
    decreases x, 2int,
{
    if x is Cons {
        let a = *x->Cons_0;
        let d = *x->Cons_1;
        assert(show(x) =~= seq!['('] + (show(a) + show_rest(d)));
        lemma_at_split(s, p, seq!['('], show(a) + show_rest(d));
        lemma_at_index(s, p, show(x), 0);
        assert(skip_ws(s, p) == p);
        lemma_read_body(s, p + 1, x);
    } else {
        lemma_read_atom(s, p, x);
    }
}

/// A list's elements after its opening parenthesis read back as the list.
proof fn lemma_read_body(s: Seq<char>, p: int, c: Sexp)
    requires
        c is Cons,
        printable(c),
        at(s, p, show(*c->Cons_0) + show_rest(*c->Cons_1)),
    ensures
        parse_list(s, p) == Some((c, p + show(*c->Cons_0).len() + show_rest(*c->Cons_1).len())),
    decreases c, 1int,
{
    let a = *c->Cons_0;
    let d = *c->Cons_1;
    let wa = show(a);
    let wd = show_rest(d);
    lemma_at_split(s, p, wa, wd);
    lemma_show_first(a);
    lemma_show_rest_first(d);
    lemma_at_index(s, p, wa, 0);
    lemma_at_index(s, p + wa.len(), wd, 0);
    let q1 = p + wa.len();
    assert(skip_ws(s, p) == p);
    lemma_read_form(s, p, a);
    lemma_read_rest(s, q1, d);
    lemma_skip_ws(s, q1);
    if d is Nil {
        assert(skip_ws(s, q1) == q1);
        assert(Sexp::Cons(Box::new(a), Box::new(Sexp::Nil)) == c);
    } else if d is Cons {
        let a2 = *d->Cons_0;
        reveal_with_fuel(printable, 2);
        assert(printable(a2));
        lemma_show_first(a2);
        assert(wd =~= seq![' '] + (show(a2) + show_rest(*d->Cons_1)));
        lemma_at_split(s, q1, seq![' '], show(a2) + show_rest(*d->Cons_1));
        lemma_at_index(s, q1 + 1, show(a2) + show_rest(*d->Cons_1), 0);
        if show(a2)[0] == '.' {
            lemma_at_index(s, q1 + 1, show(a2) + show_rest(*d->Cons_1), 1);
            assert(!is_delim(s[q1 + 2]));
            assert(token_end(s, q1 + 1) == token_end(s, q1 + 2));
            assert(token_end(s, q1 + 2) == token_end(s, q1 + 3));
            crate::read::lemma_token_end(s, q1 + 3);
            assert(token_end(s, q1 + 1) != q1 + 2);
        }
        assert(skip_ws(s, q1 + 1) == q1 + 1);
        assert(skip_ws(s, q1) == q1 + 1);
        lemma_parse_list_skip(s, q1, q1 + 1);
        assert(Sexp::Cons(Box::new(a), Box::new(d)) == c);
    } else {
        assert(wd == seq![' ', '.', ' '] + show(d) + seq![')']);
        assert(wd[1] == '.' && wd[2] == ' ');
        lemma_at_index(s, q1, wd, 1);
        lemma_at_index(s, q1, wd, 2);
        assert(s[q1 + 1] == '.' && !is_delim(s[q1 + 1]));
        assert(is_delim(s[q1 + 2]));
        assert(token_end(s, q1 + 2) == q1 + 2);
        assert(token_end(s, q1 + 1) == q1 + 2);
        assert(skip_ws(s, q1 + 1) == q1 + 1);
        assert(skip_ws(s, q1) == q1 + 1);
        assert(Sexp::Cons(Box::new(a), Box::new(d)) == c);
    }
}

/// The rest of a list (see `show_rest`) reads back: as nil, as the rest of
/// the list, or after ` .` as the one-element list of its tail.
proof fn lemma_read_rest(s: Seq<char>, p: int, d: Sexp)
    requires
        printable(d),
        at(s, p, show_rest(d)),
    ensures
        d is Nil ==> parse_list(s, p) == Some((Sexp::Nil, p + 1)),
        d is Cons ==> parse_list(s, p) == Some((d, p + show_rest(d).len())),
        !(d is Nil || d is Cons) ==> parse_list(s, p + 2) == Some(
            (Sexp::Cons(Box::new(d), Box::new(Sexp::Nil)), p + show_rest(d).len()),
        ),
    decreases d, 3int,
{
    let w = show_rest(d);
    if d is Nil {
        lemma_at_index(s, p, w, 0);
        assert(skip_ws(s, p) == p);
    } else if d is Cons {
        let a2 = *d->Cons_0;
        let body = show(a2) + show_rest(*d->Cons_1);
        assert(w =~= seq![' '] + body);
        lemma_at_split(s, p, seq![' '], body);
        lemma_at_index(s, p, w, 0);
        lemma_show_first(a2);
        lemma_at_index(s, p + 1, body, 0);
        assert(skip_ws(s, p + 1) == p + 1);
        assert(skip_ws(s, p) == p + 1);
        lemma_parse_list_skip(s, p, p + 1);
        lemma_read_body(s, p + 1, d);
    } else {
        let wx = show(d);
        assert(w =~= seq![' ', '.', ' '] + (wx + seq![')']));
        lemma_at_split(s, p, seq![' ', '.', ' '], wx + seq![')']);
        lemma_at_split(s, p + 3, wx, seq![')']);
        lemma_at_index(s, p, w, 2);
        lemma_show_first(d);
        lemma_at_index(s, p + 3, wx, 0);
        let e = p + 3 + wx.len();
        lemma_at_index(s, e, seq![')'], 0);
        assert(skip_ws(s, p + 3) == p + 3);
        assert(skip_ws(s, p + 2) == p + 3);
        lemma_read_form(s, p + 3, d);
        lemma_skip_ws(s, e);
        assert(skip_ws(s, e) == e);
        assert(parse_list(s, e) == Some((Sexp::Nil, e + 1)));
    }
}

/// Reading the written form of a printable expression gives the expression
/// back, and the reader stops exactly at the end of the text.
pub proof fn lemma_read_round_trip(x: Sexp)
    requires
        printable(x),
    ensures
        parse_form(show(x), 0) == Some((x, show(x).len() as int)),
{
    let s = show(x);
    assert(s.subrange(0, s.len() as int) =~= s);
    lemma_read_form(s, 0, x);
}

/// Two written forms separated by a space are read back one after the
/// other, in order: the second read starts where the first one stopped.
pub proof fn lemma_read_in_order(x: Sexp, y: Sexp)
    requires
        printable(x),
        printable(y),
    ensures
        ({
            let s = show(x) + seq![' '] + show(y);
            &&& parse_form(s, 0) == Some((x, show(x).len() as int))
            &&& parse_form(s, show(x).len() as int) == Some((y, s.len() as int))
        }),
{
    let s = show(x) + seq![' '] + show(y);
    let n = show(x).len() as int;
    let rest = seq![' '] + show(y);
    assert(s =~= show(x) + rest);
    assert(s.subrange(0, s.len() as int) =~= show(x) + rest);
    lemma_at_split(s, 0, show(x), rest);
    lemma_at_split(s, n, seq![' '], show(y));
    lemma_at_index(s, n, seq![' '], 0);
    lemma_read_form(s, 0, x);
    lemma_show_first(y);
    lemma_at_index(s, n + 1, show(y), 0);
    assert(skip_ws(s, n + 1) == n + 1);
    assert(skip_ws(s, n) == n + 1);
    lemma_parse_form_skip(s, n, n + 1);
    lemma_read_form(s, n + 1, y);
}

/// The written forms of `xs`, each followed by a space.
pub open spec fn joined(xs: Seq<Sexp>) -> Seq<char>
    decreases xs.len(),
{
    if xs.len() == 0 {
        Seq::empty()
    } else {
        show(xs[0]) + seq![' '] + joined(xs.drop_first())
    }
}

/// Where the `i`-th written form starts in `joined(xs)`.
pub open spec fn offset(xs: Seq<Sexp>, i: int) -> int
    decreases i,
{
    if i <= 0 {
        0
    } else {
        offset(xs, i - 1) + show(xs[i - 1]).len() + 1
    }
}

proof fn lemma_at_shift(a: Seq<char>, b: Seq<char>, p: int, w: Seq<char>)
    requires
        at(b, p, w),
    ensures
        at(a + b, a.len() + p, w),
{
    assert((a + b).subrange(a.len() + p, a.len() + p + w.len()) =~= b.subrange(p, p + w.len()));
}

proof fn lemma_offset_shift(xs: Seq<Sexp>, i: int)
    requires
        1 <= i <= xs.len(),
    ensures
        offset(xs, i) == show(xs[0]).len() + 1 + offset(xs.drop_first(), i - 1),
    decreases i,
{
    if i > 1 {
        lemma_offset_shift(xs, i - 1);
        assert(xs.drop_first()[i - 2] == xs[i - 1]);
        assert(offset(xs.drop_first(), i - 1) == offset(xs.drop_first(), i - 2) + show(
            xs.drop_first()[i - 2],
        ).len() + 1);
    } else {
        assert(offset(xs, 0) == 0);
        assert(offset(xs.drop_first(), 0) == 0);
    }
}

proof fn lemma_joined_at(xs: Seq<Sexp>, i: int)
    requires
        0 <= i < xs.len(),
    ensures
        at(joined(xs), offset(xs, i), show(xs[i]) + seq![' ']),
        joined(xs).len() == offset(xs, xs.len() as int),
    decreases xs.len(),
{
    let rest = xs.drop_first();
    let head = show(xs[0]) + seq![' '];
    assert(joined(xs) == head + joined(rest));
    if rest.len() > 0 {
        lemma_joined_at(rest, 0);
    } else {
        assert(joined(rest) =~= Seq::<char>::empty());
        assert(offset(rest, 0) == 0);
    }
    lemma_offset_shift(xs, xs.len() as int);
    if i == 0 {
        assert(joined(xs).subrange(0, head.len() as int) =~= head);
    } else {
        lemma_joined_at(rest, i - 1);
        assert(rest[i - 1] == xs[i]);
        lemma_at_shift(head, joined(rest), offset(rest, i - 1), show(xs[i]) + seq![' ']);
        lemma_offset_shift(xs, i);
    }
}

/// Written forms separated by spaces are read back one after the other,
/// in order: the `i`-th read, at `offset(xs, i)`, gives the `i`-th form; the
/// next read, from where it stopped, is the read at `offset(xs, i + 1)`; and
/// after the last form nothing more is read.
pub proof fn lemma_read_sequence(xs: Seq<Sexp>)
    requires
        forall|i: int| 0 <= i < xs.len() ==> printable(#[trigger] xs[i]),
    ensures
        forall|i: int|
            0 <= i < xs.len() ==> parse_form(joined(xs), offset(xs, i)) == Some(
                (xs[i], offset(xs, i) + show(xs[i]).len()),
            ) && parse_form(joined(xs), offset(xs, i) + show(xs[i]).len()) == parse_form(
                joined(xs),
                #[trigger] offset(xs, i + 1),
            ),
        parse_form(joined(xs), offset(xs, xs.len() as int)) is None,
{
    let s = joined(xs);
    assert forall|i: int|
        0 <= i < xs.len() implies parse_form(joined(xs), offset(xs, i)) == Some(
            (xs[i], offset(xs, i) + show(xs[i]).len()),
        ) && parse_form(joined(xs), offset(xs, i) + show(xs[i]).len()) == parse_form(
            joined(xs),
            #[trigger] offset(xs, i + 1),
        ) by {
        let p = offset(xs, i);
        let w = show(xs[i]);
        lemma_joined_at(xs, i);
        lemma_at_split(s, p, w, seq![' ']);
        lemma_at_index(s, p + w.len(), seq![' '], 0);
        lemma_read_form(s, p, xs[i]);
        lemma_skip_ws(s, p + w.len() + 1);
        assert(skip_ws(s, p + w.len()) == skip_ws(s, p + w.len() + 1));
        lemma_parse_form_skip(s, p + w.len(), p + w.len() + 1);
    }
    if xs.len() > 0 {
        lemma_joined_at(xs, 0);
    } else {
        assert(s =~= Seq::<char>::empty());
    }
}

} // verus!
