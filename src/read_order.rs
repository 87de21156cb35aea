use vstd::prelude::*;
use crate::expr::Sexp;
use crate::read::{
    digits_end, digits_value, is_delim, is_digit, is_white, lemma_skip_ws, lemma_token_end,
    parse_form, parse_list, parse_number, skip_ws, string_end, token_end,
};

verus! {

/// `s2` holds the characters of `s1` in `[lo, hi)`, shifted by `d`.
pub open spec fn agree(s1: Seq<char>, s2: Seq<char>, d: int, lo: int, hi: int) -> bool {
    &&& 0 <= lo <= hi <= s1.len()
    &&& 0 <= lo + d
    &&& hi + d <= s2.len()
    &&& forall|k: int| lo <= k < hi ==> s1[k] == #[trigger] s2[k + d]
}

/// What follows position `hi` in `s2` ends a token as what follows it in
/// `s1` does: the same character, or white space (or nothing) where `s1`
/// ends.
pub open spec fn end_ok(s1: Seq<char>, s2: Seq<char>, d: int, hi: int) -> bool {
    ||| (hi < s1.len() && hi + d < s2.len() && s1[hi] == s2[hi + d])
    ||| (hi == s1.len() && (hi + d == s2.len() || (hi + d < s2.len() && is_white(s2[hi + d]))))
}

proof fn lemma_agree_sub(s1: Seq<char>, s2: Seq<char>, d: int, lo: int, hi: int, a: int, b: int)
    requires
        agree(s1, s2, d, lo, hi),
        lo <= a <= b <= hi,
    ensures
        agree(s1, s2, d, a, b),
        s1.subrange(a, b) == s2.subrange(a + d, b + d),
{
    assert(s1.subrange(a, b) =~= s2.subrange(a + d, b + d)) by {
        assert forall|k: int| 0 <= k < b - a implies s1.subrange(a, b)[k] == s2.subrange(a + d, b + d)[k] by {
            assert(s2[(a + k) + d] == s1[a + k]);
        }
    }
}

/// The character at `k` (inside the window, or at its end) is a delimiter,
/// white, a digit or a given character in both texts alike.
proof fn lemma_at_char(s1: Seq<char>, s2: Seq<char>, d: int, lo: int, hi: int, k: int)
    requires
        agree(s1, s2, d, lo, hi),
        end_ok(s1, s2, d, hi),
        lo <= k <= hi,
    ensures
        k < s1.len() ==> k + d < s2.len() && s1[k] == s2[k + d],
        k == s1.len() ==> (k + d == s2.len() || (k + d < s2.len() && is_white(s2[k + d]))),
{
    if k < hi {
        assert(s1[k] == s2[k + d]);
    }
}

proof fn lemma_skip_agree(s1: Seq<char>, s2: Seq<char>, d: int, lo: int, hi: int, p: int)
    requires
        agree(s1, s2, d, lo, hi),
        lo <= p <= hi,
        skip_ws(s1, p) < hi,
    ensures
        skip_ws(s2, p + d) == skip_ws(s1, p) + d,
    decreases hi - p,
{
    lemma_skip_ws(s1, p);
    assert(p < hi);
    assert(s2[p + d] == s1[p]);
    if is_white(s1[p]) {
        lemma_skip_ws(s1, p + 1);
        lemma_skip_agree(s1, s2, d, lo, hi, p + 1);
    }
}

proof fn lemma_token_agree(s1: Seq<char>, s2: Seq<char>, d: int, lo: int, hi: int, a: int)
    requires
        agree(s1, s2, d, lo, hi),
        end_ok(s1, s2, d, hi),
        lo <= a <= hi,
    ensures
        token_end(s1, a) <= hi ==> token_end(s2, a + d) == token_end(s1, a) + d,
        token_end(s1, a) > hi ==> token_end(s2, a + d) > hi + d,
    decreases hi - a,
{
    lemma_at_char(s1, s2, d, lo, hi, a);
    lemma_token_end(s1, a);
    if a < s1.len() && !is_delim(s1[a]) {
        lemma_token_end(s1, a + 1);
        assert(!is_delim(s2[a + d]));
        assert(token_end(s2, a + d) == token_end(s2, a + d + 1));
        if a < hi {
            lemma_token_agree(s1, s2, d, lo, hi, a + 1);
        } else {
            lemma_token_end(s2, a + d + 1);
        }
    } else {
        assert(token_end(s1, a) == a);
        if a < s1.len() {
            assert(is_delim(s2[a + d]));
        }
        assert(token_end(s2, a + d) == a + d);
    }
}

proof fn lemma_digits_agree(s1: Seq<char>, s2: Seq<char>, d: int, lo: int, hi: int, a: int)
    requires
        agree(s1, s2, d, lo, hi),
        end_ok(s1, s2, d, hi),
        lo <= a <= hi,
        digits_end(s1, a) <= hi,
    ensures
        digits_end(s2, a + d) == digits_end(s1, a) + d,
        digits_value(s2, a + d, digits_end(s2, a + d)) == digits_value(s1, a, digits_end(s1, a)),
    decreases hi - a,
{
    lemma_at_char(s1, s2, d, lo, hi, a);
    if a < s1.len() && is_digit(s1[a]) {
        crate::read::lemma_digits_end(s1, a + 1);
        assert(digits_end(s1, a) == digits_end(s1, a + 1));
        assert(is_digit(s2[a + d]));
        lemma_digits_agree(s1, s2, d, lo, hi, a + 1);
    } else {
        assert(digits_end(s1, a) == a);
        if a < s1.len() {
            assert(!is_digit(s2[a + d]));
        }
        assert(digits_end(s2, a + d) == a + d);
    }
    lemma_value_agree(s1, s2, d, lo, hi, a, digits_end(s1, a));
}

proof fn lemma_value_agree(s1: Seq<char>, s2: Seq<char>, d: int, lo: int, hi: int, a: int, b: int)
    requires
        agree(s1, s2, d, lo, hi),
        lo <= a,
        b <= hi,
    ensures
        digits_value(s2, a + d, b + d) == digits_value(s1, a, b),
    decreases b - a,
{
    if b > a {
        lemma_value_agree(s1, s2, d, lo, hi, a, b - 1);
        assert(s1[b - 1] == s2[b - 1 + d]);
    }
}

proof fn lemma_string_agree(s1: Seq<char>, s2: Seq<char>, d: int, lo: int, hi: int, a: int)
    requires
        agree(s1, s2, d, lo, hi),
        lo <= a <= hi,
        string_end(s1, a) < hi,
    ensures
        string_end(s2, a + d) == string_end(s1, a) + d,
    decreases hi - a,
{
    crate::read::lemma_string_end(s1, a);
    assert(s2[a + d] == s1[a]);
    if s1[a] != '"' {
        crate::read::lemma_string_end(s1, a + 1);
        lemma_string_agree(s1, s2, d, lo, hi, a + 1);
    }
}

/// A parse never ends before it starts, nor past the text.
pub proof fn lemma_parse_progress(s: Seq<char>, p: int)
    ensures
        parse_form(s, p) is Some ==> skip_ws(s, p) < parse_form(s, p)->Some_0.1 <= s.len()
            && p <= skip_ws(s, p),
        parse_list(s, p) is Some ==> p < parse_list(s, p)->Some_0.1 <= s.len(),
    decreases s.len() - p,
{
    if 0 <= p <= s.len() {
        lemma_skip_ws(s, p);
        let q = skip_ws(s, p);
        if q < s.len() {
            if q + 1 <= s.len() {
                lemma_parse_progress(s, q + 1);
            }
            if q + 2 <= s.len() {
                lemma_parse_progress(s, q + 2);
            }
            lemma_token_end(s, q);
            lemma_token_end(s, q + 1);
            if q + 1 <= s.len() {
                crate::read::lemma_string_end(s, q + 1);
                crate::read::lemma_digits_end(s, q + 1);
            }
            crate::read::lemma_digits_end(s, q);
            if is_digit(s[q]) || ((s[q] == '-' || s[q] == '+') && q + 1 < s.len() && is_digit(s[q + 1])) {
                let start = if is_digit(s[q]) { q } else { q + 1 };
                crate::read::lemma_digits_end(s, start + 1);
                let e = digits_end(s, start);
                if e + 1 <= s.len() {
                    crate::read::lemma_digits_end(s, e + 1);
                }
            }
            if parse_form(s, q) is Some {
                let q1 = parse_form(s, q)->Some_0.1;
                if q1 <= s.len() && q1 >= 0 {
                    lemma_skip_ws(s, q1);
                    let q2 = skip_ws(s, q1);
                    if q2 + 1 <= s.len() && q2 > q {
                        lemma_parse_progress(s, q2 + 1);
                    }
                    if q2 > q && q2 <= s.len() {
                        lemma_parse_progress(s, q2);
                    }
                }
            }
        }
    }
}

/// A form that reads from `s1` at `p` up to `hi` reads the same from `s2`
/// wherever `s2` holds the same characters, followed by what ends the form
/// as well.
pub proof fn lemma_form_agree(s1: Seq<char>, s2: Seq<char>, d: int, p: int, hi: int)
    requires
        0 <= p,
        parse_form(s1, p) is Some,
        parse_form(s1, p)->Some_0.1 == hi,
        agree(s1, s2, d, p, hi),
        end_ok(s1, s2, d, hi),
    ensures
        parse_form(s2, p + d) == Some((parse_form(s1, p)->Some_0.0, hi + d)),
    decreases s1.len() - p, 0int,
{
    lemma_parse_progress(s1, p);
    let k = skip_ws(s1, p);
    lemma_skip_agree(s1, s2, d, p, hi, p);
    lemma_skip_ws(s1, p);
    assert(s2[k + d] == s1[k]);
    let c = s1[k];
    lemma_at_char(s1, s2, d, p, hi, k + 1);
    if is_digit(c) || ((c == '-' || c == '+') && k + 1 < s1.len() && is_digit(s1[k + 1])) {
        let start = if is_digit(c) { k } else { k + 1 };
        crate::read::lemma_digits_end(s1, start);
        let e = digits_end(s1, start);
        if e < s1.len() && s1[e] == '.' {
            crate::read::lemma_digits_end(s1, e + 1);
        }
        assert(e <= hi);
        lemma_digits_agree(s1, s2, d, p, hi, start);
        lemma_at_char(s1, s2, d, p, hi, e);
        if e < s1.len() && s1[e] == '.' {
            let fe = digits_end(s1, e + 1);
            lemma_digits_agree(s1, s2, d, p, hi, e + 1);
            lemma_agree_sub(s1, s2, d, p, hi, e + 1, fe);
        }
        assert(parse_number(s2, k + d) == Some((parse_form(s1, p)->Some_0.0, hi + d)));
    } else if c == '(' {
        lemma_list_agree(s1, s2, d, k + 1, hi);
    } else if c == '"' {
        crate::read::lemma_string_end(s1, k + 1);
        lemma_string_agree(s1, s2, d, p, hi, k + 1);
        lemma_agree_sub(s1, s2, d, p, hi, k + 1, string_end(s1, k + 1));
    } else if c == '\'' {
        lemma_form_agree(s1, s2, d, k + 1, hi);
    } else if c == '#' {
        lemma_parse_progress(s1, k + 2);
        lemma_skip_ws(s1, k + 2);
        assert(s2[k + 1 + d] == s1[k + 1]);
        lemma_form_agree(s1, s2, d, k + 2, hi);
    } else if c == ':' {
        lemma_token_agree(s1, s2, d, p, hi, k + 1);
        lemma_agree_sub(s1, s2, d, p, hi, k + 1, hi);
    } else {
        lemma_token_agree(s1, s2, d, p, hi, k);
        lemma_agree_sub(s1, s2, d, p, hi, k, hi);
    }
}

/// The rest of a list reads the same from `s2` as from `s1` (see
/// `lemma_form_agree`).
pub proof fn lemma_list_agree(s1: Seq<char>, s2: Seq<char>, d: int, p: int, hi: int)
    requires
        0 <= p,
        parse_list(s1, p) is Some,
        parse_list(s1, p)->Some_0.1 == hi,
        agree(s1, s2, d, p, hi),
        end_ok(s1, s2, d, hi),
    ensures
        parse_list(s2, p + d) == Some((parse_list(s1, p)->Some_0.0, hi + d)),
    decreases s1.len() - p, 1int,
{
    lemma_skip_ws(s1, p);
    let q = skip_ws(s1, p);
    if s1[q] == ')' {
        lemma_skip_agree(s1, s2, d, p, hi, p);
        assert(s2[q + d] == s1[q]);
    } else {
        lemma_parse_progress(s1, q);
        let q1 = parse_form(s1, q)->Some_0.1;
        lemma_skip_ws(s1, q1);
        let q2 = skip_ws(s1, q1);
        let dotted = s1[q2] == '.' && token_end(s1, q2) == q2 + 1;
        if dotted {
            lemma_parse_progress(s1, q2 + 1);
        } else {
            lemma_parse_progress(s1, q2);
        }
        assert(q < q1 <= q2 < hi);
        lemma_skip_agree(s1, s2, d, p, hi, p);
        assert(s2[q + d] == s1[q]);
        assert(s2[q1 + d] == s1[q1]);
        lemma_form_agree(s1, s2, d, q, q1);
        lemma_skip_agree(s1, s2, d, p, hi, q1);
        assert(s2[q2 + d] == s1[q2]);
        lemma_token_agree(s1, s2, d, p, hi, q2);
        if dotted {
            lemma_list_agree(s1, s2, d, q2 + 1, hi);
        } else {
            lemma_list_agree(s1, s2, d, q2, hi);
        }
    }
}

/// The texts `ts` joined by single spaces.
pub open spec fn spaced(ts: Seq<Seq<char>>) -> Seq<char>
    decreases ts.len(),
{
    if ts.len() == 0 {
        Seq::empty()
    } else if ts.len() == 1 {
        ts[0]
    } else {
        ts[0] + seq![' '] + spaced(ts.drop_first())
    }
}

/// Where the `i`-th text starts in `spaced(ts)`.
pub open spec fn start_of(ts: Seq<Seq<char>>, i: int) -> int
    decreases i,
{
    if i <= 0 {
        0
    } else {
        start_of(ts, i - 1) + ts[i - 1].len() + 1
    }
}

proof fn lemma_start_shift(ts: Seq<Seq<char>>, i: int)
    requires
        1 <= i <= ts.len(),
    ensures
        start_of(ts, i) == ts[0].len() + 1 + start_of(ts.drop_first(), i - 1),
    decreases i,
{
    if i > 1 {
        lemma_start_shift(ts, i - 1);
        assert(ts.drop_first()[i - 2] == ts[i - 1]);
        assert(start_of(ts.drop_first(), i - 1) == start_of(ts.drop_first(), i - 2)
            + ts.drop_first()[i - 2].len() + 1);
    } else {
        assert(start_of(ts, 0) == 0);
        assert(start_of(ts.drop_first(), 0) == 0);
    }
}

/// Where the `i`-th text sits in `spaced(ts)`, and what follows it: a
/// space, or the end after the last one.
proof fn lemma_spaced_at(ts: Seq<Seq<char>>, i: int)
    requires
        0 <= i < ts.len(),
    ensures
        agree(ts[i], spaced(ts), start_of(ts, i), 0, ts[i].len() as int),
        i + 1 < ts.len() ==> start_of(ts, i) + ts[i].len() < spaced(ts).len() && spaced(ts)[start_of(ts, i)
            + ts[i].len()] == ' ',
        i + 1 == ts.len() ==> start_of(ts, i) + ts[i].len() == spaced(ts).len(),
    decreases ts.len(),
{
    let s = spaced(ts);
    let rest = ts.drop_first();
    if ts.len() == 1 {
        assert(start_of(ts, 0) == 0);
    } else {
        let head = ts[0] + seq![' '];
        assert(s == head + spaced(rest));
        if i == 0 {
            assert(start_of(ts, 0) == 0);
            assert forall|k: int| 0 <= k < ts[0].len() implies ts[0][k] == #[trigger] s[k + 0] by {
                assert(s[k] == head[k]);
            }
            assert(s[ts[0].len() as int] == head[ts[0].len() as int]);
        } else {
            lemma_spaced_at(rest, i - 1);
            lemma_start_shift(ts, i);
            assert(rest[i - 1] == ts[i]);
            let off = start_of(rest, i - 1);
            assert forall|k: int| 0 <= k < ts[i].len() implies ts[i][k] == #[trigger] s[k + start_of(ts, i)] by {
                assert(spaced(rest)[k + off] == ts[i][k]);
                assert(s[k + start_of(ts, i)] == spaced(rest)[k + off]);
            }
            if i + 1 < ts.len() {
                assert(s[start_of(ts, i) + ts[i].len()] == spaced(rest)[off + ts[i].len()]);
            }
        }
    }
}

/// Forms written one after another, separated by single spaces, are read
/// one after the other in order. Each text `ts[i]` is exactly one form:
/// reading it from its start gives `xs[i]` and ends at its end. Then in
/// `spaced(ts)` the read at the `i`-th start gives `xs[i]` and stops at the
/// end of `ts[i]`; reading on from there is reading at the next start; and
/// after the last form nothing more is read.
pub proof fn lemma_read_texts_in_order(ts: Seq<Seq<char>>, xs: Seq<Sexp>)
    requires
        ts.len() == xs.len(),
        forall|i: int|
            0 <= i < ts.len() ==> parse_form(#[trigger] ts[i], 0) == Some(
                (xs[i], ts[i].len() as int),
            ),
    ensures
        forall|i: int|
            0 <= i < ts.len() ==> parse_form(spaced(ts), #[trigger] start_of(ts, i)) == Some(
                (xs[i], start_of(ts, i) + ts[i].len()),
            ),
        forall|i: int|
            0 <= i && i + 1 < ts.len() ==> parse_form(spaced(ts), start_of(ts, i) + ts[i].len())
                == parse_form(spaced(ts), #[trigger] start_of(ts, i + 1)),
        parse_form(spaced(ts), spaced(ts).len() as int) is None,
{
    let s = spaced(ts);
    assert forall|i: int|
        0 <= i < ts.len() implies parse_form(spaced(ts), #[trigger] start_of(ts, i)) == Some(
            (xs[i], start_of(ts, i) + ts[i].len()),
        ) by {
        lemma_spaced_at(ts, i);
        let d = start_of(ts, i);
        let n = ts[i].len() as int;
        assert(parse_form(ts[i], 0) == Some((xs[i], n)));
        assert(end_ok(ts[i], s, d, n));
        lemma_form_agree(ts[i], s, d, 0, n);
    }
    assert forall|i: int|
        0 <= i && i + 1 < ts.len() implies parse_form(spaced(ts), start_of(ts, i) + ts[i].len())
            == parse_form(spaced(ts), #[trigger] start_of(ts, i + 1)) by {
        lemma_spaced_at(ts, i);
        let a = start_of(ts, i) + ts[i].len();
        assert(start_of(ts, i + 1) == a + 1);
        lemma_skip_ws(s, a + 1);
        assert(skip_ws(s, a) == skip_ws(s, a + 1));
    }
}

} // verus!
