//! Decimal numbers as text: parsing unsigned values and grouping digits with commas.

use vstd::prelude::*;
use crate::text::{char_from_ascii_code, string_from_chars};

verus! {

pub open spec fn is_ascii_digit(c: char) -> bool {
    '0' <= c && c <= '9'
}

pub open spec fn digit_value(c: char) -> int {
    (c as u32) - ('0' as u32)
}

pub open spec fn digit_char(d: int) -> char {
    ((d + 48) as u32) as char
}

/// Value of a run of decimal digits (most significant first).
pub open spec fn digits_value(s: Seq<char>) -> int
    decreases s.len(),
{
    if s.len() == 0 {
        0
    } else {
        digits_value(s.drop_last()) * 10 + digit_value(s.last())
    }
}

pub open spec fn all_digits(s: Seq<char>) -> bool {
    forall|i: int| 0 <= i < s.len() ==> is_ascii_digit(#[trigger] s[i])
}

/// What `u64::from_str` accepts: an optional `+`, then at least one ASCII digit, with a
/// value that fits in `u64`.
pub open spec fn parse_u64_spec(s: Seq<char>) -> Option<u64> {
    let body = if s.len() > 0 && s[0] == '+' {
        s.drop_first()
    } else {
        s
    };
    if body.len() > 0 && all_digits(body) && digits_value(body) <= u64::MAX {
        Some(digits_value(body) as u64)
    } else {
        None
    }
}

proof fn lemma_digits_value_nonneg(s: Seq<char>)
    requires
        all_digits(s),
    ensures
        digits_value(s) >= 0,
    decreases s.len(),
{
    if s.len() > 0 {
        lemma_digits_value_nonneg(s.drop_last());
    }
}

proof fn lemma_digits_value_prefix(s: Seq<char>, i: int)
    requires
        0 <= i <= s.len(),
        all_digits(s),
    ensures
        digits_value(s) >= digits_value(s.take(i)),
    decreases s.len() - i,
{
    if i < s.len() {
        lemma_digits_value_prefix(s, i + 1);
        assert(s.take(i + 1).drop_last() =~= s.take(i));
        lemma_digits_value_nonneg(s.take(i));
        assert(digits_value(s.take(i + 1)) == digits_value(s.take(i)) * 10 + digit_value(s[i]));
    } else {
        assert(s.take(i) =~= s);
    }
}

/// `u64::from_str` on a character sequence.
pub fn parse_u64(v: &Vec<char>) -> (r: Option<u64>)
    ensures
        r == parse_u64_spec(v@),
{
    let ghost s = v@;
    let start: usize = if v.len() > 0 && v[0] == '+' {
        1
    } else {
        0
    };
    let ghost body = if s.len() > 0 && s[0] == '+' {
        s.drop_first()
    } else {
        s
    };
    assert(body =~= s.skip(start as int));
    if start >= v.len() {
        return None;
    }
    let mut acc: u64 = 0;
    let mut i: usize = start;
    assert(body.take(0) =~= Seq::<char>::empty());
    while i < v.len()
        invariant
            start <= i <= v.len(),
            s == v@,
            body == s.skip(start as int),
            body == if s.len() > 0 && s[0] == '+' {
                s.drop_first()
            } else {
                s
            },
            forall|k: int| 0 <= k < i - start ==> is_ascii_digit(#[trigger] body[k]),
            acc == digits_value(body.take(i - start)),
        decreases v.len() - i,
    {
        let c = v[i];
        if !('0' <= c && c <= '9') {
            assert(body[i - start] == c);
            assert(!is_ascii_digit(body[i - start]));
            assert(!all_digits(body));
            return None;
        }
        let d = (c as u32 - '0' as u32) as u64;
        assert(body.take(i - start + 1).drop_last() =~= body.take(i - start));
        assert(body.take(i - start + 1).last() == c);
        assert(digits_value(body.take(i - start + 1)) == acc * 10 + digit_value(c));
        assert(digit_value(c) == d);
        match acc.checked_mul(10) {
            None => {
                proof {
                    assert forall|k: int| 0 <= k < i - start + 1 implies is_ascii_digit(#[trigger] body.take(i - start + 1)[k]) by {
                        if k < i - start {
                            assert(body.take(i - start + 1)[k] == body[k]);
                        }
                    }
                    lemma_digits_value_nonneg(body.take(i - start));
                    if all_digits(body) {
                        lemma_digits_value_prefix(body, i - start + 1);
                    }
                }
                return None;
            },
            Some(m) => match m.checked_add(d) {
                None => {
                    proof {
                        assert forall|k: int| 0 <= k < i - start + 1 implies is_ascii_digit(#[trigger] body.take(i - start + 1)[k]) by {
                            if k < i - start {
                                assert(body.take(i - start + 1)[k] == body[k]);
                            }
                        }
                        if all_digits(body) {
                            lemma_digits_value_prefix(body, i - start + 1);
                        }
                    }
                    return None;
                },
                Some(n) => {
                    acc = n;
                },
            },
        }
        i = i + 1;
    }
    assert(body.take(i - start) =~= body);
    Some(acc)
}

/// Decimal digits of `n`, most significant first (`"0"` for zero).
pub open spec fn decimal_digits(n: nat) -> Seq<char>
    decreases n,
{
    if n < 10 {
        seq![digit_char(n as int)]
    } else {
        decimal_digits(n / 10).push(digit_char((n % 10) as int))
    }
}

/// `d` with a comma before each digit that starts a group of three counted from the
/// right (over the first `i` digits).
pub open spec fn with_commas_upto(d: Seq<char>, i: int) -> Seq<char>
    decreases i,
{
    if i <= 0 {
        Seq::empty()
    } else {
        with_commas_upto(d, i - 1) + if i - 1 > 0 && (d.len() - (i - 1)) % 3 == 0 {
            seq![',', d[i - 1]]
        } else {
            seq![d[i - 1]]
        }
    }
}

pub open spec fn with_commas(d: Seq<char>) -> Seq<char> {
    with_commas_upto(d, d.len() as int)
}

pub open spec fn abs_i64(x: i64) -> nat {
    if x < 0 {
        (-x) as nat
    } else {
        x as nat
    }
}

/// A score as shown on the HUD: a sign for negatives, and digits grouped in threes.
pub open spec fn format_money_spec(score: i64) -> Seq<char> {
    (if score < 0 {
        seq!['-']
    } else {
        Seq::empty()
    }) + with_commas(decimal_digits(abs_i64(score)))
}

fn digits_of(n: u64) -> (r: Vec<char>)
    ensures
        r@ == decimal_digits(n as nat),
{
    let mut out: Vec<char> = Vec::new();
    let mut m = n;
    if m == 0 {
        let c = char_from_ascii_code(48);
        out.push(c);
        assert(out@ =~= decimal_digits(0));
        return out;
    }
    while m > 0
        invariant
            m > 0 ==> decimal_digits(n as nat) == decimal_digits(m as nat) + out@,
            m == 0 ==> decimal_digits(n as nat) == out@,
        decreases m,
    {
        let d = (m % 10) as u32;
        let c = char_from_ascii_code(48 + d);
        let ghost old_out = out@;
        out.insert(0, c);
        assert(out@ =~= seq![c] + old_out);
        if m >= 10 {
            assert(decimal_digits(m as nat) == decimal_digits((m / 10) as nat).push(c));
            assert(decimal_digits((m / 10) as nat).push(c) + old_out =~= decimal_digits((m / 10) as nat) + out@);
        } else {
            assert(decimal_digits(m as nat) =~= seq![c]);
        }
        m = m / 10;
    }
    out
}

/// The HUD score text: `-` for negatives, digits grouped by three with commas.
pub fn format_money(score: i64) -> (r: String)
    ensures
        r@ == format_money_spec(score),
{
    let magnitude: u64 = if score < 0 {
        (-(score as i128)) as u64
    } else {
        score as u64
    };
    let digits = digits_of(magnitude);
    let n = digits.len();
    let mut out: Vec<char> = Vec::new();
    if score < 0 {
        out.push('-');
    }
    let ghost sign = out@;
    let mut i: usize = 0;
    while i < n
        invariant
            i <= n,
            n == digits.len(),
            out@ == sign + with_commas_upto(digits@, i as int),
        decreases n - i,
    {
        if i > 0 && (n - i) % 3 == 0 {
            out.push(',');
        }
        out.push(digits[i]);
        assert(out@ =~= sign + with_commas_upto(digits@, i + 1));
        i = i + 1;
    }
    string_from_chars(&out)
}

/// `s` without its commas.
pub open spec fn remove_commas(s: Seq<char>) -> Seq<char>
    decreases s.len(),
{
    if s.len() == 0 {
        s
    } else {
        remove_commas(s.drop_last()) + if s.last() == ',' {
            Seq::empty()
        } else {
            seq![s.last()]
        }
    }
}

/// What `i64::from_str` accepts: an optional `+` or `-`, then at least one ASCII digit,
/// with a value that fits in `i64`.
pub open spec fn parse_i64_spec(s: Seq<char>) -> Option<i64> {
    let neg = s.len() > 0 && s[0] == '-';
    let body = if s.len() > 0 && (s[0] == '+' || s[0] == '-') {
        s.drop_first()
    } else {
        s
    };
    if body.len() > 0 && all_digits(body) {
        let v = if neg {
            -digits_value(body)
        } else {
            digits_value(body)
        };
        if i64::MIN <= v <= i64::MAX {
            Some(v as i64)
        } else {
            None
        }
    } else {
        None
    }
}

/// Digits grouped by commas from the right: groups of three, the first of one to three.
pub open spec fn grouped(d: Seq<char>) -> Seq<char>
    decreases d.len(),
{
    if d.len() <= 3 {
        d
    } else {
        grouped(d.take(d.len() - 3)) + seq![','] + d.skip(d.len() - 3)
    }
}

proof fn lemma_remove_commas_concat(x: Seq<char>, y: Seq<char>)
    ensures
        remove_commas(x + y) == remove_commas(x) + remove_commas(y),
    decreases y.len(),
{
    if y.len() == 0 {
        assert(x + y =~= x);
        assert(remove_commas(x) + remove_commas(y) =~= remove_commas(x));
    } else {
        lemma_remove_commas_concat(x, y.drop_last());
        assert((x + y).drop_last() =~= x + y.drop_last());
        assert((x + y).last() == y.last());
    }
}

proof fn lemma_remove_commas_digits(d: Seq<char>)
    requires
        all_digits(d),
    ensures
        remove_commas(d) == d,
    decreases d.len(),
{
    if d.len() > 0 {
        assert(all_digits(d.drop_last())) by {
            assert forall|i: int| 0 <= i < d.drop_last().len() implies is_ascii_digit(#[trigger] d.drop_last()[i]) by {
                assert(d.drop_last()[i] == d[i]);
            }
        }
        lemma_remove_commas_digits(d.drop_last());
        assert(is_ascii_digit(d[d.len() - 1]));
        assert(d.drop_last() + seq![d.last()] =~= d);
    }
}

proof fn lemma_no_commas_short(d: Seq<char>, i: int)
    requires
        d.len() <= 3,
        0 <= i <= d.len(),
    ensures
        with_commas_upto(d, i) == d.take(i),
    decreases i,
{
    if i > 0 {
        lemma_no_commas_short(d, i - 1);
        assert(d.take(i - 1) + seq![d[i - 1]] =~= d.take(i));
    } else {
        assert(d.take(0) =~= Seq::<char>::empty());
    }
}

proof fn lemma_with_commas_prefix(d: Seq<char>, i: int)
    requires
        d.len() > 3,
        0 <= i <= d.len() - 3,
    ensures
        with_commas_upto(d, i) == with_commas_upto(d.take(d.len() - 3), i),
    decreases i,
{
    if i > 0 {
        lemma_with_commas_prefix(d, i - 1);
        let p = d.take(d.len() - 3);
        assert(p[i - 1] == d[i - 1]);
        assert((d.len() - (i - 1)) % 3 == (p.len() - (i - 1)) % 3);
    }
}

/// The left-to-right grouping is the grouping from the right.
proof fn lemma_with_commas_grouped(d: Seq<char>)
    ensures
        with_commas(d) == grouped(d),
    decreases d.len(),
{
    let l = d.len() as int;
    if l <= 3 {
        lemma_no_commas_short(d, l);
        assert(d.take(l) =~= d);
    } else {
        let p = d.take(l - 3);
        lemma_with_commas_prefix(d, l - 3);
        lemma_with_commas_grouped(p);
        assert(with_commas_upto(d, l - 2) == with_commas_upto(d, l - 3) + seq![',', d[l - 3]]);
        assert(with_commas_upto(d, l - 1) == with_commas_upto(d, l - 2) + seq![d[l - 2]]);
        assert(with_commas_upto(d, l) == with_commas_upto(d, l - 1) + seq![d[l - 1]]);
        assert(with_commas_upto(d, l) =~= with_commas_upto(p, l - 3) + seq![','] + d.skip(l - 3));
    }
}

/// The shape of grouped digits: commas stand exactly where a multiple of four characters
/// follows (so never first), everything else is a digit, and dropping the commas gives
/// the digits back.
proof fn lemma_grouped_shape(d: Seq<char>)
    requires
        d.len() >= 1,
        all_digits(d),
    ensures
        grouped(d).len() >= 1,
        grouped(d)[0] == d[0],
        forall|i: int| 0 <= i < grouped(d).len() ==> ((#[trigger] grouped(d)[i] == ',') <==> (grouped(d).len() - i) % 4 == 0),
        forall|i: int| 0 <= i < grouped(d).len() ==> (#[trigger] grouped(d)[i] != ',' ==> is_ascii_digit(grouped(d)[i])),
        remove_commas(grouped(d)) == d,
    decreases d.len(),
{
    let b = grouped(d);
    if d.len() <= 3 {
        lemma_remove_commas_digits(d);
        assert forall|i: int| 0 <= i < b.len() implies ((#[trigger] b[i] == ',') <==> (b.len() - i) % 4 == 0) by {
            assert(is_ascii_digit(d[i]));
        }
    } else {
        let p = d.take(d.len() - 3);
        let t = d.skip(d.len() - 3);
        assert(all_digits(p)) by {
            assert forall|i: int| 0 <= i < p.len() implies is_ascii_digit(#[trigger] p[i]) by {
                assert(p[i] == d[i]);
            }
        }
        assert(all_digits(t)) by {
            assert forall|i: int| 0 <= i < t.len() implies is_ascii_digit(#[trigger] t[i]) by {
                assert(t[i] == d[i + d.len() - 3]);
            }
        }
        lemma_grouped_shape(p);
        let bp = grouped(p);
        assert(b == bp + seq![','] + t);
        assert(b.len() == bp.len() + 4);
        assert forall|i: int| 0 <= i < b.len() implies ((#[trigger] b[i] == ',') <==> (b.len() - i) % 4 == 0) by {
            if i < bp.len() {
                assert(b[i] == bp[i]);
                assert((b.len() - i) % 4 == (bp.len() - i) % 4);
            } else if i > bp.len() {
                assert(b[i] == t[i - bp.len() - 1]);
                assert(is_ascii_digit(t[i - bp.len() - 1]));
            }
        }
        assert forall|i: int| 0 <= i < b.len() && #[trigger] b[i] != ',' implies is_ascii_digit(b[i]) by {
            if i < bp.len() {
                assert(b[i] == bp[i]);
            } else if i > bp.len() {
                assert(b[i] == t[i - bp.len() - 1]);
            }
        }
        assert(b[0] == bp[0]);
        lemma_remove_commas_concat(bp + seq![','], t);
        lemma_remove_commas_concat(bp, seq![',']);
        lemma_remove_commas_single(',');
        lemma_remove_commas_digits(t);
        assert(p + t =~= d);
        assert(remove_commas(bp) + Seq::<char>::empty() =~= remove_commas(bp));
    }
}

proof fn lemma_remove_commas_single(c: char)
    ensures
        remove_commas(seq![c]) == (if c == ',' { Seq::<char>::empty() } else { seq![c] }),
{
    assert(seq![c].drop_last() =~= Seq::<char>::empty());
    assert(remove_commas(Seq::<char>::empty()) == Seq::<char>::empty());
    assert(seq![c].last() == c);
    assert(Seq::<char>::empty() + seq![c] =~= seq![c]);
    assert(Seq::<char>::empty() + Seq::<char>::empty() =~= Seq::<char>::empty());
}

proof fn lemma_digit_char(x: int)
    requires
        0 <= x < 10,
    ensures
        is_ascii_digit(digit_char(x)),
        digit_value(digit_char(x)) == x,
        x > 0 ==> digit_char(x) != '0',
{
}

/// Decimal digits are digits, read back to their number, and start with `0` only for 0.
proof fn lemma_decimal_digits(m: nat)
    ensures
        decimal_digits(m).len() >= 1,
        all_digits(decimal_digits(m)),
        digits_value(decimal_digits(m)) == m,
        m > 0 ==> decimal_digits(m)[0] != '0',
    decreases m,
{
    if m < 10 {
        lemma_digit_char(m as int);
        let d = seq![digit_char(m as int)];
        assert(d.drop_last() =~= Seq::<char>::empty());
        assert(digits_value(Seq::<char>::empty()) == 0);
        assert(digits_value(d) == digits_value(d.drop_last()) * 10 + digit_value(d.last()));
    } else {
        lemma_decimal_digits(m / 10);
        lemma_digit_char((m % 10) as int);
        let p = decimal_digits(m / 10);
        let d = decimal_digits(m);
        assert(d == p.push(digit_char((m % 10) as int)));
        assert(d.drop_last() =~= p);
        assert forall|i: int| 0 <= i < d.len() implies is_ascii_digit(#[trigger] d[i]) by {
            if i < p.len() {
                assert(d[i] == p[i]);
            }
        }
        assert(d[0] == p[0]);
        assert(d.last() == digit_char((m % 10) as int));
        assert(digits_value(d) == digits_value(p) * 10 + digit_value(d.last()));
        assert((m / 10) * 10 + m % 10 == m);
    }
}

/// The score text after its sign: the digit groups.
pub open spec fn money_groups(n: i64) -> Seq<char> {
    if n < 0 {
        format_money_spec(n).drop_first()
    } else {
        format_money_spec(n)
    }
}

/// The score text reads back as the score: without its commas it parses to `n` as an
/// `i64`; it starts with `-` exactly for negative scores; after the sign, commas stand
/// exactly where a multiple of four characters follows (groups of three digits behind a
/// first group of one to three), every other character is a digit, and the first digit
/// is `0` only for a zero score.
pub proof fn law_format_money_reads_back(n: i64)
    ensures
        parse_i64_spec(remove_commas(format_money_spec(n))) == Some(n),
        (format_money_spec(n)[0] == '-') <==> n < 0,
        format_money_spec(n) == (if n < 0 { seq!['-'] } else { Seq::<char>::empty() }) + money_groups(n),
        money_groups(n).len() >= 1,
        forall|i: int|
            #![trigger money_groups(n)[i]]
            0 <= i < money_groups(n).len() ==> (money_groups(n)[i] == ',' <==> (money_groups(n).len() - i) % 4 == 0),
        forall|i: int|
            #![trigger money_groups(n)[i]]
            0 <= i < money_groups(n).len() && money_groups(n)[i] != ',' ==> is_ascii_digit(money_groups(n)[i]),
        money_groups(n)[0] == '0' ==> n == 0,
{
    let m = abs_i64(n);
    let d = decimal_digits(m);
    lemma_decimal_digits(m);
    lemma_with_commas_grouped(d);
    lemma_grouped_shape(d);
    let b = grouped(d);
    let sign: Seq<char> = if n < 0 { seq!['-'] } else { Seq::empty() };
    let s = format_money_spec(n);
    assert(s == sign + b);
    lemma_remove_commas_concat(sign, b);
    if n < 0 {
        lemma_remove_commas_single('-');
        assert(s.drop_first() =~= b);
        let r = remove_commas(s);
        assert(r =~= seq!['-'] + d);
        assert(r.drop_first() =~= d);
    } else {
        assert(remove_commas(sign) =~= Seq::<char>::empty());
        assert(s =~= b);
        assert(remove_commas(s) =~= d);
        assert(is_ascii_digit(d[0]));
    }
}

} // verus!
