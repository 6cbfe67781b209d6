//! Hexadecimal colour parsing.

use vstd::prelude::*;
use vstd::arithmetic::div_mod::{lemma_fundamental_div_mod_converse, lemma_small_mod};
use crate::text::{trim_chars, trim_seq, trim_start_seq, trim_end_seq, is_white_space};

verus! {

/// The value of a hexadecimal digit.
pub open spec fn hex_digit(c: char) -> Option<int> {
    if '0' <= c && c <= '9' {
        Some(c as int - '0' as int)
    } else if 'a' <= c && c <= 'f' {
        Some(c as int - 'a' as int + 10)
    } else if 'A' <= c && c <= 'F' {
        Some(c as int - 'A' as int + 10)
    } else {
        None
    }
}

pub open spec fn all_hex(s: Seq<char>) -> bool {
    forall|i: int| 0 <= i < s.len() ==> (#[trigger] hex_digit(s[i])) is Some
}

/// The number that hexadecimal digits spell (meaningful when they all are digits).
pub open spec fn hex_value(s: Seq<char>) -> int
    decreases s.len(),
{
    if s.len() == 0 {
        0
    } else {
        hex_value(s.drop_last()) * 16 + match hex_digit(s.last()) {
            Some(d) => d,
            None => 0,
        }
    }
}

/// `u32::from_str_radix(s, 16)`: an optional `+`, then one or more hexadecimal digits
/// whose value fits in a `u32`.
pub open spec fn parse_hex_u32_spec(s: Seq<char>) -> Option<u32> {
    let d = if s.len() > 0 && s[0] == '+' { s.drop_first() } else { s };
    if d.len() > 0 && all_hex(d) && hex_value(d) <= u32::MAX {
        Some(hex_value(d) as u32)
    } else {
        None
    }
}

proof fn lemma_hex_value_nonneg(s: Seq<char>)
    ensures
        hex_value(s) >= 0,
    decreases s.len(),
{
    if s.len() > 0 {
        lemma_hex_value_nonneg(s.drop_last());
    }
}

proof fn lemma_hex_value_grows(s: Seq<char>, t: Seq<char>)
    requires
        s.len() > 0,
        s == t.subrange(0, s.len() as int),
        t.len() >= s.len(),
        all_hex(t),
    ensures
        hex_value(t) >= hex_value(s),
    decreases t.len() - s.len(),
{
    if t.len() > s.len() {
        let u = t.drop_last();
        assert(s == u.subrange(0, s.len() as int));
        assert(all_hex(u)) by {
            assert forall|i: int| 0 <= i < u.len() implies (#[trigger] hex_digit(u[i])) is Some by {
                assert(u[i] == t[i]);
            }
        }
        lemma_hex_value_grows(s, u);
        lemma_hex_value_nonneg(u);
        assert(hex_digit(t[t.len() - 1]) is Some);
    } else {
        assert(s =~= t);
    }
}

fn hex_digit_exec(c: char) -> (r: Option<u32>)
    ensures
        match hex_digit(c) {
            Some(d) => r == Some(d as u32),
            None => r is None,
        },
{
    if '0' <= c && c <= '9' {
        Some((c as u32) - ('0' as u32))
    } else if 'a' <= c && c <= 'f' {
        Some((c as u32) - ('a' as u32) + 10)
    } else if 'A' <= c && c <= 'F' {
        Some((c as u32) - ('A' as u32) + 10)
    } else {
        None
    }
}

pub fn parse_hex_u32(s: &Vec<char>) -> (r: Option<u32>)
    ensures
        r == parse_hex_u32_spec(s@),
{
    let start: usize = if s.len() > 0 && s[0] == '+' { 1 } else { 0 };
    let ghost d = if s@.len() > 0 && s@[0] == '+' { s@.drop_first() } else { s@ };
    assert(d =~= s@.subrange(start as int, s@.len() as int));
    if start >= s.len() {
        return None;
    }
    let mut value: u64 = 0;
    let mut i: usize = start;
    while i < s.len()
        invariant
            start <= i <= s.len(),
            start < s.len(),
            d == s@.subrange(start as int, s@.len() as int),
            d == (if s@.len() > 0 && s@[0] == '+' { s@.drop_first() } else { s@ }),
            value <= u32::MAX,
            value == hex_value(s@.subrange(start as int, i as int)),
            all_hex(s@.subrange(start as int, i as int)),
        decreases s.len() - i,
    {
        let ghost prefix = s@.subrange(start as int, i as int);
        let ghost next = s@.subrange(start as int, i + 1);
        assert(next.drop_last() =~= prefix);
        match hex_digit_exec(s[i]) {
            Some(v) => {
                let nv = value * 16 + (v as u64);
                assert(hex_value(next) == nv);
                if nv > (u32::MAX as u64) {
                    proof {
                        assert(all_hex(next)) by {
                            assert forall|k: int| 0 <= k < next.len() implies (#[trigger] hex_digit(next[k])) is Some by {
                                if k < prefix.len() {
                                    assert(next[k] == prefix[k]);
                                }
                            }
                        }
                        assert(next =~= d.subrange(0, next.len() as int));
                        if all_hex(d) {
                            lemma_hex_value_grows(next, d);
                            assert(hex_value(d) > u32::MAX);
                        }
                        assert(parse_hex_u32_spec(s@) is None);
                    }
                    return None;
                }
                value = nv;
                proof {
                    assert forall|k: int| 0 <= k < next.len() implies (#[trigger] hex_digit(next[k])) is Some by {
                        if k < prefix.len() {
                            assert(next[k] == prefix[k]);
                        }
                    }
                }
            },
            None => {
                proof {
                    assert(d[i - start] == s@[i as int]);
                    assert(hex_digit(d[i - start]) is None);
                    assert(!all_hex(d));
                    assert(parse_hex_u32_spec(s@) is None);
                }
                return None;
            },
        }
        i = i + 1;
    }
    assert(s@.subrange(start as int, s.len() as int) == d);
    Some(value as u32)
}

/// Red, green, blue and alpha bytes.
#[derive(Debug, Clone, Copy, PartialEq, Eq, Structural)]
pub struct Rgba8 {
    pub r: u8,
    pub g: u8,
    pub b: u8,
    pub a: u8,
}

/// A dialogue backdrop colour: white space trimmed, a required `#`, then six digits
/// `RRGGBB` (opaque) or eight `AARRGGBB`, read as one hexadecimal number.
pub open spec fn parse_argb_color_spec(value: Seq<char>) -> Option<Rgba8> {
    let t = trim_seq(value);
    if t.len() == 0 || t[0] != '#' {
        None
    } else {
        let hex = t.drop_first();
        match parse_hex_u32_spec(hex) {
            None => None,
            Some(p) => if hex.len() == 6 {
                Some(Rgba8 { r: ((p / 0x10000) % 256) as u8, g: ((p / 0x100) % 256) as u8, b: (p % 256) as u8, a: 255 })
            } else if hex.len() == 8 {
                Some(Rgba8 {
                    r: ((p / 0x10000) % 256) as u8,
                    g: ((p / 0x100) % 256) as u8,
                    b: (p % 256) as u8,
                    a: ((p / 0x1000000) % 256) as u8,
                })
            } else {
                None
            },
        }
    }
}

pub fn parse_argb_color(value: &str) -> (r: Option<Rgba8>)
    ensures
        r == parse_argb_color_spec(value@),
{
    let t = trim_chars(value);
    if t.len() == 0 || t[0] != '#' {
        return None;
    }
    let mut hex: Vec<char> = Vec::new();
    let mut i: usize = 1;
    while i < t.len()
        invariant
            1 <= i <= t.len(),
            hex@ == t@.subrange(1, i as int),
        decreases t.len() - i,
    {
        hex.push(t[i]);
        i = i + 1;
    }
    assert(hex@ =~= t@.drop_first());
    let p = match parse_hex_u32(&hex) {
        Some(p) => p,
        None => return None,
    };
    if hex.len() == 6 {
        Some(Rgba8 { r: ((p / 0x10000) % 256) as u8, g: ((p / 0x100) % 256) as u8, b: (p % 256) as u8, a: 255 })
    } else if hex.len() == 8 {
        Some(Rgba8 {
            r: ((p / 0x10000) % 256) as u8,
            g: ((p / 0x100) % 256) as u8,
            b: (p % 256) as u8,
            a: ((p / 0x1000000) % 256) as u8,
        })
    } else {
        None
    }
}

/// Leading `#` characters removed.
pub open spec fn drop_hashes(s: Seq<char>) -> Seq<char>
    decreases s.len(),
{
    if s.len() > 0 && s[0] == '#' {
        drop_hashes(s.drop_first())
    } else {
        s
    }
}

/// `u8::from_str_radix` on two characters: `+` and one digit, or two digits.
pub open spec fn hex_pair(a: char, b: char) -> Option<u8> {
    if a == '+' {
        match hex_digit(b) {
            Some(d) => Some(d as u8),
            None => None,
        }
    } else {
        match (hex_digit(a), hex_digit(b)) {
            (Some(x), Some(y)) => Some((x * 16 + y) as u8),
            _ => None,
        }
    }
}

/// A Freeplay capsule text colour: white space trimmed, any leading `#`s dropped, then
/// exactly six ASCII characters read as three two-character hexadecimal bytes; opaque.
pub open spec fn parse_rgb_color_spec(value: Seq<char>) -> Option<Rgba8> {
    let h = drop_hashes(trim_seq(value));
    if h.len() != 6 {
        None
    } else {
        match (hex_pair(h[0], h[1]), hex_pair(h[2], h[3]), hex_pair(h[4], h[5])) {
            (Some(r), Some(g), Some(b)) => Some(Rgba8 { r, g, b, a: 255 }),
            _ => None,
        }
    }
}

fn hex_pair_exec(a: char, b: char) -> (r: Option<u8>)
    ensures
        r == hex_pair(a, b),
{
    if a == '+' {
        match hex_digit_exec(b) {
            Some(d) => Some(d as u8),
            None => None,
        }
    } else {
        match (hex_digit_exec(a), hex_digit_exec(b)) {
            (Some(x), Some(y)) => Some((x * 16 + y) as u8),
            _ => None,
        }
    }
}

pub fn parse_rgb_color(value: &str) -> (r: Option<Rgba8>)
    ensures
        r == parse_rgb_color_spec(value@),
{
    let t = trim_chars(value);
    let mut start: usize = 0;
    assert(t@.subrange(0, t@.len() as int) =~= t@);
    while start < t.len() && t[start] == '#'
        invariant
            start <= t.len(),
            drop_hashes(t@) == drop_hashes(t@.subrange(start as int, t@.len() as int)),
        decreases t.len() - start,
    {
        assert(t@.subrange(start as int, t@.len() as int).drop_first() =~= t@.subrange(start + 1, t@.len() as int));
        start = start + 1;
    }
    let ghost h = t@.subrange(start as int, t@.len() as int);
    assert(drop_hashes(h) == h);
    if t.len() - start != 6 {
        return None;
    }
    assert(h[0] == t@[start as int] && h[1] == t@[start + 1] && h[2] == t@[start + 2]);
    assert(h[3] == t@[start + 3] && h[4] == t@[start + 4] && h[5] == t@[start + 5]);
    match (hex_pair_exec(t[start], t[start + 1]), hex_pair_exec(t[start + 2], t[start + 3]), hex_pair_exec(t[start + 4], t[start + 5])) {
        (Some(r), Some(g), Some(b)) => Some(Rgba8 { r, g, b, a: 255 }),
        _ => None,
    }
}

proof fn lemma_hex_digit_not_space(c: char)
    requires
        hex_digit(c) is Some,
    ensures
        !is_white_space(c),
        c != '+',
        c != '#',
        0 <= hex_digit(c)->0 < 16,
{
}

proof fn lemma_hex_append_one(a: Seq<char>, c: char)
    ensures
        hex_value(a.push(c)) == hex_value(a) * 16 + match hex_digit(c) {
            Some(d) => d,
            None => 0,
        },
{
    assert(a.push(c).drop_last() =~= a);
}

/// Two hexadecimal digits spell a byte: the first times 16 plus the second.
proof fn lemma_hex_append_pair(a: Seq<char>, b: Seq<char>)
    requires
        b.len() == 2,
        all_hex(b),
    ensures
        hex_value(a + b) == hex_value(a) * 256 + hex_value(b),
        hex_value(b) == hex_digit(b[0])->0 * 16 + hex_digit(b[1])->0,
        0 <= hex_value(b) < 256,
{
    assert(hex_digit(b[0]) is Some && hex_digit(b[1]) is Some);
    lemma_hex_digit_not_space(b[0]);
    lemma_hex_digit_not_space(b[1]);
    assert(a + b =~= a.push(b[0]).push(b[1]));
    lemma_hex_append_one(a, b[0]);
    lemma_hex_append_one(a.push(b[0]), b[1]);
    let e = Seq::<char>::empty();
    assert(b =~= e.push(b[0]).push(b[1]));
    lemma_hex_append_one(e, b[0]);
    lemma_hex_append_one(e.push(b[0]), b[1]);
    assert(hex_value(e) == 0);
}

proof fn lemma_all_hex_concat(a: Seq<char>, b: Seq<char>)
    requires
        all_hex(a),
        all_hex(b),
    ensures
        all_hex(a + b),
{
    assert forall|i: int| 0 <= i < (a + b).len() implies (#[trigger] hex_digit((a + b)[i])) is Some by {
        if i < a.len() {
            assert((a + b)[i] == a[i]);
        } else {
            assert((a + b)[i] == b[i - a.len()]);
        }
    }
}

proof fn lemma_all_hex_sub(x: Seq<char>, i: int, j: int)
    requires
        all_hex(x),
        0 <= i <= j <= x.len(),
    ensures
        all_hex(x.subrange(i, j)),
{
    assert forall|k: int| 0 <= k < j - i implies (#[trigger] hex_digit(x.subrange(i, j)[k])) is Some by {
        assert(x.subrange(i, j)[k] == x[i + k]);
    }
}

/// The bytes of `RRGGBB` (or `AARRGGBB`) spelt as one number.
proof fn lemma_bytes(p: int, a: int, r: int, g: int, b: int)
    requires
        0 <= a < 256,
        0 <= r < 256,
        0 <= g < 256,
        0 <= b < 256,
        p == ((a * 256 + r) * 256 + g) * 256 + b,
    ensures
        0 <= p <= u32::MAX,
        (p / 0x1000000) % 256 == a,
        (p / 0x10000) % 256 == r,
        (p / 0x100) % 256 == g,
        p % 256 == b,
{
    lemma_fundamental_div_mod_converse(p, 256, (a * 256 + r) * 256 + g, b);
    lemma_fundamental_div_mod_converse((a * 256 + r) * 256 + g, 256, a * 256 + r, g);
    lemma_fundamental_div_mod_converse(a * 256 + r, 256, a, r);
    assert(p == (a * 256 + r) * 65536 + (g * 256 + b)) by (nonlinear_arith)
        requires p == ((a * 256 + r) * 256 + g) * 256 + b;
    lemma_fundamental_div_mod_converse(p, 0x10000, a * 256 + r, g * 256 + b);
    assert(p == a * 0x1000000 + ((r * 256 + g) * 256 + b)) by (nonlinear_arith)
        requires p == ((a * 256 + r) * 256 + g) * 256 + b;
    lemma_fundamental_div_mod_converse(p, 0x1000000, a, (r * 256 + g) * 256 + b);
    lemma_small_mod(a as nat, 256);
}

/// The channel order of the two colour formats: six hexadecimal digits are the bytes
/// `RRGGBB` in that order (capsule text colours read them pair by pair); a backdrop
/// colour `#RRGGBB` reads the same opaque colour; and `#AARRGGBB` the same red, green
/// and blue, with the leading pair as its alpha.
pub proof fn law_color_channels(x: Seq<char>, alpha: Seq<char>)
    requires
        x.len() == 6,
        all_hex(x),
        alpha.len() == 2,
        all_hex(alpha),
    ensures
        parse_rgb_color_spec(x) == Some(Rgba8 {
            r: hex_value(x.subrange(0, 2)) as u8,
            g: hex_value(x.subrange(2, 4)) as u8,
            b: hex_value(x.subrange(4, 6)) as u8,
            a: 255,
        }),
        parse_argb_color_spec(seq!['#'] + x) == parse_rgb_color_spec(x),
        parse_argb_color_spec(seq!['#'] + alpha + x) == Some(Rgba8 {
            r: hex_value(x.subrange(0, 2)) as u8,
            g: hex_value(x.subrange(2, 4)) as u8,
            b: hex_value(x.subrange(4, 6)) as u8,
            a: hex_value(alpha) as u8,
        }),
{
    let e = Seq::<char>::empty();
    let x0 = x.subrange(0, 2);
    let x1 = x.subrange(2, 4);
    let x2 = x.subrange(4, 6);
    lemma_all_hex_sub(x, 0, 2);
    lemma_all_hex_sub(x, 2, 4);
    lemma_all_hex_sub(x, 4, 6);
    assert(hex_digit(x[0]) is Some && hex_digit(x[5]) is Some);
    lemma_hex_digit_not_space(x[0]);
    lemma_hex_digit_not_space(x[5]);
    // Pair by pair.
    assert(x0[0] == x[0] && x0[1] == x[1] && x1[0] == x[2] && x1[1] == x[3] && x2[0] == x[4] && x2[1] == x[5]);
    lemma_hex_append_pair(e, x0);
    lemma_hex_append_pair(e, x1);
    lemma_hex_append_pair(e, x2);
    let r = hex_value(x0);
    let g = hex_value(x1);
    let b = hex_value(x2);
    assert(hex_pair(x[0], x[1]) == Some(r as u8));
    assert(hex_pair(x[2], x[3]) == Some(g as u8));
    assert(hex_pair(x[4], x[5]) == Some(b as u8));
    assert(trim_start_seq(x) == x);
    assert(trim_end_seq(x) == x);
    assert(drop_hashes(x) == x);
    // As one number.
    assert(e + x0 =~= x0);
    lemma_hex_append_pair(x0, x1);
    assert(x0 + x1 =~= x.subrange(0, 4));
    lemma_hex_append_pair(x.subrange(0, 4), x2);
    assert(x.subrange(0, 4) + x2 =~= x);
    let p6 = hex_value(x);
    assert(p6 == ((0 * 256 + r) * 256 + g) * 256 + b);
    lemma_bytes(p6, 0, r, g, b);
    let h6 = seq!['#'] + x;
    assert(h6.drop_first() =~= x);
    assert(h6.last() == x[5]);
    assert(trim_start_seq(h6) == h6);
    assert(trim_end_seq(h6) == h6);
    assert(parse_hex_u32_spec(x) == Some(p6 as u32));
    // With an alpha pair.
    let a = hex_value(alpha);
    lemma_hex_append_pair(e, alpha);
    assert(e + alpha =~= alpha);
    let ax = alpha + x;
    lemma_all_hex_concat(alpha, x);
    lemma_hex_append_pair(alpha, x0);
    lemma_hex_append_pair(alpha + x0, x1);
    assert(alpha + x0 + x1 =~= ax.subrange(0, 6));
    lemma_hex_append_pair(ax.subrange(0, 6), x2);
    assert(ax.subrange(0, 6) + x2 =~= ax);
    let p8 = hex_value(ax);
    assert(p8 == ((a * 256 + r) * 256 + g) * 256 + b);
    lemma_bytes(p8, a, r, g, b);
    assert(hex_digit(alpha[0]) is Some);
    lemma_hex_digit_not_space(alpha[0]);
    assert(ax[0] == alpha[0]);
    assert(parse_hex_u32_spec(ax) == Some(p8 as u32));
    let h8 = seq!['#'] + alpha + x;
    assert(h8.drop_first() =~= ax);
    assert(h8.last() == x[5]);
    assert(h8[0] == '#');
    assert(trim_start_seq(h8) == h8);
    assert(trim_end_seq(h8) == h8);
}

/// Only `#` with six or eight hexadecimal digits is a backdrop colour, and only six
/// characters (after any `#`s) a capsule text colour; six-digit backdrop colours are opaque.
pub proof fn law_color_lengths(value: Seq<char>)
    ensures
        parse_argb_color_spec(value) is Some ==> trim_seq(value)[0] == '#' && (trim_seq(value).len() == 7
            || trim_seq(value).len() == 9),
        parse_argb_color_spec(value) is Some && trim_seq(value).len() == 7 ==> parse_argb_color_spec(value)->0.a == 255,
        parse_rgb_color_spec(value) is Some ==> drop_hashes(trim_seq(value)).len() == 6
            && parse_rgb_color_spec(value)->0.a == 255,
{
}

} // verus!
