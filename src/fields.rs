//! Numeric fields of fixed-column text, read as exact decimals.
//!
//! A field is a run of columns `lo..hi` of a line. Leading spaces are
//! skipped. Three forms are read:
//! - an integer: digits only;
//! - a decimal: an optional sign, digits, and optionally a point followed by
//!   digits, with at least one digit before the end (`99.1124`, `-.00002182`);
//! - a number with an implied point and an exponent, in eight columns: a
//!   sign or a space, five digits, the exponent's sign and one digit
//!   (` 17130-3` is 0.17130e-3).

use vstd::prelude::*;

verus! {

/// The number `mantissa * 10^exponent`.
#[derive(Clone, Copy, Debug, PartialEq, Eq)]
pub struct Decimal {
    pub mantissa: i64,
    pub exponent: i32,
}

pub open spec fn is_digit(b: u8) -> bool {
    0x30 <= b <= 0x39
}

pub open spec fn all_digits(s: Seq<u8>) -> bool {
    forall|i: int| 0 <= i < s.len() ==> is_digit(#[trigger] s[i])
}

/// The value of a run of decimal digits, most significant first.
pub open spec fn digits_value(s: Seq<u8>) -> int
    decreases s.len(),
{
    if s.len() == 0 {
        0
    } else {
        digits_value(s.drop_last()) * 10 + (s.last() - 0x30)
    }
}

pub open spec fn pow10(n: nat) -> int
    decreases n,
{
    if n == 0 {
        1
    } else {
        10 * pow10((n - 1) as nat)
    }
}

/// `s` without its leading spaces.
pub open spec fn skip_spaces(s: Seq<u8>) -> Seq<u8>
    decreases s.len(),
{
    if s.len() > 0 && s[0] == 0x20 {
        skip_spaces(s.subrange(1, s.len() as int))
    } else {
        s
    }
}

/// Number of digits at the start of `s`.
pub open spec fn digit_run(s: Seq<u8>) -> nat
    decreases s.len(),
{
    if s.len() > 0 && is_digit(s[0]) {
        1 + digit_run(s.subrange(1, s.len() as int))
    } else {
        0
    }
}

/// Mantissa and exponent of unsigned decimal text `u`.
pub open spec fn unsigned_decimal(u: Seq<u8>) -> Option<(int, int)> {
    let p = digit_run(u) as int;
    if p == u.len() {
        if p > 0 {
            Some((digits_value(u), 0))
        } else {
            None
        }
    } else if u[p] == 0x2e && u.len() > 1 && all_digits(u.subrange(p + 1, u.len() as int)) {
        let f = (u.len() - p - 1) as nat;
        Some(
            (
                digits_value(u.subrange(0, p)) * pow10(f) + digits_value(
                    u.subrange(p + 1, u.len() as int),
                ),
                -f,
            ),
        )
    } else {
        None
    }
}

/// Mantissa and exponent of decimal text `b` with an optional sign.
pub open spec fn signed_decimal(b: Seq<u8>) -> Option<(int, int)> {
    if b.len() > 0 && b[0] == 0x2d {
        match unsigned_decimal(b.subrange(1, b.len() as int)) {
            Some((m, e)) => Some((-m, e)),
            None => None,
        }
    } else if b.len() > 0 && b[0] == 0x2b {
        unsigned_decimal(b.subrange(1, b.len() as int))
    } else {
        unsigned_decimal(b)
    }
}

/// The decimal in columns `lo..hi` of `line`.
pub open spec fn decimal_field(line: Seq<u8>, lo: int, hi: int) -> Option<Decimal> {
    match signed_decimal(skip_spaces(line.subrange(lo, hi))) {
        Some((m, e)) => Some(Decimal { mantissa: m as i64, exponent: e as i32 }),
        None => None,
    }
}

/// The integer in columns `lo..hi` of `line`.
pub open spec fn integer_field(line: Seq<u8>, lo: int, hi: int) -> Option<int> {
    let b = skip_spaces(line.subrange(lo, hi));
    if b.len() > 0 && all_digits(b) {
        Some(digits_value(b))
    } else {
        None
    }
}

/// The number with an implied point and an exponent in columns `lo..lo + 8`.
pub open spec fn exponent_field(line: Seq<u8>, lo: int) -> Option<Decimal> {
    let t = line.subrange(lo, lo + 8);
    if (t[0] == 0x20 || t[0] == 0x2b || t[0] == 0x2d) && all_digits(t.subrange(1, 6)) && (t[6]
        == 0x2b || t[6] == 0x2d) && is_digit(t[7]) {
        let m = digits_value(t.subrange(1, 6));
        let e = t[7] - 0x30;
        Some(
            Decimal {
                mantissa: (if t[0] == 0x2d {
                    -m
                } else {
                    m
                }) as i64,
                exponent: ((if t[6] == 0x2d {
                    -e
                } else {
                    e
                }) - 5) as i32,
            },
        )
    } else {
        None
    }
}

pub proof fn lemma_pow10_bound(n: nat)
    requires
        n <= 12,
    ensures
        1 <= pow10(n) <= 1_000_000_000_000,
    decreases n,
{
    if n > 0 {
        lemma_pow10_bound((n - 1) as nat);
        assert(pow10(n) == 10 * pow10((n - 1) as nat));
        if n == 12 {
            reveal_with_fuel(pow10, 13);
        } else {
            lemma_pow10_mono((n - 1) as nat);
        }
    }
}

proof fn lemma_pow10_mono(n: nat)
    requires
        n < 12,
    ensures
        pow10(n) <= 100_000_000_000,
    decreases n,
{
    if n > 0 {
        lemma_pow10_mono((n - 1) as nat);
        if n == 11 {
            reveal_with_fuel(pow10, 12);
        } else {
            lemma_pow10_small((n - 1) as nat);
        }
    }
}

proof fn lemma_pow10_small(n: nat)
    requires
        n < 11,
    ensures
        pow10(n) <= 10_000_000_000,
{
    reveal_with_fuel(pow10, 12);
    assert(n == 0 || n == 1 || n == 2 || n == 3 || n == 4 || n == 5 || n == 6 || n == 7 || n == 8
        || n == 9 || n == 10);
}

/// The count of leading digits is where the first non-digit stands.
proof fn lemma_digit_run(u: Seq<u8>, p: int)
    requires
        0 <= p <= u.len(),
        all_digits(u.subrange(0, p)),
        p == u.len() || !is_digit(u[p]),
    ensures
        digit_run(u) == p,
    decreases p,
{
    if p > 0 {
        let rest = u.subrange(1, u.len() as int);
        assert(u.subrange(0, p)[0] == u[0]);
        assert(rest.subrange(0, p - 1) =~= u.subrange(1, p));
        assert forall|i: int| 0 <= i < p - 1 implies is_digit(#[trigger] rest.subrange(0, p - 1)[i]) by {
            assert(u.subrange(0, p)[i + 1] == rest.subrange(0, p - 1)[i]);
        }
        lemma_digit_run(rest, p - 1);
    }
}

fn digit(b: u8) -> (r: bool)
    ensures
        r == is_digit(b),
{
    0x30 <= b && b <= 0x39
}

/// First column at or after `lo` that is not a space.
fn skip_leading_spaces(line: &[u8], lo: usize, hi: usize) -> (i: usize)
    requires
        lo <= hi <= line@.len(),
    ensures
        lo <= i <= hi,
        skip_spaces(line@.subrange(lo as int, hi as int)) == line@.subrange(i as int, hi as int),
{
    let mut i: usize = lo;
    while i < hi && line[i] == 0x20
        invariant
            lo <= i <= hi <= line@.len(),
            skip_spaces(line@.subrange(lo as int, hi as int)) == skip_spaces(
                line@.subrange(i as int, hi as int),
            ),
        decreases hi - i,
    {
        assert(line@.subrange(i as int, hi as int).subrange(1, hi - i) =~= line@.subrange(
            i + 1,
            hi as int,
        ));
        i += 1;
    }
    i
}

/// Reads the digits from column `start` on, up to `hi` or the first
/// non-digit; returns their value and the column where they end.
fn read_digits(line: &[u8], start: usize, hi: usize) -> (r: (i64, usize))
    requires
        start <= hi <= line@.len(),
        hi - start <= 12,
    ensures
        start <= r.1 <= hi,
        all_digits(line@.subrange(start as int, r.1 as int)),
        r.1 == hi || !is_digit(line@[r.1 as int]),
        r.0 == digits_value(line@.subrange(start as int, r.1 as int)),
        0 <= r.0 < pow10((r.1 - start) as nat),
{
    let mut v: i64 = 0;
    let mut j: usize = start;
    while j < hi && digit(line[j])
        invariant
            start <= j <= hi <= line@.len(),
            hi - start <= 12,
            all_digits(line@.subrange(start as int, j as int)),
            v == digits_value(line@.subrange(start as int, j as int)),
            0 <= v < pow10((j - start) as nat),
        decreases hi - j,
    {
        let ghost k = (j - start) as nat;
        proof {
            lemma_pow10_bound(k);
            assert(line@.subrange(start as int, j + 1).drop_last() =~= line@.subrange(
                start as int,
                j as int,
            ));
            assert(pow10(k + 1) == 10 * pow10(k));
            assert(v * 10 + 9 < 10 * pow10(k)) by (nonlinear_arith)
                requires
                    v < pow10(k),
            ;
        }
        v = v * 10 + (line[j] - 0x30) as i64;
        j += 1;
    }
    (v, j)
}

/// The integer in columns `lo..hi` of `line`.
pub fn parse_integer_field(line: &[u8], lo: usize, hi: usize) -> (r: Option<i64>)
    requires
        lo <= hi <= line@.len(),
        hi - lo <= 12,
    ensures
        r == match integer_field(line@, lo as int, hi as int) {
            Some(v) => Some(v as i64),
            None => None::<i64>,
        },
        r matches Some(v) ==> v >= 0,
{
    let i = skip_leading_spaces(line, lo, hi);
    let (v, j) = read_digits(line, i, hi);
    if j == hi && j > i {
        Some(v)
    } else {
        proof {
            let b = line@.subrange(i as int, hi as int);
            if b.len() > 0 && all_digits(b) {
                assert(b[j - i] == line@[j as int]);
            }
        }
        None
    }
}

/// Mantissa and exponent of the unsigned decimal in columns `s..hi`.
fn parse_unsigned_decimal(line: &[u8], s: usize, hi: usize) -> (r: Option<(i64, i32)>)
    requires
        s <= hi <= line@.len(),
        hi - s <= 12,
    ensures
        match unsigned_decimal(line@.subrange(s as int, hi as int)) {
            Some((m, e)) => r == Some((m as i64, e as i32)) && 0 <= m < 1_000_000_000_000 && -12
                <= e <= 0,
            None => r is None,
        },
{
    let ghost u = line@.subrange(s as int, hi as int);
    let (v, j) = read_digits(line, s, hi);
    proof {
        assert(u.subrange(0, j - s) =~= line@.subrange(s as int, j as int));
        if j < hi {
            assert(u[j - s] == line@[j as int]);
        }
        lemma_digit_run(u, j - s);
        lemma_pow10_bound((j - s) as nat);
    }
    if j == hi {
        if j > s {
            assert(u =~= line@.subrange(s as int, j as int));
            return Some((v, 0));
        } else {
            return None;
        }
    }
    if line[j] != 0x2e {
        return None;
    }
    let (w, k) = read_digits(line, j + 1, hi);
    let ghost frac = u.subrange(j - s + 1, u.len() as int);
    assert(frac =~= line@.subrange(j + 1, hi as int));
    if k != hi {
        assert(frac[k - j - 1] == line@[k as int]);
        return None;
    }
    if hi - s <= 1 {
        return None;
    }
    let f: usize = hi - j - 1;
    proof {
        lemma_pow10_bound(f as nat);
        lemma_pow10_add((j - s) as nat, f as nat);
        lemma_pow10_bound((j - s + f) as nat);
        lemma_scaled_bound(v as int, w as int, pow10((j - s) as nat), pow10(f as nat));
    }
    let scale = pow10_exec(f);
    Some((v * scale + w, -(f as i32)))
}

proof fn lemma_scaled_bound(v: int, w: int, p: int, q: int)
    requires
        0 <= v < p,
        0 <= w < q,
    ensures
        0 <= v * q + w < p * q,
{
    assert(v * q + w < p * q) by (nonlinear_arith)
        requires
            0 <= v < p,
            0 <= w < q,
    ;
    assert(0 <= v * q) by (nonlinear_arith)
        requires
            0 <= v,
            0 <= w < q,
    ;
}

/// The decimal in columns `lo..hi` of `line`.
pub fn parse_decimal_field(line: &[u8], lo: usize, hi: usize) -> (r: Option<Decimal>)
    requires
        lo <= hi <= line@.len(),
        hi - lo <= 12,
    ensures
        r == decimal_field(line@, lo as int, hi as int),
{
    let i = skip_leading_spaces(line, lo, hi);
    let ghost b = line@.subrange(i as int, hi as int);
    let mut neg = false;
    let mut s: usize = i;
    if s < hi && line[s] == 0x2d {
        neg = true;
        s += 1;
    } else if s < hi && line[s] == 0x2b {
        s += 1;
    }
    proof {
        if s > i {
            assert(b.subrange(1, b.len() as int) =~= line@.subrange(s as int, hi as int));
        } else {
            assert(b =~= line@.subrange(s as int, hi as int));
        }
    }
    match parse_unsigned_decimal(line, s, hi) {
        Some((m, e)) => Some(Decimal { mantissa: if neg { -m } else { m }, exponent: e }),
        None => None,
    }
}

proof fn lemma_pow10_add(a: nat, b: nat)
    ensures
        pow10(a + b) == pow10(a) * pow10(b),
    decreases b,
{
    if b > 0 {
        lemma_pow10_add(a, (b - 1) as nat);
        assert(pow10(a + b) == 10 * pow10((a + b - 1) as nat));
        assert(10 * (pow10(a) * pow10((b - 1) as nat)) == pow10(a) * (10 * pow10((b - 1) as nat)))
            by (nonlinear_arith);
    }
}

pub fn pow10_exec(n: usize) -> (r: i64)
    requires
        n <= 12,
    ensures
        r == pow10(n as nat),
{
    let mut r: i64 = 1;
    let mut i: usize = 0;
    while i < n
        invariant
            i <= n <= 12,
            r == pow10(i as nat),
        decreases n - i,
    {
        proof {
            lemma_pow10_bound(i as nat);
        }
        r = r * 10;
        i += 1;
    }
    r
}

/// The number with an implied point and an exponent in columns `lo..lo + 8`.
pub fn parse_exponent_field(line: &[u8], lo: usize) -> (r: Option<Decimal>)
    requires
        lo + 8 <= line@.len(),
    ensures
        r == exponent_field(line@, lo as int),
{
    let ghost t = line@.subrange(lo as int, lo + 8);
    let sign = line[lo];
    let esign = line[lo + 6];
    let e = line[lo + 7];
    assert(t[0] == sign && t[6] == esign && t[7] == e);
    if !(sign == 0x20 || sign == 0x2b || sign == 0x2d) || !(esign == 0x2b || esign == 0x2d)
        || !digit(e) {
        return None;
    }
    let (v, j) = read_digits(line, lo + 1, lo + 6);
    assert(t.subrange(1, 6) =~= line@.subrange(lo + 1, lo + 6));
    if j != lo + 6 {
        proof {
            if all_digits(t.subrange(1, 6)) {
                assert(t.subrange(1, 6)[j - lo - 1] == line@[j as int]);
            }
        }
        return None;
    }
    let ev: i32 = (e - 0x30) as i32;
    Some(
        Decimal {
            mantissa: if sign == 0x2d {
                -v
            } else {
                v
            },
            exponent: (if esign == 0x2d {
                -ev
            } else {
                ev
            }) - 5,
        },
    )
}

} // verus!
