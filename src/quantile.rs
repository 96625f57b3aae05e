use vstd::prelude::*;
use vstd::arithmetic::div_mod::{lemma_fundamental_div_mod, lemma_mod_pos_bound};
use crate::estimate::{sorted, Error, Estimate, Fraction};

verus! {

/// The fractional index `(n - 1) * q` of level `q` in a sample of `n` values,
/// scaled by `q.den`.
pub open spec fn scaled_index(n: int, q: Fraction) -> int {
    (n - 1) * q.num
}

/// The whole part `floor((n - 1) * q)` of the fractional index.
pub open spec fn index_floor(n: int, q: Fraction) -> int {
    scaled_index(n, q) / (q.den as int)
}

/// The fractional part of the index, scaled by `q.den`.
pub open spec fn index_rem(n: int, q: Fraction) -> int {
    scaled_index(n, q) % (q.den as int)
}

/// Numerator of the interpolated quantile of sorted sample `s` at level `q`:
/// the element itself when the index is whole, else
/// `s[i] * (1 - t) + s[i + 1] * t` scaled by `q.den`.
pub open spec fn quantile_num(s: Seq<i64>, q: Fraction) -> int {
    let i = index_floor(s.len() as int, q);
    let r = index_rem(s.len() as int, q);
    if r == 0 {
        s[i] as int
    } else {
        s[i] * (q.den - r) + s[i + 1] * r
    }
}

/// Denominator of the interpolated quantile: 1 when the index is whole.
pub open spec fn quantile_den(n: int, q: Fraction) -> int {
    if index_rem(n, q) == 0 {
        1
    } else {
        q.den as int
    }
}

/// Where the index of a valid level falls: a whole part inside the sample and a
/// remainder below the denominator, with a next element whenever it is positive.
proof fn lemma_index_split(n: int, q: Fraction)
    requires
        n > 0,
        q.is_level(),
    ensures
        scaled_index(n, q) == index_floor(n, q) * q.den + index_rem(n, q),
        0 <= index_rem(n, q) < q.den,
        0 <= index_floor(n, q) < n,
        index_rem(n, q) > 0 ==> index_floor(n, q) + 1 < n,
{
    let p = scaled_index(n, q);
    let d = q.den as int;
    let i = index_floor(n, q);
    let r = index_rem(n, q);
    assert(0 <= p <= (n - 1) * d) by (nonlinear_arith)
        requires
            p == (n - 1) * q.num,
            n > 0,
            0 <= q.num <= d,
    ;
    lemma_fundamental_div_mod(p, d);
    lemma_mod_pos_bound(p, d);
    assert(0 <= i < n && (r > 0 ==> i + 1 < n)) by (nonlinear_arith)
        requires
            p == d * i + r,
            0 <= r < d,
            0 <= p <= (n - 1) * d,
            d > 0,
    ;
}

/// The quantile lies between the two order statistics around its index: at
/// or above `s[i]`, and at or below `s[i + 1]` when it interpolates.
proof fn lemma_quantile_brackets(s: Seq<i64>, q: Fraction)
    requires
        s.len() > 0,
        sorted(s),
        q.is_level(),
    ensures
        ({
            let n = s.len() as int;
            let i = index_floor(n, q);
            let num = quantile_num(s, q);
            let den = quantile_den(n, q);
            &&& den > 0
            &&& s[i] * den <= num
            &&& index_rem(n, q) == 0 ==> num == s[i] && den == 1
            &&& index_rem(n, q) > 0 ==> den == q.den && num <= s[i + 1] * den
        }),
{
    let n = s.len() as int;
    lemma_index_split(n, q);
    let i = index_floor(n, q);
    let r = index_rem(n, q);
    if r > 0 {
        let a = s[i] as int;
        let b = s[i + 1] as int;
        let d = q.den as int;
        assert(a * d <= a * (d - r) + b * r <= b * d) by (nonlinear_arith)
            requires
                a <= b,
                0 < r < d,
        ;
    }
}

/// At level 0 the quantile is exactly the first value, and at level 1 exactly
/// the last.
pub proof fn lemma_quantile_ends(s: Seq<i64>, q: Fraction)
    requires
        s.len() > 0,
        sorted(s),
        q.is_level(),
    ensures
        q.num == 0 ==> quantile_num(s, q) == s[0] && quantile_den(s.len() as int, q) == 1,
        q.num == q.den ==> quantile_num(s, q) == s[s.len() - 1] && quantile_den(
            s.len() as int,
            q,
        ) == 1,
{
    let n = s.len() as int;
    lemma_index_split(n, q);
    let i = index_floor(n, q);
    let r = index_rem(n, q);
    let d = q.den as int;
    if q.num == 0 {
        assert(scaled_index(n, q) == 0) by (nonlinear_arith)
            requires
                q.num == 0,
                scaled_index(n, q) == (n - 1) * q.num,
        ;
        assert(i == 0 && r == 0) by (nonlinear_arith)
            requires
                0 == i * d + r,
                0 <= i,
                0 <= r,
                d > 0,
        ;
    }
    if q.num == q.den {
        assert(i == n - 1 && r == 0) by (nonlinear_arith)
            requires
                (n - 1) * d == i * d + r,
                0 <= i < n,
                0 <= r < d,
        ;
    }
}

/// In a sample of one value `v`, every level's quantile is exactly `v`.
pub proof fn lemma_quantile_singleton(s: Seq<i64>, q: Fraction)
    requires
        s.len() == 1,
        q.is_level(),
    ensures
        quantile_num(s, q) == s[0],
        quantile_den(1, q) == 1,
{
    lemma_index_split(1, q);
}

/// On a sorted sample the quantile never decreases as the level grows: for
/// levels `q1 < q2` in `[0, 1]`, `quantile(s, q1) <= quantile(s, q2)`.
pub proof fn lemma_quantile_monotone(s: Seq<i64>, q1: Fraction, q2: Fraction)
    requires
        s.len() > 0,
        sorted(s),
        q1.is_level(),
        q2.is_level(),
        q1.lt(q2),
    ensures
        quantile_num(s, q1) * quantile_den(s.len() as int, q2) <= quantile_num(s, q2)
            * quantile_den(s.len() as int, q1),
{
    let n = s.len() as int;
    if n == 1 {
        lemma_quantile_singleton(s, q1);
        lemma_quantile_singleton(s, q2);
        return;
    }
    lemma_index_split(n, q1);
    lemma_index_split(n, q2);
    lemma_quantile_brackets(s, q1);
    lemma_quantile_brackets(s, q2);
    let d1 = q1.den as int;
    let d2 = q2.den as int;
    let i1 = index_floor(n, q1);
    let i2 = index_floor(n, q2);
    let r1 = index_rem(n, q1);
    let r2 = index_rem(n, q2);
    let num1 = quantile_num(s, q1);
    let num2 = quantile_num(s, q2);
    let den1 = quantile_den(n, q1);
    let den2 = quantile_den(n, q2);
    assert((i1 * d1 + r1) * d2 < (i2 * d2 + r2) * d1) by (nonlinear_arith)
        requires
            q1.num * d2 < q2.num * d1,
            n > 1,
            (n - 1) * q1.num == i1 * d1 + r1,
            (n - 1) * q2.num == i2 * d2 + r2,
    ;
    assert(i1 <= i2) by (nonlinear_arith)
        requires
            (i1 * d1 + r1) * d2 < (i2 * d2 + r2) * d1,
            0 <= r1 < d1,
            0 <= r2 < d2,
            i1 >= 0,
            i2 >= 0,
    ;
    if i1 < i2 {
        let c = s[i2] as int;
        if r1 > 0 {
            let b = s[i1 + 1] as int;
            assert(b <= c);
            assert(num1 <= c * den1) by (nonlinear_arith)
                requires
                    num1 <= b * den1,
                    b <= c,
                    den1 > 0,
            ;
        } else {
            assert(s[i1] <= s[i2]);
        }
        assert(num1 * den2 <= num2 * den1) by (nonlinear_arith)
            requires
                num1 <= c * den1,
                c * den2 <= num2,
                den1 > 0,
                den2 > 0,
        ;
    } else if r1 > 0 {
        let a = s[i1] as int;
        let b = s[i1 + 1] as int;
        assert(r1 * d2 < r2 * d1) by (nonlinear_arith)
            requires
                (i1 * d1 + r1) * d2 < (i1 * d2 + r2) * d1,
        ;
        assert(r2 > 0) by (nonlinear_arith)
            requires
                r1 * d2 < r2 * d1,
                r1 > 0,
                d2 > 0,
                r2 >= 0,
        ;
        let e = b - a;
        assert(num1 == a * d1 + e * r1) by (nonlinear_arith)
            requires
                num1 == a * (d1 - r1) + b * r1,
                e == b - a,
        ;
        assert(num2 == a * d2 + e * r2) by (nonlinear_arith)
            requires
                num2 == a * (d2 - r2) + b * r2,
                e == b - a,
        ;
        assert(e * (r1 * d2) <= e * (r2 * d1)) by (nonlinear_arith)
            requires
                e >= 0,
                r1 * d2 < r2 * d1,
        ;
        assert(num1 * den2 <= num2 * den1) by (nonlinear_arith)
            requires
                num1 == a * d1 + e * r1,
                num2 == a * d2 + e * r2,
                e * (r1 * d2) <= e * (r2 * d1),
                den1 == d1,
                den2 == d2,
        ;
    } else {
        assert(num1 * den2 <= num2 * den1) by (nonlinear_arith)
            requires
                num1 * den2 <= num2,
                den1 == 1,
        ;
    }
}

/// A product of a 64-bit value and a non-negative weight stays within the
/// weight times the largest 64-bit magnitude.
proof fn lemma_scaled_bound(x: int, w: int)
    requires
        -0x8000_0000_0000_0000 <= x <= 0x8000_0000_0000_0000,
        w >= 0,
    ensures
        -0x8000_0000_0000_0000 * w <= x * w <= 0x8000_0000_0000_0000 * w,
{
    assert(-0x8000_0000_0000_0000 * w <= x * w <= 0x8000_0000_0000_0000 * w) by (nonlinear_arith)
        requires
            -0x8000_0000_0000_0000 <= x <= 0x8000_0000_0000_0000,
            w >= 0,
    ;
}

/// The interpolated quantile of a sorted, non-empty sample at level
/// `q = q.num / q.den`. Fails with `InvalidArgument` on an empty sample or on
/// a level outside `[0, 1]`.
pub fn quantile(xs: &Vec<i64>, q: Fraction) -> (r: Result<Estimate, Error>)
    requires
        sorted(xs@),
    ensures
        (xs@.len() > 0 && q.is_level()) <==> r is Ok,
        r is Err ==> r == Err::<Estimate, Error>(Error::InvalidArgument),
        r matches Ok(e) ==> e.num == quantile_num(xs@, q) && e.den == quantile_den(
            xs@.len() as int,
            q,
        ),
{
    if xs.len() == 0 {
        return Err(Error::InvalidArgument);
    }
    if q.den == 0 || q.num < 0 || q.num as u64 > q.den {
        return Err(Error::InvalidArgument);
    }
    let n = xs.len();
    proof {
        lemma_index_split(n as int, q);
    }
    let den = q.den as u128;
    let m = (n - 1) as u128;
    let k = q.num as u128;
    assert(m * k <= 0xffff_ffff_ffff_ffff_u128 * 0xffff_ffff_ffff_ffff_u128) by (nonlinear_arith)
        requires
            m <= 0xffff_ffff_ffff_ffff_u128,
            k <= 0xffff_ffff_ffff_ffff_u128,
    ;
    let pos: u128 = m * k;
    let i = (pos / den) as usize;
    let rem = pos % den;
    if rem == 0 {
        Ok(Estimate { num: xs[i] as i128, den: 1 })
    } else {
        let a = xs[i] as i128;
        let b = xs[i + 1] as i128;
        let lo = (den - rem) as i128;
        let hi = rem as i128;
        proof {
            lemma_scaled_bound(a as int, lo as int);
            lemma_scaled_bound(b as int, hi as int);
        }
        assert(0x8000_0000_0000_0000 * (lo + hi) < 0x8000_0000_0000_0000_0000_0000_0000_0000)
            by (nonlinear_arith)
            requires
                lo + hi <= 0xffff_ffff_ffff_ffff,
        ;
        let num = a * lo + b * hi;
        Ok(Estimate { num, den })
    }
}

} // verus!
