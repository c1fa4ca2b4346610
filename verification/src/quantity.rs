//! Decimal fractions in double precision, scaled by a power of two and cut to an integer.
//!
//! Sizes are written as decimal fractions and a unit, such as `10.50GiB`. The fraction stands
//! for the nearest number of 53 significant bits, ties going to the even one, and a size is the
//! integer part of that number times the unit, at most the largest 64-bit integer.

use vstd::prelude::*;

verus! {

/// Two to the power of `k`.
pub open spec fn pw2(k: nat) -> nat
    decreases k,
{
    if k == 0 {
        1
    } else {
        2 * pw2((k - 1) as nat)
    }
}

/// Ten to the power of `k`.
pub open spec fn pw10(k: nat) -> nat
    decreases k,
{
    if k == 0 {
        1
    } else {
        10 * pw10((k - 1) as nat)
    }
}

/// The number of binary digits of `n`.
pub open spec fn bits(n: nat) -> nat
    decreases n,
{
    if n == 0 {
        0
    } else {
        1 + bits(n / 2)
    }
}

/// The integer nearest to `a / b`, the even one of two that are equally near.
pub open spec fn nearest_even(a: nat, b: nat) -> nat {
    let t = a / b;
    let r = a % b;
    if 2 * r > b || (2 * r == b && t % 2 == 1) {
        t + 1
    } else {
        t
    }
}

/// The integer part of the number of 53 significant bits that is nearest to `p / q`. A number
/// below one half rounds in a finer grid than the one used here, and stays below one in both.
pub open spec fn double_floor(p: nat, q: nat) -> nat {
    let b = bits(p / q);
    if b <= 53 {
        let s = pw2((53 - b) as nat);
        nearest_even(p * s, q) / s
    } else {
        let u = pw2((b - 53) as nat);
        nearest_even(p, q * u) * u
    }
}

/// `n`, or the largest 64-bit integer if that is less.
pub open spec fn saturated(n: nat) -> u64 {
    if n > u64::MAX {
        u64::MAX
    } else {
        n as u64
    }
}

/// The integer part of the double nearest to `d * 10^x`, times `2^k`, at most the largest
/// 64-bit integer.
pub open spec fn scaled_floor(d: nat, x: int, k: nat) -> u64 {
    if x >= 0 {
        saturated(double_floor(d * pw2(k) * pw10(x as nat), 1))
    } else {
        saturated(double_floor(d * pw2(k), pw10((-x) as nat)))
    }
}

/// Whether every member of `s` is a decimal digit.
pub open spec fn decimals(s: Seq<u8>) -> bool {
    forall|i: int| 0 <= i < s.len() ==> #[trigger] s[i] <= 9
}

/// The number that a row of decimal digits denotes.
pub open spec fn dec(s: Seq<u8>) -> nat
    decreases s.len(),
{
    if s.len() == 0 {
        0
    } else {
        s[0] as nat * pw10((s.len() - 1) as nat) + dec(s.skip(1))
    }
}

proof fn lemma_pw10_pos(k: nat)
    ensures
        pw10(k) > 0,
    decreases k,
{
    if k > 0 {
        lemma_pw10_pos((k - 1) as nat);
    }
}

proof fn lemma_pw2_pos(k: nat)
    ensures
        pw2(k) > 0,
    decreases k,
{
    if k > 0 {
        lemma_pw2_pos((k - 1) as nat);
    }
}

proof fn lemma_pw10_adds(a: nat, b: nat)
    ensures
        pw10(a + b) == pw10(a) * pw10(b),
    decreases a,
{
    if a > 0 {
        lemma_pw10_adds((a - 1) as nat, b);
        let x = pw10((a - 1) as nat);
        let y = pw10(b);
        assert((a + b - 1) as nat == (a - 1) as nat + b);
        assert(10 * (x * y) == (10 * x) * y) by (nonlinear_arith);
    } else {
        assert(1 * pw10(b) == pw10(b));
    }
}

proof fn lemma_pw10_grows(a: nat, b: nat)
    requires
        a <= b,
    ensures
        pw10(a) <= pw10(b),
    decreases b - a,
{
    if a < b {
        lemma_pw10_grows(a, (b - 1) as nat);
        lemma_pw10_pos((b - 1) as nat);
    }
}

proof fn lemma_pw2_adds(a: nat, b: nat)
    ensures
        pw2(a + b) == pw2(a) * pw2(b),
    decreases a,
{
    if a > 0 {
        lemma_pw2_adds((a - 1) as nat, b);
        let x = pw2((a - 1) as nat);
        let y = pw2(b);
        assert((a + b - 1) as nat == (a - 1) as nat + b);
        assert(2 * (x * y) == (2 * x) * y) by (nonlinear_arith);
    } else {
        assert(1 * pw2(b) == pw2(b));
    }
}

proof fn lemma_pw2_grows(a: nat, b: nat)
    requires
        a <= b,
    ensures
        pw2(a) <= pw2(b),
    decreases b - a,
{
    if a < b {
        lemma_pw2_grows(a, (b - 1) as nat);
    }
}

proof fn lemma_pw2_values()
    ensures
        pw2(40) == 0x100_0000_0000,
        pw2(53) == 0x20_0000_0000_0000,
        pw2(63) == 0x8000_0000_0000_0000,
        pw2(64) == 0x1_0000_0000_0000_0000,
{
    assert(pw2(16) == 0x1_0000) by {
        reveal_with_fuel(pw2, 17);
    }
    lemma_pw2_adds(16, 16);
    lemma_pw2_adds(32, 16);
    lemma_pw2_adds(48, 16);
    assert(pw2(8) == 0x100) by {
        reveal_with_fuel(pw2, 9);
    }
    lemma_pw2_adds(32, 8);
    assert(pw2(5) == 32) by {
        reveal_with_fuel(pw2, 6);
    }
    lemma_pw2_adds(48, 5);
    assert(pw2(64) == 2 * pw2(63));
}

proof fn lemma_bits(n: nat)
    requires
        n > 0,
    ensures
        bits(n) > 0,
        pw2((bits(n) - 1) as nat) <= n < pw2(bits(n)),
    decreases n,
{
    if n > 1 {
        lemma_bits(n / 2);
    } else {
        assert(bits(0) == 0);
        assert(bits(1) == 1);
        assert(pw2(0) == 1);
        assert(pw2(1) == 2);
    }
}

proof fn lemma_bits_bound(n: nat, k: nat)
    requires
        n < pw2(k),
    ensures
        bits(n) <= k,
{
    if n > 0 {
        lemma_bits(n);
        if bits(n) > k {
            lemma_pw2_grows(k, (bits(n) - 1) as nat);
        }
    }
}

proof fn lemma_bits_least(n: nat, k: nat)
    requires
        n >= pw2(k),
    ensures
        bits(n) > k,
{
    lemma_pw2_pos(k);
    lemma_bits(n);
    if bits(n) <= k {
        lemma_pw2_grows(bits(n), k);
    }
}

proof fn lemma_dec_bound(s: Seq<u8>)
    requires
        decimals(s),
    ensures
        dec(s) < pw10(s.len()),
    decreases s.len(),
{
    if s.len() > 0 {
        let t = s.skip(1);
        assert forall|i: int| 0 <= i < t.len() implies #[trigger] t[i] <= 9 by {
            assert(t[i] == s[i + 1]);
        }
        lemma_dec_bound(t);
        let w = pw10((s.len() - 1) as nat);
        assert(s[0] <= 9);
        assert(s[0] as nat * w <= 9 * w) by (nonlinear_arith)
            requires
                s[0] <= 9,
        ;
    }
}

/// The digits of a concatenation.
proof fn lemma_dec_concat(a: Seq<u8>, b: Seq<u8>)
    ensures
        dec(a + b) == dec(a) * pw10(b.len()) + dec(b),
    decreases a.len(),
{
    let s = a + b;
    if a.len() == 0 {
        assert(s =~= b);
        assert(0 * pw10(b.len()) == 0);
    } else {
        let t = a.skip(1);
        lemma_dec_concat(t, b);
        assert(s.skip(1) =~= t + b);
        lemma_pw10_adds(t.len(), b.len());
        let w = pw10(b.len());
        let v = pw10(t.len());
        let h = a[0] as nat;
        assert((s.len() - 1) as nat == t.len() + b.len());
        assert(h * (v * w) + (dec(t) * w + dec(b)) == (h * v + dec(t)) * w + dec(b))
            by (nonlinear_arith);
    }
}

pub proof fn lemma_dec_push(a: Seq<u8>, c: u8)
    ensures
        dec(a.push(c)) == 10 * dec(a) + c,
{
    let one = seq![c];
    assert(a.push(c) =~= a + one);
    lemma_dec_concat(a, one);
    assert(one.skip(1) =~= Seq::<u8>::empty());
    assert(dec(one.skip(1)) == 0);
    assert(pw10(0) == 1);
    assert(pw10(1) == 10);
    assert(one[0] as nat * 1 == c);
    assert(dec(a) * 10 == 10 * dec(a));
}

/// The number that zeros denote.
proof fn lemma_dec_zeros(s: Seq<u8>)
    requires
        forall|i: int| 0 <= i < s.len() ==> #[trigger] s[i] == 0,
    ensures
        dec(s) == 0,
    decreases s.len(),
{
    if s.len() > 0 {
        let t = s.skip(1);
        assert forall|i: int| 0 <= i < t.len() implies #[trigger] t[i] == 0 by {
            assert(t[i] == s[i + 1]);
        }
        lemma_dec_zeros(t);
        assert(s[0] == 0);
        assert(0 * pw10((s.len() - 1) as nat) == 0);
    }
}

proof fn lemma_dec_nonzero(s: Seq<u8>, i: int)
    requires
        0 <= i < s.len(),
        s[i] > 0,
    ensures
        dec(s) > 0,
    decreases s.len(),
{
    let w = pw10((s.len() - 1) as nat);
    if i == 0 {
        lemma_pw10_pos((s.len() - 1) as nat);
        assert(s[0] as nat * w > 0) by (nonlinear_arith)
            requires
                s[0] > 0,
                w > 0,
        ;
    } else {
        assert(s.skip(1)[i - 1] == s[i]);
        lemma_dec_nonzero(s.skip(1), i - 1);
        assert(s[0] as nat * w >= 0) by (nonlinear_arith);
    }
}

/// Doubles the number that `d` denotes. Tells whether a digit is carried out of the row.
fn double(d: &mut Vec<u8>) -> (carry: bool)
    requires
        decimals(old(d)@),
    ensures
        decimals(final(d)@),
        final(d)@.len() == old(d)@.len(),
        dec(final(d)@) + (if carry {
            pw10(old(d)@.len())
        } else {
            0
        }) == 2 * dec(old(d)@),
{
    let ghost before = d@;
    let n: usize = d.len();
    let mut c: u8 = 0;
    let mut i: usize = n;
    assert(d@.skip(n as int) =~= Seq::<u8>::empty());
    assert(before.skip(n as int) =~= Seq::<u8>::empty());
    while i > 0
        invariant
            i <= n,
            n == d@.len(),
            n == before.len(),
            c <= 1,
            decimals(before),
            decimals(d@),
            forall|k: int| 0 <= k < i ==> d@[k] == before[k],
            dec(d@.skip(i as int)) + c * pw10((n - i) as nat) == 2 * dec(before.skip(i as int)),
        decreases i,
    {
        let ghost old_d = d@;
        let ghost old_c = c;
        i -= 1;
        assert(before[i as int] <= 9);
        let v: u8 = d[i];
        let w: u8 = 2 * v + c;
        d.set(i, w % 10);
        c = w / 10;
        proof {
            let p = pw10((n - i - 1) as nat);
            let tail = old_d.skip(i + 1);
            assert(d@.skip(i as int).skip(1) =~= tail);
            assert(before.skip(i as int).skip(1) =~= before.skip(i + 1));
            assert(d@.skip(i as int)[0] == w % 10);
            assert(before.skip(i as int)[0] == v);
            assert(dec(d@.skip(i as int)) == (w % 10) as nat * p + dec(tail));
            assert(dec(before.skip(i as int)) == v as nat * p + dec(before.skip(i + 1)));
            assert(pw10((n - i) as nat) == 10 * p);
            let lo = (w % 10) as int;
            let hi = (w / 10) as int;
            assert(w == 10 * hi + lo);
            assert(lo * p + hi * (10 * p) == (10 * hi + lo) * p) by (nonlinear_arith);
            assert((2 * v + old_c) * p == 2 * (v * p) + old_c * p) by (nonlinear_arith);
        }
    }
    assert(d@.skip(0) =~= d@);
    assert(before.skip(0) =~= before);
    assert(0 * pw10(n as nat) == 0);
    c == 1
}

/// Reads the number that `d` denotes, if it fits in 64 bits.
fn read_number(d: &Vec<u8>) -> (r: Option<u64>)
    requires
        decimals(d@),
    ensures
        r is Some == (dec(d@) <= u64::MAX),
        r matches Some(n) ==> n == dec(d@),
{
    let mut v: u64 = 0;
    let mut i: usize = 0;
    while i < d.len()
        invariant
            i <= d@.len(),
            decimals(d@),
            v == dec(d@.take(i as int)),
        decreases d@.len() - i,
    {
        let c: u8 = d[i];
        proof {
            let a = d@.take(i as int);
            let t = d@.take(i + 1);
            assert(t =~= a.push(c));
            lemma_dec_push(a, c);
            let rest = d@.skip(i + 1);
            assert(d@ =~= t + rest);
            lemma_dec_concat(t, rest);
            lemma_pw10_pos(rest.len());
            assert(dec(t) * pw10(rest.len()) >= dec(t)) by (nonlinear_arith)
                requires
                    pw10(rest.len()) > 0,
            ;
        }
        assert(c <= 9);
        if v > (0xffff_ffff_ffff_ffff - c as u64) / 10 {
            return None;
        }
        v = 10 * v + c as u64;
        i += 1;
    }
    assert(d@.take(i as int) =~= d@);
    Some(v)
}

/// Tells whether `d` denotes a number above zero.
fn is_positive(d: &Vec<u8>) -> (r: bool)
    requires
        decimals(d@),
    ensures
        r == (dec(d@) > 0),
{
    let mut i: usize = 0;
    while i < d.len()
        invariant
            i <= d@.len(),
            forall|k: int| 0 <= k < i ==> #[trigger] d@[k] == 0,
        decreases d@.len() - i,
    {
        if d[i] > 0 {
            proof {
                lemma_dec_nonzero(d@, i as int);
            }
            return true;
        }
        i += 1;
    }
    proof {
        lemma_dec_zeros(d@);
    }
    false
}

/// Counts the binary digits of `n`.
fn count_bits(n: u64) -> (r: usize)
    ensures
        r == bits(n as nat),
        r <= 64,
    decreases n,
{
    proof {
        lemma_pw2_values();
        lemma_bits_bound(n as nat, 64);
    }
    if n == 0 {
        0
    } else {
        1 + count_bits(n / 2)
    }
}

/// Two to the power of `k`.
fn power_of_two(k: usize) -> (r: u64)
    requires
        k < 64,
    ensures
        r == pw2(k as nat),
    decreases k,
{
    if k == 0 {
        1
    } else {
        proof {
            lemma_pw2_values();
            lemma_pw2_grows(k as nat, 63);
        }
        2 * power_of_two(k - 1)
    }
}

/// With `a == t * b + r` and `r < b`, the nearest integer to `a / b` follows from `t` and `r`.
proof fn lemma_nearest(a: nat, b: nat, t: nat, r: nat)
    requires
        b > 0,
        a == t * b + r,
        r < b,
    ensures
        nearest_even(a, b) == if 2 * r > b || (2 * r == b && t % 2 == 1) {
            t + 1
        } else {
            t
        },
{
    assert(a / b == t && a % b == r) by {
        vstd::arithmetic::div_mod::lemma_fundamental_div_mod_converse(
            a as int,
            b as int,
            t as int,
            r as int,
        );
    }
}

proof fn lemma_quotient(n: nat, q: nat, f: nat)
    requires
        q > 0,
        f < q,
    ensures
        (n * q + f) / q == n,
{
    vstd::arithmetic::div_mod::lemma_fundamental_div_mod_converse(
        (n * q + f) as int,
        q as int,
        n as int,
        f as int,
    );
}

proof fn lemma_next_bit(p: nat, q: nat, i: nat, m: nat, f: nat, c: nat, g: nat)
    requires
        m * q + f == p * pw2(i),
        g + c * q == 2 * f,
    ensures
        (2 * m + c) * q + g == p * pw2(i + 1),
{
    assert((2 * m + c) * q + g == 2 * (m * q + f)) by (nonlinear_arith)
        requires
            g + c * q == 2 * f,
    ;
    assert(p * pw2(i + 1) == 2 * (p * pw2(i))) by (nonlinear_arith)
        requires
            pw2(i + 1) == 2 * pw2(i),
    ;
}

/// Rounds `n` and the fraction whose digits are `frac`, for `n` of at most 53 binary digits.
fn round_small(n: u64, frac: Vec<u8>) -> (r: u64)
    requires
        bits(n as nat) <= 53,
        decimals(frac@),
    ensures
        r == double_floor(n as nat * pw10(frac@.len()) + dec(frac@), pw10(frac@.len())),
{
    let ghost q = pw10(frac@.len());
    let ghost p: nat = n as nat * q + dec(frac@);
    let b: usize = count_bits(n);
    let s: usize = 53 - b;
    let mut f = frac;
    let mut m: u64 = n;
    let mut i: usize = 0;
    proof {
        lemma_pw10_pos(f@.len());
        lemma_dec_bound(f@);
        lemma_quotient(n as nat, q, dec(f@));
        if n > 0 {
            lemma_bits(n as nat);
        }
        assert(pw2(0) == 1);
        assert(p * 1 == p);
    }
    while i < s
        invariant
            i <= s,
            s + b == 53,
            q == pw10(f@.len()),
            q > 0,
            decimals(f@),
            dec(f@) < q,
            m * q + dec(f@) == p * pw2(i as nat),
            m < pw2((b + i) as nat),
        decreases s - i,
    {
        let ghost before = dec(f@);
        let ghost m0 = m;
        let carry = double(&mut f);
        proof {
            lemma_dec_bound(f@);
            lemma_pw2_grows((b + i + 1) as nat, 53);
            lemma_pw2_values();
        }
        m = 2 * m + if carry {
            1
        } else {
            0
        };
        proof {
            let c: nat = if carry {
                1
            } else {
                0
            };
            assert(1 * q == q && 0 * q == 0);
            lemma_next_bit(p, q, i as nat, m0 as nat, before, c, dec(f@));
        }
        i += 1;
    }
    let ghost r = dec(f@);
    let half = double(&mut f);
    let rest = is_positive(&f);
    proof {
        lemma_dec_bound(f@);
        lemma_nearest(p * pw2(s as nat), q, m as nat, r);
        lemma_pw2_values();
        lemma_pw2_pos(s as nat);
        lemma_pw2_grows(s as nat, 53);
    }
    let up: u64 = if half && (rest || m % 2 == 1) {
        1
    } else {
        0
    };
    (m + up) / power_of_two(s)
}

/// Rounds `n` and a fraction, above zero or not, for `n` of more than 53 binary digits.
fn round_large(n: u64, frac: &Vec<u8>) -> (r: u64)
    requires
        bits(n as nat) > 53,
        decimals(frac@),
    ensures
        r == saturated(double_floor(n as nat * pw10(frac@.len()) + dec(frac@), pw10(frac@.len()))),
{
    let ghost q = pw10(frac@.len());
    let ghost f = dec(frac@);
    let ghost p: nat = n as nat * q + f;
    let b: usize = count_bits(n);
    let u: u64 = power_of_two(b - 53);
    let half: u64 = power_of_two(b - 54);
    let rest = is_positive(frac);
    proof {
        lemma_pw10_pos(frac@.len());
        lemma_dec_bound(frac@);
        lemma_quotient(n as nat, q, f);
        lemma_pw2_pos((b - 54) as nat);
        assert(u == 2 * half);
    }
    let m: u64 = n / u;
    let rem: u64 = n % u;
    proof {
        vstd::arithmetic::div_mod::lemma_fundamental_div_mod(n as int, u as int);
        let r: nat = rem as nat * q + f;
        assert(p == m * (q * u) + r) by (nonlinear_arith)
            requires
                p == n * q + f,
                n == u * m + rem,
                r == rem * q + f,
        ;
        assert(rem * q + q <= q * u) by (nonlinear_arith)
            requires
                rem + 1 <= u,
        ;
        assert(q * u > 0) by (nonlinear_arith)
            requires
                q > 0,
                u > 0,
        ;
        lemma_nearest(p, q * (u as nat), m as nat, r);
        assert(q * u == 2 * (half * q)) by (nonlinear_arith)
            requires
                u == 2 * half,
        ;
        if rem > half {
            assert(rem * q >= half * q + q) by (nonlinear_arith)
                requires
                    rem >= half + 1,
            ;
        } else if rem < half {
            assert(rem * q + q <= half * q) by (nonlinear_arith)
                requires
                    rem + 1 <= half,
            ;
        }
        assert(m as u128 * u as u128 <= n) by (nonlinear_arith)
            requires
                n == u * m + rem,
        ;
        assert((m + 1) * u == m * u + u) by (nonlinear_arith);
    }
    let product: u64 = m * u;
    if rem > half || (rem == half && (rest || m % 2 == 1)) {
        if product > 0xffff_ffff_ffff_ffff - u {
            0xffff_ffff_ffff_ffff
        } else {
            product + u
        }
    } else {
        product
    }
}

/// A number that needs more than 64 bits still does after rounding.
proof fn lemma_double_floor_huge(p: nat, q: nat)
    requires
        q > 0,
        p / q >= pw2(64),
    ensures
        double_floor(p, q) > u64::MAX,
{
    let n = p / q;
    lemma_pw2_values();
    lemma_bits_least(n, 64);
    lemma_bits(n);
    let b = bits(n);
    let u = pw2((b - 53) as nat);
    lemma_pw2_pos((b - 53) as nat);
    lemma_pw2_adds(52, (b - 53) as nat);
    assert((52 + (b - 53) as nat) as nat == (b - 1) as nat);
    lemma_pw2_grows(64, (b - 1) as nat);
    assert(q * u > 0) by (nonlinear_arith)
        requires
            q > 0,
            u > 0,
    ;
    vstd::arithmetic::div_mod::lemma_fundamental_div_mod(p as int, q as int);
    assert(p >= pw2(52) * (q * u)) by (nonlinear_arith)
        requires
            p >= q * n,
            n >= pw2(52) * u,
    ;
    let t = p / (q * u);
    assert(t >= pw2(52)) by {
        vstd::arithmetic::div_mod::lemma_div_is_ordered(
            (pw2(52) * (q * u)) as int,
            p as int,
            (q * u) as int,
        );
        vstd::arithmetic::div_mod::lemma_div_multiples_vanish(pw2(52) as int, (q * u) as int);
        assert((q * u) * pw2(52) == pw2(52) * (q * u)) by (nonlinear_arith);
    }
    let e = nearest_even(p, q * u);
    assert(e >= t);
    assert(e * u >= pw2(52) * u) by (nonlinear_arith)
        requires
            e >= pw2(52),
    ;
}

/// A number below a tenth is still below one after rounding.
proof fn lemma_double_floor_tiny(p: nat, q: nat)
    requires
        10 * p < q,
    ensures
        double_floor(p, q) == 0,
{
    assert(p / q == 0) by {
        vstd::arithmetic::div_mod::lemma_basic_div(p as int, q as int);
    }
    assert(bits(0) == 0);
    let s = pw2(53);
    lemma_pw2_values();
    let a = p * s;
    let t = a / q;
    vstd::arithmetic::div_mod::lemma_fundamental_div_mod(a as int, q as int);
    vstd::arithmetic::div_mod::lemma_mod_bound(a as int, q as int);
    assert(10 * t < s) by (nonlinear_arith)
        requires
            q * t <= p * s,
            10 * p < q,
            s > 0,
            t >= 0,
            p >= 0,
    ;
    let e = nearest_even(a, q);
    assert(e <= t + 1);
    assert(e < s);
    assert(e / s == 0) by {
        vstd::arithmetic::div_mod::lemma_basic_div(e as int, s as int);
    }
}

proof fn lemma_pw10_values()
    ensures
        pw10(13) == 10_000_000_000_000,
        pw10(20) == 100_000_000_000_000_000_000,
{
    assert(pw10(7) == 10_000_000) by {
        reveal_with_fuel(pw10, 8);
    }
    assert(pw10(6) == 1_000_000) by {
        reveal_with_fuel(pw10, 7);
    }
    lemma_pw10_adds(7, 6);
    lemma_pw10_adds(13, 7);
}

/// The least number whose first digit is not zero.
proof fn lemma_dec_least(s: Seq<u8>)
    requires
        s.len() > 0,
        s[0] > 0,
    ensures
        dec(s) >= pw10((s.len() - 1) as nat),
{
    let w = pw10((s.len() - 1) as nat);
    assert(s[0] as nat * w >= w) by (nonlinear_arith)
        requires
            s[0] >= 1,
    ;
}

proof fn lemma_scaled_zero(x: int, k: nat)
    ensures
        scaled_floor(0, x, k) == 0,
{
    assert(0 * pw2(k) == 0);
    if x >= 0 {
        assert(0 * pw10(x as nat) == 0);
        lemma_double_floor_tiny(0, 1);
    } else {
        lemma_pw10_pos((-x) as nat);
        lemma_double_floor_tiny(0, pw10((-x) as nat));
    }
}

/// A number with more than 20 digits before the point does not fit in 64 bits.
proof fn lemma_scaled_huge(s: Seq<u8>, x: int, k: nat)
    requires
        s.len() > 0,
        s[0] > 0,
        x + s.len() > 20,
    ensures
        scaled_floor(dec(s), x, k) == u64::MAX,
{
    let d = dec(s);
    lemma_dec_least(s);
    lemma_pw2_pos(k);
    lemma_pw2_values();
    lemma_pw10_values();
    let least = pw10((s.len() - 1) as nat);
    let p = d * pw2(k);
    assert(p >= least) by (nonlinear_arith)
        requires
            d >= least,
            pw2(k) >= 1,
            p == d * pw2(k),
    ;
    if x >= 0 {
        let t = pw10(x as nat);
        lemma_pw10_adds((s.len() - 1) as nat, x as nat);
        lemma_pw10_grows(20, (s.len() - 1 + x) as nat);
        assert(((s.len() - 1) as nat + x as nat) as nat == (s.len() - 1 + x) as nat);
        assert(p * t >= least * t) by (nonlinear_arith)
            requires
                p >= least,
        ;
        assert((p * t) / 1 == p * t);
        lemma_double_floor_huge(p * t, 1);
    } else {
        let q = pw10((-x) as nat);
        lemma_pw10_pos((-x) as nat);
        let e = (s.len() - 1 + x) as nat;
        lemma_pw10_adds(e, (-x) as nat);
        assert((e + (-x) as nat) as nat == (s.len() - 1) as nat);
        lemma_pw10_grows(20, e);
        assert(p >= pw10(e) * q);
        assert(p / q >= pw10(e)) by {
            vstd::arithmetic::div_mod::lemma_div_is_ordered(
                (pw10(e) * q) as int,
                p as int,
                q as int,
            );
            vstd::arithmetic::div_mod::lemma_div_multiples_vanish(pw10(e) as int, q as int);
            assert(q * pw10(e) == pw10(e) * q) by (nonlinear_arith);
        }
        lemma_double_floor_huge(p, q);
    }
}

/// A number whose first digit stands 14 places or more behind the point vanishes.
proof fn lemma_scaled_tiny(s: Seq<u8>, x: int, k: nat)
    requires
        decimals(s),
        x + s.len() < -13,
        k <= 40,
    ensures
        scaled_floor(dec(s), x, k) == 0,
{
    let d = dec(s);
    lemma_dec_bound(s);
    lemma_pw2_values();
    lemma_pw10_values();
    lemma_pw2_grows(k, 40);
    lemma_pw10_adds(s.len(), 13);
    lemma_pw10_grows(s.len() + 14, (-x) as nat);
    let p = d * pw2(k);
    assert(p <= d * pw10(13)) by (nonlinear_arith)
        requires
            p == d * pw2(k),
            pw2(k) <= pw10(13),
    ;
    assert(d * pw10(13) < pw10(s.len()) * pw10(13)) by (nonlinear_arith)
        requires
            d < pw10(s.len()),
            pw10(13) > 0,
    ;
    assert(pw10(s.len() + 14) == 10 * pw10(s.len() + 13));
    lemma_double_floor_tiny(p, pw10((-x) as nat));
}

fn push_zeros(d: &mut Vec<u8>, n: usize)
    requires
        decimals(old(d)@),
    ensures
        decimals(final(d)@),
        final(d)@.len() == old(d)@.len() + n,
        dec(final(d)@) == dec(old(d)@) * pw10(n as nat),
{
    let mut i: usize = 0;
    let ghost before = dec(d@);
    let ghost len = d@.len();
    assert(before * pw10(0) == before) by {
        assert(pw10(0) == 1);
    }
    while i < n
        invariant
            i <= n,
            decimals(d@),
            d@.len() == len + i,
            dec(d@) == before * pw10(i as nat),
        decreases n - i,
    {
        proof {
            lemma_dec_push(d@, 0);
            assert(before * (10 * pw10(i as nat)) == 10 * (before * pw10(i as nat)))
                by (nonlinear_arith);
        }
        d.push(0);
        i += 1;
    }
}

/// The integer part of the double nearest to the number with digits `digits` and decimal
/// exponent `x`, times `2^k`.
pub fn scale(digits: &Vec<u8>, x: i128, k: usize) -> (r: u64)
    requires
        decimals(digits@),
        -0x8000_0000_0000_0000_0000_0000 <= x <= 0x8000_0000_0000_0000_0000_0000,
        k <= 40,
    ensures
        r == scaled_floor(dec(digits@), x as int, k as nat),
{
    let mut z: usize = 0;
    while z < digits.len() && digits[z] == 0
        invariant
            z <= digits@.len(),
            forall|i: int| 0 <= i < z ==> #[trigger] digits@[i] == 0,
        decreases digits@.len() - z,
    {
        z += 1;
    }
    let ghost s = digits@.skip(z as int);
    proof {
        assert(digits@ =~= digits@.take(z as int) + s);
        lemma_dec_zeros(digits@.take(z as int));
        lemma_dec_concat(digits@.take(z as int), s);
        assert(0 * pw10(s.len()) == 0);
    }
    if z == digits.len() {
        proof {
            assert(dec(s) == 0);
            lemma_scaled_zero(x as int, k as nat);
        }
        return 0;
    }
    let len: usize = digits.len() - z;
    let pos: i128 = x + len as i128;
    assert forall|i: int| 0 <= i < s.len() implies #[trigger] s[i] <= 9 by {
        assert(s[i] == digits@[i + z]);
    }
    assert(s[0] == digits@[z as int]);
    if pos > 20 {
        proof {
            lemma_scaled_huge(s, x as int, k as nat);
        }
        return 0xffff_ffff_ffff_ffff;
    }
    if pos < -13 {
        proof {
            lemma_scaled_tiny(s, x as int, k as nat);
        }
        return 0;
    }
    scale_near(digits, z, x, k)
}

/// `scale` where the first digit stands near the point.
fn scale_near(digits: &Vec<u8>, z: usize, x: i128, k: usize) -> (r: u64)
    requires
        decimals(digits@),
        z < digits@.len(),
        -13 <= x + digits@.len() - z <= 20,
        k <= 40,
    ensures
        r == scaled_floor(dec(digits@.skip(z as int)), x as int, k as nat),
{
    let ghost s = digits@.skip(z as int);
    let len: usize = digits.len() - z;
    let places: i128 = if x < 0 {
        -x
    } else {
        0
    };
    let mut w: Vec<u8> = Vec::new();
    let missing: usize = if places > len as i128 {
        (places - len as i128) as usize
    } else {
        0
    };
    push_zeros(&mut w, 13);
    push_zeros(&mut w, missing);
    proof {
        assert(dec(Seq::<u8>::empty()) == 0);
        assert(0 * pw10(13) == 0);
        assert(0 * pw10(missing as nat) == 0);
    }
    let mut i: usize = z;
    let ghost base = w@;
    while i < digits.len()
        invariant
            z <= i <= digits@.len(),
            decimals(digits@),
            decimals(base),
            w@ == base + digits@.subrange(z as int, i as int),
        decreases digits@.len() - i,
    {
        w.push(digits[i]);
        i += 1;
    }
    proof {
        assert(digits@.subrange(z as int, i as int) =~= s);
        lemma_dec_concat(base, s);
        assert(0 * pw10(s.len()) == 0);
        assert forall|j: int| 0 <= j < w@.len() implies #[trigger] w@[j] <= 9 by {
            if j >= base.len() {
                assert(w@[j] == digits@[z + j - base.len()]);
            } else {
                assert(w@[j] == base[j]);
            }
        }
        assert forall|j: int| 0 <= j < s.len() implies #[trigger] s[j] <= 9 by {
            assert(s[j] == digits@[z + j]);
        }
    }
    let zeros: usize = if x > 0 {
        x as usize
    } else {
        0
    };
    push_zeros(&mut w, zeros);
    let ghost d = dec(s);
    let ghost b = d * pw10(zeros as nat);
    let ghost total = w@.len();
    proof {
        lemma_dec_bound(s);
        lemma_pw2_values();
        lemma_pw10_values();
        lemma_pw10_pos(zeros as nat);
        lemma_pw10_adds(s.len(), zeros as nat);
        lemma_pw10_adds(s.len() + zeros as nat, 13);
        lemma_pw10_grows(s.len() + zeros as nat + 13, total);
        let top = pw10(s.len() + zeros as nat);
        assert(b < top) by (nonlinear_arith)
            requires
                b == d * pw10(zeros as nat),
                top == pw10(s.len()) * pw10(zeros as nat),
                d < pw10(s.len()),
                pw10(zeros as nat) > 0,
        ;
        assert(b * pw2(40) < top * pw10(13)) by (nonlinear_arith)
            requires
                b < top,
                0 < pw2(40) <= pw10(13),
        ;
        assert(b * pw2(0) == b) by {
            assert(pw2(0) == 1);
        }
    }
    let mut j: usize = 0;
    while j < k
        invariant
            j <= k <= 40,
            decimals(w@),
            w@.len() == total,
            dec(w@) == b * pw2(j as nat),
            b * pw2(40) < pw10(total),
        decreases k - j,
    {
        let ghost before = dec(w@);
        let carry = double(&mut w);
        proof {
            assert(b * pw2((j + 1) as nat) == 2 * (b * pw2(j as nat))) by (nonlinear_arith)
                requires
                    pw2((j + 1) as nat) == 2 * pw2(j as nat),
            ;
            lemma_pw2_grows((j + 1) as nat, 40);
            assert(b * pw2((j + 1) as nat) <= b * pw2(40)) by (nonlinear_arith)
                requires
                    pw2((j + 1) as nat) <= pw2(40),
            ;
        }
        j += 1;
    }
    let l: usize = places as usize;
    let cut: usize = w.len() - l;
    let ghost whole_row = w@;
    let frac = w.split_off(cut);
    proof {
        let q = pw10(l as nat);
        assert(whole_row =~= w@ + frac@);
        lemma_dec_concat(w@, frac@);
        assert forall|i: int| 0 <= i < w@.len() implies #[trigger] w@[i] <= 9 by {
            assert(w@[i] == whole_row[i]);
        }
        assert forall|i: int| 0 <= i < frac@.len() implies #[trigger] frac@[i] <= 9 by {
            assert(frac@[i] == whole_row[cut + i]);
        }
        lemma_dec_bound(frac@);
        lemma_pw10_pos(l as nat);
        lemma_quotient(dec(w@), q, dec(frac@));
        let e = pw2(k as nat);
        let t = pw10(zeros as nat);
        assert(d * t * e == d * e * t) by (nonlinear_arith);
        assert(pw10(0) == 1);
        assert(d * 1 == d);
        assert(dec(whole_row) == if x >= 0 {
            d * e * pw10(x as nat)
        } else {
            d * e
        });
    }
    match read_number(&w) {
        None => {
            proof {
                lemma_pw2_values();
                lemma_double_floor_huge(dec(whole_row), pw10(l as nat));
            }
            0xffff_ffff_ffff_ffff
        },
        Some(n) => {
            if count_bits(n) <= 53 {
                round_small(n, frac)
            } else {
                round_large(n, &frac)
            }
        },
    }
}

/// The largest exponent that matters: no row of digits is as long.
pub const EXPONENT_CAP: u128 = 0x1_0000_0000_0000_0000_0000;

/// Clamped exponents decide alike.
pub proof fn lemma_capped(digits: Seq<u8>, e: int, c: int, fraction: int, k: nat)
    requires
        decimals(digits),
        digits.len() < 0x1_0000_0000_0000_0000,
        0 <= fraction < 0x1_0000_0000_0000_0000,
        k <= 40,
        (e >= EXPONENT_CAP && c == EXPONENT_CAP) || (e <= -(EXPONENT_CAP as int) && c
            == -(EXPONENT_CAP as int)) || c == e,
    ensures
        scaled_floor(dec(digits), e - fraction, k) == scaled_floor(dec(digits), c - fraction, k),
{
    if c != e {
        if forall|i: int| 0 <= i < digits.len() ==> digits[i] == 0 {
            lemma_dec_zeros(digits);
            lemma_scaled_zero(e - fraction, k);
            lemma_scaled_zero(c - fraction, k);
        } else {
            let z = choose|i: int| 0 <= i < digits.len() && digits[i] != 0;
            let first = lemma_first_nonzero(digits, z);
            let s = digits.skip(first);
            lemma_dec_zeros(digits.take(first));
            lemma_dec_concat(digits.take(first), s);
            assert(digits =~= digits.take(first) + s);
            assert(0 * pw10(s.len()) == 0);
            assert(s[0] == digits[first]);
            assert forall|i: int| 0 <= i < s.len() implies #[trigger] s[i] <= 9 by {
                assert(s[i] == digits[i + first]);
            }
            if e > 0 {
                lemma_scaled_huge(s, e - fraction, k);
                lemma_scaled_huge(s, c - fraction, k);
            } else {
                lemma_scaled_tiny(s, e - fraction, k);
                lemma_scaled_tiny(s, c - fraction, k);
            }
        }
    }
}

proof fn lemma_first_nonzero(s: Seq<u8>, z: int) -> (r: int)
    requires
        0 <= z < s.len(),
        s[z] != 0,
    ensures
        0 <= r < s.len(),
        s[r] > 0,
        forall|i: int| 0 <= i < r ==> #[trigger] s[i] == 0,
    decreases z,
{
    if forall|i: int| 0 <= i < z ==> #[trigger] s[i] == 0 {
        z
    } else {
        let y = choose|i: int| 0 <= i < z && #[trigger] s[i] != 0;
        lemma_first_nonzero(s, y)
    }
}

/// The powers of two of the binary units are those of 1024.
pub proof fn units_are_powers_of_1024()
    ensures
        pw2(0) == 1,
        pw2(10) == 1024,
        pw2(20) == 1024 * 1024,
        pw2(30) == 1024 * 1024 * 1024,
        pw2(40) == 1024 * 1024 * 1024 * 1024,
{
    assert(pw2(10) == 1024) by {
        reveal_with_fuel(pw2, 11);
    }
    lemma_pw2_adds(10, 10);
    lemma_pw2_adds(20, 10);
    lemma_pw2_adds(30, 10);
}

/// A quotient that is a whole number of at most 53 bits is kept as it is.
pub proof fn exact_quotients_are_kept(m: nat, q: nat)
    requires
        q > 0,
        m < 0x20_0000_0000_0000,
    ensures
        double_floor(m * q, q) == m,
{
    lemma_pw2_values();
    lemma_quotient(m, q, 0);
    lemma_bits_bound(m, 53);
    let s = pw2((53 - bits(m)) as nat);
    lemma_pw2_pos((53 - bits(m)) as nat);
    assert((m * q) * s == (m * s) * q) by (nonlinear_arith);
    lemma_nearest((m * q) * s, q, m * s, 0);
    lemma_quotient(m, s, 0);
}

/// A whole number of at most 53 bits, times a power of two, is kept as it is.
pub proof fn whole_multiples_are_kept(n: nat, k: nat)
    requires
        n < 0x20_0000_0000_0000,
    ensures
        double_floor(n * pw2(k), 1) == n * pw2(k),
{
    let p = n * pw2(k);
    lemma_pw2_values();
    lemma_pw2_pos(k);
    if p < 0x20_0000_0000_0000 {
        assert(p * 1 == p);
        exact_quotients_are_kept(p, 1);
    } else {
        lemma_bits_least(p, 53);
        assert(p < pw2(53) * pw2(k)) by (nonlinear_arith)
            requires
                p == n * pw2(k),
                n < pw2(53),
                pw2(k) > 0,
        ;
        lemma_pw2_adds(53, k);
        lemma_bits_bound(p, 53 + k);
        let j = (bits(p) - 53) as nat;
        let i = (k - j) as nat;
        let u = pw2(j);
        lemma_pw2_pos(j);
        lemma_pw2_adds(i, j);
        let t = n * pw2(i);
        assert(p == t * u) by (nonlinear_arith)
            requires
                p == n * (pw2(i) * u),
                t == n * pw2(i),
        ;
        assert(1 * u == u);
        assert(p / 1 == p);
        lemma_nearest(p, u, t, 0);
    }
}

/// A quotient of at most 53 bits is cut to a whole number, or rounded up to the next.
pub proof fn quotients_are_cut_or_rounded_up(p: nat, q: nat)
    requires
        q > 0,
        p / q < 0x20_0000_0000_0000,
    ensures
        p / q <= double_floor(p, q) <= p / q + 1,
{
    let a = p / q;
    let r = p % q;
    lemma_pw2_values();
    lemma_bits_bound(a, 53);
    let s = pw2((53 - bits(a)) as nat);
    lemma_pw2_pos((53 - bits(a)) as nat);
    assert(p == a * q + r) by {
        vstd::arithmetic::div_mod::lemma_fundamental_div_mod(p as int, q as int);
        assert(q * a == a * q) by (nonlinear_arith);
    }
    let e = (r * s) / q;
    let f = (r * s) % q;
    assert(r * s == e * q + f) by {
        vstd::arithmetic::div_mod::lemma_fundamental_div_mod((r * s) as int, q as int);
        assert(q * e == e * q) by (nonlinear_arith);
    }
    assert(e < s) by (nonlinear_arith)
        requires
            r * s == e * q + f,
            r < q,
            s > 0,
            q > 0,
    ;
    assert(p * s == (a * s + e) * q + f) by (nonlinear_arith)
        requires
            p == a * q + r,
            r * s == e * q + f,
    ;
    lemma_nearest(p * s, q, a * s + e, f);
    let n = nearest_even(p * s, q);
    assert(a * s <= n <= a * s + s);
    if n == a * s + s {
        assert(n == (a + 1) * s) by (nonlinear_arith)
            requires
                n == a * s + s,
        ;
        lemma_quotient(a + 1, s, 0);
    } else {
        lemma_quotient(a, s, (n - a * s) as nat);
    }
}

/// A number that needs no rounding is read exactly, and one beyond the largest integer as that.
pub proof fn exact_numbers_are_read_exactly(d: nat, k: nat, digits: nat, m: nat)
    ensures
        d < 0x20_0000_0000_0000 ==> scaled_floor(d, 0, k) == if d * pw2(k) <= u64::MAX {
            d * pw2(k)
        } else {
            u64::MAX as nat
        },
        m < 0x20_0000_0000_0000 && d * pw2(k) == m * pw10(digits) && digits > 0 ==> scaled_floor(
            d,
            -(digits as int),
            k,
        ) == m,
{
    if d < 0x20_0000_0000_0000 {
        whole_multiples_are_kept(d, k);
        assert(pw10(0) == 1);
        assert(d * pw2(k) * 1 == d * pw2(k));
    }
    if m < 0x20_0000_0000_0000 && d * pw2(k) == m * pw10(digits) {
        lemma_pw10_pos(digits);
        exact_quotients_are_kept(m, pw10(digits));
    }
}

} // verus!
