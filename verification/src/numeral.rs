//! Numbers as they are written: decimal fractions with an optional exponent.

use vstd::prelude::*;
use vstd::string::*;

use crate::number::{all_digits, digits_value, is_digit};
use crate::quantity::{
    dec, decimals, lemma_capped, lemma_dec_push, scale, scaled_floor, EXPONENT_CAP,
};
use crate::text::{chars_of, index_where, lemma_index_where_is, only};

verus! {

/// A number as it is written.
pub enum Numeral {
    Nan,
    Infinite { negative: bool },
    /// The digits before and behind the point, and the exponent of the last of them.
    Finite { negative: bool, digits: Seq<char>, exponent: int },
}

/// The letter's lower case, for the letters of ASCII.
pub open spec fn ascii_lower(c: char) -> char {
    if 'A' <= c <= 'Z' {
        (c as int + 32) as char
    } else {
        c
    }
}

/// Whether all characters of `s` are ASCII.
pub open spec fn is_ascii(s: Seq<char>) -> bool {
    forall|i: int| 0 <= i < s.len() ==> (#[trigger] s[i] as int) < 128
}

/// A text in lower case, as far as its letters are those of ASCII.
pub open spec fn ascii_lowered(s: Seq<char>) -> Seq<char> {
    s.map_values(|c: char| ascii_lower(c))
}

/// Whether `s` begins with a minus sign.
pub open spec fn is_negative(s: Seq<char>) -> bool {
    s.len() > 0 && s[0] == '-'
}

/// What follows the sign of `s`, if it has one.
pub open spec fn unsigned_part(s: Seq<char>) -> Seq<char> {
    if s.len() > 0 && (s[0] == '-' || s[0] == '+') {
        s.skip(1)
    } else {
        s
    }
}

/// Whether `c` begins an exponent.
pub open spec fn is_exponent_mark(c: char) -> bool {
    c == 'e' || c == 'E'
}

/// The exponent that `s` denotes: digits behind an optional sign.
pub open spec fn exponent_value(s: Seq<char>) -> Option<int> {
    let t = unsigned_part(s);
    if t.len() > 0 && all_digits(t) {
        Some(
            if is_negative(s) {
                -(digits_value(t) as int)
            } else {
                digits_value(t) as int
            },
        )
    } else {
        None
    }
}

/// The number that digits with at most one point denote, with the given exponent.
pub open spec fn mantissa(negative: bool, s: Seq<char>, exponent: int) -> Option<Numeral> {
    let p = index_where(s, only('.'));
    let whole = s.take(p);
    let fraction = if p < s.len() {
        s.skip(p + 1)
    } else {
        Seq::empty()
    };
    if all_digits(whole) && all_digits(fraction) && whole.len() + fraction.len() > 0 {
        Some(
            Numeral::Finite {
                negative,
                digits: whole + fraction,
                exponent: exponent - fraction.len(),
            },
        )
    } else {
        None
    }
}

/// The number that `s` denotes, if it denotes one: a sign, then `inf`, `infinity`, `nan`, or
/// digits with at most one point and an exponent.
pub open spec fn numeral(s: Seq<char>) -> Option<Numeral> {
    let negative = is_negative(s);
    let body = unsigned_part(s);
    let word = ascii_lowered(body);
    let e = index_where(body, |c: char| is_exponent_mark(c));
    if word == "inf"@ || word == "infinity"@ {
        Some(Numeral::Infinite { negative })
    } else if word == "nan"@ {
        Some(Numeral::Nan)
    } else if e >= body.len() {
        mantissa(negative, body, 0)
    } else {
        match exponent_value(body.skip(e + 1)) {
            Some(x) => mantissa(negative, body.take(e), x),
            None => None,
        }
    }
}

/// The integer part of the double nearest to the number that `s` denotes, times `2^k`. It is
/// zero where `s` denotes no number or a negative one, and at most the largest 64-bit integer.
pub open spec fn scaled(s: Seq<char>, k: nat) -> u64 {
    match numeral(s) {
        None => 0,
        Some(Numeral::Nan) => 0,
        Some(Numeral::Infinite { negative }) => if negative {
            0
        } else {
            u64::MAX
        },
        Some(Numeral::Finite { negative, digits, exponent }) => if negative {
            0
        } else {
            scaled_floor(digits_value(digits), exponent, k)
        },
    }
}

/// The digits' values.
spec fn digit_values(s: Seq<char>) -> Seq<u8> {
    s.map_values(|c: char| (c as int - '0' as int) as u8)
}

proof fn lemma_digit_values(s: Seq<char>)
    requires
        all_digits(s),
    ensures
        decimals(digit_values(s)),
        dec(digit_values(s)) == digits_value(s),
    decreases s.len(),
{
    let v = digit_values(s);
    assert forall|i: int| 0 <= i < v.len() implies #[trigger] v[i] <= 9 by {
        assert(is_digit(s[i]));
    }
    if s.len() > 0 {
        let t = s.drop_last();
        assert forall|i: int| 0 <= i < t.len() implies is_digit(#[trigger] t[i]) by {
            assert(t[i] == s[i]);
        }
        lemma_digit_values(t);
        assert(is_digit(s.last()));
        assert(v =~= digit_values(t).push((s.last() as int - '0' as int) as u8));
        lemma_dec_push(digit_values(t), (s.last() as int - '0' as int) as u8);
    }
}

/// Appends the values of the digits `cs[from..to]`. Tells whether all of them are digits.
fn take_digits(cs: &Vec<char>, from: usize, to: usize, into: &mut Vec<u8>) -> (r: bool)
    requires
        from <= to <= cs@.len(),
    ensures
        r == all_digits(cs@.subrange(from as int, to as int)),
        r ==> final(into)@ == old(into)@ + digit_values(cs@.subrange(from as int, to as int)),
{
    let ghost before = into@;
    let ghost s = cs@.subrange(from as int, to as int);
    let mut i: usize = from;
    while i < to
        invariant
            from <= i <= to <= cs@.len(),
            s == cs@.subrange(from as int, to as int),
            forall|k: int| 0 <= k < i - from ==> is_digit(#[trigger] s[k]),
            into@ == before + digit_values(s.take(i - from)),
        decreases to - i,
    {
        let c = cs[i];
        assert(s[i - from] == c);
        if !('0' <= c && c <= '9') {
            return false;
        }
        into.push((c as u32 - '0' as u32) as u8);
        proof {
            assert(s.take(i - from + 1) =~= s.take(i - from).push(c));
            assert(digit_values(s.take(i - from + 1)) =~= digit_values(s.take(i - from)).push(
                (c as int - '0' as int) as u8,
            ));
        }
        i += 1;
    }
    assert(s.take(i - from) =~= s);
    true
}

/// Reads the digits `cs[from..]` as a number, or as the cap if that is less.
fn capped_digits(cs: &Vec<char>, from: usize) -> (r: Option<u128>)
    requires
        from <= cs@.len(),
    ensures
        ({
            let t = cs@.skip(from as int);
            &&& r is Some == (t.len() > 0 && all_digits(t))
            &&& r matches Some(v) ==> v == if digits_value(t) < EXPONENT_CAP {
                digits_value(t)
            } else {
                EXPONENT_CAP as nat
            }
        }),
{
    let ghost t = cs@.skip(from as int);
    if from == cs.len() {
        return None;
    }
    let mut v: u128 = 0;
    let mut i: usize = from;
    assert(t.take(0) =~= Seq::<char>::empty());
    while i < cs.len()
        invariant
            from <= i <= cs.len(),
            t == cs@.skip(from as int),
            forall|k: int| 0 <= k < i - from ==> is_digit(#[trigger] t[k]),
            v <= EXPONENT_CAP,
            v == if digits_value(t.take(i - from)) < EXPONENT_CAP {
                digits_value(t.take(i - from))
            } else {
                EXPONENT_CAP as nat
            },
        decreases cs.len() - i,
    {
        let c = cs[i];
        assert(t[i - from] == c);
        if !('0' <= c && c <= '9') {
            return None;
        }
        let d: u128 = (c as u32 - '0' as u32) as u128;
        assert(t.take(i - from + 1).drop_last() =~= t.take(i - from));
        assert(digits_value(t.take(i - from + 1)) == 10 * digits_value(t.take(i - from)) + d);
        v = 10 * v + d;
        if v > EXPONENT_CAP {
            v = EXPONENT_CAP;
        }
        i += 1;
    }
    assert(t.take(i - from) =~= t);
    Some(v)
}

/// Whether the exponent `c` stands for `e`, which it may fall short of where both are beyond
/// every row of digits.
pub open spec fn stands_for(c: int, e: int) -> bool {
    ||| c == e
    ||| c == EXPONENT_CAP && e >= EXPONENT_CAP
    ||| c == -(EXPONENT_CAP as int) && e <= -(EXPONENT_CAP as int)
}

/// Reads the exponent `cs[from..]`.
fn read_exponent(cs: &Vec<char>, from: usize) -> (r: Option<i128>)
    requires
        from <= cs@.len(),
    ensures
        r is Some == exponent_value(cs@.skip(from as int)) is Some,
        r matches Some(c) ==> stands_for(c as int, exponent_value(cs@.skip(from as int))->0)
            && -(EXPONENT_CAP as int) <= c <= EXPONENT_CAP,
{
    let ghost s = cs@.skip(from as int);
    let minus = from < cs.len() && cs[from] == '-';
    let start: usize = if from < cs.len() && (cs[from] == '-' || cs[from] == '+') {
        from + 1
    } else {
        from
    };
    assert(unsigned_part(s) =~= cs@.skip(start as int));
    match capped_digits(cs, start) {
        None => None,
        Some(v) => if minus {
            Some(-(v as i128))
        } else {
            Some(v as i128)
        },
    }
}

/// Tells whether `cs[from..]` is a word, whatever the case of its letters.
fn is_word(cs: &Vec<char>, from: usize, word: &str) -> (r: bool)
    requires
        from <= cs@.len(),
    ensures
        r == (ascii_lowered(cs@.skip(from as int)) == word@),
{
    let ws = chars_of(word);
    let ghost body = ascii_lowered(cs@.skip(from as int));
    if ws.len() != cs.len() - from {
        assert(body.len() != word@.len());
        return false;
    }
    let n: usize = cs.len();
    let mut i: usize = 0;
    while i < ws.len()
        invariant
            i <= ws@.len(),
            n == cs@.len(),
            from <= n,
            ws@.len() == n - from,
            ws@ == word@,
            body == ascii_lowered(cs@.skip(from as int)),
            forall|k: int| 0 <= k < i ==> body[k] == ws@[k],
        decreases ws@.len() - i,
    {
        let c = cs[from + i];
        let l: char = if 'A' <= c && c <= 'Z' {
            (c as u8 + 32) as char
        } else {
            c
        };
        assert(body[i as int] == ascii_lower(c));
        if l != ws[i] {
            assert(body[i as int] != word@[i as int]);
            return false;
        }
        i += 1;
    }
    assert(body =~= word@);
    true
}

/// Reads the digits `cs[from..to]` with at most one point, and scales them.
fn scale_mantissa(cs: &Vec<char>, from: usize, to: usize, negative: bool, c: i128, Ghost(e): Ghost<
    int,
>, k: usize) -> (r: u64)
    requires
        from <= to <= cs@.len(),
        k <= 40,
        -(EXPONENT_CAP as int) <= c <= EXPONENT_CAP,
        stands_for(c as int, e),
    ensures
        r == match mantissa(negative, cs@.subrange(from as int, to as int), e) {
            Some(Numeral::Finite { negative: n, digits, exponent }) => if n {
                0
            } else {
                scaled_floor(digits_value(digits), exponent, k as nat)
            },
            _ => 0,
        },
{
    let ghost s = cs@.subrange(from as int, to as int);
    let mut p: usize = from;
    while p < to && cs[p] != '.'
        invariant
            from <= p <= to <= cs@.len(),
            forall|i: int| from <= i < p ==> cs@[i] != '.',
        decreases to - p,
    {
        p += 1;
    }
    proof {
        let dot = only('.');
        assert forall|i: int| 0 <= i < p - from implies !dot(#[trigger] s[i]) by {
            assert(s[i] == cs@[from + i]);
        }
        lemma_index_where_is(s, dot, p - from);
        assert(s.take(p - from) =~= cs@.subrange(from as int, p as int));
    }
    let mut digits: Vec<u8> = Vec::new();
    if !take_digits(cs, from, p, &mut digits) {
        return 0;
    }
    let mut fraction: usize = 0;
    let ghost whole = cs@.subrange(from as int, p as int);
    let ghost behind = if p < to {
        s.skip(p - from + 1)
    } else {
        Seq::empty()
    };
    if p < to {
        assert(cs@.subrange(p + 1, to as int) =~= behind);
        if !take_digits(cs, p + 1, to, &mut digits) {
            return 0;
        }
        fraction = to - p - 1;
    }
    assert(digits@ =~= digit_values(whole + behind));
    if digits.len() == 0 || negative {
        return 0;
    }
    proof {
        let all = whole + behind;
        assert forall|i: int| 0 <= i < all.len() implies is_digit(#[trigger] all[i]) by {
            if i < whole.len() {
                assert(all[i] == whole[i]);
            } else {
                assert(all[i] == behind[i - whole.len()]);
            }
        }
        lemma_digit_values(all);
        lemma_capped(digits@, e, c as int, fraction as int, k as nat);
    }
    scale(&digits, c - fraction as i128, k)
}

/// The integer part of the double nearest to the number that `s` denotes, times `2^k`.
pub fn scale_text(s: &str, k: usize) -> (r: u64)
    requires
        k <= 40,
    ensures
        r == scaled(s@, k as nat),
{
    let cs = chars_of(s);
    let n: usize = cs.len();
    let negative = n > 0 && cs[0] == '-';
    let from: usize = if n > 0 && (cs[0] == '-' || cs[0] == '+') {
        1
    } else {
        0
    };
    let ghost body = unsigned_part(s@);
    assert(cs@.skip(from as int) =~= body);
    if is_word(&cs, from, "inf") || is_word(&cs, from, "infinity") {
        return if negative {
            0
        } else {
            0xffff_ffff_ffff_ffff
        };
    }
    if is_word(&cs, from, "nan") {
        return 0;
    }
    let mut m: usize = from;
    while m < n && !(cs[m] == 'e' || cs[m] == 'E')
        invariant
            from <= m <= n,
            n == cs@.len(),
            forall|i: int| from <= i < m ==> !is_exponent_mark(#[trigger] cs@[i]),
        decreases n - m,
    {
        m += 1;
    }
    proof {
        let mark = |c: char| is_exponent_mark(c);
        assert forall|i: int| 0 <= i < m - from implies !mark(#[trigger] body[i]) by {
            assert(body[i] == cs@[from + i]);
        }
        if m < n {
            assert(body[m - from] == cs@[m as int]);
        }
        lemma_index_where_is(body, mark, m - from);
        assert(cs@.subrange(from as int, m as int) =~= body.take(m - from));
    }
    if m == n {
        assert(body.take(m - from) =~= body);
        return scale_mantissa(&cs, from, n, negative, 0, Ghost(0), k);
    }
    assert(body.skip(m - from + 1) =~= cs@.skip(m + 1));
    match read_exponent(&cs, m + 1) {
        None => 0,
        Some(c) => {
            let ghost e = exponent_value(cs@.skip(m + 1))->0;
            scale_mantissa(&cs, from, m, negative, c, Ghost(e), k)
        },
    }
}

} // verus!
