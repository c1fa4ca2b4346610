//! Unsigned integers as rows of bytes, the most significant byte first.

use vstd::prelude::*;

verus! {

/// `256` to the power of `k`.
pub open spec fn pow256(k: nat) -> nat
    decreases k,
{
    if k == 0 {
        1
    } else {
        256 * pow256((k - 1) as nat)
    }
}

/// The `k` low bytes of `n`, the most significant byte first.
pub open spec fn be(n: nat, k: nat) -> Seq<u8>
    decreases k,
{
    if k == 0 {
        Seq::empty()
    } else {
        be(n / 256, (k - 1) as nat).push((n % 256) as u8)
    }
}

/// The number that a row of bytes denotes.
pub open spec fn be_value(s: Seq<u8>) -> nat
    decreases s.len(),
{
    if s.len() == 0 {
        0
    } else {
        256 * be_value(s.drop_last()) + s.last() as nat
    }
}

/// The two's complement form of a 64-bit signed integer.
pub open spec fn twos(n: int) -> nat {
    if n < 0 {
        (n + 0x1_0000_0000_0000_0000) as nat
    } else {
        n as nat
    }
}

/// The 64-bit signed integer whose two's complement form is `n`.
pub open spec fn from_twos(n: nat) -> int {
    if n < 0x8000_0000_0000_0000 {
        n as int
    } else {
        n - 0x1_0000_0000_0000_0000
    }
}

/// The bytes of a 64-bit signed integer.
pub open spec fn be_i64(n: int) -> Seq<u8> {
    be(twos(n), 8)
}

/// The 64-bit signed integer that eight bytes denote.
pub open spec fn be_i64_value(s: Seq<u8>) -> int {
    from_twos(be_value(s))
}

pub proof fn lemma_be_len(n: nat, k: nat)
    ensures
        be(n, k).len() == k,
    decreases k,
{
    if k > 0 {
        lemma_be_len(n / 256, (k - 1) as nat);
    }
}

/// A number that fits in `k` bytes reads back from them.
pub proof fn be_reads_back(n: nat, k: nat)
    requires
        n < pow256(k),
    ensures
        be_value(be(n, k)) == n,
    decreases k,
{
    if k > 0 {
        be_reads_back(n / 256, (k - 1) as nat);
        let s = be(n, k);
        assert(s.drop_last() =~= be(n / 256, (k - 1) as nat));
    }
}

pub proof fn lemma_be_value_bound(s: Seq<u8>)
    ensures
        be_value(s) < pow256(s.len()),
    decreases s.len(),
{
    if s.len() > 0 {
        lemma_be_value_bound(s.drop_last());
    }
}

pub proof fn lemma_pow256()
    ensures
        pow256(2) == 0x1_0000,
        pow256(4) == 0x1_0000_0000,
        pow256(8) == 0x1_0000_0000_0000_0000,
{
    reveal_with_fuel(pow256, 9);
}

/// A signed integer reads back from its bytes.
pub proof fn be_i64_reads_back(n: int)
    requires
        i64::MIN <= n <= i64::MAX,
    ensures
        be_i64(n).len() == 8,
        be_i64_value(be_i64(n)) == n,
{
    lemma_pow256();
    lemma_be_len(twos(n), 8);
    be_reads_back(twos(n), 8);
}

/// Reads the number that `data[from..to]` denotes.
pub fn read_be(data: &[u8], from: usize, to: usize) -> (r: u64)
    requires
        from <= to <= data@.len(),
        to - from <= 8,
    ensures
        r == be_value(data@.subrange(from as int, to as int)),
{
    let mut v: u64 = 0;
    let mut i: usize = from;
    assert(data@.subrange(from as int, from as int) =~= Seq::<u8>::empty());
    while i < to
        invariant
            from <= i <= to <= data@.len(),
            to - from <= 8,
            v == be_value(data@.subrange(from as int, i as int)),
        decreases to - i,
    {
        proof {
            let s = data@.subrange(from as int, i as int);
            let t = data@.subrange(from as int, i + 1);
            assert(t.drop_last() =~= s);
            lemma_be_value_bound(t);
            lemma_pow256_grows((i + 1 - from) as nat, 8);
            lemma_pow256();
        }
        v = v * 256 + data[i] as u64;
        i += 1;
    }
    v
}

proof fn lemma_pow256_grows(a: nat, b: nat)
    requires
        a <= b,
    ensures
        pow256(a) <= pow256(b),
    decreases b - a,
{
    if a < b {
        lemma_pow256_grows(a, (b - 1) as nat);
    }
}

/// Reads the signed integer that the eight bytes from `from` on denote.
pub fn read_i64(data: &[u8], from: usize) -> (r: i64)
    requires
        from + 8 <= data@.len(),
    ensures
        r == be_i64_value(data@.subrange(from as int, from + 8)),
{
    let n: usize = data.len();
    assert(from + 8 <= n);
    as_signed(read_be(data, from, from + 8))
}

/// Writes the `k` low bytes of `n`.
pub fn write_be(n: u64, k: usize) -> (r: Vec<u8>)
    ensures
        r@ == be(n as nat, k as nat),
    decreases k,
{
    if k == 0 {
        Vec::new()
    } else {
        let mut r = write_be(n / 256, k - 1);
        r.push((n % 256) as u8);
        r
    }
}

/// The two's complement form of a signed integer.
pub fn as_unsigned(n: i64) -> (r: u64)
    ensures
        r == twos(n as int),
{
    if n < 0 {
        0xffff_ffff_ffff_ffff - ((-(n + 1)) as u64)
    } else {
        n as u64
    }
}

/// The signed integer whose two's complement form is `n`.
pub fn as_signed(n: u64) -> (r: i64)
    ensures
        r == from_twos(n as nat),
{
    if n < 0x8000_0000_0000_0000 {
        n as i64
    } else {
        -((0xffff_ffff_ffff_ffff - n) as i64) - 1
    }
}

/// Writes the eight bytes of a signed integer.
pub fn write_i64(n: i64) -> (r: Vec<u8>)
    ensures
        r@ == be_i64(n as int),
{
    write_be(as_unsigned(n), 8)
}

} // verus!
