//! Fixed-width integer encodings used by the framing headers.
use vstd::prelude::*;

verus! {

/// The `n` low-order base-256 digits of `x`, least significant first.
pub open spec fn le_bytes(x: nat, n: nat) -> Seq<u8>
    decreases n,
{
    if n == 0 {
        Seq::empty()
    } else {
        seq![(x % 256) as u8] + le_bytes(x / 256, (n - 1) as nat)
    }
}

/// The `n` low-order base-256 digits of `x`, most significant first.
pub open spec fn be_bytes(x: nat, n: nat) -> Seq<u8>
    decreases n,
{
    if n == 0 {
        Seq::empty()
    } else {
        be_bytes(x / 256, (n - 1) as nat).push((x % 256) as u8)
    }
}

/// The number whose base-256 digits are `s`, least significant first.
pub open spec fn le_value(s: Seq<u8>) -> nat
    decreases s.len(),
{
    if s.len() == 0 {
        0
    } else {
        s[0] as nat + 256 * le_value(s.drop_first())
    }
}

/// The number whose base-256 digits are `s`, most significant first.
pub open spec fn be_value(s: Seq<u8>) -> nat
    decreases s.len(),
{
    if s.len() == 0 {
        0
    } else {
        256 * be_value(s.drop_last()) + s.last() as nat
    }
}

/// `x` with its `n` low-order base-256 digits removed.
pub open spec fn high_part(x: nat, n: nat) -> nat
    decreases n,
{
    if n == 0 {
        x
    } else {
        high_part(x / 256, (n - 1) as nat)
    }
}

/// `n` digits hold every number that has nothing above them, in either byte
/// order, and both encodings are `n` bytes long.
pub proof fn lemma_digits_round_trip(x: nat, n: nat)
    ensures
        le_bytes(x, n).len() == n,
        be_bytes(x, n).len() == n,
        high_part(x, n) == 0 ==> le_value(le_bytes(x, n)) == x,
        high_part(x, n) == 0 ==> be_value(be_bytes(x, n)) == x,
    decreases n,
{
    if n > 0 {
        lemma_digits_round_trip(x / 256, (n - 1) as nat);
        let l = le_bytes(x, n);
        assert(l.drop_first() =~= le_bytes(x / 256, (n - 1) as nat));
        let b = be_bytes(x, n);
        assert(b.drop_last() =~= be_bytes(x / 256, (n - 1) as nat));
    }
}

pub open spec fn le_u32(x: u32) -> Seq<u8> {
    le_bytes(x as nat, 4)
}

pub open spec fn be_u32(x: u32) -> Seq<u8> {
    be_bytes(x as nat, 4)
}

pub open spec fn le_u64(x: u64) -> Seq<u8> {
    le_bytes(x as nat, 8)
}

/// A signed 64-bit number as the unsigned number with the same bits.
pub open spec fn bits_of_i64(x: i64) -> u64 {
    if x >= 0 {
        x as u64
    } else {
        (x + 0x1_0000_0000_0000_0000) as u64
    }
}

/// The signed number with the same 64 bits as `x`.
pub open spec fn i64_of_bits(x: u64) -> i64 {
    if x < 0x8000_0000_0000_0000 {
        x as i64
    } else {
        (x - 0x1_0000_0000_0000_0000) as i64
    }
}

pub open spec fn le_i64(x: i64) -> Seq<u8> {
    le_u64(bits_of_i64(x))
}

/// Every 32-bit and 64-bit number survives encoding and decoding.
pub proof fn lemma_fixed_width_round_trip(a: u32, b: u64, c: i64)
    ensures
        le_u32(a).len() == 4,
        be_u32(a).len() == 4,
        le_u64(b).len() == 8,
        le_i64(c).len() == 8,
        le_value(le_u32(a)) == a,
        be_value(be_u32(a)) == a,
        le_value(le_u64(b)) == b,
        i64_of_bits(le_value(le_i64(c)) as u64) == c,
{
    reveal_with_fuel(high_part, 9);
    lemma_digits_round_trip(a as nat, 4);
    lemma_digits_round_trip(b as nat, 8);
    lemma_digits_round_trip(bits_of_i64(c) as nat, 8);
}

/// A number read from `n` digits is below `256^n`, stated for the widths in use.
pub proof fn lemma_value_bounds(s: Seq<u8>)
    ensures
        s.len() == 4 ==> le_value(s) <= u32::MAX && be_value(s) <= u32::MAX,
        s.len() == 8 ==> le_value(s) <= u64::MAX && be_value(s) <= u64::MAX,
{
    reveal_with_fuel(le_value, 9);
    reveal_with_fuel(be_value, 9);
}

pub fn u32_to_le(x: u32) -> (out: [u8; 4])
    ensures
        out@ == le_u32(x),
{
    let q1: u32 = x / 256;
    let q2: u32 = q1 / 256;
    let q3: u32 = q2 / 256;
    let out = [(x % 256) as u8, (q1 % 256) as u8, (q2 % 256) as u8, (q3 % 256) as u8];
    proof {
        reveal_with_fuel(le_bytes, 5);
        assert(out@ =~= le_u32(x));
    }
    out
}

pub fn u64_to_le(x: u64) -> (out: [u8; 8])
    ensures
        out@ == le_u64(x),
{
    let q1: u64 = x / 256;
    let q2: u64 = q1 / 256;
    let q3: u64 = q2 / 256;
    let q4: u64 = q3 / 256;
    let q5: u64 = q4 / 256;
    let q6: u64 = q5 / 256;
    let q7: u64 = q6 / 256;
    let out = [
        (x % 256) as u8,
        (q1 % 256) as u8,
        (q2 % 256) as u8,
        (q3 % 256) as u8,
        (q4 % 256) as u8,
        (q5 % 256) as u8,
        (q6 % 256) as u8,
        (q7 % 256) as u8,
    ];
    proof {
        reveal_with_fuel(le_bytes, 9);
        assert(out@ =~= le_u64(x));
    }
    out
}

pub fn u32_from_le(s: &[u8], at: usize) -> (x: u32)
    requires
        at + 4 <= s@.len(),
    ensures
        x == le_value(s@.subrange(at as int, at + 4)),
{
    let b0: u32 = s[at] as u32;
    let b1: u32 = s[at + 1] as u32;
    let b2: u32 = s[at + 2] as u32;
    let b3: u32 = s[at + 3] as u32;
    proof {
        let t = s@.subrange(at as int, at + 4);
        reveal_with_fuel(le_value, 5);
        assert(t.drop_first().drop_first().drop_first()[0] == b3);
        assert(t.drop_first().drop_first()[0] == b2);
        assert(t.drop_first()[0] == b1);
    }
    b0 + 256 * (b1 + 256 * (b2 + 256 * b3))
}

pub fn u64_from_le(s: &[u8], at: usize) -> (x: u64)
    requires
        at + 8 <= s@.len(),
    ensures
        x == le_value(s@.subrange(at as int, at + 8)),
{
    let n: usize = s.len();
    let lo: u32 = u32_from_le(s, at);
    let hi: u32 = u32_from_le(s, at + 4);
    proof {
        let t = s@.subrange(at as int, at + 8);
        lemma_le_value_split(t);
        assert(t.subrange(0, 4) =~= s@.subrange(at as int, at + 4));
        assert(t.subrange(4, 8) =~= s@.subrange(at + 4, at + 8));
    }
    lo as u64 + 0x1_0000_0000 * (hi as u64)
}

/// The little-endian value of a digit string is that of its first four
/// digits plus `256^4` times that of the rest.
pub proof fn lemma_le_value_split(s: Seq<u8>)
    requires
        s.len() >= 4,
    ensures
        le_value(s) == le_value(s.subrange(0, 4)) + 0x1_0000_0000 * le_value(
            s.subrange(4, s.len() as int),
        ),
{
    let a = s.subrange(0, 4);
    let r = s.subrange(4, s.len() as int);
    reveal_with_fuel(le_value, 5);
    assert(s.drop_first().drop_first().drop_first().drop_first() =~= r);
    assert(a.drop_first().drop_first().drop_first().drop_first().len() == 0);
    assert(a[0] == s[0]);
    assert(a.drop_first()[0] == s.drop_first()[0]);
    assert(a.drop_first().drop_first()[0] == s.drop_first().drop_first()[0]);
    assert(a.drop_first().drop_first().drop_first()[0] == s.drop_first().drop_first().drop_first()[0]);
}

pub fn u32_from_be(s: &[u8], at: usize) -> (x: u32)
    requires
        at + 4 <= s@.len(),
    ensures
        x == be_value(s@.subrange(at as int, at + 4)),
{
    let b0: u32 = s[at] as u32;
    let b1: u32 = s[at + 1] as u32;
    let b2: u32 = s[at + 2] as u32;
    let b3: u32 = s[at + 3] as u32;
    proof {
        let t = s@.subrange(at as int, at + 4);
        reveal_with_fuel(be_value, 5);
        assert(t.last() == b3);
        assert(t.drop_last().last() == b2);
        assert(t.drop_last().drop_last().last() == b1);
        assert(t.drop_last().drop_last().drop_last().last() == b0);
    }
    b3 + 256 * (b2 + 256 * (b1 + 256 * b0))
}

pub fn u64_from_be(s: &[u8], at: usize) -> (x: u64)
    requires
        at + 8 <= s@.len(),
    ensures
        x == be_value(s@.subrange(at as int, at + 8)),
{
    let n: usize = s.len();
    let hi: u32 = u32_from_be(s, at);
    let lo: u32 = u32_from_be(s, at + 4);
    proof {
        let t = s@.subrange(at as int, at + 8);
        lemma_be_value_split(t);
        assert(t.subrange(0, 4) =~= s@.subrange(at as int, at + 4));
        assert(t.subrange(4, 8) =~= s@.subrange(at + 4, at + 8));
    }
    lo as u64 + 0x1_0000_0000 * (hi as u64)
}

/// The big-endian value of eight digits is `256^4` times that of the first
/// four plus that of the last four.
pub proof fn lemma_be_value_split(s: Seq<u8>)
    requires
        s.len() == 8,
    ensures
        be_value(s) == 0x1_0000_0000 * be_value(s.subrange(0, 4)) + be_value(s.subrange(4, 8)),
{
    let a = s.subrange(0, 4);
    let r = s.subrange(4, 8);
    reveal_with_fuel(be_value, 5);
    assert(s.drop_last().drop_last().drop_last().drop_last() =~= a);
    assert(r.drop_last().drop_last().drop_last().drop_last().len() == 0);
    assert(r.last() == s.last());
    assert(r.drop_last().last() == s.drop_last().last());
    assert(r.drop_last().drop_last().last() == s.drop_last().drop_last().last());
    assert(r.drop_last().drop_last().drop_last().last() == s.drop_last().drop_last().drop_last().last());
}

pub fn i64_to_bits(x: i64) -> (b: u64)
    ensures
        b == bits_of_i64(x),
{
    if x >= 0 {
        x as u64
    } else {
        let m: u64 = (-(x + 1)) as u64;
        u64::MAX - m
    }
}

pub fn i64_from_bits(b: u64) -> (x: i64)
    ensures
        x == i64_of_bits(b),
{
    if b < 0x8000_0000_0000_0000 {
        b as i64
    } else {
        let m: u64 = u64::MAX - b;
        -(m as i64) - 1
    }
}

} // verus!
