//! Readers for the 32-byte slots of ABI-encoded data.
//!
//! Every static field of an event occupies one slot. Numbers are stored
//! big-endian and right-aligned, so a field of `n` bytes is found in the last
//! `n` bytes of its slot.

use vstd::prelude::*;

verus! {

/// The number that a byte string denotes when read big-endian.
pub open spec fn be_value(s: Seq<u8>) -> nat
    decreases s.len(),
{
    if s.len() == 0 {
        0
    } else {
        be_value(s.drop_last()) * 256 + s.last() as nat
    }
}

/// 256 to the power `n`: the number of byte strings of length `n`.
pub open spec fn pow256(n: nat) -> nat
    decreases n,
{
    if n == 0 {
        1
    } else {
        256 * pow256((n - 1) as nat)
    }
}

/// The `len` bytes that denote `n` big-endian; the bytes of `n` modulo
/// `256^len` where `n` is larger than `len` bytes can hold.
pub open spec fn be_bytes(n: nat, len: nat) -> Seq<u8>
    decreases len,
{
    if len == 0 {
        Seq::empty()
    } else {
        be_bytes(n / 256, (len - 1) as nat).push((n % 256) as u8)
    }
}

/// The slot of `input` that begins at byte `start`.
pub open spec fn slot_at(input: Seq<u8>, start: int) -> Seq<u8> {
    input.subrange(start, start + 32)
}

/// The value of a two's-complement number of 32 bits given as its unsigned reading.
pub open spec fn signed32(n: nat) -> int {
    if n < 0x8000_0000 {
        n as int
    } else {
        n as int - 0x1_0000_0000
    }
}

pub proof fn lemma_pow256_positive(n: nat)
    ensures
        pow256(n) > 0,
    decreases n,
{
    if n > 0 {
        lemma_pow256_positive((n - 1) as nat);
    }
}

pub proof fn lemma_pow256_monotonic(a: nat, b: nat)
    requires
        a <= b,
    ensures
        pow256(a) <= pow256(b),
    decreases b,
{
    if a < b {
        lemma_pow256_monotonic(a, (b - 1) as nat);
        lemma_pow256_positive((b - 1) as nat);
    }
}

pub proof fn lemma_pow256_add(a: nat, b: nat)
    ensures
        pow256(a + b) == pow256(a) * pow256(b),
    decreases b,
{
    if b == 0 {
        assert(pow256(a) * 1 == pow256(a));
    } else {
        lemma_pow256_add(a, (b - 1) as nat);
        assert(pow256(a + b) == 256 * pow256((a + b - 1) as nat));
        assert(256 * (pow256(a) * pow256((b - 1) as nat)) == pow256(a) * (256 * pow256(
            (b - 1) as nat,
        ))) by (nonlinear_arith);
    }
}

pub proof fn lemma_pow256_values()
    ensures
        pow256(4) == 0x1_0000_0000,
        pow256(8) == 0x1_0000_0000_0000_0000,
        pow256(16) == 0x1_0000_0000_0000_0000_0000_0000_0000_0000,
{
    reveal_with_fuel(pow256, 17);
}

/// A byte string of length `n` denotes a number below `256^n`.
pub proof fn lemma_be_value_bound(s: Seq<u8>)
    ensures
        be_value(s) < pow256(s.len()),
    decreases s.len(),
{
    if s.len() > 0 {
        lemma_be_value_bound(s.drop_last());
        let p = pow256(s.drop_last().len());
        assert(be_value(s.drop_last()) + 1 <= p);
        assert((be_value(s.drop_last()) + 1) * 256 <= p * 256) by (nonlinear_arith)
            requires
                be_value(s.drop_last()) + 1 <= p,
        ;
    }
}

/// Reading a concatenation: the left part is shifted by the length of the right part.
pub proof fn lemma_be_value_concat(a: Seq<u8>, b: Seq<u8>)
    ensures
        be_value(a + b) == be_value(a) * pow256(b.len()) + be_value(b),
    decreases b.len(),
{
    if b.len() == 0 {
        assert(a + b =~= a);
        assert(be_value(b) == 0);
        assert(pow256(0) == 1);
        assert(be_value(a) * 1 == be_value(a)) by (nonlinear_arith);
    } else {
        let front = b.drop_last();
        lemma_be_value_concat(a, front);
        assert((a + b).drop_last() =~= a + front);
        assert((a + b).last() == b.last());
        let p = pow256(front.len());
        let x = be_value(a);
        let y = be_value(front);
        assert(pow256(b.len()) == 256 * p);
        assert((x * p + y) * 256 == x * (256 * p) + y * 256) by (nonlinear_arith);
        assert(be_value(a + b) == be_value(a + front) * 256 + b.last() as nat);
        assert(be_value(b) == y * 256 + b.last() as nat);
    }
}

/// A byte string is the big-endian writing of the number it denotes.
pub proof fn lemma_be_bytes_of_value(s: Seq<u8>)
    ensures
        be_bytes(be_value(s), s.len()) == s,
    decreases s.len(),
{
    if s.len() > 0 {
        let front = s.drop_last();
        lemma_be_bytes_of_value(front);
        let n = be_value(s);
        assert(n == be_value(front) * 256 + s.last() as nat);
        assert(n / 256 == be_value(front));
        assert(n % 256 == s.last() as nat);
        assert(be_bytes(n, s.len()) =~= front.push(s.last()));
        assert(front.push(s.last()) =~= s);
    } else {
        assert(be_bytes(be_value(s), 0) =~= s);
    }
}

/// Leading zero bytes do not change the number read.
pub proof fn lemma_be_value_zero_prefix(s: Seq<u8>, k: int)
    requires
        0 <= k <= s.len(),
        forall|i: int| 0 <= i < k ==> s[i] == 0,
    ensures
        be_value(s) == be_value(s.subrange(k, s.len() as int)),
    decreases s.len(),
{
    if s.len() > k {
        let t = s.drop_last();
        lemma_be_value_zero_prefix(t, k);
        assert(t.subrange(k, t.len() as int) =~= s.subrange(k, s.len() as int).drop_last());
    } else {
        assert(s.subrange(k, s.len() as int) =~= Seq::<u8>::empty());
        if s.len() > 0 {
            lemma_be_value_zero_prefix(s.drop_last(), k - 1);
            assert(s.drop_last().subrange(k - 1, s.len() - 1) =~= Seq::<u8>::empty());
        }
    }
}

/// Reads `len` bytes of `input` from `start` as one big-endian number.
pub fn read_be(input: &[u8], start: usize, len: usize) -> (v: u128)
    requires
        len <= 16,
        start + len <= input@.len(),
    ensures
        v as nat == be_value(input@.subrange(start as int, start + len)),
{
    let total: usize = input.len();
    let mut acc: u128 = 0;
    let mut i: usize = 0;
    while i < len
        invariant
            total == input@.len(),
            i <= len <= 16,
            start + len <= input@.len(),
            acc as nat == be_value(input@.subrange(start as int, start + i)),
        decreases len - i,
    {
        let b: u8 = input[start + i];
        proof {
            let done = input@.subrange(start as int, start + i);
            let next = input@.subrange(start as int, start + i + 1);
            assert(next.drop_last() =~= done);
            assert(next.last() == b);
            lemma_be_value_bound(next);
            lemma_pow256_monotonic(next.len(), 16);
            lemma_pow256_values();
        }
        acc = acc * 256 + b as u128;
        i = i + 1;
    }
    acc
}

/// Parses a `u64` from the slot of `input` that begins at `start`: the
/// big-endian value of the slot's last 8 bytes.
pub fn parse_u64(input: &[u8], start: usize) -> (v: u64)
    requires
        start + 32 <= input@.len(),
    ensures
        v as nat == be_value(input@.subrange(start + 24, start + 32)),
{
    let total: usize = input.len();
    proof {
        lemma_be_value_bound(input@.subrange(start + 24, start + 32));
        lemma_pow256_values();
    }
    let wide: u128 = read_be(input, start + 24, 8);
    wide as u64
}

/// Parses a `u128` from the slot of `input` that begins at `start`: the
/// big-endian value of the slot's last 16 bytes.
pub fn parse_u128(input: &[u8], start: usize) -> (v: u128)
    requires
        start + 32 <= input@.len(),
    ensures
        v as nat == be_value(input@.subrange(start + 16, start + 32)),
{
    let total: usize = input.len();
    read_be(input, start + 16, 16)
}

/// Parses an `i32` from the slot of `input` that begins at `start`: the
/// slot's last 4 bytes, big-endian, as a two's-complement number.
pub fn parse_i32(input: &[u8], start: usize) -> (v: i32)
    requires
        start + 32 <= input@.len(),
    ensures
        v as int == signed32(be_value(input@.subrange(start + 28, start + 32))),
{
    let total: usize = input.len();
    proof {
        lemma_be_value_bound(input@.subrange(start + 28, start + 32));
        lemma_pow256_values();
    }
    let wide: u128 = read_be(input, start + 28, 4);
    if wide < 0x8000_0000 {
        wide as i32
    } else {
        let low: i64 = wide as i64;
        (low - 0x1_0000_0000) as i32
    }
}

/// Whether the first 16 bytes of the slot at `start` are all zero, that is,
/// whether the number in the slot fits in 128 bits.
pub fn slot_fits_u128(input: &[u8], start: usize) -> (fits: bool)
    requires
        start + 32 <= input@.len(),
    ensures
        fits == (be_value(slot_at(input@, start as int)) < pow256(16)),
{
    let high: u128 = read_be(input, start, 16);
    proof {
        let s = slot_at(input@, start as int);
        let a = input@.subrange(start as int, start + 16);
        let b = input@.subrange(start + 16, start + 32);
        assert(s =~= a + b);
        lemma_be_value_concat(a, b);
        lemma_be_value_bound(b);
        assert(be_value(s) == be_value(a) * pow256(16) + be_value(b));
        lemma_pow256_positive(16);
        assert(b.len() == 16);
        let x = be_value(a);
        let p = pow256(16);
        if x > 0 {
            assert(x * p >= p) by (nonlinear_arith)
                requires
                    x >= 1,
                    p > 0,
            ;
        } else {
            assert(x * p == 0) by (nonlinear_arith)
                requires
                    x == 0,
            ;
        }
    }
    high == 0
}

} // verus!
