//! The two fixed-width words that events carry: 256-bit unsigned numbers
//! (block heights, pool templates) and 160-bit account addresses.
//!
//! Both are held as machine integers, most significant part first, so that
//! equality and order of the parts are equality and order of the numbers.

use vstd::prelude::*;
use crate::abi_util::{be_bytes, be_value, pow256, read_be};
use crate::abi_util::lemma_be_bytes_of_value;
use crate::abi_util::{lemma_be_value_bound, lemma_be_value_concat, lemma_pow256_values};
use crate::abi_util::{lemma_pow256_add, lemma_pow256_positive};

verus! {

/// An unsigned number of 256 bits.
#[derive(Clone, Copy, Debug, PartialEq, Eq, PartialOrd, Ord, Hash, Structural)]
pub struct U256 {
    /// The upper 128 bits.
    pub hi: u128,
    /// The lower 128 bits.
    pub lo: u128,
}

/// A 20-byte account or contract address.
#[derive(Clone, Copy, Debug, PartialEq, Eq, PartialOrd, Ord, Hash, Structural)]
pub struct Address {
    /// The first 4 bytes, big-endian.
    pub hi: u32,
    /// The last 16 bytes, big-endian.
    pub lo: u128,
}

/// The largest number of 256 bits.
pub open spec fn u256_max() -> nat {
    (pow256(32) - 1) as nat
}

/// The `len` bytes written for a number below `256^len` denote that number.
pub proof fn lemma_bytes_denote(n: nat, len: nat)
    requires
        n < pow256(len),
    ensures
        be_bytes(n, len).len() == len,
        be_value(be_bytes(n, len)) == n,
    decreases len,
{
    if len > 0 {
        let p = pow256((len - 1) as nat);
        assert(n / 256 < p) by (nonlinear_arith)
            requires
                n < 256 * p,
        ;
        lemma_bytes_denote(n / 256, (len - 1) as nat);
        let s = be_bytes(n, len);
        assert(s.drop_last() =~= be_bytes(n / 256, (len - 1) as nat));
    }
}

/// Writes `v` as `len` big-endian bytes.
pub fn write_be(v: u128, len: usize) -> (out: Vec<u8>)
    requires
        len <= 16,
        (v as nat) < pow256(len as nat),
    ensures
        out@.len() == len,
        be_value(out@) == v as nat,
        out@ == be_bytes(v as nat, len as nat),
{
    let mut out: Vec<u8> = Vec::new();
    let mut n: usize = 0;
    while n < len
        invariant
            n <= len,
            out@.len() == n,
            forall|i: int| 0 <= i < n ==> out@[i] == 0,
        decreases len - n,
    {
        out.push(0u8);
        n = n + 1;
    }
    let mut rest: u128 = v;
    let mut k: usize = 0;
    proof {
        assert(out@.subrange(len as int, len as int) =~= Seq::<u8>::empty());
        assert(pow256(0) == 1);
        assert(rest as nat * 1 == rest as nat) by (nonlinear_arith);
    }
    while k < len
        invariant
            k <= len <= 16,
            out@.len() == len,
            be_value(out@.subrange(len - k, len as int)) + rest as nat * pow256(k as nat)
                == v as nat,
        decreases len - k,
    {
        let digit: u8 = (rest % 256) as u8;
        let ghost before = out@;
        let ghost rest_before = rest;
        out.set(len - 1 - k, digit);
        rest = rest / 256;
        proof {
            let tail = before.subrange(len - k, len as int);
            let grown = out@.subrange(len - k - 1, len as int);
            assert(grown =~= seq![digit] + tail);
            lemma_be_value_concat(seq![digit], tail);
            assert(seq![digit].drop_last() =~= Seq::<u8>::empty());
            assert(seq![digit].last() == digit);
            assert(be_value(Seq::<u8>::empty()) == 0);
            assert(be_value(seq![digit]) == be_value(seq![digit].drop_last()) * 256 + digit as nat);
            assert(be_value(seq![digit]) == digit as nat);
            let p = pow256(k as nat);
            assert(pow256((k + 1) as nat) == 256 * p);
            assert(rest_before as nat == rest as nat * 256 + digit as nat);
            assert((rest as nat * 256 + digit as nat) * p == rest as nat * (256 * p) + digit as nat
                * p) by (nonlinear_arith);
        }
        k = k + 1;
    }
    proof {
        assert(out@.subrange(0, len as int) =~= out@);
        lemma_be_value_bound(out@);
        let p = pow256(len as nat);
        if rest > 0 {
            assert(rest as nat * p >= p) by (nonlinear_arith)
                requires
                    rest >= 1,
                    p >= 0,
            ;
        }
        assert(rest as nat * p == 0 ==> rest == 0 || p == 0) by (nonlinear_arith);
        lemma_pow256_positive(len as nat);
        lemma_be_bytes_of_value(out@);
    }
    out
}

impl U256 {
    /// The number that this word denotes.
    pub open spec fn value(self) -> nat {
        self.hi as nat * 0x1_0000_0000_0000_0000_0000_0000_0000_0000 + self.lo as nat
    }

    /// Zero.
    pub fn zero() -> (r: U256)
        ensures
            r.value() == 0,
    {
        U256 { hi: 0, lo: 0 }
    }

    /// The 256-bit word with the value of `v`.
    pub fn from_u128(v: u128) -> (r: U256)
        ensures
            r.value() == v as nat,
    {
        U256 { hi: 0, lo: v }
    }

    /// The 256-bit word with the value of `v`.
    pub fn from_u64(v: u64) -> (r: U256)
        ensures
            r.value() == v as nat,
    {
        U256 { hi: 0, lo: v as u128 }
    }

    /// Two words denote the same number only if they are the same word.
    pub proof fn lemma_value_injective(a: U256, b: U256)
        ensures
            (a.value() == b.value()) <==> (a == b),
    {
    }

    /// Every word denotes a number of 256 bits.
    pub proof fn lemma_value_bound(a: U256)
        ensures
            a.value() <= u256_max(),
    {
        lemma_pow256_values();
        lemma_pow256_add(16, 16);
        let p: nat = pow256(16);
        assert(a.hi as nat * p + a.lo as nat <= p * p - 1) by (nonlinear_arith)
            requires
                a.hi as nat <= p - 1,
                a.lo as nat <= p - 1,
        ;
    }

    /// Reads a big-endian number from the first 32 bytes of `bytes`, or from
    /// all of them where there are fewer.
    pub fn from_be_bytes(bytes: &[u8]) -> (r: U256)
        ensures
            r.value() == be_value(
                bytes@.take(
                    if bytes@.len() <= 32 {
                        bytes@.len() as int
                    } else {
                        32
                    },
                ),
            ),
    {
        let total: usize = bytes.len();
        let used: usize = if total <= 32 {
            total
        } else {
            32
        };
        if used <= 16 {
            let lo: u128 = read_be(bytes, 0, used);
            assert(bytes@.subrange(0, used as int) =~= bytes@.take(used as int));
            U256 { hi: 0, lo }
        } else {
            let hi: u128 = read_be(bytes, 0, used - 16);
            let lo: u128 = read_be(bytes, used - 16, 16);
            proof {
                let a = bytes@.subrange(0, used - 16);
                let b = bytes@.subrange(used - 16, used as int);
                assert(bytes@.take(used as int) =~= a + b);
                lemma_be_value_concat(a, b);
                lemma_pow256_values();
            }
            U256 { hi, lo }
        }
    }

    /// The 32 bytes that denote this number big-endian.
    pub open spec fn bytes(self) -> Seq<u8> {
        be_bytes(self.value(), 32)
    }

    /// The 32 bytes that denote this number big-endian.
    pub fn to_be_bytes(&self) -> (out: Vec<u8>)
        ensures
            out@.len() == 32,
            be_value(out@) == self.value(),
            out@ == self.bytes(),
    {
        proof {
            lemma_pow256_values();
        }
        let mut out: Vec<u8> = write_be(self.hi, 16);
        let mut low: Vec<u8> = write_be(self.lo, 16);
        let ghost a = out@;
        let ghost b = low@;
        out.append(&mut low);
        proof {
            assert(out@ =~= a + b);
            lemma_be_value_concat(a, b);
            lemma_be_bytes_of_value(out@);
        }
        out
    }

    /// Whether this number is at most `other`.
    pub fn le(&self, other: &U256) -> (r: bool)
        ensures
            r == (self.value() <= other.value()),
    {
        self.hi < other.hi || (self.hi == other.hi && self.lo <= other.lo)
    }

    /// The smaller of two numbers.
    pub fn min(self, other: U256) -> (r: U256)
        ensures
            r.value() == if self.value() <= other.value() {
                self.value()
            } else {
                other.value()
            },
            r == self || r == other,
    {
        if self.le(&other) {
            self
        } else {
            other
        }
    }

    /// The sum of this number and `n`, or the largest number of 256 bits
    /// where the sum is beyond it.
    pub fn saturating_add(self, n: u128) -> (r: U256)
        ensures
            r.value() == if self.value() + n as nat <= u256_max() {
                self.value() + n as nat
            } else {
                u256_max()
            },
    {
        proof {
            lemma_pow256_values();
            lemma_pow256_add(16, 16);
            let p: nat = pow256(16);
            assert((p - 1) * p + (p - 1) == p * p - 1) by (nonlinear_arith);
        }
        if n <= u128::MAX - self.lo {
            U256 { hi: self.hi, lo: self.lo + n }
        } else if self.hi < u128::MAX {
            U256 { hi: self.hi + 1, lo: n - (u128::MAX - self.lo) - 1 }
        } else {
            U256 { hi: u128::MAX, lo: u128::MAX }
        }
    }
}

impl Address {
    /// The address read as a number of 160 bits.
    pub open spec fn value(self) -> nat {
        self.hi as nat * 0x1_0000_0000_0000_0000_0000_0000_0000_0000 + self.lo as nat
    }

    /// Two addresses read as the same number only if they are the same address.
    pub proof fn lemma_value_injective(a: Address, b: Address)
        ensures
            (a.value() == b.value()) <==> (a == b),
    {
    }

    /// The address whose 20 bytes are `data`; none where `data` has another length.
    pub fn from_slice(data: &[u8]) -> (r: Option<Address>)
        ensures
            r.is_some() <==> data@.len() == 20,
            r.is_some() ==> r.unwrap().value() == be_value(data@),
    {
        if data.len() != 20 {
            return None;
        }
        let high: u128 = read_be(data, 0, 4);
        let lo: u128 = read_be(data, 4, 16);
        proof {
            let a = data@.subrange(0, 4);
            let b = data@.subrange(4, 20);
            assert(data@ =~= a + b);
            lemma_be_value_concat(a, b);
            lemma_be_value_bound(a);
            lemma_pow256_values();
        }
        Some(Address { hi: high as u32, lo })
    }

    /// The 20 bytes of the address.
    pub open spec fn bytes(self) -> Seq<u8> {
        be_bytes(self.value(), 20)
    }

    /// The 20 bytes of the address.
    pub fn to_bytes(&self) -> (out: Vec<u8>)
        ensures
            out@.len() == 20,
            be_value(out@) == self.value(),
            out@ == self.bytes(),
    {
        proof {
            lemma_pow256_values();
        }
        let mut out: Vec<u8> = write_be(self.hi as u128, 4);
        let mut low: Vec<u8> = write_be(self.lo, 16);
        let ghost a = out@;
        let ghost b = low@;
        out.append(&mut low);
        proof {
            assert(out@ =~= a + b);
            lemma_be_value_concat(a, b);
            lemma_be_bytes_of_value(out@);
        }
        out
    }
}

/// Parses an address from the slot of `input` that begins at `start`: the
/// slot's last 20 bytes. The 12 bytes before them are not looked at.
pub fn parse_address(input: &[u8], start: usize) -> (a: Address)
    requires
        start + 32 <= input@.len(),
    ensures
        a.value() == be_value(input@.subrange(start + 12, start + 32)),
{
    let total: usize = input.len();
    let high: u128 = read_be(input, start + 12, 4);
    let lo: u128 = read_be(input, start + 16, 16);
    proof {
        let a = input@.subrange(start + 12, start + 16);
        let b = input@.subrange(start + 16, start + 32);
        assert(input@.subrange(start + 12, start + 32) =~= a + b);
        lemma_be_value_concat(a, b);
        lemma_be_value_bound(a);
        lemma_pow256_values();
    }
    Address { hi: high as u32, lo }
}

/// Parses a 256-bit number from the slot of `input` that begins at `start`.
pub fn parse_uint256(input: &[u8], start: usize) -> (v: U256)
    requires
        start + 32 <= input@.len(),
    ensures
        v.value() == be_value(input@.subrange(start as int, start + 32)),
{
    let total: usize = input.len();
    let hi: u128 = read_be(input, start, 16);
    let lo: u128 = read_be(input, start + 16, 16);
    proof {
        let a = input@.subrange(start as int, start + 16);
        let b = input@.subrange(start + 16, start + 32);
        assert(input@.subrange(start as int, start + 32) =~= a + b);
        lemma_be_value_concat(a, b);
        lemma_pow256_values();
    }
    U256 { hi, lo }
}

} // verus!
