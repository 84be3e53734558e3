//! Unsigned integers of any size, as SGTINs and channel maps need them.
//!
//! The arithmetic is that of the `num-bigint` crate. A value is kept as its
//! shortest big-endian byte string, so two equal numbers are two equal byte
//! strings.

use num_traits::ToPrimitive;
use vstd::arithmetic::power2::*;
use vstd::prelude::*;

verus! {

/// The number that a big-endian byte string stands for.
pub open spec fn be_value(bytes: Seq<u8>) -> nat
    decreases bytes.len(),
{
    if bytes.len() == 0 {
        0
    } else {
        be_value(bytes.drop_last()) * 256 + bytes.last() as nat
    }
}

/// No leading zero byte, and a single zero byte for the number zero.
pub open spec fn is_shortest(bytes: Seq<u8>) -> bool {
    bytes.len() > 0 && (bytes[0] != 0 || bytes.len() == 1)
}

/// The shortest big-endian byte string for a number.
pub open spec fn shortest_bytes(value: nat) -> Seq<u8>
    decreases value,
{
    if value < 256 {
        seq![value as u8]
    } else {
        shortest_bytes(value / 256).push((value % 256) as u8)
    }
}

/// Bitwise "and" of two naturals.
pub open spec fn nat_and(a: nat, b: nat) -> nat
    decreases a,
{
    if a == 0 || b == 0 {
        0
    } else {
        2 * nat_and(a / 2, b / 2) + (if a % 2 == 1 && b % 2 == 1 {
            1nat
        } else {
            0nat
        })
    }
}

/// Bitwise "or" of two naturals.
pub open spec fn nat_or(a: nat, b: nat) -> nat
    decreases a,
{
    if a == 0 {
        b
    } else {
        2 * nat_or(a / 2, b / 2) + (if a % 2 == 1 || b % 2 == 1 {
            1nat
        } else {
            0nat
        })
    }
}

/// Bit `n` of a natural, counted from the least significant one.
pub open spec fn nat_bit(a: nat, n: nat) -> bool {
    (a / pow2(n)) % 2 == 1
}

/// `num_bigint::BigUint::from_bytes_be` followed by `to_bytes_be`: the same
/// number as a byte string without leading zeros.
#[verifier::external_body]
fn big_shortest(bytes: &[u8]) -> (res: Vec<u8>)
    ensures
        be_value(res@) == be_value(bytes@),
        is_shortest(res@),
{
    num_bigint::BigUint::from_bytes_be(bytes).to_bytes_be()
}

/// `>>` of `num_bigint::BigUint`: division by a power of two, rounded down.
#[verifier::external_body]
fn big_shr(bytes: &[u8], shift: u64) -> (res: Vec<u8>)
    ensures
        be_value(res@) == be_value(bytes@) / pow2(shift as nat),
        is_shortest(res@),
{
    (num_bigint::BigUint::from_bytes_be(bytes) >> shift).to_bytes_be()
}

/// `<<` of `num_bigint::BigUint`: multiplication by a power of two. The shift
/// is kept small, since the result has to fit into memory.
#[verifier::external_body]
fn big_shl(bytes: &[u8], shift: u64) -> (res: Vec<u8>)
    requires
        shift <= 64,
    ensures
        be_value(res@) == be_value(bytes@) * pow2(shift as nat),
        is_shortest(res@),
{
    (num_bigint::BigUint::from_bytes_be(bytes) << shift).to_bytes_be()
}

/// `&` of two `num_bigint::BigUint`: the bits that both have.
#[verifier::external_body]
fn big_and(a: &[u8], b: &[u8]) -> (res: Vec<u8>)
    ensures
        be_value(res@) == nat_and(be_value(a@), be_value(b@)),
        is_shortest(res@),
{
    (num_bigint::BigUint::from_bytes_be(a) & num_bigint::BigUint::from_bytes_be(b)).to_bytes_be()
}

/// `|` of two `num_bigint::BigUint`: the bits that either has.
#[verifier::external_body]
fn big_or(a: &[u8], b: &[u8]) -> (res: Vec<u8>)
    ensures
        be_value(res@) == nat_or(be_value(a@), be_value(b@)),
        is_shortest(res@),
{
    (num_bigint::BigUint::from_bytes_be(a) | num_bigint::BigUint::from_bytes_be(b)).to_bytes_be()
}

/// `From<u64>` of `num_bigint::BigUint`: the same number.
#[verifier::external_body]
fn big_from_u64(value: u64) -> (res: Vec<u8>)
    ensures
        be_value(res@) == value,
        is_shortest(res@),
{
    num_bigint::BigUint::from(value).to_bytes_be()
}

/// `num_traits::ToPrimitive::to_u64` of a `num_bigint::BigUint`: the number,
/// where it fits into 64 bits, and nothing otherwise.
#[verifier::external_body]
fn big_to_u64(bytes: &[u8]) -> (res: Option<u64>)
    ensures
        match res {
            Some(value) => value == be_value(bytes@),
            None => be_value(bytes@) > u64::MAX,
        },
{
    num_bigint::BigUint::from_bytes_be(bytes).to_u64()
}

/// An unsigned integer of any size.
#[derive(Debug, PartialEq, Eq)]
pub struct BigUint {
    bytes: Vec<u8>,
}

impl Clone for BigUint {
    fn clone(&self) -> (res: Self)
        ensures
            res@ == self@,
    {
        proof {
            use_type_invariant(self);
        }
        Self { bytes: self.bytes.clone() }
    }
}

impl View for BigUint {
    type V = nat;

    closed spec fn view(&self) -> nat {
        be_value(self.bytes@)
    }
}

impl BigUint {
    #[verifier::type_invariant]
    spec fn shortest(self) -> bool {
        is_shortest(self.bytes@)
    }

    pub fn from_bytes_be(bytes: &[u8]) -> (res: Self)
        ensures
            res@ == be_value(bytes@),
    {
        Self { bytes: big_shortest(bytes) }
    }

    pub fn from_u64(value: u64) -> (res: Self)
        ensures
            res@ == value,
    {
        Self { bytes: big_from_u64(value) }
    }

    /// The shortest big-endian byte string of this number; zero is one zero
    /// byte.
    pub fn to_bytes_be(&self) -> (res: Vec<u8>)
        ensures
            res@ == shortest_bytes(self@),
            be_value(res@) == self@,
    {
        proof {
            use_type_invariant(self);
            law_shortest_bytes_unique(self.bytes@);
        }
        self.bytes.clone()
    }

    pub fn to_u64(&self) -> (res: Option<u64>)
        ensures
            match res {
                Some(value) => value == self@,
                None => self@ > u64::MAX,
            },
    {
        big_to_u64(self.bytes.as_slice())
    }

    pub fn shift_right(&self, shift: u64) -> (res: Self)
        ensures
            res@ == self@ / pow2(shift as nat),
    {
        Self { bytes: big_shr(self.bytes.as_slice(), shift) }
    }

    pub fn shift_left(&self, shift: u64) -> (res: Self)
        requires
            shift <= 64,
        ensures
            res@ == self@ * pow2(shift as nat),
    {
        Self { bytes: big_shl(self.bytes.as_slice(), shift) }
    }

    pub fn bitand(&self, other: &Self) -> (res: Self)
        ensures
            res@ == nat_and(self@, other@),
    {
        Self { bytes: big_and(self.bytes.as_slice(), other.bytes.as_slice()) }
    }

    pub fn bitor(&self, other: &Self) -> (res: Self)
        ensures
            res@ == nat_or(self@, other@),
    {
        Self { bytes: big_or(self.bytes.as_slice(), other.bytes.as_slice()) }
    }
}

/// There is only one byte string without leading zeros for a number.
pub proof fn law_shortest_bytes_unique(bytes: Seq<u8>)
    requires
        is_shortest(bytes),
    ensures
        bytes == shortest_bytes(be_value(bytes)),
        bytes.len() > 1 ==> be_value(bytes) >= 256,
    decreases bytes.len(),
{
    let rest = bytes.drop_last();
    reveal_with_fuel(be_value, 2);
    if bytes.len() == 1 {
        assert(rest.len() == 0);
        assert(be_value(rest) == 0);
        assert(bytes =~= seq![bytes[0]]);
    } else {
        law_shortest_bytes_unique(rest);
        if rest.len() == 1 {
            assert(be_value(rest) == be_value(rest.drop_last()) * 256 + rest.last() as nat);
            assert(rest.drop_last().len() == 0);
            assert(be_value(rest) == rest[0]);
        }
        assert(be_value(rest) >= 1);
        let value = be_value(bytes);
        assert(value / 256 == be_value(rest));
        assert(value % 256 == bytes.last());
        assert(shortest_bytes(value) =~= bytes);
    }
}

/// "And" with `n` ones keeps the lowest `n` bits.
pub proof fn lemma_and_low_bits(a: nat, n: nat)
    ensures
        nat_and(a, (pow2(n) - 1) as nat) == a % pow2(n),
    decreases n,
{
    lemma_pow2_pos(n);
    if n == 0 {
        lemma2_to64();
        assert(nat_and(a, 0) == 0);
        assert(a % 1 == 0);
    } else {
        let m = (n - 1) as nat;
        lemma_pow2_unfold(n);
        lemma_pow2_pos(m);
        let p = pow2(m);
        assert(pow2(n) == 2 * p);
        let mask = (2 * p - 1) as nat;
        assert(mask / 2 == p - 1);
        assert(mask % 2 == 1);
        lemma_and_low_bits(a / 2, m);
        let q = (a / 2) / p;
        let r = (a / 2) % p;
        assert(a / 2 == q * p + r) by (nonlinear_arith)
            requires
                p > 0,
                q == (a / 2) / p,
                r == (a / 2) % p,
        ;
        assert(a % (2 * p) == 2 * r + a % 2) by (nonlinear_arith)
            requires
                p > 0,
                0 <= r < p,
                a / 2 == q * p + r,
                a == 2 * (a / 2) + a % 2,
        {
            assert(a == (2 * p) * q + (2 * r + a % 2));
            vstd::arithmetic::div_mod::lemma_fundamental_div_mod_converse(
                a as int,
                (2 * p) as int,
                q as int,
                (2 * r + a % 2) as int,
            );
        }
        if a == 0 {
            assert(0nat % (2 * p) == 0) by (nonlinear_arith)
                requires
                    p > 0,
            ;
        }
    }
}

/// "And" with a single bit tells whether that bit is set.
pub proof fn lemma_and_bit(a: nat, n: nat)
    ensures
        nat_and(a, pow2(n)) == (if nat_bit(a, n) {
            pow2(n)
        } else {
            0
        }),
    decreases n,
{
    lemma_pow2_pos(n);
    if n == 0 {
        lemma2_to64();
        assert(nat_and(a / 2, 0) == 0);
        assert(a / 1 == a);
    } else {
        let m = (n - 1) as nat;
        lemma_pow2_unfold(n);
        lemma_pow2_pos(m);
        let p = pow2(m);
        lemma_and_bit(a / 2, m);
        vstd::arithmetic::div_mod::lemma_div_denominator(a as int, 2, p as int);
        assert((a / 2) / p == a / (2 * p));
        assert((2 * p) / 2 == p);
        assert((2 * p) % 2 == 0);
        if a == 0 {
            assert(0nat / (2 * p) == 0) by (nonlinear_arith)
                requires
                    p > 0,
            ;
        }
    }
}

/// "Or" of numbers without common bits is their sum.
pub proof fn lemma_or_disjoint(a: nat, b: nat, n: nat)
    requires
        a < pow2(n),
    ensures
        nat_or(a, b * pow2(n)) == a + b * pow2(n),
    decreases n,
{
    if n == 0 {
        lemma2_to64();
        assert(b * 1 == b) by (nonlinear_arith);
    } else if a != 0 {
        let m = (n - 1) as nat;
        lemma_pow2_unfold(n);
        lemma_pow2_pos(m);
        let p = pow2(m);
        assert(b * (2 * p) == 2 * (b * p)) by (nonlinear_arith);
        lemma_or_disjoint(a / 2, b, m);
    }
}

/// `n` bytes hold a number below `256^n`.
pub proof fn lemma_be_value_bound(bytes: Seq<u8>)
    ensures
        be_value(bytes) < pow2(8 * bytes.len()),
    decreases bytes.len(),
{
    if bytes.len() == 0 {
        lemma2_to64();
    } else {
        let rest = bytes.drop_last();
        lemma_be_value_bound(rest);
        lemma_pow2_adds(8 * rest.len(), 8);
        lemma2_to64();
        let p = pow2(8 * rest.len());
        assert(8 * rest.len() + 8 == 8 * bytes.len());
        assert(be_value(rest) * 256 + 255 < p * 256) by (nonlinear_arith)
            requires
                be_value(rest) < p,
        ;
    }
}

/// The shortest bytes of a number stand for it and have no leading zero.
pub proof fn law_shortest_bytes_of_a_number(value: nat)
    ensures
        be_value(shortest_bytes(value)) == value,
        is_shortest(shortest_bytes(value)),
    decreases value,
{
    let bytes = shortest_bytes(value);
    if value < 256 {
        assert(bytes.drop_last() =~= Seq::<u8>::empty());
        assert(be_value(bytes.drop_last()) == 0);
    } else {
        law_shortest_bytes_of_a_number(value / 256);
        assert(bytes.drop_last() =~= shortest_bytes(value / 256));
        let head = shortest_bytes(value / 256);
        if head.len() == 1 && head[0] == 0 {
            assert(head.drop_last() =~= Seq::<u8>::empty());
            assert(be_value(head.drop_last()) == 0);
            assert(be_value(head) == 0);
        }
    }
}

/// Each byte of a number is worth 256 times as much as the one behind it, and a
/// leading zero is worth nothing.
pub proof fn law_bytes_are_worth(bytes: Seq<u8>, byte: u8)
    ensures
        be_value(Seq::<u8>::empty()) == 0,
        be_value(bytes.push(byte)) == 256 * be_value(bytes) + byte,
        be_value(seq![0u8] + bytes) == be_value(bytes),
    decreases bytes.len(),
{
    assert(bytes.push(byte).drop_last() =~= bytes);
    let padded = seq![0u8] + bytes;
    if bytes.len() == 0 {
        assert(padded.drop_last() =~= Seq::<u8>::empty());
        assert(be_value(padded.drop_last()) == 0);
    } else {
        law_bytes_are_worth(bytes.drop_last(), 0);
        assert(padded.drop_last() =~= seq![0u8] + bytes.drop_last());
    }
}

/// The lowest bit of a number says whether it is odd, and each further one
/// whether its half is.
pub proof fn law_bits(value: nat, n: nat)
    ensures
        nat_bit(value, 0) <==> value % 2 == 1,
        nat_bit(value, n + 1) == nat_bit(value / 2, n),
{
    lemma2_to64();
    lemma_pow2_unfold((n + 1) as nat);
    lemma_pow2_pos(n);
    vstd::arithmetic::div_mod::lemma_div_denominator(value as int, 2, pow2(n) as int);
}

/// Of two numbers, "and" keeps the bits that both have, and "or" those that at
/// least one has.
pub proof fn law_and_or_by_bits(a: nat, b: nat, n: nat)
    ensures
        nat_bit(nat_and(a, b), n) == (nat_bit(a, n) && nat_bit(b, n)),
        nat_bit(nat_or(a, b), n) == (nat_bit(a, n) || nat_bit(b, n)),
    decreases n,
{
    law_bits(nat_and(a, b), 0);
    law_bits(nat_or(a, b), 0);
    law_bits(a, 0);
    law_bits(b, 0);
    lemma_pow2_pos(n);
    if a == 0 || b == 0 {
        vstd::arithmetic::div_mod::lemma_div_basics(pow2(n) as int);
        assert(!nat_bit(0, n));
    }
    assert(nat_or(a, 0) == a) by {
        lemma_or_zero(a);
    }
    if n > 0 && a > 0 && b > 0 {
        let m = (n - 1) as nat;
        law_bits(nat_and(a, b), m);
        law_bits(nat_or(a, b), m);
        law_bits(a, m);
        law_bits(b, m);
        law_and_or_by_bits(a / 2, b / 2, m);
        assert(nat_and(a, b) / 2 == nat_and(a / 2, b / 2));
        assert(nat_or(a, b) / 2 == nat_or(a / 2, b / 2));
    }
}

proof fn lemma_or_zero(a: nat)
    ensures
        nat_or(a, 0) == a,
    decreases a,
{
    if a > 0 {
        lemma_or_zero(a / 2);
    }
}

} // verus!
