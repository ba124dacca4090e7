//! Byte-wise arithmetic over fixed-width binary addresses.
//!
//! An IPv4 address is a sequence of 4 bytes, an IPv6 address a sequence of
//! 16 bytes. Every operation here treats each byte as an independent modular
//! counter: addition and subtraction wrap around modulo 256 with no carry or
//! borrow between bytes, and XOR is applied per byte.

use vstd::prelude::*;

verus! {

use vstd::arithmetic::div_mod::lemma_small_mod;
use vstd::arithmetic::div_mod::lemma_mod_sub_multiples_vanish;

/// One octet of the sum: `(a + b) mod 256`, no carry out.
pub open spec fn byte_add(a: u8, b: u8) -> u8 {
    ((a + b) % 256) as u8
}

/// One octet of the difference: `(a - b) mod 256`, no borrow out.
pub open spec fn byte_sub(a: u8, b: u8) -> u8 {
    ((a + 256 - b) % 256) as u8
}

/// One octet of the exclusive or.
pub open spec fn byte_xor(a: u8, b: u8) -> u8 {
    a ^ b
}

/// Per-byte sum of two equal-width addresses.
pub open spec fn add_bytes(a: Seq<u8>, b: Seq<u8>) -> Seq<u8> {
    Seq::new(a.len(), |i: int| byte_add(a[i], b[i]))
}

/// Per-byte difference of two equal-width addresses.
pub open spec fn sub_bytes(a: Seq<u8>, b: Seq<u8>) -> Seq<u8> {
    Seq::new(a.len(), |i: int| byte_sub(a[i], b[i]))
}

/// Per-byte exclusive or of two equal-width addresses.
pub open spec fn xor_bytes(a: Seq<u8>, b: Seq<u8>) -> Seq<u8> {
    Seq::new(a.len(), |i: int| byte_xor(a[i], b[i]))
}

proof fn lemma_mod256_small(x: int)
    requires
        0 <= x < 256,
    ensures
        x % 256 == x,
{
    lemma_small_mod(x as nat, 256);
}

proof fn lemma_mod256_shift(x: int)
    requires
        256 <= x < 512,
    ensures
        x % 256 == x - 256,
{
    lemma_mod_sub_multiples_vanish(x, 256);
    lemma_small_mod((x - 256) as nat, 256);
}

/// Per-octet modular subtraction undoes per-octet modular addition.
proof fn lemma_byte_sub_add(a: u8, b: u8)
    ensures
        byte_sub(byte_add(a, b), b) == a,
{
    if a + b < 256 {
        lemma_mod256_small(a + b);
        lemma_mod256_shift(a + 256);
    } else {
        lemma_mod256_shift(a + b);
        lemma_mod256_small(a as int);
    }
}

/// Per-octet addition of IPv4 addresses: `c[i] == (a[i] + b[i]) % 256` for
/// each of the 4 byte positions independently; overflow wraps with no carry
/// into the neighbouring byte.
pub fn add_ip_addresses(a: &Vec<u8>, b: &Vec<u8>) -> (c: Vec<u8>)
    requires
        a@.len() == 4,
        b@.len() == 4,
    ensures
        c@ == add_bytes(a@, b@),
        c@.len() == 4,
        forall|i: int| 0 <= i < 4 ==> c@[i] as int == (a@[i] + b@[i]) % 256,
{
    let mut c: Vec<u8> = Vec::new();
    let mut i: usize = 0;
    while i < 4
        invariant
            a@.len() == 4,
            b@.len() == 4,
            i <= 4,
            c@.len() == i,
            forall|j: int| 0 <= j < i ==> c@[j] == byte_add(a@[j], b@[j]),
        decreases 4 - i,
    {
        let s: u16 = (a[i] as u16 + b[i] as u16) % 256;
        c.push(s as u8);
        i += 1;
    }
    proof {
        assert(c@ =~= add_bytes(a@, b@));
    }
    c
}

/// Per-octet subtraction of IPv4 addresses: `c[i] == (a[i] - b[i]) % 256`
/// for each of the 4 byte positions independently; underflow wraps with no
/// borrow from the neighbouring byte.
pub fn subtract_ip_addresses(a: &Vec<u8>, b: &Vec<u8>) -> (c: Vec<u8>)
    requires
        a@.len() == 4,
        b@.len() == 4,
    ensures
        c@ == sub_bytes(a@, b@),
        c@.len() == 4,
        forall|i: int| 0 <= i < 4 ==> c@[i] as int == (a@[i] + 256 - b@[i]) % 256,
{
    let mut c: Vec<u8> = Vec::new();
    let mut i: usize = 0;
    while i < 4
        invariant
            a@.len() == 4,
            b@.len() == 4,
            i <= 4,
            c@.len() == i,
            forall|j: int| 0 <= j < i ==> c@[j] == byte_sub(a@[j], b@[j]),
        decreases 4 - i,
    {
        let d: u16 = (a[i] as u16 + 256 - b[i] as u16) % 256;
        c.push(d as u8);
        i += 1;
    }
    proof {
        assert(c@ =~= sub_bytes(a@, b@));
    }
    c
}

/// Per-octet exclusive or of IPv6 addresses: `c[i] == a[i] ^ b[i]` for each
/// of the 16 byte positions independently.
pub fn xor_ipv6_addresses(a: &Vec<u8>, b: &Vec<u8>) -> (c: Vec<u8>)
    requires
        a@.len() == 16,
        b@.len() == 16,
    ensures
        c@ == xor_bytes(a@, b@),
        c@.len() == 16,
        forall|i: int| 0 <= i < 16 ==> c@[i] == a@[i] ^ b@[i],
{
    let mut c: Vec<u8> = Vec::new();
    let mut i: usize = 0;
    while i < 16
        invariant
            a@.len() == 16,
            b@.len() == 16,
            i <= 16,
            c@.len() == i,
            forall|j: int| 0 <= j < i ==> c@[j] == byte_xor(a@[j], b@[j]),
        decreases 16 - i,
    {
        c.push(a[i] ^ b[i]);
        i += 1;
    }
    proof {
        assert(c@ =~= xor_bytes(a@, b@));
    }
    c
}

/// Law: for all 4-byte addresses `a` and `b`, subtracting `b` from the
/// per-octet sum of `a` and `b` gives back `a` (round trip under wraparound
/// arithmetic).
pub proof fn lemma_subtract_add_round_trip(a: Seq<u8>, b: Seq<u8>)
    requires
        a.len() == 4,
        b.len() == 4,
    ensures
        sub_bytes(add_bytes(a, b), b) == a,
{
    assert forall|i: int| 0 <= i < 4 implies sub_bytes(add_bytes(a, b), b)[i] == a[i] by {
        lemma_byte_sub_add(a[i], b[i]);
    }
    assert(sub_bytes(add_bytes(a, b), b) =~= a);
}

/// Law: for every 16-byte address `a`, XOR of `a` with itself is the
/// all-zero address.
pub proof fn lemma_xor_self_zero(a: Seq<u8>)
    requires
        a.len() == 16,
    ensures
        xor_bytes(a, a) == Seq::new(16, |i: int| 0u8),
{
    assert forall|i: int| 0 <= i < 16 implies xor_bytes(a, a)[i] == 0u8 by {
        let x = a[i];
        assert(x ^ x == 0u8) by (bit_vector);
    }
    assert(xor_bytes(a, a) =~= Seq::new(16, |i: int| 0u8));
}

/// Law: per-octet XOR of two 16-byte addresses is commutative.
pub proof fn lemma_xor_commutes(a: Seq<u8>, b: Seq<u8>)
    requires
        a.len() == 16,
        b.len() == 16,
    ensures
        xor_bytes(a, b) == xor_bytes(b, a),
{
    assert forall|i: int| 0 <= i < 16 implies xor_bytes(a, b)[i] == xor_bytes(b, a)[i] by {
        let x = a[i];
        let y = b[i];
        assert(x ^ y == y ^ x) by (bit_vector);
    }
    assert(xor_bytes(a, b) =~= xor_bytes(b, a));
}

/// Law: XORing with `b` twice gives back the original 16-byte address.
pub proof fn lemma_xor_round_trip(a: Seq<u8>, b: Seq<u8>)
    requires
        a.len() == 16,
        b.len() == 16,
    ensures
        xor_bytes(xor_bytes(a, b), b) == a,
{
    assert forall|i: int| 0 <= i < 16 implies xor_bytes(xor_bytes(a, b), b)[i] == a[i] by {
        let x = a[i];
        let y = b[i];
        assert((x ^ y) ^ y == x) by (bit_vector);
    }
    assert(xor_bytes(xor_bytes(a, b), b) =~= a);
}

} // verus!
