//! Arithmetic in GF(2^8) modulo the polynomial x^8 + x^4 + x^3 + x^2 + 1
//! (0x11d), the field of the media parity codes.
use vstd::prelude::*;

verus! {

/// Multiplication by x: a left shift, reduced by 0x11d when the top bit
/// falls out.
pub open spec fn xtime(a: u8) -> u8 {
    if a & 0x80u8 != 0 {
        ((a << 1u8) as u8) ^ 0x1du8
    } else {
        (a << 1u8) as u8
    }
}

/// `a * x^i`.
pub open spec fn xpow(a: u8, i: nat) -> u8
    decreases i,
{
    if i == 0 {
        a
    } else {
        xtime(xpow(a, (i - 1) as nat))
    }
}

/// Bit `i` of `b`.
pub open spec fn bit(b: u8, i: nat) -> bool {
    (b >> (i as u8)) & 1u8 == 1u8
}

/// The sum (xor) of `a * x^i` over the set bits `i < n` of `b`.
pub open spec fn gf_mul_upto(a: u8, b: u8, n: nat) -> u8
    decreases n,
{
    if n == 0 {
        0u8
    } else {
        gf_mul_upto(a, b, (n - 1) as nat) ^ if bit(b, (n - 1) as nat) {
            xpow(a, (n - 1) as nat)
        } else {
            0u8
        }
    }
}

/// The field product `a * b`.
pub open spec fn gf_mul(a: u8, b: u8) -> u8 {
    gf_mul_upto(a, b, 8)
}

/// `v` raised to the power `n`.
pub open spec fn gf_pow(v: u8, n: nat) -> u8
    decreases n,
{
    if n == 0 {
        1u8
    } else {
        gf_mul(gf_pow(v, (n - 1) as nat), v)
    }
}

/// The multiplicative inverse of a non-zero `v`: `v^254`, since the
/// multiplicative group has order 255.
pub open spec fn gf_inv(v: u8) -> u8 {
    gf_pow(v, 254)
}

fn xtime_exec(a: u8) -> (r: u8)
    ensures
        r == xtime(a),
{
    let shifted: u8 = a << 1u8;
    if a & 0x80u8 != 0 {
        shifted ^ 0x1du8
    } else {
        shifted
    }
}

/// The field product `a * b`.
pub fn gf256_mul(a: u8, b: u8) -> (r: u8)
    ensures
        r == gf_mul(a, b),
{
    let mut product: u8 = 0;
    let mut x: u8 = a;
    let mut i: u8 = 0;
    while i < 8
        invariant
            i <= 8,
            product == gf_mul_upto(a, b, i as nat),
            x == xpow(a, i as nat),
        decreases 8 - i,
    {
        let set = (b >> i) & 1u8 == 1u8;
        assert(set == bit(b, i as nat));
        if set {
            product = product ^ x;
        } else {
            let p0 = product;
            assert(p0 ^ 0u8 == p0) by (bit_vector);
        }
        assert(product == gf_mul_upto(a, b, (i + 1) as nat));
        x = xtime_exec(x);
        i = i + 1;
    }
    product
}

/// The inverse of a non-zero field element, as `value^254`.
pub fn gf256_inv(value: u8) -> (r: u8)
    ensures
        r == gf_inv(value),
{
    let mut result: u8 = 1;
    let mut n: u16 = 0;
    while n < 254
        invariant
            n <= 254,
            result == gf_pow(value, n as nat),
        decreases 254 - n,
    {
        result = gf256_mul(result, value);
        n = n + 1;
    }
    result
}

pub proof fn lemma_xor_zero_right(x: u8)
    ensures
        x ^ 0u8 == x,
        0u8 ^ x == x,
{
    assert(x ^ 0u8 == x) by (bit_vector);
    assert(0u8 ^ x == x) by (bit_vector);
}

/// One is the multiplicative identity.
pub proof fn lemma_gf_mul_one(x: u8)
    ensures
        gf_mul(x, 1u8) == x,
{
    assert((1u8 >> 0u8) & 1u8 == 1u8) by (bit_vector);
    assert((1u8 >> 1u8) & 1u8 == 0u8) by (bit_vector);
    assert((1u8 >> 2u8) & 1u8 == 0u8) by (bit_vector);
    assert((1u8 >> 3u8) & 1u8 == 0u8) by (bit_vector);
    assert((1u8 >> 4u8) & 1u8 == 0u8) by (bit_vector);
    assert((1u8 >> 5u8) & 1u8 == 0u8) by (bit_vector);
    assert((1u8 >> 6u8) & 1u8 == 0u8) by (bit_vector);
    assert((1u8 >> 7u8) & 1u8 == 0u8) by (bit_vector);
    lemma_xor_zero_right(x);
    assert(gf_mul_upto(x, 1u8, 0) == 0u8);
    assert(gf_mul_upto(x, 1u8, 1) == x);
    assert(gf_mul_upto(x, 1u8, 2) == x);
    assert(gf_mul_upto(x, 1u8, 3) == x);
    assert(gf_mul_upto(x, 1u8, 4) == x);
    assert(gf_mul_upto(x, 1u8, 5) == x);
    assert(gf_mul_upto(x, 1u8, 6) == x);
    assert(gf_mul_upto(x, 1u8, 7) == x);
    assert(gf_mul_upto(x, 1u8, 8) == x);
}


/// The field product written out over the eight bits of `b`.
pub open spec fn mul_flat(a: u8, b: u8) -> u8 {
    let a1 = xtime(a);
    let a2 = xtime(a1);
    let a3 = xtime(a2);
    let a4 = xtime(a3);
    let a5 = xtime(a4);
    let a6 = xtime(a5);
    let a7 = xtime(a6);
    ((((((((0u8 ^ (if (b >> 0u8) & 1u8 == 1u8 { a } else { 0u8 })) ^ (if (b >> 1u8) & 1u8 == 1u8 {
        a1
    } else {
        0u8
    })) ^ (if (b >> 2u8) & 1u8 == 1u8 { a2 } else { 0u8 })) ^ (if (b >> 3u8) & 1u8 == 1u8 {
        a3
    } else {
        0u8
    })) ^ (if (b >> 4u8) & 1u8 == 1u8 { a4 } else { 0u8 })) ^ (if (b >> 5u8) & 1u8 == 1u8 {
        a5
    } else {
        0u8
    })) ^ (if (b >> 6u8) & 1u8 == 1u8 { a6 } else { 0u8 })) ^ (if (b >> 7u8) & 1u8 == 1u8 {
        a7
    } else {
        0u8
    }))
}

proof fn lemma_gf_mul_flat(a: u8, b: u8)
    ensures
        gf_mul(a, b) == mul_flat(a, b),
{
    reveal_with_fuel(gf_mul_upto, 9);
    reveal_with_fuel(xpow, 8);
    assert(bit(b, 0) == ((b >> 0u8) & 1u8 == 1u8));
    assert(bit(b, 1) == ((b >> 1u8) & 1u8 == 1u8));
    assert(bit(b, 2) == ((b >> 2u8) & 1u8 == 1u8));
    assert(bit(b, 3) == ((b >> 3u8) & 1u8 == 1u8));
    assert(bit(b, 4) == ((b >> 4u8) & 1u8 == 1u8));
    assert(bit(b, 5) == ((b >> 5u8) & 1u8 == 1u8));
    assert(bit(b, 6) == ((b >> 6u8) & 1u8 == 1u8));
    assert(bit(b, 7) == ((b >> 7u8) & 1u8 == 1u8));
}

proof fn lemma_xtime_linear(u: u8, w: u8)
    by (bit_vector)
    ensures
        xtime(u ^ w) == xtime(u) ^ xtime(w),
        xtime(0u8) == 0u8,
{
}

proof fn lemma_xor_swap(a: u8, b: u8, c: u8, d: u8)
    by (bit_vector)
    ensures
        (a ^ b) ^ (c ^ d) == (a ^ c) ^ (b ^ d),
        a ^ 0u8 == a,
        0u8 ^ 0u8 == 0u8,
{
}

proof fn lemma_bit_xor(c: u8, d: u8, i: u8)
    by (bit_vector)
    requires
        i < 8,
    ensures
        (((c ^ d) >> i) & 1u8 == 1u8) == (((c >> i) & 1u8 == 1u8) != ((d >> i) & 1u8 == 1u8)),
{
}

proof fn lemma_xpow_linear(u: u8, w: u8, i: nat)
    ensures
        xpow(u ^ w, i) == xpow(u, i) ^ xpow(w, i),
        xpow(0u8, i) == 0u8,
    decreases i,
{
    lemma_xtime_linear(u, w);
    if i > 0 {
        lemma_xpow_linear(u, w, (i - 1) as nat);
        lemma_xtime_linear(xpow(u, (i - 1) as nat), xpow(w, (i - 1) as nat));
        lemma_xtime_linear(0u8, 0u8);
    }
}

proof fn lemma_mul_upto_linear(u: u8, w: u8, c: u8, d: u8, n: nat)
    requires
        n <= 8,
    ensures
        gf_mul_upto(u ^ w, c, n) == gf_mul_upto(u, c, n) ^ gf_mul_upto(w, c, n),
        gf_mul_upto(u, c ^ d, n) == gf_mul_upto(u, c, n) ^ gf_mul_upto(u, d, n),
        gf_mul_upto(0u8, c, n) == 0u8,
    decreases n,
{
    lemma_xor_swap(0u8, 0u8, 0u8, 0u8);
    if n > 0 {
        let k = (n - 1) as nat;
        lemma_mul_upto_linear(u, w, c, d, k);
        lemma_xpow_linear(u, w, k);
        let xu = xpow(u, k);
        let xw = xpow(w, k);
        let su = if bit(c, k) { xu } else { 0u8 };
        let sw = if bit(c, k) { xw } else { 0u8 };
        lemma_xor_swap(gf_mul_upto(u, c, k), gf_mul_upto(w, c, k), su, sw);
        lemma_xor_swap(xu, xu, 0u8, 0u8);
        lemma_xor_swap(xu, 0u8, 0u8, 0u8);
        lemma_xor_swap(xw, 0u8, 0u8, 0u8);
        lemma_xor_algebra(xu, xw, 0u8);
        lemma_xor_algebra(xu, xu, 0u8);
        lemma_xor_algebra(0u8, xu, 0u8);
        lemma_bit_xor(c, d, k as u8);
        let tc = if bit(c, k) { xu } else { 0u8 };
        let td = if bit(d, k) { xu } else { 0u8 };
        lemma_xor_swap(gf_mul_upto(u, c, k), gf_mul_upto(u, d, k), tc, td);
        lemma_xor_algebra(gf_mul_upto(0u8, c, k), 0u8, 0u8);
    }
}

/// Multiplication distributes over addition (xor) in either factor, and
/// zero annihilates.
pub proof fn lemma_gf_mul_linear(u: u8, w: u8, c: u8, d: u8)
    ensures
        gf_mul(u ^ w, c) == gf_mul(u, c) ^ gf_mul(w, c),
        gf_mul(u, c ^ d) == gf_mul(u, c) ^ gf_mul(u, d),
        gf_mul(0u8, c) == 0u8,
{
    lemma_mul_upto_linear(u, w, c, d, 8);
}

/// The inverses of the small elements that the audio code divides by.
pub open spec fn small_inverse(k: u8) -> u8 {
    if k == 1 {
        1u8
    } else if k == 2 {
        0x8eu8
    } else if k == 3 {
        0xf4u8
    } else if k == 4 {
        0x47u8
    } else if k == 5 {
        0xa7u8
    } else if k == 6 {
        0x7au8
    } else if k == 8 {
        0xadu8
    } else if k == 9 {
        0x9du8
    } else if k == 10 {
        0xddu8
    } else {
        0x3du8
    }
}

pub open spec fn is_small_pivot(k: u8) -> bool {
    k == 1 || k == 2 || k == 3 || k == 4 || k == 5 || k == 6 || k == 8 || k == 9 || k == 10 || k
        == 12
}

proof fn lemma_mul_flat_inverse_table(v: u8, w: u8)
    by (bit_vector)
    ensures
        w == mul_flat(v, 1u8) ==> mul_flat(w, 1u8) == v,
        w == mul_flat(v, 0x8eu8) ==> mul_flat(w, 2u8) == v,
        w == mul_flat(v, 0xf4u8) ==> mul_flat(w, 3u8) == v,
        w == mul_flat(v, 0x47u8) ==> mul_flat(w, 4u8) == v,
        w == mul_flat(v, 0xa7u8) ==> mul_flat(w, 5u8) == v,
        w == mul_flat(v, 0x7au8) ==> mul_flat(w, 6u8) == v,
        w == mul_flat(v, 0xadu8) ==> mul_flat(w, 8u8) == v,
        w == mul_flat(v, 0x9du8) ==> mul_flat(w, 9u8) == v,
        w == mul_flat(v, 0xddu8) ==> mul_flat(w, 10u8) == v,
        w == mul_flat(v, 0x3du8) ==> mul_flat(w, 12u8) == v,
        w == mul_flat(v, 2u8) ==> mul_flat(w, 0x8eu8) == v,
        w == mul_flat(v, 3u8) ==> mul_flat(w, 0xf4u8) == v,
        w == mul_flat(v, 4u8) ==> mul_flat(w, 0x47u8) == v,
        w == mul_flat(v, 5u8) ==> mul_flat(w, 0xa7u8) == v,
        w == mul_flat(v, 6u8) ==> mul_flat(w, 0x7au8) == v,
        w == mul_flat(v, 8u8) ==> mul_flat(w, 0xadu8) == v,
        w == mul_flat(v, 9u8) ==> mul_flat(w, 0x9du8) == v,
        w == mul_flat(v, 10u8) ==> mul_flat(w, 0xddu8) == v,
        w == mul_flat(v, 12u8) ==> mul_flat(w, 0x3du8) == v,
{
}

/// Dividing by a small pivot and multiplying back (either way round) is
/// the identity.
pub proof fn lemma_small_inverse(v: u8, k: u8)
    requires
        is_small_pivot(k),
    ensures
        gf_mul(gf_mul(v, small_inverse(k)), k) == v,
        gf_mul(gf_mul(v, k), small_inverse(k)) == v,
{
    let i = small_inverse(k);
    lemma_mul_flat_inverse_table(v, mul_flat(v, i));
    lemma_mul_flat_inverse_table(v, mul_flat(v, k));
    lemma_gf_mul_flat(v, i);
    lemma_gf_mul_flat(gf_mul(v, i), k);
    lemma_gf_mul_flat(v, k);
    lemma_gf_mul_flat(gf_mul(v, k), i);
    lemma_gf_mul_one(v);
}

/// The inverse of a small pivot, looked up.
pub fn small_inverse_exec(k: u8) -> (r: u8)
    requires
        is_small_pivot(k),
    ensures
        r == small_inverse(k),
{
    if k == 1 {
        1
    } else if k == 2 {
        0x8e
    } else if k == 3 {
        0xf4
    } else if k == 4 {
        0x47
    } else if k == 5 {
        0xa7
    } else if k == 6 {
        0x7a
    } else if k == 8 {
        0xad
    } else if k == 9 {
        0x9d
    } else if k == 10 {
        0xdd
    } else {
        0x3d
    }
}

/// Xor is associative, commutative and its own inverse.
pub proof fn lemma_xor_algebra(a: u8, b: u8, c: u8)
    by (bit_vector)
    ensures
        (a ^ b) ^ c == a ^ (b ^ c),
        a ^ b == b ^ a,
        a ^ a == 0u8,
        a ^ 0u8 == a,
        0u8 ^ a == a,
{
}
} // verus!
