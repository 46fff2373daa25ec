//! Emulation-prevention removal and Exp-Golomb decoding of NAL payloads.
use vstd::prelude::*;
use vstd::arithmetic::power2::{pow2, lemma2_to64, lemma_pow2_unfold};

verus! {

/// State after removing emulation-prevention bytes from the first `k`
/// bytes: the raw bytes kept so far and the length of the current zero run
/// (only whether it reached two matters, so it is kept at most two).
pub open spec fn rbsp_state(p: Seq<u8>, k: nat) -> (Seq<u8>, nat)
    decreases k,
{
    if k == 0 || k > p.len() {
        (Seq::<u8>::empty(), 0nat)
    } else {
        let prev = rbsp_state(p, (k - 1) as nat);
        let b = p[k - 1];
        if prev.1 >= 2 && b == 3 {
            (prev.0, 0nat)
        } else {
            (prev.0.push(b), if b == 0 {
                if prev.1 + 1 > 2 {
                    2nat
                } else {
                    prev.1 + 1
                }
            } else {
                0nat
            })
        }
    }
}

/// The raw byte sequence payload of an escaped NAL payload: every `0x03`
/// that follows two zero bytes is dropped.
pub open spec fn rbsp(p: Seq<u8>) -> Seq<u8> {
    rbsp_state(p, p.len()).0
}

/// Bit `i` of a byte sequence, most significant bit first.
pub open spec fn bit_at(p: Seq<u8>, i: int) -> u8 {
    (p[i / 8] >> ((7 - i % 8) as u8)) & 1
}

pub open spec fn first_one_from(p: Seq<u8>, i: int) -> Option<int>
    decreases p.len() * 8 - i,
{
    if i < 0 || i >= p.len() * 8 {
        None
    } else if bit_at(p, i) == 1 {
        Some(i)
    } else {
        first_one_from(p, i + 1)
    }
}

/// The unsigned value of `count` bits starting at bit `from`.
pub open spec fn bits_value(p: Seq<u8>, from: int, count: nat) -> nat
    decreases count,
{
    if count == 0 {
        0
    } else {
        bits_value(p, from, (count - 1) as nat) * 2 + bit_at(p, from + count - 1) as nat
    }
}

/// An unsigned Exp-Golomb code `ue(v)` at the start of `p`: `z` zero bits,
/// a one bit, then `z` more bits; the value is that `z + 1`-bit number
/// minus one. Absent when the bits run out or more than 63 zeros lead.
pub open spec fn exp_golomb(p: Seq<u8>) -> Option<u64> {
    match first_one_from(p, 0) {
        Some(z) => if z <= 63 && 2 * z + 1 <= p.len() * 8 {
            Some((bits_value(p, z, (z + 1) as nat) - 1) as u64)
        } else {
            None
        },
        None => None,
    }
}

/// Removes emulation-prevention bytes from `input[start..end]`.
pub fn h264_ebsp_to_rbsp(input: &[u8], start: usize, end: usize) -> (rbsp_out: Vec<u8>)
    requires
        start <= end <= input@.len(),
    ensures
        rbsp_out@ == rbsp(input@.subrange(start as int, end as int)),
{
    let ghost p = input@.subrange(start as int, end as int);
    let mut out: Vec<u8> = Vec::new();
    let mut zero_count: u8 = 0;
    let mut i = start;
    while i < end
        invariant
            start <= i <= end <= input@.len(),
            p == input@.subrange(start as int, end as int),
            rbsp_state(p, (i - start) as nat) == (out@, zero_count as nat),
        decreases end - i,
    {
        let byte = input[i];
        assert(p[(i - start) as int] == byte);
        if zero_count >= 2 && byte == 3 {
            zero_count = 0;
        } else {
            out.push(byte);
            zero_count = if byte == 0 {
                if zero_count >= 2 {
                    2
                } else {
                    zero_count + 1
                }
            } else {
                0
            };
        }
        i = i + 1;
    }
    out
}

pub struct BitReader<'a> {
    pub bytes: &'a [u8],
    pub bit_index: usize,
}

impl<'a> BitReader<'a> {
    pub fn new(bytes: &'a [u8]) -> (r: Self)
        ensures
            r.bytes@ == bytes@,
            r.bit_index == 0,
    {
        BitReader { bytes, bit_index: 0 }
    }

    /// Reads the next bit, most significant first.
    pub fn read_bit(&mut self) -> (r: Option<u8>)
        requires
            old(self).bit_index < usize::MAX,
        ensures
            final(self).bytes@ == old(self).bytes@,
            old(self).bit_index < old(self).bytes@.len() * 8 ==> r == Some(
                bit_at(old(self).bytes@, old(self).bit_index as int),
            ) && final(self).bit_index == old(self).bit_index + 1,
            old(self).bit_index >= old(self).bytes@.len() * 8 ==> r is None && final(self).bit_index
                == old(self).bit_index,
    {
        if self.bit_index / 8 >= self.bytes.len() {
            return None;
        }
        let byte = self.bytes[self.bit_index / 8];
        let shift = (7 - (self.bit_index % 8)) as u8;
        self.bit_index = self.bit_index + 1;
        Some((byte >> shift) & 1)
    }
}

proof fn lemma_bit_is_binary(p: Seq<u8>, i: int)
    requires
        0 <= i < p.len() * 8,
    ensures
        bit_at(p, i) <= 1,
{
    let b = p[i / 8];
    let s = (7 - i % 8) as u8;
    assert((b >> s) & 1 <= 1) by (bit_vector);
}

proof fn lemma_first_one_skip(p: Seq<u8>, i: int, j: int)
    requires
        0 <= i <= j <= p.len() * 8,
        forall|k: int| i <= k < j ==> bit_at(p, k) == 0,
    ensures
        first_one_from(p, i) == first_one_from(p, j),
    decreases j - i,
{
    if i < j {
        lemma_first_one_skip(p, i + 1, j);
    }
}

proof fn lemma_bits_value_bound(p: Seq<u8>, from: int, count: nat)
    requires
        0 <= from,
        from + count <= p.len() * 8,
    ensures
        bits_value(p, from, count) < pow2(count),
    decreases count,
{
    if count > 0 {
        lemma_bits_value_bound(p, from, (count - 1) as nat);
        lemma_bit_is_binary(p, from + count - 1);
        lemma_pow2_unfold(count);
        let prev = bits_value(p, from, (count - 1) as nat);
        let b = bit_at(p, from + count - 1) as nat;
        assert(bits_value(p, from, count) == prev * 2 + b);
        assert(prev < pow2((count - 1) as nat));
        assert(b <= 1);
        assert(pow2(count) == 2 * pow2((count - 1) as nat));
    } else {
        vstd::arithmetic::power2::lemma_pow2_pos(0);
    }
}

/// Decodes an unsigned Exp-Golomb code at the start of `payload`.
pub fn read_unsigned_exp_golomb(payload: &[u8]) -> (r: Option<u64>)
    ensures
        r == exp_golomb(payload@),
{
    let ghost p = payload@;
    let mut reader = BitReader::new(payload);
    let mut leading_zero_bits: u32 = 0;
    loop
        invariant_except_break
            reader.bit_index == leading_zero_bits as usize,
            leading_zero_bits as int <= p.len() * 8,
        invariant
            reader.bytes@ == p,
            p == payload@,
            leading_zero_bits <= 63,
            forall|k: int| 0 <= k < leading_zero_bits ==> bit_at(p, k) == 0,
        ensures
            reader.bit_index == leading_zero_bits as usize + 1,
            (leading_zero_bits as int) < p.len() * 8,
            bit_at(p, leading_zero_bits as int) == 1,
        decreases p.len() * 8 - leading_zero_bits,
    {
        let bit = reader.read_bit();
        match bit {
            None => {
                proof {
                    lemma_first_one_skip(p, 0, leading_zero_bits as int);
                    assert(first_one_from(p, leading_zero_bits as int) is None);
                    assert(first_one_from(p, 0) is None);
                    assert(exp_golomb(p) is None);
                }
                return None;
            },
            Some(b) => {
                proof {
                    lemma_bit_is_binary(p, leading_zero_bits as int);
                }
                if b != 0 {
                    break ;
                }
                leading_zero_bits = leading_zero_bits + 1;
                if leading_zero_bits > 63 {
                    proof {
                        lemma_first_one_skip(p, 0, 64);
                        assert(first_one_from(p, 64) matches Some(z) ==> z >= 64) by {
                            lemma_first_one_ge(p, 64);
                        }
                    }
                    return None;
                }
            },
        }
    }
    let ghost z = leading_zero_bits as int;
    proof {
        lemma_first_one_skip(p, 0, z);
        assert(first_one_from(p, z) == Some(z));
        lemma2_to64();
        vstd::arithmetic::power2::lemma2_to64_rest();
    }
    let mut value: u64 = 1;
    let mut k: u32 = 0;
    assert(bits_value(p, z, 1) == 1) by {
        assert(bits_value(p, z, 0) == 0);
    }
    while k < leading_zero_bits
        invariant
            reader.bytes@ == p,
            p == payload@,
            first_one_from(p, 0) == Some(z),
            z == leading_zero_bits as int,
            z <= 63,
            k <= leading_zero_bits,
            reader.bit_index == (z + 1 + k) as usize,
            z + 1 + k <= p.len() * 8,
            value as nat == bits_value(p, z, (k + 1) as nat),
            value >= 1,
            value < pow2((k + 1) as nat),
            pow2(63) == 0x8000_0000_0000_0000,
        decreases leading_zero_bits - k,
    {
        let bit = reader.read_bit();
        match bit {
            None => {
                assert(2 * z + 1 > p.len() * 8);
                return None;
            },
            Some(b) => {
                proof {
                    lemma_bit_is_binary(p, z + 1 + k);
                    lemma_pow2_unfold((k + 2) as nat);
                    if k + 1 < 63 {
                        vstd::arithmetic::power2::lemma_pow2_strictly_increases((k + 1) as nat, 63);
                    }
                }
                assert((value << 1) | (b as u64) == value * 2 + b as u64) by (bit_vector)
                    requires
                        value < 0x8000_0000_0000_0000u64,
                        b <= 1,
                ;
                value = (value << 1) | (b as u64);
                k = k + 1;
            },
        }
    }
    assert(2 * z + 1 <= p.len() * 8);
    Some(value - 1)
}

proof fn lemma_first_one_ge(p: Seq<u8>, i: int)
    ensures
        first_one_from(p, i) matches Some(z) ==> z >= i && bit_at(p, z) == 1,
    decreases p.len() * 8 - i,
{
    if 0 <= i < p.len() * 8 && bit_at(p, i) != 1 {
        lemma_first_one_ge(p, i + 1);
    }
}

} // verus!
