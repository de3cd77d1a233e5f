use crate::num::{lemma_p2_128, lemma_p2_mono, lemma_p2_pos, p2, p2_u128, sign_decode,
    sign_encode};
use vstd::arithmetic::div_mod::{lemma_fundamental_div_mod, lemma_fundamental_div_mod_converse,
    lemma_mod_division_less_than_divisor, lemma_small_mod};
use vstd::prelude::*;

verus! {

/// The unsigned data-bit pattern a signed variable-length write sends into
/// the unsigned path: the value masked to one group's data bits.
pub open spec fn signed_vi_pattern(num: int, size: nat) -> nat {
    sign_encode(num, (8 * size - 1) as nat)
}

/// Reinterprets the low `bits` of `num` as a two's-complement value.
pub fn sign_extend(num: u128, bits: u32) -> (r: i128)
    requires
        1 <= bits <= 128,
        num < p2(bits as nat),
    ensures
        r == sign_decode(num as nat, bits as nat),
{
    proof {
        lemma_p2_128();
        lemma_p2_mono((bits - 1) as nat, 127);
        lemma_p2_pos((bits - 1) as nat);
        assert(p2(bits as nat) == 2 * p2((bits - 1) as nat));
    }
    let half = p2_u128(bits - 1);
    if num < half {
        num as i128
    } else {
        let x1 = num - half;
        if bits == 128 {
            i128::MIN + (x1 as i128)
        } else {
            proof {
                assert(p2(127) == 2 * p2(126));
                lemma_p2_mono((bits - 1) as nat, 126);
            }
            (x1 as i128) - (half as i128)
        }
    }
}

/// Reinterprets `num` as a `size * 8`-bit unsigned pattern: the
/// two's-complement bits of `num`, masked to the width.  With `size == 16`
/// the bits pass through unchanged.
pub fn signed_to_unsigned(num: i128, size: u8) -> (r: u128)
    requires
        1 <= size <= 16,
    ensures
        r == sign_encode(num as int, (8 * size) as nat),
{
    sign_mask(num, 8 * size as u32)
}

/// Reinterprets `num` as a `size * 8 - 1`-bit unsigned pattern for the
/// data bits of one variable-length group, reserving the continuation-bit
/// position at every width.
pub fn signed_to_unsigned_vi(num: i128, size: u8) -> (r: u128)
    requires
        1 <= size <= 16,
    ensures
        r == sign_encode(num as int, (8 * size - 1) as nat),
{
    sign_mask(num, 8 * size as u32 - 1)
}

/// `num` modulo `2^bits`, the shared mask of the two transforms above.
pub fn sign_mask(num: i128, bits: u32) -> (r: u128)
    requires
        1 <= bits <= 128,
    ensures
        r == sign_encode(num as int, bits as nat),
{
    proof {
        lemma_p2_128();
        lemma_p2_mono(bits as nat, 128);
        lemma_p2_pos(bits as nat);
    }
    if bits == 128 {
        if num >= 0 {
            proof {
                lemma_small_mod(num as nat, p2(128));
            }
            num as u128
        } else {
            let k1 = (-(num + 1)) as u128;
            proof {
                lemma_small_mod(k1 as nat, p2(128));
                lemma_neg_mod(((k1 as int) + 1) as nat, p2(128));
            }
            u128::MAX - k1
        }
    } else {
        let lim = p2_u128(bits);
        if num >= 0 {
            (num as u128) % lim
        } else {
            let k1 = (-(num + 1)) as u128;
            let m = k1 % lim;
            proof {
                lemma_mod_division_less_than_divisor(k1 as int, lim as int);
                lemma_neg_mod(((k1 as int) + 1) as nat, lim as nat);
            }
            lim - 1 - m
        }
    }
}

/// Reinterprets the unsigned value of a signed variable-length integer
/// read over `length` groups of `size` bytes: the top bit of the logical
/// `length * (size * 8 - 1)`-bit pattern is the sign.
pub fn unsigned_to_signed(num: u128, length: u8, size: u8) -> (r: i128)
    requires
        1 <= size <= 16,
        1 <= length,
        length * (8 * size - 1) <= 127,
        num < p2((length * (8 * size - 1)) as nat),
    ensures
        r == sign_decode(num as nat, (length * (8 * size - 1)) as nat),
{
    let bits = (length as u32) * (8 * (size as u32) - 1);
    proof {
        assert(bits >= 1) by (nonlinear_arith)
            requires
                bits == length * (8 * size - 1),
                length >= 1,
                size >= 1,
        ;
    }
    sign_extend(num, bits)
}

/// For `k >= 1` and a positive modulus, `(-k) mod L == L - 1 - ((k - 1) mod L)`.
proof fn lemma_neg_mod(k: nat, l: nat)
    requires
        k >= 1,
        l >= 1,
    ensures
        (-(k as int)) % (l as int) == l - 1 - (((k - 1) as int) % (l as int)),
{
    let li = l as int;
    lemma_fundamental_div_mod((k - 1) as int, li);
    let q = ((k - 1) as int) / li;
    let r = ((k - 1) as int) % li;
    lemma_mod_division_less_than_divisor((k - 1) as int, li);
    assert(-(k as int) == (-q - 1) * li + (li - 1 - r)) by (nonlinear_arith)
        requires
            (k - 1) as int == q * li + r,
    ;
    lemma_fundamental_div_mod_converse(-(k as int), li, -q - 1, li - 1 - r);
}

} // verus!
