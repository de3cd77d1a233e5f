use vstd::prelude::*;

verus! {

/// `2^e`.
pub open spec fn p2(e: nat) -> nat
    decreases e,
{
    if e == 0 {
        1
    } else {
        2 * p2((e - 1) as nat)
    }
}

/// The unsigned value of `s` read as a little-endian integer: byte `i`
/// contributes `s[i] * 256^i`.
pub open spec fn le_val(s: Seq<u8>) -> nat
    decreases s.len(),
{
    if s.len() == 0 {
        0
    } else {
        (s[0] + 256 * le_val(s.drop_first())) as nat
    }
}

/// The unsigned value of `s` read as a big-endian integer: byte `i`
/// contributes `s[i] * 256^(len - 1 - i)`.
pub open spec fn be_val(s: Seq<u8>) -> nat
    decreases s.len(),
{
    if s.len() == 0 {
        0
    } else {
        (s.last() + 256 * be_val(s.drop_last())) as nat
    }
}

/// The `n` low-order bytes of `v` in little-endian order.
pub open spec fn le_bytes(n: nat, v: nat) -> Seq<u8>
    decreases n,
{
    if n == 0 {
        Seq::<u8>::empty()
    } else {
        seq![(v % 256) as u8] + le_bytes((n - 1) as nat, v / 256)
    }
}

/// The `n` low-order bytes of `v` in big-endian order.
pub open spec fn be_bytes(n: nat, v: nat) -> Seq<u8>
    decreases n,
{
    if n == 0 {
        Seq::<u8>::empty()
    } else {
        be_bytes((n - 1) as nat, v / 256) + seq![(v % 256) as u8]
    }
}

/// The value of the `b`-bit pattern `v` read as two's complement.
pub open spec fn sign_decode(v: nat, b: nat) -> int {
    if v < p2((b - 1) as nat) {
        v as int
    } else {
        v - p2(b)
    }
}

/// The `b`-bit two's-complement pattern of `v`.
pub open spec fn sign_encode(v: int, b: nat) -> nat {
    (v % (p2(b) as int)) as nat
}

pub proof fn lemma_p2_adds(a: nat, b: nat)
    ensures
        p2(a + b) == p2(a) * p2(b),
    decreases a,
{
    if a == 0 {
        assert(p2(a) == 1);
        assert(1 * p2(b) == p2(b)) by (nonlinear_arith);
    } else {
        lemma_p2_adds((a - 1) as nat, b);
        let pa1 = p2((a - 1) as nat);
        let pb = p2(b);
        assert(p2((a - 1) as nat + b) == pa1 * pb);
        assert(p2(a + b) == 2 * p2((a + b - 1) as nat));
        assert((a + b - 1) as nat == (a - 1) as nat + b);
        assert(p2(a + b) == 2 * (pa1 * pb));
        assert(p2(a) * pb == 2 * (pa1 * pb)) by (nonlinear_arith)
            requires
                p2(a) == 2 * pa1,
        ;
    }
}

pub proof fn lemma_p2_pos(e: nat)
    ensures
        p2(e) >= 1,
    decreases e,
{
    if e > 0 {
        lemma_p2_pos((e - 1) as nat);
    }
}

pub proof fn lemma_p2_mono(a: nat, b: nat)
    requires
        a <= b,
    ensures
        p2(a) <= p2(b),
    decreases b,
{
    if a < b {
        lemma_p2_mono(a, (b - 1) as nat);
    }
}

pub proof fn lemma_le_val_bound(s: Seq<u8>)
    ensures
        le_val(s) < p2(8 * s.len()),
    decreases s.len(),
{
    if s.len() == 0 {
    } else {
        lemma_le_val_bound(s.drop_first());
        lemma_p2_adds(8, 8 * (s.len() - 1) as nat);
        lemma_p2_8();
        assert(256 * le_val(s.drop_first()) <= 256 * (p2(8 * (s.len() - 1) as nat) - 1))
            by (nonlinear_arith)
            requires
                le_val(s.drop_first()) <= p2(8 * (s.len() - 1) as nat) - 1,
        ;
    }
}

pub proof fn lemma_be_val_bound(s: Seq<u8>)
    ensures
        be_val(s) < p2(8 * s.len()),
    decreases s.len(),
{
    if s.len() == 0 {
    } else {
        lemma_be_val_bound(s.drop_last());
        lemma_p2_adds(8 * (s.len() - 1) as nat, 8);
        lemma_p2_8();
        assert((p2(8 * (s.len() - 1) as nat) - 1) * 256 + 255 < p2(8 * (s.len() - 1) as nat) * 256)
            by (nonlinear_arith)
        ;
        assert(be_val(s.drop_last()) * 256 <= (p2(8 * (s.len() - 1) as nat) - 1) * 256)
            by (nonlinear_arith)
            requires
                be_val(s.drop_last()) <= p2(8 * (s.len() - 1) as nat) - 1,
        ;
    }
}

pub proof fn lemma_le_bytes_len(n: nat, v: nat)
    ensures
        le_bytes(n, v).len() == n,
    decreases n,
{
    if n > 0 {
        lemma_le_bytes_len((n - 1) as nat, v / 256);
    }
}

pub proof fn lemma_be_bytes_len(n: nat, v: nat)
    ensures
        be_bytes(n, v).len() == n,
    decreases n,
{
    if n > 0 {
        lemma_be_bytes_len((n - 1) as nat, v / 256);
    }
}

/// Writing `v` in `n` little-endian bytes and reading them back yields `v`,
/// for every `v` that fits.
pub proof fn lemma_le_round_trip(n: nat, v: nat)
    requires
        v < p2(8 * n),
    ensures
        le_val(le_bytes(n, v)) == v,
    decreases n,
{
    if n == 0 {
    } else {
        lemma_p2_adds(8, 8 * (n - 1) as nat);
        lemma_p2_8();
        assert(v / 256 < p2(8 * (n - 1) as nat)) by (nonlinear_arith)
            requires
                v < 256 * p2(8 * (n - 1) as nat),
        ;
        lemma_le_round_trip((n - 1) as nat, v / 256);
        let s = le_bytes(n, v);
        lemma_le_bytes_len((n - 1) as nat, v / 256);
        assert(s.drop_first() =~= le_bytes((n - 1) as nat, v / 256));
        assert(le_val(s) == v % 256 + 256 * (v / 256));
        assert(v % 256 + 256 * (v / 256) == v) by (nonlinear_arith);
    }
}

/// The big-endian counterpart of [`lemma_le_round_trip`].
pub proof fn lemma_be_round_trip(n: nat, v: nat)
    requires
        v < p2(8 * n),
    ensures
        be_val(be_bytes(n, v)) == v,
    decreases n,
{
    if n == 0 {
    } else {
        lemma_p2_adds(8, 8 * (n - 1) as nat);
        lemma_p2_8();
        assert(v / 256 < p2(8 * (n - 1) as nat)) by (nonlinear_arith)
            requires
                v < 256 * p2(8 * (n - 1) as nat),
        ;
        lemma_be_round_trip((n - 1) as nat, v / 256);
        let s = be_bytes(n, v);
        lemma_be_bytes_len((n - 1) as nat, v / 256);
        assert(s.drop_last() =~= be_bytes((n - 1) as nat, v / 256));
        assert(s.last() == (v % 256) as u8);
        assert(v % 256 + 256 * (v / 256) == v) by (nonlinear_arith);
    }
}

/// Big-endian bytes are the little-endian bytes in reverse order.
pub proof fn lemma_le_be_index(n: nat, v: nat, k: int)
    requires
        0 <= k < n,
    ensures
        be_bytes(n, v).len() == n,
        le_bytes(n, v).len() == n,
        be_bytes(n, v)[k] == le_bytes(n, v)[n - 1 - k],
    decreases n,
{
    lemma_le_bytes_len(n, v);
    lemma_be_bytes_len(n, v);
    lemma_le_bytes_len((n - 1) as nat, v / 256);
    lemma_be_bytes_len((n - 1) as nat, v / 256);
    if k < n - 1 {
        lemma_le_be_index((n - 1) as nat, v / 256, k);
    }
}

/// `2^8` written out.
pub proof fn lemma_p2_8()
    ensures
        p2(8) == 256,
        p2(7) == 128,
{
    reveal_with_fuel(p2, 9);
}

/// The powers of two that the byte widths of this crate reach, written out.
pub proof fn lemma_p2_128()
    ensures
        p2(128) == 0x100000000000000000000000000000000,
        p2(127) == 0x80000000000000000000000000000000,
        p2(64) == 0x10000000000000000,
        p2(63) == 0x8000000000000000,
        p2(32) == 0x100000000,
        p2(31) == 0x80000000,
        p2(16) == 0x10000,
        p2(15) == 0x8000,
        p2(8) == 0x100,
        p2(7) == 0x80,
{
    lemma_p2_8();
    lemma_p2_adds(8, 8);
    assert(p2(16) == 0x10000);
    lemma_p2_adds(16, 16);
    assert(p2(32) == 0x100000000);
    lemma_p2_adds(32, 32);
    assert(p2(64) == 0x10000000000000000);
    lemma_p2_adds(64, 64);
    assert(p2(128) == 0x100000000000000000000000000000000);
    lemma_p2_adds(8, 7);
    assert(p2(15) == 0x8000);
    lemma_p2_adds(16, 15);
    assert(p2(31) == 0x80000000);
    lemma_p2_adds(32, 31);
    assert(p2(63) == 0x8000000000000000);
    lemma_p2_adds(64, 63);
    assert(p2(127) == 0x80000000000000000000000000000000);
}

/// A decoded `b`-bit two's-complement value lies in the symmetric range.
pub proof fn lemma_sign_decode_bounds(v: nat, b: nat)
    requires
        1 <= b,
        v < p2(b),
    ensures
        -(p2((b - 1) as nat) as int) <= sign_decode(v, b) < p2((b - 1) as nat),
{
    assert(p2(b) == 2 * p2((b - 1) as nat));
}

/// An encoded pattern always fits its width.
pub proof fn lemma_sign_encode_bound(v: int, b: nat)
    ensures
        sign_encode(v, b) < p2(b),
{
    lemma_p2_pos(b);
    vstd::arithmetic::div_mod::lemma_mod_division_less_than_divisor(v, p2(b) as int);
}

/// `2^e` as a `u128`.
pub fn p2_u128(e: u32) -> (r: u128)
    requires
        e <= 127,
    ensures
        r == p2(e as nat),
{
    let mut r: u128 = 1;
    let mut i: u32 = 0;
    while i < e
        invariant
            i <= e <= 127,
            r == p2(i as nat),
        decreases e - i,
    {
        proof {
            lemma_p2_mono((i + 1) as nat, 127);
            lemma_p2_128();
        }
        r = r * 2;
        i = i + 1;
    }
    r
}

/// The little-endian value of `bytes`, which must fit a `u128`.
pub fn le_to_u128(bytes: &Vec<u8>) -> (r: u128)
    requires
        bytes@.len() <= 16,
    ensures
        r == le_val(bytes@),
{
    let n = bytes.len();
    let mut r: u128 = 0;
    let mut i: usize = n;
    proof {
        assert(bytes@.skip(n as int) =~= Seq::<u8>::empty());
    }
    while i > 0
        invariant
            i <= n == bytes@.len() <= 16,
            r == le_val(bytes@.skip(i as int)),
            r < p2(8 * (n - i) as nat),
        decreases i,
    {
        proof {
            lemma_p2_adds(8, 8 * (n - i) as nat);
            lemma_p2_mono(8 * (n - i + 1) as nat, 128);
            lemma_p2_128();
            lemma_p2_8();
            assert(256 * r + 255 < 256 * p2(8 * (n - i) as nat)) by (nonlinear_arith)
                requires
                    r < p2(8 * (n - i) as nat),
            ;
        }
        i = i - 1;
        r = (bytes[i] as u128) + 256 * r;
        proof {
            assert(bytes@.skip(i as int).drop_first() =~= bytes@.skip(i as int + 1));
        }
    }
    proof {
        assert(bytes@.skip(0) =~= bytes@);
    }
    r
}

/// The big-endian value of `bytes`, which must fit a `u128`.
pub fn be_to_u128(bytes: &Vec<u8>) -> (r: u128)
    requires
        bytes@.len() <= 16,
    ensures
        r == be_val(bytes@),
{
    let n = bytes.len();
    let mut r: u128 = 0;
    let mut i: usize = 0;
    proof {
        assert(bytes@.take(0) =~= Seq::<u8>::empty());
    }
    while i < n
        invariant
            i <= n == bytes@.len() <= 16,
            r == be_val(bytes@.take(i as int)),
            r < p2(8 * i as nat),
        decreases n - i,
    {
        proof {
            lemma_p2_adds(8 * i as nat, 8);
            lemma_p2_mono(8 * (i + 1) as nat, 128);
            lemma_p2_128();
            lemma_p2_8();
            assert(r * 256 + 255 < p2(8 * i as nat) * 256) by (nonlinear_arith)
                requires
                    r < p2(8 * i as nat),
            ;
            assert(256 * r == r * 256) by (nonlinear_arith);
            assert(p2(8 * i as nat) * 256 == 256 * p2(8 * i as nat)) by (nonlinear_arith);
        }
        r = 256 * r + (bytes[i] as u128);
        i = i + 1;
        proof {
            assert(bytes@.take(i as int).drop_last() =~= bytes@.take(i as int - 1));
            assert(bytes@.take(i as int).last() == bytes@[i as int - 1]);
        }
    }
    proof {
        assert(bytes@.take(n as int) =~= bytes@);
    }
    r
}

/// The `n` low-order bytes of `v`, little-endian.
pub fn u128_to_le(n: usize, v: u128) -> (r: Vec<u8>)
    ensures
        r@ == le_bytes(n as nat, v as nat),
        r@.len() == n,
{
    let mut r: Vec<u8> = Vec::new();
    let mut i: usize = 0;
    let mut v = v;
    let ghost v0 = v as nat;
    proof {
        lemma_le_bytes_len(n as nat, v0);
    }
    while i < n
        invariant
            i <= n,
            r@.len() == i,
            le_bytes(n as nat, v0) == r@ + le_bytes((n - i) as nat, v as nat),
        decreases n - i,
    {
        let ghost before = v as nat;
        r.push((v % 256) as u8);
        v = v / 256;
        i = i + 1;
        proof {
            assert(le_bytes((n - i + 1) as nat, before) == seq![(before % 256) as u8] + le_bytes(
                (n - i) as nat,
                before / 256,
            ));
            assert(r@ + le_bytes((n - i) as nat, v as nat) =~= r@.drop_last() + le_bytes(
                (n - i + 1) as nat,
                before,
            ));
        }
    }
    proof {
        assert(le_bytes(0, v as nat) =~= Seq::<u8>::empty());
        assert(r@ =~= r@ + le_bytes(0, v as nat));
    }
    r
}

/// The `n` low-order bytes of `v`, big-endian.
pub fn u128_to_be(n: usize, v: u128) -> (r: Vec<u8>)
    ensures
        r@ == be_bytes(n as nat, v as nat),
        r@.len() == n,
{
    let le = u128_to_le(n, v);
    let mut r: Vec<u8> = Vec::new();
    let mut i: usize = n;
    while i > 0
        invariant
            i <= n,
            le@ == le_bytes(n as nat, v as nat),
            le@.len() == n,
            r@.len() == n - i,
            forall|k: int| 0 <= k < n - i ==> r@[k] == le@[n - 1 - k],
        decreases i,
    {
        i = i - 1;
        r.push(le[i]);
    }
    proof {
        lemma_be_bytes_len(n as nat, v as nat);
        assert forall|k: int| 0 <= k < n implies r@[k] == be_bytes(n as nat, v as nat)[k] by {
            lemma_le_be_index(n as nat, v as nat, k);
        }
        assert(r@ =~= be_bytes(n as nat, v as nat));
    }
    r
}

} // verus!
