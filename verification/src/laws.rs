use crate::error::DhError;
use crate::num::{le_bytes, lemma_be_round_trip, lemma_le_bytes_len, lemma_le_round_trip,
    lemma_p2_128, lemma_p2_adds, lemma_p2_mono, lemma_p2_pos, p2};
use crate::read::read_post;
use crate::seek::{seek_post, SeekFrom, StreamModel};
use crate::variable::{digits_val, group_base, group_of, groups_bytes, lemma_digits_val_mark,
    lemma_digits_val_mod, lemma_groups_bytes_slice, lemma_min_digits, lemma_scan_groups,
    mark_groups, min_digits, read_limit, strip_zeros, vux_bytes, vux_groups, vux_value,
    wire_groups};
use crate::write::write_post;
use vstd::arithmetic::div_mod::{lemma_fundamental_div_mod_converse,
    lemma_mod_add_multiples_vanish, lemma_mod_division_less_than_divisor, lemma_small_mod};
use vstd::prelude::*;

verus! {

/// The wire groups of a value are well formed: every group before the last
/// carries its continuation bit, the last does not, and each fits the
/// group width.
proof fn lemma_wire_groups_form(size: nat, v: nat, rev: bool)
    requires
        1 <= size <= 16,
    ensures
        ({
            let gs = wire_groups(size, v, rev);
            let base = group_base(size);
            &&& gs.len() >= 1
            &&& forall|i: int| 0 <= i < gs.len() ==> #[trigger] gs[i] < p2(8 * size)
            &&& forall|i: int| 0 <= i < gs.len() - 1 ==> #[trigger] gs[i] >= base
            &&& gs.last() < base
        }),
{
    let base = group_base(size);
    lemma_p2_pos((8 * size - 1) as nat);
    lemma_p2_adds((8 * size - 1) as nat, 1);
    assert(p2(1) == 2) by {
        reveal_with_fuel(p2, 2);
    }
    assert(p2(8 * size) == base * 2) by {
        assert((8 * size - 1) as nat + 1 == 8 * size);
    }
    lemma_min_digits(v, base);
    let ds = min_digits(v, base);
    let laid = if rev {
        ds.reverse()
    } else {
        ds
    };
    assert(forall|i: int| 0 <= i < laid.len() ==> #[trigger] laid[i] < base);
    let gs = wire_groups(size, v, rev);
    assert(gs == mark_groups(laid, base));
    assert forall|i: int| 0 <= i < gs.len() implies #[trigger] gs[i] < p2(8 * size) by {
        assert(laid[i] < base);
    }
    assert(gs.last() == laid[laid.len() - 1]);
}

/// ROUND TRIP, forward orientations: decoding the serialized form of any
/// 128-bit value yields that value, in either internal byte order.
pub proof fn lemma_varint_round_trip(size: nat, v: nat, be: bool)
    requires
        1 <= size <= 16,
        v < p2(128),
    ensures
        ({
            let bs = vux_bytes(size, v, be, false);
            let gso = vux_groups(bs, 0, bs.len() as int, size, be);
            &&& gso matches Some(gs) && vux_value(gs, size, false) == v && bs.len() == size
                * gs.len()
        }),
{
    lemma_varint_scan_back(size, v, be, false);
    let base = group_base(size);
    lemma_p2_pos((8 * size - 1) as nat);
    lemma_min_digits(v, base);
    let ds = min_digits(v, base);
    lemma_digits_val_mark(ds, base);
    assert(vux_value(wire_groups(size, v, false), size, false) == v);
}

/// ROUND TRIP, reversed orientations: decoding the serialized form yields
/// the value back for every value whose lowest digit is not a zero that
/// the reversed decoder's zero-skipping would drop.
pub proof fn lemma_varint_round_trip_rev(size: nat, v: nat, be: bool)
    requires
        1 <= size <= 16,
        v < p2(128),
        v < group_base(size) || v % group_base(size) != 0,
    ensures
        ({
            let bs = vux_bytes(size, v, be, true);
            let gso = vux_groups(bs, 0, bs.len() as int, size, be);
            &&& gso matches Some(gs) && vux_value(gs, size, true) == v && bs.len() == size
                * gs.len()
        }),
{
    lemma_varint_scan_back(size, v, be, true);
    let base = group_base(size);
    lemma_p2_pos((8 * size - 1) as nat);
    lemma_min_digits(v, base);
    let ds = min_digits(v, base);
    let k = ds.len() as int;
    let gs = wire_groups(size, v, true);
    let back = gs.reverse();
    assert(gs == mark_groups(ds.reverse(), base));
    assert(back.len() == k);
    assert forall|j: int| 1 <= j < k implies #[trigger] back[j] == ds[j] + base by {
        assert(back[j] == gs[k - 1 - j]);
        assert(gs[k - 1 - j] == ds.reverse()[k - 1 - j] + base);
        assert(ds.reverse()[k - 1 - j] == ds[j]);
    }
    assert(back[0] == gs[k - 1]);
    assert(gs[k - 1] == ds.reverse()[k - 1]);
    assert(back[0] == ds[0]);
    if v < base {
        assert(k == 1);
        if v == 0 {
            assert(back =~= seq![0nat]);
            assert(back[0] == 0);
            assert(strip_zeros(back) == strip_zeros(back.drop_first()));
            assert(back.drop_first() =~= Seq::<nat>::empty());
            assert(vux_value(gs, size, true) == 0);
        } else {
            assert(strip_zeros(back) == back);
            assert(back.drop_first() =~= Seq::<nat>::empty());
            assert(digits_val(back.drop_first(), base) == 0);
            lemma_small_mod(v, base);
            assert(digits_val(back, base) == back[0] % base + base * digits_val(
                back.drop_first(),
                base,
            ));
            assert(base * 0 == 0) by (nonlinear_arith);
            assert(digits_val(back, base) == v);
        }
    } else {
        assert(ds[0] == v % base);
        assert(ds[0] != 0);
        assert(strip_zeros(back) == back);
        assert forall|j: int| 0 <= j < k implies #[trigger] (back[j] % base) == ds[j] % base by {
            if j >= 1 {
                lemma_mod_add_multiples_vanish(ds[j] as int, base as int);
            }
        }
        lemma_digits_val_mod(back, ds, base);
        assert(vux_value(gs, size, true) == v);
    }
}

/// ROUND TRIP, signed transform: masking a value of the symmetric `b`-bit
/// range to `b` bits and reading the bits back as two's complement yields
/// the value again.
pub proof fn lemma_signed_round_trip(v: int, b: nat)
    requires
        1 <= b <= 127,
        -(p2((b - 1) as nat) as int) <= v < p2((b - 1) as nat),
    ensures
        crate::num::sign_decode(crate::num::sign_encode(v, b), b) == v,
{
    lemma_p2_pos((b - 1) as nat);
    assert(p2(b) == 2 * p2((b - 1) as nat));
    let l = p2(b) as int;
    if v >= 0 {
        lemma_small_mod(v as nat, p2(b));
    } else {
        lemma_fundamental_div_mod_converse(v, l, -1, v + l);
        assert(crate::num::sign_encode(v, b) == v + l);
    }
}

/// ROUND TRIP, signed variable-length integers: over the symmetric range
/// of one group's data bits, the masked value occupies a single group and
/// decodes to the value it came from.
pub proof fn lemma_signed_varint_round_trip(size: nat, v: int, be: bool)
    requires
        1 <= size <= 16,
        -(p2((8 * size - 2) as nat) as int) <= v < p2((8 * size - 2) as nat),
    ensures
        ({
            let u = crate::signed::signed_vi_pattern(v, size);
            let bs = vux_bytes(size, u, be, false);
            let gso = vux_groups(bs, 0, bs.len() as int, size, be);
            &&& gso is Some
            &&& gso->Some_0.len() == 1
            &&& crate::num::sign_decode(
                vux_value(gso->Some_0, size, false),
                ((8 * size - 1) * gso->Some_0.len()) as nat,
            ) == v
        }),
{
    let b = (8 * size - 1) as nat;
    let base = group_base(size);
    let u = crate::signed::signed_vi_pattern(v, size);
    lemma_p2_pos((b - 1) as nat);
    assert(p2(b) == 2 * p2((b - 1) as nat));
    crate::num::lemma_sign_encode_bound(v, b);
    assert(u < base);
    lemma_p2_128();
    lemma_p2_mono(b, 127);
    lemma_varint_round_trip(size, u, be);
    lemma_varint_scan_back(size, u, be, false);
    lemma_min_digits(u, base);
    let gs = vux_groups(
        vux_bytes(size, u, be, false),
        0,
        vux_bytes(size, u, be, false).len() as int,
        size,
        be,
    )->Some_0;
    assert(gs == wire_groups(size, u, false));
    assert(wire_groups(size, u, false).len() == 1);
    lemma_signed_round_trip(v, b);
    assert((8 * size - 1) * 1 == b) by (nonlinear_arith)
        requires
            b == 8 * size - 1,
    ;
}

/// Scanning the serialized bytes of `v` finds exactly its wire groups.
proof fn lemma_varint_scan_back(size: nat, v: nat, be: bool, rev: bool)
    requires
        1 <= size <= 16,
    ensures
        ({
            let bs = vux_bytes(size, v, be, rev);
            let gs = wire_groups(size, v, rev);
            &&& vux_groups(bs, 0, bs.len() as int, size, be) == Some(gs)
            &&& bs.len() == size * gs.len()
        }),
{
    let base = group_base(size);
    let gs = wire_groups(size, v, rev);
    let bs = vux_bytes(size, v, be, rev);
    lemma_wire_groups_form(size, v, rev);
    lemma_groups_bytes_slice(gs, size, be, 0);
    assert forall|j: int| 0 <= j < gs.len() implies #[trigger] gs[j] == group_of(
        bs.subrange(0 + size * j, 0 + size * j + size),
        be,
    ) by {
        lemma_groups_bytes_slice(gs, size, be, j);
        lemma_p2_adds((8 * size - 1) as nat, 1);
        assert(p2(1) == 2) by {
            reveal_with_fuel(p2, 2);
        }
        assert((8 * size - 1) as nat + 1 == 8 * size);
        assert(gs[j] < p2(8 * size));
        if be {
            lemma_be_round_trip(size, gs[j]);
        } else {
            lemma_le_round_trip(size, gs[j]);
        }
    }
    lemma_scan_groups(bs, 0, bs.len() as int, size, be, gs);
}

/// MINIMALITY: no group sequence denoting `v` is shorter than the digit
/// sequence the encoder emits, so two wire forms of the same value always
/// span the same number of groups.
pub proof fn lemma_minimality(v: nat, base: nat, ds: Seq<nat>)
    requires
        base >= 2,
        ds.len() >= 1,
        digits_val(ds, base) == v,
    ensures
        min_digits(v, base).len() <= ds.len(),
    decreases ds.len(),
{
    broadcast use vstd::arithmetic::div_mod::lemma_div_decreases;

    if v < base {
        lemma_min_digits(v, base);
    } else {
        let d0 = ds[0] % base;
        let rest = digits_val(ds.drop_first(), base);
        lemma_mod_division_less_than_divisor(ds[0] as int, base as int);
        assert(rest * base + d0 == v) by (nonlinear_arith)
            requires
                d0 + base * rest == v,
        ;
        lemma_fundamental_div_mod_converse(v as int, base as int, rest as int, d0 as int);
        assert(rest == v / base);
        assert(v / base >= 1) by (nonlinear_arith)
            requires
                v >= base,
                base >= 2,
                v / base * base + (v % base) == v,
                v % base < base,
        ;
        assert(ds.drop_first().len() >= 1);
        lemma_minimality((v / base) as nat, base, ds.drop_first());
        lemma_min_digits(v, base);
        assert(min_digits(v, base) == seq![v % base] + min_digits((v / base) as nat, base));
    }
}

/// BOUNDED VIEW CONTAINMENT: a read whose byte range is not fully inside
/// the view's window fails with the end-of-range error and leaves the
/// underlying stream exactly as it was.
pub proof fn lemma_view_read_containment(
    m: StreamModel,
    n: nat,
    m2: StreamModel,
    r: Result<Vec<u8>, DhError>,
)
    requires
        m.bounded,
        !(m.start <= m.pos && m.pos + n <= m.end),
        read_post(m, n, m2, r),
    ensures
        m2 == m,
        r == Err::<Vec<u8>, DhError>(DhError::UnexpectedEof),
{
}

/// BOUNDED VIEW CONTAINMENT: a write whose byte range is not fully inside
/// the view's window fails with the end-of-range error and leaves the
/// underlying stream exactly as it was.
pub proof fn lemma_view_write_containment(
    m: StreamModel,
    data: Seq<u8>,
    m2: StreamModel,
    r: Result<(), DhError>,
)
    requires
        m.bounded,
        !(m.start <= m.pos && m.pos + data.len() <= m.end),
        write_post(m, data, m2, r),
    ensures
        m2 == m,
        r == Err::<(), DhError>(DhError::UnexpectedEof),
{
}

/// BOUNDED VIEW TRANSLATION: seeking a view to its own offset zero moves
/// the underlying stream to the window's start, and the position a view
/// reports is always the underlying position less the window's start.
pub proof fn lemma_view_translation(
    m: StreamModel,
    m2: StreamModel,
    r: Result<u64, DhError>,
    m3: StreamModel,
    m4: StreamModel,
    rp: Result<u64, DhError>,
)
    requires
        m.bounded,
        m.start <= m.end,
        seek_post(m, SeekFrom::Start(0), m2, r),
        m3.bounded,
        m3.start <= m3.pos <= m3.end,
        m3.pos - m3.start <= u64::MAX,
        seek_post(m3, SeekFrom::Current(0), m4, rp),
    ensures
        m2 == m.with_pos(m.start),
        r == Ok::<u64, DhError>(0),
        m4 == m3,
        rp == Ok::<u64, DhError>((m3.pos - m3.start) as u64),
{
    assert(m.seek_target(SeekFrom::Start(0)) == m.start);
    assert(m3.seek_target(SeekFrom::Current(0)) == m3.pos);
    assert(m3.with_pos(m3.pos) == m3);
}

/// FIXED-WIDTH BOUND CHECK: at a writable position, `write_uxle` fails
/// with the invalid-input error exactly when the value does not fit the
/// requested width.
pub proof fn lemma_write_uxle_bound(
    m: StreamModel,
    size: nat,
    v: nat,
    m2: StreamModel,
    r: Result<(), DhError>,
)
    requires
        size <= 16,
        m.write_ok(size),
        v < p2(8 * size) ==> write_post(m, le_bytes(size, v), m2, r),
        v >= p2(8 * size) ==> m2 == m && r == Err::<(), DhError>(DhError::InvalidInput),
    ensures
        r == Err::<(), DhError>(DhError::InvalidInput) <==> v >= p2(8 * size),
{
    if v < p2(8 * size) {
        lemma_le_bytes_len(size, v);
        assert(m.write_ok(le_bytes(size, v).len()));
        assert(r == Ok::<(), DhError>(()));
    }
}

/// ROUND TRIP over a stream: writing a variable-length integer, seeking
/// back, and reading it in the same orientation yields the value again.
pub proof fn lemma_stream_round_trip(m: StreamModel, size: nat, v: nat, be: bool, rev: bool)
    requires
        1 <= size <= 16,
        v < p2(128),
        !rev || v < group_base(size) || v % group_base(size) != 0,
        m.write_ok(vux_bytes(size, v, be, rev).len()),
    ensures
        ({
            let bs = vux_bytes(size, v, be, rev);
            let m2 = m.after_write(bs).with_pos(m.pos);
            let gso = vux_groups(m2.bytes, m2.pos, read_limit(m2), size, be);
            &&& gso matches Some(gs) && vux_value(gs, size, rev) == v
        }),
{
    let bs = vux_bytes(size, v, be, rev);
    let gs = wire_groups(size, v, rev);
    let m2 = m.after_write(bs).with_pos(m.pos);
    if rev {
        lemma_varint_round_trip_rev(size, v, be);
    } else {
        lemma_varint_round_trip(size, v, be);
    }
    lemma_varint_scan_back(size, v, be, rev);
    lemma_wire_groups_form(size, v, rev);
    assert(m2.bytes == m.spliced(bs));
    assert(m2.bytes.len() >= m.pos + bs.len());
    assert(m2.bytes.subrange(m.pos, m.pos + bs.len()) =~= bs);
    assert forall|j: int| 0 <= j < gs.len() implies #[trigger] gs[j] == group_of(
        m2.bytes.subrange(m2.pos + size * j, m2.pos + size * j + size),
        be,
    ) by {
        lemma_groups_bytes_slice(gs, size, be, j);
        assert(size * (j + 1) == size * j + size) by (nonlinear_arith);
        assert(size * (j + 1) <= size * gs.len()) by (nonlinear_arith)
            requires
                j + 1 <= gs.len(),
                size >= 1,
        ;
        assert(m2.bytes.subrange(m2.pos + size * j, m2.pos + size * j + size) =~= bs.subrange(
            size * j,
            size * j + size,
        ));
        lemma_p2_adds((8 * size - 1) as nat, 1);
        assert(p2(1) == 2) by {
            reveal_with_fuel(p2, 2);
        }
        assert((8 * size - 1) as nat + 1 == 8 * size);
        assert(gs[j] < p2(8 * size));
        if be {
            lemma_be_round_trip(size, gs[j]);
        } else {
            lemma_le_round_trip(size, gs[j]);
        }
    }
    assert(read_limit(m2) >= m.pos + bs.len());
    lemma_scan_groups(m2.bytes, m2.pos, read_limit(m2), size, be, gs);
}

} // verus!
