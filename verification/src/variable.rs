use crate::error::DhError;
use crate::num::{be_bytes, be_val, le_bytes, le_val, lemma_be_bytes_len, lemma_be_val_bound,
    lemma_le_bytes_len, lemma_le_val_bound, lemma_p2_128, lemma_p2_adds, lemma_p2_mono,
    lemma_p2_pos, p2, p2_u128};
use crate::read::{read_step, ReadSeek};
use crate::seek::StreamModel;
use crate::write::WriteSeek;
use vstd::arithmetic::div_mod::{lemma_div_decreases, lemma_fundamental_div_mod,
    lemma_mod_add_multiples_vanish, lemma_mod_division_less_than_divisor, lemma_small_mod};
use vstd::arithmetic::mul::lemma_mul_inequality;
use vstd::prelude::*;

verus! {

/// The payload capacity of one group: every group keeps its top bit as the
/// continuation flag and carries `8 * size - 1` data bits.
pub open spec fn group_base(size: nat) -> nat {
    p2((8 * size - 1) as nat)
}

/// The value of one group's bytes under the chosen internal byte order.
pub open spec fn group_of(bytes: Seq<u8>, be: bool) -> nat {
    if be {
        be_val(bytes)
    } else {
        le_val(bytes)
    }
}

/// The group values of a variable-length integer starting at `pos`: groups
/// are read in stream order until the first whose continuation bit is
/// clear, which is included.  `None` when the scan runs past `hi`.
pub open spec fn vux_groups(bytes: Seq<u8>, pos: int, hi: int, size: nat, be: bool) -> Option<
    Seq<nat>,
>
    decreases hi - pos, when 1 <= size
{
    if pos < 0 || pos + size > hi || hi > bytes.len() {
        None
    } else {
        let g = group_of(bytes.subrange(pos, pos + size), be);
        if g < group_base(size) {
            Some(seq![g])
        } else {
            match vux_groups(bytes, pos + size, hi, size, be) {
                None => None,
                Some(gs) => Some(seq![g] + gs),
            }
        }
    }
}

/// The value carried by a sequence of groups, first group least
/// significant; each group contributes its value without the continuation
/// bit.
pub open spec fn digits_val(gs: Seq<nat>, base: nat) -> nat
    decreases gs.len(),
{
    if gs.len() == 0 {
        0
    } else {
        gs[0] % base + base * digits_val(gs.drop_first(), base)
    }
}

/// The value of groups in base `2^gb` needs at most `gb` bits per group.
pub proof fn lemma_digits_val_bound(gs: Seq<nat>, gb: nat)
    requires
        gb >= 1,
    ensures
        digits_val(gs, p2(gb)) < p2(gb * gs.len()),
    decreases gs.len(),
{
    let base = p2(gb);
    lemma_p2_pos(gb);
    if gs.len() == 0 {
        lemma_p2_pos(gb * gs.len());
        assert(gb * 0 == 0) by (nonlinear_arith);
    } else {
        lemma_digits_val_bound(gs.drop_first(), gb);
        lemma_mod_division_less_than_divisor(gs[0] as int, base as int);
        let rest = digits_val(gs.drop_first(), base);
        lemma_p2_adds(gb, gb * (gs.len() - 1) as nat);
        assert(gb * gs.len() == gb + gb * (gs.len() - 1)) by (nonlinear_arith);
        assert(gs[0] % base + base * rest < base * p2(gb * (gs.len() - 1) as nat))
            by (nonlinear_arith)
            requires
                gs[0] % base < base,
                rest < p2(gb * (gs.len() - 1) as nat),
                base >= 1,
        ;
    }
}

/// Stripping zero groups never lengthens the sequence.
pub proof fn lemma_strip_zeros_len(gs: Seq<nat>)
    ensures
        strip_zeros(gs).len() <= gs.len(),
    decreases gs.len(),
{
    if gs.len() > 0 && gs[0] == 0 {
        lemma_strip_zeros_len(gs.drop_first());
    }
}

/// The groups with any zero-valued groups at the front removed.
pub open spec fn strip_zeros(gs: Seq<nat>) -> Seq<nat>
    decreases gs.len(),
{
    if gs.len() == 0 {
        gs
    } else if gs[0] == 0 {
        strip_zeros(gs.drop_first())
    } else {
        gs
    }
}

/// The value of scanned groups: in forward orientation the first group is
/// least significant; in reversed orientation the scanned groups are
/// reversed and zero groups at their front skipped first.
pub open spec fn vux_value(gs: Seq<nat>, size: nat, rev: bool) -> nat {
    if rev {
        digits_val(strip_zeros(gs.reverse()), group_base(size))
    } else {
        digits_val(gs, group_base(size))
    }
}

/// The shortest digit sequence for `v` in base `base`, least significant
/// digit first.
pub open spec fn min_digits(v: nat, base: nat) -> Seq<nat>
    decreases v, when base >= 2 via min_digits_decreases
{
    if v < base {
        seq![v]
    } else {
        seq![v % base] + min_digits(v / base, base)
    }
}

#[via_fn]
proof fn min_digits_decreases(v: nat, base: nat) {
    if base >= 2 && v >= base {
        broadcast use lemma_div_decreases;

    }
}

/// The digits with the continuation bit set on every group but the last.
pub open spec fn mark_groups(ds: Seq<nat>, base: nat) -> Seq<nat> {
    Seq::new(
        ds.len(),
        |i: int|
            if i < ds.len() - 1 {
                (ds[i] + base) as nat
            } else {
                ds[i]
            },
    )
}

/// The groups of the wire form of `v`: the minimal digits, reversed when
/// `rev`, with the continuation bit set on every group written before the
/// last.
pub open spec fn wire_groups(size: nat, v: nat, rev: bool) -> Seq<nat> {
    let ds = min_digits(v, group_base(size));
    if rev {
        mark_groups(ds.reverse(), group_base(size))
    } else {
        mark_groups(ds, group_base(size))
    }
}

/// The bytes of a group sequence, each group in the chosen byte order.
pub open spec fn groups_bytes(gs: Seq<nat>, size: nat, be: bool) -> Seq<u8>
    decreases gs.len(),
{
    if gs.len() == 0 {
        Seq::<u8>::empty()
    } else {
        (if be {
            be_bytes(size, gs[0])
        } else {
            le_bytes(size, gs[0])
        }) + groups_bytes(gs.drop_first(), size, be)
    }
}

/// The full wire form of `v` as a variable-length integer.
pub open spec fn vux_bytes(size: nat, v: nat, be: bool, rev: bool) -> Seq<u8> {
    groups_bytes(wire_groups(size, v, rev), size, be)
}

/// The last position a read through this stream may touch.
pub open spec fn read_limit(m: StreamModel) -> int {
    if m.bounded && m.end < m.bytes.len() {
        m.end
    } else {
        m.bytes.len() as int
    }
}

/// Prepending a group to a sequence adds its digit below the rest.
pub proof fn lemma_digits_val_cons(a: nat, gs: Seq<nat>, base: nat)
    ensures
        digits_val(seq![a] + gs, base) == a % base + base * digits_val(gs, base),
{
    let s = seq![a] + gs;
    assert(s[0] == a);
    assert(s.drop_first() =~= gs);
}

/// The minimal digits of `v` denote `v`: each digit is below the base, at
/// least one digit is produced, and their value is `v` again.
pub proof fn lemma_min_digits(v: nat, base: nat)
    requires
        base >= 2,
    ensures
        min_digits(v, base).len() >= 1,
        forall|i: int| 0 <= i < min_digits(v, base).len() ==> #[trigger] min_digits(v, base)[i]
            < base,
        digits_val(min_digits(v, base), base) == v,
        v < base ==> min_digits(v, base).len() == 1,
        v >= base ==> min_digits(v, base)[0] == v % base,
    decreases v,
{
    broadcast use lemma_div_decreases;

    if v < base {
        lemma_small_mod(v, base);
        let s = min_digits(v, base);
        assert(s == seq![v]);
        assert(s.len() == 1 && s[0] == v);
        assert(s.drop_first() =~= Seq::<nat>::empty());
        assert(digits_val(s.drop_first(), base) == 0);
        assert(digits_val(s, base) == s[0] % base + base * digits_val(s.drop_first(), base));
        assert(base * 0 == 0) by (nonlinear_arith);
    } else {
        lemma_mod_division_less_than_divisor(v as int, base as int);
        lemma_min_digits(v / base, base);
        lemma_digits_val_cons(v % base, min_digits(v / base, base), base);
        lemma_small_mod(v % base, base);
        lemma_fundamental_div_mod(v as int, base as int);
        let s = min_digits(v, base);
        assert forall|i: int| 0 <= i < s.len() implies #[trigger] s[i] < base by {
            if i == 0 {
            } else {
                assert(s[i] == min_digits(v / base, base)[i - 1]);
            }
        }
    }
}

/// Setting continuation bits does not change the value the groups carry.
pub proof fn lemma_digits_val_mark(ds: Seq<nat>, base: nat)
    requires
        base >= 1,
        forall|i: int| 0 <= i < ds.len() ==> #[trigger] ds[i] < base,
    ensures
        digits_val(mark_groups(ds, base), base) == digits_val(ds, base),
    decreases ds.len(),
{
    if ds.len() == 0 {
        assert(mark_groups(ds, base) =~= ds);
    } else if ds.len() == 1 {
        assert(mark_groups(ds, base) =~= ds);
    } else {
        let m = mark_groups(ds, base);
        assert(m.drop_first() =~= mark_groups(ds.drop_first(), base));
        lemma_digits_val_mark(ds.drop_first(), base);
        lemma_mod_add_multiples_vanish(ds[0] as int, base as int);
        lemma_small_mod(ds[0] as nat, base);
        assert(m[0] == ds[0] + base);
        assert(m[0] % base == ds[0] % base);
    }
}

/// The value of a suffix of the groups never exceeds the value of a longer
/// suffix.
pub proof fn lemma_digits_val_suffix(gs: Seq<nat>, base: nat, j1: int, j2: int)
    requires
        base >= 1,
        0 <= j1 <= j2 <= gs.len(),
    ensures
        digits_val(gs.skip(j2), base) <= digits_val(gs.skip(j1), base),
    decreases j2 - j1,
{
    if j1 < j2 {
        lemma_digits_val_suffix(gs, base, j1 + 1, j2);
        let s = gs.skip(j1);
        assert(s.drop_first() =~= gs.skip(j1 + 1));
        assert(digits_val(s, base) == s[0] % base + base * digits_val(gs.skip(j1 + 1), base));
        let d = digits_val(gs.skip(j1 + 1), base);
        assert(base * d >= 1 * d) by (nonlinear_arith)
            requires
                base >= 1,
                d >= 0,
        ;
    }
}

/// Folds collected groups into the value of a forward variable-length
/// integer, reporting a value that does not fit the 128-bit register.
pub fn parse_vux(groups: &Vec<u128>, size: u8) -> (r: Result<u128, DhError>)
    requires
        1 <= size <= 16,
    ensures
        ({
            let v = digits_val(groups@.map_values(|g: u128| g as nat), group_base(size as nat));
            if v < p2(128) {
                r matches Ok(x) && x == v
            } else {
                r == Err::<u128, DhError>(DhError::InvalidData)
            }
        }),
{
    let ghost gs = groups@.map_values(|g: u128| g as nat);
    let ghost base_s = group_base(size as nat);
    proof {
        lemma_p2_128();
        lemma_p2_mono((8 * size - 1) as nat, 127);
        lemma_p2_pos((8 * size - 1) as nat);
    }
    let base = p2_u128(8 * (size as u32) - 1);
    let n = groups.len();
    let mut acc: u128 = 0;
    let mut j: usize = n;
    proof {
        assert(gs.skip(n as int) =~= Seq::<nat>::empty());
    }
    while j > 0
        invariant
            j <= n == groups@.len(),
            gs == groups@.map_values(|g: u128| g as nat),
            base == base_s == group_base(size as nat),
            2 <= base,
            acc == digits_val(gs.skip(j as int), base_s),
        decreases j,
    {
        j = j - 1;
        let d = groups[j] % base;
        proof {
            assert(gs.skip(j as int).drop_first() =~= gs.skip(j as int + 1));
            assert(gs.skip(j as int)[0] == groups@[j as int] as nat);
            lemma_mod_division_less_than_divisor(groups@[j as int] as int, base as int);
        }
        let q = (u128::MAX - d) / base;
        if acc > q {
            proof {
                lemma_fundamental_div_mod((u128::MAX - d) as int, base as int);
                lemma_mul_inequality((q + 1) as int, acc as int, base as int);
                lemma_mod_division_less_than_divisor((u128::MAX - d) as int, base as int);
                assert(acc * base >= (q + 1) * base);
                assert((q + 1) * base == q * base + base) by (nonlinear_arith);
                assert(q * base == base * q) by (nonlinear_arith);
                assert(q * base > u128::MAX - d - base);
                assert(digits_val(gs.skip(j as int), base_s) == d + base * acc);
                assert(base * acc == acc * base) by (nonlinear_arith);
                assert(digits_val(gs.skip(j as int), base_s) > u128::MAX);
                lemma_digits_val_suffix(gs, base_s, 0, j as int);
                assert(gs.skip(0) =~= gs);
                assert(digits_val(gs, base_s) > u128::MAX);
                lemma_p2_128();
            }
            return Err(DhError::InvalidData);
        }
        proof {
            lemma_fundamental_div_mod((u128::MAX - d) as int, base as int);
            lemma_mul_inequality(acc as int, q as int, base as int);
            lemma_mod_division_less_than_divisor((u128::MAX - d) as int, base as int);
            assert(acc * base <= q * base);
            assert(digits_val(gs.skip(j as int), base_s) == d + base * acc);
            assert(base * acc == acc * base) by (nonlinear_arith);
        }
        acc = acc * base + d;
    }
    proof {
        assert(gs.skip(0) =~= gs);
        lemma_p2_128();
    }
    Ok(acc)
}

/// Folds collected groups into the value of a reversed variable-length
/// integer: the groups are reversed, zero groups at the new front skipped,
/// and the rest folded as in the forward case.
pub fn parse_vuxr(groups: &Vec<u128>, size: u8) -> (r: Result<u128, DhError>)
    requires
        1 <= size <= 16,
    ensures
        ({
            let v = vux_value(groups@.map_values(|g: u128| g as nat), size as nat, true);
            if v < p2(128) {
                r matches Ok(x) && x == v
            } else {
                r == Err::<u128, DhError>(DhError::InvalidData)
            }
        }),
{
    let n = groups.len();
    let mut rev: Vec<u128> = Vec::new();
    let mut i: usize = n;
    while i > 0
        invariant
            i <= n == groups@.len(),
            rev@.len() == n - i,
            forall|k: int| 0 <= k < n - i ==> rev@[k] == groups@[n - 1 - k],
        decreases i,
    {
        i = i - 1;
        rev.push(groups[i]);
    }
    proof {
        assert(rev@.map_values(|g: u128| g as nat) =~= groups@.map_values(
            |g: u128| g as nat,
        ).reverse());
    }
    let mut s: usize = 0;
    while s < rev.len() && rev[s] == 0
        invariant
            s <= rev@.len(),
            forall|k: int| 0 <= k < s ==> rev@[k] == 0,
        decreases rev@.len() - s,
    {
        s = s + 1;
    }
    let ghost rn = rev@.map_values(|g: u128| g as nat);
    proof {
        lemma_strip_zeros_skip(rn, s as int);
        assert(rn.skip(s as int) =~= rev@.skip(s as int).map_values(|g: u128| g as nat));
    }
    let mut tail: Vec<u128> = Vec::new();
    let mut k: usize = s;
    while k < rev.len()
        invariant
            s <= k <= rev@.len(),
            tail@ =~= rev@.skip(s as int).take(k - s),
        decreases rev@.len() - k,
    {
        tail.push(rev[k]);
        k = k + 1;
        proof {
            assert(tail@ =~= rev@.skip(s as int).take(k - s));
        }
    }
    proof {
        assert(tail@ =~= rev@.skip(s as int));
    }
    parse_vux(&tail, size)
}

/// Serializes `num` as a variable-length integer: the minimal digit
/// sequence, reversed when `rev`, each group with its continuation bit and
/// laid out in the chosen internal byte order.
pub fn serialize_vuxle(size: u8, num: u128, be: bool, rev: bool) -> (r: Vec<u8>)
    requires
        1 <= size <= 16,
    ensures
        r@ == vux_bytes(size as nat, num as nat, be, rev),
{
    let ghost base_s = group_base(size as nat);
    proof {
        lemma_p2_128();
        lemma_p2_mono((8 * size - 1) as nat, 127);
        lemma_p2_pos((8 * size - 1) as nat);
        broadcast use lemma_div_decreases;

    }
    let base = p2_u128(8 * (size as u32) - 1);
    let mut ds: Vec<u128> = Vec::new();
    let mut v = num;
    proof {
        assert(ds@.map_values(|x: u128| x as nat) + min_digits(v as nat, base_s) =~= min_digits(
            num as nat,
            base_s,
        ));
    }
    while v >= base
        invariant
            base == base_s == group_base(size as nat),
            2 <= base,
            ds@.map_values(|x: u128| x as nat) + min_digits(v as nat, base_s) == min_digits(
                num as nat,
                base_s,
            ),
        decreases v,
    {
        let ghost before = v as nat;
        ds.push(v % base);
        v = v / base;
        proof {
            lemma_mod_division_less_than_divisor(before as int, base as int);
            assert(min_digits(before, base_s) == seq![before % base_s] + min_digits(
                before / base_s,
                base_s,
            ));
            assert(ds@.map_values(|x: u128| x as nat) + min_digits(v as nat, base_s)
                =~= ds@.drop_last().map_values(|x: u128| x as nat) + min_digits(before, base_s));
        }
    }
    ds.push(v);
    proof {
        assert(min_digits(v as nat, base_s) == seq![v as nat]);
        assert(ds@.map_values(|x: u128| x as nat) =~= ds@.drop_last().map_values(
            |x: u128| x as nat,
        ) + min_digits(v as nat, base_s));
        assert(ds@.map_values(|x: u128| x as nat) == min_digits(num as nat, base_s));
    }
    let ghost plain = min_digits(num as nat, base_s);
    let mut ordered: Vec<u128> = ds;
    if rev {
        let n = ordered.len();
        let mut flipped: Vec<u128> = Vec::new();
        let mut i: usize = n;
        while i > 0
            invariant
                i <= n == ordered@.len(),
                flipped@.len() == n - i,
                forall|k: int| 0 <= k < n - i ==> flipped@[k] == ordered@[n - 1 - k],
            decreases i,
        {
            i = i - 1;
            flipped.push(ordered[i]);
        }
        proof {
            assert(flipped@.map_values(|x: u128| x as nat) =~= plain.reverse());
        }
        ordered = flipped;
    }
    let ghost laid = if rev {
        plain.reverse()
    } else {
        plain
    };
    proof {
        assert(ordered@.map_values(|x: u128| x as nat) == laid);
        lemma_min_digits(num as nat, base_s);
        assert(forall|k: int|
            0 <= k < laid.len() ==> #[trigger] laid[k] < base_s && laid[k] == ordered@[k] as nat);
    }
    let n = ordered.len();
    let mut i: usize = 0;
    while i + 1 < n
        invariant
            n == ordered@.len() >= 1,
            i <= n - 1,
            base == base_s,
            2 <= base <= p2(127),
            forall|k: int| 0 <= k < n ==> #[trigger] laid[k] < base_s,
            laid.len() == n,
            forall|k: int| 0 <= k < i ==> ordered@[k] as nat == laid[k] + base_s,
            forall|k: int| i <= k < n ==> ordered@[k] as nat == laid[k],
        decreases n - i,
    {
        proof {
            lemma_p2_128();
            assert(ordered@[i as int] as nat == laid[i as int]);
            assert(laid[i as int] < base_s);
        }
        let g = ordered[i];
        ordered[i] = g + base;
        i = i + 1;
    }
    proof {
        assert(ordered@.map_values(|x: u128| x as nat) =~= mark_groups(laid, base_s));
        assert(ordered@.map_values(|x: u128| x as nat) == wire_groups(size as nat, num as nat, rev));
    }
    let ghost gsn = ordered@.map_values(|x: u128| x as nat);
    let mut out: Vec<u8> = Vec::new();
    let mut j: usize = 0;
    proof {
        assert(gsn.skip(0) =~= gsn);
        assert(out@ + groups_bytes(gsn.skip(0), size as nat, be) =~= groups_bytes(
            gsn,
            size as nat,
            be,
        ));
    }
    while j < n
        invariant
            j <= n == ordered@.len(),
            gsn == ordered@.map_values(|x: u128| x as nat),
            out@ + groups_bytes(gsn.skip(j as int), size as nat, be) == groups_bytes(
                gsn,
                size as nat,
                be,
            ),
            1 <= size <= 16,
        decreases n - j,
    {
        let g = ordered[j];
        let mut piece = if be {
            crate::num::u128_to_be(size as usize, g)
        } else {
            crate::num::u128_to_le(size as usize, g)
        };
        let ghost prev = out@;
        let ghost gb = piece@;
        out.append(&mut piece);
        j = j + 1;
        proof {
            assert(gsn.skip(j - 1)[0] == g as nat);
            assert(gsn.skip(j - 1).drop_first() =~= gsn.skip(j as int));
            assert(groups_bytes(gsn.skip(j - 1), size as nat, be) == gb + groups_bytes(
                gsn.skip(j as int),
                size as nat,
                be,
            ));
            assert(out@ + groups_bytes(gsn.skip(j as int), size as nat, be) =~= prev
                + groups_bytes(gsn.skip(j - 1), size as nat, be));
        }
    }
    proof {
        assert(gsn.skip(n as int) =~= Seq::<nat>::empty());
        assert(out@ + groups_bytes(gsn.skip(n as int), size as nat, be) =~= out@);
    }
    out
}

/// Skipping exactly the zero prefix is what [`strip_zeros`] does.
proof fn lemma_strip_zeros_skip(gs: Seq<nat>, s: int)
    requires
        0 <= s <= gs.len(),
        forall|k: int| 0 <= k < s ==> gs[k] == 0,
        s < gs.len() ==> gs[s] != 0,
    ensures
        strip_zeros(gs) == gs.skip(s),
    decreases s,
{
    if s == 0 {
        if gs.len() == 0 {
            assert(gs.skip(0) =~= gs);
        } else {
            assert(gs.skip(0) =~= gs);
        }
    } else {
        assert(gs[0] == 0);
        lemma_strip_zeros_skip(gs.drop_first(), s - 1);
        assert(gs.drop_first().skip(s - 1) =~= gs.skip(s));
    }
}

/// Two group sequences whose digits agree modulo the base carry the same
/// value.
pub proof fn lemma_digits_val_mod(a: Seq<nat>, b: Seq<nat>, base: nat)
    requires
        a.len() == b.len(),
        forall|j: int| 0 <= j < a.len() ==> #[trigger] (a[j] % base) == b[j] % base,
    ensures
        digits_val(a, base) == digits_val(b, base),
    decreases a.len(),
{
    if a.len() > 0 {
        assert(a[0] % base == b[0] % base);
        assert forall|j: int|
            0 <= j < a.drop_first().len() implies #[trigger] (a.drop_first()[j] % base)
            == b.drop_first()[j] % base by {
            assert(a[j + 1] % base == b[j + 1] % base);
        }
        lemma_digits_val_mod(a.drop_first(), b.drop_first(), base);
    }
}

/// The bytes of a group sequence hold each group's bytes at its own
/// offset.
pub proof fn lemma_groups_bytes_slice(gs: Seq<nat>, size: nat, be: bool, i: int)
    requires
        1 <= size,
        0 <= i < gs.len(),
    ensures
        groups_bytes(gs, size, be).len() == size * gs.len(),
        groups_bytes(gs, size, be).subrange(size * i, size * i + size) == (if be {
            be_bytes(size, gs[i])
        } else {
            le_bytes(size, gs[i])
        }),
    decreases gs.len(),
{
    let bs = groups_bytes(gs, size, be);
    let head = if be {
        be_bytes(size, gs[0])
    } else {
        le_bytes(size, gs[0])
    };
    lemma_le_bytes_len(size, gs[0]);
    lemma_be_bytes_len(size, gs[0]);
    if gs.len() == 1 {
        assert(groups_bytes(gs.drop_first(), size, be) =~= Seq::<u8>::empty());
        assert(size * 1 == size) by (nonlinear_arith);
        assert(size * 0 == 0) by (nonlinear_arith);
        assert(bs.subrange(0, size as int) =~= head);
    } else {
        lemma_groups_bytes_slice(gs.drop_first(), size, be, if i == 0 {
            0
        } else {
            i - 1
        });
        assert(size * gs.len() == size + size * (gs.len() - 1)) by (nonlinear_arith);
        if i == 0 {
            assert(size * 0 == 0) by (nonlinear_arith);
            assert(bs.subrange(0, size as int) =~= head);
        } else {
            let rest = groups_bytes(gs.drop_first(), size, be);
            assert(size * i == size + size * (i - 1)) by (nonlinear_arith);
            assert(gs.drop_first()[i - 1] == gs[i]);
            assert(size * (i + 1) <= size * gs.len()) by (nonlinear_arith)
                requires
                    1 <= size,
                    i + 1 <= gs.len(),
            ;
            assert(size * (i + 1) == size * i + size) by (nonlinear_arith);
            assert(size * i + size <= bs.len());
            assert(bs.subrange(size * i, size * i + size) =~= rest.subrange(
                size * (i - 1),
                size * (i - 1) + size,
            ));
        }
    }
}

/// A scan that sees continuation groups followed by one terminator group
/// finds exactly those groups.
pub proof fn lemma_scan_groups(
    bytes: Seq<u8>,
    pos: int,
    hi: int,
    size: nat,
    be: bool,
    gv: Seq<nat>,
)
    requires
        1 <= size,
        0 <= pos,
        hi <= bytes.len(),
        pos + size * gv.len() <= hi,
        gv.len() >= 1,
        forall|j: int| 0 <= j < gv.len() ==> #[trigger] gv[j] == group_of(
            bytes.subrange(pos + size * j, pos + size * j + size),
            be,
        ),
        forall|j: int| 0 <= j < gv.len() - 1 ==> #[trigger] gv[j] >= group_base(size),
        gv.last() < group_base(size),
    ensures
        vux_groups(bytes, pos, hi, size, be) == Some(gv),
    decreases gv.len(),
{
    assert(size * 1 <= size * gv.len()) by (nonlinear_arith)
        requires
            1 <= gv.len(),
            1 <= size,
    ;
    assert(size * 1 == size) by (nonlinear_arith);
    assert(gv[0] == group_of(bytes.subrange(pos + size * 0, pos + size * 0 + size), be));
    assert(size * 0 == 0) by (nonlinear_arith);
    assert(bytes.subrange(pos + size * 0, pos + size * 0 + size) =~= bytes.subrange(
        pos,
        pos + size,
    ));
    if gv.len() == 1 {
        assert(gv.last() == gv[0]);
        assert(vux_groups(bytes, pos, hi, size, be) == Some(seq![gv[0]]));
        assert(seq![gv[0]] =~= gv);
    } else {
        assert(gv[0] >= group_base(size));
        let rest = gv.drop_first();
        assert forall|j: int| 0 <= j < rest.len() implies #[trigger] rest[j] == group_of(
            bytes.subrange(pos + size + size * j, pos + size + size * j + size),
            be,
        ) by {
            assert(rest[j] == gv[j + 1]);
            assert(size * (j + 1) == size * j + size) by (nonlinear_arith);
            assert(pos + size * (j + 1) == pos + size + size * j);
        }
        assert forall|j: int| 0 <= j < rest.len() - 1 implies #[trigger] rest[j] >= group_base(
            size,
        ) by {
            assert(rest[j] == gv[j + 1]);
        }
        assert(rest.last() == gv.last());
        assert(size * gv.len() == size + size * rest.len()) by (nonlinear_arith)
            requires
                rest.len() == gv.len() - 1,
        ;
        lemma_scan_groups(bytes, pos + size, hi, size, be, rest);
        assert(vux_groups(bytes, pos, hi, size, be) == Some(seq![gv[0]] + rest));
        assert(seq![gv[0]] + rest =~= gv);
    }
}

/// A scan that sees only continuation groups and then runs out of room
/// fails.
pub proof fn lemma_scan_eof(bytes: Seq<u8>, pos: int, hi: int, size: nat, be: bool, gv: Seq<nat>)
    requires
        1 <= size,
        0 <= pos,
        hi <= bytes.len(),
        pos + size * gv.len() <= hi,
        pos + size * gv.len() + size > hi,
        forall|j: int| 0 <= j < gv.len() ==> #[trigger] gv[j] == group_of(
            bytes.subrange(pos + size * j, pos + size * j + size),
            be,
        ),
        forall|j: int| 0 <= j < gv.len() ==> #[trigger] gv[j] >= group_base(size),
    ensures
        vux_groups(bytes, pos, hi, size, be) is None,
    decreases gv.len(),
{
    if gv.len() == 0 {
        assert(size * 0 == 0) by (nonlinear_arith);
        assert(pos + size > hi);
    } else {
        assert(size * 1 <= size * gv.len()) by (nonlinear_arith)
            requires
                1 <= gv.len(),
                1 <= size,
        ;
        assert(size * 1 == size) by (nonlinear_arith);
        assert(gv[0] == group_of(bytes.subrange(pos + size * 0, pos + size * 0 + size), be));
        assert(size * 0 == 0) by (nonlinear_arith);
        assert(bytes.subrange(pos + size * 0, pos + size * 0 + size) =~= bytes.subrange(
            pos,
            pos + size,
        ));
        let rest = gv.drop_first();
        assert forall|j: int| 0 <= j < rest.len() implies #[trigger] rest[j] == group_of(
            bytes.subrange(pos + size + size * j, pos + size + size * j + size),
            be,
        ) && rest[j] >= group_base(size) by {
            assert(rest[j] == gv[j + 1]);
            assert(size * (j + 1) == size * j + size) by (nonlinear_arith);
        }
        assert(size * gv.len() == size + size * rest.len()) by (nonlinear_arith)
            requires
                rest.len() == gv.len() - 1,
        ;
        lemma_scan_eof(bytes, pos + size, hi, size, be, rest);
    }
}

/// What reading a variable-length integer does.  On a stream whose position
/// is addressable: if a full run of groups lies before the read limit, they
/// are consumed and their value returned, unless that value needs more than
/// 128 bits; if the run is cut short, the read fails after consuming the
/// complete groups.
pub open spec fn varint_read_post(
    m: StreamModel,
    size: nat,
    be: bool,
    rev: bool,
    m2: StreamModel,
    r: Result<u128, DhError>,
) -> bool {
    let gso = vux_groups(m.bytes, m.pos, read_limit(m), size, be);
    &&& m2.bytes == m.bytes
    &&& m2.same_frame(m)
    &&& if !(0 <= m.pos && m.origin() <= m.pos) {
        &&& m2 == m
        &&& r == Err::<u128, DhError>(DhError::UnexpectedEof)
    } else {
        match gso {
            Some(gs) => {
                let v = vux_value(gs, size, rev);
                &&& m2.pos == m.pos + size * gs.len()
                &&& if v < p2(128) {
                    r matches Ok(x) && x == v
                } else {
                    r == Err::<u128, DhError>(DhError::InvalidData)
                }
            },
            None => {
                &&& r == Err::<u128, DhError>(DhError::UnexpectedEof)
                &&& m.pos <= m2.pos
            },
        }
    }
}

/// What reading a signed variable-length integer does: the digit count
/// fixes the logical bit width, whose top bit is the sign; a width beyond
/// the 128-bit register is refused.
pub open spec fn varint_sign_post(
    m: StreamModel,
    size: nat,
    be: bool,
    rev: bool,
    m2: StreamModel,
    r: Result<i128, DhError>,
) -> bool {
    let gso = vux_groups(m.bytes, m.pos, read_limit(m), size, be);
    &&& m2.bytes == m.bytes
    &&& m2.same_frame(m)
    &&& if !(0 <= m.pos && m.origin() <= m.pos) {
        &&& m2 == m
        &&& r == Err::<i128, DhError>(DhError::UnexpectedEof)
    } else {
        match gso {
            Some(gs) => {
                let b = (8 * size - 1) * gs.len();
                &&& m2.pos == m.pos + size * gs.len()
                &&& if b <= 127 {
                    r matches Ok(x) && x == crate::num::sign_decode(
                        vux_value(gs, size, rev),
                        b as nat,
                    )
                } else {
                    r == Err::<i128, DhError>(DhError::InvalidData)
                }
            },
            None => {
                &&& r == Err::<i128, DhError>(DhError::UnexpectedEof)
                &&& m.pos <= m2.pos
            },
        }
    }
}

/// What reading a most-significant-first variable-length integer does: the
/// scan is the forward scan, but the first group read supplies the highest
/// digit.
pub open spec fn varint_msb_post(
    m: StreamModel,
    size: nat,
    be: bool,
    m2: StreamModel,
    r: Result<u128, DhError>,
) -> bool {
    let gso = vux_groups(m.bytes, m.pos, read_limit(m), size, be);
    &&& m2.bytes == m.bytes
    &&& m2.same_frame(m)
    &&& if !(0 <= m.pos && m.origin() <= m.pos) {
        &&& m2 == m
        &&& r == Err::<u128, DhError>(DhError::UnexpectedEof)
    } else {
        match gso {
            Some(gs) => {
                let v = digits_val(gs.reverse(), group_base(size));
                &&& m2.pos == m.pos + size * gs.len()
                &&& if v < p2(128) {
                    r matches Ok(x) && x == v
                } else {
                    r == Err::<u128, DhError>(DhError::InvalidData)
                }
            },
            None => {
                &&& r == Err::<u128, DhError>(DhError::UnexpectedEof)
                &&& m.pos <= m2.pos
            },
        }
    }
}

/// Reads one signed variable-length integer from the stream.
pub fn read_varint_signed<T: ReadSeek>(s: &mut T, size: u8, be: bool, rev: bool) -> (r: Result<
    i128,
    DhError,
>)
    requires
        1 <= size <= 16,
    ensures
        varint_sign_post(old(s).sm(), size as nat, be, rev, final(s).sm(), r),
{
    let ghost m = old(s).sm();
    let res = read_varint(s, size, be, rev);
    proof {
        let gso = vux_groups(m.bytes, m.pos, read_limit(m), size as nat, be);
        if 0 <= m.pos && m.origin() <= m.pos && gso is Some {
            let gs = gso->Some_0;
            let gbn = (8 * size - 1) as nat;
            lemma_vux_groups_nonempty(m.bytes, m.pos, read_limit(m), size as nat, be);
            lemma_p2_128();
            assert(gbn * gs.len() == gs.len() * gbn) by (nonlinear_arith);
            assert(gbn * gs.len() >= 1) by (nonlinear_arith)
                requires
                    gbn >= 1,
                    gs.len() >= 1,
            ;
            if rev {
                lemma_strip_zeros_len(gs.reverse());
                lemma_digits_val_bound(strip_zeros(gs.reverse()), gbn);
                assert(gbn * strip_zeros(gs.reverse()).len() <= gbn * gs.len())
                    by (nonlinear_arith)
                    requires
                        strip_zeros(gs.reverse()).len() <= gs.len(),
                        gbn >= 1,
                ;
                lemma_p2_mono(gbn * strip_zeros(gs.reverse()).len(), gbn * gs.len());
            } else {
                lemma_digits_val_bound(gs, gbn);
            }
            assert(vux_value(gs, size as nat, rev) < p2(gbn * gs.len()));
            if gbn * gs.len() <= 127 {
                lemma_p2_mono(gbn * gs.len(), 127);
            }
        }
    }
    let p = match res {
        Ok(p) => p,
        Err(e) => {
            return Err(e);
        },
    };
    let gb = 8 * (size as u128) - 1;
    proof {
        assert(p.1 as u128 * gb <= u128::MAX) by (nonlinear_arith)
            requires
                p.1 <= usize::MAX,
                usize::MAX <= u64::MAX,
                gb <= 127,
        ;
    }
    let bits_u = (p.1 as u128) * gb;
    if bits_u > 127 {
        return Err(DhError::InvalidData);
    }
    proof {
        lemma_p2_mono(bits_u as nat, 127);
    }
    Ok(crate::signed::sign_extend(p.0, bits_u as u32))
}

/// A successful scan yields at least the terminator group.
pub proof fn lemma_vux_groups_nonempty(bytes: Seq<u8>, pos: int, hi: int, size: nat, be: bool)
    requires
        1 <= size,
    ensures
        vux_groups(bytes, pos, hi, size, be) matches Some(gs) ==> gs.len() >= 1,
    decreases hi - pos,
{
    if !(pos < 0 || pos + size > hi || hi > bytes.len()) {
        lemma_vux_groups_nonempty(bytes, pos + size, hi, size, be);
    }
}

/// Reads one most-significant-first variable-length integer from the
/// stream.
pub fn read_varint_msb<T: ReadSeek>(s: &mut T, size: u8, be: bool) -> (r: Result<u128, DhError>)
    requires
        1 <= size <= 16,
    ensures
        varint_msb_post(old(s).sm(), size as nat, be, final(s).sm(), r),
{
    let groups = match read_groups(s, size, be) {
        Ok(v) => v,
        Err(e) => {
            return Err(e);
        },
    };
    let n = groups.len();
    let mut flipped: Vec<u128> = Vec::new();
    let mut i: usize = n;
    while i > 0
        invariant
            i <= n == groups@.len(),
            flipped@.len() == n - i,
            forall|k: int| 0 <= k < n - i ==> flipped@[k] == groups@[n - 1 - k],
        decreases i,
    {
        i = i - 1;
        flipped.push(groups[i]);
    }
    proof {
        assert(flipped@.map_values(|x: u128| x as nat) =~= groups@.map_values(
            |x: u128| x as nat,
        ).reverse());
    }
    parse_vux(&flipped, size)
}

/// Reads one variable-length integer from the stream: groups are read in
/// stream order until the first without its continuation bit, then folded
/// in the requested orientation.
/// Reads one group of `size` bytes and assembles it in the chosen byte
/// order.
fn read_group<T: ReadSeek>(s: &mut T, size: u8, be: bool) -> (r: Result<u128, DhError>)
    requires
        size <= 16,
    ensures
        read_step(old(s).sm(), size as nat, final(s).sm()),
        old(s).sm().read_ok(size as nat) ==> (r matches Ok(v) && v == group_of(
            old(s).sm().read_result(size as nat),
            be,
        )),
        !old(s).sm().read_ok(size as nat) ==> r == Err::<u128, DhError>(DhError::UnexpectedEof),
{
    let buf = match s.read_bytes(size as u64) {
        Ok(b) => b,
        Err(e) => {
            return Err(e);
        },
    };
    if be {
        Ok(crate::num::be_to_u128(&buf))
    } else {
        Ok(crate::num::le_to_u128(&buf))
    }
}

pub fn read_groups<T: ReadSeek>(s: &mut T, size: u8, be: bool) -> (r: Result<Vec<u128>, DhError>)
    requires
        1 <= size <= 16,
    ensures
        ({
            let m = old(s).sm();
            let m2 = final(s).sm();
            let gso = vux_groups(m.bytes, m.pos, read_limit(m), size as nat, be);
            &&& m2.bytes == m.bytes
            &&& m2.same_frame(m)
            &&& if !(0 <= m.pos && m.origin() <= m.pos) {
                m2 == m && r == Err::<Vec<u128>, DhError>(DhError::UnexpectedEof)
            } else {
                match gso {
                    Some(gs) => {
                        &&& m2.pos == m.pos + size * gs.len()
                        &&& r matches Ok(v) && v@.map_values(|x: u128| x as nat) == gs
                    },
                    None => {
                        &&& r == Err::<Vec<u128>, DhError>(DhError::UnexpectedEof)
                        &&& m.pos <= m2.pos
                    },
                }
            }
        }),
{
    let ghost m = s.sm();
    let ghost base_s = group_base(size as nat);
    let ghost hi = read_limit(m);
    proof {
        lemma_p2_128();
        lemma_p2_mono((8 * size - 1) as nat, 127);
        lemma_p2_pos((8 * size - 1) as nat);
    }
    let base = p2_u128(8 * (size as u32) - 1);
    let mut groups: Vec<u128> = Vec::new();
    proof {
        assert(size as int * 0 == 0) by (nonlinear_arith);
    }
    loop
        invariant_except_break
            forall|j: int| 0 <= j < groups@.len() ==> #[trigger] groups@[j] >= base,
        invariant
            1 <= size <= 16,
            m == old(s).sm(),
            base == base_s == group_base(size as nat),
            hi == read_limit(m),
            2 <= base,
            s.sm().bytes == m.bytes,
            s.sm().same_frame(m),
            s.sm().pos == m.pos + size * groups@.len(),
            groups@.len() >= 1 ==> 0 <= m.pos && m.origin() <= m.pos && m.pos + size
                * groups@.len() <= hi,
            forall|j: int| 0 <= j < groups@.len() ==> #[trigger] groups@[j] as nat == group_of(
                m.bytes.subrange(m.pos + size * j, m.pos + size * j + size),
                be,
            ),
            forall|j: int|
                0 <= j < groups@.len() - 1 ==> #[trigger] groups@[j] >= base,
        ensures
            groups@.len() >= 1,
            0 <= m.pos && m.origin() <= m.pos,
            groups@[groups@.len() - 1] < base,
        decreases read_limit(m) - s.sm().pos,
    {
        let ghost k = groups@.len() as int;
        let ghost cur = s.sm();
        let g = match read_group(s, size, be) {
            Ok(g) => g,
            Err(e) => {
                proof {
                    varint_eof_case(m, size as nat, be, cur, groups@);
                }
                return Err(e);
            },
        };
        proof {
            assert(cur.read_ok(size as nat));
            if be {
                lemma_be_val_bound(cur.read_result(size as nat));
            } else {
                lemma_le_val_bound(cur.read_result(size as nat));
            }
            assert(cur.pos == m.pos + size * k);
            assert(cur.read_result(size as nat) =~= m.bytes.subrange(
                m.pos + size * k,
                m.pos + size * k + size,
            ));
            assert(size * (k + 1) == size * k + size) by (nonlinear_arith);
            if k == 0 {
                assert(size as int * 0 == 0) by (nonlinear_arith);
            }
            assert(read_limit(cur) == read_limit(m));
            assert(cur.pos + size <= read_limit(cur));
        }
        groups.push(g);
        if g < base {
            break ;
        }
    }
    let ghost gv = groups@.map_values(|x: u128| x as nat);
    proof {
        assert(gv.last() < base_s);
        assert forall|j: int| 0 <= j < gv.len() - 1 implies #[trigger] gv[j] >= group_base(
            size as nat,
        ) by {
            assert(groups@[j] >= base);
        }
        assert forall|j: int| 0 <= j < gv.len() implies #[trigger] gv[j] == group_of(
            m.bytes.subrange(m.pos + size * j, m.pos + size * j + size),
            be,
        ) by {
            assert(groups@[j] as nat == group_of(
                m.bytes.subrange(m.pos + size * j, m.pos + size * j + size),
                be,
            ));
        }
        lemma_scan_groups(m.bytes, m.pos, hi, size as nat, be, gv);
    }
    Ok(groups)
}

/// Reads one variable-length integer and the number of groups it spanned.
pub fn read_varint<T: ReadSeek>(s: &mut T, size: u8, be: bool, rev: bool) -> (r: Result<
    (u128, usize),
    DhError,
>)
    requires
        1 <= size <= 16,
    ensures
        ({
            let m = old(s).sm();
            let m2 = final(s).sm();
            let gso = vux_groups(m.bytes, m.pos, read_limit(m), size as nat, be);
            &&& m2.bytes == m.bytes
            &&& m2.same_frame(m)
            &&& if !(0 <= m.pos && m.origin() <= m.pos) {
                m2 == m && r == Err::<(u128, usize), DhError>(DhError::UnexpectedEof)
            } else {
                match gso {
                    Some(gs) => {
                        let v = vux_value(gs, size as nat, rev);
                        &&& m2.pos == m.pos + size * gs.len()
                        &&& if v < p2(128) {
                            r matches Ok(x) && x.0 == v && x.1 == gs.len()
                        } else {
                            r == Err::<(u128, usize), DhError>(DhError::InvalidData)
                        }
                    },
                    None => {
                        &&& r == Err::<(u128, usize), DhError>(DhError::UnexpectedEof)
                        &&& m.pos <= m2.pos
                    },
                }
            }
        }),
{
    let groups = match read_groups(s, size, be) {
        Ok(v) => v,
        Err(e) => {
            return Err(e);
        },
    };
    let count = groups.len();
    let folded = if rev {
        parse_vuxr(&groups, size)
    } else {
        parse_vux(&groups, size)
    };
    match folded {
        Ok(v) => Ok((v, count)),
        Err(e) => Err(e),
    }
}

/// When a group read fails, the scan from the starting position fails too,
/// or the position was never addressable.
proof fn varint_eof_case(m: StreamModel, size: nat, be: bool, cur: StreamModel, gvu: Seq<u128>)
    requires
        1 <= size <= 16,
        !cur.read_ok(size),
        cur.bytes == m.bytes,
        cur.same_frame(m),
        cur.pos == m.pos + size * gvu.len(),
        gvu.len() >= 1 ==> 0 <= m.pos && m.origin() <= m.pos && m.pos + size * gvu.len()
            <= read_limit(m),
        forall|j: int| 0 <= j < gvu.len() ==> #[trigger] gvu[j] as nat == group_of(
            m.bytes.subrange(m.pos + size * j, m.pos + size * j + size),
            be,
        ),
        forall|j: int| 0 <= j < gvu.len() ==> #[trigger] gvu[j] >= group_base(size),
    ensures
        !(0 <= m.pos && m.origin() <= m.pos) || vux_groups(
            m.bytes,
            m.pos,
            read_limit(m),
            size,
            be,
        ) is None,
        m.pos <= cur.pos,
{
    assert(size * gvu.len() >= 0) by (nonlinear_arith)
        requires
            size >= 1,
            gvu.len() >= 0,
    ;
    if 0 <= m.pos && m.origin() <= m.pos {
        let hi = read_limit(m);
        let gv = gvu.map_values(|x: u128| x as nat);
        assert forall|j: int| 0 <= j < gv.len() implies #[trigger] gv[j] == group_of(
            m.bytes.subrange(m.pos + size * j, m.pos + size * j + size),
            be,
        ) && gv[j] >= group_base(size) by {
            assert(gvu[j] as nat == group_of(
                m.bytes.subrange(m.pos + size * j, m.pos + size * j + size),
                be,
            ));
            assert(gvu[j] >= group_base(size));
        }
        if gv.len() == 0 {
            assert(size * 0 == 0) by (nonlinear_arith);
            assert(cur.pos == m.pos);
            assert(cur.pos + size > hi);
            assert(vux_groups(m.bytes, m.pos, hi, size, be) is None);
        } else {
            assert(cur.pos + size > hi);
            lemma_scan_eof(m.bytes, m.pos, hi, size, be, gv);
        }
    }
}

/// What writing a variable-length integer does: the wire bytes of `num` in
/// the given orientation are written as one block.
pub fn write_varint<T: WriteSeek>(s: &mut T, size: u8, num: u128, be: bool, rev: bool) -> (r: Result<
    (),
    DhError,
>)
    requires
        1 <= size <= 16,
    ensures
        crate::write::write_post(
            old(s).sm(),
            vux_bytes(size as nat, num as nat, be, rev),
            final(s).sm(),
            r,
        ),
{
    let buf = serialize_vuxle(size, num, be, rev);
    s.write_bytes(buf.as_slice())
}

} // verus!
