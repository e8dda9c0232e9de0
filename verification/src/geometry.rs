//! Rectangles on the screen and the arithmetic that cuts a length into slots.

use vstd::prelude::*;

verus! {

/// Identifier that the display server gives to a top-level window.
pub type Window = u32;

/// Smallest width or height, in pixels, that a tiled window is ever given.
pub const MIN_WINDOW_SIZE: u16 = 50;

/// A rectangle in screen coordinates.
#[derive(Clone, Copy, Debug, PartialEq, Eq, Structural)]
pub struct Rect {
    pub x: i16,
    pub y: i16,
    pub width: u16,
    pub height: u16,
}

/// Quotient of `a` by a positive `b`, rounded towards zero.
pub open spec fn trunc_div(a: int, b: int) -> int {
    if a >= 0 {
        a / b
    } else {
        -((-a) / b)
    }
}

/// The coordinate nearest to `v` that a rectangle can hold.
pub open spec fn clamp_coord(v: int) -> i16 {
    if v < i16::MIN {
        i16::MIN
    } else if v > i16::MAX {
        i16::MAX
    } else {
        v as i16
    }
}

/// The extent that a window gets for a computed extent `v`: never less than
/// [`MIN_WINDOW_SIZE`], never more than a rectangle can hold.
pub open spec fn clamp_extent(v: int) -> u16 {
    if v < MIN_WINDOW_SIZE {
        MIN_WINDOW_SIZE
    } else if v > u16::MAX {
        u16::MAX
    } else {
        v as u16
    }
}

/// Length of each of `k` equal slots cut from `total` with `gap` between
/// neighbours. The gaps are taken out of `total`; the division rounds towards
/// zero, so the value is negative where the gaps alone exceed `total`.
pub open spec fn slot_share(total: int, gap: int, k: int) -> int {
    trunc_div(total - gap * (k - 1), k)
}

/// Distance from the start of `total` to the start of slot `i`.
pub open spec fn slot_offset(total: int, gap: int, k: int, i: int) -> int {
    i * (slot_share(total, gap, k) + gap)
}

/// Length of slot `i`: the share, but the last slot runs to the end of
/// `total` and so takes up what the division left over.
pub open spec fn slot_extent(total: int, gap: int, k: int, i: int) -> int {
    if i == k - 1 {
        total - slot_offset(total, gap, k, i)
    } else {
        slot_share(total, gap, k)
    }
}

/// Sum of the lengths of the first `m` slots.
pub open spec fn slot_extent_sum(total: int, gap: int, k: int, m: int) -> int
    decreases m,
{
    if m <= 0 {
        0
    } else {
        slot_extent_sum(total, gap, k, m - 1) + slot_extent(total, gap, k, m - 1)
    }
}

proof fn lemma_div_bound(x: int, k: int, g: int, c: int)
    by (nonlinear_arith)
    requires
        k >= 1,
        g >= 0,
        c >= 0,
        0 <= x <= g * k + c,
    ensures
        0 <= x / k <= g + c,
        (x / k) * k <= x,
{
}

proof fn lemma_mul_bound(i: int, k: int, s: int, b: int)
    by (nonlinear_arith)
    requires
        0 <= i < k,
        -b <= s <= b,
    ensures
        -(b * k) <= i * s <= b * k,
{
}

/// The share stays within the gap plus the largest length a side can have.
pub proof fn lemma_slot_share_bound(total: int, gap: int, k: int)
    requires
        k >= 1,
        0 <= gap <= i16::MAX,
        -65534 <= total <= 65535,
    ensures
        -(gap + 65534) <= slot_share(total, gap, k) <= 65535,
{
    let num = total - gap * (k - 1);
    assert(gap * (k - 1) >= 0 && gap * (k - 1) <= gap * k) by (nonlinear_arith)
        requires
            k >= 1,
            gap >= 0,
    ;
    if num >= 0 {
        lemma_div_bound(num, k, 0, 65535);
    } else {
        lemma_div_bound(-num, k, gap, 65534);
    }
}

/// The slots and the gaps between them fill `total` exactly.
pub proof fn lemma_slots_fill(total: int, gap: int, k: int)
    requires
        k >= 1,
    ensures
        slot_extent_sum(total, gap, k, k) + gap * (k - 1) == total,
{
    lemma_slot_prefix(total, gap, k, k - 1);
    let s = slot_share(total, gap, k);
    assert((k - 1) * (s + gap) == (k - 1) * s + gap * (k - 1)) by (nonlinear_arith);
}

proof fn lemma_slot_prefix(total: int, gap: int, k: int, m: int)
    requires
        k >= 1,
        0 <= m < k,
    ensures
        slot_extent_sum(total, gap, k, m) == m * slot_share(total, gap, k),
    decreases m,
{
    let s = slot_share(total, gap, k);
    if m > 0 {
        lemma_slot_prefix(total, gap, k, m - 1);
        assert((m - 1) * s + s == m * s) by (nonlinear_arith);
    } else {
        assert(0 * s == 0) by (nonlinear_arith);
    }
}

/// Start and length of slot `i` of `k`, as [`slot_offset`] and [`slot_extent`]
/// define them.
pub fn slot(total: i32, gap: i16, k: usize, i: usize) -> (r: (i128, i128))
    requires
        gap >= 0,
        i < k,
        -65534 <= total <= 65535,
    ensures
        r.0 == slot_offset(total as int, gap as int, k as int, i as int),
        r.1 == slot_extent(total as int, gap as int, k as int, i as int),
        -(131070 * k) <= r.0 <= 131070 * k,
{
    let kk: i128 = k as i128;
    let ii: i128 = i as i128;
    let g: i128 = gap as i128;
    proof {
        assert(0 <= g * (kk - 1) <= 32767 * kk) by (nonlinear_arith)
            requires
                0 <= g <= 32767,
                kk >= 1,
        ;
        lemma_slot_share_bound(total as int, gap as int, k as int);
    }
    let num: i128 = total as i128 - g * (kk - 1);
    let share: i128 = num / kk;
    assert(share == slot_share(total as int, gap as int, k as int));
    let step: i128 = share + g;
    proof {
        lemma_mul_bound(ii as int, kk as int, step as int, 131070);
    }
    let off: i128 = ii * step;
    let ext: i128 = if i == k - 1 {
        total as i128 - off
    } else {
        share
    };
    (off, ext)
}

/// Brings a computed coordinate into the range of a rectangle's fields.
pub fn to_coord(v: i128) -> (r: i16)
    ensures
        r == clamp_coord(v as int),
{
    if v < -32768 {
        -32768
    } else if v > 32767 {
        32767
    } else {
        v as i16
    }
}

/// Brings a computed extent into the range allowed for a window's side.
pub fn to_extent(v: i128) -> (r: u16)
    ensures
        r == clamp_extent(v as int),
        r >= MIN_WINDOW_SIZE,
{
    if v < 50 {
        50
    } else if v > 65535 {
        65535
    } else {
        v as u16
    }
}

} // verus!
