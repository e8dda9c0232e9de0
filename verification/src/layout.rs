//! The layout engine: from an ordered list of windows, the screen rectangle
//! and a workspace's layout parameters to one rectangle per window.
//!
//! The engine keeps no state and sends nothing. All lengths are computed over
//! the integers and brought into a rectangle's range only at the end, so no
//! input makes it overflow.

use vstd::prelude::*;
use crate::alerts::{restack_commands, Alert};
use crate::commands::{extend, Command};
use crate::wm::{Step, WindowManager};
use crate::workspaces::WorkspaceView;
use crate::geometry::{
    clamp_coord, clamp_extent, lemma_slots_fill, slot, slot_extent, slot_extent_sum, slot_offset,
    to_coord, to_extent, trunc_div, Rect, Window, MIN_WINDOW_SIZE,
};

verus! {

/// Smallest share of the padded width, in percent, that the master column can have.
pub const MIN_MASTER_RATIO: u8 = 5;

/// Largest share of the padded width, in percent, that the master column can have.
pub const MAX_MASTER_RATIO: u8 = 95;

/// The policy by which a workspace arranges its windows.
#[derive(Clone, Copy, Debug, PartialEq, Eq, Structural)]
pub enum LayoutType {
    MasterStack,
    Monocle,
    Floating,
    Grid,
}

impl LayoutType {
    /// The policy that follows `self` when the user cycles through them.
    pub open spec fn spec_next(self) -> LayoutType {
        match self {
            LayoutType::MasterStack => LayoutType::Monocle,
            LayoutType::Monocle => LayoutType::Grid,
            LayoutType::Grid => LayoutType::Floating,
            LayoutType::Floating => LayoutType::MasterStack,
        }
    }

    /// The policy that follows `self` when the user cycles through them.
    #[verifier::when_used_as_spec(spec_next)]
    pub fn next(self) -> (r: LayoutType)
        ensures
            r == self.spec_next(),
    {
        match self {
            LayoutType::MasterStack => LayoutType::Monocle,
            LayoutType::Monocle => LayoutType::Grid,
            LayoutType::Grid => LayoutType::Floating,
            LayoutType::Floating => LayoutType::MasterStack,
        }
    }
}

/// Layout parameters of one workspace.
#[derive(Clone, Copy, Debug, PartialEq, Eq, Structural)]
pub struct LayoutConfig {
    pub current: LayoutType,
    /// Share of the padded width that the master column takes, in percent.
    pub master_ratio: u8,
    /// Number of windows in the master column.
    pub nmaster: usize,
    /// Pixels left free between neighbouring windows and between the columns.
    pub gap_size: i16,
    /// Pixels left free along each edge of the screen.
    pub screen_padding: i16,
}

impl Default for LayoutConfig {
    fn default() -> (c: Self)
        ensures
            c == (LayoutConfig {
                current: LayoutType::MasterStack,
                master_ratio: 50,
                nmaster: 1,
                gap_size: 10,
                screen_padding: 10,
            }),
            c.wf(),
    {
        LayoutConfig {
            current: LayoutType::MasterStack,
            master_ratio: 50,
            nmaster: 1,
            gap_size: 10,
            screen_padding: 10,
        }
    }
}

/// `v` brought into the range from `lo` to `hi`.
pub open spec fn clamp_int(v: int, lo: int, hi: int) -> int {
    if v < lo {
        lo
    } else if v > hi {
        hi
    } else {
        v
    }
}

impl LayoutConfig {
    /// The parameters are in their ranges: the ratio between
    /// [`MIN_MASTER_RATIO`] and [`MAX_MASTER_RATIO`], at least one master
    /// window, no negative gap or padding.
    pub open spec fn wf(&self) -> bool {
        &&& MIN_MASTER_RATIO <= self.master_ratio <= MAX_MASTER_RATIO
        &&& self.nmaster >= 1
        &&& self.gap_size >= 0
        &&& self.screen_padding >= 0
    }

    /// Moves on to the next layout policy.
    pub fn next_layout(&mut self)
        ensures
            *final(self) == (LayoutConfig { current: old(self).current.spec_next(), ..*old(self) }),
    {
        self.current = self.current.next();
    }

    /// Changes the master ratio by `delta` percent and keeps it in its range.
    pub fn adjust_master_ratio(&mut self, delta: i8)
        ensures
            *final(self) == (LayoutConfig {
                master_ratio: clamp_int(
                    old(self).master_ratio + delta,
                    MIN_MASTER_RATIO as int,
                    MAX_MASTER_RATIO as int,
                ) as u8,
                ..*old(self)
            }),
    {
        let v: i16 = self.master_ratio as i16 + delta as i16;
        self.master_ratio = if v < 5 {
            5
        } else if v > 95 {
            95
        } else {
            v as u8
        };
    }

    /// Changes the number of master windows by `delta`; it stays at least 1
    /// and within `usize`.
    pub fn adjust_nmaster(&mut self, delta: i8)
        ensures
            *final(self) == (LayoutConfig {
                nmaster: clamp_int(old(self).nmaster + delta, 1, usize::MAX as int) as usize,
                ..*old(self)
            }),
    {
        let v: i128 = self.nmaster as i128 + delta as i128;
        self.nmaster = if v < 1 {
            1
        } else if v > usize::MAX as i128 {
            usize::MAX
        } else {
            v as usize
        };
    }

    /// Changes the gap by `delta` pixels; it stays between 0 and the largest
    /// value the field holds.
    pub fn adjust_gap(&mut self, delta: i16)
        ensures
            *final(self) == (LayoutConfig {
                gap_size: clamp_int(old(self).gap_size + delta, 0, i16::MAX as int) as i16,
                ..*old(self)
            }),
    {
        let v: i32 = self.gap_size as i32 + delta as i32;
        self.gap_size = if v < 0 {
            0
        } else if v > 32767 {
            32767
        } else {
            v as i16
        };
    }
}

/// A window and the rectangle that the layout gives it.
#[derive(Clone, Copy, Debug, PartialEq, Eq, Structural)]
pub struct Placement {
    pub window: Window,
    pub rect: Rect,
}

/// Left edge of the area inside the screen padding.
pub open spec fn padded_x(area: Rect, c: LayoutConfig) -> int {
    area.x + c.screen_padding
}

/// Top edge of the area inside the screen padding.
pub open spec fn padded_y(area: Rect, c: LayoutConfig) -> int {
    area.y + c.screen_padding
}

/// Width of the area inside the screen padding; negative where the padding
/// exceeds the screen.
pub open spec fn padded_width(area: Rect, c: LayoutConfig) -> int {
    area.width - 2 * c.screen_padding
}

/// Height of the area inside the screen padding.
pub open spec fn padded_height(area: Rect, c: LayoutConfig) -> int {
    area.height - 2 * c.screen_padding
}

/// Number of windows in the master column when `n` windows are tiled.
pub open spec fn master_count(c: LayoutConfig, n: int) -> int {
    if c.nmaster <= n {
        c.nmaster as int
    } else {
        n
    }
}

/// Width of the master column before it is held to the minimum: the ratio's
/// share of the padded width less the gap, or the whole padded width where
/// no window is left for the stack.
pub open spec fn master_width(area: Rect, c: LayoutConfig, n: int) -> int {
    if n > master_count(c, n) {
        trunc_div(padded_width(area, c) * c.master_ratio, 100) - c.gap_size
    } else {
        padded_width(area, c)
    }
}

/// Width of the stack column before it is held to the minimum: what the
/// master column and the gap leave, or 0 where there is no stack.
pub open spec fn stack_width(area: Rect, c: LayoutConfig, n: int) -> int {
    if n > master_count(c, n) {
        padded_width(area, c) - master_width(area, c, n) - c.gap_size
    } else {
        0
    }
}

/// Height of window `i` of `n` under master-stack before it is held to the
/// minimum.
pub open spec fn master_stack_height(area: Rect, c: LayoutConfig, n: int, i: int) -> int {
    let m = master_count(c, n);
    if i < m {
        slot_extent(padded_height(area, c), c.gap_size as int, m, i)
    } else {
        slot_extent(padded_height(area, c), c.gap_size as int, n - m, i - m)
    }
}

/// Rectangle of window `i` of `n` under master-stack: the first
/// [`master_count`] windows share the left column from top to bottom, the
/// others the right column.
pub open spec fn master_stack_rect(area: Rect, c: LayoutConfig, n: int, i: int) -> Rect {
    let m = master_count(c, n);
    let ph = padded_height(area, c);
    let g = c.gap_size as int;
    if i < m {
        Rect {
            x: clamp_coord(padded_x(area, c)),
            y: clamp_coord(padded_y(area, c) + slot_offset(ph, g, m, i)),
            width: clamp_extent(master_width(area, c, n)),
            height: clamp_extent(master_stack_height(area, c, n, i)),
        }
    } else {
        Rect {
            x: clamp_coord(padded_x(area, c) + master_width(area, c, n) + g),
            y: clamp_coord(padded_y(area, c) + slot_offset(ph, g, n - m, i - m)),
            width: clamp_extent(stack_width(area, c, n)),
            height: clamp_extent(master_stack_height(area, c, n, i)),
        }
    }
}

/// Rectangle of every window under monocle: the whole padded area.
pub open spec fn monocle_rect(area: Rect, c: LayoutConfig) -> Rect {
    Rect {
        x: clamp_coord(padded_x(area, c)),
        y: clamp_coord(padded_y(area, c)),
        width: clamp_extent(padded_width(area, c)),
        height: clamp_extent(padded_height(area, c)),
    }
}

/// `c` is the least number whose square is at least `n`.
pub open spec fn is_ceil_sqrt(n: int, c: int) -> bool {
    &&& c >= 0
    &&& c * c >= n
    &&& (c == 0 || (c - 1) * (c - 1) < n)
}

/// Number of columns of the grid for `n` windows: the square root of `n`,
/// rounded up.
pub open spec fn grid_cols(n: int) -> int {
    choose|c: int| is_ceil_sqrt(n, c)
}

/// Number of rows of the grid for `n` windows: `n` over the number of
/// columns, rounded up.
pub open spec fn grid_rows(n: int) -> int {
    (n + grid_cols(n) - 1) / grid_cols(n)
}

/// Rectangle of window `i` of `n` under grid: the cells are filled row by
/// row, and both axes are cut as a column of master-stack is.
pub open spec fn grid_rect(area: Rect, c: LayoutConfig, n: int, i: int) -> Rect {
    let cols = grid_cols(n);
    let rows = grid_rows(n);
    let g = c.gap_size as int;
    let pw = padded_width(area, c);
    let ph = padded_height(area, c);
    Rect {
        x: clamp_coord(padded_x(area, c) + slot_offset(pw, g, cols, i % cols)),
        y: clamp_coord(padded_y(area, c) + slot_offset(ph, g, rows, i / cols)),
        width: clamp_extent(slot_extent(pw, g, cols, i % cols)),
        height: clamp_extent(slot_extent(ph, g, rows, i / cols)),
    }
}

/// Rectangle of window `i` of `n` under the tiling policy `c.current`.
pub open spec fn layout_rect(area: Rect, c: LayoutConfig, n: int, i: int) -> Rect {
    match c.current {
        LayoutType::MasterStack => master_stack_rect(area, c, n, i),
        LayoutType::Grid => grid_rect(area, c, n, i),
        _ => monocle_rect(area, c),
    }
}

/// The placements of master-stack for `windows`, in their order.
pub open spec fn master_stack_placements(windows: Seq<Window>, area: Rect, c: LayoutConfig) -> Seq<
    Placement,
> {
    Seq::new(
        windows.len(),
        |i: int|
            Placement { window: windows[i], rect: master_stack_rect(area, c, windows.len() as int, i) },
    )
}

/// The placements of monocle for `windows`, in their order.
pub open spec fn monocle_placements(windows: Seq<Window>, area: Rect, c: LayoutConfig) -> Seq<
    Placement,
> {
    Seq::new(windows.len(), |i: int| Placement { window: windows[i], rect: monocle_rect(area, c) })
}

/// The placements of grid for `windows`, in their order.
pub open spec fn grid_placements(windows: Seq<Window>, area: Rect, c: LayoutConfig) -> Seq<
    Placement,
> {
    Seq::new(
        windows.len(),
        |i: int| Placement { window: windows[i], rect: grid_rect(area, c, windows.len() as int, i) },
    )
}

/// What the engine answers for `windows`: under a tiling policy one placement
/// per window, in the order given; under floating none, as floating windows
/// keep the rectangle they have.
pub open spec fn placements(windows: Seq<Window>, area: Rect, c: LayoutConfig) -> Seq<Placement> {
    match c.current {
        LayoutType::MasterStack => master_stack_placements(windows, area, c),
        LayoutType::Monocle => monocle_placements(windows, area, c),
        LayoutType::Grid => grid_placements(windows, area, c),
        LayoutType::Floating => Seq::empty(),
    }
}

/// Any number that meets [`is_ceil_sqrt`] is the number of grid columns.
pub proof fn lemma_grid_cols_unique(n: int, c: int)
    requires
        n >= 0,
        is_ceil_sqrt(n, c),
    ensures
        grid_cols(n) == c,
{
    let d = grid_cols(n);
    assert(is_ceil_sqrt(n, d));
    assert(d == c) by (nonlinear_arith)
        requires
            c >= 0,
            d >= 0,
            c * c >= n,
            d * d >= n,
            c == 0 || (c - 1) * (c - 1) < n,
            d == 0 || (d - 1) * (d - 1) < n,
            n >= 0,
    ;
}

/// The grid has room for every window, and no row is empty.
pub proof fn lemma_grid_shape(n: int)
    requires
        n >= 1,
    ensures
        1 <= grid_cols(n) <= n,
        1 <= grid_rows(n) <= n,
        grid_cols(n) * grid_rows(n) >= n,
        grid_cols(n) * (grid_rows(n) - 1) < n,
{
    lemma_ceil_sqrt_exists(n);
    let c = grid_cols(n);
    assert(is_ceil_sqrt(n, c));
    assert(1 <= c <= n) by (nonlinear_arith)
        requires
            n >= 1,
            c >= 0,
            c * c >= n,
            c == 0 || (c - 1) * (c - 1) < n,
    ;
    let r = (n + c - 1) / c;
    assert(1 <= r <= n && c * r >= n && c * (r - 1) < n) by (nonlinear_arith)
        requires
            n >= 1,
            1 <= c <= n,
            r == (n + c - 1) / c,
    ;
}

proof fn lemma_ceil_sqrt_exists(n: int)
    requires
        n >= 0,
    ensures
        exists|c: int| is_ceil_sqrt(n, c),
    decreases n,
{
    if n == 0 {
        assert(is_ceil_sqrt(0, 0));
    } else {
        let p = n - 1;
        lemma_ceil_sqrt_exists(p);
        let c = choose|c: int| is_ceil_sqrt(p, c);
        if c * c >= n {
            assert(is_ceil_sqrt(n, c)) by (nonlinear_arith)
                requires
                    is_ceil_sqrt(p, c),
                    p == n - 1,
                    c * c >= n,
                    n >= 1,
            ;
        } else {
            assert(is_ceil_sqrt(n, c + 1)) by (nonlinear_arith)
                requires
                    is_ceil_sqrt(p, c),
                    p == n - 1,
                    c * c < n,
                    n >= 1,
            ;
        }
    }
}

fn square(c: usize) -> (r: u128)
    ensures
        r == c * c,
{
    assert(0 <= c * c <= 0xffff_ffff_ffff_ffff * 0xffff_ffff_ffff_ffff) by (nonlinear_arith)
        requires
            0 <= c <= 0xffff_ffff_ffff_ffff,
    ;
    (c as u128) * (c as u128)
}

/// Number of grid columns for `n` windows.
pub fn ceil_sqrt(n: usize) -> (c: usize)
    ensures
        c == grid_cols(n as int),
        is_ceil_sqrt(n as int, c as int),
{
    let mut c: usize = 0;
    while square(c) < n as u128
        invariant
            c == 0 || (c - 1) * (c - 1) < n,
            c <= n,
        decreases n - c,
    {
        proof {
            assert(c < n) by (nonlinear_arith)
                requires
                    c * c < n,
                    c <= n,
            ;
        }
        c = c + 1;
    }
    proof {
        lemma_grid_cols_unique(n as int, c as int);
    }
    c
}

/// The rectangles of the master-stack layout, one per window, in the order of
/// `windows`.
pub fn master_stack(windows: &Vec<Window>, area: Rect, config: &LayoutConfig) -> (out: Vec<Placement>)
    requires
        config.wf(),
    ensures
        out@ == master_stack_placements(windows@, area, *config),
{
    let n = windows.len();
    let gap = config.gap_size;
    let pad: i32 = config.screen_padding as i32;
    let px: i128 = area.x as i128 + pad as i128;
    let py: i128 = area.y as i128 + pad as i128;
    let pw: i32 = area.width as i32 - 2 * pad;
    let ph: i32 = area.height as i32 - 2 * pad;
    let m: usize = if config.nmaster <= n {
        config.nmaster
    } else {
        n
    };
    assert(-65534 * 95 <= pw * config.master_ratio <= 65535 * 95) by (nonlinear_arith)
        requires
            -65534 <= pw <= 65535,
            0 <= config.master_ratio <= 95,
    ;
    let master_w: i32 = if n > m {
        pw * (config.master_ratio as i32) / 100 - gap as i32
    } else {
        pw
    };
    let stack_w: i32 = if n > m {
        pw - master_w - gap as i32
    } else {
        0
    };
    let mut out: Vec<Placement> = Vec::new();
    let mut i: usize = 0;
    while i < n
        invariant
            config.wf(),
            n == windows@.len(),
            i <= n,
            gap == config.gap_size,
            px == padded_x(area, *config),
            py == padded_y(area, *config),
            pw == padded_width(area, *config),
            ph == padded_height(area, *config),
            m == master_count(*config, n as int),
            1 <= m || n == 0,
            master_w == master_width(area, *config, n as int),
            stack_w == stack_width(area, *config, n as int),
            out@ == Seq::new(
                i as nat,
                |j: int|
                    Placement {
                        window: windows@[j],
                        rect: master_stack_rect(area, *config, n as int, j),
                    },
            ),
        decreases n - i,
    {
        let rect = if i < m {
            let (off, ext) = slot(ph, gap, m, i);
            Rect {
                x: to_coord(px),
                y: to_coord(py + off),
                width: to_extent(master_w as i128),
                height: to_extent(ext),
            }
        } else {
            let (off, ext) = slot(ph, gap, n - m, i - m);
            Rect {
                x: to_coord(px + master_w as i128 + gap as i128),
                y: to_coord(py + off),
                width: to_extent(stack_w as i128),
                height: to_extent(ext),
            }
        };
        out.push(Placement { window: windows[i], rect });
        i = i + 1;
    }
    out
}

/// The rectangles of the monocle layout: the padded area for every window.
pub fn monocle(windows: &Vec<Window>, area: Rect, config: &LayoutConfig) -> (out: Vec<Placement>)
    requires
        config.wf(),
    ensures
        out@ == monocle_placements(windows@, area, *config),
{
    let n = windows.len();
    let pad: i32 = config.screen_padding as i32;
    let rect = Rect {
        x: to_coord(area.x as i128 + pad as i128),
        y: to_coord(area.y as i128 + pad as i128),
        width: to_extent((area.width as i32 - 2 * pad) as i128),
        height: to_extent((area.height as i32 - 2 * pad) as i128),
    };
    let mut out: Vec<Placement> = Vec::new();
    let mut i: usize = 0;
    while i < n
        invariant
            n == windows@.len(),
            i <= n,
            rect == monocle_rect(area, *config),
            out@ == Seq::new(
                i as nat,
                |j: int| Placement { window: windows@[j], rect: monocle_rect(area, *config) },
            ),
        decreases n - i,
    {
        out.push(Placement { window: windows[i], rect });
        i = i + 1;
    }
    out
}

/// The rectangles of the grid layout, one per window, in the order of
/// `windows`.
pub fn grid(windows: &Vec<Window>, area: Rect, config: &LayoutConfig) -> (out: Vec<Placement>)
    requires
        config.wf(),
    ensures
        out@ == grid_placements(windows@, area, *config),
{
    let n = windows.len();
    let mut out: Vec<Placement> = Vec::new();
    if n == 0 {
        return out;
    }
    let gap = config.gap_size;
    let pad: i32 = config.screen_padding as i32;
    let px: i128 = area.x as i128 + pad as i128;
    let py: i128 = area.y as i128 + pad as i128;
    let pw: i32 = area.width as i32 - 2 * pad;
    let ph: i32 = area.height as i32 - 2 * pad;
    let cols = ceil_sqrt(n);
    proof {
        lemma_grid_shape(n as int);
    }
    let rows: usize = (n - 1) / cols + 1;
    assert(rows == grid_rows(n as int)) by (nonlinear_arith)
        requires
            rows == (n - 1) / (cols as int) + 1,
            cols >= 1,
            n >= 1,
            grid_rows(n as int) == (n + cols - 1) / (cols as int),
    ;
    let mut i: usize = 0;
    while i < n
        invariant
            config.wf(),
            n == windows@.len(),
            n >= 1,
            i <= n,
            gap == config.gap_size,
            px == padded_x(area, *config),
            py == padded_y(area, *config),
            pw == padded_width(area, *config),
            ph == padded_height(area, *config),
            cols == grid_cols(n as int),
            rows == grid_rows(n as int),
            cols >= 1,
            cols * (rows - 1) < n,
            cols * rows >= n,
            out@ == Seq::new(
                i as nat,
                |j: int| Placement { window: windows@[j], rect: grid_rect(area, *config, n as int, j) },
            ),
        decreases n - i,
    {
        let col: usize = i % cols;
        let row: usize = i / cols;
        assert(row < rows) by (nonlinear_arith)
            requires
                row == i / cols,
                i < n,
                cols >= 1,
                cols * rows >= n,
        ;
        let (xo, w) = slot(pw, gap, cols, col);
        let (yo, h) = slot(ph, gap, rows, row);
        let rect = Rect {
            x: to_coord(px + xo),
            y: to_coord(py + yo),
            width: to_extent(w),
            height: to_extent(h),
        };
        out.push(Placement { window: windows[i], rect });
        i = i + 1;
    }
    out
}

/// Computes the rectangle of each window in `windows` on the screen `area`
/// under the parameters `config`. The answer depends on nothing else.
pub fn compute(windows: &Vec<Window>, area: Rect, config: &LayoutConfig) -> (out: Vec<Placement>)
    requires
        config.wf(),
    ensures
        out@ == placements(windows@, area, *config),
        forall|i: int|
            0 <= i < out@.len() ==> (#[trigger] out@[i]).rect.width >= MIN_WINDOW_SIZE
                && out@[i].rect.height >= MIN_WINDOW_SIZE,
{
    match config.current {
        LayoutType::MasterStack => master_stack(windows, area, config),
        LayoutType::Monocle => monocle(windows, area, config),
        LayoutType::Grid => grid(windows, area, config),
        LayoutType::Floating => Vec::new(),
    }
}

/// No side of `r` was raised to the minimum or cut to the range: `w` and `h`
/// are the sides as computed.
pub open spec fn sides_as_computed(r: Rect, w: int, h: int) -> bool {
    r.width == w && r.height == h
}

/// Sum of the heights of windows `lo` up to, not including, `hi` under
/// master-stack.
pub open spec fn master_stack_heights(area: Rect, c: LayoutConfig, n: int, lo: int, hi: int) -> int
    decreases hi - lo,
{
    if hi <= lo {
        0
    } else {
        master_stack_heights(area, c, n, lo, hi - 1) + master_stack_rect(
            area,
            c,
            n,
            hi - 1,
        ).height
    }
}

/// Every rectangle that the engine hands out is at least
/// [`MIN_WINDOW_SIZE`] wide and high.
pub proof fn lemma_min_size(area: Rect, c: LayoutConfig, n: int, i: int)
    ensures
        layout_rect(area, c, n, i).width >= MIN_WINDOW_SIZE,
        layout_rect(area, c, n, i).height >= MIN_WINDOW_SIZE,
{
}

/// Master-stack uses the padded area up. Where no side had to be raised to
/// the minimum or cut to the range, the widths of the two columns and the gap
/// between them add up to the padded width (the master column alone has the
/// whole width where there is no stack), and in each column the heights and
/// the gaps between the windows add up to the padded height.
pub proof fn lemma_master_stack_fills_area(area: Rect, c: LayoutConfig, n: int)
    requires
        c.wf(),
        n >= 1,
        forall|i: int|
            0 <= i < n ==> sides_as_computed(
                #[trigger] master_stack_rect(area, c, n, i),
                if i < master_count(c, n) {
                    master_width(area, c, n)
                } else {
                    stack_width(area, c, n)
                },
                master_stack_height(area, c, n, i),
            ),
    ensures
        n > master_count(c, n) ==> master_stack_rect(area, c, n, 0).width + c.gap_size
            + master_stack_rect(area, c, n, master_count(c, n)).width == padded_width(area, c),
        n <= master_count(c, n) ==> master_stack_rect(area, c, n, 0).width == padded_width(area, c),
        master_stack_heights(area, c, n, 0, master_count(c, n)) + c.gap_size * (master_count(c, n)
            - 1) == padded_height(area, c),
        n > master_count(c, n) ==> master_stack_heights(area, c, n, master_count(c, n), n)
            + c.gap_size * (n - master_count(c, n) - 1) == padded_height(area, c),
{
    let m = master_count(c, n);
    let ph = padded_height(area, c);
    let g = c.gap_size as int;
    assert(sides_as_computed(
        master_stack_rect(area, c, n, 0),
        master_width(area, c, n),
        master_stack_height(area, c, n, 0),
    ));
    lemma_heights_are_slots(area, c, n, 0, m);
    lemma_slots_fill(ph, g, m);
    if n > m {
        assert(sides_as_computed(
            master_stack_rect(area, c, n, m),
            stack_width(area, c, n),
            master_stack_height(area, c, n, m),
        ));
        lemma_heights_are_slots(area, c, n, m, n);
        lemma_slots_fill(ph, g, n - m);
    }
}

proof fn lemma_heights_are_slots(area: Rect, c: LayoutConfig, n: int, lo: int, hi: int)
    requires
        c.wf(),
        n >= 1,
        lo == 0 || lo == master_count(c, n),
        lo == 0 ==> hi <= master_count(c, n),
        lo <= hi <= n,
        forall|i: int|
            0 <= i < n ==> (#[trigger] master_stack_rect(area, c, n, i)).height
                == master_stack_height(area, c, n, i),
    ensures
        master_stack_heights(area, c, n, lo, hi) == slot_extent_sum(
            padded_height(area, c),
            c.gap_size as int,
            if lo == 0 {
                master_count(c, n)
            } else {
                n - master_count(c, n)
            },
            hi - lo,
        ),
    decreases hi - lo,
{
    if hi > lo {
        lemma_heights_are_slots(area, c, n, lo, hi - 1);
        assert(master_stack_rect(area, c, n, hi - 1).height == master_stack_height(
            area,
            c,
            n,
            hi - 1,
        ));
    }
}

/// The commands that put each window of `ps` at its rectangle, in the order
/// of `ps`.
pub open spec fn move_commands(ps: Seq<Placement>) -> Seq<Command> {
    Seq::new(ps.len(), |i: int| Command::MoveResize { window: ps[i].window, rect: ps[i].rect })
}

/// The command that raises the focused window of `ws`, if it has one.
pub open spec fn raise_focused(ws: WorkspaceView) -> Seq<Command> {
    match ws.focused {
        Some(w) => seq![Command::Raise { window: w }],
        None => Seq::empty(),
    }
}

/// The commands that arrange the tiled windows of `ws` on `area` under its
/// policy. Monocle raises the focused window on top of the others; floating
/// moves nothing.
pub open spec fn tiling_commands(ws: WorkspaceView, area: Rect) -> Seq<Command> {
    match ws.layout.current {
        LayoutType::Monocle => move_commands(ws.placements(area)) + raise_focused(ws),
        _ => move_commands(ws.placements(area)),
    }
}

/// The commands of one layout recompute of `ws`: nothing for an empty
/// workspace, else the windows arranged, the overlays raised above them, and
/// a flush.
pub open spec fn layout_commands(ws: WorkspaceView, area: Rect, alerts: Seq<Alert>) -> Seq<Command> {
    if ws.windows.len() == 0 {
        Seq::empty()
    } else {
        tiling_commands(ws, area) + restack_commands(alerts).push(Command::Flush)
    }
}

/// The commands that [`move_commands`] names for `ps`.
pub fn moves(ps: &Vec<Placement>) -> (cmds: Vec<Command>)
    ensures
        cmds@ == move_commands(ps@),
{
    let mut cmds: Vec<Command> = Vec::new();
    let mut i: usize = 0;
    while i < ps.len()
        invariant
            i <= ps@.len(),
            cmds@ == Seq::new(
                i as nat,
                |j: int| Command::MoveResize { window: ps@[j].window, rect: ps@[j].rect },
            ),
        decreases ps@.len() - i,
    {
        cmds.push(Command::MoveResize { window: ps[i].window, rect: ps[i].rect });
        i = i + 1;
    }
    cmds
}

impl WindowManager {
    /// Recomputes the layout of the workspace on display: records the new
    /// rectangles and answers with the commands that bring the windows
    /// there. Fullscreen windows are left out; an empty workspace needs no
    /// command at all.
    pub fn layout(&mut self) -> (cmds: Vec<Command>)
        requires
            old(self).wf(),
        ensures
            cmds@ == old(self).relaid(old(self).current()).commands,
            final(self).workspaces@ == old(self).relaid(old(self).current()).workspaces,
            old(self).same_but_workspaces(final(self)),
            final(self).wf(),
    {
        let area = self.screen_rect();
        let ws = self.workspaces.current_mut();
        if ws.is_empty() {
            proof {
                lemma_relayout_empty(ws@, area);
            }
            return Vec::new();
        }
        let kind = ws.layout_config.current;
        let focused = ws.focused_client;
        let ps = ws.relayout(area);
        let mut cmds = moves(&ps);
        match kind {
            LayoutType::Monocle => {
                match focused {
                    Some(w) => {
                        cmds.push(Command::Raise { window: w });
                    },
                    None => {},
                }
            },
            _ => {},
        }
        extend(&mut cmds, self.restack_alerts());
        cmds.push(Command::Flush);
        cmds
    }

    /// Arranges the tiled windows of the workspace on display in a master
    /// and a stack column, whatever its policy is.
    pub fn apply_master_stack_layout(&mut self) -> (cmds: Vec<Command>)
        requires
            old(self).wf(),
        ensures
            cmds@ == move_commands(
                master_stack_placements(
                    old(self).current().tiled(),
                    old(self).screen(),
                    old(self).current().layout,
                ),
            ),
            final(self).workspaces@ == old(self).workspaces@.with_current(
                old(self).current().placed(
                    master_stack_placements(
                        old(self).current().tiled(),
                        old(self).screen(),
                        old(self).current().layout,
                    ),
                ),
            ),
            old(self).same_but_workspaces(final(self)),
            final(self).wf(),
    {
        let area = self.screen_rect();
        let ws = self.workspaces.current_mut();
        let tiled = ws.tiled_windows();
        let ps = master_stack(&tiled, area, &ws.layout_config);
        ws.apply_placements(&ps);
        moves(&ps)
    }

    /// Gives every tiled window of the workspace on display the whole
    /// padded screen and raises the focused window, whatever the policy is.
    pub fn apply_monocle_layout(&mut self) -> (cmds: Vec<Command>)
        requires
            old(self).wf(),
        ensures
            cmds@ == move_commands(
                monocle_placements(
                    old(self).current().tiled(),
                    old(self).screen(),
                    old(self).current().layout,
                ),
            ) + raise_focused(old(self).current()),
            final(self).workspaces@ == old(self).workspaces@.with_current(
                old(self).current().placed(
                    monocle_placements(
                        old(self).current().tiled(),
                        old(self).screen(),
                        old(self).current().layout,
                    ),
                ),
            ),
            old(self).same_but_workspaces(final(self)),
            final(self).wf(),
    {
        let area = self.screen_rect();
        let ws = self.workspaces.current_mut();
        let tiled = ws.tiled_windows();
        let ps = monocle(&tiled, area, &ws.layout_config);
        ws.apply_placements(&ps);
        let focused = ws.focused_client;
        let mut cmds = moves(&ps);
        match focused {
            Some(w) => {
                cmds.push(Command::Raise { window: w });
            },
            None => {},
        }
        cmds
    }

    /// Arranges the tiled windows of the workspace on display in a grid,
    /// whatever its policy is.
    pub fn apply_grid_layout(&mut self) -> (cmds: Vec<Command>)
        requires
            old(self).wf(),
        ensures
            cmds@ == move_commands(
                grid_placements(
                    old(self).current().tiled(),
                    old(self).screen(),
                    old(self).current().layout,
                ),
            ),
            final(self).workspaces@ == old(self).workspaces@.with_current(
                old(self).current().placed(
                    grid_placements(
                        old(self).current().tiled(),
                        old(self).screen(),
                        old(self).current().layout,
                    ),
                ),
            ),
            old(self).same_but_workspaces(final(self)),
            final(self).wf(),
    {
        let area = self.screen_rect();
        let ws = self.workspaces.current_mut();
        let tiled = ws.tiled_windows();
        let ps = grid(&tiled, area, &ws.layout_config);
        ws.apply_placements(&ps);
        moves(&ps)
    }

    /// Gives the workspace on display the layout parameters `c` and
    /// recomputes its layout.
    pub fn set_layout_config(&mut self, c: LayoutConfig) -> (cmds: Vec<Command>)
        requires
            old(self).wf(),
            c.wf(),
        ensures
            cmds@ == old(self).relaid(old(self).current().with_layout(c)).commands,
            final(self).workspaces@ == old(self).relaid(old(self).current().with_layout(c)).workspaces,
            old(self).same_but_workspaces(final(self)),
            final(self).wf(),
    {
        let ws = self.workspaces.current_mut();
        ws.layout_config = c;
        assert(ws@ == old(self).current().with_layout(c));
        let ghost mid = self.workspaces@;
        let cmds = self.layout();
        proof {
            assert(mid.with_current(mid.current_workspace().relayout(old(self).screen()))
                =~= old(self).workspaces@.with_current(
                old(self).current().with_layout(c).relayout(old(self).screen()),
            )) by {
                assert(mid.workspaces.update(
                    mid.current - 1,
                    mid.current_workspace().relayout(old(self).screen()),
                ) =~= old(self).workspaces@.workspaces.update(
                    mid.current - 1,
                    mid.current_workspace().relayout(old(self).screen()),
                ));
            }
        }
        cmds
    }

    /// The layout parameters of the workspace on display.
    pub fn layout_config(&self) -> (c: LayoutConfig)
        requires
            self.wf(),
        ensures
            c == self.current().layout,
            c.wf(),
    {
        self.workspaces.current().layout_config
    }

    /// The step of `next_layout`.
    pub open spec fn next_layout_step(&self) -> Step {
        self.relaid(
            self.current().with_layout(
                LayoutConfig {
                    current: self.current().layout.current.spec_next(),
                    ..self.current().layout
                },
            ),
        )
    }

    /// The step of `adjust_master_ratio`.
    pub open spec fn adjust_master_ratio_step(&self, delta: int) -> Step {
        self.relaid(
            self.current().with_layout(
                LayoutConfig {
                    master_ratio: clamp_int(
                        self.current().layout.master_ratio + delta,
                        MIN_MASTER_RATIO as int,
                        MAX_MASTER_RATIO as int,
                    ) as u8,
                    ..self.current().layout
                },
            ),
        )
    }

    /// The step of `adjust_nmaster`: the layout is recomputed only if the
    /// number of master windows changes.
    pub open spec fn adjust_nmaster_step(&self, delta: int) -> Step {
        let n = clamp_int(self.current().layout.nmaster + delta, 1, usize::MAX as int);
        if n == self.current().layout.nmaster {
            self.idle()
        } else {
            self.relaid(
                self.current().with_layout(
                    LayoutConfig { nmaster: n as usize, ..self.current().layout },
                ),
            )
        }
    }

    /// The step of `adjust_gap`.
    pub open spec fn adjust_gap_step(&self, delta: int) -> Step {
        self.relaid(
            self.current().with_layout(
                LayoutConfig {
                    gap_size: clamp_int(self.current().layout.gap_size + delta, 0, i16::MAX as int) as i16,
                    ..self.current().layout
                },
            ),
        )
    }

    /// Moves the workspace on display on to the next layout policy and
    /// recomputes its layout.
    pub fn next_layout(&mut self) -> (cmds: Vec<Command>)
        requires
            old(self).wf(),
        ensures
            cmds@ == old(self).next_layout_step().commands,
            final(self).workspaces@ == old(self).next_layout_step().workspaces,
            old(self).same_but_workspaces(final(self)),
            final(self).wf(),
    {
        let mut c = self.layout_config();
        c.next_layout();
        self.set_layout_config(c)
    }

    /// Changes the master ratio of the workspace on display by `delta`
    /// percent, within its range, and recomputes the layout.
    pub fn adjust_master_ratio(&mut self, delta: i8) -> (cmds: Vec<Command>)
        requires
            old(self).wf(),
        ensures
            cmds@ == old(self).adjust_master_ratio_step(delta as int).commands,
            final(self).workspaces@ == old(self).adjust_master_ratio_step(delta as int).workspaces,
            old(self).same_but_workspaces(final(self)),
            final(self).wf(),
    {
        let mut c = self.layout_config();
        c.adjust_master_ratio(delta);
        self.set_layout_config(c)
    }

    /// Gives the master column five percent more of the width.
    pub fn increase_master_ratio(&mut self) -> (cmds: Vec<Command>)
        requires
            old(self).wf(),
        ensures
            cmds@ == old(self).adjust_master_ratio_step(5).commands,
            final(self).workspaces@ == old(self).adjust_master_ratio_step(5).workspaces,
            old(self).same_but_workspaces(final(self)),
            final(self).wf(),
    {
        self.adjust_master_ratio(5)
    }

    /// Takes five percent of the width from the master column.
    pub fn decrease_master_ratio(&mut self) -> (cmds: Vec<Command>)
        requires
            old(self).wf(),
        ensures
            cmds@ == old(self).adjust_master_ratio_step(-5).commands,
            final(self).workspaces@ == old(self).adjust_master_ratio_step(-5).workspaces,
            old(self).same_but_workspaces(final(self)),
            final(self).wf(),
    {
        self.adjust_master_ratio(-5)
    }

    /// Changes the number of master windows of the workspace on display by
    /// `delta`, within its range. The layout is recomputed only if the
    /// number changed.
    pub fn adjust_nmaster(&mut self, delta: i8) -> (cmds: Vec<Command>)
        requires
            old(self).wf(),
        ensures
            cmds@ == old(self).adjust_nmaster_step(delta as int).commands,
            final(self).workspaces@ == old(self).adjust_nmaster_step(delta as int).workspaces,
            old(self).same_but_workspaces(final(self)),
            final(self).wf(),
    {
        let before = self.layout_config();
        let mut c = before;
        c.adjust_nmaster(delta);
        if c.nmaster == before.nmaster {
            return Vec::new();
        }
        self.set_layout_config(c)
    }

    /// Puts one more window into the master column.
    pub fn increase_nmaster(&mut self) -> (cmds: Vec<Command>)
        requires
            old(self).wf(),
        ensures
            cmds@ == old(self).adjust_nmaster_step(1).commands,
            final(self).workspaces@ == old(self).adjust_nmaster_step(1).workspaces,
            old(self).same_but_workspaces(final(self)),
            final(self).wf(),
    {
        self.adjust_nmaster(1)
    }

    /// Takes one window out of the master column, which keeps at least one.
    pub fn decrease_nmaster(&mut self) -> (cmds: Vec<Command>)
        requires
            old(self).wf(),
        ensures
            cmds@ == old(self).adjust_nmaster_step(-1).commands,
            final(self).workspaces@ == old(self).adjust_nmaster_step(-1).workspaces,
            old(self).same_but_workspaces(final(self)),
            final(self).wf(),
    {
        self.adjust_nmaster(-1)
    }

    /// Changes the gap of the workspace on display by `delta` pixels,
    /// within its range, and recomputes the layout.
    pub fn adjust_gap(&mut self, delta: i16) -> (cmds: Vec<Command>)
        requires
            old(self).wf(),
        ensures
            cmds@ == old(self).adjust_gap_step(delta as int).commands,
            final(self).workspaces@ == old(self).adjust_gap_step(delta as int).workspaces,
            old(self).same_but_workspaces(final(self)),
            final(self).wf(),
    {
        let mut c = self.layout_config();
        c.adjust_gap(delta);
        self.set_layout_config(c)
    }

    /// Widens the gap by five pixels.
    pub fn increase_gap(&mut self) -> (cmds: Vec<Command>)
        requires
            old(self).wf(),
        ensures
            cmds@ == old(self).adjust_gap_step(5).commands,
            final(self).workspaces@ == old(self).adjust_gap_step(5).workspaces,
            old(self).same_but_workspaces(final(self)),
            final(self).wf(),
    {
        self.adjust_gap(5)
    }

    /// Narrows the gap by five pixels, down to none.
    pub fn decrease_gap(&mut self) -> (cmds: Vec<Command>)
        requires
            old(self).wf(),
        ensures
            cmds@ == old(self).adjust_gap_step(-5).commands,
            final(self).workspaces@ == old(self).adjust_gap_step(-5).workspaces,
            old(self).same_but_workspaces(final(self)),
            final(self).wf(),
    {
        self.adjust_gap(-5)
    }
}

/// Laying out an empty workspace changes nothing.
pub proof fn lemma_relayout_empty(ws: WorkspaceView, area: Rect)
    requires
        ws.windows.len() == 0,
    ensures
        ws.relayout(area) == ws,
{
    reveal(Seq::filter);
    assert(ws.tiled().len() == 0);
    assert(ws.placements(area).len() == 0);
}

} // verus!
