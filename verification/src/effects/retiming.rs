//! Retiming: speed ramps kept in time order, the kinds of ramp and frame
//! interpolation, and block-matching motion between frames for optical
//! flow.
//!
//! Times and speeds are `f64` values held as their bits; evaluating a ramp
//! and mapping timeline time to source time is floating-point work done by
//! callers.

use vstd::prelude::*;
use vstd::arithmetic::div_mod::lemma_fundamental_div_mod_converse;
use crate::effects::lemma_first_where;
use crate::float_bits::{f64_is_nan, f64_place, place64};
use crate::sorting::{in_key_order, keyed_after, keyed_slot, lemma_sorted_by_key, sorted_by_key};

verus! {

/// Speed ramp interpolation type.
#[derive(Debug, Clone, Copy, PartialEq, Eq, Structural)]
pub enum RampInterpolation {
    Linear,
    Bezier,
    SmoothStep,
    EaseIn,
    EaseOut,
    EaseInOut,
    CatmullRom,
}

/// Frame interpolation method for slow motion.
#[derive(Debug, Clone, Copy, PartialEq, Eq, Structural)]
pub enum FrameInterpolation {
    /// Frame duplication.
    NoInterpolation,
    /// Simple cross-fade.
    Blend,
    /// Motion-compensated interpolation.
    OpticalFlow,
}


/// The bits of `0.0_f64`.
pub const ZERO_BITS: u64 = 0;

/// The bits of `1.0_f64`: normal speed.
pub const ONE_BITS: u64 = 0x3FF0_0000_0000_0000;

/// The bits of `-0.1_f64`: the time offset of a default incoming handle.
pub const HANDLE_IN_BITS: u64 = 0xBFB9_9999_9999_999A;

/// The bits of `0.1_f64`: the time offset of a default outgoing handle.
pub const HANDLE_OUT_BITS: u64 = 0x3FB9_9999_9999_999A;

/// A control point of a speed ramp; every number is the bits of an `f64`.
#[derive(Debug, Clone, Copy)]
pub struct SpeedPoint {
    /// Position on the timeline, in seconds.
    pub time_bits: u64,
    /// Speed multiplier at this point.
    pub speed_bits: u64,
    pub interpolation: RampInterpolation,
    /// (time offset, speed offset).
    pub bezier_handle_in: (u64, u64),
    /// (time offset, speed offset).
    pub bezier_handle_out: (u64, u64),
}

/// A linear point with the default handles, 0.1 s either side.
pub open spec fn plain_point(time: u64, speed: u64) -> SpeedPoint {
    SpeedPoint {
        time_bits: time,
        speed_bits: speed,
        interpolation: RampInterpolation::Linear,
        bezier_handle_in: (HANDLE_IN_BITS, ZERO_BITS),
        bezier_handle_out: (HANDLE_OUT_BITS, ZERO_BITS),
    }
}

impl SpeedPoint {
    /// A linear point with the default handles.
    pub fn new(time: u64, speed: u64) -> (r: Self)
        ensures
            r == plain_point(time, speed),
    {
        SpeedPoint {
            time_bits: time,
            speed_bits: speed,
            interpolation: RampInterpolation::Linear,
            bezier_handle_in: (HANDLE_IN_BITS, ZERO_BITS),
            bezier_handle_out: (HANDLE_OUT_BITS, ZERO_BITS),
        }
    }

    /// The point with other Bezier handles.
    pub fn with_bezier(self, hix: u64, hiy: u64, hox: u64, hoy: u64) -> (r: Self)
        ensures
            r == (SpeedPoint { bezier_handle_in: (hix, hiy), bezier_handle_out: (hox, hoy), ..self }),
    {
        SpeedPoint { bezier_handle_in: (hix, hiy), bezier_handle_out: (hox, hoy), ..self }
    }
}

/// The sort key of speed points: the place of their time.
pub open spec fn point_key() -> spec_fn(SpeedPoint) -> int {
    |p: SpeedPoint| f64_place(p.time_bits)
}

/// Times that a sort can compare: no NaN among them, unless there is at
/// most one point.
pub open spec fn point_times_comparable(s: Seq<SpeedPoint>) -> bool {
    s.len() <= 1 || forall|i: int| 0 <= i < s.len() ==> !f64_is_nan(#[trigger] s[i].time_bits)
}

/// A speed curve through control points kept in time order.
#[derive(Debug, Clone)]
pub struct SpeedRamp {
    pub points: Vec<SpeedPoint>,
}

impl SpeedRamp {
    /// A ramp at normal speed: one point of speed 1 at time 0.
    pub fn new() -> (r: Self)
        ensures
            r.points@ == seq![plain_point(ZERO_BITS, ONE_BITS)],
    {
        SpeedRamp::constant(ONE_BITS)
    }

    /// A ramp at a constant speed: one point at time 0.
    pub fn constant(speed: u64) -> (r: Self)
        ensures
            r.points@ == seq![plain_point(ZERO_BITS, speed)],
    {
        let mut points: Vec<SpeedPoint> = Vec::new();
        points.push(SpeedPoint::new(ZERO_BITS, speed));
        assert(points@ =~= seq![plain_point(ZERO_BITS, speed)]);
        SpeedRamp { points }
    }

    /// The slot of `p` among `points`.
    fn slot(points: &Vec<SpeedPoint>, p: &SpeedPoint) -> (r: usize)
        ensures
            r == keyed_slot(points@, *p, point_key()),
            r <= points@.len(),
    {
        let ghost s = points@;
        let ghost q = |i: int| keyed_after(s, i, *p, point_key());
        let key = place64(p.time_bits);
        let mut i: usize = 0;
        while i < points.len()
            invariant
                s == points@,
                key == f64_place(p.time_bits),
                q == (|i: int| keyed_after(s, i, *p, point_key())),
                i <= s.len(),
                forall|j: int| 0 <= j < i ==> !#[trigger] q(j),
            decreases s.len() - i,
        {
            if place64(points[i].time_bits) > key {
                proof { lemma_first_where(s.len() as int, q, i as int); }
                return i;
            }
            i = i + 1;
        }
        proof { lemma_first_where(s.len() as int, q, i as int); }
        i
    }

    /// Adds a control point and sorts the points by time; points at equal
    /// times keep their order.
    pub fn add_point(&mut self, point: SpeedPoint)
        requires
            point_times_comparable(old(self).points@.push(point)),
        ensures
            final(self).points@ == sorted_by_key(old(self).points@.push(point), point_key()),
    {
        let mut rest: Vec<SpeedPoint> = Vec::new();
        std::mem::swap(&mut rest, &mut self.points);
        rest.push(point);
        let ghost input = rest@;
        let mut sorted: Vec<SpeedPoint> = Vec::new();
        let ghost mut taken: nat = 0;
        while rest.len() > 0
            invariant
                taken + rest@.len() == input.len(),
                rest@ == input.subrange(taken as int, input.len() as int),
                sorted@ == sorted_by_key(input.take(taken as int), point_key()),
            decreases rest@.len(),
        {
            let p = rest.remove(0);
            proof {
                assert(input.take(taken as int + 1).drop_last() =~= input.take(taken as int));
                assert(input.take(taken as int + 1).last() == p);
                assert(rest@ =~= input.subrange(taken as int + 1, input.len() as int));
            }
            let at = Self::slot(&sorted, &p);
            sorted.insert(at, p);
            proof { taken = taken + 1; }
        }
        assert(input.take(taken as int) =~= input);
        self.points = sorted;
    }

    /// Removes the point at `index` and returns it. A ramp keeps its last
    /// point: with one point or fewer, or past the end, nothing changes.
    pub fn remove_point(&mut self, index: usize) -> (r: Option<SpeedPoint>)
        ensures
            r is Some <==> (old(self).points@.len() > 1 && index < old(self).points@.len()),
            r matches Some(p) ==> p == old(self).points@[index as int]
                && final(self).points@ == old(self).points@.remove(index as int),
            r is None ==> final(self).points@ == old(self).points@,
            old(self).points@.len() >= 1 ==> final(self).points@.len() >= 1,
    {
        if self.points.len() <= 1 {
            return None;
        }
        if index < self.points.len() {
            Some(self.points.remove(index))
        } else {
            None
        }
    }
}

/// Points added to a ramp stay in time order and none is lost.
pub proof fn lemma_ramp_points_sorted(s: Seq<SpeedPoint>, p: SpeedPoint)
    ensures
        in_key_order(sorted_by_key(s.push(p), point_key()), point_key()),
        sorted_by_key(s.push(p), point_key()).to_multiset() == s.push(p).to_multiset(),
{
    lemma_sorted_by_key(s.push(p), point_key());
}


/// The inputs of block matching, as the contracts see them: two packed
/// RGBA8 frames, their size, the block size and the search range.
pub struct FlowSearch {
    pub a: Seq<u8>,
    pub b: Seq<u8>,
    pub width: int,
    pub height: int,
    pub block: int,
    pub range: int,
}

/// `v` limited to `[lo, hi]`.
pub open spec fn clamp_int(v: int, lo: int, hi: int) -> int {
    if v < lo {
        lo
    } else if v > hi {
        hi
    } else {
        v
    }
}

/// The best offset of a block found so far: its SAD and offset.
pub struct FlowPick {
    pub sad: int,
    pub dx: int,
    pub dy: int,
}

/// The largest `i64`: the SAD before any offset is tried.
pub open spec fn no_match() -> int {
    0x7FFF_FFFF_FFFF_FFFF
}

impl FlowSearch {
    /// The red byte of frame `f` at `(x, y)`, each coordinate clamped into
    /// the frame.
    pub open spec fn red_at(self, f: Seq<u8>, x: int, y: int) -> int {
        f[(clamp_int(y, 0, self.height - 1) * self.width + clamp_int(x, 0, self.width - 1)) * 4] as int
    }

    /// The absolute difference of block pixel `(px, py)` of the block at
    /// `(bx, by)` in frame `a` and the same pixel moved by `(dx, dy)` in
    /// frame `b`.
    pub open spec fn diff(self, bx: int, by: int, px: int, py: int, dx: int, dy: int) -> int {
        let u = self.red_at(self.a, bx + px, by + py);
        let v = self.red_at(self.b, bx + px + dx, by + py + dy);
        if u >= v {
            u - v
        } else {
            v - u
        }
    }

    /// The SAD of the first `n` pixels of block row `py`.
    pub open spec fn row_sad(self, bx: int, by: int, py: int, dx: int, dy: int, n: int) -> int
        decreases n,
    {
        if n <= 0 {
            0
        } else {
            self.row_sad(bx, by, py, dx, dy, n - 1) + self.diff(bx, by, n - 1, py, dx, dy)
        }
    }

    /// The SAD of the first `m` rows of the block.
    pub open spec fn block_sad(self, bx: int, by: int, dx: int, dy: int, m: int) -> int
        decreases m,
    {
        if m <= 0 {
            0
        } else {
            self.block_sad(bx, by, dx, dy, m - 1) + self.row_sad(bx, by, m - 1, dx, dy, self.block)
        }
    }

    /// The SAD of the block at `(bx, by)` moved by `(dx, dy)`.
    pub open spec fn sad(self, bx: int, by: int, dx: int, dy: int) -> int {
        self.block_sad(bx, by, dx, dy, self.block)
    }

    /// One step of the search: an offset with a strictly smaller SAD
    /// becomes the best.
    pub open spec fn step(self, bx: int, by: int, st: FlowPick, dx: int, dy: int) -> FlowPick {
        if self.sad(bx, by, dx, dy) < st.sad {
            FlowPick { sad: self.sad(bx, by, dx, dy), dx, dy }
        } else {
            st
        }
    }

    /// The best after the first `n` offsets of row `dy`, from `-range`.
    pub open spec fn scan_row(self, bx: int, by: int, st: FlowPick, dy: int, n: int) -> FlowPick
        decreases n,
    {
        if n <= 0 {
            st
        } else {
            self.step(bx, by, self.scan_row(bx, by, st, dy, n - 1), -self.range + n - 1, dy)
        }
    }

    /// The best after the first `m` rows of offsets, from `-range`.
    pub open spec fn scan_rows(self, bx: int, by: int, m: int) -> FlowPick
        decreases m,
    {
        if m <= 0 {
            FlowPick { sad: no_match(), dx: 0, dy: 0 }
        } else {
            self.scan_row(bx, by, self.scan_rows(bx, by, m - 1), -self.range + m - 1, 2 * self.range + 1)
        }
    }

    /// The best offset of the block at `(bx, by)`: the first smallest SAD
    /// over `dy`, then `dx`, from `-range` to `range`.
    pub open spec fn best(self, bx: int, by: int) -> FlowPick {
        self.scan_rows(bx, by, 2 * self.range + 1)
    }

    /// The number of blocks along an axis of `size` pixels.
    pub open spec fn blocks_along(self, size: int) -> int {
        (size + self.block - 1) / self.block
    }
}

/// The best match of one block of a frame.
#[derive(Debug, Clone, Copy, PartialEq, Eq, Structural)]
pub struct BlockMatch {
    /// The left edge of the block.
    pub x: i32,
    /// The top edge of the block.
    pub y: i32,
    pub dx: i32,
    pub dy: i32,
    /// The sum of absolute differences at the best offset.
    pub sad: i64,
}

/// The match of the block at `(bx, by)` as the contracts see it.
pub open spec fn block_match(s: FlowSearch, bx: int, by: int) -> BlockMatch {
    BlockMatch { x: bx as i32, y: by as i32, dx: s.best(bx, by).dx as i32, dy: s.best(bx, by).dy as i32, sad: s.best(bx, by).sad as i64 }
}

/// The red byte of frame `f` at the clamped `(x, y)`.
fn red_clamped(f: &[u8], x: i64, y: i64, width: usize, height: usize) -> (r: i64)
    requires
        width > 0,
        height > 0,
        width <= i32::MAX,
        height <= i32::MAX,
        width * height * 4 <= u32::MAX,
        f@.len() >= width * height * 4,
    ensures
        r == f@[(clamp_int(y as int, 0, height - 1) * width + clamp_int(x as int, 0, width - 1)) * 4] as int,
        0 <= r <= 255,
{
    let cx: usize = if x < 0 { 0 } else if x > width as i64 - 1 { width - 1 } else { x as usize };
    let cy: usize = if y < 0 { 0 } else if y > height as i64 - 1 { height - 1 } else { y as usize };
    proof {
        assert(cy * width + cx < width * height) by (nonlinear_arith)
            requires
                cx < width,
                cy < height,
        ;
    }
    f[(cy * width + cx) * 4] as i64
}

/// The SAD of a row's first pixels is at most 255 each.
proof fn lemma_flow_row_bound(s: FlowSearch, bx: int, by: int, py: int, dx: int, dy: int, n: int)
    ensures
        0 <= s.row_sad(bx, by, py, dx, dy, n),
        n >= 0 ==> s.row_sad(bx, by, py, dx, dy, n) <= n * 255,
    decreases n,
{
    if n > 0 {
        lemma_flow_row_bound(s, bx, by, py, dx, dy, n - 1);
        let u = s.red_at(s.a, bx + n - 1, by + py);
        let v = s.red_at(s.b, bx + n - 1 + dx, by + py + dy);
        assert(0 <= u <= 255 && 0 <= v <= 255);
    }
}

/// The SAD of the first `k` rows is at most `k * block * 255`.
proof fn lemma_flow_block_bound(s: FlowSearch, bx: int, by: int, dx: int, dy: int, k: int)
    requires
        s.block >= 0,
    ensures
        0 <= s.block_sad(bx, by, dx, dy, k),
        k >= 0 ==> s.block_sad(bx, by, dx, dy, k) <= k * s.block * 255,
    decreases k,
{
    if k > 0 {
        lemma_flow_block_bound(s, bx, by, dx, dy, k - 1);
        lemma_flow_row_bound(s, bx, by, k - 1, dx, dy, s.block);
        assert((k - 1) * s.block * 255 + s.block * 255 == k * s.block * 255) by (nonlinear_arith);
    }
}

/// The SAD of the block at `(bx, by)` moved by `(dx, dy)`.
fn flow_block_sad(
    frame_a: &[u8],
    frame_b: &[u8],
    width: usize,
    height: usize,
    block: usize,
    bx: i64,
    by: i64,
    dx: i64,
    dy: i64,
    Ghost(s): Ghost<FlowSearch>,
) -> (r: i64)
    requires
        s.a == frame_a@,
        s.b == frame_b@,
        s.width == width,
        s.height == height,
        s.block == block,
        width > 0,
        height > 0,
        width <= i32::MAX,
        height <= i32::MAX,
        width * height * 4 <= u32::MAX,
        frame_a@.len() >= width * height * 4,
        frame_b@.len() >= width * height * 4,
        0 < block <= i32::MAX,
        block * block * 255 <= i64::MAX,
        0 <= bx <= i32::MAX,
        0 <= by <= i32::MAX,
        -0x8000_0000 <= dx <= i32::MAX,
        -0x8000_0000 <= dy <= i32::MAX,
    ensures
        r == s.sad(bx as int, by as int, dx as int, dy as int),
        0 <= r <= block * block * 255,
{
    let mut sad: i64 = 0;
    let mut py: usize = 0;
    while py < block
        invariant
            s.a == frame_a@,
            s.b == frame_b@,
            s.width == width,
            s.height == height,
            s.block == block,
            width > 0,
            height > 0,
            width <= i32::MAX,
            height <= i32::MAX,
            width * height * 4 <= u32::MAX,
            frame_a@.len() >= width * height * 4,
            frame_b@.len() >= width * height * 4,
            0 < block <= i32::MAX,
            block * block * 255 <= i64::MAX,
            0 <= bx <= i32::MAX,
            0 <= by <= i32::MAX,
            -0x8000_0000 <= dx <= i32::MAX,
            -0x8000_0000 <= dy <= i32::MAX,
            py <= block,
            sad == s.block_sad(bx as int, by as int, dx as int, dy as int, py as int),
        decreases block - py,
    {
        let ghost before = sad as int;
        proof {
            lemma_flow_block_bound(s, bx as int, by as int, dx as int, dy as int, py as int);
            assert((py as int) * block * 255 + block * 255 <= block * block * 255) by (nonlinear_arith)
                requires
                    py < block,
            ;
        }
        let mut px: usize = 0;
        while px < block
            invariant
                s.a == frame_a@,
                s.b == frame_b@,
                s.width == width,
                s.height == height,
                s.block == block,
                width > 0,
                height > 0,
                width <= i32::MAX,
                height <= i32::MAX,
                width * height * 4 <= u32::MAX,
                frame_a@.len() >= width * height * 4,
                frame_b@.len() >= width * height * 4,
                0 < block <= i32::MAX,
                0 <= bx <= i32::MAX,
                0 <= by <= i32::MAX,
                -0x8000_0000 <= dx <= i32::MAX,
                -0x8000_0000 <= dy <= i32::MAX,
                py < block,
                px <= block,
                before == s.block_sad(bx as int, by as int, dx as int, dy as int, py as int),
                0 <= before <= (py as int) * block * 255,
                (py as int) * block * 255 + block * 255 <= block * block * 255,
                block * block * 255 <= i64::MAX,
                sad == before + s.row_sad(bx as int, by as int, py as int, dx as int, dy as int, px as int),
            decreases block - px,
        {
            proof {
                lemma_flow_row_bound(s, bx as int, by as int, py as int, dx as int, dy as int, px as int + 1);
            }
            let u = red_clamped(frame_a, bx + px as i64, by + py as i64, width, height);
            let v = red_clamped(frame_b, bx + px as i64 + dx, by + py as i64 + dy, width, height);
            let d: i64 = if u >= v { u - v } else { v - u };
            sad = sad + d;
            px = px + 1;
        }
        py = py + 1;
    }
    proof {
        lemma_flow_block_bound(s, bx as int, by as int, dx as int, dy as int, block as int);
    }
    sad
}

/// The best offset of the block at `(bx, by)`.
fn best_block_offset(
    frame_a: &[u8],
    frame_b: &[u8],
    width: usize,
    height: usize,
    block: usize,
    range: usize,
    bx: i64,
    by: i64,
    Ghost(s): Ghost<FlowSearch>,
) -> (r: BlockMatch)
    requires
        s.a == frame_a@,
        s.b == frame_b@,
        s.width == width,
        s.height == height,
        s.block == block,
        s.range == range,
        width > 0,
        height > 0,
        width <= i32::MAX,
        height <= i32::MAX,
        width * height * 4 <= u32::MAX,
        frame_a@.len() >= width * height * 4,
        frame_b@.len() >= width * height * 4,
        0 < block <= i32::MAX,
        block * block * 255 <= i64::MAX,
        range <= i32::MAX,
        0 <= bx <= i32::MAX,
        0 <= by <= i32::MAX,
    ensures
        r == block_match(s, bx as int, by as int),
{
    let sr = range as i64;
    let mut best_sad: i64 = i64::MAX;
    let mut best_dx: i64 = 0;
    let mut best_dy: i64 = 0;
    let mut row: i64 = 0;
    while row <= 2 * sr
        invariant
            s.a == frame_a@,
            s.b == frame_b@,
            s.width == width,
            s.height == height,
            s.block == block,
            s.range == range,
            width > 0,
            height > 0,
            width <= i32::MAX,
            height <= i32::MAX,
            width * height * 4 <= u32::MAX,
            frame_a@.len() >= width * height * 4,
            frame_b@.len() >= width * height * 4,
            0 < block <= i32::MAX,
            block * block * 255 <= i64::MAX,
            range <= i32::MAX,
            sr == range,
            0 <= bx <= i32::MAX,
            0 <= by <= i32::MAX,
            0 <= row <= 2 * sr + 1,
            -sr <= best_dx <= sr,
            -sr <= best_dy <= sr,
            ({
                let st = s.scan_rows(bx as int, by as int, row as int);
                best_sad == st.sad && best_dx == st.dx && best_dy == st.dy
            }),
        decreases 2 * sr + 1 - row,
    {
        let dy = row - sr;
        let mut col: i64 = 0;
        while col <= 2 * sr
            invariant
                s.a == frame_a@,
                s.b == frame_b@,
                s.width == width,
                s.height == height,
                s.block == block,
                s.range == range,
                width > 0,
                height > 0,
                width <= i32::MAX,
                height <= i32::MAX,
                width * height * 4 <= u32::MAX,
                frame_a@.len() >= width * height * 4,
                frame_b@.len() >= width * height * 4,
                0 < block <= i32::MAX,
                block * block * 255 <= i64::MAX,
                range <= i32::MAX,
                sr == range,
                0 <= bx <= i32::MAX,
                0 <= by <= i32::MAX,
                0 <= row <= 2 * sr,
                dy == row - sr,
                0 <= col <= 2 * sr + 1,
                -sr <= best_dx <= sr,
                -sr <= best_dy <= sr,
                ({
                    let st = s.scan_row(bx as int, by as int, s.scan_rows(bx as int, by as int, row as int), dy as int, col as int);
                    best_sad == st.sad && best_dx == st.dx && best_dy == st.dy
                }),
            decreases 2 * sr + 1 - col,
        {
            let dx = col - sr;
            let sad = flow_block_sad(frame_a, frame_b, width, height, block, bx, by, dx, dy, Ghost(s));
            if sad < best_sad {
                best_sad = sad;
                best_dx = dx;
                best_dy = dy;
            }
            col = col + 1;
        }
        row = row + 1;
    }
    BlockMatch { x: bx as i32, y: by as i32, dx: best_dx as i32, dy: best_dy as i32, sad: best_sad }
}

/// Block-matching motion between two packed RGBA8 frames: for each
/// `block × block` block, left to right and top to bottom, the offset
/// within `±range` whose block in `frame_b` has the smallest sum of
/// absolute differences of the red byte (the first such offset, over `dy`
/// then `dx`, ascending). Coordinates past the edges are clamped into the
/// frame.
pub fn match_blocks(frame_a: &[u8], frame_b: &[u8], width: u32, height: u32, block_size: u32, search_range: u32) -> (r: Vec<BlockMatch>)
    requires
        block_size > 0,
        width * height * 4 <= u32::MAX,
        frame_a@.len() >= width * height * 4,
        frame_b@.len() >= width * height * 4,
        width + block_size + search_range <= i32::MAX,
        height + block_size + search_range <= i32::MAX,
        block_size * block_size * 255 <= i64::MAX,
    ensures
        ({
            let s = FlowSearch {
                a: frame_a@,
                b: frame_b@,
                width: width as int,
                height: height as int,
                block: block_size as int,
                range: search_range as int,
            };
            let cols = s.blocks_along(width as int);
            let rows = s.blocks_along(height as int);
            &&& r@.len() == rows * cols
            &&& forall|i: int, j: int| 0 <= i < rows && 0 <= j < cols ==> #[trigger] r@[i * cols + j]
                == block_match(s, j * block_size, i * block_size)
        }),
{
    let ghost s = FlowSearch {
        a: frame_a@,
        b: frame_b@,
        width: width as int,
        height: height as int,
        block: block_size as int,
        range: search_range as int,
    };
    let ghost cols = s.blocks_along(width as int);
    let ghost rows = s.blocks_along(height as int);
    let w = width as usize;
    let h = height as usize;
    let bs = block_size as usize;
    let mut out: Vec<BlockMatch> = Vec::new();
    if width == 0 || height == 0 {
        proof {
            lemma_fundamental_div_mod_converse(block_size - 1, block_size as int, 0, block_size - 1);
            if width == 0 {
                assert(cols == 0);
            } else {
                assert(rows == 0);
            }
            assert(rows * cols == 0) by (nonlinear_arith)
                requires
                    rows == 0 || cols == 0,
            ;
        }
        return out;
    }
    let mut by: u32 = 0;
    let ghost mut i: int = 0;
    proof {
        lemma_blocks_step(height as int, block_size as int, 0);
    }
    while by < height
        invariant
            s.a == frame_a@,
            s.b == frame_b@,
            s.width == width,
            s.height == height,
            s.block == block_size,
            s.range == search_range,
            w == width,
            h == height,
            bs == block_size,
            width > 0,
            height > 0,
            width <= i32::MAX,
            height <= i32::MAX,
            block_size > 0,
            width * height * 4 <= u32::MAX,
            frame_a@.len() >= width * height * 4,
            frame_b@.len() >= width * height * 4,
            width + block_size + search_range <= i32::MAX,
            height + block_size + search_range <= i32::MAX,
            block_size * block_size * 255 <= i64::MAX,
            cols == s.blocks_along(width as int),
            rows == s.blocks_along(height as int),
            by == i * block_size,
            0 <= i,
            by < height + block_size,
            i <= rows,
            (by < height) == (i < rows),
            out@.len() == i * cols,
            forall|a: int, b: int| 0 <= a < i && 0 <= b < cols ==> #[trigger] out@[a * cols + b]
                == block_match(s, b * block_size, a * block_size),
        decreases height + block_size - by,
    {
        let mut bx: u32 = 0;
        let ghost mut j: int = 0;
        proof {
            lemma_blocks_step(width as int, block_size as int, 0);
        }
        while bx < width
            invariant
                s.a == frame_a@,
                s.b == frame_b@,
                s.width == width,
                s.height == height,
                s.block == block_size,
                s.range == search_range,
                w == width,
                h == height,
                bs == block_size,
                width > 0,
                height > 0,
                width <= i32::MAX,
                height <= i32::MAX,
                block_size > 0,
                width * height * 4 <= u32::MAX,
                frame_a@.len() >= width * height * 4,
                frame_b@.len() >= width * height * 4,
                width + block_size + search_range <= i32::MAX,
                height + block_size + search_range <= i32::MAX,
                block_size * block_size * 255 <= i64::MAX,
                cols == s.blocks_along(width as int),
                rows == s.blocks_along(height as int),
                by == i * block_size,
                by < height,
                0 <= i < rows,
                bx == j * block_size,
                0 <= j,
                bx < width + block_size,
                j <= cols,
                (bx < width) == (j < cols),
                out@.len() == i * cols + j,
                forall|a: int, b: int| 0 <= a < i && 0 <= b < cols ==> #[trigger] out@[a * cols + b]
                    == block_match(s, b * block_size, a * block_size),
                forall|b: int| 0 <= b < j ==> #[trigger] out@[i * cols + b] == block_match(s, b * block_size, i * block_size),
            decreases width + block_size - bx,
        {
            let m = best_block_offset(frame_a, frame_b, w, h, bs, search_range as usize, bx as i64, by as i64, Ghost(s));
            let ghost before = out@;
            out.push(m);
            proof {
                assert forall|a: int, b: int| 0 <= a < i && 0 <= b < cols implies #[trigger] out@[a * cols + b]
                    == block_match(s, b * block_size, a * block_size) by {
                    assert(a * cols + b < i * cols) by (nonlinear_arith)
                        requires
                            0 <= a < i,
                            0 <= b < cols,
                    ;
                    assert(out@[a * cols + b] == before[a * cols + b]);
                }
                assert forall|b: int| 0 <= b < j + 1 implies #[trigger] out@[i * cols + b] == block_match(s, b * block_size, i * block_size) by {
                    if b < j {
                        assert(out@[i * cols + b] == before[i * cols + b]);
                    }
                }
                lemma_blocks_step(width as int, block_size as int, j);
                j = j + 1;
                lemma_blocks_step(width as int, block_size as int, j);
            }
            bx = bx + block_size;
        }
        proof {
            lemma_blocks_step(height as int, block_size as int, i);
            assert(j == cols) by {
                lemma_blocks_step(width as int, block_size as int, j);
            }
            assert((i + 1) * cols == i * cols + cols) by (nonlinear_arith);
            assert forall|a: int, b: int| 0 <= a < i + 1 && 0 <= b < cols implies #[trigger] out@[a * cols + b]
                == block_match(s, b * block_size, a * block_size) by {
            }
            i = i + 1;
            lemma_blocks_step(height as int, block_size as int, i);
        }
        by = by + block_size;
    }
    proof {
        assert(i == rows);
    }
    out
}

/// How block positions `j * block` advance along an axis of `size`
/// pixels: the `j`-th block starts inside the axis exactly when `j` is
/// below the number of blocks.
proof fn lemma_blocks_step(size: int, block: int, j: int)
    requires
        size > 0,
        block > 0,
        j >= 0,
    ensures
        (j * block < size) == (j < (size + block - 1) / block),
        (j + 1) * block == j * block + block,
        j * block >= size ==> j >= (size + block - 1) / block,
{
    let n = (size + block - 1) / block;
    vstd::arithmetic::div_mod::lemma_fundamental_div_mod(size + block - 1, block);
    let r = (size + block - 1) % block;
    assert((j + 1) * block == j * block + block) by (nonlinear_arith);
    assert(size + block - 1 == n * block + r);
    assert(0 <= r < block);
    if j < n {
        assert(j * block <= (n - 1) * block) by (nonlinear_arith)
            requires
                j <= n - 1,
                block > 0,
        ;
        assert((n - 1) * block == n * block - block) by (nonlinear_arith);
    } else {
        assert(j * block >= n * block) by (nonlinear_arith)
            requires
                j >= n,
                block > 0,
        ;
    }
}

} // verus!
