//! Stabilization: block-matching motion estimation between frames, and
//! the integer pixel moves that correct and crop a frame.
//!
//! Frames are packed RGBA8 buffers. The reference block is the centre
//! `block_size × block_size` region of the previous frame; its best match
//! in the current frame, within `±search_range` pixels, minimizes the sum
//! of absolute differences (SAD) of Rec.709 luma. Smoothing the motion of
//! a clip and rounding a correction are floating-point work done by
//! callers.

use vstd::prelude::*;
use vstd::arithmetic::div_mod::lemma_fundamental_div_mod_converse;

verus! {

/// The inputs of a motion search, as the contracts see them.
pub struct MotionSearch {
    pub prev: Seq<u8>,
    pub curr: Seq<u8>,
    pub width: int,
    pub height: int,
    pub block_size: int,
    pub search_range: int,
}

/// A search state: whether a match was found, its SAD and its offset.
pub struct MotionPick {
    pub found: bool,
    pub sad: int,
    pub dx: int,
    pub dy: int,
}

/// Rec.709-weighted luma of the pixel at byte `i`: `(54 R + 183 G + 19 B) >> 8`.
pub open spec fn luma_at(f: Seq<u8>, i: int) -> int {
    (f[i] * 54 + f[i + 1] * 183 + f[i + 2] * 19) / 256
}

/// Where the centred block starts along an axis of `size` pixels:
/// `size / 2 - block / 2`, or 0 when that would be negative.
pub open spec fn block_origin(size: int, block: int) -> int {
    if size / 2 >= block / 2 {
        size / 2 - block / 2
    } else {
        0
    }
}

/// Whether a `block × block` square at `(x0 + dx, y0 + dy)` lies inside a
/// `width × height` frame (an empty square always does).
pub open spec fn rect_fits(x0: int, y0: int, width: int, height: int, block: int, dx: int, dy: int) -> bool {
    block == 0 || (0 <= x0 + dx && x0 + block - 1 + dx < width && 0 <= y0 + dy && y0 + block - 1 + dy < height)
}

/// Whether the moved block fits, computed.
fn fits_at(x0: i64, y0: i64, width: i64, height: i64, block: i64, dx: i64, dy: i64) -> (r: bool)
    requires
        0 <= x0 < 0x1_0000_0000,
        0 <= y0 < 0x1_0000_0000,
        0 <= block < 0x1_0000_0000,
        -0x1_0000_0000 < dx < 0x1_0000_0000,
        -0x1_0000_0000 < dy < 0x1_0000_0000,
    ensures
        r == rect_fits(x0 as int, y0 as int, width as int, height as int, block as int, dx as int, dy as int),
{
    block == 0 || (0 <= x0 + dx && x0 + block - 1 + dx < width && 0 <= y0 + dy && y0 + block - 1 + dy < height)
}

impl MotionSearch {
    /// The left edge of the reference block.
    pub open spec fn x0(self) -> int {
        block_origin(self.width, self.block_size)
    }

    /// The top edge of the reference block.
    pub open spec fn y0(self) -> int {
        block_origin(self.height, self.block_size)
    }

    /// Whether the block moved by `(dx, dy)` lies inside the current frame.
    pub open spec fn fits(self, dx: int, dy: int) -> bool {
        rect_fits(self.x0(), self.y0(), self.width, self.height, self.block_size, dx, dy)
    }

    /// The luma difference at pixel `(x, y)` of the previous frame and
    /// pixel `(x + dx, y + dy)` of the current one.
    pub open spec fn diff_at(self, x: int, y: int, dx: int, dy: int) -> int {
        let a = luma_at(self.prev, (y * self.width + x) * 4);
        let b = luma_at(self.curr, ((y + dy) * self.width + (x + dx)) * 4);
        if a >= b {
            a - b
        } else {
            b - a
        }
    }

    /// The SAD of the first `n` pixels of block row `y`.
    pub open spec fn row_sad(self, y: int, dx: int, dy: int, n: int) -> int
        decreases n,
    {
        if n <= 0 {
            0
        } else {
            self.row_sad(y, dx, dy, n - 1) + self.diff_at(self.x0() + n - 1, y, dx, dy)
        }
    }

    /// The SAD of the first `m` rows of the block moved by `(dx, dy)`.
    pub open spec fn block_sad(self, dx: int, dy: int, m: int) -> int
        decreases m,
    {
        if m <= 0 {
            0
        } else {
            self.block_sad(dx, dy, m - 1) + self.row_sad(self.y0() + m - 1, dx, dy, self.block_size)
        }
    }

    /// The SAD of the whole block moved by `(dx, dy)`.
    pub open spec fn sad(self, dx: int, dy: int) -> int {
        self.block_sad(dx, dy, self.block_size)
    }

    /// The state before the scan: the unmoved block when it fits.
    pub open spec fn start(self) -> MotionPick {
        if self.fits(0, 0) {
            MotionPick { found: true, sad: self.sad(0, 0), dx: 0, dy: 0 }
        } else {
            MotionPick { found: false, sad: 0, dx: 0, dy: 0 }
        }
    }

    /// One step of the scan: a fitting offset with a smaller SAD (or the
    /// first fitting one) becomes the match.
    pub open spec fn step(self, st: MotionPick, dx: int, dy: int) -> MotionPick {
        if self.fits(dx, dy) && (!st.found || self.sad(dx, dy) < st.sad) {
            MotionPick { found: true, sad: self.sad(dx, dy), dx, dy }
        } else {
            st
        }
    }

    /// The state after the first `n` offsets of row `dy`, from `-range`.
    pub open spec fn scan_row(self, st: MotionPick, dy: int, n: int) -> MotionPick
        decreases n,
    {
        if n <= 0 {
            st
        } else {
            self.step(self.scan_row(st, dy, n - 1), -self.search_range + n - 1, dy)
        }
    }

    /// The state after the first `m` rows of offsets, from `-range`.
    pub open spec fn scan_rows(self, m: int) -> MotionPick
        decreases m,
    {
        if m <= 0 {
            self.start()
        } else {
            self.scan_row(self.scan_rows(m - 1), -self.search_range + m - 1, 2 * self.search_range + 1)
        }
    }

    /// The motion found: the offset of the final state of the scan over
    /// `dy` then `dx` from `-range` to `range`.
    pub open spec fn best(self) -> MotionPick {
        self.scan_rows(2 * self.search_range + 1)
    }
}

/// `(y * w + x) * 4 + 3` lies inside a `w × h` frame for a pixel in it.
proof fn lemma_pixel_index(x: int, y: int, w: int, h: int)
    requires
        0 <= x < w,
        0 <= y < h,
    ensures
        0 <= (y * w + x) * 4,
        (y * w + x) * 4 + 3 < w * h * 4,
{
    assert(y * w + x < w * h) by (nonlinear_arith)
        requires
            0 <= x < w,
            0 <= y < h,
    ;
    assert(0 <= y * w) by (nonlinear_arith)
        requires
            0 <= y,
            0 <= w,
    ;
}

/// A partial SAD is at most 255 per pixel summed.
proof fn lemma_row_bound(m: MotionSearch, y: int, dx: int, dy: int, n: int)
    ensures
        0 <= m.row_sad(y, dx, dy, n),
        n >= 0 ==> m.row_sad(y, dx, dy, n) <= n * 255,
    decreases n,
{
    if n > 0 {
        lemma_row_bound(m, y, dx, dy, n - 1);
        let a = luma_at(m.prev, (y * m.width + m.x0() + n - 1) * 4);
        assert(0 <= a <= 255);
        assert(0 <= m.diff_at(m.x0() + n - 1, y, dx, dy) <= 255);
    }
}

/// The SAD of `k` rows is at most `k * block_size * 255`.
proof fn lemma_block_bound(m: MotionSearch, dx: int, dy: int, k: int)
    requires
        m.block_size >= 0,
    ensures
        0 <= m.block_sad(dx, dy, k),
        k >= 0 ==> m.block_sad(dx, dy, k) <= k * m.block_size * 255,
    decreases k,
{
    if k > 0 {
        lemma_block_bound(m, dx, dy, k - 1);
        lemma_row_bound(m, m.y0() + k - 1, dx, dy, m.block_size);
        assert((k - 1) * m.block_size * 255 + m.block_size * 255 == k * m.block_size * 255) by (nonlinear_arith);
    }
}

/// The luma of the pixel at byte `i`.
fn pixel_luma(f: &[u8], i: usize) -> (r: i32)
    requires
        i + 2 < f@.len(),
    ensures
        r == luma_at(f@, i as int),
        0 <= r <= 255,
{
    let v: i32 = f[i] as i32 * 54 + f[i + 1] as i32 * 183 + f[i + 2] as i32 * 19;
    v / 256
}

/// The SAD of the block moved by `(dx, dy)`, which fits.
fn block_sad_at(
    prev: &[u8],
    curr: &[u8],
    width: usize,
    height: usize,
    block_size: usize,
    x0: usize,
    y0: usize,
    dx: i64,
    dy: i64,
    Ghost(m): Ghost<MotionSearch>,
) -> (r: i32)
    requires
        m.prev == prev@,
        m.curr == curr@,
        m.width == width,
        m.height == height,
        m.block_size == block_size,
        m.x0() == x0,
        m.y0() == y0,
        prev@.len() == width * height * 4,
        curr@.len() == width * height * 4,
        block_size <= width,
        block_size <= height,
        block_size * block_size * 255 <= i32::MAX,
        block_size > 0,
        width <= i32::MAX,
        height <= i32::MAX,
        width * height * 4 <= usize::MAX,
        m.fits(dx as int, dy as int),
        -0x1_0000_0000 < dx < 0x1_0000_0000,
        -0x1_0000_0000 < dy < 0x1_0000_0000,
    ensures
        r == m.sad(dx as int, dy as int),
{
    proof {
        assert(x0 + block_size <= width) by {
            assert(m.x0() == block_origin(width as int, block_size as int));
        }
        assert(y0 + block_size <= height) by {
            assert(m.y0() == block_origin(height as int, block_size as int));
        }
    }
    let mut sad: i32 = 0;
    let mut by: usize = 0;
    while by < block_size
        invariant
            m.prev == prev@,
            m.curr == curr@,
            m.width == width,
            m.height == height,
            m.block_size == block_size,
            m.x0() == x0,
            m.y0() == y0,
            prev@.len() == width * height * 4,
            curr@.len() == width * height * 4,
            x0 + block_size <= width,
            y0 + block_size <= height,
            block_size * block_size * 255 <= i32::MAX,
            m.fits(dx as int, dy as int),
            rect_fits(x0 as int, y0 as int, width as int, height as int, block_size as int, dx as int, dy as int),
            block_size > 0,
            width <= i32::MAX,
            height <= i32::MAX,
            width * height * 4 <= usize::MAX,
            -0x1_0000_0000 < dx < 0x1_0000_0000,
            -0x1_0000_0000 < dy < 0x1_0000_0000,
            by <= block_size,
            sad == m.block_sad(dx as int, dy as int, by as int),
        decreases block_size - by,
    {
        let y = y0 + by;
        assert(0 <= y as i64 + dy < height);
        let cy = (y as i64 + dy) as usize;
        let mut bx: usize = 0;
        let ghost before = sad as int;
        proof {
            lemma_block_bound(m, dx as int, dy as int, by as int);
            assert((by as int) * block_size * 255 + block_size * 255 <= block_size * block_size * 255) by (nonlinear_arith)
                requires
                    by < block_size,
            ;
        }
        while bx < block_size
            invariant
                m.prev == prev@,
                m.curr == curr@,
                m.width == width,
                m.height == height,
                m.block_size == block_size,
                m.x0() == x0,
                m.y0() == y0,
                prev@.len() == width * height * 4,
                curr@.len() == width * height * 4,
                x0 + block_size <= width,
                y0 + block_size <= height,
                m.fits(dx as int, dy as int),
                rect_fits(x0 as int, y0 as int, width as int, height as int, block_size as int, dx as int, dy as int),
                block_size > 0,
                width <= i32::MAX,
                height <= i32::MAX,
                width * height * 4 <= usize::MAX,
                -0x1_0000_0000 < dx < 0x1_0000_0000,
                -0x1_0000_0000 < dy < 0x1_0000_0000,
                0 <= cy < height,
                by < block_size,
                y == y0 + by,
                cy == y + dy,
                bx <= block_size,
                before == m.block_sad(dx as int, dy as int, by as int),
                0 <= before <= (by as int) * block_size * 255,
                (by as int) * block_size * 255 + block_size * 255 <= i32::MAX,
                sad == before + m.row_sad(y as int, dx as int, dy as int, bx as int),
            decreases block_size - bx,
        {
            let x = x0 + bx;
            assert(0 <= x as i64 + dx < width);
            let cx = (x as i64 + dx) as usize;
            proof {
                lemma_pixel_index(x as int, y as int, width as int, height as int);
                lemma_pixel_index(cx as int, cy as int, width as int, height as int);
                lemma_row_bound(m, y as int, dx as int, dy as int, bx as int + 1);
            }
            let a = pixel_luma(prev, (y * width + x) * 4);
            let b = pixel_luma(curr, (cy * width + cx) * 4);
            let d: i32 = if a >= b { a - b } else { b - a };
            sad = sad + d;
            bx = bx + 1;
        }
        by = by + 1;
    }
    sad
}

/// The motion of the reference block between two frames: the offset
/// `(dx, dy)` within `±search_range` whose block in `curr` fits in the
/// frame and has the smallest luma SAD against the block in `prev`. The
/// unmoved block is tried first and keeps ties; the other offsets are tried
/// row by row (`dy`, then `dx`, ascending) and one replaces the match only
/// with a strictly smaller SAD. `(0, 0)` when no offset fits.
pub fn estimate_motion_offset(
    prev: &[u8],
    curr: &[u8],
    width: usize,
    height: usize,
    block_size: usize,
    search_range: usize,
) -> (r: (i32, i32))
    requires
        prev@.len() == width * height * 4,
        curr@.len() == width * height * 4,
        block_size <= width,
        block_size <= height,
        block_size * block_size * 255 <= i32::MAX,
        width + search_range <= i32::MAX,
        height + search_range <= i32::MAX,
    ensures
        ({
            let m = MotionSearch {
                prev: prev@,
                curr: curr@,
                width: width as int,
                height: height as int,
                block_size: block_size as int,
                search_range: search_range as int,
            };
            r.0 == m.best().dx && r.1 == m.best().dy
        }),
{
    let ghost m = MotionSearch {
        prev: prev@,
        curr: curr@,
        width: width as int,
        height: height as int,
        block_size: block_size as int,
        search_range: search_range as int,
    };
    let n = prev.len();
    assert(n == width * height * 4);
    let x0: usize = if width / 2 >= block_size / 2 { width / 2 - block_size / 2 } else { 0 };
    let y0: usize = if height / 2 >= block_size / 2 { height / 2 - block_size / 2 } else { 0 };
    assert(x0 == m.x0() && y0 == m.y0());
    let w = width as i64;
    let h = height as i64;
    let bs = block_size as i64;
    let sr = search_range as i64;
    let mut found: bool = false;
    let mut best_sad: i32 = 0;
    let mut best_dx: i64 = 0;
    let mut best_dy: i64 = 0;
    if fits_at(x0 as i64, y0 as i64, w, h, bs, 0, 0) {
        found = true;
        best_sad = if block_size == 0 {
            0
        } else {
            block_sad_at(prev, curr, width, height, block_size, x0, y0, 0, 0, Ghost(m))
        };
    }
    assert(found == m.start().found && best_sad == m.start().sad && best_dx == m.start().dx
        && best_dy == m.start().dy);
    let mut row: i64 = 0;
    while row <= 2 * sr
        invariant
            m.prev == prev@,
            m.curr == curr@,
            m.width == width,
            m.height == height,
            m.block_size == block_size,
            m.search_range == search_range,
            m.x0() == x0,
            m.y0() == y0,
            w == width,
            h == height,
            bs == block_size,
            sr == search_range,
            prev@.len() == width * height * 4,
            curr@.len() == width * height * 4,
            block_size <= width,
            block_size <= height,
            block_size * block_size * 255 <= i32::MAX,
            width + search_range <= i32::MAX,
            height + search_range <= i32::MAX,
            0 <= row <= 2 * sr + 1,
            width * height * 4 <= usize::MAX,
            -sr <= best_dx <= sr,
            -sr <= best_dy <= sr,
            ({
                let st = m.scan_rows(row as int);
                found == st.found && best_sad == st.sad && best_dx == st.dx && best_dy == st.dy
            }),
        decreases 2 * sr + 1 - row,
    {
        let dy = row - sr;
        let mut col: i64 = 0;
        while col <= 2 * sr
            invariant
                m.prev == prev@,
                m.curr == curr@,
                m.width == width,
                m.height == height,
                m.block_size == block_size,
                m.search_range == search_range,
                m.x0() == x0,
                m.y0() == y0,
                w == width,
                h == height,
                bs == block_size,
                sr == search_range,
                prev@.len() == width * height * 4,
                curr@.len() == width * height * 4,
                block_size <= width,
                block_size <= height,
                block_size * block_size * 255 <= i32::MAX,
                width + search_range <= i32::MAX,
                height + search_range <= i32::MAX,
                0 <= row <= 2 * sr,
                dy == row - sr,
                0 <= col <= 2 * sr + 1,
                width * height * 4 <= usize::MAX,
                -sr <= best_dx <= sr,
                -sr <= best_dy <= sr,
                ({
                    let st = m.scan_row(m.scan_rows(row as int), dy as int, col as int);
                    found == st.found && best_sad == st.sad && best_dx == st.dx && best_dy == st.dy
                }),
            decreases 2 * sr + 1 - col,
        {
            let dx = col - sr;
            if fits_at(x0 as i64, y0 as i64, w, h, bs, dx, dy) {
                let sad = if block_size == 0 {
                    0
                } else {
                    block_sad_at(prev, curr, width, height, block_size, x0, y0, dx, dy, Ghost(m))
                };
                if !found || sad < best_sad {
                    found = true;
                    best_sad = sad;
                    best_dx = dx;
                    best_dy = dy;
                }
            }
            col = col + 1;
        }
        row = row + 1;
    }
    (best_dx as i32, best_dy as i32)
}


/// A state that holds a real match: a fitting offset in range with its
/// SAD (or nothing found, at `(0, 0)`).
pub open spec fn pick_sound(m: MotionSearch, st: MotionPick) -> bool {
    &&& st.found ==> m.fits(st.dx, st.dy) && st.sad == m.sad(st.dx, st.dy)
    &&& st.found ==> -m.search_range <= st.dx <= m.search_range && -m.search_range <= st.dy <= m.search_range
    &&& !st.found ==> st.dx == 0 && st.dy == 0
}

/// Whether the state beats or ties every fitting offset `(dx, dy)`.
pub open spec fn pick_covers(m: MotionSearch, st: MotionPick, dx: int, dy: int) -> bool {
    m.fits(dx, dy) ==> st.found && st.sad <= m.sad(dx, dy)
}

proof fn lemma_scan_row(m: MotionSearch, st: MotionPick, dy: int, n: int)
    requires
        m.search_range >= 0,
        -m.search_range <= dy <= m.search_range,
        0 <= n <= 2 * m.search_range + 1,
        pick_sound(m, st),
    ensures
        pick_sound(m, m.scan_row(st, dy, n)),
        st.found ==> m.scan_row(st, dy, n).found && m.scan_row(st, dy, n).sad <= st.sad,
        forall|dx: int| -m.search_range <= dx < -m.search_range + n ==> #[trigger] pick_covers(m, m.scan_row(st, dy, n), dx, dy),
        (forall|dx: int| -m.search_range <= dx < -m.search_range + n ==> m.fits(dx, dy) ==> m.sad(dx, dy) >= st.sad)
            && st.found ==> m.scan_row(st, dy, n) == st,
    decreases n,
{
    if n > 0 {
        lemma_scan_row(m, st, dy, n - 1);
        let prev = m.scan_row(st, dy, n - 1);
        let dx = -m.search_range + n - 1;
        let next = m.scan_row(st, dy, n);
        assert(next == m.step(prev, dx, dy));
        assert forall|x: int| -m.search_range <= x < -m.search_range + n implies #[trigger] pick_covers(m, next, x, dy) by {
            if x < dx {
                assert(pick_covers(m, prev, x, dy));
            }
        }
    }
}

proof fn lemma_scan_rows(m: MotionSearch, k: int)
    requires
        m.search_range >= 0,
        0 <= k <= 2 * m.search_range + 1,
    ensures
        pick_sound(m, m.scan_rows(k)),
        m.fits(0, 0) ==> m.scan_rows(k).found && m.scan_rows(k).sad <= m.sad(0, 0),
        forall|dx: int, dy: int| -m.search_range <= dx <= m.search_range && -m.search_range <= dy < -m.search_range + k
            ==> #[trigger] pick_covers(m, m.scan_rows(k), dx, dy),
        m.fits(0, 0) && (forall|dx: int, dy: int| -m.search_range <= dx <= m.search_range
            && -m.search_range <= dy <= m.search_range && m.fits(dx, dy) ==> m.sad(dx, dy) >= m.sad(0, 0))
            ==> m.scan_rows(k) == m.start(),
    decreases k,
{
    let r = m.search_range;
    if k == 0 {
        assert(pick_sound(m, m.start()));
    } else {
        lemma_scan_rows(m, k - 1);
        let before = m.scan_rows(k - 1);
        let dy = -r + k - 1;
        lemma_scan_row(m, before, dy, 2 * r + 1);
        let after = m.scan_rows(k);
        assert(after == m.scan_row(before, dy, 2 * r + 1));
        assert forall|dx: int, y: int| -r <= dx <= r && -r <= y < -r + k implies #[trigger] pick_covers(m, after, dx, y) by {
            if y < dy {
                assert(pick_covers(m, before, dx, y));
            } else {
                assert(pick_covers(m, after, dx, dy));
            }
        }
        if m.fits(0, 0) && (forall|dx: int, dy: int| -r <= dx <= r && -r <= dy <= r && m.fits(dx, dy)
            ==> m.sad(dx, dy) >= m.sad(0, 0)) {
            assert(before == m.start());
        }
    }
}

/// The motion found is the best match: it fits, it is in range, no fitting
/// offset in range has a smaller SAD, and the unmoved block wins when no
/// offset beats it (so identical frames give no motion). When nothing
/// fits, the motion is `(0, 0)`.
pub proof fn lemma_motion_is_best_match(m: MotionSearch)
    requires
        m.search_range >= 0,
    ensures
        pick_sound(m, m.best()),
        forall|dx: int, dy: int| -m.search_range <= dx <= m.search_range && -m.search_range <= dy <= m.search_range
            && m.fits(dx, dy) ==> m.best().found && m.best().sad <= #[trigger] m.sad(dx, dy),
        m.fits(0, 0) && (forall|dx: int, dy: int| -m.search_range <= dx <= m.search_range
            && -m.search_range <= dy <= m.search_range && m.fits(dx, dy) ==> m.sad(dx, dy) >= m.sad(0, 0))
            ==> m.best().dx == 0 && m.best().dy == 0,
{
    lemma_scan_rows(m, 2 * m.search_range + 1);
    assert forall|dx: int, dy: int| -m.search_range <= dx <= m.search_range && -m.search_range <= dy <= m.search_range
        && m.fits(dx, dy) implies m.best().found && m.best().sad <= #[trigger] m.sad(dx, dy) by {
        assert(pick_covers(m, m.best(), dx, dy));
    }
}


/// A byte of a cleared frame: black, opaque.
pub open spec fn cleared(i: int) -> u8 {
    if i % 4 == 3 {
        255
    } else {
        0
    }
}

/// Byte `i` of the frame `src` (`width × height`) moved by `(dx, dy)`:
/// the pixel at `(x, y)` is the source pixel at `(x - dx, y - dy)`, or
/// cleared when that is outside the frame. Whole pixels past the frame are
/// cleared too; bytes after the last whole pixel stay.
pub open spec fn shifted_at(src: Seq<u8>, width: int, height: int, dx: int, dy: int, i: int) -> u8 {
    let p = i / 4;
    let x = p % width;
    let y = p / width;
    if i >= src.len() / 4 * 4 {
        src[i]
    } else if p >= width * height {
        cleared(i)
    } else if 0 <= x - dx < width && 0 <= y - dy < height {
        src[((y - dy) * width + (x - dx)) * 4 + i % 4]
    } else {
        cleared(i)
    }
}

/// The coordinates of byte `(y * w + x) * 4 + c`.
proof fn lemma_byte_coords(x: int, y: int, w: int, c: int)
    requires
        0 <= x < w,
        0 <= y,
        0 <= c < 4,
    ensures
        ((y * w + x) * 4 + c) / 4 == y * w + x,
        ((y * w + x) * 4 + c) % 4 == c,
        (y * w + x) / w == y,
        (y * w + x) % w == x,
{
    lemma_fundamental_div_mod_converse((y * w + x) * 4 + c, 4, y * w + x, c);
    lemma_fundamental_div_mod_converse(y * w + x, w, y, x);
}

/// Moves the frame by `(dx, dy)`: the pixel at `(x, y)` becomes the one
/// that was at `(x - dx, y - dy)`, and pixels uncovered at the edges turn
/// black. No move leaves the frame as it is.
pub fn shift_frame(pixels: &mut Vec<u8>, width: usize, height: usize, dx: i32, dy: i32)
    requires
        old(pixels)@.len() >= width * height * 4,
        width <= i32::MAX,
        height <= i32::MAX,
        width > 0 ==> width - 1 - dx <= i32::MAX,
        height > 0 ==> height - 1 - dy <= i32::MAX,
    ensures
        final(pixels)@.len() == old(pixels)@.len(),
        dx == 0 && dy == 0 ==> final(pixels)@ == old(pixels)@,
        !(dx == 0 && dy == 0) ==> forall|i: int| 0 <= i < old(pixels)@.len() ==> #[trigger] final(pixels)@[i]
            == shifted_at(old(pixels)@, width as int, height as int, dx as int, dy as int, i),
{
    if dx == 0 && dy == 0 {
        return;
    }
    let src: Vec<u8> = pixels.clone();
    assert(src@ =~= old(pixels)@);
    let len = pixels.len();
    let whole = len / 4 * 4;
    let mut i: usize = 0;
    while i < whole
        invariant
            len == pixels@.len(),
            len == src@.len(),
            whole == len / 4 * 4,
            whole <= len,
            i <= whole,
            forall|j: int| 0 <= j < i ==> #[trigger] pixels@[j] == cleared(j),
            forall|j: int| i <= j < len ==> #[trigger] pixels@[j] == src@[j],
        decreases whole - i,
    {
        let v: u8 = if i % 4 == 3 { 255 } else { 0 };
        pixels.set(i, v);
        i = i + 1;
    }
    let ghost area = width as int * height as int;
    proof {
        assert(area * 4 <= whole) by (nonlinear_arith)
            requires
                area * 4 <= len,
                whole == len / 4 * 4,
        ;
        assert forall|j: int| area * 4 <= j < len implies #[trigger] pixels@[j] == shifted_at(src@, width as int, height as int, dx as int, dy as int, j) by {
            if j < whole {
                assert(j / 4 >= area) by (nonlinear_arith)
                    requires
                        area * 4 <= j,
                ;
            }
        }
    }
    let mut y: usize = 0;
    while y < height
        invariant
            len == pixels@.len(),
            len == src@.len(),
            whole == len / 4 * 4,
            area == width * height,
            area * 4 <= whole,
            width <= i32::MAX,
            height <= i32::MAX,
            width > 0 ==> width - 1 - dx <= i32::MAX,
            height > 0 ==> height - 1 - dy <= i32::MAX,
            y <= height,
            forall|j: int| 0 <= j < y * width * 4 ==> #[trigger] pixels@[j]
                == shifted_at(src@, width as int, height as int, dx as int, dy as int, j),
            forall|j: int| y * width * 4 <= j < area * 4 ==> #[trigger] pixels@[j] == cleared(j),
            forall|j: int| area * 4 <= j < len ==> #[trigger] pixels@[j]
                == shifted_at(src@, width as int, height as int, dx as int, dy as int, j),
        decreases height - y,
    {
        proof {
            assert((y + 1) * width <= area) by (nonlinear_arith)
                requires
                    y < height,
                    area == width * height,
            ;
            assert(y * width + width == (y + 1) * width) by (nonlinear_arith);
            assert(y * width * 4 == (y * width + 0) * 4);
        }
        let mut x: usize = 0;
        while x < width
            invariant
                len == pixels@.len(),
                len == src@.len(),
                whole == len / 4 * 4,
                area == width * height,
                area * 4 <= whole,
                width <= i32::MAX,
                height <= i32::MAX,
                width > 0 ==> width - 1 - dx <= i32::MAX,
                height > 0 ==> height - 1 - dy <= i32::MAX,
                y < height,
                (y + 1) * width <= area,
                y * width + width <= area,
                x <= width,
                forall|j: int| 0 <= j < (y * width + x) * 4 ==> #[trigger] pixels@[j]
                    == shifted_at(src@, width as int, height as int, dx as int, dy as int, j),
                forall|j: int| (y * width + x) * 4 <= j < area * 4 ==> #[trigger] pixels@[j] == cleared(j),
                forall|j: int| area * 4 <= j < len ==> #[trigger] pixels@[j]
                    == shifted_at(src@, width as int, height as int, dx as int, dy as int, j),
            decreases width - x,
        {
            let sx = x as i32 - dx;
            let sy = y as i32 - dy;
            let base = (y * width + x) * 4;
            proof {
                lemma_byte_coords(x as int, y as int, width as int, 0);
                lemma_byte_coords(x as int, y as int, width as int, 1);
                lemma_byte_coords(x as int, y as int, width as int, 2);
                lemma_byte_coords(x as int, y as int, width as int, 3);
                assert((y * width + x) < area);
            }
            if sx < 0 || sx >= width as i32 || sy < 0 || sy >= height as i32 {
                proof {
                    assert forall|c: int| 0 <= c < 4 implies #[trigger] pixels@[base + c]
                        == shifted_at(src@, width as int, height as int, dx as int, dy as int, base + c) by {
                        lemma_byte_coords(x as int, y as int, width as int, c);
                    }
                }
            } else {
                proof {
                    lemma_pixel_index(sx as int, sy as int, width as int, height as int);
                }
                let s = ((sy as usize) * width + sx as usize) * 4;
                pixels.set(base, src[s]);
                pixels.set(base + 1, src[s + 1]);
                pixels.set(base + 2, src[s + 2]);
                pixels.set(base + 3, src[s + 3]);
                proof {
                    assert forall|c: int| 0 <= c < 4 implies #[trigger] pixels@[base + c]
                        == shifted_at(src@, width as int, height as int, dx as int, dy as int, base + c) by {
                        lemma_byte_coords(x as int, y as int, width as int, c);
                    }
                }
            }
            x = x + 1;
        }
        assert((y * width + width) * 4 == (y + 1) * width * 4) by (nonlinear_arith);
        y = y + 1;
    }
}

/// Byte `i` of the centred `new_width × new_height` crop of a
/// `width × height` frame.
pub open spec fn cropped_at(src: Seq<u8>, width: int, height: int, new_width: int, new_height: int, i: int) -> u8 {
    let p = i / 4;
    let x = p % new_width;
    let y = p / new_width;
    let off_x = (width - new_width) / 2;
    let off_y = (height - new_height) / 2;
    src[((off_y + y) * width + off_x + x) * 4 + i % 4]
}

/// The centred `new_width × new_height` region of a frame, as a new
/// frame.
pub fn crop_frame(pixels: &[u8], width: usize, height: usize, new_width: usize, new_height: usize) -> (r: Vec<u8>)
    requires
        pixels@.len() >= width * height * 4,
        new_width <= width,
        new_height <= height,
    ensures
        r@.len() == new_width * new_height * 4,
        forall|i: int| 0 <= i < r@.len() ==> #[trigger] r@[i]
            == cropped_at(pixels@, width as int, height as int, new_width as int, new_height as int, i),
{
    let n = pixels.len();
    let off_x = (width - new_width) / 2;
    let off_y = (height - new_height) / 2;
    let mut out: Vec<u8> = Vec::new();
    let mut y: usize = 0;
    proof {
        assert(new_width * new_height <= width * height) by (nonlinear_arith)
            requires
                new_width <= width,
                new_height <= height,
        ;
    }
    while y < new_height
        invariant
            n == pixels@.len(),
            n >= width * height * 4,
            new_width <= width,
            new_height <= height,
            new_width * new_height <= width * height,
            off_x == (width - new_width) / 2,
            off_y == (height - new_height) / 2,
            y <= new_height,
            out@.len() == y * new_width * 4,
            forall|i: int| 0 <= i < out@.len() ==> #[trigger] out@[i]
                == cropped_at(pixels@, width as int, height as int, new_width as int, new_height as int, i),
        decreases new_height - y,
    {
        proof {
            assert((y + 1) * new_width <= new_width * new_height) by (nonlinear_arith)
                requires
                    y < new_height,
            ;
            assert(y * new_width * 4 == (y * new_width) * 4);
        }
        let mut x: usize = 0;
        while x < new_width
            invariant
                n == pixels@.len(),
                n >= width * height * 4,
                new_width <= width,
                new_height <= height,
                new_width * new_height <= width * height,
                off_x == (width - new_width) / 2,
                off_y == (height - new_height) / 2,
                y < new_height,
                (y + 1) * new_width <= new_width * new_height,
                x <= new_width,
                out@.len() == (y * new_width + x) * 4,
                forall|i: int| 0 <= i < out@.len() ==> #[trigger] out@[i]
                    == cropped_at(pixels@, width as int, height as int, new_width as int, new_height as int, i),
            decreases new_width - x,
        {
            let sx = off_x + x;
            let sy = off_y + y;
            proof {
                lemma_pixel_index(sx as int, sy as int, width as int, height as int);
            }
            let s = (sy * width + sx) * 4;
            let ghost base = (y * new_width + x) * 4;
            let mut c: usize = 0;
            while c < 4
                invariant
                    n == pixels@.len(),
                    s + 3 < n,
                    s == ((off_y + y) * width + off_x + x) * 4,
                    0 <= x < new_width,
                    off_x == (width - new_width) / 2,
                    off_y == (height - new_height) / 2,
                    base == (y * new_width + x) * 4,
                    c <= 4,
                    out@.len() == base + c,
                    forall|i: int| 0 <= i < out@.len() ==> #[trigger] out@[i]
                        == cropped_at(pixels@, width as int, height as int, new_width as int, new_height as int, i),
                decreases 4 - c,
            {
                proof {
                    lemma_byte_coords(x as int, y as int, new_width as int, c as int);
                }
                out.push(pixels[s + c]);
                c = c + 1;
            }
            x = x + 1;
        }
        assert((y * new_width + new_width) * 4 == (y + 1) * new_width * 4) by (nonlinear_arith);
        y = y + 1;
    }
    proof {
        assert(y * new_width * 4 == new_width * new_height * 4) by (nonlinear_arith)
            requires
                y == new_height,
        ;
    }
    out
}

} // verus!
