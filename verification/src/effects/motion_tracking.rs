//! Motion tracking: tracker kinds, tracking parameters, and the luma
//! patches the point tracker compares.

use vstd::prelude::*;

verus! {

/// Kind of tracker.
#[derive(Debug, Clone, Copy, PartialEq, Eq, Structural)]
pub enum TrackerKind {
    /// Single-point centroid tracker.
    Point,
    /// Planar (region) tracker.
    Planar,
    /// 3D camera solver.
    Camera,
}

/// Parameters for tracking.
#[derive(Debug, Clone)]
pub struct TrackParams {
    pub kind: TrackerKind,
    /// Search window half-size (pixels). 16 = ±16 px search.
    pub search_half_size: usize,
    /// Reference patch half-size (pixels). 8 = 16×16 patch.
    pub patch_half_size: usize,
}

impl Default for TrackParams {
    /// A point tracker searching ±16 px with a 17×17 patch.
    fn default() -> (r: Self)
        ensures
            r.kind == TrackerKind::Point,
            r.search_half_size == 16,
            r.patch_half_size == 8,
    {
        TrackParams { kind: TrackerKind::Point, search_half_size: 16, patch_half_size: 8 }
    }
}

/// The luma of pixel (`x`, `y`) of a `width`-wide RGBA frame:
/// `(54 R + 183 G + 19 B) >> 8`.
pub open spec fn luma_at(frame: Seq<u8>, width: int, x: int, y: int) -> u8 {
    let idx = (y * width + x) * 4;
    ((54 * frame[idx] + 183 * frame[idx + 1] + 19 * frame[idx + 2]) / 256) as u8
}

/// The lumas of `size` pixels of row `y`, from column `left` on.
pub open spec fn patch_row(frame: Seq<u8>, width: int, left: int, y: int, size: int) -> Seq<u8> {
    Seq::new(size as nat, |k: int| luma_at(frame, width, left + k, y))
}

/// The first `rows` rows of a patch, top to bottom.
pub open spec fn patch_rows(frame: Seq<u8>, width: int, left: int, top: int, size: int, rows: nat) -> Seq<u8>
    decreases rows,
{
    if rows == 0 {
        Seq::empty()
    } else {
        patch_rows(frame, width, left, top, size, (rows - 1) as nat) + patch_row(frame, width, left, top + rows - 1, size)
    }
}

/// The square luma patch of half-size `half` centred at (`cx`, `cy`), row
/// by row; none when it would reach outside the frame.
pub open spec fn patch_at(frame: Seq<u8>, width: int, height: int, cx: int, cy: int, half: int) -> Option<Seq<u8>> {
    let left = cx - half;
    let top = cy - half;
    let right = cx + half;
    let bottom = cy + half;
    if left < 0 || top < 0 || right >= width || bottom >= height {
        None
    } else {
        Some(patch_rows(frame, width, left, top, 2 * half + 1, (2 * half + 1) as nat))
    }
}

/// What patch extraction needs: the frame holds `width * height` RGBA
/// pixels, the dimensions and the half-size are `i32` values, and the patch
/// bounds are computed without `i32` overflow.
pub open spec fn patch_args_ok(frame: Seq<u8>, width: int, height: int, cx: int, cy: int, half: int) -> bool {
    &&& frame.len() >= width * height * 4
    &&& width <= i32::MAX
    &&& height <= i32::MAX
    &&& half <= i32::MAX
    &&& i32::MIN <= cx - half
    &&& cx + half <= i32::MAX
    &&& i32::MIN <= cy - half
    &&& cy + half <= i32::MAX
}

proof fn lemma_patch_index(x: int, y: int, w: int, h: int)
    requires
        0 <= x < w,
        0 <= y < h,
    ensures
        (y * w + x) * 4 + 3 < w * h * 4,
        0 <= y * w + x,
{
    assert(y * w + x < w * h) by (nonlinear_arith)
        requires 0 <= x < w, 0 <= y < h;
    assert(0 <= y * w) by (nonlinear_arith)
        requires 0 <= y, 0 <= w;
}

/// Extracts the square luma patch of half-size `half` centred at
/// (`cx`, `cy`); `None` if the patch would extend outside the frame.
pub fn extract_patch(frame: &[u8], width: usize, height: usize, cx: i32, cy: i32, half: usize) -> (r: Option<Vec<u8>>)
    requires
        patch_args_ok(frame@, width as int, height as int, cx as int, cy as int, half as int),
    ensures
        match patch_at(frame@, width as int, height as int, cx as int, cy as int, half as int) {
            Some(p) => r matches Some(v) && v@ == p,
            None => r is None,
        },
{
    let h = half as i32;
    let left = cx - h;
    let top = cy - h;
    let right = cx + h;
    let bottom = cy + h;
    if left < 0 || top < 0 || right >= width as i32 || bottom >= height as i32 {
        return None;
    }
    let flen = frame.len();
    let size: usize = half * 2 + 1;
    let l = left as usize;
    let t = top as usize;
    let mut patch: Vec<u8> = Vec::new();
    let mut row: usize = 0;
    while row < size
        invariant
            patch_args_ok(frame@, width as int, height as int, cx as int, cy as int, half as int),
            flen == frame@.len(),
            size == 2 * half + 1,
            l == cx - half,
            t == cy - half,
            l + size <= width,
            t + size <= height,
            row <= size,
            patch@ == patch_rows(frame@, width as int, l as int, t as int, size as int, row as nat),
        decreases size - row,
    {
        let y = t + row;
        let ghost before = patch@;
        let mut col: usize = 0;
        while col < size
            invariant
                patch_args_ok(frame@, width as int, height as int, cx as int, cy as int, half as int),
                flen == frame@.len(),
                size == 2 * half + 1,
                l + size <= width,
                t + size <= height,
                y == t + row,
                row < size,
                col <= size,
                patch@ == before + patch_row(frame@, width as int, l as int, y as int, col as int),
            decreases size - col,
        {
            let x = l + col;
            proof {
                lemma_patch_index(x as int, y as int, width as int, height as int);
            }
            let idx = (y * width + x) * 4;
            let r = frame[idx] as u32;
            let g = frame[idx + 1] as u32;
            let b = frame[idx + 2] as u32;
            let sum: u32 = r * 54 + g * 183 + b * 19;
            assert(sum >> 8 == sum / 256) by (bit_vector);
            let v = (sum >> 8) as u8;
            patch.push(v);
            col = col + 1;
            assert(patch@ =~= before + patch_row(frame@, width as int, l as int, y as int, col as int));
        }
        row = row + 1;
        assert(patch@ =~= patch_rows(frame@, width as int, l as int, t as int, size as int, row as nat));
    }
    Some(patch)
}

/// The number of lumas in the first `rows` rows of a patch.
proof fn lemma_patch_rows_len(frame: Seq<u8>, width: int, left: int, top: int, size: int, rows: nat)
    requires
        size >= 0,
    ensures
        patch_rows(frame, width, left, top, size, rows).len() == size * rows,
    decreases rows,
{
    if rows > 0 {
        let prev: nat = (rows - 1) as nat;
        lemma_patch_rows_len(frame, width, left, top, size, prev);
        assert(patch_row(frame, width, left, top + rows - 1, size).len() == size);
        assert(patch_rows(frame, width, left, top, size, rows).len() == size * prev + size);
        assert(size * prev + size == size * rows) by (nonlinear_arith)
            requires
                prev + 1 == rows,
        ;
    } else {
        assert(size * rows == 0) by (nonlinear_arith)
            requires
                rows == 0,
        ;
    }
}

/// Entry `r * size + c` of the first `rows` rows of a patch is the luma of
/// the pixel `c` columns right of `left` on row `top + r`.
proof fn lemma_patch_rows_entry(frame: Seq<u8>, width: int, left: int, top: int, size: int, rows: nat, r: int, c: int)
    requires
        size >= 0,
        0 <= r < rows,
        0 <= c < size,
    ensures
        patch_rows(frame, width, left, top, size, rows)[r * size + c] == luma_at(frame, width, left + c, top + r),
    decreases rows,
{
    let prev: nat = (rows - 1) as nat;
    lemma_patch_rows_len(frame, width, left, top, size, prev);
    let head = patch_rows(frame, width, left, top, size, prev);
    let row = patch_row(frame, width, left, top + rows - 1, size);
    assert(patch_rows(frame, width, left, top, size, rows) == head + row);
    if r < prev {
        lemma_patch_rows_entry(frame, width, left, top, size, prev, r, c);
        assert(r * size + c < size * prev) by (nonlinear_arith)
            requires
                0 <= r < prev,
                0 <= c < size,
        ;
    } else {
        assert(r * size == size * prev) by (nonlinear_arith)
            requires
                r == prev,
        ;
    }
}

/// Every entry of a patch is the BT.709 luma of its pixel: for row `r` and
/// column `c` of the patch, `(54 R + 183 G + 19 B) >> 8` of the RGBA bytes
/// of frame pixel (`cx - half + c`, `cy - half + r`); the patch has
/// `(2 half + 1)²` entries, row by row.
pub proof fn lemma_patch_is_luma(frame: Seq<u8>, width: int, height: int, cx: int, cy: int, half: int)
    requires
        half >= 0,
    ensures
        patch_at(frame, width, height, cx, cy, half) matches Some(p) ==> {
            &&& p.len() == (2 * half + 1) * (2 * half + 1)
            &&& forall|r: int, c: int| 0 <= r < 2 * half + 1 && 0 <= c < 2 * half + 1 ==> {
                let idx = ((cy - half + r) * width + (cx - half + c)) * 4;
                #[trigger] p[r * (2 * half + 1) + c]
                    == ((frame[idx] * 54 + frame[idx + 1] * 183 + frame[idx + 2] * 19) / 256) as u8
            }
        },
{
    let size = 2 * half + 1;
    if let Some(p) = patch_at(frame, width, height, cx, cy, half) {
        lemma_patch_rows_len(frame, width, cx - half, cy - half, size, size as nat);
        assert forall|r: int, c: int| 0 <= r < size && 0 <= c < size implies {
            let idx = ((cy - half + r) * width + (cx - half + c)) * 4;
            #[trigger] p[r * size + c] == ((frame[idx] * 54 + frame[idx + 1] * 183 + frame[idx + 2] * 19) / 256) as u8
        } by {
            lemma_patch_rows_entry(frame, width, cx - half, cy - half, size, size as nat, r, c);
        }
    }
}

/// The sum of absolute differences of the first `n` lumas of two patches.
pub open spec fn patch_sad(a: Seq<u8>, b: Seq<u8>, n: int) -> int
    decreases n,
{
    if n <= 0 {
        0
    } else {
        patch_sad(a, b, n - 1) + if a[n - 1] >= b[n - 1] { a[n - 1] - b[n - 1] } else { b[n - 1] - a[n - 1] }
    }
}

/// The inputs of a point-tracker search, as the contracts see them: the
/// frame, the start position, and the search and patch half-sizes.
pub struct PatchSearch {
    pub frame: Seq<u8>,
    pub width: int,
    pub height: int,
    pub sx: int,
    pub sy: int,
    pub search_half: int,
    pub patch_half: int,
}

/// A search state: the smallest SAD so far and where it was found.
pub struct PatchPick {
    pub sad: int,
    pub x: int,
    pub y: int,
}

impl PatchSearch {
    /// The reference patch, centred at the start position.
    pub open spec fn reference(self) -> Option<Seq<u8>> {
        patch_at(self.frame, self.width, self.height, self.sx, self.sy, self.patch_half)
    }

    /// The candidate patch at the start position moved by `(dx, dy)`.
    pub open spec fn candidate(self, dx: int, dy: int) -> Option<Seq<u8>> {
        patch_at(self.frame, self.width, self.height, self.sx + dx, self.sy + dy, self.patch_half)
    }

    /// The SAD of the reference and the candidate at `(dx, dy)`.
    pub open spec fn sad(self, dx: int, dy: int) -> int {
        let r = self.reference()->0;
        patch_sad(r, self.candidate(dx, dy)->0, r.len() as int)
    }

    /// The state before the scan: no SAD yet (`i32::MAX`), at the start.
    pub open spec fn start(self) -> PatchPick {
        PatchPick { sad: i32::MAX as int, x: self.sx, y: self.sy }
    }

    /// One step of the scan: a candidate inside the frame with a smaller
    /// SAD becomes the match.
    pub open spec fn step(self, st: PatchPick, dx: int, dy: int) -> PatchPick {
        if self.candidate(dx, dy) is Some && self.sad(dx, dy) < st.sad {
            PatchPick { sad: self.sad(dx, dy), x: self.sx + dx, y: self.sy + dy }
        } else {
            st
        }
    }

    /// The state after the first `n` offsets of row `dy`, from `-half`.
    pub open spec fn scan_row(self, st: PatchPick, dy: int, n: int) -> PatchPick
        decreases n,
    {
        if n <= 0 {
            st
        } else {
            self.step(self.scan_row(st, dy, n - 1), -self.search_half + n - 1, dy)
        }
    }

    /// The state after the first `m` rows of offsets, from `-half`.
    pub open spec fn scan_rows(self, m: int) -> PatchPick
        decreases m,
    {
        if m <= 0 {
            self.start()
        } else {
            self.scan_row(self.scan_rows(m - 1), -self.search_half + m - 1, 2 * self.search_half + 1)
        }
    }

    /// The match: the final state of the scan over `dy` then `dx` from
    /// `-half` to `half`.
    pub open spec fn best(self) -> PatchPick {
        self.scan_rows(2 * self.search_half + 1)
    }
}

/// A state that holds a real match: the start with no SAD, or an in-window
/// candidate inside the frame with its SAD.
pub open spec fn patch_pick_sound(m: PatchSearch, st: PatchPick) -> bool {
    ||| st == m.start()
    ||| exists|dx: int, dy: int| #![trigger m.sad(dx, dy)]
        -m.search_half <= dx <= m.search_half && -m.search_half <= dy <= m.search_half
            && m.candidate(dx, dy) is Some && st.sad == m.sad(dx, dy) && st.x == m.sx + dx && st.y == m.sy + dy
}

/// Whether the state beats or ties the candidate at `(dx, dy)`.
pub open spec fn patch_pick_covers(m: PatchSearch, st: PatchPick, dx: int, dy: int) -> bool {
    m.candidate(dx, dy) is Some ==> st.sad <= m.sad(dx, dy)
}

proof fn lemma_patch_scan_row(m: PatchSearch, st: PatchPick, dy: int, n: int)
    requires
        m.search_half >= 0,
        -m.search_half <= dy <= m.search_half,
        0 <= n <= 2 * m.search_half + 1,
        patch_pick_sound(m, st),
    ensures
        patch_pick_sound(m, m.scan_row(st, dy, n)),
        m.scan_row(st, dy, n).sad <= st.sad,
        forall|dx: int| -m.search_half <= dx < -m.search_half + n
            ==> #[trigger] patch_pick_covers(m, m.scan_row(st, dy, n), dx, dy),
    decreases n,
{
    if n > 0 {
        lemma_patch_scan_row(m, st, dy, n - 1);
        let prev = m.scan_row(st, dy, n - 1);
        let dx = -m.search_half + n - 1;
        let next = m.scan_row(st, dy, n);
        assert(next == m.step(prev, dx, dy));
        if m.candidate(dx, dy) is Some && m.sad(dx, dy) < prev.sad {
            assert(next.sad == m.sad(dx, dy));
        }
        assert forall|x: int| -m.search_half <= x < -m.search_half + n implies #[trigger] patch_pick_covers(m, next, x, dy) by {
            if x < dx {
                assert(patch_pick_covers(m, prev, x, dy));
            }
        }
    }
}

proof fn lemma_patch_scan_rows(m: PatchSearch, k: int)
    requires
        m.search_half >= 0,
        0 <= k <= 2 * m.search_half + 1,
    ensures
        patch_pick_sound(m, m.scan_rows(k)),
        forall|dx: int, dy: int| -m.search_half <= dx <= m.search_half && -m.search_half <= dy < -m.search_half + k
            ==> #[trigger] patch_pick_covers(m, m.scan_rows(k), dx, dy),
    decreases k,
{
    let h = m.search_half;
    if k > 0 {
        lemma_patch_scan_rows(m, k - 1);
        let before = m.scan_rows(k - 1);
        let dy = -h + k - 1;
        lemma_patch_scan_row(m, before, dy, 2 * h + 1);
        let after = m.scan_rows(k);
        assert(after == m.scan_row(before, dy, 2 * h + 1));
        assert forall|dx: int, y: int| -h <= dx <= h && -h <= y < -h + k implies #[trigger] patch_pick_covers(m, after, dx, y) by {
            if y < dy {
                assert(patch_pick_covers(m, before, dx, y));
            } else {
                assert(patch_pick_covers(m, after, dx, dy));
            }
        }
    }
}

/// A patch compared with itself has a SAD of 0.
proof fn lemma_patch_sad_self(p: Seq<u8>, n: int)
    ensures
        patch_sad(p, p, n) == 0,
    decreases n,
{
    if n > 0 {
        lemma_patch_sad_self(p, n - 1);
    }
}

/// The point tracker's match is the best one: it is the start or an
/// in-window candidate inside the frame with its SAD, no candidate inside
/// the frame has a smaller SAD, and, when the reference patch lies inside
/// the frame, its SAD is 0 (the reference matches itself).
pub proof fn lemma_tracker_best_match(m: PatchSearch)
    requires
        m.search_half >= 0,
    ensures
        patch_pick_sound(m, m.best()),
        forall|dx: int, dy: int| -m.search_half <= dx <= m.search_half && -m.search_half <= dy <= m.search_half
            && m.candidate(dx, dy) is Some ==> m.best().sad <= #[trigger] m.sad(dx, dy),
        m.reference() is Some ==> m.best().sad == 0,
{
    let h = m.search_half;
    lemma_patch_scan_rows(m, 2 * h + 1);
    assert forall|dx: int, dy: int| -h <= dx <= h && -h <= dy <= h && m.candidate(dx, dy) is Some
        implies m.best().sad <= #[trigger] m.sad(dx, dy) by {
        assert(patch_pick_covers(m, m.best(), dx, dy));
    }
    if m.reference() is Some {
        assert(m.candidate(0, 0) == m.reference());
        lemma_patch_sad_self(m.reference()->0, m.reference()->0.len() as int);
        assert(m.best().sad <= m.sad(0, 0));
        assert(m.best().sad >= 0) by {
            lemma_patch_sad_nonneg(m);
        }
    }
}

proof fn lemma_sad_nonneg(a: Seq<u8>, b: Seq<u8>, n: int)
    ensures
        patch_sad(a, b, n) >= 0,
    decreases n,
{
    if n > 0 {
        lemma_sad_nonneg(a, b, n - 1);
    }
}

proof fn lemma_patch_sad_nonneg(m: PatchSearch)
    requires
        m.search_half >= 0,
        patch_pick_sound(m, m.best()),
    ensures
        m.best().sad >= 0,
{
    if m.best() != m.start() {
        let (dx, dy) = choose|dx: int, dy: int| #![trigger m.sad(dx, dy)]
            -m.search_half <= dx <= m.search_half && -m.search_half <= dy <= m.search_half
                && m.candidate(dx, dy) is Some && m.best().sad == m.sad(dx, dy) && m.best().x == m.sx + dx
                && m.best().y == m.sy + dy;
        let r = m.reference()->0;
        lemma_sad_nonneg(r, m.candidate(dx, dy)->0, r.len() as int);
    }
}

/// What a search needs: the frame holds `width * height` RGBA pixels, every
/// patch bound of the search window is an `i32`, and a patch's SAD fits in
/// an `i32`.
pub open spec fn search_args_ok(
    frame: Seq<u8>,
    width: int,
    height: int,
    sx: int,
    sy: int,
    search_half: int,
    patch_half: int,
) -> bool {
    &&& frame.len() >= width * height * 4
    &&& width <= i32::MAX
    &&& height <= i32::MAX
    &&& i32::MIN <= sx - search_half - patch_half
    &&& sx + search_half + patch_half <= i32::MAX
    &&& i32::MIN <= sy - search_half - patch_half
    &&& sy + search_half + patch_half <= i32::MAX
    &&& (2 * patch_half + 1) * (2 * patch_half + 1) * 255 <= i32::MAX
}

/// The SAD of two patches of equal length.
fn sad_of(a: &Vec<u8>, b: &Vec<u8>) -> (r: i32)
    requires
        a@.len() == b@.len(),
        a@.len() * 255 <= i32::MAX,
    ensures
        r == patch_sad(a@, b@, a@.len() as int),
{
    let mut acc: i32 = 0;
    let mut i: usize = 0;
    while i < a.len()
        invariant
            a@.len() == b@.len(),
            a@.len() * 255 <= i32::MAX,
            i <= a@.len(),
            acc == patch_sad(a@, b@, i as int),
            0 <= acc <= 255 * i,
        decreases a@.len() - i,
    {
        let x = a[i];
        let y = b[i];
        let d: i32 = if x >= y { (x - y) as i32 } else { (y - x) as i32 };
        acc = acc + d;
        i = i + 1;
    }
    acc
}

/// Searches `±search_half` pixels around `(sx, sy)` for the patch that best
/// matches the reference patch centred at `(sx, sy)`: the first candidate
/// inside the frame, scanning rows then columns, with the smallest luma
/// SAD. Returns the position found and its SAD; `None` when the reference
/// patch reaches outside the frame.
pub fn find_best_match(
    frame: &[u8],
    width: usize,
    height: usize,
    sx: i32,
    sy: i32,
    search_half: usize,
    patch_half: usize,
) -> (r: Option<(i32, i32, i32)>)
    requires
        search_args_ok(frame@, width as int, height as int, sx as int, sy as int, search_half as int, patch_half as int),
    ensures
        ({
            let m = PatchSearch {
                frame: frame@,
                width: width as int,
                height: height as int,
                sx: sx as int,
                sy: sy as int,
                search_half: search_half as int,
                patch_half: patch_half as int,
            };
            &&& r is None <==> m.reference() is None
            &&& r matches Some(t) ==> t.0 == m.best().x && t.1 == m.best().y && t.2 == m.best().sad
        }),
{
    let ghost m = PatchSearch {
        frame: frame@,
        width: width as int,
        height: height as int,
        sx: sx as int,
        sy: sy as int,
        search_half: search_half as int,
        patch_half: patch_half as int,
    };
    let reference = match extract_patch(frame, width, height, sx, sy, patch_half) {
        Some(p) => p,
        None => return None,
    };
    let ghost size = 2 * patch_half + 1;
    proof {
        lemma_patch_rows_len(frame@, width as int, sx - patch_half, sy - patch_half, size, size as nat);
    }
    let sh = search_half as i64;
    let mut best_sad: i32 = i32::MAX;
    let mut best_x: i32 = sx;
    let mut best_y: i32 = sy;
    let mut row: i64 = 0;
    while row <= 2 * sh
        invariant
            search_args_ok(frame@, width as int, height as int, sx as int, sy as int, search_half as int, patch_half as int),
            m.frame == frame@,
            m.width == width,
            m.height == height,
            m.sx == sx,
            m.sy == sy,
            m.search_half == search_half,
            m.patch_half == patch_half,
            sh == search_half,
            size == 2 * patch_half + 1,
            m.reference() == Some(reference@),
            reference@.len() == size * size,
            0 <= row <= 2 * sh + 1,
            ({
                let st = m.scan_rows(row as int);
                best_sad == st.sad && best_x == st.x && best_y == st.y
            }),
        decreases 2 * sh + 1 - row,
    {
        let dy = row - sh;
        let mut col: i64 = 0;
        while col <= 2 * sh
            invariant
                search_args_ok(frame@, width as int, height as int, sx as int, sy as int, search_half as int, patch_half as int),
                m.frame == frame@,
                m.width == width,
                m.height == height,
                m.sx == sx,
                m.sy == sy,
                m.search_half == search_half,
                m.patch_half == patch_half,
                sh == search_half,
                size == 2 * patch_half + 1,
                m.reference() == Some(reference@),
                reference@.len() == size * size,
                0 <= row <= 2 * sh,
                dy == row - sh,
                0 <= col <= 2 * sh + 1,
                ({
                    let st = m.scan_row(m.scan_rows(row as int), dy as int, col as int);
                    best_sad == st.sad && best_x == st.x && best_y == st.y
                }),
            decreases 2 * sh + 1 - col,
        {
            let dx = col - sh;
            let cx = (sx as i64 + dx) as i32;
            let cy = (sy as i64 + dy) as i32;
            match extract_patch(frame, width, height, cx, cy, patch_half) {
                Some(candidate) => {
                    proof {
                        lemma_patch_rows_len(frame@, width as int, cx - patch_half, cy - patch_half, size, size as nat);
                    }
                    let sad = sad_of(&reference, &candidate);
                    if sad < best_sad {
                        best_sad = sad;
                        best_x = cx;
                        best_y = cy;
                    }
                }
                None => {}
            }
            col = col + 1;
        }
        row = row + 1;
    }
    Some((best_x, best_y, best_sad))
}

} // verus!
