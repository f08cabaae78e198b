//! Colour match: histogram matching between two RGBA frames.
//!
//! For each colour channel the cumulative histogram (CDF) of the source
//! frame and of the reference frame are counted; every value `i` that some
//! source pixel has is sent to the first value whose reference CDF reaches
//! the source CDF at `i`. A value that no source pixel has is kept, so two
//! identical frames give the identity mapping.

use vstd::prelude::*;

verus! {

/// The per-channel mapping: `lut[channel][input] == output`.
pub struct ColorMatchLut {
    pub lut: [[u8; 256]; 3],
}

/// Among the first `k` pixels of an RGBA buffer, how many have channel
/// `ch` at most `v`.
pub open spec fn count_at_most(px: Seq<u8>, ch: int, v: int, k: nat) -> nat
    decreases k,
{
    if k == 0 {
        0
    } else {
        count_at_most(px, ch, v, (k - 1) as nat) + if px[4 * (k - 1) + ch] <= v { 1nat } else { 0nat }
    }
}

/// Among the first `k` pixels of an RGBA buffer, how many have channel
/// `ch` equal to `v`.
pub open spec fn count_equal(px: Seq<u8>, ch: int, v: int, k: nat) -> nat
    decreases k,
{
    if k == 0 {
        0
    } else {
        count_equal(px, ch, v, (k - 1) as nat) + if px[4 * (k - 1) + ch] == v { 1nat } else { 0nat }
    }
}

/// Cumulative histogram of channel `ch` at value `v`: the number of pixels of
/// the frame whose channel `ch` is at most `v`.
pub open spec fn cdf_at(px: Seq<u8>, ch: int, v: int) -> int {
    count_at_most(px, ch, v, px.len() / 4) as int
}

/// The whole cumulative histogram of channel `ch` (256 entries).
pub open spec fn cdf(px: Seq<u8>, ch: int) -> Seq<int> {
    Seq::new(256, |v: int| cdf_at(px, ch, v))
}

/// `l` is the first index of `c` whose entry reaches `t` (255 when none of
/// the entries before the last reaches it).
pub open spec fn is_first_reaching(c: Seq<int>, t: int, l: int) -> bool {
    &&& 0 <= l <= 255
    &&& forall|j: int| 0 <= j < l ==> c[j] < t
    &&& (l == 255 || c[l] >= t)
}

/// The first index of `c` whose entry reaches `t` (255 when none before).
pub open spec fn first_reaching(c: Seq<int>, t: int) -> int {
    choose|l: int| is_first_reaching(c, t, l)
}

/// The number of source pixels whose channel `ch` lies below `i`.
pub open spec fn rank_before(source: Seq<u8>, ch: int, i: int) -> int {
    if i == 0 { 0 } else { cdf_at(source, ch, i - 1) }
}

/// Whether some source pixel has value `i` in channel `ch`: the source CDF
/// rises at `i`.
pub open spec fn occurs(source: Seq<u8>, ch: int, i: int) -> bool {
    rank_before(source, ch, i) < cdf_at(source, ch, i)
}

/// The output value for input `i` of channel `ch`: for a value some source
/// pixel has, the first value whose reference CDF reaches the source CDF at
/// `i`; any other value is kept.
pub open spec fn matched_value(source: Seq<u8>, reference: Seq<u8>, ch: int, i: int) -> int {
    if occurs(source, ch, i) {
        first_reaching(cdf(reference, ch), cdf_at(source, ch, i))
    } else {
        i
    }
}

/// The frame layout the matching needs: `width * height` RGBA pixels.
pub open spec fn is_rgba_frame(px: Seq<u8>, width: int, height: int) -> bool {
    px.len() == width * height * 4
}

proof fn lemma_first_reaching_unique(c: Seq<int>, t: int, l: int)
    requires
        is_first_reaching(c, t, l),
    ensures
        first_reaching(c, t) == l,
{
    let l2 = first_reaching(c, t);
    assert(is_first_reaching(c, t, l2));
    if l2 < l {
        assert(c[l2] < t);
    } else if l < l2 {
        assert(c[l] < t);
    }
}

proof fn lemma_count_split(px: Seq<u8>, ch: int, v: int, k: nat)
    requires
        4 * k <= px.len(),
        0 <= ch < 4,
    ensures
        v >= 1 ==> count_at_most(px, ch, v, k) == count_at_most(px, ch, v - 1, k) + count_equal(px, ch, v, k),
        v == 0 ==> count_at_most(px, ch, v, k) == count_equal(px, ch, v, k),
        count_at_most(px, ch, v, k) <= k,
    decreases k,
{
    if k > 0 {
        lemma_count_split(px, ch, v, (k - 1) as nat);
    }
}

proof fn lemma_cdf_monotone(px: Seq<u8>, ch: int, u: int, v: int, k: nat)
    requires
        4 * k <= px.len(),
        0 <= ch < 4,
        u <= v,
    ensures
        count_at_most(px, ch, u, k) <= count_at_most(px, ch, v, k),
    decreases k,
{
    if k > 0 {
        lemma_cdf_monotone(px, ch, u, v, (k - 1) as nat);
    }
}

proof fn lemma_first_reaching_from(c: Seq<int>, t: int, j: int) -> (l: int)
    requires
        0 <= j <= 255,
        forall|k: int| 0 <= k < j ==> c[k] < t,
    ensures
        is_first_reaching(c, t, l),
    decreases 255 - j,
{
    if j == 255 || c[j] >= t {
        j
    } else {
        lemma_first_reaching_from(c, t, j + 1)
    }
}

proof fn lemma_first_reaching_holds(c: Seq<int>, t: int)
    ensures
        is_first_reaching(c, t, first_reaching(c, t)),
{
    let l = lemma_first_reaching_from(c, t, 0);
    lemma_first_reaching_unique(c, t, l);
}

/// Matching a frame against itself gives the identity mapping: every input
/// value of every channel is sent to itself.
pub proof fn lemma_identical_frames_give_identity(frame: Seq<u8>, ch: int, i: int)
    requires
        0 <= ch < 3,
        0 <= i < 256,
        frame.len() % 4 == 0,
    ensures
        matched_value(frame, frame, ch, i) == i,
{
    let c = cdf(frame, ch);
    let n = frame.len() / 4;
    let t = cdf_at(frame, ch, i);
    if occurs(frame, ch, i) {
        assert(c[i] == t);
        assert forall|j: int| 0 <= j < i implies c[j] < t by {
            lemma_cdf_monotone(frame, ch, j, i - 1, n);
            assert(c[i - 1] == rank_before(frame, ch, i));
        }
        assert(is_first_reaching(c, t, i));
        lemma_first_reaching_unique(c, t, i);
    }
}

/// The mapping is non-decreasing on the values the source has: a brighter
/// source value is never sent below a darker one.
pub proof fn lemma_mapping_monotone(source: Seq<u8>, reference: Seq<u8>, ch: int, i: int, k: int)
    requires
        0 <= ch < 3,
        0 <= i <= k < 256,
        source.len() % 4 == 0,
        occurs(source, ch, i),
        occurs(source, ch, k),
    ensures
        matched_value(source, reference, ch, i) <= matched_value(source, reference, ch, k),
{
    let c = cdf(reference, ch);
    let n = source.len() / 4;
    lemma_cdf_monotone(source, ch, i, k, n);
    lemma_first_reaching_order(c, cdf_at(source, ch, i), cdf_at(source, ch, k));
}

/// `first_reaching` is non-decreasing in its target.
proof fn lemma_first_reaching_order(c: Seq<int>, t: int, u: int)
    ensures
        t <= u ==> first_reaching(c, t) <= first_reaching(c, u),
{
    lemma_first_reaching_holds(c, t);
    lemma_first_reaching_holds(c, u);
    let lt = first_reaching(c, t);
    let lu = first_reaching(c, u);
    if t <= u && lu < lt {
        assert(c[lu] < t);
    }
}

/// The cumulative histogram of channel `ch`, counted.
fn channel_cdf(px: &[u8], ch: usize) -> (c: Vec<u64>)
    requires
        ch < 4,
        px@.len() % 4 == 0,
        px@.len() / 4 <= u32::MAX,
    ensures
        c@.len() == 256,
        forall|v: int| 0 <= v < 256 ==> #[trigger] c@[v] == cdf_at(px@, ch as int, v),
        forall|u: int, v: int| 0 <= u <= v < 256 ==> c@[u] <= c@[v],
        forall|v: int| 0 <= v < 256 ==> #[trigger] c@[v] <= px@.len() / 4,
{
    let len: usize = px.len();
    let n: usize = len / 4;
    assert(4 * n <= px@.len());
    let mut hist: Vec<u64> = Vec::new();
    let mut v: usize = 0;
    while v < 256
        invariant
            v <= 256,
            hist@.len() == v,
            forall|u: int| 0 <= u < v ==> #[trigger] hist@[u] == 0,
        decreases 256 - v,
    {
        hist.push(0);
        v = v + 1;
    }
    let mut k: usize = 0;
    while k < n
        invariant
            n == px@.len() / 4,
            4 * n <= px@.len(),
            len == px@.len(),
            px@.len() % 4 == 0,
            n <= u32::MAX,
            ch < 4,
            k <= n,
            hist@.len() == 256,
            forall|u: int| 0 <= u < 256 ==> #[trigger] hist@[u] == count_equal(px@, ch as int, u, k as nat),
            forall|u: int| 0 <= u < 256 ==> #[trigger] hist@[u] <= k,
        decreases n - k,
    {
        let b = px[4 * k + ch] as usize;
        let old_count = hist[b];
        hist.set(b, old_count + 1);
        k = k + 1;
        assert forall|u: int| 0 <= u < 256 implies #[trigger] hist@[u] == count_equal(px@, ch as int, u, k as nat) by {
            assert(count_equal(px@, ch as int, u, k as nat) == count_equal(px@, ch as int, u, (k - 1) as nat)
                + if px@[4 * (k - 1) + ch] == u { 1nat } else { 0nat });
        }
    }
    let mut c: Vec<u64> = Vec::new();
    let mut sum: u64 = 0;
    let mut v: usize = 0;
    while v < 256
        invariant
            n == px@.len() / 4,
            px@.len() % 4 == 0,
            n <= u32::MAX,
            ch < 4,
            v <= 256,
            hist@.len() == 256,
            forall|u: int| 0 <= u < 256 ==> #[trigger] hist@[u] == count_equal(px@, ch as int, u, n as nat),
            c@.len() == v,
            forall|u: int| 0 <= u < v ==> #[trigger] c@[u] == cdf_at(px@, ch as int, u),
            forall|u: int| 0 <= u < v ==> #[trigger] c@[u] <= n,
            v > 0 ==> sum == c@[v - 1],
            v == 0 ==> sum == 0,
        decreases 256 - v,
    {
        proof {
            lemma_count_split(px@, ch as int, v as int, n as nat);
        }
        sum = sum + hist[v];
        c.push(sum);
        v = v + 1;
    }
    assert forall|u: int, w: int| 0 <= u <= w < 256 implies c@[u] <= c@[w] by {
        lemma_cdf_monotone(px@, ch as int, u, w, n as nat);
    }
    c
}

/// Binary search for the first index of a non-decreasing table whose entry
/// reaches `t`.
fn first_reaching_index(c: &Vec<u64>, t: u64) -> (l: usize)
    requires
        c@.len() == 256,
        forall|u: int, v: int| 0 <= u <= v < 256 ==> c@[u] <= c@[v],
    ensures
        l <= 255,
        forall|j: int| 0 <= j < l ==> c@[j] < t,
        l == 255 || c@[l as int] >= t,
{
    let mut lo: usize = 0;
    let mut hi: usize = 255;
    while lo < hi
        invariant
            c@.len() == 256,
            forall|u: int, v: int| 0 <= u <= v < 256 ==> c@[u] <= c@[v],
            lo <= hi <= 255,
            forall|j: int| 0 <= j < lo ==> c@[j] < t,
            hi == 255 || c@[hi as int] >= t,
        decreases hi - lo,
    {
        let mid = lo + (hi - lo) / 2;
        if c[mid] < t {
            lo = mid + 1;
        } else {
            hi = mid;
        }
    }
    lo
}

/// The mapping of one channel.
fn channel_lut(source: &[u8], reference: &[u8], ch: usize) -> (row: [u8; 256])
    requires
        ch < 3,
        source@.len() == reference@.len(),
        source@.len() % 4 == 0,
        source@.len() / 4 <= u32::MAX,
    ensures
        forall|i: int| 0 <= i < 256 ==> #[trigger] row@[i] == matched_value(source@, reference@, ch as int, i),
{
    let src_cdf = channel_cdf(source, ch);
    let ref_cdf = channel_cdf(reference, ch);
    let ghost c = cdf(reference@, ch as int);
    assert forall|j: int| 0 <= j < 256 implies #[trigger] c[j] == ref_cdf@[j] by {}
    let mut row = [0u8; 256];
    let mut i: usize = 0;
    while i < 256
        invariant
            i <= 256,
            ch < 3,
            src_cdf@.len() == 256,
            ref_cdf@.len() == 256,
            forall|v: int| 0 <= v < 256 ==> #[trigger] src_cdf@[v] == cdf_at(source@, ch as int, v),
            forall|v: int| 0 <= v < 256 ==> #[trigger] ref_cdf@[v] == cdf_at(reference@, ch as int, v),
            forall|u: int, v: int| 0 <= u <= v < 256 ==> ref_cdf@[u] <= ref_cdf@[v],
            forall|v: int| 0 <= v < 256 ==> src_cdf@[v] <= u32::MAX,
            c == cdf(reference@, ch as int),
            c.len() == 256,
            forall|j: int| 0 <= j < 256 ==> #[trigger] c[j] == ref_cdf@[j],
            forall|j: int| 0 <= j < i ==> #[trigger] row@[j] == matched_value(source@, reference@, ch as int, j),
        decreases 256 - i,
    {
        let t = src_cdf[i];
        let before: u64 = if i == 0 { 0 } else { src_cdf[i - 1] };
        let m: usize = if before < t {
            let b = first_reaching_index(&ref_cdf, t);
            proof {
                assert(is_first_reaching(c, t as int, b as int));
                lemma_first_reaching_unique(c, t as int, b as int);
            }
            b
        } else {
            i
        };
        row[i] = m as u8;
        i = i + 1;
    }
    row
}

/// Computes the colour-match mapping that brings `source` towards the
/// colour distribution of `reference`. Both frames hold `width * height`
/// RGBA pixels.
pub fn compute_match_lut(source: &[u8], reference: &[u8], width: usize, height: usize) -> (r: ColorMatchLut)
    requires
        is_rgba_frame(source@, width as int, height as int),
        is_rgba_frame(reference@, width as int, height as int),
        width * height <= u32::MAX,
    ensures
        forall|ch: int, i: int|
            0 <= ch < 3 && 0 <= i < 256 ==> #[trigger] r.lut[ch][i] == matched_value(source@, reference@, ch, i),
{
    proof {
        assert(source@.len() % 4 == 0 && source@.len() / 4 == width * height) by (nonlinear_arith)
            requires source@.len() == width * height * 4;
    }
    let r0 = channel_lut(source, reference, 0);
    let r1 = channel_lut(source, reference, 1);
    let r2 = channel_lut(source, reference, 2);
    let r = ColorMatchLut { lut: [r0, r1, r2] };
    assert forall|ch: int, i: int| 0 <= ch < 3 && 0 <= i < 256 implies #[trigger] r.lut[ch][i] == matched_value(source@, reference@, ch, i) by {
        if ch == 0 {
            assert(r.lut[ch] == r0);
        } else if ch == 1 {
            assert(r.lut[ch] == r1);
        } else {
            assert(r.lut[ch] == r2);
        }
    }
    r
}

/// The value a byte of an RGBA buffer takes after the mapping: the first
/// three bytes of every whole pixel go through their channel's table, the
/// alpha byte and any trailing partial pixel stay.
pub open spec fn mapped_byte(px: Seq<u8>, lut: ColorMatchLut, idx: int) -> u8 {
    if idx < 4 * (px.len() / 4) && idx % 4 < 3 {
        lut.lut[idx % 4][px[idx] as int]
    } else {
        px[idx]
    }
}

/// Applies a colour-match mapping to a frame in place.
pub fn apply_match_lut(pixels: &mut [u8], lut: &ColorMatchLut)
    ensures
        final(pixels)@.len() == old(pixels)@.len(),
        forall|idx: int| 0 <= idx < old(pixels)@.len() ==> #[trigger] final(pixels)@[idx] == mapped_byte(old(pixels)@, *lut, idx),
{
    let len: usize = pixels.len();
    let n: usize = len / 4;
    assert(4 * n <= pixels@.len());
    let mut k: usize = 0;
    while k < n
        invariant
            n == old(pixels)@.len() / 4,
            4 * n <= old(pixels)@.len(),
            len == old(pixels)@.len(),
            pixels@.len() == old(pixels)@.len(),
            k <= n,
            forall|idx: int| 0 <= idx < 4 * k ==> #[trigger] pixels@[idx] == mapped_byte(old(pixels)@, *lut, idx),
            forall|idx: int| 4 * k <= idx < pixels@.len() ==> #[trigger] pixels@[idx] == old(pixels)@[idx],
        decreases n - k,
    {
        let base = 4 * k;
        let r = pixels[base];
        let g = pixels[base + 1];
        let b = pixels[base + 2];
        pixels[base] = lut.lut[0][r as usize];
        pixels[base + 1] = lut.lut[1][g as usize];
        pixels[base + 2] = lut.lut[2][b as usize];
        k = k + 1;
        assert forall|idx: int| 0 <= idx < 4 * k implies #[trigger] pixels@[idx] == mapped_byte(old(pixels)@, *lut, idx) by {
            if idx >= base {
                assert(idx == base || idx == base + 1 || idx == base + 2 || idx == base + 3);
            }
        }
    }
}

/// Matches `target` to `reference` in one call: computes the mapping from
/// `target` and applies it to `target`.
pub fn match_frames(target: &mut [u8], reference: &[u8], width: usize, height: usize)
    requires
        is_rgba_frame(old(target)@, width as int, height as int),
        is_rgba_frame(reference@, width as int, height as int),
        width * height <= u32::MAX,
    ensures
        final(target)@.len() == old(target)@.len(),
        forall|idx: int|
            0 <= idx < old(target)@.len() ==> #[trigger] final(target)@[idx] == if idx % 4 < 3 {
                matched_value(old(target)@, reference@, idx % 4, old(target)@[idx] as int) as u8
            } else {
                old(target)@[idx]
            },
{
    let ghost n = old(target)@.len();
    proof {
        assert(n % 4 == 0) by (nonlinear_arith)
            requires n == width * height * 4;
    }
    let lut = compute_match_lut(target, reference, width, height);
    apply_match_lut(target, &lut);
}

} // verus!
