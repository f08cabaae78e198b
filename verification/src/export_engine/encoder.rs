//! The arithmetic of the encoder: the checks of its settings, RGBA to
//! YUV420P conversion (BT.601, limited range), the remaining-time estimate,
//! and the storage check.

use vstd::prelude::*;
use crate::text::{decimal, push_decimal};
use crate::export_engine::{
    spec_full_hd_1080p, spec_hd_720p, spec_social_square, spec_social_vertical, spec_ultra_hd_4k, ExportSettings,
};
use crate::float_bits::{f32_at_most_zero, f32_bits_le_zero};

verus! {

/// The first problem that the video encoders find with `s`, if any;
/// `bitrate_message` is what they say of a zero bitrate.
pub open spec fn video_settings_problem(s: ExportSettings, bitrate_message: Seq<char>) -> Option<Seq<char>> {
    if s.width == 0 || s.height == 0 {
        Some("Width and height must be non-zero"@)
    } else if s.width % 2 != 0 || s.height % 2 != 0 {
        Some("Dimensions must be even (got "@ + decimal(s.width as nat) + "x"@ + decimal(s.height as nat) + ")"@)
    } else if f32_at_most_zero(s.fps_bits) {
        Some("FPS must be positive"@)
    } else if s.bitrate_kbps == 0 {
        Some(bitrate_message)
    } else {
        None
    }
}

/// The first problem that the audio encoder finds with its parameters, if
/// any.
pub open spec fn audio_params_problem(sample_rate: u32, channels: u32, bitrate_kbps: u32) -> Option<Seq<char>> {
    if sample_rate == 0 {
        Some("Sample rate must be non-zero"@)
    } else if channels == 0 {
        Some("Channels must be non-zero"@)
    } else if bitrate_kbps == 0 {
        Some("Audio bitrate must be non-zero"@)
    } else {
        None
    }
}

/// The first problem that the muxed (video and audio) encoder finds with
/// `s`, if any. Without audio, the placeholder audio stream (44.1 kHz,
/// stereo, 128 kbps) is always valid.
pub open spec fn muxed_settings_problem(s: ExportSettings) -> Option<Seq<char>> {
    match video_settings_problem(s, "Video bitrate must be non-zero"@) {
        Some(m) => Some(m),
        None => if s.include_audio {
            audio_params_problem(s.audio_sample_rate, s.audio_channels, s.audio_bitrate_kbps)
        } else {
            None
        },
    }
}

/// The video checks, with the given message for a zero bitrate.
fn check_video_settings(s: &ExportSettings, bitrate_message: &str) -> (r: Result<(), String>)
    ensures
        r is Ok <==> video_settings_problem(*s, bitrate_message@) is None,
        r matches Err(m) ==> video_settings_problem(*s, bitrate_message@) == Some(m@),
{
    if s.width == 0 || s.height == 0 {
        return Err(String::from_str("Width and height must be non-zero"));
    }
    if s.width % 2 != 0 || s.height % 2 != 0 {
        let mut m = String::from_str("Dimensions must be even (got ");
        push_decimal(&mut m, s.width as u64);
        m.append("x");
        push_decimal(&mut m, s.height as u64);
        m.append(")");
        return Err(m);
    }
    if f32_bits_le_zero(s.fps_bits) {
        return Err(String::from_str("FPS must be positive"));
    }
    if s.bitrate_kbps == 0 {
        return Err(String::from_str(bitrate_message));
    }
    Ok(())
}

/// Validates the settings of a video encoder: non-zero and even
/// dimensions, a positive frame rate and a non-zero bitrate.
pub fn validate_video_settings(settings: &ExportSettings) -> (r: Result<(), String>)
    ensures
        r is Ok <==> video_settings_problem(*settings, "Bitrate must be non-zero"@) is None,
        r matches Err(m) ==> video_settings_problem(*settings, "Bitrate must be non-zero"@) == Some(m@),
{
    check_video_settings(settings, "Bitrate must be non-zero")
}

/// Validates the parameters of an audio encoder: a non-zero sample rate,
/// channel count and bitrate.
pub fn validate_audio_params(sample_rate: u32, channels: u32, bitrate_kbps: u32) -> (r: Result<(), String>)
    ensures
        r is Ok <==> audio_params_problem(sample_rate, channels, bitrate_kbps) is None,
        r matches Err(m) ==> audio_params_problem(sample_rate, channels, bitrate_kbps) == Some(m@),
{
    if sample_rate == 0 {
        return Err(String::from_str("Sample rate must be non-zero"));
    }
    if channels == 0 {
        return Err(String::from_str("Channels must be non-zero"));
    }
    if bitrate_kbps == 0 {
        return Err(String::from_str("Audio bitrate must be non-zero"));
    }
    Ok(())
}

/// Validates the settings of a muxed encoder: the video checks, then the
/// audio parameters when audio is included.
pub fn validate_muxed_settings(settings: &ExportSettings) -> (r: Result<(), String>)
    ensures
        r is Ok <==> muxed_settings_problem(*settings) is None,
        r matches Err(m) ==> muxed_settings_problem(*settings) == Some(m@),
{
    check_video_settings(settings, "Video bitrate must be non-zero")?;
    if settings.include_audio {
        validate_audio_params(settings.audio_sample_rate, settings.audio_channels, settings.audio_bitrate_kbps)
    } else {
        validate_audio_params(44100, 2, 128)
    }
}

/// Whether settings pass the checks of the video, muxed and hardware
/// encoders.
pub open spec fn passes_encoder_checks(s: ExportSettings) -> bool {
    video_settings_problem(s, "Bitrate must be non-zero"@) is None && muxed_settings_problem(s) is None
}

/// Every built-in export preset passes the checks of the encoders.
pub proof fn lemma_presets_valid()
    ensures
        passes_encoder_checks(spec_hd_720p()),
        passes_encoder_checks(spec_full_hd_1080p()),
        passes_encoder_checks(spec_ultra_hd_4k()),
        passes_encoder_checks(spec_social_vertical()),
        passes_encoder_checks(spec_social_square()),
{
}

/// Luma of one pixel: `Y = 0.257 R + 0.504 G + 0.098 B + 16`, truncated
/// into a byte.
pub open spec fn luma(r: int, g: int, b: int) -> int {
    let y = (257 * r + 504 * g + 98 * b + 16000) / 1000;
    if y > 255 { 255 } else { y }
}

/// A chroma value from the channel sums of `n` pixels:
/// `kr/1000 * R + kg/1000 * G + kb/1000 * B + 128` over the channel
/// averages, clamped to `[0, 255]` and truncated.
pub open spec fn chroma(kr: int, kg: int, kb: int, rs: int, gs: int, bs: int, n: int) -> int {
    let num = kr * rs + kg * gs + kb * bs + 128000 * n;
    if num < 0 {
        0
    } else if num / (1000 * n) > 255 {
        255
    } else {
        num / (1000 * n)
    }
}

/// Cb from channel sums: `-0.148 R - 0.291 G + 0.439 B + 128`.
pub open spec fn cb_of(rs: int, gs: int, bs: int, n: int) -> int {
    chroma(-148, -291, 439, rs, gs, bs, n)
}

/// Cr from channel sums: `0.439 R - 0.368 G - 0.071 B + 128`.
pub open spec fn cr_of(rs: int, gs: int, bs: int, n: int) -> int {
    chroma(439, -368, -71, rs, gs, bs, n)
}

/// Channel `c` of pixel (`row`, `col`), or 0 when the pixel is outside the
/// `w` by `h` frame.
pub open spec fn sample(rgba: Seq<u8>, w: int, h: int, row: int, col: int, c: int) -> int {
    if row < h && col < w { rgba[(row * w + col) * 4 + c] as int } else { 0 }
}

/// The sum of channel `c` over the in-frame pixels of the 2x2 block whose
/// top-left pixel is (`row`, `col`).
pub open spec fn block_sum(rgba: Seq<u8>, w: int, h: int, row: int, col: int, c: int) -> int {
    sample(rgba, w, h, row, col, c) + sample(rgba, w, h, row, col + 1, c)
        + sample(rgba, w, h, row + 1, col, c) + sample(rgba, w, h, row + 1, col + 1, c)
}

/// The number of in-frame pixels of that block.
pub open spec fn block_count(w: int, h: int, row: int, col: int) -> int {
    (if row + 1 < h { 2int } else { 1int }) * (if col + 1 < w { 2int } else { 1int })
}

/// The chroma value of block (`brow`, `bcol`) (top-left pixel
/// (`2 brow`, `2 bcol`)): Cb when `blue` holds, Cr otherwise.
pub open spec fn block_chroma(rgba: Seq<u8>, w: int, h: int, brow: int, bcol: int, blue: bool) -> int {
    let row = 2 * brow;
    let col = 2 * bcol;
    let rs = block_sum(rgba, w, h, row, col, 0);
    let gs = block_sum(rgba, w, h, row, col, 1);
    let bs = block_sum(rgba, w, h, row, col, 2);
    let n = block_count(w, h, row, col);
    if blue { cb_of(rs, gs, bs, n) } else { cr_of(rs, gs, bs, n) }
}

/// The index in a chroma plane that block (`brow`, `bcol`) writes.
pub open spec fn chroma_index(w: int, brow: int, bcol: int) -> int {
    brow * (w / 2) + bcol
}

/// A chroma plane of `w * h / 4` bytes, as it stands before block
/// (`brow`, `bcol`) is written: the blocks are written row by row, left to
/// right, each into its index when that index lies inside the plane, a
/// later block overwriting an earlier one. `bcol` runs up to the number of
/// blocks in a row, `(w + 1) / 2`.
pub open spec fn chroma_plane(rgba: Seq<u8>, w: int, h: int, blue: bool, brow: nat, bcol: nat) -> Seq<u8>
    decreases brow, bcol,
{
    if bcol > 0 {
        let prev = chroma_plane(rgba, w, h, blue, brow, (bcol - 1) as nat);
        let q = chroma_index(w, brow as int, bcol - 1);
        if 0 <= q < prev.len() {
            prev.update(q, block_chroma(rgba, w, h, brow as int, bcol - 1, blue) as u8)
        } else {
            prev
        }
    } else if brow > 0 {
        chroma_plane(rgba, w, h, blue, (brow - 1) as nat, ((w + 1) / 2) as nat)
    } else {
        Seq::new((w * h / 4) as nat, |i: int| 0u8)
    }
}

/// The YUV420P image of a `w` by `h` RGBA frame: the luma plane
/// (`w * h` bytes), then the Cb and Cr planes (`w * h / 4` bytes each).
pub open spec fn yuv420p(rgba: Seq<u8>, w: int, h: int) -> Seq<u8> {
    let luma_plane = Seq::new((w * h) as nat, |p: int| luma(rgba[4 * p] as int, rgba[4 * p + 1] as int, rgba[4 * p + 2] as int) as u8);
    let rows = ((h + 1) / 2) as nat;
    luma_plane + chroma_plane(rgba, w, h, true, rows, 0) + chroma_plane(rgba, w, h, false, rows, 0)
}

/// The message of the short-input error.
pub open spec fn too_short_message(expected: int, got: int) -> Seq<char> {
    "RGBA data too short: expected "@ + decimal(expected as nat) + " bytes, got "@ + decimal(got as nat)
}

proof fn lemma_pixel_index(row: int, col: int, w: int, h: int)
    requires
        0 <= row < h,
        0 <= col < w,
    ensures
        0 <= row * w + col < w * h,
        (row * w + col) * 4 + 3 < w * h * 4,
{
    assert(row * w + col < w * h) by (nonlinear_arith)
        requires 0 <= row < h, 0 <= col < w;
    assert(0 <= row * w) by (nonlinear_arith)
        requires 0 <= row, 0 <= col < w;
}

proof fn lemma_block_index(brow: int, bcol: int, w: int, h: int)
    requires
        0 <= brow,
        0 <= bcol,
        2 * brow < h,
        2 * bcol < w,
    ensures
        0 <= brow * (w / 2),
        brow * (w / 2) <= w * h,
{
    assert(0 <= brow * (w / 2)) by (nonlinear_arith)
        requires 0 <= brow, 0 <= w;
    assert(brow * (w / 2) <= w * h) by (nonlinear_arith)
        requires 0 <= brow, 2 * brow < h, 0 <= w, w / 2 <= w;
}

/// Channel `c` of pixel (`row`, `col`), or 0 outside the frame, read.
fn sample_exec(rgba: &[u8], w: usize, h: usize, row: usize, col: usize, c: usize) -> (r: i64)
    requires
        c < 3,
        row <= h,
        col <= w,
        w * h * 4 <= rgba@.len(),
        w * h * 4 <= usize::MAX,
    ensures
        r == sample(rgba@, w as int, h as int, row as int, col as int, c as int),
        0 <= r <= 255,
{
    if row < h && col < w {
        proof {
            lemma_pixel_index(row as int, col as int, w as int, h as int);
        }
        rgba[(row * w + col) * 4 + c] as i64
    } else {
        0
    }
}

/// The chroma value from channel sums over `count` pixels, computed.
fn chroma_exec(kr: i64, kg: i64, kb: i64, rs: i64, gs: i64, bs: i64, count: i64) -> (v: u8)
    requires
        -1000 <= kr <= 1000,
        -1000 <= kg <= 1000,
        -1000 <= kb <= 1000,
        0 <= rs <= 1020,
        0 <= gs <= 1020,
        0 <= bs <= 1020,
        1 <= count <= 4,
    ensures
        v == chroma(kr as int, kg as int, kb as int, rs as int, gs as int, bs as int, count as int),
{
    assert(-1020000 <= kr * rs <= 1020000) by (nonlinear_arith)
        requires -1000 <= kr <= 1000, 0 <= rs <= 1020;
    assert(-1020000 <= kg * gs <= 1020000) by (nonlinear_arith)
        requires -1000 <= kg <= 1000, 0 <= gs <= 1020;
    assert(-1020000 <= kb * bs <= 1020000) by (nonlinear_arith)
        requires -1000 <= kb <= 1000, 0 <= bs <= 1020;
    let num: i64 = kr * rs + kg * gs + kb * bs + 128000 * count;
    let den: i64 = 1000 * count;
    if num < 0 {
        0
    } else if num / den > 255 {
        255
    } else {
        (num / den) as u8
    }
}

/// The chroma of one block (Cb, Cr), computed.
fn block_chroma_exec(rgba: &[u8], w: usize, h: usize, brow: usize, bcol: usize) -> (r: (u8, u8))
    requires
        2 * brow < h,
        2 * bcol < w,
        w * h * 4 <= rgba@.len(),
        w * h * 4 <= usize::MAX,
    ensures
        r.0 == block_chroma(rgba@, w as int, h as int, brow as int, bcol as int, true),
        r.1 == block_chroma(rgba@, w as int, h as int, brow as int, bcol as int, false),
{
    let row = 2 * brow;
    let col = 2 * bcol;
    let rs = sample_exec(rgba, w, h, row, col, 0) + sample_exec(rgba, w, h, row, col + 1, 0)
        + sample_exec(rgba, w, h, row + 1, col, 0) + sample_exec(rgba, w, h, row + 1, col + 1, 0);
    let gs = sample_exec(rgba, w, h, row, col, 1) + sample_exec(rgba, w, h, row, col + 1, 1)
        + sample_exec(rgba, w, h, row + 1, col, 1) + sample_exec(rgba, w, h, row + 1, col + 1, 1);
    let bs = sample_exec(rgba, w, h, row, col, 2) + sample_exec(rgba, w, h, row, col + 1, 2)
        + sample_exec(rgba, w, h, row + 1, col, 2) + sample_exec(rgba, w, h, row + 1, col + 1, 2);
    let count: i64 = (if row + 1 < h { 2 } else { 1 }) * (if col + 1 < w { 2 } else { 1 });
    let cb = chroma_exec(-148, -291, 439, rs, gs, bs, count);
    let cr = chroma_exec(439, -368, -71, rs, gs, bs, count);
    (cb, cr)
}

/// The two chroma planes of a frame, computed block by block.
fn chroma_planes(rgba: &[u8], w: usize, h: usize) -> (r: (Vec<u8>, Vec<u8>))
    requires
        w <= u32::MAX,
        h <= u32::MAX,
        w * h * 4 <= rgba@.len(),
        w * h * 4 <= usize::MAX,
    ensures
        r.0@ == chroma_plane(rgba@, w as int, h as int, true, ((h + 1) / 2) as nat, 0),
        r.1@ == chroma_plane(rgba@, w as int, h as int, false, ((h + 1) / 2) as nat, 0),
{
    proof {
        assert(w * h <= w * h * 4) by (nonlinear_arith)
            requires 0 <= w, 0 <= h;
    }
    let uv_size: usize = w * h / 4;
    let mut cb: Vec<u8> = Vec::new();
    let mut cr: Vec<u8> = Vec::new();
    let mut q: usize = 0;
    while q < uv_size
        invariant
            q <= uv_size,
            cb@.len() == q,
            cr@.len() == q,
            forall|i: int| 0 <= i < q ==> #[trigger] cb@[i] == 0u8,
            forall|i: int| 0 <= i < q ==> #[trigger] cr@[i] == 0u8,
        decreases uv_size - q,
    {
        cb.push(0);
        cr.push(0);
        q = q + 1;
    }
    let ghost rg = rgba@;
    let ghost wi = w as int;
    let ghost hi = h as int;
    assert(cb@ =~= chroma_plane(rg, wi, hi, true, 0, 0));
    assert(cr@ =~= chroma_plane(rg, wi, hi, false, 0, 0));
    let bw: usize = w / 2 + w % 2;
    let bh: usize = h / 2 + h % 2;
    let half_w: usize = w / 2;
    let mut brow: usize = 0;
    while brow < bh
        invariant
            w <= u32::MAX,
            h <= u32::MAX,
            bw == (w + 1) / 2,
            bh == (h + 1) / 2,
            half_w == w / 2,
            uv_size == w * h / 4,
            rg == rgba@,
            wi == w,
            hi == h,
            w * h * 4 <= rgba@.len(),
            w * h * 4 <= usize::MAX,
            brow <= bh,
            cb@.len() == uv_size,
            cr@.len() == uv_size,
            cb@ == chroma_plane(rg, wi, hi, true, brow as nat, 0),
            cr@ == chroma_plane(rg, wi, hi, false, brow as nat, 0),
        decreases bh - brow,
    {
        let mut bcol: usize = 0;
        while bcol < bw
            invariant
                w <= u32::MAX,
                h <= u32::MAX,
                bw == (w + 1) / 2,
                bh == (h + 1) / 2,
                half_w == w / 2,
                uv_size == w * h / 4,
                rg == rgba@,
                wi == w,
                hi == h,
                w * h * 4 <= rgba@.len(),
                w * h * 4 <= usize::MAX,
                brow < bh,
                bcol <= bw,
                cb@.len() == uv_size,
                cr@.len() == uv_size,
                cb@ == chroma_plane(rg, wi, hi, true, brow as nat, bcol as nat),
                cr@ == chroma_plane(rg, wi, hi, false, brow as nat, bcol as nat),
            decreases bw - bcol,
        {
            proof {
                lemma_block_index(brow as int, bcol as int, wi, hi);
            }
            let (vb, vr) = block_chroma_exec(rgba, w, h, brow, bcol);
            let uv_idx: usize = brow * half_w + bcol;
            let ghost old_cb = cb@;
            let ghost old_cr = cr@;
            if uv_idx < uv_size {
                cb.set(uv_idx, vb);
                cr.set(uv_idx, vr);
            }
            bcol = bcol + 1;
            proof {
                assert(cb@ =~= chroma_plane(rg, wi, hi, true, brow as nat, bcol as nat));
                assert(cr@ =~= chroma_plane(rg, wi, hi, false, brow as nat, bcol as nat));
            }
        }
        brow = brow + 1;
        assert(chroma_plane(rg, wi, hi, true, brow as nat, 0) == chroma_plane(rg, wi, hi, true, (brow - 1) as nat, bw as nat));
        assert(chroma_plane(rg, wi, hi, false, brow as nat, 0) == chroma_plane(rg, wi, hi, false, (brow - 1) as nat, bw as nat));
    }
    (cb, cr)
}

/// Converts RGBA pixel data to planar YUV420P (BT.601, limited range).
///
/// `Y = 0.257 R + 0.504 G + 0.098 B + 16` per pixel; Cb and Cr
/// (`-0.148 R - 0.291 G + 0.439 B + 128`, `0.439 R - 0.368 G - 0.071 B + 128`)
/// from the average of each 2x2 block. The output holds `w * h` luma bytes
/// and `w * h / 4` bytes for each chroma plane. Input shorter than
/// `w * h * 4` bytes is refused.
pub fn convert_rgba_to_yuv420p(rgba: &[u8], width: u32, height: u32) -> (r: Result<Vec<u8>, String>)
    requires
        width * height * 4 <= usize::MAX,
    ensures
        rgba@.len() < width * height * 4 ==> (r matches Err(e) && e@ == too_short_message(width * height * 4, rgba@.len() as int)),
        rgba@.len() >= width * height * 4 ==> (r matches Ok(v) && v@ == yuv420p(rgba@, width as int, height as int)),
{
    let w = width as usize;
    let h = height as usize;
    proof {
        assert(w * h <= w * h * 4) by (nonlinear_arith)
            requires 0 <= w, 0 <= h;
    }
    let needed: usize = w * h * 4;
    if rgba.len() < needed {
        let mut msg = String::from_str("RGBA data too short: expected ");
        push_decimal(&mut msg, needed as u64);
        msg.append(" bytes, got ");
        push_decimal(&mut msg, rgba.len() as u64);
        return Err(msg);
    }
    let y_size: usize = w * h;
    let mut out: Vec<u8> = Vec::new();
    let mut p: usize = 0;
    while p < y_size
        invariant
            y_size == w * h,
            w * h * 4 <= rgba@.len(),
            w * h * 4 <= usize::MAX,
            p <= y_size,
            out@.len() == p,
            forall|q: int| 0 <= q < p ==> #[trigger] out@[q] == luma(rgba@[4 * q] as int, rgba@[4 * q + 1] as int, rgba@[4 * q + 2] as int) as u8,
        decreases y_size - p,
    {
        let idx = 4 * p;
        let r = rgba[idx] as u64;
        let g = rgba[idx + 1] as u64;
        let b = rgba[idx + 2] as u64;
        let y = (257 * r + 504 * g + 98 * b + 16000) / 1000;
        let yb: u8 = if y > 255 { 255 } else { y as u8 };
        out.push(yb);
        p = p + 1;
    }
    let (cb, cr) = chroma_planes(rgba, w, h);
    let ghost luma_part = out@;
    let mut i: usize = 0;
    while i < cb.len()
        invariant
            out@ == luma_part + cb@.subrange(0, i as int),
            i <= cb@.len(),
        decreases cb@.len() - i,
    {
        out.push(cb[i]);
        i = i + 1;
        assert(out@ =~= luma_part + cb@.subrange(0, i as int));
    }
    let ghost with_cb = out@;
    let mut i: usize = 0;
    while i < cr.len()
        invariant
            out@ == with_cb + cr@.subrange(0, i as int),
            i <= cr@.len(),
        decreases cr@.len() - i,
    {
        out.push(cr[i]);
        i = i + 1;
        assert(out@ =~= with_cb + cr@.subrange(0, i as int));
    }
    assert(cb@.subrange(0, cb@.len() as int) =~= cb@);
    assert(cr@.subrange(0, cr@.len() as int) =~= cr@);
    assert(out@ =~= yuv420p(rgba@, width as int, height as int));
    Ok(out)
}

/// `std::time::Instant`, carried through opaquely.
#[verifier::external_type_specification]
#[verifier::external_body]
pub struct ExInstant(std::time::Instant);

/// `Instant::elapsed`: the time since `start`. It depends on the clock, so
/// nothing is promised of it.
#[verifier::external_body]
fn instant_elapsed(start: &std::time::Instant) -> std::time::Duration {
    start.elapsed()
}

/// `Duration::as_nanos`: the whole nanoseconds of a duration. The duration
/// is opaque here, so nothing is promised of the number.
#[verifier::external_body]
fn duration_as_nanos(d: &std::time::Duration) -> u128 {
    d.as_nanos()
}

/// The seconds an export still needs: after `current` of `total` frames in
/// `elapsed_nanos` nanoseconds, the remaining frames at the same rate,
/// rounded up, at most `u64::MAX`; 0 when no frame or no total is known.
pub open spec fn remaining_seconds(current: int, total: int, elapsed_nanos: int) -> int {
    if current == 0 || total == 0 {
        0
    } else {
        let remaining = if total > current { total - current } else { 0 };
        let d = current * 1_000_000_000;
        let n = remaining * elapsed_nanos;
        let q = n / d + if n % d == 0 { 0int } else { 1int };
        if q > u64::MAX { u64::MAX as int } else { q }
    }
}

/// Estimates the remaining seconds of an export from the frames done so far
/// and the time they took.
pub fn estimate_remaining_after(current_frame: u64, total_frames: u64, elapsed_nanos: u64) -> (r: u64)
    ensures
        r == remaining_seconds(current_frame as int, total_frames as int, elapsed_nanos as int),
{
    if current_frame == 0 || total_frames == 0 {
        return 0;
    }
    let remaining: u64 = if total_frames > current_frame { total_frames - current_frame } else { 0 };
    let d: u128 = (current_frame as u128) * 1_000_000_000u128;
    assert((remaining as int) * (elapsed_nanos as int) <= (u64::MAX as int) * (u64::MAX as int)) by (nonlinear_arith)
        requires 0 <= remaining <= u64::MAX, 0 <= elapsed_nanos <= u64::MAX;
    assert(d <= (u64::MAX as int) * 1_000_000_000) by (nonlinear_arith)
        requires d == (current_frame as int) * 1_000_000_000, current_frame <= u64::MAX;
    let prod: u128 = (remaining as u128) * (elapsed_nanos as u128);
    let q: u128 = prod / d + if prod % d == 0 { 0 } else { 1 };
    if q > u64::MAX as u128 {
        u64::MAX
    } else {
        q as u64
    }
}

/// Estimates the remaining time of an export from its progress: the
/// seconds left at the rate observed since `start_time`, or 0 when no frame
/// or no total is known. The elapsed time is read from the clock (and taken
/// at most `u64::MAX` nanoseconds).
pub fn estimate_remaining(current_frame: u64, total_frames: u64, start_time: std::time::Instant) -> (r: u64)
    ensures
        exists|e: int| 0 <= e <= u64::MAX && r == remaining_seconds(current_frame as int, total_frames as int, e),
        current_frame == 0 || total_frames == 0 ==> r == 0,
{
    let elapsed = instant_elapsed(&start_time);
    let nanos = duration_as_nanos(&elapsed);
    let e: u64 = if nanos > u64::MAX as u128 { u64::MAX } else { nanos as u64 };
    estimate_remaining_after(current_frame, total_frames, e)
}

/// The head room an export needs beyond its own size: 100 MiB.
pub open spec fn storage_margin() -> int {
    104857600int
}

/// The free space an export needs at the least: 500 MiB.
pub open spec fn storage_floor() -> int {
    524288000int
}

/// The free space an export of `estimated` bytes needs: its size plus the
/// head room, and never less than the floor.
pub open spec fn required_storage(estimated: int) -> int {
    if estimated + storage_margin() > storage_floor() {
        estimated + storage_margin()
    } else {
        storage_floor()
    }
}

/// The message of a refused storage check.
pub open spec fn insufficient_storage_message(available: int, required: int) -> Seq<char> {
    "Insufficient storage: "@ + decimal((available / 1048576) as nat) + "MB available, "@
        + decimal((required / 1048576) as nat) + "MB required"@
}

/// Checks that `available_bytes` of free storage hold an export of
/// `estimated_size_bytes`: at least 500 MiB must be free, and at least the
/// estimate plus 100 MiB of head room. Otherwise the error names both
/// amounts in whole MiB.
pub fn check_storage_space(available_bytes: u64, estimated_size_bytes: u64) -> (r: Result<(), String>)
    ensures
        r is Ok <==> available_bytes >= required_storage(estimated_size_bytes as int),
        r matches Err(m) ==> m@ == insufficient_storage_message(
            available_bytes as int,
            required_storage(estimated_size_bytes as int),
        ),
{
    let mib: u64 = 1024 * 1024;
    let fits = estimated_size_bytes <= u64::MAX - 100 * mib;
    let enough = fits && available_bytes >= estimated_size_bytes + 100 * mib && available_bytes >= 500 * mib;
    if !enough {
        let est_mb = estimated_size_bytes / mib + 100;
        let required_mb = if est_mb > 500 { est_mb } else { 500 };
        proof {
            let e = estimated_size_bytes as int;
            assert((e + 104857600) / 1048576 == e / 1048576 + 100);
            assert(required_storage(e) / 1048576 == required_mb);
        }
        let mut msg = String::from_str("Insufficient storage: ");
        push_decimal(&mut msg, available_bytes / mib);
        msg.append("MB available, ");
        push_decimal(&mut msg, required_mb);
        msg.append("MB required");
        return Err(msg);
    }
    Ok(())
}

} // verus!
