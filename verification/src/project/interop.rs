//! Format interoperability: EDL, FCPXML and OpenTimelineIO export.
//!
//! The clip in/out points and the cut positions are what translate to other
//! editors; effects, colour and audio are not exported.

use vstd::prelude::*;
use crate::text::{decimal, push_decimal, push_decimal_wide, push_signed_padded, push_zero_padded_wide, signed_padded, signed_decimal, pad_zeros};
use crate::project::{path_file_name, file_name_of};

verus! {

/// Format to export.
#[derive(Debug, Clone, Copy, PartialEq, Eq, Structural)]
pub enum InteropFormat {
    /// CMX 3600 Edit Decision List.
    Edl,
    /// Final Cut Pro XML (FCPXML v1.10).
    Fcpxml,
    /// OpenTimelineIO 0.17.
    OpenTimelineIO,
}

/// A clip in the timeline, as the exporters need it.
#[derive(Debug, Clone)]
pub struct InteropClip {
    /// Source media file path.
    pub source_path: String,
    /// Source in-point (ms, relative to source start).
    pub source_in_ms: i64,
    /// Source out-point (ms, relative to source start).
    pub source_out_ms: i64,
    /// Timeline start (ms, relative to timeline start).
    pub timeline_start_ms: i64,
    /// Timeline end (ms, relative to timeline start).
    pub timeline_end_ms: i64,
    /// Track index (0 = main video track).
    pub track_index: usize,
    /// Clip name.
    pub name: String,
}

/// A timeline to export.
#[derive(Debug, Clone)]
pub struct InteropTimeline {
    pub name: String,
    pub frame_rate_num: u32,
    pub frame_rate_den: u32,
    pub width: u32,
    pub height: u32,
    pub clips: Vec<InteropClip>,
}

// ───────────────────────────── timecode arithmetic ─────────────────────────────

/// `p / q` rounded to the nearest integer, halves away from zero (`q > 0`).
pub open spec fn round_div(p: int, q: int) -> int {
    if p >= 0 {
        (2 * p + q) / (2 * q)
    } else {
        -((-2 * p + q) / (2 * q))
    }
}

/// `v` saturated into the `i64` range.
pub open spec fn saturate_i64(v: int) -> int {
    if v > i64::MAX {
        i64::MAX as int
    } else if v < i64::MIN {
        i64::MIN as int
    } else {
        v
    }
}

/// Quotient of a division that truncates toward zero (`q > 0`).
pub open spec fn trunc_div(p: int, q: int) -> int {
    if p >= 0 { p / q } else { -((-p) / q) }
}

/// Remainder of a division that truncates toward zero (`q > 0`).
pub open spec fn trunc_rem(p: int, q: int) -> int {
    if p >= 0 { p % q } else { -((-p) % q) }
}

/// The frame number of `ms` milliseconds at `num / den` frames per second,
/// rounded half away from zero and saturated into `i64`. A zero
/// denominator is an infinite rate (saturated), or no rate at all when the
/// numerator is zero too (frame 0).
pub open spec fn frames_at(ms: int, num: int, den: int) -> int {
    if den == 0 {
        if num == 0 || ms == 0 {
            0
        } else if ms > 0 {
            i64::MAX as int
        } else {
            i64::MIN as int
        }
    } else {
        saturate_i64(round_div(ms * num, 1000 * den))
    }
}

/// The whole frame rate `num / den` rounded half away from zero (infinite,
/// hence `i64::MAX`, for a zero denominator; 0 when both are zero).
pub open spec fn whole_fps(num: int, den: int) -> int {
    if den == 0 {
        if num == 0 { 0 } else { i64::MAX as int }
    } else {
        round_div(num, den)
    }
}

/// The hours, minutes, seconds and frames of `ms` milliseconds at
/// `num / den` fps, each part truncated toward zero.
pub open spec fn timecode_parts(ms: int, num: int, den: int) -> (int, int, int, int) {
    let total_frames = frames_at(ms, num, den);
    let fps = whole_fps(num, den);
    let frames = trunc_rem(total_frames, fps);
    let total_seconds = trunc_div(total_frames, fps);
    let seconds = trunc_rem(total_seconds, 60);
    let total_minutes = trunc_div(total_seconds, 60);
    let minutes = trunc_rem(total_minutes, 60);
    let hours = trunc_div(total_minutes, 60);
    (hours, minutes, seconds, frames)
}

/// `HH:MM:SS:FF` text of four parts, each at least two digits.
pub open spec fn timecode_text(p: (int, int, int, int)) -> Seq<char> {
    signed_padded(p.0, 2) + ":"@ + signed_padded(p.1, 2) + ":"@ + signed_padded(p.2, 2) + ":"@ + signed_padded(p.3, 2)
}

/// The `HH:MM:SS:FF` timecode of `ms` milliseconds at `num / den` fps.
pub open spec fn timecode(ms: int, num: int, den: int) -> Seq<char> {
    timecode_text(timecode_parts(ms, num, den))
}

/// A frame rate the timecode can be written at: its rounded whole rate is
/// not zero.
pub open spec fn timecode_rate_ok(num: int, den: int) -> bool {
    whole_fps(num, den) != 0
}

/// `p / q` rounded half away from zero, computed (`q > 0`).
fn round_div_exec(p: i128, q: i128) -> (r: i128)
    requires
        q > 0,
        -0x1_0000_0000_0000_0000_0000_0000_0000 <= p <= 0x1_0000_0000_0000_0000_0000_0000_0000,
        q <= 0x1_0000_0000_0000_0000_0000_0000,
    ensures
        r == round_div(p as int, q as int),
{
    let b: i128 = 2 * q;
    if p >= 0 {
        let a: i128 = 2 * p + q;
        a / b
    } else {
        let a: i128 = q - 2 * p;
        let d: i128 = a / b;
        assert(d >= 0);
        -d
    }
}

/// The frame number of `ms` at `num / den` fps, computed.
pub fn ms_to_frames(ms: i64, fr_num: u32, fr_den: u32) -> (r: i64)
    ensures
        r == frames_at(ms as int, fr_num as int, fr_den as int),
{
    if fr_den == 0 {
        if fr_num == 0 || ms == 0 {
            0
        } else if ms > 0 {
            i64::MAX
        } else {
            i64::MIN
        }
    } else {
        proof {
            assert(-0x1_0000_0000_0000_0000_0000_0000_0000 <= (ms as int) * (fr_num as int) <= 0x1_0000_0000_0000_0000_0000_0000_0000) by (nonlinear_arith)
                requires i64::MIN <= ms <= i64::MAX, 0 <= fr_num <= u32::MAX;
        }
        let p: i128 = (ms as i128) * (fr_num as i128);
        let v = round_div_exec(p, 1000 * (fr_den as i128));
        if v > i64::MAX as i128 {
            i64::MAX
        } else if v < i64::MIN as i128 {
            i64::MIN
        } else {
            v as i64
        }
    }
}

/// The parts of a timecode, computed.
fn timecode_parts_exec(ms: i64, fr_num: u32, fr_den: u32) -> (r: (i64, i64, i64, i64))
    requires
        timecode_rate_ok(fr_num as int, fr_den as int),
    ensures
        (r.0 as int, r.1 as int, r.2 as int, r.3 as int) == timecode_parts(ms as int, fr_num as int, fr_den as int),
{
    let total_frames: i128 = ms_to_frames(ms, fr_num, fr_den) as i128;
    let fps: i128 = if fr_den == 0 {
        if fr_num == 0 { 0 } else { i64::MAX as i128 }
    } else {
        round_div_exec(fr_num as i128, fr_den as i128)
    };
    proof {
        if fr_den > 0 {
            assert(round_div(fr_num as int, fr_den as int) <= fr_num) by (nonlinear_arith)
                requires fr_den >= 1, fr_num >= 0;
        }
    }
    assert(fps >= 1);
    let frames: i128 = if total_frames >= 0 { total_frames % fps } else { -((-total_frames) % fps) };
    let total_seconds: i128 = if total_frames >= 0 { total_frames / fps } else { -((-total_frames) / fps) };
    let seconds: i128 = if total_seconds >= 0 { total_seconds % 60 } else { -((-total_seconds) % 60) };
    let total_minutes: i128 = if total_seconds >= 0 { total_seconds / 60 } else { -((-total_seconds) / 60) };
    let minutes: i128 = if total_minutes >= 0 { total_minutes % 60 } else { -((-total_minutes) % 60) };
    let hours: i128 = if total_minutes >= 0 { total_minutes / 60 } else { -((-total_minutes) / 60) };
    (hours as i64, minutes as i64, seconds as i64, frames as i64)
}

/// Appends the `HH:MM:SS:FF` timecode of `ms` at `num / den` fps.
fn push_timecode(out: &mut String, ms: i64, fr_num: u32, fr_den: u32)
    requires
        timecode_rate_ok(fr_num as int, fr_den as int),
    ensures
        final(out)@ == old(out)@ + timecode(ms as int, fr_num as int, fr_den as int),
{
    let (hours, minutes, seconds, frames) = timecode_parts_exec(ms, fr_num, fr_den);
    push_signed_padded(out, hours, 2);
    out.append(":");
    push_signed_padded(out, minutes, 2);
    out.append(":");
    push_signed_padded(out, seconds, 2);
    out.append(":");
    push_signed_padded(out, frames, 2);
    assert(out@ =~= old(out)@ + timecode_text((hours as int, minutes as int, seconds as int, frames as int)));
}

/// The `HH:MM:SS:FF` timecode of `ms` milliseconds at `fr_num / fr_den`
/// frames per second (non-drop-frame).
pub fn format_timecode(ms: i64, fr_num: u32, fr_den: u32) -> (r: String)
    requires
        timecode_rate_ok(fr_num as int, fr_den as int),
    ensures
        r@ == timecode(ms as int, fr_num as int, fr_den as int),
{
    let mut out = String::new();
    push_timecode(&mut out, ms, fr_num, fr_den);
    out
}

/// An FCPXML time: the milliseconds as a decimal numerator over 1000.
pub fn format_timecode_seconds(ms: i64) -> (r: String)
    ensures
        r@ == signed_decimal(ms as int),
{
    let mut out = String::new();
    push_signed_padded(&mut out, ms, 0);
    out
}

// ───────────────────────────── EDL ─────────────────────────────

/// The `SOURCE:` line of a clip: its file name, when the path has one.
pub open spec fn edl_source_line(path: Seq<char>) -> Seq<char> {
    match path_file_name(path) {
        Some(f) => "SOURCE: "@ + f + "\n"@,
        None => Seq::empty(),
    }
}

/// The first line of an EDL event: number, reel, track, cut and the four
/// timecodes.
#[verifier::opaque]
pub open spec fn edl_event_line(c: InteropClip, i: int, num: int, den: int) -> Seq<char> {
    pad_zeros(decimal((i + 1) as nat), 3) + "  AX       V     C        "@
        + timecode(c.source_in_ms as int, num, den) + " "@ + timecode(c.source_out_ms as int, num, den) + " "@
        + timecode(c.timeline_start_ms as int, num, den) + " "@ + timecode(c.timeline_end_ms as int, num, den) + "\n"@
}

/// The EDL event of clip number `i` (counted from 0): the event line, the
/// clip name, the source file name when there is one, and a blank line.
pub open spec fn edl_event(c: InteropClip, i: int, num: int, den: int) -> Seq<char> {
    edl_event_line(c, i, num, den) + "FROM CLIP NAME: "@ + c.name@ + "\n"@ + edl_source_line(c.source_path@) + "\n"@
}

/// The events of the first `k` clips.
pub open spec fn edl_events(clips: Seq<InteropClip>, k: nat, num: int, den: int) -> Seq<char>
    decreases k,
{
    if k == 0 {
        Seq::empty()
    } else {
        edl_events(clips, (k - 1) as nat, num, den) + edl_event(clips[k - 1], k - 1, num, den)
    }
}

/// The CMX 3600 EDL of a timeline.
pub open spec fn edl(t: InteropTimeline) -> Seq<char> {
    "TITLE: "@ + t.name@ + "\n"@ + "FCM: NON-DROP FRAME\n\n"@
        + edl_events(t.clips@, t.clips@.len(), t.frame_rate_num as int, t.frame_rate_den as int)
}

#[verifier::rlimit(40)]
fn push_edl_event_line(out: &mut String, clip: &InteropClip, i: usize, num: u32, den: u32)
    requires
        timecode_rate_ok(num as int, den as int),
    ensures
        final(out)@ == old(out)@ + edl_event_line(*clip, i as int, num as int, den as int),
{
    push_zero_padded_wide(out, (i as u128) + 1, 3);
    out.append("  AX       V     C        ");
    push_timecode(out, clip.source_in_ms, num, den);
    out.append(" ");
    push_timecode(out, clip.source_out_ms, num, den);
    out.append(" ");
    push_timecode(out, clip.timeline_start_ms, num, den);
    out.append(" ");
    push_timecode(out, clip.timeline_end_ms, num, den);
    out.append("\n");
    reveal(edl_event_line);
    assert(out@ =~= old(out)@ + edl_event_line(*clip, i as int, num as int, den as int));
}

fn push_edl_event(out: &mut String, clip: &InteropClip, i: usize, num: u32, den: u32)
    requires
        timecode_rate_ok(num as int, den as int),
    ensures
        final(out)@ == old(out)@ + edl_event(*clip, i as int, num as int, den as int),
{
    push_edl_event_line(out, clip, i, num, den);
    let ghost mid = out@;
    out.append("FROM CLIP NAME: ");
    out.append(clip.name.as_str());
    out.append("\n");
    match file_name_of(clip.source_path.as_str()) {
        Some(f) => {
            out.append("SOURCE: ");
            out.append(f.as_str());
            out.append("\n");
        },
        None => {},
    }
    out.append("\n");
    assert(out@ =~= mid + "FROM CLIP NAME: "@ + clip.name@ + "\n"@ + edl_source_line(clip.source_path@) + "\n"@);
    assert(edl_event(*clip, i as int, num as int, den as int) =~= edl_event_line(*clip, i as int, num as int, den as int)
        + "FROM CLIP NAME: "@ + clip.name@ + "\n"@ + edl_source_line(clip.source_path@) + "\n"@);
    assert(out@ =~= old(out)@ + edl_event(*clip, i as int, num as int, den as int));
}

/// Exports to CMX 3600 EDL format.
pub fn export_edl(timeline: &InteropTimeline) -> (r: String)
    requires
        timecode_rate_ok(timeline.frame_rate_num as int, timeline.frame_rate_den as int),
    ensures
        r@ == edl(*timeline),
{
    let num = timeline.frame_rate_num;
    let den = timeline.frame_rate_den;
    let mut out = String::from_str("TITLE: ");
    out.append(timeline.name.as_str());
    out.append("\n");
    out.append("FCM: NON-DROP FRAME\n\n");
    let ghost head = out@;
    let n = timeline.clips.len();
    let mut i: usize = 0;
    while i < n
        invariant
            n == timeline.clips@.len(),
            num == timeline.frame_rate_num,
            den == timeline.frame_rate_den,
            timecode_rate_ok(num as int, den as int),
            i <= n,
            out@ == head + edl_events(timeline.clips@, i as nat, num as int, den as int),
        decreases n - i,
    {
        let ghost before = out@;
        push_edl_event(&mut out, &timeline.clips[i], i, num, den);
        assert(edl_events(timeline.clips@, (i + 1) as nat, num as int, den as int)
            == edl_events(timeline.clips@, i as nat, num as int, den as int) + edl_event(timeline.clips@[i as int], i as int, num as int, den as int));
        i = i + 1;
        assert(out@ =~= head + edl_events(timeline.clips@, i as nat, num as int, den as int));
    }
    out
}

// ───────────────────────────── clip order and assets ─────────────────────────────

/// The position at which a clip with start `v` goes into `order` (a list of
/// clip numbers): before the first listed clip, from position `p` on, that
/// starts strictly later; at the end when there is none.
pub open spec fn insert_position(clips: Seq<InteropClip>, order: Seq<usize>, v: i64, p: int) -> int
    decreases order.len() - p,
{
    if p >= order.len() || p < 0 {
        order.len() as int
    } else if clips[order[p] as int].timeline_start_ms > v {
        p
    } else {
        insert_position(clips, order, v, p + 1)
    }
}

/// The first `n` clip numbers ordered by timeline start, clips with equal
/// starts kept in their original order (a stable sort by start).
pub open spec fn start_order(clips: Seq<InteropClip>, n: nat) -> Seq<usize>
    decreases n,
{
    if n == 0 {
        Seq::empty()
    } else {
        let o = start_order(clips, (n - 1) as nat);
        o.insert(insert_position(clips, o, clips[n - 1].timeline_start_ms, 0), (n - 1) as usize)
    }
}

proof fn lemma_insert_position_bounds(clips: Seq<InteropClip>, order: Seq<usize>, v: i64, p: int)
    requires
        0 <= p <= order.len(),
    ensures
        p <= insert_position(clips, order, v, p) <= order.len(),
    decreases order.len() - p,
{
    if p < order.len() && clips[order[p] as int].timeline_start_ms <= v {
        lemma_insert_position_bounds(clips, order, v, p + 1);
    }
}

proof fn lemma_start_order_shape(clips: Seq<InteropClip>, n: nat)
    requires
        n <= clips.len(),
        n <= usize::MAX,
    ensures
        start_order(clips, n).len() == n,
        forall|j: int| 0 <= j < n ==> #[trigger] start_order(clips, n)[j] < n,
    decreases n,
{
    if n > 0 {
        lemma_start_order_shape(clips, (n - 1) as nat);
        let o = start_order(clips, (n - 1) as nat);
        lemma_insert_position_bounds(clips, o, clips[n - 1].timeline_start_ms, 0);
        let p = insert_position(clips, o, clips[n - 1].timeline_start_ms, 0);
        assert forall|j: int| 0 <= j < n implies #[trigger] start_order(clips, n)[j] < n by {
            if j < p {
                assert(start_order(clips, n)[j] == o[j]);
            } else if j > p {
                assert(start_order(clips, n)[j] == o[j - 1]);
            }
        }
    }
}

/// `order` lists clips by timeline start, clips with equal starts in their
/// original order.
pub open spec fn in_start_order(clips: Seq<InteropClip>, order: Seq<usize>) -> bool {
    forall|i: int, j: int|
        0 <= i < j < order.len() ==> #[trigger] clips[order[i] as int].timeline_start_ms < #[trigger] clips[order[j] as int].timeline_start_ms
            || (clips[order[i] as int].timeline_start_ms == clips[order[j] as int].timeline_start_ms && order[i] < order[j])
}

/// `order` lists every clip number below `n` exactly once.
pub open spec fn lists_each_once(order: Seq<usize>, n: nat) -> bool {
    &&& order.len() == n
    &&& forall|i: int| 0 <= i < order.len() ==> #[trigger] order[i] < n
    &&& forall|i: int, j: int| 0 <= i < j < order.len() ==> #[trigger] order[i] != #[trigger] order[j]
}

proof fn lemma_insert_position_split(clips: Seq<InteropClip>, order: Seq<usize>, v: i64, p: int)
    requires
        0 <= p <= order.len(),
        forall|j: int| 0 <= j < p ==> #[trigger] clips[order[j] as int].timeline_start_ms <= v,
    ensures
        p <= insert_position(clips, order, v, p) <= order.len(),
        forall|j: int| 0 <= j < insert_position(clips, order, v, p) ==> #[trigger] clips[order[j] as int].timeline_start_ms <= v,
        insert_position(clips, order, v, p) < order.len() ==> clips[order[insert_position(clips, order, v, p)] as int].timeline_start_ms > v,
    decreases order.len() - p,
{
    if p < order.len() && clips[order[p] as int].timeline_start_ms <= v {
        lemma_insert_position_split(clips, order, v, p + 1);
    }
}

/// The clips on the FCPXML spine and in the OTIO track come in timeline
/// order: the order lists every clip once, by start, and clips that start
/// together keep their original order.
pub proof fn lemma_start_order_sorted(clips: Seq<InteropClip>, n: nat)
    requires
        n <= clips.len(),
        n <= usize::MAX,
    ensures
        in_start_order(clips, start_order(clips, n)),
        lists_each_once(start_order(clips, n), n),
    decreases n,
{
    lemma_start_order_shape(clips, n);
    if n > 0 {
        let m = (n - 1) as nat;
        lemma_start_order_sorted(clips, m);
        lemma_start_order_shape(clips, m);
        let o = start_order(clips, m);
        let v = clips[m as int].timeline_start_ms;
        lemma_insert_position_split(clips, o, v, 0);
        let p = insert_position(clips, o, v, 0);
        let o2 = start_order(clips, n);
        assert(o2 == o.insert(p, m as usize));
        assert forall|j: int| p <= j < o.len() implies #[trigger] clips[o[j] as int].timeline_start_ms > v by {
            if j > p {
                assert(clips[o[p] as int].timeline_start_ms < clips[o[j] as int].timeline_start_ms
                    || clips[o[p] as int].timeline_start_ms == clips[o[j] as int].timeline_start_ms);
            }
        }
        assert forall|i: int, j: int| 0 <= i < j < o2.len() implies #[trigger] clips[o2[i] as int].timeline_start_ms < #[trigger] clips[o2[j] as int].timeline_start_ms
            || (clips[o2[i] as int].timeline_start_ms == clips[o2[j] as int].timeline_start_ms && o2[i] < o2[j]) by {
            let ii = if i < p { i } else if i == p { -1 } else { i - 1 };
            let jj = if j < p { j } else if j == p { -1 } else { j - 1 };
            if i != p && j != p {
                assert(o2[i] == o[ii]);
                assert(o2[j] == o[jj]);
            } else if i == p {
                assert(o2[j] == o[jj]);
            } else {
                assert(o2[i] == o[ii]);
            }
        }
        assert forall|i: int, j: int| 0 <= i < j < o2.len() implies #[trigger] o2[i] != #[trigger] o2[j] by {
            if i != p && j != p {
                let ii = if i < p { i } else { i - 1 };
                let jj = if j < p { j } else { j - 1 };
                assert(o2[i] == o[ii]);
                assert(o2[j] == o[jj]);
            } else if i == p {
                let jj = j - 1;
                assert(o2[j] == o[jj]);
            } else {
                assert(o2[i] == o[i]);
            }
        }
    }
}

/// The clip numbers ordered by timeline start (stable), computed.
fn start_order_exec(clips: &Vec<InteropClip>) -> (o: Vec<usize>)
    ensures
        o@ == start_order(clips@, clips@.len()),
        o@.len() == clips@.len(),
        forall|j: int| 0 <= j < o@.len() ==> #[trigger] o@[j] < clips@.len(),
{
    let n = clips.len();
    let mut o: Vec<usize> = Vec::new();
    let mut k: usize = 0;
    while k < n
        invariant
            n == clips@.len(),
            k <= n,
            o@ == start_order(clips@, k as nat),
            o@.len() == k,
            forall|j: int| 0 <= j < k ==> #[trigger] o@[j] < k,
        decreases n - k,
    {
        let v = clips[k].timeline_start_ms;
        let mut p: usize = 0;
        while p < o.len() && clips[o[p]].timeline_start_ms <= v
            invariant
                n == clips@.len(),
                k < n,
                o@.len() == k,
                forall|j: int| 0 <= j < k ==> #[trigger] o@[j] < k,
                p <= o@.len(),
                insert_position(clips@, o@, v, 0) == insert_position(clips@, o@, v, p as int),
            decreases o@.len() - p,
        {
            p = p + 1;
        }
        proof {
            lemma_insert_position_bounds(clips@, o@, v, 0);
        }
        o.insert(p, k);
        proof {
            lemma_start_order_shape(clips@, (k + 1) as nat);
        }
        k = k + 1;
    }
    o
}

/// Whether one of the listed clips (by number) has source path `path`.
pub open spec fn path_listed(clips: Seq<InteropClip>, a: Seq<usize>, path: Seq<char>) -> bool {
    exists|k: int| 0 <= k < a.len() && #[trigger] clips[a[k] as int].source_path@ == path
}

/// The numbers of the clips among the first `n` that bring a source path
/// not seen before, in order: one per distinct source path.
pub open spec fn asset_clips(clips: Seq<InteropClip>, n: nat) -> Seq<usize>
    decreases n,
{
    if n == 0 {
        Seq::empty()
    } else {
        let a = asset_clips(clips, (n - 1) as nat);
        if path_listed(clips, a, clips[n - 1].source_path@) {
            a
        } else {
            a.push((n - 1) as usize)
        }
    }
}

/// The first position, from `k` on, of a listed clip with source path
/// `path` (the list's length when there is none).
pub open spec fn first_listed(clips: Seq<InteropClip>, a: Seq<usize>, path: Seq<char>, k: int) -> int
    decreases a.len() - k,
{
    if k >= a.len() || k < 0 {
        a.len() as int
    } else if clips[a[k] as int].source_path@ == path {
        k
    } else {
        first_listed(clips, a, path, k + 1)
    }
}

proof fn lemma_asset_clips_shape(clips: Seq<InteropClip>, n: nat)
    requires
        n <= clips.len(),
        n <= usize::MAX,
    ensures
        asset_clips(clips, n).len() <= n,
        forall|j: int| 0 <= j < asset_clips(clips, n).len() ==> #[trigger] asset_clips(clips, n)[j] < n,
        forall|m: int| 0 <= m < n ==> path_listed(clips, asset_clips(clips, n), #[trigger] clips[m].source_path@),
    decreases n,
{
    if n > 0 {
        lemma_asset_clips_shape(clips, (n - 1) as nat);
        let a = asset_clips(clips, (n - 1) as nat);
        let b = asset_clips(clips, n);
        assert forall|m: int| 0 <= m < n implies path_listed(clips, b, #[trigger] clips[m].source_path@) by {
            if m < n - 1 {
                assert(path_listed(clips, a, clips[m].source_path@));
                let k = choose|k: int| 0 <= k < a.len() && #[trigger] clips[a[k] as int].source_path@ == clips[m].source_path@;
                assert(b[k] == a[k]);
            } else if !path_listed(clips, a, clips[n - 1].source_path@) {
                assert(b[a.len() as int] == (n - 1) as usize);
            }
        }
    }
}

proof fn lemma_first_listed_found(clips: Seq<InteropClip>, a: Seq<usize>, path: Seq<char>, k: int, k0: int)
    requires
        0 <= k <= k0 < a.len(),
        clips[a[k0] as int].source_path@ == path,
    ensures
        k <= first_listed(clips, a, path, k) <= k0,
        clips[a[first_listed(clips, a, path, k)] as int].source_path@ == path,
    decreases a.len() - k,
{
    if clips[a[k] as int].source_path@ != path {
        lemma_first_listed_found(clips, a, path, k + 1, k0);
    }
}

/// The asset clips, computed.
fn asset_clips_exec(clips: &Vec<InteropClip>) -> (a: Vec<usize>)
    ensures
        a@ == asset_clips(clips@, clips@.len()),
{
    let n = clips.len();
    let mut a: Vec<usize> = Vec::new();
    let mut k: usize = 0;
    while k < n
        invariant
            n == clips@.len(),
            k <= n,
            a@ == asset_clips(clips@, k as nat),
        decreases n - k,
    {
        proof {
            lemma_asset_clips_shape(clips@, k as nat);
        }
        let path = clips[k].source_path.as_str();
        let mut j: usize = 0;
        let mut found = false;
        while j < a.len()
            invariant
                n == clips@.len(),
                k < n,
                a@ == asset_clips(clips@, k as nat),
                forall|i: int| 0 <= i < a@.len() ==> #[trigger] a@[i] < k,
                path@ == clips@[k as int].source_path@,
                j <= a@.len(),
                found ==> path_listed(clips@, a@, path@),
                !found ==> forall|i: int| 0 <= i < j ==> #[trigger] clips@[a@[i] as int].source_path@ != path@,
            decreases a@.len() - j,
        {
            if crate::text::str_equals(clips[a[j]].source_path.as_str(), path) {
                found = true;
                assert(clips@[a@[j as int] as int].source_path@ == path@);
            }
            j = j + 1;
        }
        if !found {
            a.push(k);
        }
        k = k + 1;
    }
    a
}

/// The position of the first asset clip with source path `path`.
fn asset_position(clips: &Vec<InteropClip>, a: &Vec<usize>, path: &str) -> (k: usize)
    requires
        forall|i: int| 0 <= i < a@.len() ==> #[trigger] a@[i] < clips@.len(),
        path_listed(clips@, a@, path@),
    ensures
        k as int == first_listed(clips@, a@, path@, 0),
        k < a@.len(),
{
    let ghost k0 = choose|k: int| 0 <= k < a@.len() && #[trigger] clips@[a@[k] as int].source_path@ == path@;
    proof {
        lemma_first_listed_found(clips@, a@, path@, 0, k0);
    }
    let mut k: usize = 0;
    while k < a.len()
        invariant
            forall|i: int| 0 <= i < a@.len() ==> #[trigger] a@[i] < clips@.len(),
            0 <= k0 < a@.len(),
            clips@[a@[k0] as int].source_path@ == path@,
            k <= k0,
            first_listed(clips@, a@, path@, 0) == first_listed(clips@, a@, path@, k as int),
        decreases a@.len() - k,
    {
        if crate::text::str_equals(clips[a[k]].source_path.as_str(), path) {
            return k;
        }
        proof {
            lemma_first_listed_found(clips@, a@, path@, (k + 1) as int, k0);
        }
        k = k + 1;
    }
    k
}

// ───────────────────────────── FCPXML ─────────────────────────────

/// The fixed opening of the FCPXML document.
pub open spec fn fcpxml_opening() -> Seq<char> {
    "<?xml version=\"1.0\" encoding=\"UTF-8\"?>\n"@ + "<!DOCTYPE fcpxml>\n"@ + "<fcpxml version=\"1.10\">\n"@
        + "  <resources>\n"@
}

/// The format resource of a timeline.
pub open spec fn fcpxml_format_line(t: InteropTimeline) -> Seq<char> {
    "    <format id=\"r1\" name=\"FFVideoFormat"@ + decimal(t.width as nat) + "x"@ + decimal(t.height as nat) + "p"@
        + decimal((t.frame_rate_num / t.frame_rate_den) as nat) + "\" frameDuration=\""@
        + decimal(t.frame_rate_den as nat) + "/"@ + decimal(t.frame_rate_num as nat) + "s\" width=\""@
        + decimal(t.width as nat) + "\" height=\""@ + decimal(t.height as nat) + "\"/>\n"@
}

/// The name an asset is shown under: the file name of its path, or the name
/// of the clip that brought it when the path has none.
pub open spec fn asset_display_name(c: InteropClip) -> Seq<char> {
    match path_file_name(c.source_path@) {
        Some(f) => f,
        None => c.name@,
    }
}

/// The asset resource brought by clip `c`, the `k`-th asset (its id is
/// `r{k + 2}`).
pub open spec fn asset_line(c: InteropClip, k: int) -> Seq<char> {
    "    <asset id=\"r"@ + decimal((k + 2) as nat) + "\" name=\""@ + asset_display_name(c) + "\" src=\""@
        + c.source_path@ + "\" start=\"0s\" duration=\"0s\" hasVideo=\"1\"/>\n"@
}

/// The first `k` asset resources.
pub open spec fn asset_lines(clips: Seq<InteropClip>, a: Seq<usize>, k: nat) -> Seq<char>
    decreases k,
{
    if k == 0 {
        Seq::empty()
    } else {
        asset_lines(clips, a, (k - 1) as nat) + asset_line(clips[a[k - 1] as int], k - 1)
    }
}

/// From the end of the resources to the opening of the spine.
pub open spec fn fcpxml_middle(t: InteropTimeline) -> Seq<char> {
    "  </resources>\n"@ + "  <library>\n"@ + "    <event name=\""@ + t.name@ + "\">\n"@ + "      <project name=\""@
        + t.name@ + "\">\n"@ + "        <sequence format=\"r1\" tcStart=\"0s\" tcFormat=\"NDF\" frameDuration=\""@
        + decimal(t.frame_rate_den as nat) + "/"@ + decimal(t.frame_rate_num as nat) + "s\">\n"@
        + "          <spine>\n"@
}

/// The spine entry of clip `c`, referring to the asset of its source path.
pub open spec fn spine_line(clips: Seq<InteropClip>, a: Seq<usize>, c: InteropClip) -> Seq<char> {
    "            <asset-clip name=\""@ + c.name@ + "\" ref=\"r"@
        + decimal((first_listed(clips, a, c.source_path@, 0) + 2) as nat) + "\" offset=\""@
        + signed_decimal(c.timeline_start_ms as int) + "s\" duration=\""@
        + signed_decimal(c.timeline_end_ms - c.timeline_start_ms) + "s\" start=\""@
        + signed_decimal(c.source_in_ms as int) + "s\"/>\n"@
}

/// The spine entries of the first `k` clips of `order`.
pub open spec fn spine_lines(clips: Seq<InteropClip>, a: Seq<usize>, order: Seq<usize>, k: nat) -> Seq<char>
    decreases k,
{
    if k == 0 {
        Seq::empty()
    } else {
        spine_lines(clips, a, order, (k - 1) as nat) + spine_line(clips, a, clips[order[k - 1] as int])
    }
}

/// The fixed closing of the FCPXML document.
pub open spec fn fcpxml_closing() -> Seq<char> {
    "          </spine>\n"@ + "        </sequence>\n"@ + "      </project>\n"@ + "    </event>\n"@
        + "  </library>\n"@ + "</fcpxml>\n"@
}

/// The FCPXML v1.10 document of a timeline: one asset per distinct source
/// path (in order of first use), and the clips on the spine in timeline
/// order.
pub open spec fn fcpxml(t: InteropTimeline) -> Seq<char> {
    let clips = t.clips@;
    let a = asset_clips(clips, clips.len());
    fcpxml_opening() + fcpxml_format_line(t) + asset_lines(clips, a, a.len()) + fcpxml_middle(t)
        + spine_lines(clips, a, start_order(clips, clips.len()), clips.len()) + fcpxml_closing()
}

/// The FCPXML document gives one frame the duration of the reciprocal of
/// the frame rate, `den/num` seconds, both in the format resource and on
/// the sequence: the document is made of some text, the format's
/// `frameDuration="den/nums"`, more text, the sequence element with the
/// same `frameDuration`, and the rest.
pub proof fn lemma_fcpxml_frame_duration(t: InteropTimeline)
    ensures
        exists|pre: Seq<char>, mid: Seq<char>, post: Seq<char>| fcpxml(t) == pre
            + ("\" frameDuration=\""@ + decimal(t.frame_rate_den as nat) + "/"@ + decimal(t.frame_rate_num as nat)
                + "s\" width=\""@) + mid
            + ("        <sequence format=\"r1\" tcStart=\"0s\" tcFormat=\"NDF\" frameDuration=\""@
                + decimal(t.frame_rate_den as nat) + "/"@ + decimal(t.frame_rate_num as nat) + "s\">\n"@) + post,
{
    let clips = t.clips@;
    let a = asset_clips(clips, clips.len());
    let fmt = "\" frameDuration=\""@ + decimal(t.frame_rate_den as nat) + "/"@ + decimal(t.frame_rate_num as nat)
        + "s\" width=\""@;
    let seq_el = "        <sequence format=\"r1\" tcStart=\"0s\" tcFormat=\"NDF\" frameDuration=\""@
        + decimal(t.frame_rate_den as nat) + "/"@ + decimal(t.frame_rate_num as nat) + "s\">\n"@;
    let pre = fcpxml_opening() + ("    <format id=\"r1\" name=\"FFVideoFormat"@ + decimal(t.width as nat) + "x"@
        + decimal(t.height as nat) + "p"@ + decimal((t.frame_rate_num / t.frame_rate_den) as nat));
    let mid = (decimal(t.width as nat) + "\" height=\""@ + decimal(t.height as nat) + "\"/>\n"@)
        + asset_lines(clips, a, a.len()) + ("  </resources>\n"@ + "  <library>\n"@ + "    <event name=\""@ + t.name@
        + "\">\n"@ + "      <project name=\""@ + t.name@ + "\">\n"@);
    let post = "          <spine>\n"@ + spine_lines(clips, a, start_order(clips, clips.len()), clips.len())
        + fcpxml_closing();
    assert(fcpxml_format_line(t) =~= ("    <format id=\"r1\" name=\"FFVideoFormat"@ + decimal(t.width as nat) + "x"@
        + decimal(t.height as nat) + "p"@ + decimal((t.frame_rate_num / t.frame_rate_den) as nat)) + fmt
        + (decimal(t.width as nat) + "\" height=\""@ + decimal(t.height as nat) + "\"/>\n"@));
    assert(fcpxml_middle(t) =~= ("  </resources>\n"@ + "  <library>\n"@ + "    <event name=\""@ + t.name@
        + "\">\n"@ + "      <project name=\""@ + t.name@ + "\">\n"@) + seq_el + "          <spine>\n"@);
    assert(fcpxml(t) =~= pre + fmt + mid + seq_el + post);
}

/// Whether the duration of every clip (end minus start) fits an `i64`.
pub open spec fn durations_fit(clips: Seq<InteropClip>) -> bool {
    forall|i: int| 0 <= i < clips.len() ==> i64::MIN <= #[trigger] clips[i].timeline_end_ms - clips[i].timeline_start_ms <= i64::MAX
}

fn push_format_line(out: &mut String, t: &InteropTimeline)
    requires
        t.frame_rate_den > 0,
    ensures
        final(out)@ == old(out)@ + fcpxml_format_line(*t),
{
    out.append("    <format id=\"r1\" name=\"FFVideoFormat");
    push_decimal(out, t.width as u64);
    out.append("x");
    push_decimal(out, t.height as u64);
    out.append("p");
    push_decimal(out, (t.frame_rate_num / t.frame_rate_den) as u64);
    out.append("\" frameDuration=\"");
    push_decimal(out, t.frame_rate_den as u64);
    out.append("/");
    push_decimal(out, t.frame_rate_num as u64);
    out.append("s\" width=\"");
    push_decimal(out, t.width as u64);
    out.append("\" height=\"");
    push_decimal(out, t.height as u64);
    out.append("\"/>\n");
    assert(out@ =~= old(out)@ + fcpxml_format_line(*t));
}

fn push_asset_line(out: &mut String, c: &InteropClip, k: usize)
    ensures
        final(out)@ == old(out)@ + asset_line(*c, k as int),
{
    out.append("    <asset id=\"r");
    push_decimal_wide(out, (k as u128) + 2);
    out.append("\" name=\"");
    match file_name_of(c.source_path.as_str()) {
        Some(f) => out.append(f.as_str()),
        None => out.append(c.name.as_str()),
    }
    out.append("\" src=\"");
    out.append(c.source_path.as_str());
    out.append("\" start=\"0s\" duration=\"0s\" hasVideo=\"1\"/>\n");
    assert(out@ =~= old(out)@ + asset_line(*c, k as int));
}

fn push_middle(out: &mut String, t: &InteropTimeline)
    ensures
        final(out)@ == old(out)@ + fcpxml_middle(*t),
{
    out.append("  </resources>\n");
    out.append("  <library>\n");
    out.append("    <event name=\"");
    out.append(t.name.as_str());
    out.append("\">\n");
    out.append("      <project name=\"");
    out.append(t.name.as_str());
    out.append("\">\n");
    out.append("        <sequence format=\"r1\" tcStart=\"0s\" tcFormat=\"NDF\" frameDuration=\"");
    push_decimal(out, t.frame_rate_den as u64);
    out.append("/");
    push_decimal(out, t.frame_rate_num as u64);
    out.append("s\">\n");
    out.append("          <spine>\n");
    assert(out@ =~= old(out)@ + fcpxml_middle(*t));
}

fn push_spine_line(out: &mut String, clips: &Vec<InteropClip>, a: &Vec<usize>, c: &InteropClip)
    requires
        forall|i: int| 0 <= i < a@.len() ==> #[trigger] a@[i] < clips@.len(),
        path_listed(clips@, a@, c.source_path@),
        i64::MIN <= c.timeline_end_ms - c.timeline_start_ms <= i64::MAX,
    ensures
        final(out)@ == old(out)@ + spine_line(clips@, a@, *c),
{
    let k = asset_position(clips, a, c.source_path.as_str());
    out.append("            <asset-clip name=\"");
    out.append(c.name.as_str());
    out.append("\" ref=\"r");
    push_decimal_wide(out, (k as u128) + 2);
    out.append("\" offset=\"");
    push_signed_padded(out, c.timeline_start_ms, 0);
    out.append("s\" duration=\"");
    push_signed_padded(out, c.timeline_end_ms - c.timeline_start_ms, 0);
    out.append("s\" start=\"");
    push_signed_padded(out, c.source_in_ms, 0);
    out.append("s\"/>\n");
    assert(out@ =~= old(out)@ + spine_line(clips@, a@, *c));
}

fn push_fcpxml_closing(out: &mut String)
    ensures
        final(out)@ == old(out)@ + fcpxml_closing(),
{
    out.append("          </spine>\n");
    out.append("        </sequence>\n");
    out.append("      </project>\n");
    out.append("    </event>\n");
    out.append("  </library>\n");
    out.append("</fcpxml>\n");
    assert(out@ =~= old(out)@ + fcpxml_closing());
}

/// Exports to FCPXML v1.10 format.
pub fn export_fcpxml(timeline: &InteropTimeline) -> (r: String)
    requires
        timeline.frame_rate_den > 0,
        durations_fit(timeline.clips@),
    ensures
        r@ == fcpxml(*timeline),
{
    let clips = &timeline.clips;
    let n = clips.len();
    let mut out = String::new();
    out.append("<?xml version=\"1.0\" encoding=\"UTF-8\"?>\n");
    out.append("<!DOCTYPE fcpxml>\n");
    out.append("<fcpxml version=\"1.10\">\n");
    out.append("  <resources>\n");
    assert(out@ =~= fcpxml_opening());
    push_format_line(&mut out, timeline);
    let ghost head = out@;
    let a = asset_clips_exec(clips);
    proof {
        lemma_asset_clips_shape(clips@, n as nat);
    }
    let mut k: usize = 0;
    while k < a.len()
        invariant
            n == clips@.len(),
            a@ == asset_clips(clips@, n as nat),
            a@.len() <= n,
            forall|j: int| 0 <= j < a@.len() ==> #[trigger] a@[j] < n,
            k <= a@.len(),
            out@ == head + asset_lines(clips@, a@, k as nat),
        decreases a@.len() - k,
    {
        push_asset_line(&mut out, &clips[a[k]], k);
        k = k + 1;
        assert(out@ =~= head + asset_lines(clips@, a@, k as nat));
    }
    push_middle(&mut out, timeline);
    let ghost head2 = out@;
    let order = start_order_exec(clips);
    let mut i: usize = 0;
    while i < n
        invariant
            n == clips@.len(),
            durations_fit(clips@),
            a@ == asset_clips(clips@, n as nat),
            a@.len() <= n,
            forall|j: int| 0 <= j < a@.len() ==> #[trigger] a@[j] < n,
            forall|m: int| 0 <= m < n ==> path_listed(clips@, a@, #[trigger] clips@[m].source_path@),
            order@ == start_order(clips@, n as nat),
            order@.len() == n,
            forall|j: int| 0 <= j < n ==> #[trigger] order@[j] < n,
            i <= n,
            out@ == head2 + spine_lines(clips@, a@, order@, i as nat),
        decreases n - i,
    {
        let c = &clips[order[i]];
        assert(path_listed(clips@, a@, clips@[order@[i as int] as int].source_path@));
        push_spine_line(&mut out, clips, &a, c);
        i = i + 1;
        assert(out@ =~= head2 + spine_lines(clips@, a@, order@, i as nat));
    }
    push_fcpxml_closing(&mut out);
    assert(out@ =~= fcpxml(*timeline));
    out
}

// ───────────────────────────── OpenTimelineIO ─────────────────────────────

/// The JSON string literal (quoted and escaped) that `serde_json` writes
/// for a text.
pub uninterp spec fn json_string_literal(s: Seq<char>) -> Seq<char>;

/// `serde_json::to_string` on a text: its JSON string literal. Writing a
/// `str` into an in-memory buffer cannot fail (the serializer only escapes
/// characters), so the result is always there; the contract names it and
/// does not restate the escaping rules.
#[verifier::external_body]
fn json_quote(s: &str) -> (r: String)
    ensures
        r@ == json_string_literal(s@),
{
    serde_json::to_string(s).unwrap()
}

/// The first lines of the OTIO document: schema and timeline name.
pub open spec fn otio_head(t: InteropTimeline) -> Seq<char> {
    "{\n"@ + "  \"OTIO_SCHEMA\": \"Timeline.1\",\n"@ + "  \"name\": "@ + json_string_literal(t.name@) + ",\n"@
}

/// The metadata block of the OTIO document: the frame size and rate.
pub open spec fn otio_metadata(t: InteropTimeline) -> Seq<char> {
    "  \"metadata\": {\n"@ + "    \"editors_pro\": { \"width\": "@ + decimal(t.width as nat) + ", \"height\": "@
        + decimal(t.height as nat) + ", \"frame_rate_num\": "@ + decimal(t.frame_rate_num as nat)
        + ", \"frame_rate_den\": "@ + decimal(t.frame_rate_den as nat) + " }\n"@ + "  },\n"@
}

/// The opening of the track stack, up to the clip list of the video track.
pub open spec fn otio_tracks_opening() -> Seq<char> {
    "  \"tracks\": {\n"@ + "    \"OTIO_SCHEMA\": \"Stack.1\",\n"@ + "    \"name\": \"tracks\",\n"@
        + "    \"children\": [\n"@ + "      {\n"@ + "        \"OTIO_SCHEMA\": \"Track.1\",\n"@
        + "        \"name\": \"V1\",\n"@ + "        \"kind\": \"Video\",\n"@ + "        \"children\": [\n"@
}

/// The opening of the OTIO document, up to the clip list of the track.
pub open spec fn otio_opening(t: InteropTimeline) -> Seq<char> {
    otio_head(t) + otio_metadata(t) + otio_tracks_opening()
}

/// An OTIO rational time: a frame count at the timeline rate (the rate
/// written as the JSON string `"num/den"`).
pub open spec fn otio_rational_time(value: int, num: int, den: int) -> Seq<char> {
    "{ \"OTIO_SCHEMA\": \"RationalTime.1\", \"value\": "@ + signed_decimal(value) + ", \"rate\": \""@
        + decimal(num as nat) + "/"@ + decimal(den as nat) + "\" }"@
}

/// The name and source range of the OTIO clip of `c`.
pub open spec fn otio_clip_head(c: InteropClip, num: int, den: int) -> Seq<char> {
    "          {\n"@ + "            \"OTIO_SCHEMA\": \"Clip.1\",\n"@ + "            \"name\": "@
        + json_string_literal(c.name@) + ",\n"@ + "            \"source_range\": {\n"@
        + "              \"OTIO_SCHEMA\": \"TimeRange.1\",\n"@ + "              \"start_time\": "@
        + otio_rational_time(frames_at(c.source_in_ms as int, num, den), num, den) + ",\n"@
        + "              \"duration\": "@
        + otio_rational_time(frames_at(c.source_out_ms - c.source_in_ms, num, den), num, den) + "\n"@
        + "            },\n"@
}

/// The media reference of the OTIO clip of `c`, and its closing brace
/// (followed by a comma unless `last`).
pub open spec fn otio_clip_tail(c: InteropClip, last: bool) -> Seq<char> {
    "            \"media_reference\": {\n"@ + "              \"OTIO_SCHEMA\": \"ExternalReference.1\",\n"@
        + "              \"target_url\": "@ + json_string_literal(c.source_path@) + "\n"@ + "            }\n"@
        + if last { "          }\n"@ } else { "          },\n"@ }
}

/// The OTIO clip of `c`; `last` tells whether it closes the list.
pub open spec fn otio_clip(c: InteropClip, num: int, den: int, last: bool) -> Seq<char> {
    otio_clip_head(c, num, den) + otio_clip_tail(c, last)
}

/// The OTIO clips of the first `k` entries of `order` (out of `n`).
pub open spec fn otio_clips(clips: Seq<InteropClip>, order: Seq<usize>, k: nat, n: nat, num: int, den: int) -> Seq<char>
    decreases k,
{
    if k == 0 {
        Seq::empty()
    } else {
        otio_clips(clips, order, (k - 1) as nat, n, num, den) + otio_clip(clips[order[k - 1] as int], num, den, k == n)
    }
}

/// The closing of the OTIO document.
pub open spec fn otio_closing() -> Seq<char> {
    "        ]\n"@ + "      }\n"@ + "    ]\n"@ + "  }\n"@ + "}\n"@
}

/// The OpenTimelineIO 0.17 document of a timeline: one video track holding
/// the clips in timeline order.
pub open spec fn otio(t: InteropTimeline) -> Seq<char> {
    let clips = t.clips@;
    let n = clips.len();
    otio_opening(t) + otio_clips(clips, start_order(clips, n), n, n, t.frame_rate_num as int, t.frame_rate_den as int)
        + otio_closing()
}

/// Whether every clip's source range (out minus in) fits an `i64`.
pub open spec fn source_ranges_fit(clips: Seq<InteropClip>) -> bool {
    forall|i: int| 0 <= i < clips.len() ==> i64::MIN <= #[trigger] clips[i].source_out_ms - clips[i].source_in_ms <= i64::MAX
}

fn push_otio_head(out: &mut String, t: &InteropTimeline)
    ensures
        final(out)@ == old(out)@ + otio_head(*t),
{
    out.append("{\n");
    out.append("  \"OTIO_SCHEMA\": \"Timeline.1\",\n");
    out.append("  \"name\": ");
    let name = json_quote(t.name.as_str());
    out.append(name.as_str());
    out.append(",\n");
    assert(out@ =~= old(out)@ + otio_head(*t));
}

fn push_otio_metadata(out: &mut String, t: &InteropTimeline)
    ensures
        final(out)@ == old(out)@ + otio_metadata(*t),
{
    out.append("  \"metadata\": {\n");
    out.append("    \"editors_pro\": { \"width\": ");
    push_decimal(out, t.width as u64);
    out.append(", \"height\": ");
    push_decimal(out, t.height as u64);
    out.append(", \"frame_rate_num\": ");
    push_decimal(out, t.frame_rate_num as u64);
    out.append(", \"frame_rate_den\": ");
    push_decimal(out, t.frame_rate_den as u64);
    out.append(" }\n");
    out.append("  },\n");
    assert(out@ =~= old(out)@ + otio_metadata(*t));
}

fn push_otio_tracks_opening(out: &mut String)
    ensures
        final(out)@ == old(out)@ + otio_tracks_opening(),
{
    out.append("  \"tracks\": {\n");
    out.append("    \"OTIO_SCHEMA\": \"Stack.1\",\n");
    out.append("    \"name\": \"tracks\",\n");
    out.append("    \"children\": [\n");
    out.append("      {\n");
    out.append("        \"OTIO_SCHEMA\": \"Track.1\",\n");
    out.append("        \"name\": \"V1\",\n");
    out.append("        \"kind\": \"Video\",\n");
    out.append("        \"children\": [\n");
    assert(out@ =~= old(out)@ + otio_tracks_opening());
}

fn push_otio_opening(out: &mut String, t: &InteropTimeline)
    ensures
        final(out)@ == old(out)@ + otio_opening(*t),
{
    push_otio_head(out, t);
    push_otio_metadata(out, t);
    push_otio_tracks_opening(out);
    assert(out@ =~= old(out)@ + otio_opening(*t));
}

fn push_rational_time(out: &mut String, value: i64, num: u32, den: u32)
    ensures
        final(out)@ == old(out)@ + otio_rational_time(value as int, num as int, den as int),
{
    out.append("{ \"OTIO_SCHEMA\": \"RationalTime.1\", \"value\": ");
    push_signed_padded(out, value, 0);
    out.append(", \"rate\": \"");
    push_decimal(out, num as u64);
    out.append("/");
    push_decimal(out, den as u64);
    out.append("\" }");
    assert(out@ =~= old(out)@ + otio_rational_time(value as int, num as int, den as int));
}

fn push_otio_clip_head(out: &mut String, c: &InteropClip, num: u32, den: u32)
    requires
        i64::MIN <= c.source_out_ms - c.source_in_ms <= i64::MAX,
    ensures
        final(out)@ == old(out)@ + otio_clip_head(*c, num as int, den as int),
{
    let start = ms_to_frames(c.source_in_ms, num, den);
    let dur = ms_to_frames(c.source_out_ms - c.source_in_ms, num, den);
    out.append("          {\n");
    out.append("            \"OTIO_SCHEMA\": \"Clip.1\",\n");
    out.append("            \"name\": ");
    let name = json_quote(c.name.as_str());
    out.append(name.as_str());
    out.append(",\n");
    out.append("            \"source_range\": {\n");
    out.append("              \"OTIO_SCHEMA\": \"TimeRange.1\",\n");
    out.append("              \"start_time\": ");
    push_rational_time(out, start, num, den);
    out.append(",\n");
    out.append("              \"duration\": ");
    push_rational_time(out, dur, num, den);
    out.append("\n");
    out.append("            },\n");
    assert(out@ =~= old(out)@ + otio_clip_head(*c, num as int, den as int));
}

fn push_otio_clip_tail(out: &mut String, c: &InteropClip, last: bool)
    ensures
        final(out)@ == old(out)@ + otio_clip_tail(*c, last),
{
    out.append("            \"media_reference\": {\n");
    out.append("              \"OTIO_SCHEMA\": \"ExternalReference.1\",\n");
    out.append("              \"target_url\": ");
    let url = json_quote(c.source_path.as_str());
    out.append(url.as_str());
    out.append("\n");
    out.append("            }\n");
    if last {
        out.append("          }\n");
    } else {
        out.append("          },\n");
    }
    assert(out@ =~= old(out)@ + otio_clip_tail(*c, last));
}

fn push_otio_clip(out: &mut String, c: &InteropClip, num: u32, den: u32, last: bool)
    requires
        i64::MIN <= c.source_out_ms - c.source_in_ms <= i64::MAX,
    ensures
        final(out)@ == old(out)@ + otio_clip(*c, num as int, den as int, last),
{
    push_otio_clip_head(out, c, num, den);
    push_otio_clip_tail(out, c, last);
    assert(out@ =~= old(out)@ + otio_clip(*c, num as int, den as int, last));
}

/// Exports to OpenTimelineIO 0.17 (JSON).
pub fn export_otio(timeline: &InteropTimeline) -> (r: String)
    requires
        durations_fit(timeline.clips@),
        source_ranges_fit(timeline.clips@),
    ensures
        r@ == otio(*timeline),
{
    let clips = &timeline.clips;
    let n = clips.len();
    let num = timeline.frame_rate_num;
    let den = timeline.frame_rate_den;
    let mut out = String::new();
    push_otio_opening(&mut out, timeline);
    let ghost head = out@;
    let order = start_order_exec(clips);
    let mut i: usize = 0;
    while i < n
        invariant
            n == clips@.len(),
            num == timeline.frame_rate_num,
            den == timeline.frame_rate_den,
            source_ranges_fit(clips@),
            order@ == start_order(clips@, n as nat),
            order@.len() == n,
            forall|j: int| 0 <= j < n ==> #[trigger] order@[j] < n,
            i <= n,
            out@ == head + otio_clips(clips@, order@, i as nat, n as nat, num as int, den as int),
        decreases n - i,
    {
        let c = &clips[order[i]];
        assert(i64::MIN <= clips@[order@[i as int] as int].source_out_ms - clips@[order@[i as int] as int].source_in_ms <= i64::MAX);
        push_otio_clip(&mut out, c, num, den, i + 1 == n);
        i = i + 1;
        assert(out@ =~= head + otio_clips(clips@, order@, i as nat, n as nat, num as int, den as int));
    }
    out.append("        ]\n");
    out.append("      }\n");
    out.append("    ]\n");
    out.append("  }\n");
    out.append("}\n");
    assert(out@ =~= otio(*timeline));
    out
}

/// The document of a timeline in the given format.
pub open spec fn exported(t: InteropTimeline, format: InteropFormat) -> Seq<char> {
    match format {
        InteropFormat::Edl => edl(t),
        InteropFormat::Fcpxml => fcpxml(t),
        InteropFormat::OpenTimelineIO => otio(t),
    }
}

/// What each format needs of a timeline: EDL a frame rate whose rounded
/// whole value is not zero; FCPXML a non-zero denominator and clip
/// durations that fit `i64`; OTIO clip durations and source ranges that fit
/// `i64`.
pub open spec fn exportable(t: InteropTimeline, format: InteropFormat) -> bool {
    match format {
        InteropFormat::Edl => timecode_rate_ok(t.frame_rate_num as int, t.frame_rate_den as int),
        InteropFormat::Fcpxml => t.frame_rate_den > 0 && durations_fit(t.clips@),
        InteropFormat::OpenTimelineIO => durations_fit(t.clips@) && source_ranges_fit(t.clips@),
    }
}

/// Exports a timeline to the given format; returns the file content.
pub fn export(timeline: &InteropTimeline, format: InteropFormat) -> (r: String)
    requires
        exportable(*timeline, format),
    ensures
        r@ == exported(*timeline, format),
{
    match format {
        InteropFormat::Edl => export_edl(timeline),
        InteropFormat::Fcpxml => export_fcpxml(timeline),
        InteropFormat::OpenTimelineIO => export_otio(timeline),
    }
}

} // verus!
