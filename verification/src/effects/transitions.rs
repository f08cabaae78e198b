//! Transitions between clips: the catalog of transition types, the
//! transition record, and the pixel routing of wipes and slides.
//!
//! Wipes and slides move whole pixels: given the split column or row (a
//! wipe) or the slide offset, each output pixel is copied from the
//! outgoing or the incoming frame. The alpha blends, zooms and the mapping
//! from progress to split or offset are floating-point work done by the
//! caller.

use vstd::prelude::*;
use crate::project::{is_uuid_v4_text, new_uuid_v4_text};
use crate::text::{ascii_lowercase, is_ascii_text, str_equals, to_lowercase, unicode_lowercase};

verus! {

/// Types of transitions between clips.
#[derive(Debug, Clone, Copy, PartialEq, Eq, Structural)]
pub enum TransitionType {
    Cut,
    Fade,
    Dissolve,
    WipeLeft,
    WipeRight,
    WipeUp,
    WipeDown,
    SlideLeft,
    SlideRight,
    ZoomIn,
    ZoomOut,
    Spin,
}

impl TransitionType {
    /// The display name of each type.
    pub open spec fn spec_display_name(self) -> Seq<char> {
        match self {
            TransitionType::Cut => "Cut"@,
            TransitionType::Fade => "Fade"@,
            TransitionType::Dissolve => "Dissolve"@,
            TransitionType::WipeLeft => "Wipe Left"@,
            TransitionType::WipeRight => "Wipe Right"@,
            TransitionType::WipeUp => "Wipe Up"@,
            TransitionType::WipeDown => "Wipe Down"@,
            TransitionType::SlideLeft => "Slide Left"@,
            TransitionType::SlideRight => "Slide Right"@,
            TransitionType::ZoomIn => "Zoom In"@,
            TransitionType::ZoomOut => "Zoom Out"@,
            TransitionType::Spin => "Spin"@,
        }
    }

    /// The display name of the transition type.
    pub fn display_name(&self) -> (r: &str)
        ensures
            r@ == self.spec_display_name(),
    {
        match self {
            TransitionType::Cut => "Cut",
            TransitionType::Fade => "Fade",
            TransitionType::Dissolve => "Dissolve",
            TransitionType::WipeLeft => "Wipe Left",
            TransitionType::WipeRight => "Wipe Right",
            TransitionType::WipeUp => "Wipe Up",
            TransitionType::WipeDown => "Wipe Down",
            TransitionType::SlideLeft => "Slide Left",
            TransitionType::SlideRight => "Slide Right",
            TransitionType::ZoomIn => "Zoom In",
            TransitionType::ZoomOut => "Zoom Out",
            TransitionType::Spin => "Spin",
        }
    }

    /// The icon identifier of each type.
    pub open spec fn spec_icon(self) -> Seq<char> {
        match self {
            TransitionType::Cut => "cut"@,
            TransitionType::Fade => "fade"@,
            TransitionType::Dissolve => "dissolve"@,
            TransitionType::WipeLeft => "wipe_left"@,
            TransitionType::WipeRight => "wipe_right"@,
            TransitionType::WipeUp => "wipe_up"@,
            TransitionType::WipeDown => "wipe_down"@,
            TransitionType::SlideLeft => "slide_left"@,
            TransitionType::SlideRight => "slide_right"@,
            TransitionType::ZoomIn => "zoom_in"@,
            TransitionType::ZoomOut => "zoom_out"@,
            TransitionType::Spin => "spin"@,
        }
    }

    /// Gets an icon identifier for UI rendering.
    pub fn icon(&self) -> (r: &str)
        ensures
            r@ == self.spec_icon(),
    {
        match self {
            TransitionType::Cut => "cut",
            TransitionType::Fade => "fade",
            TransitionType::Dissolve => "dissolve",
            TransitionType::WipeLeft => "wipe_left",
            TransitionType::WipeRight => "wipe_right",
            TransitionType::WipeUp => "wipe_up",
            TransitionType::WipeDown => "wipe_down",
            TransitionType::SlideLeft => "slide_left",
            TransitionType::SlideRight => "slide_right",
            TransitionType::ZoomIn => "zoom_in",
            TransitionType::ZoomOut => "zoom_out",
            TransitionType::Spin => "spin",
        }
    }

    /// The default duration of each type, in milliseconds.
    pub open spec fn spec_default_duration_ms(self) -> u64 {
        match self {
            TransitionType::Cut => 0,
            TransitionType::Fade => 500,
            TransitionType::Dissolve => 700,
            TransitionType::WipeLeft | TransitionType::WipeRight => 500,
            TransitionType::WipeUp | TransitionType::WipeDown => 500,
            TransitionType::SlideLeft | TransitionType::SlideRight => 400,
            TransitionType::ZoomIn | TransitionType::ZoomOut => 600,
            TransitionType::Spin => 500,
        }
    }

    /// Gets the default duration for this transition type.
    pub fn default_duration_ms(&self) -> (r: u64)
        ensures
            r == self.spec_default_duration_ms(),
    {
        match self {
            TransitionType::Cut => 0,
            TransitionType::Fade => 500,
            TransitionType::Dissolve => 700,
            TransitionType::WipeLeft | TransitionType::WipeRight => 500,
            TransitionType::WipeUp | TransitionType::WipeDown => 500,
            TransitionType::SlideLeft | TransitionType::SlideRight => 400,
            TransitionType::ZoomIn | TransitionType::ZoomOut => 600,
            TransitionType::Spin => 500,
        }
    }

    /// Every transition type, in declaration order.
    pub open spec fn spec_all() -> Seq<TransitionType> {
        seq![
            TransitionType::Cut,
            TransitionType::Fade,
            TransitionType::Dissolve,
            TransitionType::WipeLeft,
            TransitionType::WipeRight,
            TransitionType::WipeUp,
            TransitionType::WipeDown,
            TransitionType::SlideLeft,
            TransitionType::SlideRight,
            TransitionType::ZoomIn,
            TransitionType::ZoomOut,
            TransitionType::Spin,
        ]
    }

    /// All transition types.
    pub fn all_transitions() -> (r: Vec<TransitionType>)
        ensures
            r@ == Self::spec_all(),
    {
        let r = vec![
            TransitionType::Cut,
            TransitionType::Fade,
            TransitionType::Dissolve,
            TransitionType::WipeLeft,
            TransitionType::WipeRight,
            TransitionType::WipeUp,
            TransitionType::WipeDown,
            TransitionType::SlideLeft,
            TransitionType::SlideRight,
            TransitionType::ZoomIn,
            TransitionType::ZoomOut,
            TransitionType::Spin,
        ];
        assert(r@ =~= Self::spec_all());
        r
    }

    /// The type a lowercase name stands for.
    pub open spec fn spec_from_lowercase_name(s: Seq<char>) -> Option<TransitionType> {
        if s == "cut"@ {
            Some(TransitionType::Cut)
        } else if s == "fade"@ {
            Some(TransitionType::Fade)
        } else if s == "dissolve"@ {
            Some(TransitionType::Dissolve)
        } else if s == "wipeleft"@ || s == "wipe_left"@ {
            Some(TransitionType::WipeLeft)
        } else if s == "wiperight"@ || s == "wipe_right"@ {
            Some(TransitionType::WipeRight)
        } else if s == "wipeup"@ || s == "wipe_up"@ {
            Some(TransitionType::WipeUp)
        } else if s == "wipedown"@ || s == "wipe_down"@ {
            Some(TransitionType::WipeDown)
        } else if s == "slideleft"@ || s == "slide_left"@ {
            Some(TransitionType::SlideLeft)
        } else if s == "slideright"@ || s == "slide_right"@ {
            Some(TransitionType::SlideRight)
        } else if s == "zoomin"@ || s == "zoom_in"@ {
            Some(TransitionType::ZoomIn)
        } else if s == "zoomout"@ || s == "zoom_out"@ {
            Some(TransitionType::ZoomOut)
        } else if s == "spin"@ {
            Some(TransitionType::Spin)
        } else {
            None
        }
    }

    /// Parses a type from an already lowercased name.
    pub fn from_lowercase_name(s: &str) -> (r: Option<Self>)
        ensures
            r == Self::spec_from_lowercase_name(s@),
    {
        if str_equals(s, "cut") {
            Some(TransitionType::Cut)
        } else if str_equals(s, "fade") {
            Some(TransitionType::Fade)
        } else if str_equals(s, "dissolve") {
            Some(TransitionType::Dissolve)
        } else if str_equals(s, "wipeleft") || str_equals(s, "wipe_left") {
            Some(TransitionType::WipeLeft)
        } else if str_equals(s, "wiperight") || str_equals(s, "wipe_right") {
            Some(TransitionType::WipeRight)
        } else if str_equals(s, "wipeup") || str_equals(s, "wipe_up") {
            Some(TransitionType::WipeUp)
        } else if str_equals(s, "wipedown") || str_equals(s, "wipe_down") {
            Some(TransitionType::WipeDown)
        } else if str_equals(s, "slideleft") || str_equals(s, "slide_left") {
            Some(TransitionType::SlideLeft)
        } else if str_equals(s, "slideright") || str_equals(s, "slide_right") {
            Some(TransitionType::SlideRight)
        } else if str_equals(s, "zoomin") || str_equals(s, "zoom_in") {
            Some(TransitionType::ZoomIn)
        } else if str_equals(s, "zoomout") || str_equals(s, "zoom_out") {
            Some(TransitionType::ZoomOut)
        } else if str_equals(s, "spin") {
            Some(TransitionType::Spin)
        } else {
            None
        }
    }

    /// Parses a type from a string, ignoring case.
    pub fn from_str_lossy(s: &str) -> (r: Option<Self>)
        ensures
            r == Self::spec_from_lowercase_name(unicode_lowercase(s@)),
            is_ascii_text(s@) ==> r == Self::spec_from_lowercase_name(ascii_lowercase(s@)),
    {
        let lower = to_lowercase(s);
        Self::from_lowercase_name(lower.as_str())
    }

    /// A wipe: the incoming frame covers the outgoing one from an edge.
    pub open spec fn is_wipe(self) -> bool {
        self is WipeLeft || self is WipeRight || self is WipeUp || self is WipeDown
    }

    /// A slide: both frames move sideways.
    pub open spec fn is_slide(self) -> bool {
        self is SlideLeft || self is SlideRight
    }
}

/// A transition between two clips.
#[derive(Debug, Clone)]
pub struct Transition {
    pub id: String,
    pub transition_type: TransitionType,
    pub duration_ms: u64,
    pub from_clip_id: String,
    pub to_clip_id: String,
}

/// Whether pixel `p` of a `width`-wide frame shows the incoming frame
/// during a wipe of kind `t` whose edge is at column or row `split`.
pub open spec fn wipe_shows_incoming(t: TransitionType, p: int, width: int, split: int) -> bool {
    let x = p % width;
    let y = p / width;
    match t {
        TransitionType::WipeLeft => x < split,
        TransitionType::WipeRight => x >= split,
        TransitionType::WipeUp => y < split,
        _ => y >= split,
    }
}

/// Byte `k` of a wipe of kind `t` at `split`: the byte of the incoming or
/// the outgoing frame, whichever shows at its pixel.
pub open spec fn wipe_byte(t: TransitionType, from: Seq<u8>, to: Seq<u8>, width: int, split: int, k: int) -> u8 {
    if wipe_shows_incoming(t, k / 4, width, split) {
        to[k]
    } else {
        from[k]
    }
}

/// The columns of the outgoing and the incoming frame that a slide of kind
/// `t` by `offset` shows at column `x`.
pub open spec fn slide_columns(t: TransitionType, x: int, width: int, offset: int) -> (int, int) {
    if t is SlideLeft {
        (x + offset, x - (width - offset))
    } else {
        (x - offset, x + (width - offset))
    }
}

/// Byte `k` of a slide of kind `t` by `offset`: taken from the outgoing
/// frame where its shifted column lies in the frame, else from the
/// incoming frame where that one does, else opaque black.
pub open spec fn slide_byte(t: TransitionType, from: Seq<u8>, to: Seq<u8>, width: int, offset: int, k: int) -> u8 {
    let p = k / 4;
    let c = k % 4;
    let x = p % width;
    let y = p / width;
    let (from_x, to_x) = slide_columns(t, x, width, offset);
    if 0 <= from_x < width {
        from[(y * width + from_x) * 4 + c]
    } else if 0 <= to_x < width {
        to[(y * width + to_x) * 4 + c]
    } else if c == 3 {
        255
    } else {
        0
    }
}

proof fn lemma_row_index(y: int, x: int, width: int, height: int)
    requires
        0 <= y < height,
        0 <= x < width,
    ensures
        0 <= y * width + x < width * height,
        0 <= (y * width + x) * 4 + 3 < width * height * 4,
{
    assert(y * width + x < width * height) by (nonlinear_arith)
        requires 0 <= y < height, 0 <= x < width;
    assert(0 <= y * width) by (nonlinear_arith)
        requires 0 <= y, 0 <= width;
}

proof fn lemma_pixel_split(p: int, width: int, height: int)
    requires
        0 <= p < width * height,
        width > 0,
    ensures
        0 <= p / width < height,
        0 <= p % width < width,
        p == (p / width) * width + p % width,
{
    assert(p / width < height) by (nonlinear_arith)
        requires 0 <= p < width * height, width > 0;
    assert(p == (p / width) * width + p % width) by (nonlinear_arith)
        requires width > 0;
}

/// The edge position at which a wipe of kind `t` starts (`at_end` false)
/// or ends (`at_end` true): column 0 or `width`, row 0 or `height`.
pub open spec fn wipe_edge(t: TransitionType, width: int, height: int, at_end: bool) -> int {
    match t {
        TransitionType::WipeLeft => if at_end { width } else { 0 },
        TransitionType::WipeRight => if at_end { 0 } else { width },
        TransitionType::WipeUp => if at_end { height } else { 0 },
        _ => if at_end { 0 } else { height },
    }
}

/// A wipe at its starting edge shows the outgoing frame unchanged, and at
/// its far edge the incoming frame unchanged.
pub proof fn lemma_wipe_ends(t: TransitionType, from: Seq<u8>, to: Seq<u8>, width: int, height: int)
    requires
        t.is_wipe(),
        width > 0,
        height >= 0,
    ensures
        forall|k: int| 0 <= k < width * height * 4 ==>
            #[trigger] wipe_byte(t, from, to, width, wipe_edge(t, width, height, false), k) == from[k],
        forall|k: int| 0 <= k < width * height * 4 ==>
            #[trigger] wipe_byte(t, from, to, width, wipe_edge(t, width, height, true), k) == to[k],
{
    assert forall|k: int| 0 <= k < width * height * 4 implies {
        &&& wipe_byte(t, from, to, width, wipe_edge(t, width, height, false), k) == from[k]
        &&& wipe_byte(t, from, to, width, wipe_edge(t, width, height, true), k) == to[k]
    } by {
        lemma_pixel_split(k / 4, width, height);
    }
}

/// A slide by no offset shows the outgoing frame unchanged, and a slide by
/// the full width the incoming frame unchanged.
pub proof fn lemma_slide_ends(t: TransitionType, from: Seq<u8>, to: Seq<u8>, width: int, height: int)
    requires
        t.is_slide(),
        width > 0,
        height >= 0,
    ensures
        forall|k: int| 0 <= k < width * height * 4 ==> #[trigger] slide_byte(t, from, to, width, 0, k) == from[k],
        forall|k: int| 0 <= k < width * height * 4 ==> #[trigger] slide_byte(t, from, to, width, width, k) == to[k],
{
    assert forall|k: int| 0 <= k < width * height * 4 implies {
        &&& slide_byte(t, from, to, width, 0, k) == from[k]
        &&& slide_byte(t, from, to, width, width, k) == to[k]
    } by {
        let p = k / 4;
        lemma_pixel_split(p, width, height);
        assert((p / width * width + p % width) * 4 + k % 4 == k);
    }
}

impl Transition {
    /// Creates a transition with a fresh random id; a zero duration takes
    /// the type's default duration.
    pub fn new(transition_type: TransitionType, duration_ms: u64, from_clip_id: &str, to_clip_id: &str) -> (r: Self)
        ensures
            is_uuid_v4_text(r.id@),
            r.transition_type == transition_type,
            r.duration_ms == (if duration_ms == 0 { transition_type.spec_default_duration_ms() } else { duration_ms }),
            r.from_clip_id@ == from_clip_id@,
            r.to_clip_id@ == to_clip_id@,
    {
        Transition {
            id: new_uuid_v4_text(),
            transition_type,
            duration_ms: if duration_ms == 0 { transition_type.default_duration_ms() } else { duration_ms },
            from_clip_id: String::from_str(from_clip_id),
            to_clip_id: String::from_str(to_clip_id),
        }
    }

    /// Creates a transition with the type's default duration.
    pub fn with_default_duration(transition_type: TransitionType, from_clip_id: &str, to_clip_id: &str) -> (r: Self)
        ensures
            is_uuid_v4_text(r.id@),
            r.transition_type == transition_type,
            r.duration_ms == transition_type.spec_default_duration_ms(),
            r.from_clip_id@ == from_clip_id@,
            r.to_clip_id@ == to_clip_id@,
    {
        Self::new(transition_type, 0, from_clip_id, to_clip_id)
    }

    /// Whether this transition is spatial (wipes, slides, zooms) as
    /// opposed to alpha-blended (cut, fade, dissolve, spin).
    pub fn is_spatial(&self) -> (r: bool)
        ensures
            r == (self.transition_type.is_wipe() || self.transition_type.is_slide()
                || self.transition_type is ZoomIn || self.transition_type is ZoomOut),
    {
        match self.transition_type {
            TransitionType::WipeLeft
            | TransitionType::WipeRight
            | TransitionType::WipeUp
            | TransitionType::WipeDown
            | TransitionType::SlideLeft
            | TransitionType::SlideRight
            | TransitionType::ZoomIn
            | TransitionType::ZoomOut => true,
            _ => false,
        }
    }

    /// The frame of a wipe whose edge is at column `split` (left and right
    /// wipes) or row `split` (up and down wipes): each pixel is copied
    /// whole from the incoming frame on the revealed side of the edge and
    /// from the outgoing frame elsewhere. Both frames hold
    /// `width * height` RGBA pixels.
    pub fn wipe_frames(&self, from_frame: &[u8], to_frame: &[u8], width: u32, height: u32, split: u32) -> (r: Vec<u8>)
        requires
            self.transition_type.is_wipe(),
            width * height * 4 <= usize::MAX,
            from_frame@.len() >= width * height * 4,
            to_frame@.len() >= width * height * 4,
        ensures
            r@.len() == width * height * 4,
            forall|k: int| 0 <= k < r@.len() ==> #[trigger] r@[k]
                == wipe_byte(self.transition_type, from_frame@, to_frame@, width as int, split as int, k),
    {
        let t = self.transition_type;
        let w = width as usize;
        let n = (width as usize) * (height as usize);
        let mut out: Vec<u8> = Vec::with_capacity(n * 4);
        let mut p: usize = 0;
        while p < n
            invariant
                t == self.transition_type,
                w == width,
                n == width * height,
                n * 4 <= usize::MAX,
                from_frame@.len() >= n * 4,
                to_frame@.len() >= n * 4,
                p <= n,
                out@.len() == 4 * p,
                forall|k: int| 0 <= k < out@.len() ==> #[trigger] out@[k]
                    == wipe_byte(t, from_frame@, to_frame@, width as int, split as int, k),
            decreases n - p,
        {
            proof {
                if w == 0 {
                    assert(n == 0) by (nonlinear_arith)
                        requires n == w * height, w == 0;
                }
            }
            let x = p % w;
            let y = p / w;
            let incoming = match t {
                TransitionType::WipeLeft => (x as u64) < (split as u64),
                TransitionType::WipeRight => (x as u64) >= (split as u64),
                TransitionType::WipeUp => (y as u64) < (split as u64),
                _ => (y as u64) >= (split as u64),
            };
            let src: &[u8] = if incoming { to_frame } else { from_frame };
            let base = 4 * p;
            let mut c: usize = 0;
            while c < 4
                invariant
                    t == self.transition_type,
                    w == width,
                    w > 0,
                    n * 4 <= usize::MAX,
                    from_frame@.len() >= n * 4,
                    to_frame@.len() >= n * 4,
                    p < n,
                    base == 4 * p,
                    x == (p as int) % (w as int),
                    y == (p as int) / (w as int),
                    incoming == wipe_shows_incoming(t, p as int, width as int, split as int),
                    src@ == (if incoming { to_frame@ } else { from_frame@ }),
                    c <= 4,
                    out@.len() == base + c,
                    forall|k: int| 0 <= k < out@.len() ==> #[trigger] out@[k]
                        == wipe_byte(t, from_frame@, to_frame@, width as int, split as int, k),
                decreases 4 - c,
            {
                assert((base + c) / 4 == p as int);
                out.push(src[base + c]);
                c = c + 1;
            }
            p = p + 1;
        }
        out
    }

    /// The frame of a slide by `offset` columns: the outgoing frame moves
    /// left (a left slide) or right (a right slide) by `offset`, and the
    /// incoming frame follows it in from the opposite side; a pixel that
    /// neither frame covers is opaque black. Both frames hold
    /// `width * height` RGBA pixels.
    pub fn slide_frames(&self, from_frame: &[u8], to_frame: &[u8], width: u32, height: u32, offset: i32) -> (r: Vec<u8>)
        requires
            self.transition_type.is_slide(),
            width * height * 4 <= usize::MAX,
            from_frame@.len() >= width * height * 4,
            to_frame@.len() >= width * height * 4,
        ensures
            r@.len() == width * height * 4,
            forall|k: int| 0 <= k < r@.len() ==> #[trigger] r@[k]
                == slide_byte(self.transition_type, from_frame@, to_frame@, width as int, offset as int, k),
    {
        let t = self.transition_type;
        let w = width as usize;
        let n = (width as usize) * (height as usize);
        let mut out: Vec<u8> = Vec::with_capacity(n * 4);
        let mut p: usize = 0;
        while p < n
            invariant
                t == self.transition_type,
                t.is_slide(),
                w == width,
                n == width * height,
                n * 4 <= usize::MAX,
                from_frame@.len() >= n * 4,
                to_frame@.len() >= n * 4,
                p <= n,
                out@.len() == 4 * p,
                forall|k: int| 0 <= k < out@.len() ==> #[trigger] out@[k]
                    == slide_byte(t, from_frame@, to_frame@, width as int, offset as int, k),
            decreases n - p,
        {
            proof {
                if w == 0 {
                    assert(n == 0) by (nonlinear_arith)
                        requires n == w * height, w == 0;
                }
                lemma_pixel_split(p as int, w as int, height as int);
            }
            let x = p % w;
            let y = p / w;
            let wi = w as i64;
            let xi = x as i64;
            let oi = offset as i64;
            let (from_x, to_x) = if t == TransitionType::SlideLeft {
                (xi + oi, xi - (wi - oi))
            } else {
                (xi - oi, xi + (wi - oi))
            };
            let base = 4 * p;
            let mut c: usize = 0;
            while c < 4
                invariant
                    t == self.transition_type,
                    w == width,
                    w > 0,
                    n == width * height,
                    n * 4 <= usize::MAX,
                    from_frame@.len() >= n * 4,
                    to_frame@.len() >= n * 4,
                    p < n,
                    base == 4 * p,
                    x == (p as int) % (w as int),
                    y == (p as int) / (w as int),
                    0 <= y < height,
                    wi == w as i64,
                    (from_x as int, to_x as int) == slide_columns(t, x as int, width as int, offset as int),
                    c <= 4,
                    out@.len() == base + c,
                    forall|k: int| 0 <= k < out@.len() ==> #[trigger] out@[k]
                        == slide_byte(t, from_frame@, to_frame@, width as int, offset as int, k),
                decreases 4 - c,
            {
                let k: Ghost<int> = Ghost((base + c) as int);
                assert(k@ / 4 == p as int && k@ % 4 == c as int);
                if 0 <= from_x && from_x < wi {
                    proof { lemma_row_index(y as int, from_x as int, width as int, height as int); }
                    let idx = (y * w + from_x as usize) * 4 + c;
                    out.push(from_frame[idx]);
                } else if 0 <= to_x && to_x < wi {
                    proof { lemma_row_index(y as int, to_x as int, width as int, height as int); }
                    let idx = (y * w + to_x as usize) * 4 + c;
                    out.push(to_frame[idx]);
                } else if c == 3 {
                    out.push(255);
                } else {
                    out.push(0);
                }
                c = c + 1;
            }
            p = p + 1;
        }
        out
    }
}

} // verus!
