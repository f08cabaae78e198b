//! Keyframes: interpolation kinds, easing curves, tracks of keyframes kept
//! in time order, and animations of a property.
//!
//! Times are `f64` seconds and values `f32` numbers held as their bits;
//! evaluating curves and interpolating values is floating-point work done
//! by callers.

use vstd::prelude::*;
use crate::effects::{first_where, lemma_first_where, lemma_first_where_bounds};
use crate::float_bits::{f64_at_most, f64_is_nan, f64_le, f64_less, f64_lt, f64_place};

verus! {

/// The type of interpolation between keyframes.
#[derive(Debug, Clone, Copy, PartialEq, Eq, Structural)]
pub enum InterpolationType {
    Linear,
    Bezier,
    Hold,
    SmoothStep,
    Cubic,
    Elastic,
    Bounce,
    Back,
    Expo,
    Circ,
    Constant,
}

impl Default for InterpolationType {
    /// Linear interpolation.
    fn default() -> (r: Self)
        ensures
            r == InterpolationType::Linear,
    {
        InterpolationType::Linear
    }
}

/// Properties that can be animated with keyframes.
#[derive(Debug, Clone)]
pub enum AnimatableProperty {
    PositionX,
    PositionY,
    ScaleX,
    ScaleY,
    Rotation,
    Opacity,
    Volume,
    Pan,
    EffectParam(String),
    MaskFeather,
    MaskExpansion,
    SpeedRamp,
}

/// A point of a Bezier handle, each coordinate the bits of an `f32`.
#[derive(Debug, Clone, Copy, PartialEq, Eq, Structural)]
pub struct HandlePoint {
    pub x_bits: u32,
    pub y_bits: u32,
}

/// The bits of `0.33_f32`: the x of the default first Bezier handle.
pub const BEZIER_IN_X_BITS: u32 = 0x3EA8_F5C3;

/// The bits of `0.66_f32`: the x of the default second Bezier handle.
pub const BEZIER_OUT_X_BITS: u32 = 0x3F28_F5C3;

/// The bits of `1.0_f32`.
pub const ONE_BITS: u32 = 0x3F80_0000;

/// Named easing curves, and a cubic Bezier through (0, 0) and (1, 1) with
/// two control points.
#[derive(Debug, Clone, Copy, PartialEq, Eq, Structural)]
pub enum EasingCurve {
    Linear,
    EaseInQuad,
    EaseOutQuad,
    EaseInOutQuad,
    EaseInCubic,
    EaseOutCubic,
    EaseInOutCubic,
    EaseInQuart,
    EaseOutQuart,
    EaseInOutQuart,
    EaseInQuint,
    EaseOutQuint,
    EaseInOutQuint,
    EaseInSine,
    EaseOutSine,
    EaseInOutSine,
    EaseInExpo,
    EaseOutExpo,
    EaseInOutExpo,
    EaseInCirc,
    EaseOutCirc,
    EaseInOutCirc,
    EaseInBack,
    EaseOutBack,
    EaseInOutBack,
    EaseInElastic,
    EaseOutElastic,
    EaseInOutElastic,
    EaseInBounce,
    EaseOutBounce,
    EaseInOutBounce,
    CustomBezier { p1: HandlePoint, p2: HandlePoint },
}

impl Default for EasingCurve {
    /// The linear curve.
    fn default() -> (r: Self)
        ensures
            r == EasingCurve::Linear,
    {
        EasingCurve::Linear
    }
}

/// The curve that stands for an interpolation type: the default Bezier
/// handles (0.33, 0) and (0.66, 1) for `Bezier`, the in-out variant of the
/// named curves, and the linear curve for `Hold` and `Constant` (whose
/// holding is done elsewhere). Smooth step is close to the in-out cubic.
pub open spec fn curve_for(itype: InterpolationType) -> EasingCurve {
    match itype {
        InterpolationType::Linear => EasingCurve::Linear,
        InterpolationType::Bezier => EasingCurve::CustomBezier {
            p1: HandlePoint { x_bits: BEZIER_IN_X_BITS, y_bits: 0 },
            p2: HandlePoint { x_bits: BEZIER_OUT_X_BITS, y_bits: ONE_BITS },
        },
        InterpolationType::Hold => EasingCurve::Linear,
        InterpolationType::SmoothStep => EasingCurve::EaseInOutCubic,
        InterpolationType::Cubic => EasingCurve::EaseInOutCubic,
        InterpolationType::Elastic => EasingCurve::EaseInOutElastic,
        InterpolationType::Bounce => EasingCurve::EaseInOutBounce,
        InterpolationType::Back => EasingCurve::EaseInOutBack,
        InterpolationType::Expo => EasingCurve::EaseInOutExpo,
        InterpolationType::Circ => EasingCurve::EaseInOutCirc,
        InterpolationType::Constant => EasingCurve::Linear,
    }
}

impl EasingCurve {
    /// The curve for an interpolation type.
    pub fn from_interpolation(itype: InterpolationType) -> (r: Self)
        ensures
            r == curve_for(itype),
    {
        match itype {
            InterpolationType::Linear => EasingCurve::Linear,
            InterpolationType::Bezier => EasingCurve::CustomBezier {
                p1: HandlePoint { x_bits: BEZIER_IN_X_BITS, y_bits: 0 },
                p2: HandlePoint { x_bits: BEZIER_OUT_X_BITS, y_bits: ONE_BITS },
            },
            InterpolationType::Hold => EasingCurve::Linear,
            InterpolationType::SmoothStep => EasingCurve::EaseInOutCubic,
            InterpolationType::Cubic => EasingCurve::EaseInOutCubic,
            InterpolationType::Elastic => EasingCurve::EaseInOutElastic,
            InterpolationType::Bounce => EasingCurve::EaseInOutBounce,
            InterpolationType::Back => EasingCurve::EaseInOutBack,
            InterpolationType::Expo => EasingCurve::EaseInOutExpo,
            InterpolationType::Circ => EasingCurve::EaseInOutCirc,
            InterpolationType::Constant => EasingCurve::Linear,
        }
    }
}


/// The bits of `0.33_f32`, `0.0_f32`, `0.66_f32` and `1.0_f32` make the
/// default Bezier handles of a keyframe: (0.33, 0) and (0.66, 1).
pub open spec fn default_in_handle() -> HandlePoint {
    HandlePoint { x_bits: BEZIER_IN_X_BITS, y_bits: 0 }
}

/// The default outgoing Bezier handle, (0.66, 1).
pub open spec fn default_out_handle() -> HandlePoint {
    HandlePoint { x_bits: BEZIER_OUT_X_BITS, y_bits: ONE_BITS }
}

/// A keyframe: a value at a time, and how to interpolate from it.
#[derive(Debug, Clone)]
pub struct Keyframe<T> {
    /// The bits of the `f64` time in seconds.
    pub time_bits: u64,
    pub value: T,
    pub interpolation_type: InterpolationType,
    pub bezier_in_handle: HandlePoint,
    pub bezier_out_handle: HandlePoint,
}

impl<T> Keyframe<T> {
    /// A linear keyframe with the default Bezier handles.
    pub fn new(time: u64, value: T) -> (r: Self)
        ensures
            r == (Keyframe {
                time_bits: time,
                value,
                interpolation_type: InterpolationType::Linear,
                bezier_in_handle: default_in_handle(),
                bezier_out_handle: default_out_handle(),
            }),
    {
        Keyframe {
            time_bits: time,
            value,
            interpolation_type: InterpolationType::Linear,
            bezier_in_handle: HandlePoint { x_bits: BEZIER_IN_X_BITS, y_bits: 0 },
            bezier_out_handle: HandlePoint { x_bits: BEZIER_OUT_X_BITS, y_bits: ONE_BITS },
        }
    }

    /// The keyframe with another interpolation type.
    pub fn with_interpolation(self, itype: InterpolationType) -> (r: Self)
        ensures
            r == (Keyframe { interpolation_type: itype, ..self }),
    {
        Keyframe { interpolation_type: itype, ..self }
    }

    /// The keyframe with other Bezier handles.
    pub fn with_bezier_handles(self, in_handle: HandlePoint, out_handle: HandlePoint) -> (r: Self)
        ensures
            r == (Keyframe { bezier_in_handle: in_handle, bezier_out_handle: out_handle, ..self }),
    {
        Keyframe { bezier_in_handle: in_handle, bezier_out_handle: out_handle, ..self }
    }
}

/// Whether keyframe `i` comes strictly after the time.
pub open spec fn later_than<T>(s: Seq<Keyframe<T>>, i: int, time: u64) -> bool {
    f64_lt(time, s[i].time_bits)
}

/// Where a keyframe at `time` goes: before the first keyframe strictly
/// after it, or at the end.
pub open spec fn keyframe_slot<T>(s: Seq<Keyframe<T>>, time: u64) -> int {
    first_where(s.len() as int, |i: int| later_than(s, i, time))
}

/// Keyframes listed by ascending time, none of them at a NaN time.
pub open spec fn in_time_order<T>(s: Seq<Keyframe<T>>) -> bool {
    &&& forall|i: int| 0 <= i < s.len() ==> !f64_is_nan(#[trigger] s[i].time_bits)
    &&& forall|i: int, j: int| 0 <= i <= j < s.len() ==> f64_place(s[i].time_bits) <= f64_place(s[j].time_bits)
}

/// Inserting a keyframe that is not at a NaN time at its slot keeps a
/// track in time order.
pub proof fn lemma_slot_keeps_time_order<T>(s: Seq<Keyframe<T>>, kf: Keyframe<T>)
    requires
        in_time_order(s),
        !f64_is_nan(kf.time_bits),
    ensures
        0 <= keyframe_slot(s, kf.time_bits) <= s.len(),
        in_time_order(s.insert(keyframe_slot(s, kf.time_bits), kf)),
{
    let p = |i: int| later_than(s, i, kf.time_bits);
    let k = keyframe_slot(s, kf.time_bits);
    lemma_first_where_bounds(s.len() as int, p);
    let t = s.insert(k, kf);
    assert forall|i: int| 0 <= i < t.len() implies !f64_is_nan(#[trigger] t[i].time_bits) by {
        if i < k {
            assert(t[i] == s[i]);
        } else if i > k {
            assert(t[i] == s[i - 1]);
        }
    }
    assert forall|i: int, j: int| 0 <= i <= j < t.len() implies f64_place(t[i].time_bits) <= f64_place(t[j].time_bits) by {
        if i < k && j == k {
            assert(!p(i));
        } else if i == k && j > k {
            assert(p(k));
            assert(f64_place(s[k].time_bits) <= f64_place(s[j - 1].time_bits));
        } else if i < k && j > k {
            assert(f64_place(s[i].time_bits) <= f64_place(s[j - 1].time_bits));
        } else if i > k {
            assert(f64_place(s[i - 1].time_bits) <= f64_place(s[j - 1].time_bits));
        }
    }
}

/// Where a time falls on a track: nowhere (no keyframes), on one keyframe
/// (a single keyframe, before the first or after the last), or between two
/// neighbouring keyframes.
#[derive(Debug, Clone, Copy, PartialEq, Eq, Structural)]
pub enum KeyframeSegment {
    Empty,
    At(usize),
    Between(usize, usize),
}

/// The segment a time falls in: with no keyframes, none; with one, that
/// one; at or before the first keyframe, the first; at or after the last,
/// the last; otherwise the keyframe before the first one strictly after
/// the time, and that one.
pub open spec fn segment_of<T>(s: Seq<Keyframe<T>>, time: u64) -> KeyframeSegment {
    if s.len() == 0 {
        KeyframeSegment::Empty
    } else if s.len() == 1 || f64_le(time, s[0].time_bits) {
        KeyframeSegment::At(0)
    } else if f64_le(s.last().time_bits, time) {
        KeyframeSegment::At((s.len() - 1) as usize)
    } else {
        let k = keyframe_slot(s, time);
        KeyframeSegment::Between((k - 1) as usize, k as usize)
    }
}

/// Whether a time can be looked up: a keyframe strictly after it exists
/// whenever the time is neither at or before the first keyframe nor at or
/// after the last (a NaN time, or NaN keyframe times, can leave none).
pub open spec fn segment_defined<T>(s: Seq<Keyframe<T>>, time: u64) -> bool {
    s.len() <= 1 || f64_le(time, s[0].time_bits) || f64_le(s.last().time_bits, time)
        || keyframe_slot(s, time) < s.len()
}

/// On a track in time order, every time that is not a NaN can be looked up,
/// and a time between two keyframes lies at or after the first of them and
/// strictly before the second.
pub proof fn lemma_segment_brackets_time<T>(s: Seq<Keyframe<T>>, time: u64)
    requires
        in_time_order(s),
        !f64_is_nan(time),
        s.len() <= usize::MAX,
    ensures
        segment_defined(s, time),
        segment_of(s, time) matches KeyframeSegment::Between(i, j) ==> ({
            &&& 0 <= i && j < s.len()
            &&& f64_place(s[i as int].time_bits) <= f64_place(time)
            &&& f64_place(time) < f64_place(s[j as int].time_bits)
        }),
{
    let p = |i: int| later_than(s, i, time);
    lemma_first_where_bounds(s.len() as int, p);
    if s.len() >= 2 && !f64_le(time, s[0].time_bits) && !f64_le(s.last().time_bits, time) {
        assert(!f64_is_nan(s[s.len() - 1].time_bits));
        assert(p(s.len() - 1));
        let k = keyframe_slot(s, time);
        assert(k < s.len());
        if k == 0 {
            assert(p(0));
        }
        assert(!p(k - 1));
        assert(p(k));
        assert(!f64_is_nan(s[k - 1].time_bits));
        assert(f64_place(s[k - 1].time_bits) <= f64_place(time));
        assert(f64_place(time) < f64_place(s[k].time_bits));
    }
}

/// A track of keyframes, kept in time order as they are added.
#[derive(Debug, Clone)]
pub struct KeyframeTrack<T> {
    pub keyframes: Vec<Keyframe<T>>,
}

impl<T> KeyframeTrack<T> {
    /// An empty track.
    pub fn new() -> (r: Self)
        ensures
            r.keyframes@.len() == 0,
    {
        KeyframeTrack { keyframes: Vec::new() }
    }

    /// The position before the first keyframe strictly after `time`.
    fn slot(&self, time: u64) -> (r: usize)
        ensures
            r == keyframe_slot(self.keyframes@, time),
            r <= self.keyframes@.len(),
    {
        let ghost s = self.keyframes@;
        let ghost p = |i: int| later_than(s, i, time);
        let mut i: usize = 0;
        while i < self.keyframes.len()
            invariant
                s == self.keyframes@,
                p == (|i: int| later_than(s, i, time)),
                i <= s.len(),
                forall|j: int| 0 <= j < i ==> !#[trigger] p(j),
            decreases s.len() - i,
        {
            if f64_less(time, self.keyframes[i].time_bits) {
                proof { lemma_first_where(s.len() as int, p, i as int); }
                return i;
            }
            i = i + 1;
        }
        proof { lemma_first_where(s.len() as int, p, i as int); }
        i
    }

    /// Adds a keyframe before the first keyframe strictly after its time
    /// (after those at the same time), or at the end.
    pub fn add_keyframe(&mut self, kf: Keyframe<T>)
        ensures
            final(self).keyframes@ == old(self).keyframes@.insert(keyframe_slot(old(self).keyframes@, kf.time_bits), kf),
    {
        let at = self.slot(kf.time_bits);
        self.keyframes.insert(at, kf);
    }

    /// Removes the keyframe at `index` and returns it; `None`, changing
    /// nothing, past the end.
    pub fn remove_keyframe(&mut self, index: usize) -> (r: Option<Keyframe<T>>)
        ensures
            r is Some <==> index < old(self).keyframes@.len(),
            r matches Some(k) ==> k == old(self).keyframes@[index as int]
                && final(self).keyframes@ == old(self).keyframes@.remove(index as int),
            r is None ==> final(self).keyframes@ == old(self).keyframes@,
    {
        if index < self.keyframes.len() {
            Some(self.keyframes.remove(index))
        } else {
            None
        }
    }

    /// The number of keyframes.
    pub fn len(&self) -> (r: usize)
        ensures
            r == self.keyframes@.len(),
    {
        self.keyframes.len()
    }

    /// Whether the track has no keyframes.
    pub fn is_empty(&self) -> (r: bool)
        ensures
            r == (self.keyframes@.len() == 0),
    {
        self.keyframes.len() == 0
    }

    /// The segment the time falls in, as `segment_of` describes.
    pub fn segment_at(&self, time: u64) -> (r: KeyframeSegment)
        requires
            segment_defined(self.keyframes@, time),
        ensures
            r == segment_of(self.keyframes@, time),
            r matches KeyframeSegment::At(i) ==> i < self.keyframes@.len(),
            r matches KeyframeSegment::Between(i, j) ==> j == i + 1 && j < self.keyframes@.len(),
    {
        let n = self.keyframes.len();
        if n == 0 {
            return KeyframeSegment::Empty;
        }
        if n == 1 || f64_at_most(time, self.keyframes[0].time_bits) {
            return KeyframeSegment::At(0);
        }
        if f64_at_most(self.keyframes[n - 1].time_bits, time) {
            return KeyframeSegment::At(n - 1);
        }
        let k = self.slot(time);
        proof {
            let s = self.keyframes@;
            let p = |i: int| later_than(s, i, time);
            lemma_first_where_bounds(s.len() as int, p);
            if k == 0 {
                assert(p(0));
                assert(f64_le(time, s[0].time_bits));
            }
        }
        KeyframeSegment::Between(k - 1, k)
    }

    /// The times of the first and last keyframes, if any.
    pub fn time_range(&self) -> (r: Option<(u64, u64)>)
        ensures
            r is Some <==> self.keyframes@.len() > 0,
            r matches Some(p) ==> p.0 == self.keyframes@[0].time_bits && p.1 == self.keyframes@.last().time_bits,
    {
        if self.keyframes.len() == 0 {
            return None;
        }
        Some((self.keyframes[0].time_bits, self.keyframes[self.keyframes.len() - 1].time_bits))
    }
}

/// A keyframe animation of one property: values are the bits of `f32`
/// numbers.
#[derive(Debug, Clone)]
pub struct KeyframeAnimation {
    pub property: AnimatableProperty,
    pub track: KeyframeTrack<u32>,
    pub easing: EasingCurve,
}

impl KeyframeAnimation {
    /// An animation of the property with no keyframes and linear easing.
    pub fn new(property: AnimatableProperty) -> (r: Self)
        ensures
            r.property == property,
            r.track.keyframes@.len() == 0,
            r.easing == EasingCurve::Linear,
    {
        KeyframeAnimation { property, track: KeyframeTrack::new(), easing: EasingCurve::Linear }
    }

    /// The animation with another easing curve.
    pub fn with_easing(self, easing: EasingCurve) -> (r: Self)
        ensures
            r == (KeyframeAnimation { easing, ..self }),
    {
        KeyframeAnimation { easing, ..self }
    }

    /// Adds a linear keyframe of `value` at `time`.
    pub fn add_keyframe(&mut self, time: u64, value: u32)
        ensures
            final(self).property == old(self).property,
            final(self).easing == old(self).easing,
            final(self).track.keyframes@ == old(self).track.keyframes@.insert(
                keyframe_slot(old(self).track.keyframes@, time),
                Keyframe::<u32>::new_spec(time, value, InterpolationType::Linear),
            ),
    {
        let kf = Keyframe::new(time, value).with_interpolation(InterpolationType::Linear);
        self.track.add_keyframe(kf);
    }

    /// Adds a keyframe of `value` at `time` with an interpolation type.
    pub fn add_keyframe_with_interpolation(&mut self, time: u64, value: u32, itype: InterpolationType)
        ensures
            final(self).property == old(self).property,
            final(self).easing == old(self).easing,
            final(self).track.keyframes@ == old(self).track.keyframes@.insert(
                keyframe_slot(old(self).track.keyframes@, time),
                Keyframe::<u32>::new_spec(time, value, itype),
            ),
    {
        let kf = Keyframe::new(time, value).with_interpolation(itype);
        self.track.add_keyframe(kf);
    }

    /// Whether the animation has keyframes.
    pub fn is_animated(&self) -> (r: bool)
        ensures
            r == (self.track.keyframes@.len() > 0),
    {
        !self.track.is_empty()
    }

    /// The number of keyframes.
    pub fn keyframe_count(&self) -> (r: usize)
        ensures
            r == self.track.keyframes@.len(),
    {
        self.track.len()
    }
}

impl<T> Keyframe<T> {
    /// A keyframe of `value` at `time` with an interpolation type and the
    /// default handles.
    pub open spec fn new_spec(time: u64, value: T, itype: InterpolationType) -> Keyframe<T> {
        Keyframe {
            time_bits: time,
            value,
            interpolation_type: itype,
            bezier_in_handle: default_in_handle(),
            bezier_out_handle: default_out_handle(),
        }
    }
}

} // verus!
