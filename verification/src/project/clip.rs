//! Clips: segments of source media on a track, with a transform, the names
//! of their effects and filters, and mix settings.
//!
//! Times, speeds, levels and transform values are `f64` values held as
//! their bits. What computes on them (durations, mapping timeline time to
//! source time, splitting) is floating-point work done by callers; the
//! clamps and the name lists are here.

use vstd::prelude::*;
use crate::float_bits::{f64_at_least, f64_clamp, f64_clamp_bits, f64_max_bits};
use crate::project::{is_uuid_v4_text, new_uuid_v4_text};
use crate::text::str_equals;

verus! {

/// The bits of `0.0_f64`.
pub const F64_ZERO: u64 = 0;

/// The bits of `0.5_f64`.
pub const F64_HALF: u64 = 0x3FE0_0000_0000_0000;

/// The bits of `1.0_f64`.
pub const F64_ONE: u64 = 0x3FF0_0000_0000_0000;

/// The bits of `2.0_f64`.
pub const F64_TWO: u64 = 0x4000_0000_0000_0000;

/// The bits of `-1.0_f64`.
pub const F64_MINUS_ONE: u64 = 0xBFF0_0000_0000_0000;

/// The bits of `10.0_f64`: the default trim end, in seconds.
pub const F64_TEN: u64 = 0x4024_0000_0000_0000;

/// The bits of `0.01_f64`: the least playback speed.
pub const MIN_SPEED_BITS: u64 = 0x3F84_7AE1_47AE_147B;

/// Transform properties of a clip on the timeline, each the bits of an
/// `f64`.
#[derive(Debug, Clone, Copy, PartialEq, Eq, Structural)]
pub struct ClipTransform {
    pub x_bits: u64,
    pub y_bits: u64,
    pub scale_x_bits: u64,
    pub scale_y_bits: u64,
    /// Degrees.
    pub rotation_bits: u64,
    pub opacity_bits: u64,
    pub anchor_x_bits: u64,
    pub anchor_y_bits: u64,
}

/// The identity transform: at the origin, unscaled, unrotated, opaque,
/// anchored at the centre.
pub open spec fn identity_transform() -> ClipTransform {
    ClipTransform {
        x_bits: F64_ZERO,
        y_bits: F64_ZERO,
        scale_x_bits: F64_ONE,
        scale_y_bits: F64_ONE,
        rotation_bits: F64_ZERO,
        opacity_bits: F64_ONE,
        anchor_x_bits: F64_HALF,
        anchor_y_bits: F64_HALF,
    }
}

impl Default for ClipTransform {
    /// The identity transform.
    fn default() -> (r: Self)
        ensures
            r == identity_transform(),
    {
        ClipTransform {
            x_bits: F64_ZERO,
            y_bits: F64_ZERO,
            scale_x_bits: F64_ONE,
            scale_y_bits: F64_ONE,
            rotation_bits: F64_ZERO,
            opacity_bits: F64_ONE,
            anchor_x_bits: F64_HALF,
            anchor_y_bits: F64_HALF,
        }
    }
}

impl ClipTransform {
    /// The identity transform.
    pub fn new() -> (r: Self)
        ensures
            r == identity_transform(),
    {
        Self::default()
    }

    /// The transform moved to `(x, y)`.
    pub fn with_position(self, x: u64, y: u64) -> (r: Self)
        ensures
            r == (ClipTransform { x_bits: x, y_bits: y, ..self }),
    {
        ClipTransform { x_bits: x, y_bits: y, ..self }
    }

    /// The transform with the scale factors `(sx, sy)`.
    pub fn with_scale(self, sx: u64, sy: u64) -> (r: Self)
        ensures
            r == (ClipTransform { scale_x_bits: sx, scale_y_bits: sy, ..self }),
    {
        ClipTransform { scale_x_bits: sx, scale_y_bits: sy, ..self }
    }

    /// The transform rotated to `degrees`.
    pub fn with_rotation(self, degrees: u64) -> (r: Self)
        ensures
            r == (ClipTransform { rotation_bits: degrees, ..self }),
    {
        ClipTransform { rotation_bits: degrees, ..self }
    }

    /// The transform with the opacity clamped to `[0, 1]`.
    pub fn with_opacity(self, opacity: u64) -> (r: Self)
        ensures
            r == (ClipTransform { opacity_bits: f64_clamp(opacity, F64_ZERO, F64_ONE), ..self }),
    {
        ClipTransform { opacity_bits: f64_clamp_bits(opacity, F64_ZERO, F64_ONE), ..self }
    }
}

/// A list of texts as the contracts see it.
pub open spec fn texts(v: Seq<String>) -> Seq<Seq<char>> {
    v.map_values(|s: String| s@)
}

/// The list with `name` added at the end, unless it is already there.
pub open spec fn with_name(s: Seq<Seq<char>>, name: Seq<char>) -> Seq<Seq<char>> {
    if s.contains(name) {
        s
    } else {
        s.push(name)
    }
}

/// The list without any entry equal to `name`, the others in order.
pub open spec fn without(s: Seq<Seq<char>>, name: Seq<char>) -> Seq<Seq<char>>
    decreases s.len(),
{
    if s.len() == 0 {
        s
    } else if s.last() == name {
        without(s.drop_last(), name)
    } else {
        without(s.drop_last(), name).push(s.last())
    }
}

/// No entry occurs twice.
pub open spec fn no_repeats(s: Seq<Seq<char>>) -> bool {
    forall|i: int, j: int| 0 <= i < j < s.len() ==> s[i] != s[j]
}

/// Whether the list pushed with `last` contains `x`: when the list does or
/// `x` is `last`.
proof fn lemma_push_contains(s: Seq<Seq<char>>, last: Seq<char>, x: Seq<char>)
    ensures
        s.push(last).contains(x) <==> (s.contains(x) || last == x),
{
    if s.contains(x) {
        let k = choose|k: int| 0 <= k < s.len() && s[k] == x;
        assert(s.push(last)[k] == x);
    }
    if last == x {
        assert(s.push(last)[s.len() as int] == x);
    }
    if s.push(last).contains(x) {
        let k = choose|k: int| 0 <= k < s.push(last).len() && s.push(last)[k] == x;
        if k < s.len() {
            assert(s[k] == x);
        }
    }
}

/// What `without` keeps: every entry but `name`, and nothing else.
pub proof fn lemma_without_members(s: Seq<Seq<char>>, name: Seq<char>)
    ensures
        !without(s, name).contains(name),
        forall|x: Seq<char>| x != name ==> (#[trigger] without(s, name).contains(x) <==> s.contains(x)),
        without(s, name).len() <= s.len(),
    decreases s.len(),
{
    if s.len() > 0 {
        let d = s.drop_last();
        let l = s.last();
        let w = without(d, name);
        lemma_without_members(d, name);
        assert(d.push(l) =~= s);
        lemma_push_contains(w, l, name);
        assert forall|x: Seq<char>| x != name implies (#[trigger] without(s, name).contains(x) <==> s.contains(x)) by {
            lemma_push_contains(d, l, x);
            lemma_push_contains(w, l, x);
            assert(w.contains(x) <==> d.contains(x));
        }
    }
}

/// A list without `name` is left as it is.
pub proof fn lemma_without_absent(s: Seq<Seq<char>>, name: Seq<char>)
    requires
        !s.contains(name),
    ensures
        without(s, name) == s,
    decreases s.len(),
{
    if s.len() > 0 {
        let d = s.drop_last();
        assert(!d.contains(name)) by {
            if d.contains(name) {
                let k = choose|k: int| 0 <= k < d.len() && d[k] == name;
                assert(s[k] == name);
            }
        }
        lemma_without_absent(d, name);
        assert(s.last() != name) by {
            assert(s[s.len() - 1] == s.last());
        }
        assert(d.push(s.last()) =~= s);
    }
}

/// Removing a name undoes adding it: adding `name` and then removing it
/// gives the list with `name` removed, which is the list itself when
/// `name` was not in it.
pub proof fn lemma_remove_undoes_add(s: Seq<Seq<char>>, name: Seq<char>)
    ensures
        without(with_name(s, name), name) == without(s, name),
        !s.contains(name) ==> without(with_name(s, name), name) == s,
{
    if !s.contains(name) {
        assert(s.push(name).drop_last() =~= s);
        lemma_without_absent(s, name);
    }
}

/// Adding a name twice adds it once, and adding keeps a list free of
/// repeats.
pub proof fn lemma_add_name_idempotent(s: Seq<Seq<char>>, name: Seq<char>)
    ensures
        with_name(with_name(s, name), name) == with_name(s, name),
        with_name(s, name).contains(name),
        no_repeats(s) ==> no_repeats(with_name(s, name)),
{
    if !s.contains(name) {
        assert(s.push(name)[s.len() as int] == name);
    }
}

/// Whether the list holds a text equal to `name`.
fn holds_name(list: &Vec<String>, name: &str) -> (r: bool)
    ensures
        r == texts(list@).contains(name@),
{
    let mut i: usize = 0;
    while i < list.len()
        invariant
            i <= list@.len(),
            forall|j: int| 0 <= j < i ==> list@[j]@ != name@,
        decreases list@.len() - i,
    {
        if str_equals(list[i].as_str(), name) {
            assert(texts(list@)[i as int] == name@);
            return true;
        }
        i = i + 1;
    }
    proof {
        if texts(list@).contains(name@) {
            let k = choose|k: int| 0 <= k < texts(list@).len() && texts(list@)[k] == name@;
            assert(list@[k]@ == name@);
        }
    }
    false
}

/// Adds `name` at the end of the list unless it is already there.
fn add_name(list: &mut Vec<String>, name: &str)
    ensures
        texts(final(list)@) == with_name(texts(old(list)@), name@),
{
    if !holds_name(list, name) {
        list.push(String::from_str(name));
        assert(texts(list@) =~= texts(old(list)@).push(name@));
    }
}

/// Removes every entry equal to `name`, keeping the others in order.
fn remove_name(list: &mut Vec<String>, name: &str)
    ensures
        texts(final(list)@) == without(texts(old(list)@), name@),
{
    let mut kept: Vec<String> = Vec::new();
    let mut i: usize = 0;
    while i < list.len()
        invariant
            i <= list@.len(),
            texts(kept@) == without(texts(list@).take(i as int), name@),
        decreases list@.len() - i,
    {
        assert(texts(list@).take(i as int + 1).drop_last() =~= texts(list@).take(i as int));
        if !str_equals(list[i].as_str(), name) {
            kept.push(list[i].clone());
            assert(texts(kept@) =~= without(texts(list@).take(i as int), name@).push(list@[i as int]@));
        }
        i = i + 1;
    }
    assert(texts(list@).take(i as int) =~= texts(list@));
    *list = kept;
}

/// A clip on the timeline: a segment of source media.
#[derive(Debug, Clone)]
pub struct Clip {
    /// A random version 4 UUID, hyphenated and lowercase.
    pub id: String,
    pub source_path: String,
    /// Start of the used segment in the source, in seconds.
    pub trim_in_bits: u64,
    /// End of the used segment in the source, in seconds.
    pub trim_out_bits: u64,
    pub speed_bits: u64,
    pub transform: ClipTransform,
    pub effects: Vec<String>,
    pub filters: Vec<String>,
    pub volume_bits: u64,
    pub pan_bits: u64,
    pub muted: bool,
    pub locked: bool,
}

/// A new clip of the source from `trim_in` to `trim_out`: normal speed,
/// identity transform, no effects or filters, full volume, centred,
/// neither muted nor locked.
pub open spec fn is_fresh_clip(c: Clip, source_path: Seq<char>, trim_in: u64, trim_out: u64) -> bool {
    &&& is_uuid_v4_text(c.id@)
    &&& c.source_path@ == source_path
    &&& c.trim_in_bits == trim_in
    &&& c.trim_out_bits == trim_out
    &&& c.speed_bits == F64_ONE
    &&& c.transform == identity_transform()
    &&& c.effects@.len() == 0
    &&& c.filters@.len() == 0
    &&& c.volume_bits == F64_ONE
    &&& c.pan_bits == F64_ZERO
    &&& !c.muted
    &&& !c.locked
}

impl Default for Clip {
    /// An empty source path trimmed from 0 to 10 seconds.
    fn default() -> (r: Self)
        ensures
            is_fresh_clip(r, Seq::empty(), F64_ZERO, F64_TEN),
    {
        proof {
            reveal_strlit("");
        }
        let r = Clip::with_trim("", F64_ZERO, F64_TEN);
        assert(r.source_path@ =~= Seq::<char>::empty());
        r
    }
}

impl Clip {
    /// A clip of the source with the default trim, 0 to 10 seconds.
    pub fn new(source_path: &str) -> (r: Self)
        ensures
            is_fresh_clip(r, source_path@, F64_ZERO, F64_TEN),
    {
        Clip::with_trim(source_path, F64_ZERO, F64_TEN)
    }

    /// A clip of the source trimmed to `[trim_in, trim_out]`.
    pub fn with_trim(source_path: &str, trim_in: u64, trim_out: u64) -> (r: Self)
        ensures
            is_fresh_clip(r, source_path@, trim_in, trim_out),
    {
        Clip {
            id: new_uuid_v4_text(),
            source_path: String::from_str(source_path),
            trim_in_bits: trim_in,
            trim_out_bits: trim_out,
            speed_bits: F64_ONE,
            transform: ClipTransform::default(),
            effects: Vec::new(),
            filters: Vec::new(),
            volume_bits: F64_ONE,
            pan_bits: F64_ZERO,
            muted: false,
            locked: false,
        }
    }

    /// Sets the playback speed, at least 0.01 (a NaN gives 0.01).
    pub fn set_speed(&mut self, speed: u64)
        ensures
            *final(self) == (Clip { speed_bits: f64_at_least(speed, MIN_SPEED_BITS), ..*old(self) }),
    {
        self.speed_bits = f64_max_bits(speed, MIN_SPEED_BITS);
    }

    /// Sets the volume, clamped to `[0, 2]`.
    pub fn set_volume(&mut self, volume: u64)
        ensures
            *final(self) == (Clip { volume_bits: f64_clamp(volume, F64_ZERO, F64_TWO), ..*old(self) }),
    {
        self.volume_bits = f64_clamp_bits(volume, F64_ZERO, F64_TWO);
    }

    /// Sets the pan, clamped to `[-1, 1]` (left to right).
    pub fn set_pan(&mut self, pan: u64)
        ensures
            *final(self) == (Clip { pan_bits: f64_clamp(pan, F64_MINUS_ONE, F64_ONE), ..*old(self) }),
    {
        self.pan_bits = f64_clamp_bits(pan, F64_MINUS_ONE, F64_ONE);
    }

    /// Adds an effect by name, unless the clip has it already.
    pub fn add_effect(&mut self, effect_name: &str)
        ensures
            *final(self) == (Clip { effects: final(self).effects, ..*old(self) }),
            texts(final(self).effects@) == with_name(texts(old(self).effects@), effect_name@),
    {
        add_name(&mut self.effects, effect_name);
    }

    /// Removes every effect with the name.
    pub fn remove_effect(&mut self, effect_name: &str)
        ensures
            *final(self) == (Clip { effects: final(self).effects, ..*old(self) }),
            texts(final(self).effects@) == without(texts(old(self).effects@), effect_name@),
    {
        remove_name(&mut self.effects, effect_name);
    }

    /// Adds a filter by name, unless the clip has it already.
    pub fn add_filter(&mut self, filter_name: &str)
        ensures
            *final(self) == (Clip { filters: final(self).filters, ..*old(self) }),
            texts(final(self).filters@) == with_name(texts(old(self).filters@), filter_name@),
    {
        add_name(&mut self.filters, filter_name);
    }

    /// Removes every filter with the name.
    pub fn remove_filter(&mut self, filter_name: &str)
        ensures
            *final(self) == (Clip { filters: final(self).filters, ..*old(self) }),
            texts(final(self).filters@) == without(texts(old(self).filters@), filter_name@),
    {
        remove_name(&mut self.filters, filter_name);
    }
}

} // verus!
