//! Nested sequences: compound clips with a sub-timeline of their own, kept
//! in offset order, flattened into a render list.
//!
//! Times, speeds and the frame rate are `f64` values and volumes `f32`
//! values, held as their bits; durations, lookups by time and splitting are
//! floating-point work done by callers.

use std::collections::HashMap;
use vstd::prelude::*;
use crate::effects::{first_where, lemma_first_where};
use crate::float_bits::{f64_is_nan, f64_place, place64};
use crate::keyed::{after_insert, after_remove, lookup, pointed, KeyedStore};
use crate::project::{is_uuid_v4_text, new_uuid_v4_text};
use crate::sorting::{keyed_after, keyed_slot, sorted_by_key};
use crate::text::str_equals;

verus! {

/// A clip inside a nested sequence.
#[derive(Debug, Clone)]
pub struct SubClip {
    pub id: String,
    pub source_path: String,
    /// The bits of `f64` milliseconds.
    pub trim_in_ms_bits: u64,
    /// The bits of `f64` milliseconds.
    pub trim_out_ms_bits: u64,
    /// The bits of the `f64` position in the sub-timeline, in
    /// milliseconds.
    pub offset_ms_bits: u64,
    /// The bits of an `f64` speed.
    pub speed_bits: u64,
    /// The bits of an `f32` volume.
    pub volume_bits: u32,
    pub muted: bool,
    /// Effect ids.
    pub effects: Vec<String>,
}

/// A clip of the flattened render list.
#[derive(Debug, Clone)]
pub struct FlatClip {
    pub source_path: String,
    pub trim_in_ms_bits: u64,
    pub trim_out_ms_bits: u64,
    pub timeline_offset_ms_bits: u64,
    pub speed_bits: u64,
    pub volume_bits: u32,
    pub muted: bool,
    pub effects: Vec<String>,
}

/// The render-list entry of a sub-clip: the same source, trims, offset,
/// speed, volume, mute and effects.
pub open spec fn flattened(c: SubClip, f: FlatClip) -> bool {
    &&& f.source_path@ == c.source_path@
    &&& f.trim_in_ms_bits == c.trim_in_ms_bits
    &&& f.trim_out_ms_bits == c.trim_out_ms_bits
    &&& f.timeline_offset_ms_bits == c.offset_ms_bits
    &&& f.speed_bits == c.speed_bits
    &&& f.volume_bits == c.volume_bits
    &&& f.muted == c.muted
    &&& f.effects@.len() == c.effects@.len()
    &&& forall|i: int| 0 <= i < c.effects@.len() ==> #[trigger] f.effects@[i]@ == c.effects@[i]@
}

/// A compound clip with its own sub-timeline.
#[derive(Debug, Clone)]
pub struct NestedSequence {
    /// A random version 4 UUID, hyphenated and lowercase.
    pub id: String,
    pub name: String,
    pub sub_clips: Vec<SubClip>,
    pub width: u32,
    pub height: u32,
    /// The bits of an `f64` frame rate.
    pub fps_bits: u64,
    pub metadata: HashMap<String, String>,
}

/// The sort key of sub-clips: the place of their offset.
pub open spec fn offset_key() -> spec_fn(SubClip) -> int {
    |c: SubClip| f64_place(c.offset_ms_bits)
}

/// Offsets that a sort can compare: no NaN among them, unless there is at
/// most one clip.
pub open spec fn offsets_comparable(s: Seq<SubClip>) -> bool {
    s.len() <= 1 || forall|i: int| 0 <= i < s.len() ==> !f64_is_nan(#[trigger] s[i].offset_ms_bits)
}

/// Whether sub-clip `i` has the id.
pub open spec fn has_sub_clip_id(s: Seq<SubClip>, i: int, id: Seq<char>) -> bool {
    s[i].id@ == id
}

/// The first sub-clip with the id (the number of clips when there is
/// none).
pub open spec fn sub_clip_position(s: Seq<SubClip>, id: Seq<char>) -> int {
    first_where(s.len() as int, |i: int| has_sub_clip_id(s, i, id))
}

/// A copy of a list of texts.
fn copy_texts(v: &Vec<String>) -> (r: Vec<String>)
    ensures
        r@.len() == v@.len(),
        forall|i: int| 0 <= i < v@.len() ==> #[trigger] r@[i]@ == v@[i]@,
{
    let mut out: Vec<String> = Vec::new();
    let mut i: usize = 0;
    while i < v.len()
        invariant
            i <= v@.len(),
            out@.len() == i,
            forall|j: int| 0 <= j < i ==> #[trigger] out@[j]@ == v@[j]@,
        decreases v@.len() - i,
    {
        out.push(v[i].clone());
        i = i + 1;
    }
    out
}

impl NestedSequence {
    /// An empty sequence of the given frame size and rate.
    pub fn new(name: &str, width: u32, height: u32, fps: u64) -> (r: Self)
        ensures
            is_uuid_v4_text(r.id@),
            r.name@ == name@,
            r.sub_clips@.len() == 0,
            r.width == width,
            r.height == height,
            r.fps_bits == fps,
            r.metadata@.len() == 0,
    {
        NestedSequence {
            id: new_uuid_v4_text(),
            name: String::from_str(name),
            sub_clips: Vec::new(),
            width,
            height,
            fps_bits: fps,
            metadata: HashMap::new(),
        }
    }

    /// The slot of `c` among `clips`.
    fn slot(clips: &Vec<SubClip>, c: &SubClip) -> (r: usize)
        ensures
            r == keyed_slot(clips@, *c, offset_key()),
            r <= clips@.len(),
    {
        let ghost s = clips@;
        let ghost q = |i: int| keyed_after(s, i, *c, offset_key());
        let key = place64(c.offset_ms_bits);
        let mut i: usize = 0;
        while i < clips.len()
            invariant
                s == clips@,
                key == f64_place(c.offset_ms_bits),
                q == (|i: int| keyed_after(s, i, *c, offset_key())),
                i <= s.len(),
                forall|j: int| 0 <= j < i ==> !#[trigger] q(j),
            decreases s.len() - i,
        {
            if place64(clips[i].offset_ms_bits) > key {
                proof { lemma_first_where(s.len() as int, q, i as int); }
                return i;
            }
            i = i + 1;
        }
        proof { lemma_first_where(s.len() as int, q, i as int); }
        i
    }

    /// Adds a sub-clip and sorts the clips by offset; clips at equal
    /// offsets keep their order.
    pub fn add_clip(&mut self, clip: SubClip)
        requires
            offsets_comparable(old(self).sub_clips@.push(clip)),
        ensures
            *final(self) == (NestedSequence { sub_clips: final(self).sub_clips, ..*old(self) }),
            final(self).sub_clips@ == sorted_by_key(old(self).sub_clips@.push(clip), offset_key()),
    {
        let mut rest: Vec<SubClip> = Vec::new();
        std::mem::swap(&mut rest, &mut self.sub_clips);
        rest.push(clip);
        let ghost input = rest@;
        let mut sorted: Vec<SubClip> = Vec::new();
        let ghost mut taken: nat = 0;
        while rest.len() > 0
            invariant
                taken + rest@.len() == input.len(),
                rest@ == input.subrange(taken as int, input.len() as int),
                sorted@ == sorted_by_key(input.take(taken as int), offset_key()),
            decreases rest@.len(),
        {
            let c = rest.remove(0);
            proof {
                assert(input.take(taken as int + 1).drop_last() =~= input.take(taken as int));
                assert(input.take(taken as int + 1).last() == c);
                assert(rest@ =~= input.subrange(taken as int + 1, input.len() as int));
            }
            let at = Self::slot(&sorted, &c);
            sorted.insert(at, c);
            proof { taken = taken + 1; }
        }
        assert(input.take(taken as int) =~= input);
        self.sub_clips = sorted;
    }

    /// Removes the first sub-clip with the id and returns it.
    pub fn remove_clip(&mut self, id: &str) -> (r: Option<SubClip>)
        ensures
            *final(self) == (NestedSequence { sub_clips: final(self).sub_clips, ..*old(self) }),
            ({
                let i = sub_clip_position(old(self).sub_clips@, id@);
                &&& r is Some <==> i < old(self).sub_clips@.len()
                &&& r matches Some(c) ==> c == old(self).sub_clips@[i]
                    && final(self).sub_clips@ == old(self).sub_clips@.remove(i)
                &&& r is None ==> final(self).sub_clips@ == old(self).sub_clips@
            }),
    {
        let ghost s = self.sub_clips@;
        let ghost p = |i: int| has_sub_clip_id(s, i, id@);
        let mut i: usize = 0;
        while i < self.sub_clips.len()
            invariant
                s == self.sub_clips@,
                *self == *old(self),
                p == (|i: int| has_sub_clip_id(s, i, id@)),
                i <= s.len(),
                forall|j: int| 0 <= j < i ==> !#[trigger] p(j),
            decreases s.len() - i,
        {
            if str_equals(self.sub_clips[i].id.as_str(), id) {
                proof { lemma_first_where(s.len() as int, p, i as int); }
                return Some(self.sub_clips.remove(i));
            }
            i = i + 1;
        }
        proof { lemma_first_where(s.len() as int, p, i as int); }
        None
    }

    /// The render list: one flat clip per sub-clip, in order.
    pub fn flatten(&self) -> (r: Vec<FlatClip>)
        ensures
            r@.len() == self.sub_clips@.len(),
            forall|i: int| 0 <= i < r@.len() ==> #[trigger] flattened(self.sub_clips@[i], r@[i]),
    {
        let mut out: Vec<FlatClip> = Vec::new();
        let mut i: usize = 0;
        while i < self.sub_clips.len()
            invariant
                i <= self.sub_clips@.len(),
                out@.len() == i,
                forall|j: int| 0 <= j < i ==> #[trigger] flattened(self.sub_clips@[j], out@[j]),
            decreases self.sub_clips@.len() - i,
        {
            let c = &self.sub_clips[i];
            out.push(FlatClip {
                source_path: c.source_path.clone(),
                trim_in_ms_bits: c.trim_in_ms_bits,
                trim_out_ms_bits: c.trim_out_ms_bits,
                timeline_offset_ms_bits: c.offset_ms_bits,
                speed_bits: c.speed_bits,
                volume_bits: c.volume_bits,
                muted: c.muted,
                effects: copy_texts(&c.effects),
            });
            i = i + 1;
        }
        out
    }
}

/// The nested sequences of a project, stored by their ids.
#[derive(Debug, Clone)]
pub struct NestedSequenceManager {
    pub sequences: KeyedStore<NestedSequence>,
}

impl NestedSequenceManager {
    /// A manager with no sequences.
    pub fn new() -> (r: Self)
        ensures
            r.sequences@.keys.len() == 0,
            r.sequences@.values.len() == 0,
    {
        NestedSequenceManager { sequences: KeyedStore::new() }
    }

    /// Stores a sequence under its id, replacing one stored under it.
    pub fn add(&mut self, seq: NestedSequence)
        ensures
            final(self).sequences@ == after_insert(old(self).sequences@, seq.id@, seq),
    {
        let key = seq.id.clone();
        let _ = self.sequences.insert(key.as_str(), seq);
    }

    /// The sequence stored under the id, if any.
    pub fn get(&self, id: &str) -> (r: Option<&NestedSequence>)
        ensures
            r is Some <==> lookup(self.sequences@, id@) is Some,
            r matches Some(s) ==> lookup(self.sequences@, id@) == Some(*s),
    {
        self.sequences.get(id)
    }

    /// The sequence stored under the id, to be changed in place, if any.
    pub fn get_mut(&mut self, id: &str) -> (r: Option<&mut NestedSequence>)
        ensures
            ({
                let i = crate::keyed::key_index(old(self).sequences@.keys, id@);
                &&& r is Some <==> i < old(self).sequences@.keys.len()
                &&& r is None ==> final(self).sequences@ == old(self).sequences@
                &&& r matches Some(s) ==> *s == old(self).sequences@.values[i]
                    && final(self).sequences@.keys == old(self).sequences@.keys
                    && final(self).sequences@.values == old(self).sequences@.values.update(i, *final(s))
            }),
    {
        self.sequences.get_mut(id)
    }

    /// Removes the sequence stored under the id and returns it, if any.
    pub fn remove(&mut self, id: &str) -> (r: Option<NestedSequence>)
        ensures
            final(self).sequences@ == after_remove(old(self).sequences@, id@),
            r == lookup(old(self).sequences@, id@),
    {
        self.sequences.remove(id)
    }

    /// The sequences, in the order they were first stored.
    pub fn list(&self) -> (r: Vec<&NestedSequence>)
        ensures
            pointed(r@) == self.sequences@.values,
    {
        self.sequences.values()
    }

    /// The render list of every sequence, stored under the sequence's id.
    pub fn flatten_all(&self) -> (r: KeyedStore<Vec<FlatClip>>)
        ensures
            r@.keys == self.sequences@.keys,
            r@.values.len() == self.sequences@.values.len(),
            forall|i: int| 0 <= i < r@.values.len() ==> (#[trigger] r@.values[i])@.len()
                == self.sequences@.values[i].sub_clips@.len(),
            forall|i: int, j: int| 0 <= i < r@.values.len() && 0 <= j < r@.values[i]@.len()
                ==> flattened(self.sequences@.values[i].sub_clips@[j], #[trigger] r@.values[i]@[j]),
    {
        let all = self.sequences.values();
        let mut lists: Vec<Vec<FlatClip>> = Vec::new();
        let mut i: usize = 0;
        while i < all.len()
            invariant
                pointed(all@) == self.sequences@.values,
                i <= all@.len(),
                lists@.len() == i,
                forall|k: int| 0 <= k < i ==> (#[trigger] lists@[k])@.len() == self.sequences@.values[k].sub_clips@.len(),
                forall|k: int, j: int| 0 <= k < i && 0 <= j < lists@[k]@.len()
                    ==> flattened(self.sequences@.values[k].sub_clips@[j], #[trigger] lists@[k]@[j]),
            decreases all@.len() - i,
        {
            assert(pointed(all@)[i as int] == *all@[i as int]);
            let flat = all[i].flatten();
            lists.push(flat);
            i = i + 1;
        }
        self.sequences.with_values(lists)
    }
}

} // verus!
