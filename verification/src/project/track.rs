//! Tracks: an ordered list of clips of one kind, with mix and edit
//! switches.

use vstd::prelude::*;
use crate::effects::{first_where, lemma_first_where};
use crate::float_bits::{f64_clamp, f64_clamp_bits};
use crate::project::clip::{Clip, F64_MINUS_ONE, F64_ONE, F64_TWO, F64_ZERO};
use crate::project::{is_uuid_v4_text, new_uuid_v4_text};
use crate::text::{decimal, push_decimal, str_equals};

verus! {

/// The type of a track.
#[derive(Debug, Clone, Copy, PartialEq, Eq, Structural)]
pub enum TrackType {
    Video,
    Audio,
    Subtitle,
}

impl TrackType {
    /// The name of each variant.
    pub open spec fn spec_name(self) -> Seq<char> {
        match self {
            TrackType::Video => "Video"@,
            TrackType::Audio => "Audio"@,
            TrackType::Subtitle => "Subtitle"@,
        }
    }

    /// The name of the track type, as shown to the user.
    pub fn name(&self) -> (r: String)
        ensures
            r@ == self.spec_name(),
    {
        match self {
            TrackType::Video => String::from_str("Video"),
            TrackType::Audio => String::from_str("Audio"),
            TrackType::Subtitle => String::from_str("Subtitle"),
        }
    }
}


/// A track on the timeline: clips of one kind, played one after another.
#[derive(Debug, Clone)]
pub struct Track {
    /// A random version 4 UUID, hyphenated and lowercase.
    pub id: String,
    pub name: String,
    pub track_type: TrackType,
    pub clips: Vec<Clip>,
    pub muted: bool,
    pub solo: bool,
    pub locked: bool,
    /// The bits of an `f64` in `[0, 2]`.
    pub volume_bits: u64,
    /// The bits of an `f64` in `[-1, 1]`.
    pub pan_bits: u64,
}

/// The sequence with the entry at `from` taken out and put back at `to`.
pub open spec fn moved<T>(s: Seq<T>, from: int, to: int) -> Seq<T> {
    s.remove(from).insert(to, s[from])
}

/// Moving an entry keeps the length and the entries, puts the moved
/// entry at `to`, and moving it back from `to` to `from` restores the
/// sequence.
pub proof fn lemma_move_back<T>(s: Seq<T>, from: int, to: int)
    requires
        0 <= from < s.len(),
        0 <= to < s.len(),
    ensures
        moved(s, from, to).len() == s.len(),
        moved(s, from, to)[to] == s[from],
        moved(s, from, to).to_multiset() == s.to_multiset(),
        moved(moved(s, from, to), to, from) == s,
{
    let m = moved(s, from, to);
    let r = s.remove(from);
    assert(m.remove(to) =~= r);
    assert(r.insert(from, s[from]) =~= s);
    vstd::seq_lib::to_multiset_remove(s, from);
    vstd::seq_lib::to_multiset_insert(r, to, s[from]);
    assert(s.to_multiset().remove(s[from]).insert(s[from]) =~= s.to_multiset()) by {
        broadcast use vstd::multiset::group_multiset_axioms;
        vstd::seq_lib::to_multiset_contains(s, s[from]);
        assert(s.contains(s[from]));
    }
}

/// The message of a clip index past the end.
pub open spec fn clip_index_message(index: nat, len: nat) -> Seq<char> {
    "Clip index "@ + decimal(index) + " out of bounds (len="@ + decimal(len) + ")"@
}

/// The message of a move with an index past the end.
pub open spec fn move_index_message(from: nat, to: nat, len: nat) -> Seq<char> {
    "Clip index out of bounds: from="@ + decimal(from) + ", to="@ + decimal(to) + ", len="@ + decimal(len)
}

/// Whether clip `i` has the id.
pub open spec fn has_clip_id(clips: Seq<Clip>, i: int, id: Seq<char>) -> bool {
    clips[i].id@ == id
}

/// The position of the first clip with the id (the number of clips when
/// there is none).
pub open spec fn clip_position(clips: Seq<Clip>, id: Seq<char>) -> int {
    first_where(clips.len() as int, |i: int| has_clip_id(clips, i, id))
}

/// Whether a track can be heard: it is not muted, and it is soloed or no
/// track is.
pub open spec fn audible(muted: bool, solo: bool, any_solo: bool) -> bool {
    !muted && (solo || !any_solo)
}

impl Track {
    /// An empty track: not muted, soloed or locked, at full volume,
    /// centred.
    pub fn new(name: &str, track_type: TrackType) -> (r: Self)
        ensures
            is_uuid_v4_text(r.id@),
            r.name@ == name@,
            r.track_type == track_type,
            r.clips@.len() == 0,
            !r.muted,
            !r.solo,
            !r.locked,
            r.volume_bits == F64_ONE,
            r.pan_bits == F64_ZERO,
    {
        Track {
            id: new_uuid_v4_text(),
            name: String::from_str(name),
            track_type,
            clips: Vec::new(),
            muted: false,
            solo: false,
            locked: false,
            volume_bits: F64_ONE,
            pan_bits: F64_ZERO,
        }
    }

    /// Adds a clip at the end of the track.
    pub fn add_clip(&mut self, clip: Clip)
        ensures
            *final(self) == (Track { clips: final(self).clips, ..*old(self) }),
            final(self).clips@ == old(self).clips@.push(clip),
    {
        self.clips.push(clip);
    }

    /// Removes the clip at `index` and returns it; the clips after it move
    /// up. An index past the end is an error and changes nothing.
    pub fn remove_clip(&mut self, index: usize) -> (r: Result<Clip, String>)
        ensures
            *final(self) == (Track { clips: final(self).clips, ..*old(self) }),
            r is Ok <==> index < old(self).clips@.len(),
            r matches Ok(c) ==> c == old(self).clips@[index as int]
                && final(self).clips@ == old(self).clips@.remove(index as int),
            r matches Err(m) ==> m@ == clip_index_message(index as nat, old(self).clips@.len())
                && final(self).clips@ == old(self).clips@,
    {
        if index >= self.clips.len() {
            let mut m = String::from_str("Clip index ");
            push_decimal(&mut m, index as u64);
            m.append(" out of bounds (len=");
            push_decimal(&mut m, self.clips.len() as u64);
            m.append(")");
            return Err(m);
        }
        Ok(self.clips.remove(index))
    }

    /// Moves the clip at `from_idx` to `to_idx`: it is taken out, and put
    /// back so that it ends at `to_idx`. An index past the end is an error
    /// and changes nothing.
    pub fn move_clip(&mut self, from_idx: usize, to_idx: usize) -> (r: Result<(), String>)
        ensures
            *final(self) == (Track { clips: final(self).clips, ..*old(self) }),
            r is Ok <==> (from_idx < old(self).clips@.len() && to_idx < old(self).clips@.len()),
            r is Ok ==> final(self).clips@ == moved(old(self).clips@, from_idx as int, to_idx as int),
            r matches Err(m) ==> m@ == move_index_message(from_idx as nat, to_idx as nat, old(self).clips@.len())
                && final(self).clips@ == old(self).clips@,
    {
        if from_idx >= self.clips.len() || to_idx >= self.clips.len() {
            let mut m = String::from_str("Clip index out of bounds: from=");
            push_decimal(&mut m, from_idx as u64);
            m.append(", to=");
            push_decimal(&mut m, to_idx as u64);
            m.append(", len=");
            push_decimal(&mut m, self.clips.len() as u64);
            return Err(m);
        }
        let clip = self.clips.remove(from_idx);
        self.clips.insert(to_idx, clip);
        Ok(())
    }

    /// Keeps the clips as they are: they are stored in play order.
    pub fn reorder_clips(&mut self)
        ensures
            *final(self) == *old(self),
    {
    }

    /// The index of the first clip with the id, if any.
    pub fn find_clip_index_by_id(&self, clip_id: &str) -> (r: Option<usize>)
        ensures
            r == (if clip_position(self.clips@, clip_id@) < self.clips@.len() {
                Some(clip_position(self.clips@, clip_id@) as usize)
            } else {
                None::<usize>
            }),
    {
        let ghost p = |i: int| has_clip_id(self.clips@, i, clip_id@);
        let mut i: usize = 0;
        while i < self.clips.len()
            invariant
                i <= self.clips@.len(),
                p == (|i: int| has_clip_id(self.clips@, i, clip_id@)),
                forall|j: int| 0 <= j < i ==> !#[trigger] p(j),
            decreases self.clips@.len() - i,
        {
            if str_equals(self.clips[i].id.as_str(), clip_id) {
                proof {
                    lemma_first_where(self.clips@.len() as int, p, i as int);
                }
                return Some(i);
            }
            i = i + 1;
        }
        proof {
            lemma_first_where(self.clips@.len() as int, p, i as int);
        }
        None
    }

    /// The number of clips.
    pub fn clip_count(&self) -> (r: usize)
        ensures
            r == self.clips@.len(),
    {
        self.clips.len()
    }

    /// Whether the track can be heard: not muted, and soloed unless no
    /// track is soloed.
    pub fn is_audible(&self, any_solo: bool) -> (r: bool)
        ensures
            r == audible(self.muted, self.solo, any_solo),
    {
        if self.muted {
            return false;
        }
        if any_solo && !self.solo {
            return false;
        }
        true
    }

    /// Sets the volume, clamped to `[0, 2]`.
    pub fn set_volume(&mut self, volume: u64)
        ensures
            *final(self) == (Track { volume_bits: f64_clamp(volume, F64_ZERO, F64_TWO), ..*old(self) }),
    {
        self.volume_bits = f64_clamp_bits(volume, F64_ZERO, F64_TWO);
    }

    /// Sets the pan, clamped to `[-1, 1]`.
    pub fn set_pan(&mut self, pan: u64)
        ensures
            *final(self) == (Track { pan_bits: f64_clamp(pan, F64_MINUS_ONE, F64_ONE), ..*old(self) }),
    {
        self.pan_bits = f64_clamp_bits(pan, F64_MINUS_ONE, F64_ONE);
    }

    /// Switches mute.
    pub fn toggle_mute(&mut self)
        ensures
            *final(self) == (Track { muted: !old(self).muted, ..*old(self) }),
    {
        self.muted = !self.muted;
    }

    /// Switches solo.
    pub fn toggle_solo(&mut self)
        ensures
            *final(self) == (Track { solo: !old(self).solo, ..*old(self) }),
    {
        self.solo = !self.solo;
    }

    /// Switches the lock.
    pub fn toggle_lock(&mut self)
        ensures
            *final(self) == (Track { locked: !old(self).locked, ..*old(self) }),
    {
        self.locked = !self.locked;
    }
}

} // verus!
