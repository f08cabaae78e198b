//! The timeline: tracks, markers and regions.

use vstd::prelude::*;
use crate::project::track::{moved, Track};
use crate::text::{decimal, push_decimal};

verus! {

/// Marker type for timeline markers.
#[derive(Debug, Clone, Copy, PartialEq, Eq, Structural)]
pub enum MarkerType {
    Standard,
    Chapter,
    Compression,
    /// User-defined marker type.
    Custom(u8),
}

impl Default for MarkerType {
    /// A standard marker.
    fn default() -> (r: Self)
        ensures
            r == MarkerType::Standard,
    {
        MarkerType::Standard
    }
}

/// A marker on the timeline.
#[derive(Debug, Clone)]
pub struct Marker {
    /// The bits of an `f64`: the position in seconds.
    pub position_bits: u64,
    pub name: String,
    pub color: String,
    pub marker_type: MarkerType,
}

impl Marker {
    /// A red standard marker at the position.
    pub fn new(position_bits: u64, name: &str) -> (r: Self)
        ensures
            r.position_bits == position_bits,
            r.name@ == name@,
            r.color@ == "#FF0000"@,
            r.marker_type == MarkerType::Standard,
    {
        Marker {
            position_bits,
            name: String::from_str(name),
            color: String::from_str("#FF0000"),
            marker_type: MarkerType::Standard,
        }
    }

    /// The marker with another color.
    pub fn with_color(self, color: &str) -> (r: Self)
        ensures
            r == (Marker { color: r.color, ..self }),
            r.color@ == color@,
    {
        Marker { color: String::from_str(color), ..self }
    }

    /// The marker with another type.
    pub fn with_type(self, marker_type: MarkerType) -> (r: Self)
        ensures
            r == (Marker { marker_type, ..self }),
    {
        Marker { marker_type, ..self }
    }
}

/// A time range selected on the timeline.
#[derive(Debug, Clone)]
pub struct Region {
    /// The bits of an `f64`: the start in seconds.
    pub start_bits: u64,
    /// The bits of an `f64`: the end in seconds.
    pub end_bits: u64,
    pub name: String,
    pub color: String,
}

impl Region {
    /// A blue region from `start` to `end`.
    pub fn new(start_bits: u64, end_bits: u64, name: &str) -> (r: Self)
        ensures
            r.start_bits == start_bits,
            r.end_bits == end_bits,
            r.name@ == name@,
            r.color@ == "#0000FF"@,
    {
        Region {
            start_bits,
            end_bits,
            name: String::from_str(name),
            color: String::from_str("#0000FF"),
        }
    }
}

/// The tracks, markers and regions of an edit. Its duration, the total
/// duration of the longest track, is a function of the tracks.
#[derive(Debug, Clone)]
pub struct Timeline {
    pub tracks: Vec<Track>,
    pub markers: Vec<Marker>,
    pub regions: Vec<Region>,
    /// Frames per second of the timeline's time base.
    pub timebase: u32,
}

/// The message of a track index past the end.
pub open spec fn track_index_message(index: nat, len: nat) -> Seq<char> {
    "Track index "@ + decimal(index) + " out of bounds (len="@ + decimal(len) + ")"@
}

/// The message of a track move with an index past the end.
pub open spec fn track_move_message(from: nat, to: nat, len: nat) -> Seq<char> {
    "Track index out of bounds: from="@ + decimal(from) + ", to="@ + decimal(to) + ", len="@ + decimal(len)
}

/// The message of a track index past the end, without the length.
pub open spec fn missing_track_message(index: nat) -> Seq<char> {
    "Track index "@ + decimal(index) + " out of bounds"@
}

/// The message of a clip index past the end of a track.
pub open spec fn track_clip_message(clip: nat, track: nat, len: nat) -> Seq<char> {
    "Clip index "@ + decimal(clip) + " out of bounds on track "@ + decimal(track) + " (len="@
        + decimal(len) + ")"@
}

/// Removing the entry just added at the end (a track, a marker or a
/// region) gives it back and leaves the list as it was.
pub proof fn lemma_add_then_remove<T>(s: Seq<T>, x: T)
    ensures
        s.push(x)[s.len() as int] == x,
        s.push(x).remove(s.len() as int) == s,
{
    assert(s.push(x).remove(s.len() as int) =~= s);
}


impl Default for Timeline {
    /// An empty timeline at 30 frames per second.
    fn default() -> (r: Self)
        ensures
            r.tracks@.len() == 0,
            r.markers@.len() == 0,
            r.regions@.len() == 0,
            r.timebase == 30,
    {
        Timeline::new()
    }
}

impl Timeline {
    /// An empty timeline at 30 frames per second.
    pub fn new() -> (r: Self)
        ensures
            r.tracks@.len() == 0,
            r.markers@.len() == 0,
            r.regions@.len() == 0,
            r.timebase == 30,
    {
        Timeline { tracks: Vec::new(), markers: Vec::new(), regions: Vec::new(), timebase: 30 }
    }

    /// Adds a track below the others.
    pub fn add_track(&mut self, track: Track)
        ensures
            final(self).tracks@ == old(self).tracks@.push(track),
            *final(self) == (Timeline { tracks: final(self).tracks, ..*old(self) }),
    {
        self.tracks.push(track);
    }

    /// Removes the track at `index` and returns it; the tracks below it
    /// move up. An index past the end is an error and changes nothing.
    pub fn remove_track(&mut self, index: usize) -> (r: Result<Track, String>)
        ensures
            *final(self) == (Timeline { tracks: final(self).tracks, ..*old(self) }),
            r is Ok <==> index < old(self).tracks@.len(),
            r matches Ok(t) ==> t == old(self).tracks@[index as int]
                && final(self).tracks@ == old(self).tracks@.remove(index as int),
            r matches Err(m) ==> m@ == track_index_message(index as nat, old(self).tracks@.len())
                && final(self).tracks@ == old(self).tracks@,
    {
        if index >= self.tracks.len() {
            let mut m = String::from_str("Track index ");
            push_decimal(&mut m, index as u64);
            m.append(" out of bounds (len=");
            push_decimal(&mut m, self.tracks.len() as u64);
            m.append(")");
            return Err(m);
        }
        Ok(self.tracks.remove(index))
    }

    /// Moves the track at `from_idx` so that it ends at `to_idx`. An index
    /// past the end is an error and changes nothing.
    pub fn reorder_tracks(&mut self, from_idx: usize, to_idx: usize) -> (r: Result<(), String>)
        ensures
            *final(self) == (Timeline { tracks: final(self).tracks, ..*old(self) }),
            r is Ok <==> (from_idx < old(self).tracks@.len() && to_idx < old(self).tracks@.len()),
            r is Ok ==> final(self).tracks@ == moved(old(self).tracks@, from_idx as int, to_idx as int),
            r matches Err(m) ==> m@ == track_move_message(from_idx as nat, to_idx as nat, old(self).tracks@.len())
                && final(self).tracks@ == old(self).tracks@,
    {
        if from_idx >= self.tracks.len() || to_idx >= self.tracks.len() {
            let mut m = String::from_str("Track index out of bounds: from=");
            push_decimal(&mut m, from_idx as u64);
            m.append(", to=");
            push_decimal(&mut m, to_idx as u64);
            m.append(", len=");
            push_decimal(&mut m, self.tracks.len() as u64);
            return Err(m);
        }
        let track = self.tracks.remove(from_idx);
        self.tracks.insert(to_idx, track);
        Ok(())
    }

    /// Removes the clip at `clip_idx` from the track at `track_idx`; the
    /// clips after it close the gap. An index past the end is an error and
    /// changes nothing.
    pub fn ripple_delete(&mut self, track_idx: usize, clip_idx: usize) -> (r: Result<(), String>)
        ensures
            *final(self) == (Timeline { tracks: final(self).tracks, ..*old(self) }),
            r is Ok <==> track_idx < old(self).tracks@.len()
                && clip_idx < old(self).tracks@[track_idx as int].clips@.len(),
            r is Ok ==> ({
                let t = old(self).tracks@[track_idx as int];
                &&& final(self).tracks@.len() == old(self).tracks@.len()
                &&& forall|i: int| 0 <= i < old(self).tracks@.len() && i != track_idx
                    ==> #[trigger] final(self).tracks@[i] == old(self).tracks@[i]
                &&& final(self).tracks@[track_idx as int] == (Track {
                    clips: final(self).tracks@[track_idx as int].clips, ..t })
                &&& final(self).tracks@[track_idx as int].clips@ == t.clips@.remove(clip_idx as int)
            }),
            r matches Err(m) ==> final(self).tracks@ == old(self).tracks@ && (
                if track_idx >= old(self).tracks@.len() {
                    m@ == missing_track_message(track_idx as nat)
                } else {
                    m@ == track_clip_message(clip_idx as nat, track_idx as nat,
                        old(self).tracks@[track_idx as int].clips@.len())
                }),
    {
        if track_idx >= self.tracks.len() {
            let mut m = String::from_str("Track index ");
            push_decimal(&mut m, track_idx as u64);
            m.append(" out of bounds");
            return Err(m);
        }
        let len = self.tracks[track_idx].clips.len();
        if clip_idx >= len {
            let mut m = String::from_str("Clip index ");
            push_decimal(&mut m, clip_idx as u64);
            m.append(" out of bounds on track ");
            push_decimal(&mut m, track_idx as u64);
            m.append(" (len=");
            push_decimal(&mut m, len as u64);
            m.append(")");
            return Err(m);
        }
        let mut track = self.tracks.remove(track_idx);
        track.clips.remove(clip_idx);
        self.tracks.insert(track_idx, track);
        Ok(())
    }

    /// Adds a marker after the others.
    pub fn add_marker(&mut self, marker: Marker)
        ensures
            final(self).markers@ == old(self).markers@.push(marker),
            *final(self) == (Timeline { markers: final(self).markers, ..*old(self) }),
    {
        self.markers.push(marker);
    }

    /// Removes the marker at `index` and returns it. An index past the end
    /// is an error and changes nothing.
    pub fn remove_marker(&mut self, index: usize) -> (r: Result<Marker, String>)
        ensures
            *final(self) == (Timeline { markers: final(self).markers, ..*old(self) }),
            r is Ok <==> index < old(self).markers@.len(),
            r matches Ok(m) ==> m == old(self).markers@[index as int]
                && final(self).markers@ == old(self).markers@.remove(index as int),
            r matches Err(e) ==> e@ == "Marker index out of bounds"@
                && final(self).markers@ == old(self).markers@,
    {
        if index >= self.markers.len() {
            return Err(String::from_str("Marker index out of bounds"));
        }
        Ok(self.markers.remove(index))
    }

    /// Adds a region after the others.
    pub fn add_region(&mut self, region: Region)
        ensures
            final(self).regions@ == old(self).regions@.push(region),
            *final(self) == (Timeline { regions: final(self).regions, ..*old(self) }),
    {
        self.regions.push(region);
    }

    /// Removes the region at `index` and returns it. An index past the end
    /// is an error and changes nothing.
    pub fn remove_region(&mut self, index: usize) -> (r: Result<Region, String>)
        ensures
            *final(self) == (Timeline { regions: final(self).regions, ..*old(self) }),
            r is Ok <==> index < old(self).regions@.len(),
            r matches Ok(g) ==> g == old(self).regions@[index as int]
                && final(self).regions@ == old(self).regions@.remove(index as int),
            r matches Err(e) ==> e@ == "Region index out of bounds"@
                && final(self).regions@ == old(self).regions@,
    {
        if index >= self.regions.len() {
            return Err(String::from_str("Region index out of bounds"));
        }
        Ok(self.regions.remove(index))
    }

    /// The number of tracks.
    pub fn track_count(&self) -> (r: usize)
        ensures
            r == self.tracks@.len(),
    {
        self.tracks.len()
    }
}

} // verus!
