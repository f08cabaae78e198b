//! Multicam editing: groups of camera angles, the cut points where the
//! active angle changes, and the groups of a project.
//!
//! Times, offsets and transition lengths are `f64` milliseconds held as
//! their bits. Syncing angles by audio cross-correlation is floating-point
//! work done by callers, which set the offsets they find.

use vstd::prelude::*;
use crate::effects::{first_where, lemma_first_where};
use crate::keyed::{after_insert, after_remove, lookup, pointed, KeyedStore};
use crate::float_bits::{f64_at_most, f64_is_nan, f64_le, f64_place, place64};
use crate::project::{is_uuid_v4_text, new_uuid_v4_text};
use crate::sorting::{keyed_after, keyed_slot, lemma_sorted_by_key, sorted_by_key};
use crate::text::str_equals;

verus! {

/// The bits of `0.0_f64`.
pub const ZERO_OFFSET_BITS: u64 = 0;

/// A camera angle of a multicam group.
#[derive(Debug, Clone)]
pub struct CameraAngle {
    /// A random version 4 UUID, hyphenated and lowercase.
    pub id: String,
    pub name: String,
    pub source_path: String,
    /// The bits of the `f64` sync offset from the reference angle, in
    /// milliseconds.
    pub offset_ms_bits: u64,
    pub is_reference: bool,
    pub audio_channels: u16,
}

impl CameraAngle {
    /// A stereo angle with no offset, not the reference.
    pub fn new(name: &str, source_path: &str) -> (r: Self)
        ensures
            is_uuid_v4_text(r.id@),
            r.name@ == name@,
            r.source_path@ == source_path@,
            r.offset_ms_bits == ZERO_OFFSET_BITS,
            !r.is_reference,
            r.audio_channels == 2,
    {
        CameraAngle {
            id: new_uuid_v4_text(),
            name: String::from_str(name),
            source_path: String::from_str(source_path),
            offset_ms_bits: ZERO_OFFSET_BITS,
            is_reference: false,
            audio_channels: 2,
        }
    }
}

/// How the picture changes at a cut point; lengths are the bits of `f64`
/// milliseconds.
#[derive(Debug, Clone, Copy)]
pub enum AngleTransition {
    Cut,
    Dissolve { duration_ms_bits: u64 },
    WipeLeft { duration_ms_bits: u64 },
    WipeRight { duration_ms_bits: u64 },
    WipeDown { duration_ms_bits: u64 },
}

impl Default for AngleTransition {
    /// A hard cut.
    fn default() -> (r: Self)
        ensures
            r is Cut,
    {
        AngleTransition::Cut
    }
}

/// A point where the active angle changes.
#[derive(Debug, Clone)]
pub struct CutPoint {
    /// A random version 4 UUID, hyphenated and lowercase.
    pub id: String,
    /// The bits of the `f64` time in milliseconds.
    pub time_ms_bits: u64,
    pub from_angle_id: String,
    pub to_angle_id: String,
    pub transition: AngleTransition,
}

/// A new hard cut at a time from one angle to another.
pub open spec fn is_new_cut(c: CutPoint, time_ms: u64, from: Seq<char>, to: Seq<char>) -> bool {
    &&& is_uuid_v4_text(c.id@)
    &&& c.time_ms_bits == time_ms
    &&& c.from_angle_id@ == from
    &&& c.to_angle_id@ == to
    &&& c.transition is Cut
}

impl CutPoint {
    /// A hard cut at a time from one angle to another.
    pub fn new(time_ms: u64, from: &str, to: &str) -> (r: Self)
        ensures
            is_new_cut(r, time_ms, from@, to@),
    {
        CutPoint {
            id: new_uuid_v4_text(),
            time_ms_bits: time_ms,
            from_angle_id: String::from_str(from),
            to_angle_id: String::from_str(to),
            transition: AngleTransition::Cut,
        }
    }

    /// The cut point with another transition.
    pub fn with_transition(self, transition: AngleTransition) -> (r: Self)
        ensures
            r == (CutPoint { transition, ..self }),
    {
        CutPoint { transition, ..self }
    }
}

/// The sort key of cut points: the place of their time.
pub open spec fn cut_key() -> spec_fn(CutPoint) -> int {
    |c: CutPoint| f64_place(c.time_ms_bits)
}

/// Times that a sort can compare: no NaN among them, unless there is at
/// most one cut point (a single one is never compared).
pub open spec fn cut_times_comparable(s: Seq<CutPoint>) -> bool {
    s.len() <= 1 || forall|i: int| 0 <= i < s.len() ==> !f64_is_nan(#[trigger] s[i].time_ms_bits)
}

/// Whether cut point `n - 1 - j` is at or before the time: cut points
/// counted from the end.
pub open spec fn cut_reached_from_end(s: Seq<CutPoint>, j: int, time: u64) -> bool {
    f64_le(s[s.len() - 1 - j].time_ms_bits, time)
}

/// The last cut point at or before the time (-1 when there is none).
pub open spec fn last_cut_index(s: Seq<CutPoint>, time: u64) -> int {
    s.len() - 1 - first_where(s.len() as int, |j: int| cut_reached_from_end(s, j, time))
}

/// Whether angle `i` has the id.
pub open spec fn has_angle_id(s: Seq<CameraAngle>, i: int, id: Seq<char>) -> bool {
    s[i].id@ == id
}

/// The first angle with the id (the number of angles when there is none).
pub open spec fn angle_position(s: Seq<CameraAngle>, id: Seq<char>) -> int {
    first_where(s.len() as int, |i: int| has_angle_id(s, i, id))
}

/// Whether angle `i` is a reference angle.
pub open spec fn is_reference_at(s: Seq<CameraAngle>, i: int) -> bool {
    s[i].is_reference
}

/// Whether cut point `i` has the id.
pub open spec fn has_cut_id(s: Seq<CutPoint>, i: int, id: Seq<char>) -> bool {
    s[i].id@ == id
}

/// The first cut point with the id (the number of cut points when there is
/// none).
pub open spec fn cut_position(s: Seq<CutPoint>, id: Seq<char>) -> int {
    first_where(s.len() as int, |i: int| has_cut_id(s, i, id))
}

/// A multicam group: angles, and cut points kept in time order.
#[derive(Debug, Clone)]
pub struct MulticamGroup {
    /// A random version 4 UUID, hyphenated and lowercase.
    pub id: String,
    pub name: String,
    pub angles: Vec<CameraAngle>,
    pub cut_points: Vec<CutPoint>,
    pub active_angle_id: String,
}

impl MulticamGroup {
    /// The id of the angle active at a time: the target of the last cut at
    /// or before it, or the group's active angle before any cut.
    pub open spec fn active_id_at(self, time: u64) -> Seq<char> {
        let k = last_cut_index(self.cut_points@, time);
        if k >= 0 {
            self.cut_points@[k].to_angle_id@
        } else {
            self.active_angle_id@
        }
    }

    /// The angle active at a time (the number of angles when the active id
    /// names none).
    pub open spec fn angle_index_at(self, time: u64) -> int {
        angle_position(self.angles@, self.active_id_at(time))
    }

    /// A group with no angles and no cut points.
    pub fn new(name: &str) -> (r: Self)
        ensures
            is_uuid_v4_text(r.id@),
            r.name@ == name@,
            r.angles@.len() == 0,
            r.cut_points@.len() == 0,
            r.active_angle_id@.len() == 0,
    {
        MulticamGroup {
            id: new_uuid_v4_text(),
            name: String::from_str(name),
            angles: Vec::new(),
            cut_points: Vec::new(),
            active_angle_id: String::new(),
        }
    }

    /// Adds an angle. The first angle becomes the reference, with no
    /// offset, and the active angle.
    pub fn add_angle(&mut self, angle: CameraAngle)
        ensures
            old(self).angles@.len() == 0 ==> *final(self) == (MulticamGroup {
                angles: final(self).angles,
                active_angle_id: final(self).active_angle_id,
                ..*old(self)
            }) && final(self).active_angle_id@ == angle.id@
                && final(self).angles@ == seq![CameraAngle {
                    is_reference: true,
                    offset_ms_bits: ZERO_OFFSET_BITS,
                    ..angle
                }],
            old(self).angles@.len() > 0 ==> *final(self) == (MulticamGroup { angles: final(self).angles, ..*old(self) })
                && final(self).angles@ == old(self).angles@.push(angle),
    {
        if self.angles.len() == 0 {
            self.active_angle_id = angle.id.clone();
            let mut angle = angle;
            angle.is_reference = true;
            angle.offset_ms_bits = ZERO_OFFSET_BITS;
            self.angles.push(angle);
            assert(self.angles@ =~= seq![angle]);
        } else {
            self.angles.push(angle);
        }
    }

    /// Makes the angle with the id the reference; every other angle stops
    /// being one.
    pub fn set_reference(&mut self, angle_id: &str)
        ensures
            *final(self) == (MulticamGroup { angles: final(self).angles, ..*old(self) }),
            final(self).angles@.len() == old(self).angles@.len(),
            forall|i: int| 0 <= i < old(self).angles@.len() ==> #[trigger] final(self).angles@[i] == (CameraAngle {
                is_reference: old(self).angles@[i].id@ == angle_id@,
                ..old(self).angles@[i]
            }),
    {
        let mut i: usize = 0;
        while i < self.angles.len()
            invariant
                i <= self.angles@.len(),
                self.angles@.len() == old(self).angles@.len(),
                self.id == old(self).id,
                self.name == old(self).name,
                self.cut_points == old(self).cut_points,
                self.active_angle_id == old(self).active_angle_id,
                forall|j: int| 0 <= j < i ==> #[trigger] self.angles@[j] == (CameraAngle {
                    is_reference: old(self).angles@[j].id@ == angle_id@,
                    ..old(self).angles@[j]
                }),
                forall|j: int| i <= j < self.angles@.len() ==> #[trigger] self.angles@[j] == old(self).angles@[j],
            decreases self.angles@.len() - i,
        {
            let is_it = str_equals(self.angles[i].id.as_str(), angle_id);
            let mut a = self.angles.remove(i);
            a.is_reference = is_it;
            self.angles.insert(i, a);
            i = i + 1;
        }
    }

    /// The first reference angle, if any.
    pub fn reference_angle(&self) -> (r: Option<&CameraAngle>)
        ensures
            ({
                let k = first_where(self.angles@.len() as int, |i: int| is_reference_at(self.angles@, i));
                &&& r is Some <==> k < self.angles@.len()
                &&& r matches Some(a) ==> *a == self.angles@[k]
            }),
    {
        let ghost s = self.angles@;
        let ghost p = |i: int| is_reference_at(s, i);
        let mut i: usize = 0;
        while i < self.angles.len()
            invariant
                s == self.angles@,
                p == (|i: int| is_reference_at(s, i)),
                i <= s.len(),
                forall|j: int| 0 <= j < i ==> !#[trigger] p(j),
            decreases s.len() - i,
        {
            if self.angles[i].is_reference {
                proof { lemma_first_where(s.len() as int, p, i as int); }
                return Some(&self.angles[i]);
            }
            i = i + 1;
        }
        proof { lemma_first_where(s.len() as int, p, i as int); }
        None
    }

    /// The slot of `c` among the cut points.
    fn cut_slot(cuts: &Vec<CutPoint>, c: &CutPoint) -> (r: usize)
        ensures
            r == keyed_slot(cuts@, *c, cut_key()),
            r <= cuts@.len(),
    {
        let ghost s = cuts@;
        let ghost p = |i: int| keyed_after(s, i, *c, cut_key());
        let key = place64(c.time_ms_bits);
        let mut i: usize = 0;
        while i < cuts.len()
            invariant
                s == cuts@,
                key == f64_place(c.time_ms_bits),
                p == (|i: int| keyed_after(s, i, *c, cut_key())),
                i <= s.len(),
                forall|j: int| 0 <= j < i ==> !#[trigger] p(j),
            decreases s.len() - i,
        {
            if place64(cuts[i].time_ms_bits) > key {
                proof { lemma_first_where(s.len() as int, p, i as int); }
                return i;
            }
            i = i + 1;
        }
        proof { lemma_first_where(s.len() as int, p, i as int); }
        i
    }

    /// Adds a cut point and sorts the cut points by time; cut points at
    /// equal times keep their order.
    pub fn add_cut_point(&mut self, cut: CutPoint)
        requires
            cut_times_comparable(old(self).cut_points@.push(cut)),
        ensures
            *final(self) == (MulticamGroup { cut_points: final(self).cut_points, ..*old(self) }),
            final(self).cut_points@ == sorted_by_key(old(self).cut_points@.push(cut), cut_key()),
    {
        let mut rest: Vec<CutPoint> = Vec::new();
        std::mem::swap(&mut rest, &mut self.cut_points);
        rest.push(cut);
        let ghost input = rest@;
        let mut sorted: Vec<CutPoint> = Vec::new();
        let ghost mut taken: nat = 0;
        while rest.len() > 0
            invariant
                taken + rest@.len() == input.len(),
                rest@ == input.subrange(taken as int, input.len() as int),
                sorted@ == sorted_by_key(input.take(taken as int), cut_key()),
            decreases rest@.len(),
        {
            let c = rest.remove(0);
            proof {
                assert(input.take(taken as int + 1).drop_last() =~= input.take(taken as int));
                assert(input.take(taken as int + 1).last() == c);
                assert(rest@ =~= input.subrange(taken as int + 1, input.len() as int));
            }
            let at = Self::cut_slot(&sorted, &c);
            sorted.insert(at, c);
            proof { taken = taken + 1; }
        }
        assert(input.take(taken as int) =~= input);
        self.cut_points = sorted;
    }

    /// Removes the first cut point with the id and returns it.
    pub fn remove_cut_point(&mut self, id: &str) -> (r: Option<CutPoint>)
        ensures
            *final(self) == (MulticamGroup { cut_points: final(self).cut_points, ..*old(self) }),
            ({
                let i = cut_position(old(self).cut_points@, id@);
                &&& r is Some <==> i < old(self).cut_points@.len()
                &&& r matches Some(c) ==> c == old(self).cut_points@[i]
                    && final(self).cut_points@ == old(self).cut_points@.remove(i)
                &&& r is None ==> final(self).cut_points@ == old(self).cut_points@
            }),
    {
        let ghost s = self.cut_points@;
        let ghost p = |i: int| has_cut_id(s, i, id@);
        let mut i: usize = 0;
        while i < self.cut_points.len()
            invariant
                s == self.cut_points@,
                *self == *old(self),
                p == (|i: int| has_cut_id(s, i, id@)),
                i <= s.len(),
                forall|j: int| 0 <= j < i ==> !#[trigger] p(j),
            decreases s.len() - i,
        {
            if str_equals(self.cut_points[i].id.as_str(), id) {
                proof { lemma_first_where(s.len() as int, p, i as int); }
                return Some(self.cut_points.remove(i));
            }
            i = i + 1;
        }
        proof { lemma_first_where(s.len() as int, p, i as int); }
        None
    }

    /// The last cut point at or before a time, if any.
    fn last_cut_at(&self, time_ms: u64) -> (r: Option<usize>)
        ensures
            r is Some <==> last_cut_index(self.cut_points@, time_ms) >= 0,
            r matches Some(k) ==> k == last_cut_index(self.cut_points@, time_ms) && k < self.cut_points@.len(),
    {
        let ghost cs = self.cut_points@;
        let ghost q = |j: int| cut_reached_from_end(cs, j, time_ms);
        let n = self.cut_points.len();
        let mut j: usize = 0;
        while j < n
            invariant
                cs == self.cut_points@,
                n == cs.len(),
                q == (|j: int| cut_reached_from_end(cs, j, time_ms)),
                j <= n,
                forall|k: int| 0 <= k < j ==> !#[trigger] q(k),
            decreases n - j,
        {
            if f64_at_most(self.cut_points[n - 1 - j].time_ms_bits, time_ms) {
                proof { lemma_first_where(n as int, q, j as int); }
                return Some(n - 1 - j);
            }
            j = j + 1;
        }
        proof { lemma_first_where(n as int, q, j as int); }
        None
    }

    /// The index of the angle active at a time, if the active id names
    /// one.
    fn angle_index_at_time(&self, time_ms: u64) -> (r: Option<usize>)
        ensures
            r is Some <==> self.angle_index_at(time_ms) < self.angles@.len(),
            r matches Some(i) ==> i == self.angle_index_at(time_ms),
    {
        let found = self.last_cut_at(time_ms);
        let active: &str = match found {
            Some(k) => self.cut_points[k].to_angle_id.as_str(),
            None => self.active_angle_id.as_str(),
        };
        let ghost id = self.active_id_at(time_ms);
        assert(active@ == id);
        let ghost s = self.angles@;
        let ghost p = |i: int| has_angle_id(s, i, id);
        let mut i: usize = 0;
        while i < self.angles.len()
            invariant
                s == self.angles@,
                active@ == id,
                id == self.active_id_at(time_ms),
                p == (|i: int| has_angle_id(s, i, id)),
                i <= s.len(),
                forall|k: int| 0 <= k < i ==> !#[trigger] p(k),
            decreases s.len() - i,
        {
            if str_equals(self.angles[i].id.as_str(), active) {
                proof { lemma_first_where(s.len() as int, p, i as int); }
                return Some(i);
            }
            i = i + 1;
        }
        proof { lemma_first_where(s.len() as int, p, i as int); }
        None
    }

    /// The angle active at a time: the target of the last cut at or before
    /// it, or the group's active angle before any cut.
    pub fn angle_at_time(&self, time_ms: u64) -> (r: Option<&CameraAngle>)
        ensures
            r is Some <==> self.angle_index_at(time_ms) < self.angles@.len(),
            r matches Some(a) ==> *a == self.angles@[self.angle_index_at(time_ms)],
    {
        match self.angle_index_at_time(time_ms) {
            Some(i) => Some(&self.angles[i]),
            None => None,
        }
    }

    /// Switches to another angle at a time: adds a hard cut from the angle
    /// active then, if there is one.
    pub fn switch_angle(&mut self, time_ms: u64, to_angle_id: &str)
        requires
            old(self).angle_index_at(time_ms) < old(self).angles@.len() ==> (old(self).cut_points@.len() == 0 || (
                !f64_is_nan(time_ms) && forall|i: int| 0 <= i < old(self).cut_points@.len()
                    ==> !f64_is_nan(#[trigger] old(self).cut_points@[i].time_ms_bits))),
        ensures
            *final(self) == (MulticamGroup { cut_points: final(self).cut_points, ..*old(self) }),
            old(self).angle_index_at(time_ms) == old(self).angles@.len() ==> final(self).cut_points == old(self).cut_points,
            old(self).angle_index_at(time_ms) < old(self).angles@.len() ==> exists|c: CutPoint| #[trigger] is_new_cut(
                c,
                time_ms,
                old(self).angles@[old(self).angle_index_at(time_ms)].id@,
                to_angle_id@,
            ) && final(self).cut_points@ == sorted_by_key(old(self).cut_points@.push(c), cut_key()),
    {
        match self.angle_index_at_time(time_ms) {
            Some(i) => {
                let cut = CutPoint::new(time_ms, self.angles[i].id.as_str(), to_angle_id);
                let ghost c = cut;
                proof {
                    let s = old(self).cut_points@.push(cut);
                    if old(self).cut_points@.len() > 0 {
                        assert forall|k: int| 0 <= k < s.len() implies !f64_is_nan(#[trigger] s[k].time_ms_bits) by {
                            if k < old(self).cut_points@.len() {
                                assert(s[k] == old(self).cut_points@[k]);
                            }
                        }
                    }
                    assert(cut_times_comparable(s));
                }
                self.add_cut_point(cut);
                assert(is_new_cut(c, time_ms, old(self).angles@[old(self).angle_index_at(time_ms)].id@, to_angle_id@));
            },
            None => {},
        }
    }

    /// The number of angles.
    pub fn angle_count(&self) -> (r: usize)
        ensures
            r == self.angles@.len(),
    {
        self.angles.len()
    }

    /// The number of cut points.
    pub fn cut_count(&self) -> (r: usize)
        ensures
            r == self.cut_points@.len(),
    {
        self.cut_points.len()
    }
}

/// Cut points added through a group stay in time order.
pub proof fn lemma_cut_points_sorted(s: Seq<CutPoint>, c: CutPoint)
    ensures
        crate::sorting::in_key_order(sorted_by_key(s.push(c), cut_key()), cut_key()),
        sorted_by_key(s.push(c), cut_key()).to_multiset() == s.push(c).to_multiset(),
{
    lemma_sorted_by_key(s.push(c), cut_key());
}


/// The multicam groups of a project, stored by their ids.
#[derive(Debug, Clone)]
pub struct MulticamManager {
    pub groups: KeyedStore<MulticamGroup>,
}

impl MulticamManager {
    /// A manager with no groups.
    pub fn new() -> (r: Self)
        ensures
            r.groups@.keys.len() == 0,
            r.groups@.values.len() == 0,
    {
        MulticamManager { groups: KeyedStore::new() }
    }

    /// Stores a group under its id, replacing a group stored under it.
    pub fn add(&mut self, group: MulticamGroup)
        ensures
            final(self).groups@ == after_insert(old(self).groups@, group.id@, group),
    {
        let key = group.id.clone();
        let _ = self.groups.insert(key.as_str(), group);
    }

    /// The group stored under the id, if any.
    pub fn get(&self, id: &str) -> (r: Option<&MulticamGroup>)
        ensures
            r is Some <==> lookup(self.groups@, id@) is Some,
            r matches Some(g) ==> lookup(self.groups@, id@) == Some(*g),
    {
        self.groups.get(id)
    }

    /// The group stored under the id, to be changed in place, if any.
    pub fn get_mut(&mut self, id: &str) -> (r: Option<&mut MulticamGroup>)
        ensures
            ({
                let i = crate::keyed::key_index(old(self).groups@.keys, id@);
                &&& r is Some <==> i < old(self).groups@.keys.len()
                &&& r is None ==> final(self).groups@ == old(self).groups@
                &&& r matches Some(g) ==> *g == old(self).groups@.values[i]
                    && final(self).groups@.keys == old(self).groups@.keys
                    && final(self).groups@.values == old(self).groups@.values.update(i, *final(g))
            }),
    {
        self.groups.get_mut(id)
    }

    /// Removes the group stored under the id and returns it, if any.
    pub fn remove(&mut self, id: &str) -> (r: Option<MulticamGroup>)
        ensures
            final(self).groups@ == after_remove(old(self).groups@, id@),
            r == lookup(old(self).groups@, id@),
    {
        self.groups.remove(id)
    }

    /// The groups, in the order they were first stored.
    pub fn list(&self) -> (r: Vec<&MulticamGroup>)
        ensures
            pointed(r@) == self.groups@.values,
    {
        self.groups.values()
    }
}

} // verus!
