//! Timeline markers: colour-coded markers kept in time order, navigation
//! between them, and the chapter listing.
//!
//! Positions and durations are `f64` milliseconds held as their bits.

use std::collections::HashMap;
use vstd::prelude::*;
use crate::effects::{first_where, lemma_first_where};
use crate::float_bits::{f64_is_nan, f64_lt, f64_less, f64_place, place64};
use crate::sorting::{in_key_order, keyed_after, keyed_slot, lemma_sorted_by_key, lemma_sorted_push, sorted_by_key};
use crate::project::{is_uuid_v4_text, new_uuid_v4_text};
use crate::text::{decimal, pad_zeros, push_decimal, push_zero_padded, str_equals};

verus! {

/// Marker color.
#[derive(Debug, Clone, Copy, PartialEq, Eq, Hash, Structural)]
pub enum MarkerColor {
    Red,
    Orange,
    Yellow,
    Green,
    Blue,
    Purple,
    Pink,
    Gray,
}

impl MarkerColor {
    /// Every variant, in catalog order.
    pub open spec fn catalog() -> Seq<MarkerColor> {
        seq![MarkerColor::Red, MarkerColor::Orange, MarkerColor::Yellow, MarkerColor::Green, MarkerColor::Blue, MarkerColor::Purple, MarkerColor::Pink, MarkerColor::Gray]
    }

    /// Lists all marker colours.
    pub fn all() -> (r: &'static [MarkerColor])
        ensures
            r@ == Self::catalog(),
    {
        let r: &'static [MarkerColor] = &[MarkerColor::Red, MarkerColor::Orange, MarkerColor::Yellow, MarkerColor::Green, MarkerColor::Blue, MarkerColor::Purple, MarkerColor::Pink, MarkerColor::Gray];
        assert(r@ =~= Self::catalog());
        r
    }

    /// The hex colour code of each variant.
    pub open spec fn spec_hex(self) -> Seq<char> {
        match self {
            MarkerColor::Red => "#FF4444"@,
            MarkerColor::Orange => "#FF8800"@,
            MarkerColor::Yellow => "#FFCC00"@,
            MarkerColor::Green => "#44CC44"@,
            MarkerColor::Blue => "#4488FF"@,
            MarkerColor::Purple => "#8844FF"@,
            MarkerColor::Pink => "#FF44AA"@,
            MarkerColor::Gray => "#888888"@,
        }
    }

    /// The colour as a `#RRGGBB` code.
    pub fn hex(&self) -> (r: &'static str)
        ensures
            r@ == self.spec_hex(),
    {
        match self {
            MarkerColor::Red => "#FF4444",
            MarkerColor::Orange => "#FF8800",
            MarkerColor::Yellow => "#FFCC00",
            MarkerColor::Green => "#44CC44",
            MarkerColor::Blue => "#4488FF",
            MarkerColor::Purple => "#8844FF",
            MarkerColor::Pink => "#FF44AA",
            MarkerColor::Gray => "#888888",
        }
    }

}

/// Marker type.
#[derive(Debug, Clone, Copy, PartialEq, Eq, Structural)]
pub enum MarkerType {
    Standard,
    Chapter,
    Comment,
    Todo,
    Error,
    MusicBeat,
    Custom,
}


/// The bits of `0.0_f64`.
pub const ZERO_MS_BITS: u64 = 0;

/// A timeline marker.
#[derive(Debug, Clone)]
pub struct Marker {
    /// A random version 4 UUID, hyphenated and lowercase.
    pub id: String,
    pub name: String,
    /// The bits of an `f64` position in milliseconds.
    pub position_ms_bits: u64,
    /// The bits of an `f64` length in milliseconds.
    pub duration_ms_bits: u64,
    pub color: MarkerColor,
    pub marker_type: MarkerType,
    pub comment: String,
    pub metadata: HashMap<String, String>,
}

impl Marker {
    /// A standard marker of no length at a position, with no comment.
    pub fn new(name: &str, position_ms: u64, color: MarkerColor) -> (r: Self)
        ensures
            is_uuid_v4_text(r.id@),
            r.name@ == name@,
            r.position_ms_bits == position_ms,
            r.duration_ms_bits == ZERO_MS_BITS,
            r.color == color,
            r.marker_type == MarkerType::Standard,
            r.comment@.len() == 0,
            r.metadata@.len() == 0,
    {
        Marker {
            id: new_uuid_v4_text(),
            name: String::from_str(name),
            position_ms_bits: position_ms,
            duration_ms_bits: ZERO_MS_BITS,
            color,
            marker_type: MarkerType::Standard,
            comment: String::new(),
            metadata: HashMap::new(),
        }
    }

    /// An orange chapter marker at a position.
    pub fn chapter(name: &str, position_ms: u64) -> (r: Self)
        ensures
            is_uuid_v4_text(r.id@),
            r.name@ == name@,
            r.position_ms_bits == position_ms,
            r.duration_ms_bits == ZERO_MS_BITS,
            r.color == MarkerColor::Orange,
            r.marker_type == MarkerType::Chapter,
            r.comment@.len() == 0,
            r.metadata@.len() == 0,
    {
        let m = Marker::new(name, position_ms, MarkerColor::Orange);
        Marker { marker_type: MarkerType::Chapter, ..m }
    }
}

/// The place of a marker's position on the number line.
pub open spec fn position_of(m: Marker) -> int {
    f64_place(m.position_ms_bits)
}

/// The sort key of markers: the place of their position.
pub open spec fn marker_key() -> spec_fn(Marker) -> int {
    |m: Marker| position_of(m)
}

/// Markers listed by ascending position.
pub open spec fn in_position_order(s: Seq<Marker>) -> bool {
    in_key_order(s, marker_key())
}

/// Where a marker goes: after every marker at or before its position,
/// before the first one after it.
pub open spec fn position_slot(s: Seq<Marker>, m: Marker) -> int {
    keyed_slot(s, m, marker_key())
}

/// The markers sorted by position, stably: markers at equal positions
/// keep their order.
pub open spec fn by_position(s: Seq<Marker>) -> Seq<Marker> {
    sorted_by_key(s, marker_key())
}

/// Positions that a sort can compare: no NaN among them, unless there is
/// at most one marker (a single marker is never compared).
pub open spec fn positions_comparable(s: Seq<Marker>) -> bool {
    s.len() <= 1 || forall|i: int| 0 <= i < s.len() ==> !f64_is_nan(#[trigger] s[i].position_ms_bits)
}

/// Adding a marker keeps the markers in position order and loses none;
/// when they were in order already, the new marker goes in at its slot
/// and the others stay as they were.
pub proof fn lemma_add_keeps_order(s: Seq<Marker>, m: Marker)
    ensures
        in_position_order(by_position(s.push(m))),
        by_position(s.push(m)).to_multiset() == s.push(m).to_multiset(),
        in_position_order(s) ==> by_position(s.push(m)) == s.insert(position_slot(s, m), m),
{
    lemma_sorted_by_key(s.push(m), marker_key());
    if in_position_order(s) {
        lemma_sorted_push(s, m, marker_key());
    }
}

/// Whether marker `i` lies strictly after the time.
pub open spec fn after_time(s: Seq<Marker>, i: int, time: u64) -> bool {
    f64_lt(time, s[i].position_ms_bits)
}

/// Whether marker `n - 1 - j` lies strictly before the time: markers
/// counted from the end.
pub open spec fn before_time_from_end(s: Seq<Marker>, j: int, time: u64) -> bool {
    f64_lt(s[s.len() - 1 - j].position_ms_bits, time)
}

/// The first marker strictly after the time (the number of markers when
/// there is none).
pub open spec fn next_index(s: Seq<Marker>, time: u64) -> int {
    first_where(s.len() as int, |i: int| after_time(s, i, time))
}

/// The last marker strictly before the time (-1 when there is none).
pub open spec fn prev_index(s: Seq<Marker>, time: u64) -> int {
    s.len() - 1 - first_where(s.len() as int, |j: int| before_time_from_end(s, j, time))
}

/// Whether marker `i` has the id.
pub open spec fn has_marker_id(s: Seq<Marker>, i: int, id: Seq<char>) -> bool {
    s[i].id@ == id
}

/// The position of the first marker with the id (the number of markers
/// when there is none).
pub open spec fn marker_position(s: Seq<Marker>, id: Seq<char>) -> int {
    first_where(s.len() as int, |i: int| has_marker_id(s, i, id))
}

/// The markers that references point at.
pub open spec fn marker_refs(ms: Seq<&Marker>) -> Seq<Marker> {
    Seq::new(ms.len(), |i: int| *ms[i])
}

/// The markers of a colour, in order.
pub open spec fn of_color(s: Seq<Marker>, color: MarkerColor) -> Seq<Marker> {
    s.filter(|m: Marker| m.color == color)
}

/// The markers of a type, in order.
pub open spec fn of_marker_type(s: Seq<Marker>, t: MarkerType) -> Seq<Marker> {
    s.filter(|m: Marker| m.marker_type == t)
}

/// Two digits, zero-padded.
pub open spec fn two_digits(n: nat) -> Seq<char> {
    pad_zeros(decimal(n), 2)
}

/// A chapter line: `M:SS name`, or `H:MM:SS name` from an hour on.
pub open spec fn chapter_line(total_secs: nat, name: Seq<char>) -> Seq<char> {
    let mins = total_secs / 60;
    let secs = total_secs % 60;
    let hours = mins / 60;
    if hours > 0 {
        decimal(hours) + ":"@ + two_digits(mins % 60) + ":"@ + two_digits(secs) + " "@ + name
    } else {
        decimal(mins) + ":"@ + two_digits(secs) + " "@ + name
    }
}

/// The chapter lines of the entries (whole seconds and name), one per
/// line, with no line feed after the last.
pub open spec fn chapter_listing(entries: Seq<(u64, String)>) -> Seq<char>
    decreases entries.len(),
{
    if entries.len() == 0 {
        Seq::empty()
    } else if entries.len() == 1 {
        chapter_line(entries[0].0 as nat, entries[0].1@)
    } else {
        chapter_listing(entries.drop_last()) + "\n"@ + chapter_line(entries.last().0 as nat, entries.last().1@)
    }
}

/// Appends a chapter line.
fn push_chapter_line(out: &mut String, total_secs: u64, name: &str)
    ensures
        final(out)@ == old(out)@ + chapter_line(total_secs as nat, name@),
{
    let mins = total_secs / 60;
    let secs = total_secs % 60;
    let hours = mins / 60;
    if hours > 0 {
        push_decimal(out, hours);
        out.append(":");
        push_zero_padded(out, mins % 60, 2);
        out.append(":");
        push_zero_padded(out, secs, 2);
    } else {
        push_decimal(out, mins);
        out.append(":");
        push_zero_padded(out, secs, 2);
    }
    out.append(" ");
    out.append(name);
    assert(out@ =~= old(out)@ + chapter_line(total_secs as nat, name@));
}

/// The YouTube chapter listing of entries given as whole seconds and
/// name: `0:00 Intro`, one per line.
pub fn youtube_chapter_listing(entries: &Vec<(u64, String)>) -> (r: String)
    ensures
        r@ == chapter_listing(entries@),
{
    let mut out = String::new();
    let mut i: usize = 0;
    while i < entries.len()
        invariant
            i <= entries@.len(),
            out@ == chapter_listing(entries@.take(i as int)),
        decreases entries@.len() - i,
    {
        assert(entries@.take(i as int + 1).drop_last() =~= entries@.take(i as int));
        if i > 0 {
            out.append("\n");
        }
        push_chapter_line(&mut out, entries[i].0, entries[i].1.as_str());
        assert(out@ =~= chapter_listing(entries@.take(i as int + 1)));
        i = i + 1;
    }
    assert(entries@.take(i as int) =~= entries@);
    out
}

/// The markers of a timeline, kept in position order.
#[derive(Debug, Clone)]
pub struct MarkerManager {
    pub markers: Vec<Marker>,
}

/// The slot of `m` in `list`.
fn slot_in(list: &Vec<Marker>, m: &Marker) -> (r: usize)
    ensures
        r == position_slot(list@, *m),
        r <= list@.len(),
{
    let ghost s = list@;
    let ghost p = |i: int| keyed_after(s, i, *m, marker_key());
    let key = place64(m.position_ms_bits);
    let mut i: usize = 0;
    while i < list.len()
        invariant
            s == list@,
            key == position_of(*m),
            p == (|i: int| keyed_after(s, i, *m, marker_key())),
            i <= s.len(),
            forall|j: int| 0 <= j < i ==> !#[trigger] p(j),
        decreases s.len() - i,
    {
        if place64(list[i].position_ms_bits) > key {
            proof { lemma_first_where(s.len() as int, p, i as int); }
            return i;
        }
        i = i + 1;
    }
    proof { lemma_first_where(s.len() as int, p, i as int); }
    i
}

/// The markers sorted by position, stably.
fn sorted_by_position(markers: Vec<Marker>) -> (r: Vec<Marker>)
    ensures
        r@ == by_position(markers@),
{
    let ghost input = markers@;
    let mut rest = markers;
    let mut sorted: Vec<Marker> = Vec::new();
    let ghost mut taken: nat = 0;
    while rest.len() > 0
        invariant
            taken + rest@.len() == input.len(),
            rest@ == input.subrange(taken as int, input.len() as int),
            sorted@ == by_position(input.take(taken as int)),
        decreases rest@.len(),
    {
        let m = rest.remove(0);
        proof {
            assert(input.take(taken as int + 1).drop_last() =~= input.take(taken as int));
            assert(input.take(taken as int + 1).last() == m);
            assert(rest@ =~= input.subrange(taken as int + 1, input.len() as int));
        }
        let at = slot_in(&sorted, &m);
                sorted.insert(at, m);
        proof { taken = taken + 1; }
    }
    assert(input.take(taken as int) =~= input);
    sorted
}

impl MarkerManager {
    /// A manager with no markers.
    pub fn new() -> (r: Self)
        ensures
            r.markers@.len() == 0,
    {
        MarkerManager { markers: Vec::new() }
    }

    /// Adds a marker and sorts the markers by position; markers at equal
    /// positions keep their order.
    pub fn add(&mut self, marker: Marker)
        requires
            positions_comparable(old(self).markers@.push(marker)),
        ensures
            final(self).markers@ == by_position(old(self).markers@.push(marker)),
    {
        let mut markers: Vec<Marker> = Vec::new();
        std::mem::swap(&mut markers, &mut self.markers);
        markers.push(marker);
        self.markers = sorted_by_position(markers);
    }

    /// Removes the first marker with the id and returns it.
    pub fn remove(&mut self, id: &str) -> (r: Option<Marker>)
        ensures
            ({
                let i = marker_position(old(self).markers@, id@);
                &&& r is Some <==> i < old(self).markers@.len()
                &&& r matches Some(m) ==> m == old(self).markers@[i]
                    && final(self).markers@ == old(self).markers@.remove(i)
                &&& r is None ==> final(self).markers@ == old(self).markers@
            }),
    {
        let ghost s = self.markers@;
        let ghost p = |i: int| has_marker_id(s, i, id@);
        let mut i: usize = 0;
        while i < self.markers.len()
            invariant
                s == self.markers@,
                s == old(self).markers@,
                p == (|i: int| has_marker_id(s, i, id@)),
                i <= s.len(),
                forall|j: int| 0 <= j < i ==> !#[trigger] p(j),
            decreases s.len() - i,
        {
            if str_equals(self.markers[i].id.as_str(), id) {
                proof { lemma_first_where(s.len() as int, p, i as int); }
                return Some(self.markers.remove(i));
            }
            i = i + 1;
        }
        proof { lemma_first_where(s.len() as int, p, i as int); }
        None
    }

    /// The first marker strictly after the time.
    pub fn next_after(&self, time_ms: u64) -> (r: Option<&Marker>)
        ensures
            r is Some <==> next_index(self.markers@, time_ms) < self.markers@.len(),
            r matches Some(m) ==> *m == self.markers@[next_index(self.markers@, time_ms)],
    {
        let ghost s = self.markers@;
        let ghost p = |i: int| after_time(s, i, time_ms);
        let mut i: usize = 0;
        while i < self.markers.len()
            invariant
                s == self.markers@,
                p == (|i: int| after_time(s, i, time_ms)),
                i <= s.len(),
                forall|j: int| 0 <= j < i ==> !#[trigger] p(j),
            decreases s.len() - i,
        {
            if f64_less(time_ms, self.markers[i].position_ms_bits) {
                proof { lemma_first_where(s.len() as int, p, i as int); }
                return Some(&self.markers[i]);
            }
            i = i + 1;
        }
        proof { lemma_first_where(s.len() as int, p, i as int); }
        None
    }

    /// The last marker strictly before the time.
    pub fn prev_before(&self, time_ms: u64) -> (r: Option<&Marker>)
        ensures
            r is Some <==> prev_index(self.markers@, time_ms) >= 0,
            r matches Some(m) ==> *m == self.markers@[prev_index(self.markers@, time_ms)],
    {
        let ghost s = self.markers@;
        let ghost p = |j: int| before_time_from_end(s, j, time_ms);
        let n = self.markers.len();
        let mut j: usize = 0;
        while j < n
            invariant
                s == self.markers@,
                n == s.len(),
                p == (|j: int| before_time_from_end(s, j, time_ms)),
                j <= n,
                forall|k: int| 0 <= k < j ==> !#[trigger] p(k),
            decreases n - j,
        {
            if f64_less(self.markers[n - 1 - j].position_ms_bits, time_ms) {
                proof { lemma_first_where(n as int, p, j as int); }
                return Some(&self.markers[n - 1 - j]);
            }
            j = j + 1;
        }
        proof { lemma_first_where(n as int, p, j as int); }
        None
    }

    /// The chapter markers, sorted by position.
    pub fn chapters(&self) -> (r: Vec<&Marker>)
        requires
            positions_comparable(of_marker_type(self.markers@, MarkerType::Chapter)),
        ensures
            marker_refs(r@) == by_position(of_marker_type(self.markers@, MarkerType::Chapter)),
    {
        let picked = self.by_type(MarkerType::Chapter);
        let ghost input = marker_refs(picked@);
        let mut sorted: Vec<&Marker> = Vec::new();
        let mut i: usize = 0;
        while i < picked.len()
            invariant
                input == marker_refs(picked@),
                i <= picked@.len(),
                marker_refs(sorted@) == by_position(input.take(i as int)),
            decreases picked@.len() - i,
        {
            let m = picked[i];
            proof {
                assert(input.take(i as int + 1).drop_last() =~= input.take(i as int));
                assert(input.take(i as int + 1).last() == *m);
            }
            let at = Self::ref_slot(&sorted, m);
            sorted.insert(at, m);
            assert(marker_refs(sorted@) =~= by_position(input.take(i as int + 1)));
            i = i + 1;
        }
        assert(input.take(i as int) =~= input);
        sorted
    }

    /// The slot of `m` among the markers that `list` points at.
    fn ref_slot(list: &Vec<&Marker>, m: &Marker) -> (r: usize)
        ensures
            r == position_slot(marker_refs(list@), *m),
            r <= list@.len(),
    {
        let ghost s = marker_refs(list@);
        let ghost p = |i: int| keyed_after(s, i, *m, marker_key());
        let key = place64(m.position_ms_bits);
        let mut i: usize = 0;
        while i < list.len()
            invariant
                s == marker_refs(list@),
                key == position_of(*m),
                p == (|i: int| keyed_after(s, i, *m, marker_key())),
                i <= s.len(),
                forall|j: int| 0 <= j < i ==> !#[trigger] p(j),
            decreases s.len() - i,
        {
            if place64(list[i].position_ms_bits) > key {
                proof { lemma_first_where(s.len() as int, p, i as int); }
                return i;
            }
            i = i + 1;
        }
        proof { lemma_first_where(s.len() as int, p, i as int); }
        i
    }

    /// The markers of a colour, in order.
    pub fn by_color(&self, color: MarkerColor) -> (r: Vec<&Marker>)
        ensures
            marker_refs(r@) == of_color(self.markers@, color),
    {
        let ghost s = self.markers@;
        let mut out: Vec<&Marker> = Vec::new();
        let mut i: usize = 0;
        while i < self.markers.len()
            invariant
                s == self.markers@,
                i <= s.len(),
                marker_refs(out@) == of_color(s.take(i as int), color),
            decreases s.len() - i,
        {
            proof {
                assert(s.take(i as int + 1).drop_last() =~= s.take(i as int));
                reveal(Seq::filter);
            }
            if self.markers[i].color == color {
                out.push(&self.markers[i]);
            }
            assert(marker_refs(out@) =~= of_color(s.take(i as int + 1), color));
            i = i + 1;
        }
        assert(s.take(i as int) =~= s);
        out
    }

    /// The markers of a type, in order.
    pub fn by_type(&self, marker_type: MarkerType) -> (r: Vec<&Marker>)
        ensures
            marker_refs(r@) == of_marker_type(self.markers@, marker_type),
    {
        let ghost s = self.markers@;
        let mut out: Vec<&Marker> = Vec::new();
        let mut i: usize = 0;
        while i < self.markers.len()
            invariant
                s == self.markers@,
                i <= s.len(),
                marker_refs(out@) == of_marker_type(s.take(i as int), marker_type),
            decreases s.len() - i,
        {
            proof {
                assert(s.take(i as int + 1).drop_last() =~= s.take(i as int));
                reveal(Seq::filter);
            }
            if self.markers[i].marker_type == marker_type {
                out.push(&self.markers[i]);
            }
            assert(marker_refs(out@) =~= of_marker_type(s.take(i as int + 1), marker_type));
            i = i + 1;
        }
        assert(s.take(i as int) =~= s);
        out
    }

    /// The number of markers.
    pub fn count(&self) -> (r: usize)
        ensures
            r == self.markers@.len(),
    {
        self.markers.len()
    }
}

} // verus!
