//! The audio mixer's structure: channel strips with aux sends and
//! automation lanes, submix buses, and the mixer that holds them.
//!
//! Levels, pans, meter readings and automation values are `f32` values,
//! and times `f64` milliseconds, held as their bits. Metering, pan laws,
//! automation curves and mixing samples are floating-point work done by
//! callers.

use vstd::prelude::*;
use crate::effects::{first_where, lemma_first_where};
use crate::float_bits::{f64_is_nan, f64_place, place64};
use crate::keyed::{after_insert, KeyedStore};
use crate::project::{is_uuid_v4_text, new_uuid_v4_text};
use crate::sorting::{keyed_after, keyed_slot, sorted_by_key};
use crate::text::str_equals;

verus! {

/// Meter readings of a channel, in dB as the bits of `f32` values.
#[derive(Debug, Clone, Copy, PartialEq, Eq, Structural)]
pub struct VuMeter {
    pub peak_db_bits: u32,
    pub rms_db_bits: u32,
    pub peak_hold_db_bits: u32,
    pub peak_hold_frames: u32,
    pub clipping: bool,
}

/// A meter at rest: all readings 0, nothing held, not clipping.
pub open spec fn resting_meter() -> VuMeter {
    VuMeter { peak_db_bits: 0, rms_db_bits: 0, peak_hold_db_bits: 0, peak_hold_frames: 0, clipping: false }
}

impl VuMeter {
    /// A meter at rest.
    pub fn new() -> (r: Self)
        ensures
            r == resting_meter(),
    {
        VuMeter { peak_db_bits: 0, rms_db_bits: 0, peak_hold_db_bits: 0, peak_hold_frames: 0, clipping: false }
    }
}

impl Default for VuMeter {
    /// A meter at rest.
    fn default() -> (r: Self)
        ensures
            r == resting_meter(),
    {
        VuMeter::new()
    }
}

/// An automation point: a time (bits of `f64` ms) and a value (bits of an
/// `f32`).
#[derive(Debug, Clone, Copy, PartialEq, Eq, Structural)]
pub struct AutomationPoint {
    pub time_ms_bits: u64,
    pub value_bits: u32,
}

/// The sort key of automation points: the place of their time.
pub open spec fn point_time_key() -> spec_fn(AutomationPoint) -> int {
    |p: AutomationPoint| f64_place(p.time_ms_bits)
}

/// Times that a sort can compare: no NaN among them, unless there is at
/// most one point.
pub open spec fn automation_times_comparable(s: Seq<AutomationPoint>) -> bool {
    s.len() <= 1 || forall|i: int| 0 <= i < s.len() ==> !f64_is_nan(#[trigger] s[i].time_ms_bits)
}

/// The automation of one parameter: points kept in time order.
#[derive(Debug, Clone)]
pub struct AutomationLane {
    pub param_name: String,
    pub points: Vec<AutomationPoint>,
}

impl AutomationLane {
    /// A lane for the parameter with no points.
    pub fn new(param_name: &str) -> (r: Self)
        ensures
            r.param_name@ == param_name@,
            r.points@.len() == 0,
    {
        AutomationLane { param_name: String::from_str(param_name), points: Vec::new() }
    }

    /// The slot of `p` among `points`.
    fn slot(points: &Vec<AutomationPoint>, p: AutomationPoint) -> (r: usize)
        ensures
            r == keyed_slot(points@, p, point_time_key()),
            r <= points@.len(),
    {
        let ghost s = points@;
        let ghost q = |i: int| keyed_after(s, i, p, point_time_key());
        let key = place64(p.time_ms_bits);
        let mut i: usize = 0;
        while i < points.len()
            invariant
                s == points@,
                key == f64_place(p.time_ms_bits),
                q == (|i: int| keyed_after(s, i, p, point_time_key())),
                i <= s.len(),
                forall|j: int| 0 <= j < i ==> !#[trigger] q(j),
            decreases s.len() - i,
        {
            if place64(points[i].time_ms_bits) > key {
                proof { lemma_first_where(s.len() as int, q, i as int); }
                return i;
            }
            i = i + 1;
        }
        proof { lemma_first_where(s.len() as int, q, i as int); }
        i
    }

    /// Adds a point and sorts the points by time; points at equal times
    /// keep their order.
    pub fn add_point(&mut self, time_ms: u64, value: u32)
        requires
            automation_times_comparable(old(self).points@.push(AutomationPoint { time_ms_bits: time_ms, value_bits: value })),
        ensures
            final(self).param_name == old(self).param_name,
            final(self).points@ == sorted_by_key(
                old(self).points@.push(AutomationPoint { time_ms_bits: time_ms, value_bits: value }),
                point_time_key(),
            ),
    {
        let mut rest: Vec<AutomationPoint> = Vec::new();
        std::mem::swap(&mut rest, &mut self.points);
        rest.push(AutomationPoint { time_ms_bits: time_ms, value_bits: value });
        let ghost input = rest@;
        let mut sorted: Vec<AutomationPoint> = Vec::new();
        let ghost mut taken: nat = 0;
        while rest.len() > 0
            invariant
                taken + rest@.len() == input.len(),
                rest@ == input.subrange(taken as int, input.len() as int),
                sorted@ == sorted_by_key(input.take(taken as int), point_time_key()),
            decreases rest@.len(),
        {
            let p = rest.remove(0);
            proof {
                assert(input.take(taken as int + 1).drop_last() =~= input.take(taken as int));
                assert(input.take(taken as int + 1).last() == p);
                assert(rest@ =~= input.subrange(taken as int + 1, input.len() as int));
            }
            let at = Self::slot(&sorted, p);
            sorted.insert(at, p);
            proof { taken = taken + 1; }
        }
        assert(input.take(taken as int) =~= input);
        self.points = sorted;
    }
}

/// A send from a channel to a bus.
#[derive(Debug, Clone)]
pub struct AuxSend {
    pub bus_id: String,
    /// The bits of an `f32` send level in dB.
    pub level_db_bits: u32,
    pub pre_fader: bool,
    pub enabled: bool,
}

/// A mixer channel strip.
#[derive(Debug, Clone)]
pub struct ChannelStrip {
    /// A random version 4 UUID, hyphenated and lowercase.
    pub id: String,
    pub name: String,
    /// The bits of an `f32` volume in dB.
    pub volume_db_bits: u32,
    /// The bits of an `f32` pan in `[-1, 1]`.
    pub pan_bits: u32,
    pub muted: bool,
    pub solo: bool,
    pub vu_meter: VuMeter,
    pub aux_sends: Vec<AuxSend>,
    pub automation: Vec<AutomationLane>,
    pub assigned_submix: Option<String>,
}

/// Whether lane `i` automates the parameter.
pub open spec fn automates(s: Seq<AutomationLane>, i: int, param: Seq<char>) -> bool {
    s[i].param_name@ == param
}

/// The first lane of the parameter (the number of lanes when there is
/// none).
pub open spec fn lane_position(s: Seq<AutomationLane>, param: Seq<char>) -> int {
    first_where(s.len() as int, |i: int| automates(s, i, param))
}

impl ChannelStrip {
    /// A channel at 0 dB, centred, not muted or soloed, with a meter at
    /// rest and no sends, automation or submix.
    pub fn new(name: &str) -> (r: Self)
        ensures
            is_uuid_v4_text(r.id@),
            r.name@ == name@,
            r.volume_db_bits == 0,
            r.pan_bits == 0,
            !r.muted,
            !r.solo,
            r.vu_meter == resting_meter(),
            r.aux_sends@.len() == 0,
            r.automation@.len() == 0,
            r.assigned_submix is None,
    {
        ChannelStrip {
            id: new_uuid_v4_text(),
            name: String::from_str(name),
            volume_db_bits: 0,
            pan_bits: 0,
            muted: false,
            solo: false,
            vu_meter: VuMeter::new(),
            aux_sends: Vec::new(),
            automation: Vec::new(),
            assigned_submix: None,
        }
    }

    /// Adds an enabled send to the bus.
    pub fn add_aux_send(&mut self, bus_id: &str, level_db: u32, pre_fader: bool)
        ensures
            *final(self) == (ChannelStrip { aux_sends: final(self).aux_sends, ..*old(self) }),
            final(self).aux_sends@.len() == old(self).aux_sends@.len() + 1,
            final(self).aux_sends@.drop_last() == old(self).aux_sends@,
            final(self).aux_sends@.last().bus_id@ == bus_id@,
            final(self).aux_sends@.last().level_db_bits == level_db,
            final(self).aux_sends@.last().pre_fader == pre_fader,
            final(self).aux_sends@.last().enabled,
    {
        self.aux_sends.push(AuxSend { bus_id: String::from_str(bus_id), level_db_bits: level_db, pre_fader, enabled: true });
        assert(self.aux_sends@.drop_last() =~= old(self).aux_sends@);
    }

    /// The position of the first lane of the parameter, if any.
    fn lane_index(&self, param: &str) -> (r: Option<usize>)
        ensures
            r is Some <==> lane_position(self.automation@, param@) < self.automation@.len(),
            r matches Some(i) ==> i == lane_position(self.automation@, param@) && i < self.automation@.len(),
    {
        let ghost s = self.automation@;
        let ghost p = |i: int| automates(s, i, param@);
        let mut i: usize = 0;
        while i < self.automation.len()
            invariant
                s == self.automation@,
                p == (|i: int| automates(s, i, param@)),
                i <= s.len(),
                forall|j: int| 0 <= j < i ==> !#[trigger] p(j),
            decreases s.len() - i,
        {
            if str_equals(self.automation[i].param_name.as_str(), param) {
                proof { lemma_first_where(s.len() as int, p, i as int); }
                return Some(i);
            }
            i = i + 1;
        }
        proof { lemma_first_where(s.len() as int, p, i as int); }
        None
    }

    /// The automation lane of the parameter, to be changed in place; an
    /// empty lane is added first when the channel has none for it.
    pub fn get_automation(&mut self, param: &str) -> (r: &mut AutomationLane)
        ensures
            ({
                let i = lane_position(old(self).automation@, param@);
                let n = old(self).automation@.len();
                &&& i < n ==> *r == old(self).automation@[i]
                    && final(self).automation@ == old(self).automation@.update(i, *final(r))
                &&& i == n ==> r.param_name@ == param@ && r.points@.len() == 0
                    && final(self).automation@ == old(self).automation@.push(*final(r))
                &&& final(self).id == old(self).id && final(self).name == old(self).name
                &&& final(self).volume_db_bits == old(self).volume_db_bits && final(self).pan_bits == old(self).pan_bits
                &&& final(self).muted == old(self).muted && final(self).solo == old(self).solo
                &&& final(self).vu_meter == old(self).vu_meter && final(self).aux_sends == old(self).aux_sends
                &&& final(self).assigned_submix == old(self).assigned_submix
            }),
    {
        let i = match self.lane_index(param) {
            Some(i) => i,
            None => {
                self.automation.push(AutomationLane::new(param));
                self.automation.len() - 1
            },
        };
        &mut self.automation[i]
    }
}

/// A submix bus.
#[derive(Debug, Clone)]
pub struct SubmixBus {
    /// A random version 4 UUID, hyphenated and lowercase.
    pub id: String,
    pub name: String,
    /// The bits of an `f32` volume in dB.
    pub volume_db_bits: u32,
    pub vu_meter: VuMeter,
}

impl SubmixBus {
    /// A bus at 0 dB with a meter at rest.
    pub fn new(name: &str) -> (r: Self)
        ensures
            is_uuid_v4_text(r.id@),
            r.name@ == name@,
            r.volume_db_bits == 0,
            r.vu_meter == resting_meter(),
    {
        SubmixBus { id: new_uuid_v4_text(), name: String::from_str(name), volume_db_bits: 0, vu_meter: VuMeter::new() }
    }
}

/// The master mixer: channels and submixes stored by their ids.
#[derive(Debug, Clone)]
pub struct AudioMixerPro {
    pub channels: KeyedStore<ChannelStrip>,
    pub submixes: KeyedStore<SubmixBus>,
    /// The bits of an `f32` master volume in dB.
    pub master_volume_db_bits: u32,
    pub master_vu: VuMeter,
}

/// The number of soloed channels among `s`.
pub open spec fn soloed(s: Seq<ChannelStrip>) -> int
    decreases s.len(),
{
    if s.len() == 0 {
        0
    } else {
        soloed(s.drop_last()) + if s.last().solo { 1int } else { 0int }
    }
}

impl AudioMixerPro {
    /// A mixer with no channels or submixes, at 0 dB, meter at rest.
    pub fn new() -> (r: Self)
        ensures
            r.channels@.keys.len() == 0,
            r.channels@.values.len() == 0,
            r.submixes@.keys.len() == 0,
            r.submixes@.values.len() == 0,
            r.master_volume_db_bits == 0,
            r.master_vu == resting_meter(),
    {
        AudioMixerPro { channels: KeyedStore::new(), submixes: KeyedStore::new(), master_volume_db_bits: 0, master_vu: VuMeter::new() }
    }

    /// Stores a channel under its id, replacing one stored under it.
    pub fn add_channel(&mut self, channel: ChannelStrip)
        ensures
            final(self).channels@ == after_insert(old(self).channels@, channel.id@, channel),
            final(self).submixes == old(self).submixes,
            final(self).master_volume_db_bits == old(self).master_volume_db_bits,
            final(self).master_vu == old(self).master_vu,
    {
        let key = channel.id.clone();
        let _ = self.channels.insert(key.as_str(), channel);
    }

    /// Stores a submix under its id, replacing one stored under it.
    pub fn add_submix(&mut self, submix: SubmixBus)
        ensures
            final(self).submixes@ == after_insert(old(self).submixes@, submix.id@, submix),
            final(self).channels == old(self).channels,
            final(self).master_volume_db_bits == old(self).master_volume_db_bits,
            final(self).master_vu == old(self).master_vu,
    {
        let key = submix.id.clone();
        let _ = self.submixes.insert(key.as_str(), submix);
    }

    /// The number of soloed channels.
    pub fn solo_count(&self) -> (r: usize)
        ensures
            r == soloed(self.channels@.values),
    {
        let all = self.channels.values();
        let ghost s = crate::keyed::pointed(all@);
        let mut count: usize = 0;
        let mut i: usize = 0;
        while i < all.len()
            invariant
                s == crate::keyed::pointed(all@),
                s == self.channels@.values,
                i <= all@.len(),
                count == soloed(s.take(i as int)),
                count <= i,
            decreases all@.len() - i,
        {
            assert(s.take(i as int + 1).drop_last() =~= s.take(i as int));
            assert(s[i as int] == *all@[i as int]);
            if all[i].solo {
                count = count + 1;
            }
            i = i + 1;
        }
        assert(s.take(i as int) =~= s);
        count
    }

    /// The number of channels.
    pub fn channel_count(&self) -> (r: usize)
        ensures
            r == self.channels@.keys.len(),
    {
        self.channels.len()
    }

    /// The number of submixes.
    pub fn submix_count(&self) -> (r: usize)
        ensures
            r == self.submixes@.keys.len(),
    {
        self.submixes.len()
    }
}

} // verus!
