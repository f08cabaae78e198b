//! Macros: recording editing actions, editing the recorded steps, and
//! replaying them.
//!
//! Action times and playback speeds are `f64` values held as their bits;
//! advancing the playback clock (a floating-point product and sum) is done
//! by callers, which hand the new time to the player.

use vstd::prelude::*;
use crate::effects::first_from;
use crate::float_bits::{f64_at_most, f64_le};
use crate::keyed::{after_insert, KeyedStore};
use crate::project::{is_uuid_v4_text, new_uuid_v4_text, now_millis};

verus! {

/// Type of editable action.
#[derive(Debug, Clone)]
pub enum ActionType {
    AddEffect,
    RemoveEffect,
    SetParameter,
    SplitClip,
    DeleteClip,
    MoveClip,
    AddMarker,
    SetVolume,
    SetPan,
    SetSpeed,
    AddMask,
    RemoveMask,
    SetBlendMode,
    SwitchAngle,
    Custom(String),
}

/// Macro recorder state.
#[derive(Debug, Clone, Copy, PartialEq, Eq, Structural)]
pub enum RecorderState {
    Idle,
    Recording,
    Paused,
}


/// What `<str as Debug>::fmt` writes for a text: the text in double
/// quotes, with quotes, backslashes and characters that do not print
/// escaped.
pub uninterp spec fn debug_text(s: Seq<char>) -> Seq<char>;

/// `<str as Debug>::fmt`, as `format!("{:?}", s)` calls it. Its result is
/// named, not spelled out: the escaping rules fill pages of the
/// documentation.
#[verifier::external_body]
fn debug_quoted(s: &str) -> (r: String)
    ensures
        r@ == debug_text(s@),
{
    format!("{:?}", s)
}

/// The `Debug` text of an action type: the variant's name, and for a
/// custom action `Custom(` with the quoted name and `)`.
pub open spec fn action_type_text(t: ActionType) -> Seq<char> {
    match t {
        ActionType::AddEffect => "AddEffect"@,
        ActionType::RemoveEffect => "RemoveEffect"@,
        ActionType::SetParameter => "SetParameter"@,
        ActionType::SplitClip => "SplitClip"@,
        ActionType::DeleteClip => "DeleteClip"@,
        ActionType::MoveClip => "MoveClip"@,
        ActionType::AddMarker => "AddMarker"@,
        ActionType::SetVolume => "SetVolume"@,
        ActionType::SetPan => "SetPan"@,
        ActionType::SetSpeed => "SetSpeed"@,
        ActionType::AddMask => "AddMask"@,
        ActionType::RemoveMask => "RemoveMask"@,
        ActionType::SetBlendMode => "SetBlendMode"@,
        ActionType::SwitchAngle => "SwitchAngle"@,
        ActionType::Custom(name) => "Custom("@ + debug_text(name@) + ")"@,
    }
}

impl ActionType {
    /// The `Debug` text of the action type.
    pub fn debug_name(&self) -> (r: String)
        ensures
            r@ == action_type_text(*self),
    {
        match self {
            ActionType::AddEffect => String::from_str("AddEffect"),
            ActionType::RemoveEffect => String::from_str("RemoveEffect"),
            ActionType::SetParameter => String::from_str("SetParameter"),
            ActionType::SplitClip => String::from_str("SplitClip"),
            ActionType::DeleteClip => String::from_str("DeleteClip"),
            ActionType::MoveClip => String::from_str("MoveClip"),
            ActionType::AddMarker => String::from_str("AddMarker"),
            ActionType::SetVolume => String::from_str("SetVolume"),
            ActionType::SetPan => String::from_str("SetPan"),
            ActionType::SetSpeed => String::from_str("SetSpeed"),
            ActionType::AddMask => String::from_str("AddMask"),
            ActionType::RemoveMask => String::from_str("RemoveMask"),
            ActionType::SetBlendMode => String::from_str("SetBlendMode"),
            ActionType::SwitchAngle => String::from_str("SwitchAngle"),
            ActionType::Custom(name) => {
                let mut r = String::from_str("Custom(");
                let quoted = debug_quoted(name.as_str());
                r.append(quoted.as_str());
                r.append(")");
                r
            },
        }
    }
}

/// A recorded action.
#[derive(Debug, Clone)]
pub struct MacroAction {
    pub action_type: ActionType,
    /// The clip, track or effect acted on.
    pub target_id: String,
    /// Parameter values by name, each the bits of an `f64`.
    pub parameters: KeyedStore<u64>,
    /// The bits of the `f64` time from the start of the macro, in
    /// milliseconds.
    pub timestamp_ms_bits: u64,
    pub description: String,
}

impl MacroAction {
    /// An action with no parameters, described by its type's `Debug` text.
    pub fn new(action_type: ActionType, target_id: &str, timestamp_ms: u64) -> (r: Self)
        ensures
            r.action_type == action_type,
            r.target_id@ == target_id@,
            r.parameters@.keys.len() == 0,
            r.parameters@.values.len() == 0,
            r.timestamp_ms_bits == timestamp_ms,
            r.description@ == action_type_text(action_type),
    {
        let description = action_type.debug_name();
        MacroAction {
            action_type,
            target_id: String::from_str(target_id),
            parameters: KeyedStore::new(),
            timestamp_ms_bits: timestamp_ms,
            description,
        }
    }

    /// The action with a parameter set (replacing a value under that name).
    pub fn with_param(self, key: &str, value: u64) -> (r: Self)
        ensures
            r.parameters@ == after_insert(self.parameters@, key@, value),
            r.action_type == self.action_type,
            r.target_id == self.target_id,
            r.timestamp_ms_bits == self.timestamp_ms_bits,
            r.description == self.description,
    {
        let mut a = self;
        let _ = a.parameters.insert(key, value);
        a
    }

    /// The action with another description.
    pub fn with_description(self, desc: &str) -> (r: Self)
        ensures
            r == (MacroAction { description: r.description, ..self }),
            r.description@ == desc@,
    {
        MacroAction { description: String::from_str(desc), ..self }
    }
}

/// The bits of `0.0_f64`.
pub const ZERO_TIME_BITS: u64 = 0;

/// The bits of `1.0_f64`: normal playback speed.
pub const NORMAL_SPEED_BITS: u64 = 0x3FF0_0000_0000_0000;

/// A recorded macro.
#[derive(Debug, Clone)]
pub struct Macro {
    /// A random version 4 UUID, hyphenated and lowercase.
    pub id: String,
    pub name: String,
    pub description: String,
    pub actions: Vec<MacroAction>,
    /// Creation time (Unix epoch ms).
    pub created_at_ms: i64,
    /// The bits of the `f64` playback speed: 1.0 is normal, 2.0 fast.
    pub playback_speed_bits: u64,
    /// How many times to replay.
    pub loop_count: u32,
    pub is_looping: bool,
}

impl Macro {
    /// An empty macro played once at normal speed.
    pub fn new(name: &str) -> (r: Self)
        ensures
            is_uuid_v4_text(r.id@),
            r.name@ == name@,
            r.description@.len() == 0,
            r.actions@.len() == 0,
            r.playback_speed_bits == NORMAL_SPEED_BITS,
            r.loop_count == 1,
            !r.is_looping,
    {
        Macro {
            id: new_uuid_v4_text(),
            name: String::from_str(name),
            description: String::new(),
            actions: Vec::new(),
            created_at_ms: now_millis(),
            playback_speed_bits: NORMAL_SPEED_BITS,
            loop_count: 1,
            is_looping: false,
        }
    }

    /// Appends an action.
    pub fn record(&mut self, action: MacroAction)
        ensures
            *final(self) == (Macro { actions: final(self).actions, ..*old(self) }),
            final(self).actions@ == old(self).actions@.push(action),
    {
        self.actions.push(action);
    }

    /// Removes the action at `index` and returns it; `None`, changing
    /// nothing, past the end.
    pub fn remove_action(&mut self, index: usize) -> (r: Option<MacroAction>)
        ensures
            *final(self) == (Macro { actions: final(self).actions, ..*old(self) }),
            r is Some <==> index < old(self).actions@.len(),
            r matches Some(a) ==> a == old(self).actions@[index as int]
                && final(self).actions@ == old(self).actions@.remove(index as int),
            r is None ==> final(self).actions@ == old(self).actions@,
    {
        if index < self.actions.len() {
            Some(self.actions.remove(index))
        } else {
            None
        }
    }

    /// Inserts an action at `index`, shifting the later ones; an index past
    /// the end changes nothing.
    pub fn insert_action(&mut self, index: usize, action: MacroAction)
        ensures
            *final(self) == (Macro { actions: final(self).actions, ..*old(self) }),
            index <= old(self).actions@.len() ==> final(self).actions@ == old(self).actions@.insert(index as int, action),
            index > old(self).actions@.len() ==> final(self).actions@ == old(self).actions@,
    {
        if index <= self.actions.len() {
            self.actions.insert(index, action);
        }
    }

    /// The number of actions.
    pub fn action_count(&self) -> (r: usize)
        ensures
            r == self.actions@.len(),
    {
        self.actions.len()
    }

    /// The time of the last action (0.0 when there is none), as `f64` bits.
    pub fn total_duration_ms(&self) -> (r: u64)
        ensures
            r == (if self.actions@.len() == 0 { ZERO_TIME_BITS } else { self.actions@.last().timestamp_ms_bits }),
    {
        if self.actions.len() == 0 {
            ZERO_TIME_BITS
        } else {
            self.actions[self.actions.len() - 1].timestamp_ms_bits
        }
    }
}

/// Records actions into a macro.
#[derive(Debug, Clone)]
pub struct MacroRecorder {
    pub state: RecorderState,
    pub current_macro: Option<Macro>,
    /// The bits of the `f64` start time in milliseconds.
    pub start_time_ms_bits: u64,
}

impl MacroRecorder {
    /// An idle recorder with no macro.
    pub fn new() -> (r: Self)
        ensures
            r.state == RecorderState::Idle,
            r.current_macro is None,
            r.start_time_ms_bits == ZERO_TIME_BITS,
    {
        MacroRecorder { state: RecorderState::Idle, current_macro: None, start_time_ms_bits: ZERO_TIME_BITS }
    }

    /// Starts recording a new, empty macro (dropping one being recorded).
    pub fn start_recording(&mut self, name: &str)
        ensures
            final(self).state == RecorderState::Recording,
            final(self).start_time_ms_bits == ZERO_TIME_BITS,
            final(self).current_macro matches Some(m) && is_uuid_v4_text(m.id@) && m.name@ == name@
                && m.description@.len() == 0 && m.actions@.len() == 0 && m.playback_speed_bits == NORMAL_SPEED_BITS
                && m.loop_count == 1 && !m.is_looping,
    {
        self.state = RecorderState::Recording;
        self.current_macro = Some(Macro::new(name));
        self.start_time_ms_bits = ZERO_TIME_BITS;
    }

    /// Pauses a recording; in any other state nothing changes.
    pub fn pause(&mut self)
        ensures
            *final(self) == (MacroRecorder {
                state: if old(self).state == RecorderState::Recording { RecorderState::Paused } else { old(self).state },
                ..*old(self)
            }),
    {
        if self.state == RecorderState::Recording {
            self.state = RecorderState::Paused;
        }
    }

    /// Resumes a paused recording; in any other state nothing changes.
    pub fn resume(&mut self)
        ensures
            *final(self) == (MacroRecorder {
                state: if old(self).state == RecorderState::Paused { RecorderState::Recording } else { old(self).state },
                ..*old(self)
            }),
    {
        if self.state == RecorderState::Paused {
            self.state = RecorderState::Recording;
        }
    }

    /// Stops and hands back the recorded macro, if any.
    pub fn stop_recording(&mut self) -> (r: Option<Macro>)
        ensures
            r == old(self).current_macro,
            *final(self) == (MacroRecorder { state: RecorderState::Idle, current_macro: None, ..*old(self) }),
    {
        self.state = RecorderState::Idle;
        let mut taken: Option<Macro> = None;
        std::mem::swap(&mut taken, &mut self.current_macro);
        taken
    }

    /// Whether the recorder is recording.
    pub fn is_recording(&self) -> (r: bool)
        ensures
            r == (self.state == RecorderState::Recording),
    {
        self.state == RecorderState::Recording
    }

    /// Records an action at `timestamp_ms` (callers use 100 ms after the
    /// last action) with the parameters, when recording; otherwise nothing
    /// changes.
    pub fn record_action_at(&mut self, action_type: ActionType, target_id: &str, params: KeyedStore<u64>, timestamp_ms: u64)
        ensures
            final(self).state == old(self).state,
            final(self).start_time_ms_bits == old(self).start_time_ms_bits,
            (old(self).state != RecorderState::Recording || old(self).current_macro is None)
                ==> final(self).current_macro == old(self).current_macro,
            (old(self).state == RecorderState::Recording && old(self).current_macro is Some) ==> ({
                let before = old(self).current_macro->0;
                &&& final(self).current_macro matches Some(m)
                &&& m == (Macro { actions: m.actions, ..before })
                &&& m.actions@.len() == before.actions@.len() + 1
                &&& m.actions@.drop_last() == before.actions@
                &&& m.actions@.last().action_type == action_type
                &&& m.actions@.last().target_id@ == target_id@
                &&& m.actions@.last().parameters == params
                &&& m.actions@.last().timestamp_ms_bits == timestamp_ms
                &&& m.actions@.last().description@ == action_type_text(action_type)
            }),
    {
        if self.state != RecorderState::Recording {
            return;
        }
        match &mut self.current_macro {
            Some(m) => {
                let mut action = MacroAction::new(action_type, target_id, timestamp_ms);
                action.parameters = params;
                let ghost before = m.actions@;
                m.record(action);
                assert(m.actions@.drop_last() =~= before);
            },
            None => {},
        }
    }
}

/// Whether action `j` is not due yet at the time.
pub open spec fn not_due(actions: Seq<MacroAction>, j: int, time: u64) -> bool {
    !f64_le(actions[j].timestamp_ms_bits, time)
}

/// Where firing from `from` stops at a time: at the first action not due
/// yet, or at the end; a start past the end stays where it is.
pub open spec fn fire_end(actions: Seq<MacroAction>, from: int, time: u64) -> int {
    if from >= actions.len() {
        from
    } else {
        first_from(from, actions.len() as int, |j: int| not_due(actions, j, time))
    }
}

/// Replays a macro's actions as time goes by.
#[derive(Debug, Clone)]
pub struct MacroPlayer {
    pub is_playing: bool,
    /// The bits of the `f64` playback time in milliseconds.
    pub current_time_ms_bits: u64,
    pub next_action_idx: usize,
    pub completed_loops: u32,
}

/// The actions that references point at.
pub open spec fn action_refs(rs: Seq<&MacroAction>) -> Seq<MacroAction> {
    Seq::new(rs.len(), |i: int| *rs[i])
}

impl MacroPlayer {
    /// A stopped player at the start.
    pub fn new() -> (r: Self)
        ensures
            !r.is_playing,
            r.current_time_ms_bits == ZERO_TIME_BITS,
            r.next_action_idx == 0,
            r.completed_loops == 0,
    {
        MacroPlayer { is_playing: false, current_time_ms_bits: ZERO_TIME_BITS, next_action_idx: 0, completed_loops: 0 }
    }

    /// Starts playing from the beginning.
    pub fn start(&mut self)
        ensures
            final(self).is_playing,
            final(self).current_time_ms_bits == ZERO_TIME_BITS,
            final(self).next_action_idx == 0,
            final(self).completed_loops == 0,
    {
        self.is_playing = true;
        self.current_time_ms_bits = ZERO_TIME_BITS;
        self.next_action_idx = 0;
        self.completed_loops = 0;
    }

    /// Stops playing.
    pub fn stop(&mut self)
        ensures
            *final(self) == (MacroPlayer { is_playing: false, ..*old(self) }),
    {
        self.is_playing = false;
    }

    /// Moves the playback clock to `time_ms` (the caller advances it by
    /// the elapsed time times the playback speed) and returns the actions
    /// that came due, in order. When the last action has fired, a loop is
    /// counted: playback restarts from 0 while the macro loops or has
    /// loops left, and stops otherwise. A stopped player does nothing.
    pub fn tick_to<'a>(&mut self, time_ms: u64, macro_def: &'a Macro) -> (r: Vec<&'a MacroAction>)
        requires
            old(self).is_playing && fire_end(macro_def.actions@, old(self).next_action_idx as int, time_ms)
                >= macro_def.actions@.len() ==> old(self).completed_loops < u32::MAX,
        ensures
            !old(self).is_playing ==> r@.len() == 0 && *final(self) == *old(self),
            old(self).is_playing ==> ({
                let n = macro_def.actions@.len();
                let from = old(self).next_action_idx as int;
                let end = fire_end(macro_def.actions@, from, time_ms);
                let done = end >= n;
                let again = macro_def.is_looping || old(self).completed_loops + 1 < macro_def.loop_count;
                &&& action_refs(r@) == (if from < n { macro_def.actions@.subrange(from, end) } else { Seq::empty() })
                &&& final(self).completed_loops == (if done { old(self).completed_loops + 1 } else { old(self).completed_loops as int })
                &&& final(self).next_action_idx == (if done && again { 0 } else { end })
                &&& final(self).current_time_ms_bits == (if done && again { ZERO_TIME_BITS } else { time_ms })
                &&& final(self).is_playing == !(done && !again)
            }),
    {
        let mut fired: Vec<&'a MacroAction> = Vec::new();
        if !self.is_playing {
            return fired;
        }
        self.current_time_ms_bits = time_ms;
        let ghost acts = macro_def.actions@;
        let ghost p = |j: int| not_due(acts, j, time_ms);
        let n = macro_def.actions.len();
        let from = self.next_action_idx;
        if from < n {
            let mut i = from;
            while i < n
                invariant_except_break
                    acts == macro_def.actions@,
                    n == acts.len(),
                    from <= i <= n,
                    first_from(from as int, n as int, p) == first_from(i as int, n as int, p),
                    action_refs(fired@) == acts.subrange(from as int, i as int),
                    p == (|j: int| not_due(acts, j, time_ms)),
                ensures
                    i == first_from(from as int, n as int, p),
                    action_refs(fired@) == acts.subrange(from as int, i as int),
                decreases n - i,
            {
                let action = &macro_def.actions[i];
                if f64_at_most(action.timestamp_ms_bits, time_ms) {
                    let ghost before = action_refs(fired@);
                    fired.push(action);
                    assert(action_refs(fired@) =~= before.push(acts[i as int]));
                    assert(action_refs(fired@) =~= acts.subrange(from as int, i as int + 1));
                    i = i + 1;
                } else {
                    break;
                }
            }
            self.next_action_idx = i;
        }
        if self.next_action_idx >= n {
            self.completed_loops = self.completed_loops + 1;
            if macro_def.is_looping || self.completed_loops < macro_def.loop_count {
                self.next_action_idx = 0;
                self.current_time_ms_bits = ZERO_TIME_BITS;
            } else {
                self.is_playing = false;
            }
        }
        fired
    }
}

} // verus!
