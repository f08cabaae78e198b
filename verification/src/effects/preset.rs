//! Presets: saved effect, grade and workspace settings, and the manager
//! that stores, filters and searches them.
//!
//! Parameter values are `f64` values held as their bits; times are
//! milliseconds since the Unix epoch.

use vstd::prelude::*;
use crate::effects::{first_where, lemma_first_where};
use crate::project::{is_uuid_v4_text, new_uuid_v4_text, now_millis};
use crate::text::{occurs_in, str_contains, str_equals, to_lowercase, unicode_lowercase};

verus! {

/// Type of preset.
#[derive(Debug, Clone, Copy, PartialEq, Eq, Structural)]
pub enum PresetType {
    ColorGrade,
    Effect,
    Audio,
    Mask,
    Transition,
    Workspace,
    SpeedRamp,
    Grain,
    Export,
}

/// A saved preset.
#[derive(Debug, Clone)]
pub struct Preset {
    pub id: String,
    pub name: String,
    pub description: String,
    pub category: String,
    pub preset_type: PresetType,
    /// Parameter values by name, each the bits of an `f64`.
    pub parameters: Vec<(String, u64)>,
    pub thumbnail_path: Option<String>,
    pub is_builtin: bool,
    pub is_favorite: bool,
    pub tags: Vec<String>,
    pub author: String,
    /// Creation time (Unix epoch ms).
    pub created_at_ms: i64,
    /// Last modification time (Unix epoch ms).
    pub modified_at_ms: i64,
}

/// A preset as the contracts see it.
pub struct PresetView {
    pub id: Seq<char>,
    pub name: Seq<char>,
    pub description: Seq<char>,
    pub category: Seq<char>,
    pub preset_type: PresetType,
    pub parameters: Seq<(Seq<char>, u64)>,
    pub thumbnail_path: Option<Seq<char>>,
    pub is_builtin: bool,
    pub is_favorite: bool,
    pub tags: Seq<Seq<char>>,
    pub author: Seq<char>,
    pub created_at_ms: i64,
    pub modified_at_ms: i64,
}

/// The views of named parameter values.
pub open spec fn params_view(ps: Seq<(String, u64)>) -> Seq<(Seq<char>, u64)> {
    Seq::new(ps.len(), |i: int| (ps[i].0@, ps[i].1))
}

/// The views of a list of texts.
pub open spec fn texts_view(ts: Seq<String>) -> Seq<Seq<char>> {
    Seq::new(ts.len(), |i: int| ts[i]@)
}

/// The position of the first parameter named `key` (the length when there
/// is none).
pub open spec fn param_position(ps: Seq<(Seq<char>, u64)>, key: Seq<char>) -> int {
    first_where(ps.len() as int, |i: int| names_param(ps, i, key))
}

/// Whether parameter `i` is named `key`.
pub open spec fn names_param(ps: Seq<(Seq<char>, u64)>, i: int, key: Seq<char>) -> bool {
    ps[i].0 == key
}

/// The parameters after setting `key` to `value`: the value of the
/// parameter with that name replaced, or the pair added at the end.
pub open spec fn param_set(ps: Seq<(Seq<char>, u64)>, key: Seq<char>, value: u64) -> Seq<(Seq<char>, u64)> {
    let i = param_position(ps, key);
    if i < ps.len() {
        ps.update(i, (key, value))
    } else {
        ps.push((key, value))
    }
}

/// Whether `q` occurs in the lowercase name, description or one of the
/// lowercase tags of a preset.
pub open spec fn preset_matches(p: PresetView, q: Seq<char>) -> bool {
    ||| occurs_in(q, unicode_lowercase(p.name))
    ||| occurs_in(q, unicode_lowercase(p.description))
    ||| exists|t: int| 0 <= t < p.tags.len() && occurs_in(q, #[trigger] unicode_lowercase(p.tags[t]))
}

impl Preset {
    /// The preset as the contracts see it.
    pub open spec fn view_of(self) -> PresetView {
        PresetView {
            id: self.id@,
            name: self.name@,
            description: self.description@,
            category: self.category@,
            preset_type: self.preset_type,
            parameters: params_view(self.parameters@),
            thumbnail_path: match self.thumbnail_path {
                Some(t) => Some(t@),
                None => None,
            },
            is_builtin: self.is_builtin,
            is_favorite: self.is_favorite,
            tags: texts_view(self.tags@),
            author: self.author@,
            created_at_ms: self.created_at_ms,
            modified_at_ms: self.modified_at_ms,
        }
    }

    /// Creates a user preset in category `Custom` with a fresh random id,
    /// created and modified now.
    pub fn new(name: &str, preset_type: PresetType) -> (r: Self)
        ensures
            is_uuid_v4_text(r.id@),
            r.name@ == name@,
            r.description@ == Seq::<char>::empty(),
            r.category@ == "Custom"@,
            r.preset_type == preset_type,
            r.parameters@.len() == 0,
            r.thumbnail_path is None,
            !r.is_builtin,
            !r.is_favorite,
            r.tags@.len() == 0,
            r.author@ == "User"@,
            r.created_at_ms == r.modified_at_ms,
    {
        let now = now_millis();
        Preset {
            id: new_uuid_v4_text(),
            name: String::from_str(name),
            description: String::new(),
            category: String::from_str("Custom"),
            preset_type,
            parameters: Vec::new(),
            thumbnail_path: None,
            is_builtin: false,
            is_favorite: false,
            tags: Vec::new(),
            author: String::from_str("User"),
            created_at_ms: now,
            modified_at_ms: now,
        }
    }

    /// The index of the first parameter named `key`, if any.
    fn find_param(&self, key: &str) -> (r: Option<usize>)
        ensures
            match r {
                Some(i) => i == param_position(params_view(self.parameters@), key@)
                    && i < self.parameters@.len(),
                None => param_position(params_view(self.parameters@), key@) == self.parameters@.len(),
            },
    {
        let ghost ps = params_view(self.parameters@);
        let ghost p = |i: int| names_param(ps, i, key@);
        let mut i: usize = 0;
        while i < self.parameters.len()
            invariant
                ps == params_view(self.parameters@),
                p == (|i: int| names_param(ps, i, key@)),
                i <= self.parameters@.len(),
                forall|j: int| 0 <= j < i ==> !#[trigger] p(j),
            decreases self.parameters@.len() - i,
        {
            if str_equals(self.parameters[i].0.as_str(), key) {
                proof { lemma_first_where(ps.len() as int, p, i as int); }
                return Some(i);
            }
            i = i + 1;
        }
        proof { lemma_first_where(ps.len() as int, p, i as int); }
        None
    }

    /// Sets parameter `key` to `value` (the bits of an `f64`) and stamps
    /// the modification time.
    pub fn set_param(&mut self, key: &str, value: u64)
        ensures
            final(self).view_of() == (PresetView {
                parameters: param_set(old(self).view_of().parameters, key@, value),
                modified_at_ms: final(self).modified_at_ms,
                ..old(self).view_of()
            }),
    {
        let ghost ps = params_view(self.parameters@);
        match self.find_param(key) {
            Some(i) => {
                let _ = self.parameters.remove(i);
                self.parameters.insert(i, (String::from_str(key), value));
                assert(params_view(self.parameters@) =~= ps.update(i as int, (key@, value)));
            },
            None => {
                self.parameters.push((String::from_str(key), value));
                assert(params_view(self.parameters@) =~= ps.push((key@, value)));
            },
        }
        self.modified_at_ms = now_millis();
    }

    /// The value of parameter `key` (the bits of an `f64`), if set.
    pub fn get_param(&self, key: &str) -> (r: Option<u64>)
        ensures
            ({
                let ps = self.view_of().parameters;
                let i = param_position(ps, key@);
                &&& i == ps.len() ==> r is None
                &&& i < ps.len() ==> r == Some(ps[i].1)
            }),
    {
        match self.find_param(key) {
            Some(i) => Some(self.parameters[i].1),
            None => None,
        }
    }

    /// Marks or unmarks the preset as a favorite.
    pub fn toggle_favorite(&mut self)
        ensures
            final(self).view_of() == (PresetView { is_favorite: !old(self).is_favorite, ..old(self).view_of() }),
    {
        self.is_favorite = !self.is_favorite;
    }

    /// Whether the lowercase query `q` occurs in the preset's name,
    /// description or tags, each lowercased.
    fn matches(&self, q: &str) -> (r: bool)
        ensures
            r == preset_matches(self.view_of(), q@),
    {
        let name = to_lowercase(self.name.as_str());
        if str_contains(name.as_str(), q) {
            return true;
        }
        let description = to_lowercase(self.description.as_str());
        if str_contains(description.as_str(), q) {
            return true;
        }
        let ghost tags = texts_view(self.tags@);
        let mut t: usize = 0;
        while t < self.tags.len()
            invariant
                tags == texts_view(self.tags@),
                t <= self.tags@.len(),
                !occurs_in(q@, unicode_lowercase(self.name@)),
                !occurs_in(q@, unicode_lowercase(self.description@)),
                forall|j: int| 0 <= j < t ==> !occurs_in(q@, #[trigger] unicode_lowercase(tags[j])),
            decreases self.tags@.len() - t,
        {
            let tag = to_lowercase(self.tags[t].as_str());
            if str_contains(tag.as_str(), q) {
                assert(occurs_in(q@, unicode_lowercase(tags[t as int])));
                assert(self.view_of().tags[t as int] == tags[t as int]);
                assert(occurs_in(q@, unicode_lowercase(self.view_of().tags[t as int])));
                return true;
            }
            t = t + 1;
        }
        false
    }
}

/// A preset manager as the contracts see it: the key each preset is
/// stored under, and the presets, position by position.
pub struct PresetManagerView {
    pub keys: Seq<Seq<char>>,
    pub presets: Seq<PresetView>,
}

/// The position of the preset stored under `id` (the number of presets
/// when there is none).
pub open spec fn key_position(keys: Seq<Seq<char>>, id: Seq<char>) -> int {
    first_where(keys.len() as int, |i: int| is_key(keys, i, id))
}

/// Whether key `i` is `id`.
pub open spec fn is_key(keys: Seq<Seq<char>>, i: int, id: Seq<char>) -> bool {
    keys[i] == id
}

/// The manager after storing `p` under its id: the preset stored under
/// that id replaced, or `p` added at the end.
pub open spec fn after_add(m: PresetManagerView, p: PresetView) -> PresetManagerView {
    let i = key_position(m.keys, p.id);
    if i < m.keys.len() {
        PresetManagerView { keys: m.keys, presets: m.presets.update(i, p) }
    } else {
        PresetManagerView { keys: m.keys.push(p.id), presets: m.presets.push(p) }
    }
}

/// No key occurs twice.
pub open spec fn keys_unique(keys: Seq<Seq<char>>) -> bool {
    forall|i: int, j: int| 0 <= i < j < keys.len() ==> keys[i] != keys[j]
}

/// The presets of a type.
pub open spec fn presets_of_type(s: Seq<PresetView>, t: PresetType) -> Seq<PresetView> {
    s.filter(|p: PresetView| p.preset_type == t)
}

/// The presets of a category.
pub open spec fn presets_in_category(s: Seq<PresetView>, c: Seq<char>) -> Seq<PresetView> {
    s.filter(|p: PresetView| p.category == c)
}

/// The favorite presets.
pub open spec fn favorite_presets(s: Seq<PresetView>) -> Seq<PresetView> {
    s.filter(|p: PresetView| p.is_favorite)
}

/// The presets that match the lowercase query `q`.
pub open spec fn presets_matching(s: Seq<PresetView>, q: Seq<char>) -> Seq<PresetView> {
    s.filter(|p: PresetView| preset_matches(p, q))
}

/// The views of a list of borrowed presets.
pub open spec fn preset_refs_view(ps: Seq<&Preset>) -> Seq<PresetView> {
    Seq::new(ps.len(), |i: int| ps[i].view_of())
}

/// The built-in colour grades: name, category and parameters (`f64` bits).
pub open spec fn builtin_grades() -> Seq<(Seq<char>, Seq<char>, Seq<(Seq<char>, u64)>)> {
    seq![
        ("Cinematic Teal & Orange"@, "cinematic"@, seq![("lift_r"@, 0xBF947AE147AE147B), ("lift_g"@, 0xBF847AE147AE147B), ("lift_b"@, 0x3F947AE147AE147B), ("gamma_r"@, 0x3FA47AE147AE147B), ("gamma_g"@, 0x0000000000000000), ("gamma_b"@, 0xBF9EB851EB851EB8), ("gain_r"@, 0x3FAEB851EB851EB8), ("gain_g"@, 0x3F947AE147AE147B), ("gain_b"@, 0xBFA47AE147AE147B), ("saturation"@, 0x3FF199999999999A), ("contrast"@, 0x3FF2666666666666)]),
        ("Vintage Fade"@, "vintage"@, seq![("lift_r"@, 0x3F9EB851EB851EB8), ("lift_g"@, 0x3F947AE147AE147B), ("lift_b"@, 0x3F847AE147AE147B), ("gamma_r"@, 0xBF847AE147AE147B), ("gamma_g"@, 0x0000000000000000), ("gamma_b"@, 0x3F947AE147AE147B), ("saturation"@, 0x3FEB333333333333), ("contrast"@, 0x3FECCCCCCCCCCCCD)]),
        ("High Contrast BW"@, "bw"@, seq![("saturation"@, 0x0000000000000000), ("contrast"@, 0x3FF8000000000000), ("gamma_r"@, 0x3FB999999999999A)]),
        ("Soft Pastel"@, "soft"@, seq![("saturation"@, 0x3FE6666666666666), ("contrast"@, 0x3FEB333333333333), ("lift_r"@, 0x3FA999999999999A), ("lift_g"@, 0x3FA47AE147AE147B), ("lift_b"@, 0x3FAEB851EB851EB8)]),
    ]
}

/// Whether `p` is built-in colour grade `k`: a fresh random id, the grade's
/// name, category and parameters, no description, no thumbnail, built in,
/// not a favorite, no tags, by "User".
pub open spec fn is_builtin_grade(p: PresetView, k: int) -> bool {
    &&& is_uuid_v4_text(p.id)
    &&& p.name == builtin_grades()[k].0
    &&& p.description == Seq::<char>::empty()
    &&& p.category == builtin_grades()[k].1
    &&& p.preset_type == PresetType::ColorGrade
    &&& p.parameters == builtin_grades()[k].2
    &&& p.thumbnail_path is None
    &&& p.is_builtin
    &&& !p.is_favorite
    &&& p.tags == Seq::<Seq<char>>::empty()
    &&& p.author == "User"@
}

/// The manager after storing each preset of `ps` in turn.
pub open spec fn after_adds(m: PresetManagerView, ps: Seq<PresetView>) -> PresetManagerView
    decreases ps.len(),
{
    if ps.len() == 0 {
        m
    } else {
        after_add(after_adds(m, ps.drop_last()), ps.last())
    }
}

/// Preset manager: presets stored by id.
pub struct PresetManager {
    entries: Vec<(String, Preset)>,
}

impl View for PresetManager {
    type V = PresetManagerView;

    closed spec fn view(&self) -> PresetManagerView {
        PresetManagerView {
            keys: Seq::new(self.entries@.len(), |i: int| self.entries@[i].0@),
            presets: Seq::new(self.entries@.len(), |i: int| self.entries@[i].1.view_of()),
        }
    }
}

impl PresetManager {
    /// The number of presets and of keys agree.
    pub proof fn lemma_view_lengths(&self)
        ensures
            self@.keys.len() == self@.presets.len(),
    {
    }

    /// An empty manager.
    pub fn new() -> (r: Self)
        ensures
            r@.keys.len() == 0,
            r@.presets.len() == 0,
    {
        PresetManager { entries: Vec::new() }
    }

    /// The position of the entry stored under `id`, if any.
    fn find(&self, id: &str) -> (r: Option<usize>)
        ensures
            match r {
                Some(i) => i == key_position(self@.keys, id@) && i < self@.keys.len() && self@.keys[i as int] == id@,
                None => key_position(self@.keys, id@) == self@.keys.len()
                    && forall|j: int| 0 <= j < self@.keys.len() ==> self@.keys[j] != id@,
            },
    {
        let ghost keys = self@.keys;
        let ghost p = |i: int| is_key(keys, i, id@);
        let mut i: usize = 0;
        while i < self.entries.len()
            invariant
                keys == self@.keys,
                keys.len() == self.entries@.len(),
                p == (|i: int| is_key(keys, i, id@)),
                i <= self.entries@.len(),
                forall|j: int| 0 <= j < i ==> !#[trigger] p(j),
            decreases self.entries@.len() - i,
        {
            if str_equals(self.entries[i].0.as_str(), id) {
                proof { lemma_first_where(keys.len() as int, p, i as int); }
                return Some(i);
            }
            i = i + 1;
        }
        proof {
            lemma_first_where(keys.len() as int, p, i as int);
            assert forall|j: int| 0 <= j < keys.len() implies keys[j] != id@ by {
                assert(!p(j));
            }
        }
        None
    }

    /// Stores `preset` under its id, replacing the preset stored under
    /// that id if there is one.
    pub fn add(&mut self, preset: Preset)
        ensures
            final(self)@ == after_add(old(self)@, preset.view_of()),
            keys_unique(old(self)@.keys) ==> keys_unique(final(self)@.keys),
    {
        let ghost before = self@;
        let key = String::from_str(preset.id.as_str());
        match self.find(preset.id.as_str()) {
            Some(i) => {
                let _ = self.entries.remove(i);
                self.entries.insert(i, (key, preset));
                assert(self@.keys =~= before.keys);
                assert(self@.presets =~= before.presets.update(i as int, preset.view_of()));
            },
            None => {
                self.entries.push((key, preset));
                assert(self@.keys =~= before.keys.push(preset.id@));
                assert(self@.presets =~= before.presets.push(preset.view_of()));
                proof {
                    lemma_push_new_key(before.keys, preset.id@);
                }
            },
        }
    }

    /// A built-in colour grade preset with the given parameters.
    fn builtin_grade(name: &str, category: &str, parameters: Vec<(String, u64)>) -> (r: Preset)
        ensures
            is_uuid_v4_text(r.id@),
            r.name@ == name@,
            r.description@ == Seq::<char>::empty(),
            r.category@ == category@,
            r.preset_type == PresetType::ColorGrade,
            r.parameters@ == parameters@,
            r.thumbnail_path is None,
            r.is_builtin,
            !r.is_favorite,
            r.tags@.len() == 0,
            r.author@ == "User"@,
    {
        let mut preset = Preset::new(name, PresetType::ColorGrade);
        preset.category = String::from_str(category);
        preset.is_builtin = true;
        preset.parameters = parameters;
        preset.modified_at_ms = now_millis();
        preset
    }

    /// Stores the four built-in colour grades, in catalog order (each under
    /// its fresh id).
    pub fn load_builtin_presets(&mut self)
        ensures
            exists|ps: Seq<PresetView>| {
                &&& ps.len() == builtin_grades().len()
                &&& forall|k: int| 0 <= k < ps.len() ==> #[trigger] is_builtin_grade(ps[k], k)
                &&& final(self)@ == after_adds(old(self)@, ps)
            },
    {
        let ghost m0 = self@;
        let p0: Vec<(String, u64)> = vec![(String::from_str("lift_r"), 0xBF947AE147AE147B), (String::from_str("lift_g"), 0xBF847AE147AE147B), (String::from_str("lift_b"), 0x3F947AE147AE147B), (String::from_str("gamma_r"), 0x3FA47AE147AE147B), (String::from_str("gamma_g"), 0x0000000000000000), (String::from_str("gamma_b"), 0xBF9EB851EB851EB8), (String::from_str("gain_r"), 0x3FAEB851EB851EB8), (String::from_str("gain_g"), 0x3F947AE147AE147B), (String::from_str("gain_b"), 0xBFA47AE147AE147B), (String::from_str("saturation"), 0x3FF199999999999A), (String::from_str("contrast"), 0x3FF2666666666666)];
        assert(params_view(p0@) =~= seq![("lift_r"@, 0xBF947AE147AE147B), ("lift_g"@, 0xBF847AE147AE147B), ("lift_b"@, 0x3F947AE147AE147B), ("gamma_r"@, 0x3FA47AE147AE147B), ("gamma_g"@, 0x0000000000000000), ("gamma_b"@, 0xBF9EB851EB851EB8), ("gain_r"@, 0x3FAEB851EB851EB8), ("gain_g"@, 0x3F947AE147AE147B), ("gain_b"@, 0xBFA47AE147AE147B), ("saturation"@, 0x3FF199999999999A), ("contrast"@, 0x3FF2666666666666)]);
        let g0 = Self::builtin_grade("Cinematic Teal & Orange", "cinematic", p0);
        let ghost v0 = g0.view_of();
        assert(v0.tags =~= Seq::<Seq<char>>::empty());
        assert(is_builtin_grade(v0, 0));
        self.add(g0);
        let ghost m1 = self@;
        let p1: Vec<(String, u64)> = vec![(String::from_str("lift_r"), 0x3F9EB851EB851EB8), (String::from_str("lift_g"), 0x3F947AE147AE147B), (String::from_str("lift_b"), 0x3F847AE147AE147B), (String::from_str("gamma_r"), 0xBF847AE147AE147B), (String::from_str("gamma_g"), 0x0000000000000000), (String::from_str("gamma_b"), 0x3F947AE147AE147B), (String::from_str("saturation"), 0x3FEB333333333333), (String::from_str("contrast"), 0x3FECCCCCCCCCCCCD)];
        assert(params_view(p1@) =~= seq![("lift_r"@, 0x3F9EB851EB851EB8), ("lift_g"@, 0x3F947AE147AE147B), ("lift_b"@, 0x3F847AE147AE147B), ("gamma_r"@, 0xBF847AE147AE147B), ("gamma_g"@, 0x0000000000000000), ("gamma_b"@, 0x3F947AE147AE147B), ("saturation"@, 0x3FEB333333333333), ("contrast"@, 0x3FECCCCCCCCCCCCD)]);
        let g1 = Self::builtin_grade("Vintage Fade", "vintage", p1);
        let ghost v1 = g1.view_of();
        assert(v1.tags =~= Seq::<Seq<char>>::empty());
        assert(is_builtin_grade(v1, 1));
        self.add(g1);
        let ghost m2 = self@;
        let p2: Vec<(String, u64)> = vec![(String::from_str("saturation"), 0x0000000000000000), (String::from_str("contrast"), 0x3FF8000000000000), (String::from_str("gamma_r"), 0x3FB999999999999A)];
        assert(params_view(p2@) =~= seq![("saturation"@, 0x0000000000000000), ("contrast"@, 0x3FF8000000000000), ("gamma_r"@, 0x3FB999999999999A)]);
        let g2 = Self::builtin_grade("High Contrast BW", "bw", p2);
        let ghost v2 = g2.view_of();
        assert(v2.tags =~= Seq::<Seq<char>>::empty());
        assert(is_builtin_grade(v2, 2));
        self.add(g2);
        let ghost m3 = self@;
        let p3: Vec<(String, u64)> = vec![(String::from_str("saturation"), 0x3FE6666666666666), (String::from_str("contrast"), 0x3FEB333333333333), (String::from_str("lift_r"), 0x3FA999999999999A), (String::from_str("lift_g"), 0x3FA47AE147AE147B), (String::from_str("lift_b"), 0x3FAEB851EB851EB8)];
        assert(params_view(p3@) =~= seq![("saturation"@, 0x3FE6666666666666), ("contrast"@, 0x3FEB333333333333), ("lift_r"@, 0x3FA999999999999A), ("lift_g"@, 0x3FA47AE147AE147B), ("lift_b"@, 0x3FAEB851EB851EB8)]);
        let g3 = Self::builtin_grade("Soft Pastel", "soft", p3);
        let ghost v3 = g3.view_of();
        assert(v3.tags =~= Seq::<Seq<char>>::empty());
        assert(is_builtin_grade(v3, 3));
        self.add(g3);
        let ghost m4 = self@;
        let ghost ps = seq![v0, v1, v2, v3];
        assert(ps.drop_last() =~= seq![v0, v1, v2]);
        assert(seq![v0, v1, v2].drop_last() =~= seq![v0, v1]);
        assert(seq![v0, v1].drop_last() =~= seq![v0]);
        assert(seq![v0].drop_last() =~= Seq::<PresetView>::empty());
        assert(after_adds(m0, Seq::<PresetView>::empty()) == m0);
        assert(after_adds(m0, seq![v0]) == m1);
        assert(after_adds(m0, seq![v0, v1]) == m2);
        assert(after_adds(m0, seq![v0, v1, v2]) == m3);
        assert(after_adds(m0, ps) == m4);
        assert(forall|k: int| 0 <= k < ps.len() ==> #[trigger] is_builtin_grade(ps[k], k)) by {
            assert(ps[0] == v0 && ps[1] == v1 && ps[2] == v2 && ps[3] == v3);
        }
        assert(ps.len() == builtin_grades().len());
    }

    /// The preset stored under `id`, if any.
    pub fn get(&self, id: &str) -> (r: Option<&Preset>)
        ensures
            ({
                let i = key_position(self@.keys, id@);
                &&& i == self@.keys.len() ==> r is None
                &&& i < self@.keys.len() ==> (r matches Some(p) && p.view_of() == self@.presets[i])
            }),
    {
        match self.find(id) {
            Some(i) => Some(&self.entries[i].1),
            None => None,
        }
    }

    /// The preset stored under `id`, to be changed in place, if any.
    pub fn get_mut(&mut self, id: &str) -> (r: Option<&mut Preset>)
        ensures
            ({
                let i = key_position(old(self)@.keys, id@);
                &&& i == old(self)@.keys.len() ==> (r is None && final(self)@ == old(self)@)
                &&& i < old(self)@.keys.len() ==> (r matches Some(p) && p.view_of() == old(self)@.presets[i]
                    && final(self)@.keys == old(self)@.keys
                    && final(self)@.presets == old(self)@.presets.update(i, final(p).view_of()))
            }),
    {
        match self.find(id) {
            Some(i) => Some(&mut self.entries[i].1),
            None => None,
        }
    }

    /// Removes the preset stored under `id` and returns it, if any.
    pub fn remove(&mut self, id: &str) -> (r: Option<Preset>)
        ensures
            ({
                let i = key_position(old(self)@.keys, id@);
                &&& i == old(self)@.keys.len() ==> (r is None && final(self)@ == old(self)@)
                &&& i < old(self)@.keys.len() ==> (r matches Some(p) && p.view_of() == old(self)@.presets[i])
                &&& i < old(self)@.keys.len() ==> final(self)@ == (PresetManagerView {
                    keys: old(self)@.keys.remove(i),
                    presets: old(self)@.presets.remove(i),
                })
            }),
            keys_unique(old(self)@.keys) ==> keys_unique(final(self)@.keys),
    {
        let ghost before = self@;
        match self.find(id) {
            Some(i) => {
                let (_, p) = self.entries.remove(i);
                assert(self@.keys =~= before.keys.remove(i as int));
                assert(self@.presets =~= before.presets.remove(i as int));
                proof { lemma_remove_key(before.keys, i as int); }
                Some(p)
            },
            None => None,
        }
    }

    /// The presets of a type, in storage order.
    pub fn by_type(&self, preset_type: PresetType) -> (r: Vec<&Preset>)
        ensures
            preset_refs_view(r@) == presets_of_type(self@.presets, preset_type),
    {
        let ghost s = self@.presets;
        let mut out: Vec<&Preset> = Vec::new();
        let mut i: usize = 0;
        while i < self.entries.len()
            invariant
                s == self@.presets,
                s.len() == self.entries@.len(),
                i <= s.len(),
                preset_refs_view(out@) == presets_of_type(s.take(i as int), preset_type),
            decreases s.len() - i,
        {
            proof {
                assert(s.take(i as int + 1).drop_last() =~= s.take(i as int));
                reveal(Seq::filter);
            }
            if self.entries[i].1.preset_type == preset_type {
                out.push(&self.entries[i].1);
            }
            assert(preset_refs_view(out@) =~= presets_of_type(s.take(i as int + 1), preset_type));
            i = i + 1;
        }
        assert(s.take(i as int) =~= s);
        out
    }

    /// The presets of a category, in storage order.
    pub fn by_category(&self, category: &str) -> (r: Vec<&Preset>)
        ensures
            preset_refs_view(r@) == presets_in_category(self@.presets, category@),
    {
        let ghost s = self@.presets;
        let mut out: Vec<&Preset> = Vec::new();
        let mut i: usize = 0;
        while i < self.entries.len()
            invariant
                s == self@.presets,
                s.len() == self.entries@.len(),
                i <= s.len(),
                preset_refs_view(out@) == presets_in_category(s.take(i as int), category@),
            decreases s.len() - i,
        {
            proof {
                assert(s.take(i as int + 1).drop_last() =~= s.take(i as int));
                reveal(Seq::filter);
            }
            if str_equals(self.entries[i].1.category.as_str(), category) {
                out.push(&self.entries[i].1);
            }
            assert(preset_refs_view(out@) =~= presets_in_category(s.take(i as int + 1), category@));
            i = i + 1;
        }
        assert(s.take(i as int) =~= s);
        out
    }

    /// The favorite presets, in storage order.
    pub fn favorites(&self) -> (r: Vec<&Preset>)
        ensures
            preset_refs_view(r@) == favorite_presets(self@.presets),
    {
        let ghost s = self@.presets;
        let mut out: Vec<&Preset> = Vec::new();
        let mut i: usize = 0;
        while i < self.entries.len()
            invariant
                s == self@.presets,
                s.len() == self.entries@.len(),
                i <= s.len(),
                preset_refs_view(out@) == favorite_presets(s.take(i as int)),
            decreases s.len() - i,
        {
            proof {
                assert(s.take(i as int + 1).drop_last() =~= s.take(i as int));
                reveal(Seq::filter);
            }
            if self.entries[i].1.is_favorite {
                out.push(&self.entries[i].1);
            }
            assert(preset_refs_view(out@) =~= favorite_presets(s.take(i as int + 1)));
            i = i + 1;
        }
        assert(s.take(i as int) =~= s);
        out
    }

    /// The presets whose name, description or a tag contains `query`,
    /// ignoring case, in storage order.
    pub fn search(&self, query: &str) -> (r: Vec<&Preset>)
        ensures
            preset_refs_view(r@) == presets_matching(self@.presets, unicode_lowercase(query@)),
    {
        let q = to_lowercase(query);
        let ghost s = self@.presets;
        let mut out: Vec<&Preset> = Vec::new();
        let mut i: usize = 0;
        while i < self.entries.len()
            invariant
                s == self@.presets,
                s.len() == self.entries@.len(),
                q@ == unicode_lowercase(query@),
                i <= s.len(),
                preset_refs_view(out@) == presets_matching(s.take(i as int), q@),
            decreases s.len() - i,
        {
            proof {
                assert(s.take(i as int + 1).drop_last() =~= s.take(i as int));
                reveal(Seq::filter);
            }
            if self.entries[i].1.matches(q.as_str()) {
                out.push(&self.entries[i].1);
            }
            assert(preset_refs_view(out@) =~= presets_matching(s.take(i as int + 1), q@));
            i = i + 1;
        }
        assert(s.take(i as int) =~= s);
        out
    }

    /// The number of presets.
    pub fn count(&self) -> (r: usize)
        ensures
            r == self@.presets.len(),
    {
        self.entries.len()
    }
}

/// After a preset is stored, looking up its id finds it.
pub proof fn lemma_add_then_get(m: PresetManagerView, p: PresetView)
    requires
        m.keys.len() == m.presets.len(),
    ensures
        key_position(after_add(m, p).keys, p.id) < after_add(m, p).keys.len(),
        after_add(m, p).presets[key_position(after_add(m, p).keys, p.id)] == p,
{
    let n = m.keys.len() as int;
    let old_keys = m.keys;
    let id = p.id;
    let found = |j: int| is_key(old_keys, j, id);
    crate::effects::lemma_first_where_bounds(n, found);
    assert(key_position(old_keys, id) == first_where(n, found));
    if key_position(m.keys, p.id) == n {
        let keys = m.keys.push(p.id);
        let q = |j: int| is_key(keys, j, id);
        assert forall|j: int| 0 <= j < n implies !#[trigger] q(j) by {
            assert(!found(j));
        }
        lemma_first_where(n + 1, q, n);
        assert(key_position(keys, id) == first_where(n + 1, q));
    }
}

/// With unique keys, after the preset stored under an id is removed,
/// looking up the id finds nothing.
pub proof fn lemma_remove_then_get(m: PresetManagerView, id: Seq<char>)
    requires
        keys_unique(m.keys),
        key_position(m.keys, id) < m.keys.len(),
    ensures
        key_position(m.keys.remove(key_position(m.keys, id)), id) == m.keys.len() - 1,
{
    let n = m.keys.len() as int;
    let i = key_position(m.keys, id);
    let keys = m.keys;
    let found = |j: int| is_key(keys, j, id);
    crate::effects::lemma_first_where_bounds(n, found);
    assert(i == first_where(n, found));
    let rest = m.keys.remove(i);
    let q = |j: int| is_key(rest, j, id);
    assert forall|j: int| 0 <= j < n - 1 implies !#[trigger] q(j) by {
        let k = if j < i { j } else { j + 1 };
        assert(rest[j] == m.keys[k]);
        assert(m.keys[i] == id);
    }
    lemma_first_where(n - 1, q, n - 1);
    assert(key_position(rest, id) == first_where(n - 1, q));
}

/// After a parameter is set, reading it gives the value set.
pub proof fn lemma_set_param_then_get(ps: Seq<(Seq<char>, u64)>, key: Seq<char>, value: u64)
    ensures
        param_position(param_set(ps, key, value), key) < param_set(ps, key, value).len(),
        param_set(ps, key, value)[param_position(param_set(ps, key, value), key)].1 == value,
{
    let n = ps.len() as int;
    let found = |j: int| names_param(ps, j, key);
    crate::effects::lemma_first_where_bounds(n, found);
    assert(param_position(ps, key) == first_where(n, found));
    let i = param_position(ps, key);
    let set = param_set(ps, key, value);
    let q = |j: int| names_param(set, j, key);
    if i < n {
        assert forall|j: int| 0 <= j < i implies !#[trigger] q(j) by {
            assert(!found(j));
        }
        lemma_first_where(set.len() as int, q, i);
    } else {
        assert forall|j: int| 0 <= j < n implies !#[trigger] q(j) by {
            assert(!found(j));
        }
        lemma_first_where(set.len() as int, q, n);
    }
    assert(param_position(set, key) == first_where(set.len() as int, q));
}

/// When no key equals `id`, adding `id` keeps unique keys unique.
proof fn lemma_push_new_key(keys: Seq<Seq<char>>, id: Seq<char>)
    requires
        forall|j: int| 0 <= j < keys.len() ==> keys[j] != id,
    ensures
        keys_unique(keys) ==> keys_unique(keys.push(id)),
{
    if keys_unique(keys) {
        let t = keys.push(id);
        assert forall|i: int, j: int| 0 <= i < j < t.len() implies t[i] != t[j] by {
            if j == keys.len() {
                assert(t[i] == keys[i]);
            } else {
                assert(t[i] == keys[i] && t[j] == keys[j]);
            }
        }
    }
}

/// Removing a key keeps unique keys unique.
proof fn lemma_remove_key(keys: Seq<Seq<char>>, i: int)
    requires
        0 <= i < keys.len(),
    ensures
        keys_unique(keys) ==> keys_unique(keys.remove(i)),
{
    if keys_unique(keys) {
        let t = keys.remove(i);
        assert forall|a: int, b: int| 0 <= a < b < t.len() implies t[a] != t[b] by {
            let a2 = if a < i { a } else { a + 1 };
            let b2 = if b < i { b } else { b + 1 };
            assert(t[a] == keys[a2] && t[b] == keys[b2]);
        }
    }
}

} // verus!
