//! Custom workspaces: panel layouts, keyboard shortcut bindings and user
//! preferences.
//!
//! Panel size ratios and the default frame rate are held as the bits of
//! `f32` and `f64` values.

use vstd::prelude::*;
use crate::effects::{first_where, lemma_first_where};
use crate::project::{is_uuid_v4_text, new_uuid_v4_text};
use crate::text::str_equals;

verus! {

/// Position of a panel in the workspace.
#[derive(Debug, Clone, Copy, PartialEq, Eq, Structural)]
pub enum PanelPosition {
    Left,
    Right,
    Top,
    Bottom,
    Center,
    Floating,
}

/// A panel in the workspace layout.
#[derive(Debug, Clone)]
pub struct WorkspacePanel {
    pub panel_id: String,
    pub panel_name: String,
    pub position: PanelPosition,
    /// Width relative to the container (0 to 1), as the bits of an `f32`.
    pub width_ratio_bits: u32,
    /// Height relative to the container (0 to 1), as the bits of an `f32`.
    pub height_ratio_bits: u32,
    pub is_collapsed: bool,
    pub tab_index: u32,
}

/// A panel as the contracts see it.
pub struct PanelView {
    pub panel_id: Seq<char>,
    pub panel_name: Seq<char>,
    pub position: PanelPosition,
    pub width_ratio_bits: u32,
    pub height_ratio_bits: u32,
    pub is_collapsed: bool,
    pub tab_index: u32,
}

impl WorkspacePanel {
    /// The panel as the contracts see it.
    pub open spec fn view_of(self) -> PanelView {
        PanelView {
            panel_id: self.panel_id@,
            panel_name: self.panel_name@,
            position: self.position,
            width_ratio_bits: self.width_ratio_bits,
            height_ratio_bits: self.height_ratio_bits,
            is_collapsed: self.is_collapsed,
            tab_index: self.tab_index,
        }
    }
}

/// The views of a list of panels.
pub open spec fn panels_view(ps: Seq<WorkspacePanel>) -> Seq<PanelView> {
    Seq::new(ps.len(), |i: int| ps[i].view_of())
}

/// The views of a list of borrowed panels.
pub open spec fn panel_refs_view(ps: Seq<&WorkspacePanel>) -> Seq<PanelView> {
    Seq::new(ps.len(), |i: int| ps[i].view_of())
}

/// The position of the first panel with this id (the length when none).
pub open spec fn panel_position(ps: Seq<PanelView>, id: Seq<char>) -> int {
    first_where(ps.len() as int, |i: int| ps[i].panel_id == id)
}

/// The panels at a position, in layout order.
pub open spec fn panels_placed(ps: Seq<PanelView>, position: PanelPosition) -> Seq<PanelView> {
    ps.filter(|p: PanelView| p.position == position)
}

/// The `f32` 0.25.
pub const RATIO_QUARTER: u32 = 0x3E80_0000;
/// The `f32` 0.3.
pub const RATIO_0_30: u32 = 0x3E99_999A;
/// The `f32` 0.35.
pub const RATIO_0_35: u32 = 0x3EB3_3333;
/// The `f32` 0.45.
pub const RATIO_0_45: u32 = 0x3EE6_6666;
/// The `f32` 0.5.
pub const RATIO_HALF: u32 = 0x3F00_0000;
/// The `f32` 0.65.
pub const RATIO_0_65: u32 = 0x3F26_6666;
/// The `f32` 0.7.
pub const RATIO_0_70: u32 = 0x3F33_3333;
/// The `f32` 1.0.
pub const RATIO_FULL: u32 = 0x3F80_0000;

/// An expanded panel on the first tab.
pub open spec fn panel_spec(id: Seq<char>, name: Seq<char>, position: PanelPosition, w: u32, h: u32) -> PanelView {
    PanelView {
        panel_id: id,
        panel_name: name,
        position,
        width_ratio_bits: w,
        height_ratio_bits: h,
        is_collapsed: false,
        tab_index: 0,
    }
}

/// An expanded panel on the first tab, built.
fn panel(id: &str, name: &str, position: PanelPosition, w: u32, h: u32) -> (r: WorkspacePanel)
    ensures
        r.view_of() == panel_spec(id@, name@, position, w, h),
{
    WorkspacePanel {
        panel_id: String::from_str(id),
        panel_name: String::from_str(name),
        position,
        width_ratio_bits: w,
        height_ratio_bits: h,
        is_collapsed: false,
        tab_index: 0,
    }
}

/// A complete workspace layout.
#[derive(Debug, Clone)]
pub struct WorkspaceLayout {
    pub id: String,
    pub name: String,
    pub panels: Vec<WorkspacePanel>,
    pub is_builtin: bool,
}

/// The panels of the built-in Edit layout: inspector, timeline, preview,
/// effects.
pub open spec fn edit_panels() -> Seq<PanelView> {
    seq![
        panel_spec("inspector"@, "Inspector"@, PanelPosition::Right, RATIO_QUARTER, RATIO_FULL),
        panel_spec("timeline"@, "Timeline"@, PanelPosition::Bottom, RATIO_FULL, RATIO_0_35),
        panel_spec("preview"@, "Preview"@, PanelPosition::Center, RATIO_HALF, RATIO_0_65),
        panel_spec("effects"@, "Effects"@, PanelPosition::Left, RATIO_QUARTER, RATIO_FULL),
    ]
}

/// The panels of the built-in Color layout: grading, scopes, preview,
/// timeline.
pub open spec fn color_panels() -> Seq<PanelView> {
    seq![
        panel_spec("color_grading"@, "Color Grading"@, PanelPosition::Right, RATIO_0_30, RATIO_FULL),
        panel_spec("scopes"@, "Scopes"@, PanelPosition::Left, RATIO_QUARTER, RATIO_FULL),
        panel_spec("preview"@, "Preview"@, PanelPosition::Center, RATIO_0_45, RATIO_0_65),
        panel_spec("timeline"@, "Timeline"@, PanelPosition::Bottom, RATIO_FULL, RATIO_0_35),
    ]
}

/// The panels of the built-in Audio layout: mixer, waveform, timeline.
pub open spec fn audio_panels() -> Seq<PanelView> {
    seq![
        panel_spec("mixer"@, "Mixer"@, PanelPosition::Right, RATIO_0_30, RATIO_FULL),
        panel_spec("waveform"@, "Waveform"@, PanelPosition::Center, RATIO_0_70, RATIO_0_65),
        panel_spec("timeline"@, "Timeline"@, PanelPosition::Bottom, RATIO_FULL, RATIO_0_35),
    ]
}

impl WorkspaceLayout {
    /// Creates an empty user layout with a fresh random id.
    pub fn new(name: &str) -> (r: Self)
        ensures
            is_uuid_v4_text(r.id@),
            r.name@ == name@,
            r.panels@.len() == 0,
            !r.is_builtin,
    {
        WorkspaceLayout { id: new_uuid_v4_text(), name: String::from_str(name), panels: Vec::new(), is_builtin: false }
    }

    /// Adds a panel at the end of the layout.
    pub fn add_panel(&mut self, panel: WorkspacePanel)
        ensures
            final(self).id == old(self).id,
            final(self).name == old(self).name,
            final(self).is_builtin == old(self).is_builtin,
            final(self).panels@ == old(self).panels@.push(panel),
    {
        self.panels.push(panel);
    }

    /// The first panel with this id, if any.
    pub fn get_panel(&self, id: &str) -> (r: Option<&WorkspacePanel>)
        ensures
            ({
                let ps = panels_view(self.panels@);
                let i = panel_position(ps, id@);
                &&& i == ps.len() ==> r is None
                &&& i < ps.len() ==> (r matches Some(p) && p.view_of() == ps[i])
            }),
    {
        let ghost ps = panels_view(self.panels@);
        let ghost p = |i: int| ps[i].panel_id == id@;
        let mut i: usize = 0;
        while i < self.panels.len()
            invariant
                ps == panels_view(self.panels@),
                p == (|i: int| ps[i].panel_id == id@),
                i <= self.panels@.len(),
                forall|j: int| 0 <= j < i ==> !#[trigger] p(j),
            decreases self.panels@.len() - i,
        {
            if str_equals(self.panels[i].panel_id.as_str(), id) {
                proof { lemma_first_where(ps.len() as int, p, i as int); }
                return Some(&self.panels[i]);
            }
            i = i + 1;
        }
        proof { lemma_first_where(ps.len() as int, p, i as int); }
        None
    }

    /// The panels at a position, in layout order.
    pub fn panels_at(&self, position: PanelPosition) -> (r: Vec<&WorkspacePanel>)
        ensures
            panel_refs_view(r@) == panels_placed(panels_view(self.panels@), position),
    {
        let ghost s = panels_view(self.panels@);
        let mut out: Vec<&WorkspacePanel> = Vec::new();
        let mut i: usize = 0;
        while i < self.panels.len()
            invariant
                s == panels_view(self.panels@),
                i <= s.len(),
                panel_refs_view(out@) == panels_placed(s.take(i as int), position),
            decreases s.len() - i,
        {
            proof {
                assert(s.take(i as int + 1).drop_last() =~= s.take(i as int));
                reveal(Seq::filter);
            }
            if self.panels[i].position == position {
                out.push(&self.panels[i]);
            }
            assert(panel_refs_view(out@) =~= panels_placed(s.take(i as int + 1), position));
            i = i + 1;
        }
        assert(s.take(i as int) =~= s);
        out
    }

    /// Built-in "Edit" workspace layout.
    pub fn edit_layout() -> (r: Self)
        ensures
            r.id@ == "builtin_edit"@,
            r.name@ == "Edit"@,
            r.is_builtin,
            panels_view(r.panels@) == edit_panels(),
    {
        let mut layout = WorkspaceLayout {
            id: String::from_str("builtin_edit"),
            name: String::from_str("Edit"),
            panels: Vec::new(),
            is_builtin: true,
        };
        layout.add_panel(panel("inspector", "Inspector", PanelPosition::Right, RATIO_QUARTER, RATIO_FULL));
        layout.add_panel(panel("timeline", "Timeline", PanelPosition::Bottom, RATIO_FULL, RATIO_0_35));
        layout.add_panel(panel("preview", "Preview", PanelPosition::Center, RATIO_HALF, RATIO_0_65));
        layout.add_panel(panel("effects", "Effects", PanelPosition::Left, RATIO_QUARTER, RATIO_FULL));
        assert(panels_view(layout.panels@) =~= edit_panels());
        layout
    }

    /// Built-in "Color" workspace layout.
    pub fn color_layout() -> (r: Self)
        ensures
            r.id@ == "builtin_color"@,
            r.name@ == "Color"@,
            r.is_builtin,
            panels_view(r.panels@) == color_panels(),
    {
        let mut layout = WorkspaceLayout {
            id: String::from_str("builtin_color"),
            name: String::from_str("Color"),
            panels: Vec::new(),
            is_builtin: true,
        };
        layout.add_panel(panel("color_grading", "Color Grading", PanelPosition::Right, RATIO_0_30, RATIO_FULL));
        layout.add_panel(panel("scopes", "Scopes", PanelPosition::Left, RATIO_QUARTER, RATIO_FULL));
        layout.add_panel(panel("preview", "Preview", PanelPosition::Center, RATIO_0_45, RATIO_0_65));
        layout.add_panel(panel("timeline", "Timeline", PanelPosition::Bottom, RATIO_FULL, RATIO_0_35));
        assert(panels_view(layout.panels@) =~= color_panels());
        layout
    }

    /// Built-in "Audio" workspace layout.
    pub fn audio_layout() -> (r: Self)
        ensures
            r.id@ == "builtin_audio"@,
            r.name@ == "Audio"@,
            r.is_builtin,
            panels_view(r.panels@) == audio_panels(),
    {
        let mut layout = WorkspaceLayout {
            id: String::from_str("builtin_audio"),
            name: String::from_str("Audio"),
            panels: Vec::new(),
            is_builtin: true,
        };
        layout.add_panel(panel("mixer", "Mixer", PanelPosition::Right, RATIO_0_30, RATIO_FULL));
        layout.add_panel(panel("waveform", "Waveform", PanelPosition::Center, RATIO_0_70, RATIO_0_65));
        layout.add_panel(panel("timeline", "Timeline", PanelPosition::Bottom, RATIO_FULL, RATIO_0_35));
        assert(panels_view(layout.panels@) =~= audio_panels());
        layout
    }
}

/// Keyboard shortcut binding.
#[derive(Debug, Clone)]
pub struct KeyBinding {
    pub action: String,
    /// e.g. "Ctrl+S".
    pub key: String,
    /// e.g. "global", "timeline", "preview".
    pub context: String,
    pub description: String,
}

/// The text of a key binding.
pub struct KeyBindingView {
    pub action: Seq<char>,
    pub key: Seq<char>,
    pub context: Seq<char>,
    pub description: Seq<char>,
}

impl KeyBinding {
    /// The texts of the binding.
    pub open spec fn view_of(self) -> KeyBindingView {
        KeyBindingView { action: self.action@, key: self.key@, context: self.context@, description: self.description@ }
    }
}

/// The texts of a list of bindings.
pub open spec fn bindings_view(bs: Seq<KeyBinding>) -> Seq<KeyBindingView> {
    Seq::new(bs.len(), |i: int| bs[i].view_of())
}

/// The position of the first binding for `action` (the length when none).
pub open spec fn binding_position(v: Seq<KeyBindingView>, action: Seq<char>) -> int
    decreases v.len(),
{
    if v.len() == 0 {
        0
    } else if binding_position(v.drop_last(), action) < v.len() - 1 {
        binding_position(v.drop_last(), action)
    } else if v.last().action == action {
        v.len() - 1
    } else {
        v.len() as int
    }
}

/// The bindings after binding `action` to `key`: the first binding of the
/// action gets the key; when there is none, a global binding without
/// description is added at the end.
pub open spec fn with_binding(v: Seq<KeyBindingView>, action: Seq<char>, key: Seq<char>) -> Seq<KeyBindingView> {
    let p = binding_position(v, action);
    if p < v.len() {
        v.update(p, KeyBindingView { key: key, ..v[p] })
    } else {
        v.push(KeyBindingView { action: action, key: key, context: "global"@, description: Seq::empty() })
    }
}

proof fn lemma_binding_position(v: Seq<KeyBindingView>, action: Seq<char>)
    ensures
        0 <= binding_position(v, action) <= v.len(),
        binding_position(v, action) < v.len() ==> v[binding_position(v, action)].action == action,
        forall|j: int| 0 <= j < binding_position(v, action) ==> v[j].action != action,
    decreases v.len(),
{
    if v.len() > 0 {
        let u = v.drop_last();
        lemma_binding_position(u, action);
        assert forall|j: int| 0 <= j < binding_position(v, action) implies v[j].action != action by {
            if j < v.len() - 1 {
                assert(u[j] == v[j]);
            }
        }
    }
}

proof fn lemma_binding_position_unique(v: Seq<KeyBindingView>, action: Seq<char>, p: int)
    requires
        0 <= p <= v.len(),
        p < v.len() ==> v[p].action == action,
        forall|j: int| 0 <= j < p ==> v[j].action != action,
    ensures
        binding_position(v, action) == p,
{
    lemma_binding_position(v, action);
    let q = binding_position(v, action);
    if q < p {
        assert(v[q].action != action);
    } else if p < q {
        assert(v[p].action != action);
    }
}

/// Finds the binding of `action`: the first one in the list.
fn find_binding<'a>(bindings: &'a Vec<KeyBinding>, action: &str) -> (r: Option<&'a KeyBinding>)
    ensures
        binding_position(bindings_view(bindings@), action@) < bindings@.len() ==> (r matches Some(b)
            && *b == bindings@[binding_position(bindings_view(bindings@), action@)]),
        binding_position(bindings_view(bindings@), action@) == bindings@.len() ==> r is None,
{
    let ghost v = bindings_view(bindings@);
    let mut i: usize = 0;
    while i < bindings.len()
        invariant
            v == bindings_view(bindings@),
            i <= bindings@.len(),
            forall|j: int| 0 <= j < i ==> #[trigger] v[j].action != action@,
        decreases bindings@.len() - i,
    {
        if str_equals(bindings[i].action.as_str(), action) {
            proof {
                lemma_binding_position_unique(v, action@, i as int);
            }
            return Some(&bindings[i]);
        }
        i = i + 1;
    }
    proof {
        lemma_binding_position_unique(v, action@, i as int);
    }
    None
}

/// Binds `action` to `key`: changes the key of the action's first binding,
/// or adds a global binding for it when it has none.
fn set_binding(bindings: &mut Vec<KeyBinding>, action: &str, key: &str)
    ensures
        bindings_view(final(bindings)@) == with_binding(bindings_view(old(bindings)@), action@, key@),
{
    let ghost v = bindings_view(bindings@);
    let mut i: usize = 0;
    while i < bindings.len()
        invariant
            v == bindings_view(old(bindings)@),
            bindings@ == old(bindings)@,
            i <= bindings@.len(),
            forall|j: int| 0 <= j < i ==> #[trigger] v[j].action != action@,
        decreases bindings@.len() - i,
    {
        if str_equals(bindings[i].action.as_str(), action) {
            proof {
                lemma_binding_position_unique(v, action@, i as int);
            }
            let old_b = &bindings[i];
            let nb = KeyBinding {
                action: old_b.action.clone(),
                key: String::from_str(key),
                context: old_b.context.clone(),
                description: old_b.description.clone(),
            };
            bindings.set(i, nb);
            assert(bindings_view(bindings@) =~= with_binding(v, action@, key@));
            return;
        }
        i = i + 1;
    }
    proof {
        lemma_binding_position_unique(v, action@, i as int);
    }
    bindings.push(KeyBinding {
        action: String::from_str(action),
        key: String::from_str(key),
        context: String::from_str("global"),
        description: String::new(),
    });
    assert(bindings_view(bindings@) =~= with_binding(v, action@, key@));
}

/// The default shortcut table.
pub open spec fn default_bindings_view() -> Seq<KeyBindingView> {
    seq![
        KeyBindingView { action: "save"@, key: "Ctrl+S"@, context: "global"@, description: "Save project"@ },
        KeyBindingView { action: "undo"@, key: "Ctrl+Z"@, context: "global"@, description: "Undo"@ },
        KeyBindingView { action: "redo"@, key: "Ctrl+Shift+Z"@, context: "global"@, description: "Redo"@ },
        KeyBindingView { action: "play_pause"@, key: "Space"@, context: "global"@, description: "Play/Pause"@ },
        KeyBindingView { action: "split"@, key: "S"@, context: "timeline"@, description: "Split clip"@ },
        KeyBindingView { action: "delete"@, key: "Delete"@, context: "timeline"@, description: "Delete selection"@ },
        KeyBindingView { action: "copy"@, key: "Ctrl+C"@, context: "global"@, description: "Copy"@ },
        KeyBindingView { action: "paste"@, key: "Ctrl+V"@, context: "global"@, description: "Paste"@ },
        KeyBindingView { action: "zoom_in"@, key: "Ctrl+="@, context: "timeline"@, description: "Zoom in"@ },
        KeyBindingView { action: "zoom_out"@, key: "Ctrl+-"@, context: "timeline"@, description: "Zoom out"@ },
        KeyBindingView { action: "add_marker"@, key: "M"@, context: "timeline"@, description: "Add marker"@ },
        KeyBindingView { action: "export"@, key: "Ctrl+E"@, context: "global"@, description: "Export"@ },
    ]
}

fn binding(action: &str, key: &str, context: &str, description: &str) -> (b: KeyBinding)
    ensures
        b.view_of() == (KeyBindingView { action: action@, key: key@, context: context@, description: description@ }),
{
    KeyBinding {
        action: String::from_str(action),
        key: String::from_str(key),
        context: String::from_str(context),
        description: String::from_str(description),
    }
}

/// The default shortcut table: save, undo, redo, play/pause, split, delete,
/// copy, paste, zoom, markers and export.
fn default_key_bindings() -> (r: Vec<KeyBinding>)
    ensures
        bindings_view(r@) == default_bindings_view(),
{
    let mut r: Vec<KeyBinding> = Vec::new();
    r.push(binding("save", "Ctrl+S", "global", "Save project"));
    r.push(binding("undo", "Ctrl+Z", "global", "Undo"));
    r.push(binding("redo", "Ctrl+Shift+Z", "global", "Redo"));
    r.push(binding("play_pause", "Space", "global", "Play/Pause"));
    r.push(binding("split", "S", "timeline", "Split clip"));
    r.push(binding("delete", "Delete", "timeline", "Delete selection"));
    r.push(binding("copy", "Ctrl+C", "global", "Copy"));
    r.push(binding("paste", "Ctrl+V", "global", "Paste"));
    r.push(binding("zoom_in", "Ctrl+=", "timeline", "Zoom in"));
    r.push(binding("zoom_out", "Ctrl+-", "timeline", "Zoom out"));
    r.push(binding("add_marker", "M", "timeline", "Add marker"));
    r.push(binding("export", "Ctrl+E", "global", "Export"));
    assert(bindings_view(r@) =~= default_bindings_view());
    r
}

/// After binding an action to a key, looking the action up finds a binding
/// with that key.
pub proof fn lemma_set_then_find(v: Seq<KeyBindingView>, action: Seq<char>, key: Seq<char>)
    ensures
        binding_position(with_binding(v, action, key), action) < with_binding(v, action, key).len(),
        with_binding(v, action, key)[binding_position(with_binding(v, action, key), action)].key == key,
{
    lemma_binding_position(v, action);
    let p = binding_position(v, action);
    let w = with_binding(v, action, key);
    if p < v.len() {
        lemma_binding_position_unique(w, action, p);
    } else {
        lemma_binding_position_unique(w, action, v.len() as int);
    }
}

/// Binding an action leaves the bindings of every other action as they
/// were: their first binding has the same texts.
pub proof fn lemma_set_keeps_others(v: Seq<KeyBindingView>, action: Seq<char>, key: Seq<char>, other: Seq<char>)
    requires
        other != action,
        binding_position(v, other) < v.len(),
    ensures
        binding_position(with_binding(v, action, key), other) == binding_position(v, other),
        with_binding(v, action, key)[binding_position(v, other)] == v[binding_position(v, other)],
{
    lemma_binding_position(v, action);
    lemma_binding_position(v, other);
    let w = with_binding(v, action, key);
    let q = binding_position(v, other);
    lemma_binding_position_unique(w, other, q);
}

/// The `f64` 30.0, the default frame rate.
pub const DEFAULT_FPS_BITS: u64 = 0x403E_0000_0000_0000;

/// User preferences.
#[derive(Debug)]
pub struct UserPreferences {
    /// "dark", "light" or "system".
    pub theme: String,
    /// ISO 639-1 language code.
    pub language: String,
    pub auto_save_interval_sec: u32,
    pub max_undo_levels: u32,
    /// Default frame rate, as the bits of an `f64`.
    pub default_fps_bits: u64,
    pub default_resolution: (u32, u32),
    pub preview_quality: String,
    pub show_waveform: bool,
    pub show_scopes: bool,
    pub gpu_acceleration: bool,
    pub proxy_mode: String,
    pub key_bindings: Vec<KeyBinding>,
}

impl Default for UserPreferences {
    /// Dark theme in English, auto-save every 2 minutes, 100 undo levels,
    /// 1080p at 30 fps, medium preview quality, waveforms and GPU on,
    /// scopes off, automatic proxies, and the default shortcut table.
    fn default() -> (r: Self)
        ensures
            r.theme@ == "dark"@,
            r.language@ == "en"@,
            r.auto_save_interval_sec == 120,
            r.max_undo_levels == 100,
            r.default_fps_bits == DEFAULT_FPS_BITS,
            r.default_resolution == (1920u32, 1080u32),
            r.preview_quality@ == "medium"@,
            r.show_waveform,
            !r.show_scopes,
            r.gpu_acceleration,
            r.proxy_mode@ == "auto"@,
            bindings_view(r.key_bindings@) == default_bindings_view(),
    {
        UserPreferences {
            theme: String::from_str("dark"),
            language: String::from_str("en"),
            auto_save_interval_sec: 120,
            max_undo_levels: 100,
            default_fps_bits: DEFAULT_FPS_BITS,
            default_resolution: (1920, 1080),
            preview_quality: String::from_str("medium"),
            show_waveform: true,
            show_scopes: false,
            gpu_acceleration: true,
            proxy_mode: String::from_str("auto"),
            key_bindings: default_key_bindings(),
        }
    }
}

impl UserPreferences {
    /// The binding of `action`: the first one in the table.
    pub fn find_binding(&self, action: &str) -> (r: Option<&KeyBinding>)
        ensures
            binding_position(bindings_view(self.key_bindings@), action@) < self.key_bindings@.len() ==> (r matches Some(b)
                && *b == self.key_bindings@[binding_position(bindings_view(self.key_bindings@), action@)]),
            binding_position(bindings_view(self.key_bindings@), action@) == self.key_bindings@.len() ==> r is None,
    {
        find_binding(&self.key_bindings, action)
    }

    /// Binds `action` to `key`: changes the key of the action's first
    /// binding, or adds a global binding for it when it has none.
    pub fn set_binding(&mut self, action: &str, key: &str)
        ensures
            bindings_view(final(self).key_bindings@)
                == with_binding(bindings_view(old(self).key_bindings@), action@, key@),
            final(self).theme == old(self).theme,
            final(self).language == old(self).language,
            final(self).auto_save_interval_sec == old(self).auto_save_interval_sec,
            final(self).max_undo_levels == old(self).max_undo_levels,
            final(self).default_fps_bits == old(self).default_fps_bits,
            final(self).default_resolution == old(self).default_resolution,
            final(self).preview_quality == old(self).preview_quality,
            final(self).show_waveform == old(self).show_waveform,
            final(self).show_scopes == old(self).show_scopes,
            final(self).gpu_acceleration == old(self).gpu_acceleration,
            final(self).proxy_mode == old(self).proxy_mode,
    {
        set_binding(&mut self.key_bindings, action, key);
    }
}

} // verus!
