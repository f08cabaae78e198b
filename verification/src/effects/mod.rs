//! Effects: the effect records and their ordered pipeline, catalogs of
//! filters and colour tools, and the per-pixel routines that are integer
//! arithmetic.
//!
//! Parameter values are `f32` values held as their bits (see
//! `float_bits`); the pixel work of the effects is done by the caller.

pub mod color_match;
pub mod color_space;
pub mod compositing;
pub mod filters;
pub mod gpu_filters;
pub mod grain;
pub mod legalizer;
pub mod lut;
pub mod macro_system;
pub mod markers;
pub mod masking;
pub mod mixer_pro;
pub mod motion_tracking;
pub mod nested_sequence;
pub mod multicam;
pub mod noise_reduction;
pub mod preset;
pub mod retiming;
pub mod stabilization;
pub mod text_render;
pub mod transitions;
pub mod workspace;

use vstd::prelude::*;
use crate::float_bits::{f32_clamp, f32_clamp_bits, f32_range_ok};
use crate::project::{is_uuid_v4_text, new_uuid_v4_text};
use crate::text::str_equals;

verus! {

broadcast use vstd::seq_lib::to_multiset_insert;

/// Types of visual effects supported by the engine.
#[derive(Debug, Clone, Copy, PartialEq, Eq, Structural)]
pub enum EffectType {
    Filter,
    Transition,
    TextOverlay,
    ChromaKey,
    Masking,
    Compositing,
    NoiseReduction,
    LensCorrection,
    SpeedRamp,
    ColorSpace,
    FilmGrain,
}

/// The least `j` in `[i, n)` with `p(j)`, or `n` when there is none.
pub open spec fn first_from(i: int, n: int, p: spec_fn(int) -> bool) -> int
    decreases n - i,
{
    if i >= n {
        n
    } else if p(i) {
        i
    } else {
        first_from(i + 1, n, p)
    }
}

/// The least `i` in `[0, n)` with `p(i)`, or `n` when there is none.
pub open spec fn first_where(n: int, p: spec_fn(int) -> bool) -> int {
    first_from(0, n, p)
}

proof fn lemma_first_from(i: int, n: int, p: spec_fn(int) -> bool)
    requires
        0 <= i <= n,
    ensures
        i <= first_from(i, n, p) <= n,
        forall|j: int| i <= j < first_from(i, n, p) ==> !#[trigger] p(j),
        first_from(i, n, p) < n ==> p(first_from(i, n, p)),
    decreases n - i,
{
    if i < n && !p(i) {
        lemma_first_from(i + 1, n, p);
    }
}

/// `first_where` is the least index that satisfies `p`: `p` fails below
/// it and holds at it, unless it is `n`.
pub proof fn lemma_first_where_bounds(n: int, p: spec_fn(int) -> bool)
    requires
        0 <= n,
    ensures
        0 <= first_where(n, p) <= n,
        forall|j: int| 0 <= j < first_where(n, p) ==> !#[trigger] p(j),
        first_where(n, p) < n ==> p(first_where(n, p)),
{
    lemma_first_from(0, n, p);
}

/// `first_where` is `i` when `p` fails below `i` and holds at `i` (or `i`
/// is `n`).
pub proof fn lemma_first_where(n: int, p: spec_fn(int) -> bool, i: int)
    requires
        0 <= i <= n,
        forall|j: int| 0 <= j < i ==> !#[trigger] p(j),
        i < n ==> p(i),
    ensures
        first_where(n, p) == i,
{
    lemma_first_from(0, n, p);
    let k = first_where(n, p);
    if k < i {
        assert(!p(k));
    } else if k > i {
        assert(!p(i));
    }
}

/// An adjustable parameter of an effect. Its values are the bits of `f32`
/// values.
#[derive(Debug, Clone)]
pub struct EffectParameter {
    pub name: String,
    pub display_name: String,
    pub value_bits: u32,
    pub min_bits: u32,
    pub max_bits: u32,
    pub default_bits: u32,
    pub step_bits: u32,
}

/// An effect parameter as the contracts see it.
pub struct ParameterView {
    pub name: Seq<char>,
    pub display_name: Seq<char>,
    pub value_bits: u32,
    pub min_bits: u32,
    pub max_bits: u32,
    pub default_bits: u32,
    pub step_bits: u32,
}

impl EffectParameter {
    /// The parameter as the contracts see it.
    pub open spec fn view_of(self) -> ParameterView {
        ParameterView {
            name: self.name@,
            display_name: self.display_name@,
            value_bits: self.value_bits,
            min_bits: self.min_bits,
            max_bits: self.max_bits,
            default_bits: self.default_bits,
            step_bits: self.step_bits,
        }
    }

    /// Whether values can be clamped to the parameter's range.
    pub open spec fn has_valid_range(self) -> bool {
        f32_range_ok(self.min_bits, self.max_bits)
    }

    /// Creates a parameter with the value `value`, which is also its
    /// default; the range `[min, max]` bounds later values (`set_value`).
    pub fn new(name: &str, display_name: &str, value: u32, min: u32, max: u32, step: u32) -> (r: Self)
        ensures
            r.view_of() == (ParameterView {
                name: name@,
                display_name: display_name@,
                value_bits: value,
                min_bits: min,
                max_bits: max,
                default_bits: value,
                step_bits: step,
            }),
    {
        EffectParameter {
            name: String::from_str(name),
            display_name: String::from_str(display_name),
            value_bits: value,
            min_bits: min,
            max_bits: max,
            default_bits: value,
            step_bits: step,
        }
    }

    /// Sets the value, clamped to the parameter's range.
    pub fn set_value(&mut self, value: u32)
        requires
            old(self).has_valid_range(),
        ensures
            final(self).view_of() == (ParameterView {
                value_bits: f32_clamp(value, old(self).min_bits, old(self).max_bits),
                ..old(self).view_of()
            }),
    {
        self.value_bits = f32_clamp_bits(value, self.min_bits, self.max_bits);
    }

    /// Restores the default value.
    pub fn reset(&mut self)
        ensures
            final(self).view_of() == (ParameterView { value_bits: old(self).default_bits, ..old(self).view_of() }),
    {
        self.value_bits = self.default_bits;
    }
}

/// A visual effect applied to a clip.
#[derive(Debug, Clone)]
pub struct Effect {
    pub id: String,
    pub name: String,
    pub effect_type: EffectType,
    pub enabled: bool,
    pub order: u32,
    pub parameters: Vec<EffectParameter>,
}

/// An effect as the contracts see it.
pub struct EffectView {
    pub id: Seq<char>,
    pub name: Seq<char>,
    pub effect_type: EffectType,
    pub enabled: bool,
    pub order: u32,
    pub parameters: Seq<ParameterView>,
}

/// The views of a list of parameters.
pub open spec fn parameters_view(ps: Seq<EffectParameter>) -> Seq<ParameterView> {
    Seq::new(ps.len(), |i: int| ps[i].view_of())
}

/// The position of the first parameter named `name` (the length when
/// there is none).
pub open spec fn parameter_position(ps: Seq<ParameterView>, name: Seq<char>) -> int {
    first_where(ps.len() as int, |i: int| ps[i].name == name)
}

/// The message for a parameter that an effect does not have.
pub open spec fn missing_parameter_message(name: Seq<char>) -> Seq<char> {
    "Parameter '"@ + name + "' not found"@
}

impl Effect {
    /// The effect as the contracts see it.
    pub open spec fn view_of(self) -> EffectView {
        EffectView {
            id: self.id@,
            name: self.name@,
            effect_type: self.effect_type,
            enabled: self.enabled,
            order: self.order,
            parameters: parameters_view(self.parameters@),
        }
    }

    /// Whether every parameter has a range that values can be clamped to.
    pub open spec fn parameters_valid(self) -> bool {
        forall|i: int| 0 <= i < self.parameters@.len() ==> #[trigger] self.parameters@[i].has_valid_range()
    }

    /// Creates an enabled effect with a fresh random id, at order 0.
    pub fn new(name: &str, effect_type: EffectType, parameters: Vec<EffectParameter>) -> (r: Self)
        ensures
            is_uuid_v4_text(r.id@),
            r.name@ == name@,
            r.effect_type == effect_type,
            r.enabled,
            r.order == 0,
            r.parameters@ == parameters@,
    {
        Effect {
            id: new_uuid_v4_text(),
            name: String::from_str(name),
            effect_type,
            enabled: true,
            order: 0,
            parameters,
        }
    }

    /// Switches the effect on or off.
    pub fn toggle_enabled(&mut self)
        ensures
            final(self).view_of() == (EffectView { enabled: !old(self).enabled, ..old(self).view_of() }),
    {
        self.enabled = !self.enabled;
    }

    /// The index of the first parameter named `name`, if any.
    fn find_parameter(&self, name: &str) -> (r: Option<usize>)
        ensures
            match r {
                Some(i) => i == parameter_position(self.view_of().parameters, name@)
                    && i < self.parameters@.len(),
                None => parameter_position(self.view_of().parameters, name@) == self.parameters@.len(),
            },
    {
        let ghost ps = self.view_of().parameters;
        let ghost p = |i: int| ps[i].name == name@;
        let mut i: usize = 0;
        while i < self.parameters.len()
            invariant
                ps == parameters_view(self.parameters@),
                p == (|i: int| ps[i].name == name@),
                i <= self.parameters@.len(),
                forall|j: int| 0 <= j < i ==> !#[trigger] p(j),
            decreases self.parameters@.len() - i,
        {
            if str_equals(self.parameters[i].name.as_str(), name) {
                proof { lemma_first_where(ps.len() as int, p, i as int); }
                return Some(i);
            }
            i = i + 1;
        }
        proof { lemma_first_where(ps.len() as int, p, i as int); }
        None
    }

    /// Sets the first parameter named `name` to `value`, clamped to its
    /// range; an error when the effect has no such parameter.
    pub fn set_parameter(&mut self, name: &str, value: u32) -> (r: Result<(), String>)
        requires
            old(self).parameters_valid(),
        ensures
            ({
                let ps = old(self).view_of().parameters;
                let i = parameter_position(ps, name@);
                &&& i == ps.len() ==> (r matches Err(m) && m@ == missing_parameter_message(name@))
                &&& i == ps.len() ==> final(self).view_of() == old(self).view_of()
                &&& i < ps.len() ==> r is Ok
                &&& i < ps.len() ==> final(self).view_of() == (EffectView {
                    parameters: ps.update(i, ParameterView {
                        value_bits: f32_clamp(value, ps[i].min_bits, ps[i].max_bits),
                        ..ps[i]
                    }),
                    ..old(self).view_of()
                })
            }),
    {
        match self.find_parameter(name) {
            None => {
                let mut m = String::from_str("Parameter '");
                m.append(name);
                m.append("' not found");
                Err(m)
            },
            Some(i) => {
                let ghost before = self.parameters@;
                assert(before[i as int].has_valid_range());
                let mut p = self.parameters.remove(i);
                p.set_value(value);
                self.parameters.insert(i, p);
                assert(parameters_view(self.parameters@) =~= parameters_view(before).update(
                    i as int,
                    ParameterView {
                        value_bits: f32_clamp(value, before[i as int].min_bits, before[i as int].max_bits),
                        ..before[i as int].view_of()
                    },
                ));
                Ok(())
            },
        }
    }

    /// The value of the first parameter named `name`, if any.
    pub fn get_parameter(&self, name: &str) -> (r: Option<u32>)
        ensures
            ({
                let ps = self.view_of().parameters;
                let i = parameter_position(ps, name@);
                &&& i == ps.len() ==> r is None
                &&& i < ps.len() ==> r == Some(ps[i].value_bits)
            }),
    {
        match self.find_parameter(name) {
            None => None,
            Some(i) => Some(self.parameters[i].value_bits),
        }
    }
}

/// After a parameter is set, looking it up by name finds it, with the set
/// value clamped to the parameter's range.
pub proof fn lemma_set_then_get_parameter(ps: Seq<ParameterView>, name: Seq<char>, value: u32)
    requires
        parameter_position(ps, name) < ps.len(),
    ensures
        ({
            let i = parameter_position(ps, name);
            let set = ps.update(i, ParameterView { value_bits: f32_clamp(value, ps[i].min_bits, ps[i].max_bits), ..ps[i] });
            &&& parameter_position(set, name) == i
            &&& set[i].value_bits == f32_clamp(value, ps[i].min_bits, ps[i].max_bits)
        }),
{
    let i = parameter_position(ps, name);
    let set = ps.update(i, ParameterView { value_bits: f32_clamp(value, ps[i].min_bits, ps[i].max_bits), ..ps[i] });
    let p = |j: int| ps[j].name == name;
    let q = |j: int| set[j].name == name;
    lemma_first_where_bounds(ps.len() as int, p);
    assert(i == first_where(ps.len() as int, p));
    assert forall|j: int| 0 <= j < i implies !#[trigger] q(j) by {
        assert(!p(j));
    }
    lemma_first_where(set.len() as int, q, i);
    assert(parameter_position(set, name) == first_where(set.len() as int, q));
}

/// The views of a list of effects.
pub open spec fn effects_view(es: Seq<Effect>) -> Seq<EffectView> {
    Seq::new(es.len(), |i: int| es[i].view_of())
}

/// The views of a list of borrowed effects.
pub open spec fn effect_refs_view(es: Seq<&Effect>) -> Seq<EffectView> {
    Seq::new(es.len(), |i: int| es[i].view_of())
}

/// The position of the first effect with this id (the length when there
/// is none).
pub open spec fn effect_position(s: Seq<EffectView>, id: Seq<char>) -> int {
    first_where(s.len() as int, |i: int| s[i].id == id)
}

/// The enabled effects of `s`, in order.
pub open spec fn enabled_only(s: Seq<EffectView>) -> Seq<EffectView> {
    s.filter(|e: EffectView| e.enabled)
}

/// The effects of `s` of type `t`, in order.
pub open spec fn of_type_only(s: Seq<EffectView>, t: EffectType) -> Seq<EffectView> {
    s.filter(|e: EffectView| e.effect_type == t)
}

/// Effects listed in ascending order.
pub open spec fn in_effect_order(s: Seq<EffectView>) -> bool {
    forall|i: int, j: int| 0 <= i <= j < s.len() ==> s[i].order <= s[j].order
}

/// Where an effect of order `order` goes: after every effect whose order
/// is at most `order`, before the first whose order is greater.
pub open spec fn slot_for(s: Seq<EffectView>, order: u32) -> int {
    first_where(s.len() as int, |i: int| s[i].order > order)
}

/// The effects sorted by order, stably: each effect in turn goes after
/// those of equal order that came before it.
pub open spec fn stable_by_order(s: Seq<EffectView>) -> Seq<EffectView>
    decreases s.len(),
{
    if s.len() == 0 {
        s
    } else {
        let t = stable_by_order(s.drop_last());
        t.insert(slot_for(t, s.last().order), s.last())
    }
}

/// Inserting an effect at its slot keeps a list in order, as adding an
/// effect to a pipeline does.
pub proof fn lemma_slot_keeps_order(s: Seq<EffectView>, e: EffectView)
    requires
        in_effect_order(s),
    ensures
        0 <= slot_for(s, e.order) <= s.len(),
        in_effect_order(s.insert(slot_for(s, e.order), e)),
{
    let p = |i: int| s[i].order > e.order;
    let k = slot_for(s, e.order);
    lemma_first_where_bounds(s.len() as int, p);
    assert(k == first_where(s.len() as int, p));
    let t = s.insert(k, e);
    assert forall|i: int, j: int| 0 <= i <= j < t.len() implies t[i].order <= t[j].order by {
        if i < k && j == k {
            assert(!p(i));
        } else if i == k && j > k {
            assert(p(k));
            assert(s[k].order <= s[j - 1].order);
        }
    }
}

/// A pipeline's effects, sorted by order at creation, stay in order and
/// are the same effects as given.
pub proof fn lemma_stable_by_order(s: Seq<EffectView>)
    ensures
        in_effect_order(stable_by_order(s)),
        stable_by_order(s).len() == s.len(),
        stable_by_order(s).to_multiset() == s.to_multiset(),
    decreases s.len(),
{
    broadcast use vstd::seq_lib::to_multiset_build;
    if s.len() > 0 {
        let t = stable_by_order(s.drop_last());
        lemma_stable_by_order(s.drop_last());
        lemma_slot_keeps_order(t, s.last());
        assert(s =~= s.drop_last().push(s.last()));
    }
}

/// The effects of a frame, kept sorted by their order.
pub struct EffectsPipeline {
    effects: Vec<Effect>,
}

impl View for EffectsPipeline {
    type V = Seq<EffectView>;

    closed spec fn view(&self) -> Seq<EffectView> {
        effects_view(self.effects@)
    }
}

impl EffectsPipeline {
    #[verifier::type_invariant]
    spec fn ordered(self) -> bool {
        in_effect_order(effects_view(self.effects@))
    }

    /// The slot of an effect of order `order` in `effects`.
    fn slot(effects: &Vec<Effect>, order: u32) -> (r: usize)
        ensures
            r == slot_for(effects_view(effects@), order),
    {
        let ghost s = effects_view(effects@);
        let ghost p = |i: int| s[i].order > order;
        let mut i: usize = 0;
        while i < effects.len()
            invariant
                s == effects_view(effects@),
                p == (|i: int| s[i].order > order),
                i <= effects@.len(),
                forall|j: int| 0 <= j < i ==> !#[trigger] p(j),
            decreases effects@.len() - i,
        {
            if effects[i].order > order {
                proof { lemma_first_where(s.len() as int, p, i as int); }
                return i;
            }
            i = i + 1;
        }
        proof { lemma_first_where(s.len() as int, p, i as int); }
        i
    }

    /// Creates a pipeline of `effects`, sorted by order; effects of equal
    /// order keep the order they were given in.
    pub fn new(effects: Vec<Effect>) -> (r: Self)
        ensures
            r@ == stable_by_order(effects_view(effects@)),
    {
        let ghost input = effects_view(effects@);
        let mut rest = effects;
        let mut sorted: Vec<Effect> = Vec::new();
        let ghost mut taken: nat = 0;
        while rest.len() > 0
            invariant
                taken + rest@.len() == input.len(),
                effects_view(rest@) =~= input.subrange(taken as int, input.len() as int),
                effects_view(sorted@) == stable_by_order(input.take(taken as int)),
            decreases rest@.len(),
        {
            let ghost old_rest = rest@;
            assert(effects_view(old_rest)[0] == input[taken as int]);
            let e = rest.remove(0);
            proof {
                lemma_stable_by_order(input.take(taken as int));
                assert(input.take(taken as int + 1).drop_last() =~= input.take(taken as int));
                assert(input.take(taken as int + 1).last() == e.view_of());
                assert forall|k: int| 0 <= k < rest@.len() implies
                    #[trigger] effects_view(rest@)[k] == input.subrange(taken as int + 1, input.len() as int)[k] by {
                    assert(rest@[k] == old_rest[k + 1]);
                    assert(effects_view(old_rest)[k + 1] == input.subrange(taken as int, input.len() as int)[k + 1]);
                }
                assert(effects_view(rest@) =~= input.subrange(taken as int + 1, input.len() as int));
            }
            let at = Self::slot(&sorted, e.order);
            proof { lemma_slot_keeps_order(effects_view(sorted@), e.view_of()); }
            sorted.insert(at, e);
            proof {
                assert(effects_view(sorted@) =~= stable_by_order(input.take(taken as int + 1)));
                taken = taken + 1;
            }
        }
        proof {
            assert(input.take(taken as int) =~= input);
            lemma_stable_by_order(input);
        }
        EffectsPipeline { effects: sorted }
    }

    /// An empty pipeline.
    pub fn empty() -> (r: Self)
        ensures
            r@ == Seq::<EffectView>::empty(),
    {
        let r = EffectsPipeline { effects: Vec::new() };
        assert(r@ =~= Seq::<EffectView>::empty());
        r
    }

    /// Adds an effect after every effect whose order is at most its own.
    pub fn add_effect(&mut self, effect: Effect)
        ensures
            final(self)@ == old(self)@.insert(slot_for(old(self)@, effect.order), effect.view_of()),
    {
        proof { use_type_invariant(&*self); }
        let mut effects: Vec<Effect> = Vec::new();
        std::mem::swap(&mut effects, &mut self.effects);
        let ghost before = effects_view(effects@);
        let at = Self::slot(&effects, effect.order);
        proof { lemma_slot_keeps_order(before, effect.view_of()); }
        effects.insert(at, effect);
        assert(effects_view(effects@) =~= before.insert(at as int, effect.view_of()));
        self.effects = effects;
    }

    /// Removes the first effect with this id and returns it; `None` when
    /// no effect has it.
    pub fn remove_effect(&mut self, effect_id: &str) -> (r: Option<Effect>)
        ensures
            ({
                let i = effect_position(old(self)@, effect_id@);
                &&& i == old(self)@.len() ==> (r is None && final(self)@ == old(self)@)
                &&& i < old(self)@.len() ==> (r matches Some(e) && e.view_of() == old(self)@[i])
                &&& i < old(self)@.len() ==> final(self)@ == old(self)@.remove(i)
            }),
    {
        proof { use_type_invariant(&*self); }
        let ghost s = self@;
        let ghost p = |i: int| s[i].id == effect_id@;
        let mut i: usize = 0;
        while i < self.effects.len()
            invariant
                s == old(self)@,
                s == effects_view(self.effects@),
                in_effect_order(s),
                p == (|i: int| s[i].id == effect_id@),
                i <= self.effects@.len(),
                forall|j: int| 0 <= j < i ==> !#[trigger] p(j),
            decreases self.effects@.len() - i,
        {
            if str_equals(self.effects[i].id.as_str(), effect_id) {
                proof { lemma_first_where(s.len() as int, p, i as int); }
                let mut effects: Vec<Effect> = Vec::new();
                std::mem::swap(&mut effects, &mut self.effects);
                let ghost before = effects@;
                assert(s[i as int] == before[i as int].view_of());
                let e = effects.remove(i);
                assert(effects_view(effects@) =~= s.remove(i as int));
                assert(in_effect_order(effects_view(effects@))) by {
                    let t = s.remove(i as int);
                    assert forall|a: int, b: int| 0 <= a <= b < t.len() implies t[a].order <= t[b].order by {
                        let a2 = if a < i { a } else { a + 1 };
                        let b2 = if b < i { b } else { b + 1 };
                        assert(t[a] == s[a2] && t[b] == s[b2]);
                    }
                }
                self.effects = effects;
                return Some(e);
            }
            i = i + 1;
        }
        proof { lemma_first_where(s.len() as int, p, i as int); }
        None
    }

    /// The enabled effects, in pipeline order.
    pub fn enabled_effects(&self) -> (r: Vec<&Effect>)
        ensures
            effect_refs_view(r@) == enabled_only(self@),
    {
        let ghost s = self@;
        let mut out: Vec<&Effect> = Vec::new();
        let mut i: usize = 0;
        while i < self.effects.len()
            invariant
                s == effects_view(self.effects@),
                i <= self.effects@.len(),
                effect_refs_view(out@) == enabled_only(s.take(i as int)),
            decreases self.effects@.len() - i,
        {
            proof {
                assert(s.take(i as int + 1).drop_last() =~= s.take(i as int));
                reveal(Seq::filter);
            }
            if self.effects[i].enabled {
                out.push(&self.effects[i]);
            }
            assert(effect_refs_view(out@) =~= enabled_only(s.take(i as int + 1)));
            i = i + 1;
        }
        assert(s.take(i as int) =~= s);
        out
    }

    /// The effects of a given type, in pipeline order.
    pub fn effects_of_type(&self, effect_type: &EffectType) -> (r: Vec<&Effect>)
        ensures
            effect_refs_view(r@) == of_type_only(self@, *effect_type),
    {
        let ghost s = self@;
        let mut out: Vec<&Effect> = Vec::new();
        let mut i: usize = 0;
        while i < self.effects.len()
            invariant
                s == effects_view(self.effects@),
                i <= self.effects@.len(),
                effect_refs_view(out@) == of_type_only(s.take(i as int), *effect_type),
            decreases self.effects@.len() - i,
        {
            proof {
                assert(s.take(i as int + 1).drop_last() =~= s.take(i as int));
                reveal(Seq::filter);
            }
            if self.effects[i].effect_type == *effect_type {
                out.push(&self.effects[i]);
            }
            assert(effect_refs_view(out@) =~= of_type_only(s.take(i as int + 1), *effect_type));
            i = i + 1;
        }
        assert(s.take(i as int) =~= s);
        out
    }

    /// The number of effects.
    pub fn len(&self) -> (r: usize)
        ensures
            r == self@.len(),
    {
        self.effects.len()
    }

    /// Whether the pipeline holds no effect.
    pub fn is_empty(&self) -> (r: bool)
        ensures
            r == (self@.len() == 0),
    {
        self.effects.len() == 0
    }

    /// Removes every effect.
    pub fn clear(&mut self)
        ensures
            final(self)@ == Seq::<EffectView>::empty(),
    {
        let mut effects: Vec<Effect> = Vec::new();
        std::mem::swap(&mut effects, &mut self.effects);
        assert(effects_view(self.effects@) =~= Seq::<EffectView>::empty());
    }

}

} // verus!
