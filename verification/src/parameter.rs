//! Named scalar parameters with eased transitions.

use vstd::prelude::*;

verus! {

use crate::fx::{FX_ONE, FX_ONE_U, sat_i64, lerp_fx, mul_div_u64, lemma_lerp_antitone};
use crate::tween::{Easing, Tween, ease, ease_spec, lemma_ease_bounds, lemma_ease_monotone};
use crate::table::{Table, has_key};
use vstd::arithmetic::div_mod::{lemma_div_is_ordered, lemma_div_multiples_vanish,
    lemma_div_pos_is_pos};

/// A transition in flight: interpolates from `start` to `target` over
/// `duration` output frames, of which `elapsed` have passed.
#[derive(Clone, Copy, Debug, PartialEq, Eq, Structural)]
pub struct ActiveTween {
    pub start: i64,
    pub target: i64,
    pub easing: Easing,
    pub duration: u64,
    pub elapsed: u64,
}

impl ActiveTween {
    /// The transition takes at least one frame and has not overrun.
    pub open spec fn wf(self) -> bool {
        1 <= self.duration && self.elapsed <= self.duration
    }
}

/// The normalized progress of a transition, in `[0, FX_ONE]`.
pub open spec fn tween_progress(at: ActiveTween) -> int {
    (at.elapsed * FX_ONE) / (at.duration as int)
}

/// The interpolated value of a transition at its current progress.
pub open spec fn tween_value(at: ActiveTween) -> int {
    sat_i64(
        at.start + ((at.target - at.start) * ease_spec(at.easing, tween_progress(at))) / (
        FX_ONE as int),
    )
}

/// Normalized progress stays in `[0, FX_ONE]`.
pub proof fn lemma_tween_progress_bounds(at: ActiveTween)
    requires
        at.wf(),
    ensures
        0 <= tween_progress(at) <= FX_ONE,
{
    lemma_div_pos_is_pos(at.elapsed * FX_ONE, at.duration as int);
    assert(at.elapsed * FX_ONE <= at.duration * FX_ONE) by (nonlinear_arith)
        requires at.elapsed <= at.duration, FX_ONE as int > 0;
    lemma_div_is_ordered(at.elapsed * FX_ONE, at.duration * FX_ONE, at.duration as int);
    lemma_div_multiples_vanish(FX_ONE as int, at.duration as int);
    assert(at.duration * FX_ONE == (at.duration as int) * (FX_ONE as int));
}

/// While a transition heads downward, its value never rises as frames pass.
pub proof fn lemma_tween_value_antitone(a1: ActiveTween, a2: ActiveTween)
    requires
        a1.wf(),
        a2.wf(),
        a1.start == a2.start,
        a1.target == a2.target,
        a1.easing == a2.easing,
        a1.duration == a2.duration,
        a1.elapsed <= a2.elapsed,
        a1.target <= a1.start,
    ensures
        tween_value(a2) <= tween_value(a1),
{
    lemma_tween_progress_bounds(a1);
    lemma_tween_progress_bounds(a2);
    assert(a1.elapsed * FX_ONE <= a2.elapsed * FX_ONE) by (nonlinear_arith)
        requires a1.elapsed <= a2.elapsed, FX_ONE as int > 0;
    lemma_div_is_ordered(a1.elapsed * FX_ONE, a2.elapsed * FX_ONE, a1.duration as int);
    lemma_ease_monotone(a1.easing, tween_progress(a1), tween_progress(a2));
    lemma_ease_bounds(a1.easing, tween_progress(a1));
    lemma_ease_bounds(a1.easing, tween_progress(a2));
    lemma_lerp_antitone(
        a1.start as int,
        a1.target as int,
        ease_spec(a1.easing, tween_progress(a1)),
        ease_spec(a1.easing, tween_progress(a2)),
    );
}

/// A parameter running a downward fade: the transition heads for a target
/// no higher than where it started, and the current value is the start (at
/// the first frame) or the transition's own interpolated value.
pub open spec fn fading_down(p: Parameter) -> bool {
    match p.active {
        Some(at) => at.target <= at.start && (p.value == at.start || p.value == tween_value(at)),
        None => true,
    }
}

/// A fade never rises: over the whole fade window the value is monotone
/// non-increasing, from its starting value down to the target.
pub proof fn lemma_fade_step_non_increasing(p: Parameter)
    requires
        param_wf(p),
        fading_down(p),
    ensures
        param_step(p).value <= p.value,
        fading_down(param_step(p)),
        param_wf(param_step(p)),
{
    match p.active {
        None => {},
        Some(at) => {
            lemma_tween_progress_bounds(at);
            lemma_ease_bounds(at.easing, tween_progress(at));
            crate::fx::lemma_lerp_in_range(
                at.start as int,
                at.target as int,
                ease_spec(at.easing, tween_progress(at)),
            );
            if at.elapsed + 1 >= at.duration {
                assert(param_step(p).value == at.target);
            } else {
                let stepped = ActiveTween { elapsed: (at.elapsed + 1) as u64, ..at };
                lemma_tween_progress_bounds(stepped);
                lemma_ease_bounds(stepped.easing, tween_progress(stepped));
                crate::fx::lemma_lerp_in_range(
                    stepped.start as int,
                    stepped.target as int,
                    ease_spec(stepped.easing, tween_progress(stepped)),
                );
                lemma_tween_value_antitone(at, stepped);
            }
        },
    }
}

/// A scalar with an optional transition in flight.
#[derive(Clone, Copy, Debug, PartialEq, Eq, Structural)]
pub struct Parameter {
    pub value: i64,
    pub active: Option<ActiveTween>,
}

/// Any transition in flight is well-formed.
pub open spec fn param_wf(p: Parameter) -> bool {
    match p.active {
        Some(at) => at.wf(),
        None => true,
    }
}

/// One frame of parameter evolution: advance the transition by one frame,
/// finishing it when its duration is reached.
pub open spec fn param_step(p: Parameter) -> Parameter {
    match p.active {
        None => p,
        Some(at) => {
            if at.elapsed + 1 >= at.duration {
                Parameter { value: at.target, active: None }
            } else {
                let stepped = ActiveTween { elapsed: (at.elapsed + 1) as u64, ..at };
                Parameter { value: tween_value(stepped) as i64, active: Some(stepped) }
            }
        },
    }
}

/// Whether one frame of evolution completes the transition.
pub open spec fn param_step_finished(p: Parameter) -> bool {
    match p.active {
        None => false,
        Some(at) => at.elapsed + 1 >= at.duration,
    }
}

/// The result of setting a parameter to `target` under an optional tween:
/// an immediate snap, or a fresh transition from the current value.
pub open spec fn param_set(p: Parameter, target: i64, tween: Option<Tween>) -> Parameter {
    match tween {
        Some(tw) if tw.duration >= 1 => Parameter {
            value: p.value,
            active: Some(
                ActiveTween {
                    start: p.value,
                    target,
                    easing: tw.easing,
                    duration: tw.duration,
                    elapsed: 0,
                },
            ),
        },
        _ => Parameter { value: target, active: None },
    }
}

impl Parameter {
    /// A parameter resting at `value`.
    pub fn new(value: i64) -> (r: Parameter)
        ensures
            r == (Parameter { value, active: None::<ActiveTween> }),
            param_wf(r),
    {
        Parameter { value, active: None }
    }

    /// The current value.
    pub fn value(&self) -> (r: i64)
        ensures
            r == self.value,
    {
        self.value
    }

    /// Move to `target`: snap there without a tween, otherwise start a
    /// transition from the current value.
    pub fn set(&mut self, target: i64, tween: Option<Tween>)
        ensures
            *final(self) == param_set(*old(self), target, tween),
            param_wf(*final(self)),
    {
        match tween {
            Some(tw) => {
                if tw.duration >= 1 {
                    self.active = Some(
                        ActiveTween {
                            start: self.value,
                            target,
                            easing: tw.easing,
                            duration: tw.duration,
                            elapsed: 0,
                        },
                    );
                } else {
                    self.value = target;
                    self.active = None;
                }
            },
            None => {
                self.value = target;
                self.active = None;
            },
        }
    }

    /// Advance any transition by one frame; reports whether it finished
    /// on this very frame.
    pub fn update(&mut self) -> (finished: bool)
        requires
            param_wf(*old(self)),
        ensures
            *final(self) == param_step(*old(self)),
            finished == param_step_finished(*old(self)),
            param_wf(*final(self)),
    {
        match self.active {
            None => false,
            Some(at) => {
                if at.elapsed >= at.duration - 1 {
                    self.value = at.target;
                    self.active = None;
                    true
                } else {
                    let stepped = ActiveTween { elapsed: at.elapsed + 1, ..at };
                    proof {
                        lemma_tween_progress_bounds(stepped);
                        lemma_ease_bounds(stepped.easing, tween_progress(stepped));
                    }
                    let t = mul_div_u64(stepped.elapsed, FX_ONE_U, stepped.duration);
                    proof {
                        lemma_div_pos_is_pos(stepped.elapsed * FX_ONE, stepped.duration as int);
                    }
                    let eased = ease(stepped.easing, t);
                    self.value = lerp_fx(stepped.start, stepped.target, eased);
                    self.active = Some(stepped);
                    false
                }
            },
        }
    }
}

/// The store of parameters on the audio side.
pub struct Parameters {
    table: Table<Parameter>,
}

impl Parameters {
    /// The parameters by id, in insertion order.
    pub closed spec fn view(&self) -> Seq<(u64, Parameter)> {
        self.table.view()
    }

    /// The store's fixed capacity.
    pub closed spec fn spec_cap(&self) -> int {
        self.table.spec_cap()
    }

    /// Keys unique, capacity respected, every parameter well-formed.
    pub open spec fn wf(&self) -> bool {
        &&& self.table_wf()
        &&& forall|i: int|
            0 <= i < self.view().len() ==> #[trigger] param_wf(self.view()[i].1)
    }

    /// The underlying table invariant.
    pub closed spec fn table_wf(&self) -> bool {
        self.table.wf()
    }

    /// An empty store with room for `cap` parameters.
    pub fn new(cap: usize) -> (r: Parameters)
        ensures
            r.view() == Seq::<(u64, Parameter)>::empty(),
            r.spec_cap() == cap,
            r.wf(),
    {
        Parameters { table: Table::new(cap) }
    }

    /// Add a parameter; rejected when the id is taken or the store is full.
    pub fn add(&mut self, id: u64, value: i64) -> (r: bool)
        requires
            old(self).wf(),
        ensures
            final(self).wf(),
            r == (!has_key(old(self).view(), id) && old(self).view().len() < old(
                self,
            ).spec_cap()),
            r ==> final(self).view() == old(self).view().push(
                (id, Parameter { value, active: None::<ActiveTween> }),
            ),
            !r ==> *final(self) == *old(self),
            final(self).spec_cap() == old(self).spec_cap(),
    {
        if self.table.contains(id) {
            return false;
        }
        if self.table.len() >= self.table.capacity() {
            return false;
        }
        self.table.push(id, Parameter::new(value));
        true
    }

    /// Remove a parameter; ignored when the id is unknown.
    pub fn remove(&mut self, id: u64)
        requires
            old(self).wf(),
        ensures
            final(self).wf(),
            final(self).spec_cap() == old(self).spec_cap(),
            match old(self).idx_of_spec(id) {
                Some(i) => final(self).view() == old(self).view().remove(i),
                None => *final(self) == *old(self),
            },
    {
        match self.table.idx_of(id) {
            Some(i) => {
                proof {
                    self.lemma_idx_unique(id, i as int);
                }
                self.table.remove_at(i);
            },
            None => {
                proof {
                    assert(old(self).idx_of_spec(id) is None);
                }
            },
        }
    }

    /// The index of the entry carrying `id`, if present.
    pub open spec fn idx_of_spec(&self, id: u64) -> Option<int> {
        if has_key(self.view(), id) {
            Some(choose|i: int| 0 <= i < self.view().len() && self.view()[i].0 == id)
        } else {
            None
        }
    }

    /// With unique keys, any index carrying `id` is the chosen one.
    proof fn lemma_idx_unique(&self, id: u64, i: int)
        requires
            self.table_wf(),
            0 <= i < self.view().len(),
            self.view()[i].0 == id,
        ensures
            self.idx_of_spec(id) == Some(i),
    {
        assert(has_key(self.view(), id));
        let j = choose|j: int| 0 <= j < self.view().len() && self.view()[j].0 == id;
        if i != j {
            if i < j {
                assert(self.view()[i].0 != self.view()[j].0);
            } else {
                assert(self.view()[j].0 != self.view()[i].0);
            }
        }
    }

    /// The current value of parameter `id`, if it exists.
    pub fn value_of(&self, id: u64) -> (r: Option<i64>)
        requires
            self.wf(),
        ensures
            match self.idx_of_spec(id) {
                Some(i) => r == Some(self.view()[i].1.value),
                None => r is None,
            },
    {
        match self.table.idx_of(id) {
            Some(i) => {
                proof {
                    self.lemma_idx_unique(id, i as int);
                }
                Some(self.table.value_at(i).value())
            },
            None => None,
        }
    }

    /// Route a `set` to parameter `id`; ignored when the id is unknown.
    pub fn set(&mut self, id: u64, target: i64, tween: Option<Tween>)
        requires
            old(self).wf(),
        ensures
            final(self).wf(),
            final(self).spec_cap() == old(self).spec_cap(),
            match old(self).idx_of_spec(id) {
                Some(i) => final(self).view() == old(self).view().update(
                    i,
                    (id, param_set(old(self).view()[i].1, target, tween)),
                ),
                None => *final(self) == *old(self),
            },
    {
        match self.table.idx_of(id) {
            Some(i) => {
                proof {
                    self.lemma_idx_unique(id, i as int);
                }
                let p = self.table.value_at_mut(i);
                p.set(target, tween);
            },
            None => {},
        }
    }

    /// One frame of evolution for every parameter, in insertion order.
    pub fn update_all(&mut self)
        requires
            old(self).wf(),
        ensures
            final(self).wf(),
            final(self).spec_cap() == old(self).spec_cap(),
            final(self).view().len() == old(self).view().len(),
            forall|i: int|
                0 <= i < old(self).view().len() ==> #[trigger] final(self).view()[i] == (
                old(self).view()[i].0,
                param_step(old(self).view()[i].1),
                ),
    {
        let n = self.table.len();
        let mut i: usize = 0;
        while i < n
            invariant
                i <= n,
                n == self.view().len(),
                self.view().len() == old(self).view().len(),
                self.spec_cap() == old(self).spec_cap(),
                self.table_wf(),
                forall|j: int|
                    0 <= j < i ==> #[trigger] self.view()[j] == (
                    old(self).view()[j].0,
                    param_step(old(self).view()[j].1),
                    ),
                forall|j: int|
                    i <= j < n ==> #[trigger] self.view()[j] == old(self).view()[j],
                forall|j: int|
                    0 <= j < n ==> #[trigger] param_wf(self.view()[j].1),
            decreases n - i,
        {
            let p = self.table.value_at_mut(i);
            p.update();
            i = i + 1;
        }
    }
}

} // verus!
