//! Metronomes: tempo-driven beat counters that emit events when beat
//! intervals pass.
//!
//! Time is counted in integer "tempo ticks": each output frame while
//! ticking adds the current tempo (beats per minute, fixed point) to the
//! counter, so the beat count is the counter divided by `60 * device_rate
//! * FX_ONE` exactly, with no rounding drift.

use vstd::prelude::*;

verus! {

use crate::parameter::Parameters;
use crate::table::{Table, has_key, key_idx, lemma_key_idx_unique};
use crate::value::{CachedValue, Value, cached_update_spec};
use vstd::arithmetic::div_mod::{lemma_fundamental_div_mod, lemma_fundamental_div_mod_converse};

/// Settings for a metronome.
#[derive(Clone, Debug)]
pub struct MetronomeSettings {
    /// The tempo in fixed-point beats per minute.
    pub tempo: Value,
    /// The beat intervals (fixed point) whose passing emits an event.
    pub interval_events_to_emit: Vec<u64>,
    /// How many unread events the queue holds before dropping new ones.
    pub event_queue_capacity: usize,
}

/// A metronome.
pub struct Metronome {
    /// The tempo source.
    pub tempo: CachedValue,
    /// The beat intervals whose passing emits an event.
    pub interval_events_to_emit: Vec<u64>,
    /// Whether time advances.
    pub ticking: bool,
    /// Accumulated tempo ticks.
    pub time: u128,
    /// The accumulated ticks one frame ago.
    pub previous_time: u128,
    /// Unread events: the interval values that passed, oldest first.
    pub events: Vec<u64>,
    /// The event queue's capacity.
    pub event_cap: usize,
    /// The device sample rate, fixing the tick scale.
    pub device_rate: u32,
}

/// An interval in beats (fixed point) expressed in tempo ticks.
pub open spec fn interval_ticks(interval: u64, device_rate: u32) -> int {
    interval * 60 * device_rate
}

/// Whether the interval passed between `prev` and `cur` ticks: the beat
/// count crossed a multiple of the interval, or time had not yet moved
/// (so the interval fires once at the very start).
pub open spec fn ticks_crossed(prev: u128, cur: u128, interval: u64, device_rate: u32) -> bool {
    let it = interval_ticks(interval, device_rate);
    it > 0 && (prev == 0 || prev % (it as u128) > cur % (it as u128))
}

/// Whether a metronome just saw `interval` pass.
pub open spec fn interval_passed_spec(m: Metronome, interval: u64) -> bool {
    m.ticking && ticks_crossed(m.previous_time, m.time, interval, m.device_rate)
}

/// The event queue after one frame: each interval that passed appends its
/// value, in list order, as long as the queue has room.
pub open spec fn events_after(
    events: Seq<u64>,
    cap: int,
    intervals: Seq<u64>,
    prev: u128,
    cur: u128,
    device_rate: u32,
    n: int,
) -> Seq<u64>
    decreases n,
{
    if n <= 0 {
        events
    } else {
        let e = events_after(events, cap, intervals, prev, cur, device_rate, n - 1);
        if ticks_crossed(prev, cur, intervals[n - 1], device_rate) && e.len() < cap {
            e.push(intervals[n - 1])
        } else {
            e
        }
    }
}

/// The tick increment one frame contributes: the resolved tempo, never
/// negative.
pub open spec fn metro_inc(m: Metronome, params: Parameters) -> int {
    let tempo = cached_update_spec(m.tempo, params);
    if tempo.last_value > 0 {
        tempo.last_value as int
    } else {
        0
    }
}

/// The tick counter after one frame: advanced by the tempo while ticking,
/// saturating at the counter's range.
pub open spec fn metro_time_after(m: Metronome, params: Parameters) -> u128 {
    if !m.ticking {
        m.time
    } else if m.time + metro_inc(m, params) > u128::MAX {
        u128::MAX
    } else {
        (m.time + metro_inc(m, params)) as u128
    }
}

/// The previous-time marker after one frame: the old counter while
/// ticking, untouched otherwise.
pub open spec fn metro_prev_after(m: Metronome, params: Parameters) -> u128 {
    if !m.ticking {
        m.previous_time
    } else {
        m.time
    }
}

impl Metronome {
    /// The tempo's mapping, if any, is well-formed.
    pub open spec fn wf(&self) -> bool {
        self.tempo.wf() && self.device_rate >= 1
    }

    /// A metronome from its settings, stopped at time zero.
    pub fn new(settings: MetronomeSettings, device_rate: u32) -> (r: Metronome)
        requires
            settings.tempo.wf(),
            device_rate >= 1,
        ensures
            r.tempo.value == settings.tempo,
            r.interval_events_to_emit == settings.interval_events_to_emit,
            r.ticking == false,
            r.time == 0,
            r.previous_time == 0,
            r.events@ == Seq::<u64>::empty(),
            r.event_cap == settings.event_queue_capacity,
            r.device_rate == device_rate,
            r.wf(),
    {
        let r = Metronome {
            tempo: CachedValue::new(settings.tempo, 120 * crate::fx::FX_ONE),
            interval_events_to_emit: settings.interval_events_to_emit,
            ticking: false,
            time: 0,
            previous_time: 0,
            events: Vec::new(),
            event_cap: settings.event_queue_capacity,
            device_rate,
        };
        proof {
            assert(r.events@ =~= Seq::<u64>::empty());
        }
        r
    }

    /// The tempo that sequences see: the current tempo while ticking,
    /// zero otherwise.
    pub fn effective_tempo(&self) -> (r: i64)
        ensures
            r == if self.ticking {
                self.tempo.last_value
            } else {
                0
            },
    {
        if self.ticking {
            self.tempo.value()
        } else {
            0
        }
    }

    /// Rebind the tempo source.
    pub fn set_tempo(&mut self, tempo: Value)
        requires
            tempo.wf(),
            old(self).wf(),
        ensures
            final(self).wf(),
            final(self).tempo.value == tempo,
            *final(self) == (Metronome { tempo: final(self).tempo, ..*old(self) }),
            !(tempo is Random) ==> final(self).tempo == crate::value::cached_set_spec(
                old(self).tempo,
                tempo,
            ),
            tempo matches Value::Random(lo, hi) ==> (if lo <= hi {
                lo <= final(self).tempo.last_value <= hi
            } else {
                hi <= final(self).tempo.last_value <= lo
            }),
    {
        self.tempo.set(tempo);
    }

    /// Start ticking.
    pub fn start(&mut self)
        ensures
            *final(self) == (Metronome { ticking: true, ..*old(self) }),
    {
        self.ticking = true;
    }

    /// Stop ticking, keeping the time (a pause).
    pub fn pause(&mut self)
        ensures
            *final(self) == (Metronome { ticking: false, ..*old(self) }),
    {
        self.ticking = false;
    }

    /// Stop ticking and rewind to time zero.
    pub fn stop(&mut self)
        ensures
            *final(self) == (Metronome {
                ticking: false,
                time: 0u128,
                previous_time: 0u128,
                ..*old(self)
            }),
    {
        self.ticking = false;
        self.time = 0;
        self.previous_time = 0;
    }

    /// Whether `interval` just passed.
    pub fn interval_passed(&self, interval: u64) -> (r: bool)
        requires
            self.wf(),
        ensures
            r == interval_passed_spec(*self, interval),
    {
        if !self.ticking {
            return false;
        }
        if interval == 0 {
            proof {
                assert(interval_ticks(interval, self.device_rate) == 0) by (nonlinear_arith)
                    requires interval == 0u64;
            }
            return false;
        }
        proof {
            assert(interval_ticks(interval, self.device_rate) > 0) by (nonlinear_arith)
                requires interval >= 1u64, self.device_rate >= 1u32;
            assert(interval * 60 * self.device_rate
                <= 0xffff_ffff_ffff_ffff * 60 * 0xffff_ffff) by (nonlinear_arith)
                requires
                    interval <= 0xffff_ffff_ffff_ffff,
                    self.device_rate <= 0xffff_ffff;
        }
        let it: u128 = (interval as u128) * 60 * (self.device_rate as u128);
        if self.previous_time == 0 {
            return true;
        }
        self.previous_time % it > self.time % it
    }

    /// One frame of evolution, exactly [`metronome_step`].
    pub fn update(&mut self, params: &Parameters)
        requires
            old(self).wf(),
            params.wf(),
        ensures
            final(self).wf(),
            final(self).tempo == cached_update_spec(old(self).tempo, *params),
            final(self).interval_events_to_emit == old(self).interval_events_to_emit,
            final(self).ticking == old(self).ticking,
            final(self).event_cap == old(self).event_cap,
            final(self).device_rate == old(self).device_rate,
            final(self).time == metro_time_after(*old(self), *params),
            final(self).previous_time == metro_prev_after(*old(self), *params),
            final(self).events@ == if old(self).ticking {
                events_after(
                    old(self).events@,
                    old(self).event_cap as int,
                    old(self).interval_events_to_emit@,
                    old(self).time,
                    metro_time_after(*old(self), *params),
                    old(self).device_rate,
                    old(self).interval_events_to_emit@.len() as int,
                )
            } else {
                old(self).events@
            },
    {
        self.tempo.update(params);
        if !self.ticking {
            return ;
        }
        let t = self.tempo.value();
        let inc: u128 = if t > 0 {
            t as u128
        } else {
            0
        };
        let cur: u128 = if self.time > u128::MAX - inc {
            u128::MAX
        } else {
            self.time + inc
        };
        let prev = self.time;
        self.previous_time = prev;
        self.time = cur;
        let n = self.interval_events_to_emit.len();
        let ghost intervals = self.interval_events_to_emit@;
        let ghost cap = self.event_cap as int;
        let ghost ev0 = old(self).events@;
        let mut i: usize = 0;
        while i < n
            invariant
                i <= n,
                n == intervals.len(),
                self.interval_events_to_emit == old(self).interval_events_to_emit,
                self.interval_events_to_emit@ == intervals,
                self.event_cap == old(self).event_cap,
                self.event_cap as int == cap,
                self.device_rate == old(self).device_rate,
                self.device_rate >= 1,
                self.tempo == cached_update_spec(old(self).tempo, *params),
                self.events@ == events_after(
                    ev0,
                    cap,
                    intervals,
                    prev,
                    cur,
                    self.device_rate,
                    i as int,
                ),
                self.previous_time == prev,
                self.time == cur,
                self.ticking,
                self.tempo.wf(),
            decreases n - i,
        {
            let interval = self.interval_events_to_emit[i];
            if self.interval_passed(interval) {
                if self.events.len() < self.event_cap {
                    self.events.push(interval);
                }
            }
            i = i + 1;
        }
    }

    /// Hand all unread events to the caller, oldest first.
    pub fn take_events(&mut self) -> (r: Vec<u64>)
        ensures
            r@ == old(self).events@,
            *final(self) == (Metronome { events: final(self).events, ..*old(self) }),
            final(self).events@ == Seq::<u64>::empty(),
    {
        let mut out: Vec<u64> = Vec::new();
        core::mem::swap(&mut self.events, &mut out);
        proof {
            assert(self.events@ =~= Seq::<u64>::empty());
        }
        out
    }

    /// How many events are queued unread.
    pub fn events_len(&self) -> (r: usize)
        ensures
            r == self.events@.len(),
    {
        self.events.len()
    }
}

/// The store of metronomes on the audio side.
pub struct Metronomes {
    table: Table<Metronome>,
}

impl Metronomes {
    /// The metronomes by id, in insertion order.
    pub closed spec fn view(&self) -> Seq<(u64, Metronome)> {
        self.table.view()
    }

    /// The store's fixed capacity.
    pub closed spec fn spec_cap(&self) -> int {
        self.table.spec_cap()
    }

    /// Table consistent and every metronome well-formed.
    pub open spec fn wf(&self) -> bool {
        &&& self.table_wf()
        &&& forall|i: int| 0 <= i < self.view().len() ==> (#[trigger] self.view()[i].1).wf()
    }

    /// The underlying table invariant.
    pub closed spec fn table_wf(&self) -> bool {
        self.table.wf()
    }

    /// An empty store with room for `cap` metronomes.
    pub fn new(cap: usize) -> (r: Metronomes)
        ensures
            r.view() == Seq::<(u64, Metronome)>::empty(),
            r.spec_cap() == cap,
            r.wf(),
    {
        Metronomes { table: Table::new(cap) }
    }

    /// Add a metronome; rejected when the id is taken or the store full.
    pub fn add(&mut self, index: u64, m: Metronome) -> (r: bool)
        requires
            old(self).wf(),
            m.wf(),
        ensures
            final(self).wf(),
            final(self).spec_cap() == old(self).spec_cap(),
            r == (!has_key(old(self).view(), index) && old(self).view().len() < old(
                self,
            ).spec_cap()),
            r ==> final(self).view() == old(self).view().push((index, m)),
            !r ==> final(self).view() == old(self).view(),
    {
        if self.table.contains(index) {
            return false;
        }
        if self.table.len() >= self.table.capacity() {
            return false;
        }
        self.table.push(index, m);
        true
    }

    /// Remove a metronome, handing it back for unloading.
    pub fn remove(&mut self, index: u64) -> (r: Option<Metronome>)
        requires
            old(self).wf(),
        ensures
            final(self).wf(),
            final(self).spec_cap() == old(self).spec_cap(),
            match key_idx(old(self).view(), index) {
                Some(i) => r == Some(old(self).view()[i].1) && final(self).view() == old(
                    self,
                ).view().remove(i),
                None => r is None && final(self).view() == old(self).view(),
            },
    {
        match self.table.idx_of(index) {
            Some(i) => {
                proof {
                    lemma_key_idx_unique(self.view(), index, i as int);
                }
                let (_, m) = self.table.remove_at(i);
                proof {
                    assert forall|j: int| 0 <= j < self.view().len() implies (#[trigger] self.view()[j].1).wf() by {
                        if j < i {
                            assert(self.view()[j] == old(self).view()[j]);
                        } else {
                            assert(self.view()[j] == old(self).view()[j + 1]);
                        }
                    }
                }
                Some(m)
            },
            None => None,
        }
    }

    /// A shared borrow of the metronome with the given id.
    pub fn get(&self, index: u64) -> (r: Option<&Metronome>)
        requires
            self.wf(),
        ensures
            match key_idx(self.view(), index) {
                Some(i) => r == Some(&self.view()[i].1),
                None => r is None,
            },
    {
        self.table.get(index)
    }

    /// The position of the metronome with the given id, if present.
    pub fn idx_of(&self, index: u64) -> (r: Option<usize>)
        requires
            self.wf(),
        ensures
            match r {
                Some(i) => key_idx(self.view(), index) == Some(i as int) && i < self.view().len()
                    && self.view()[i as int].0 == index,
                None => key_idx(self.view(), index) is None,
            },
    {
        match self.table.idx_of(index) {
            Some(i) => {
                proof {
                    lemma_key_idx_unique(self.view(), index, i as int);
                }
                Some(i)
            },
            None => None,
        }
    }

    /// A mutable borrow of the metronome at a known position.
    pub fn at_mut(&mut self, i: usize) -> (r: &mut Metronome)
        requires
            i < old(self).view().len(),
        ensures
            *r == old(self).view()[i as int].1,
            final(self).view() == old(self).view().update(
                i as int,
                (old(self).view()[i as int].0, *final(r)),
            ),
            final(self).spec_cap() == old(self).spec_cap(),
            old(self).table_wf() ==> final(self).table_wf(),
    {
        self.table.value_at_mut(i)
    }

    /// One frame of evolution for every metronome, in insertion order.
    pub fn update_all(&mut self, params: &Parameters)
        requires
            old(self).wf(),
            params.wf(),
        ensures
            final(self).wf(),
            final(self).spec_cap() == old(self).spec_cap(),
            final(self).view().len() == old(self).view().len(),
            forall|i: int|
                0 <= i < old(self).view().len() ==> (#[trigger] final(self).view()[i]).0 == old(
                    self,
                ).view()[i].0 && final(self).view()[i].1.time == metro_time_after(old(self).view()[i].1, *params) && final(self).view()[i].1.previous_time == metro_prev_after(old(self).view()[i].1, *params) && final(self).view()[i].1.ticking == old(
                    self,
                ).view()[i].1.ticking && final(self).view()[i].1.events@ == (if old(
                    self,
                ).view()[i].1.ticking {
                    events_after(
                        old(self).view()[i].1.events@,
                        old(self).view()[i].1.event_cap as int,
                        old(self).view()[i].1.interval_events_to_emit@,
                        old(self).view()[i].1.time,
                        metro_time_after(old(self).view()[i].1, *params),
                        old(self).view()[i].1.device_rate,
                        old(self).view()[i].1.interval_events_to_emit@.len() as int,
                    )
                } else {
                    old(self).view()[i].1.events@
                }) && final(self).view()[i].1.tempo == cached_update_spec(
                    old(self).view()[i].1.tempo,
                    *params,
                ) && final(self).view()[i].1.interval_events_to_emit == old(
                    self,
                ).view()[i].1.interval_events_to_emit && final(self).view()[i].1.event_cap == old(
                    self,
                ).view()[i].1.event_cap && final(self).view()[i].1.device_rate == old(
                    self,
                ).view()[i].1.device_rate,
    {
        let n = self.table.len();
        let mut i: usize = 0;
        while i < n
            invariant
                i <= n,
                n == self.view().len(),
                self.view().len() == old(self).view().len(),
                self.spec_cap() == old(self).spec_cap(),
                self.table_wf(),
                params.wf(),
                forall|j: int|
                    i <= j < n ==> #[trigger] self.view()[j] == old(self).view()[j],
                forall|j: int| 0 <= j < n ==> (#[trigger] self.view()[j].1).wf(),
                forall|j: int|
                    0 <= j < i ==> (#[trigger] self.view()[j]).0 == old(self).view()[j].0
                        && self.view()[j].1.time == metro_time_after(old(self).view()[j].1, *params) && self.view()[j].1.previous_time == metro_prev_after(old(self).view()[j].1, *params) && self.view()[j].1.ticking == old(self).view()[j].1.ticking
                        && self.view()[j].1.events@ == (if old(self).view()[j].1.ticking {
                        events_after(
                            old(self).view()[j].1.events@,
                            old(self).view()[j].1.event_cap as int,
                            old(self).view()[j].1.interval_events_to_emit@,
                            old(self).view()[j].1.time,
                            metro_time_after(old(self).view()[j].1, *params),
                            old(self).view()[j].1.device_rate,
                            old(self).view()[j].1.interval_events_to_emit@.len() as int,
                        )
                    } else {
                        old(self).view()[j].1.events@
                    }) && self.view()[j].1.tempo == cached_update_spec(
                        old(self).view()[j].1.tempo,
                        *params,
                    ) && self.view()[j].1.interval_events_to_emit == old(
                        self,
                    ).view()[j].1.interval_events_to_emit && self.view()[j].1.event_cap == old(
                        self,
                    ).view()[j].1.event_cap && self.view()[j].1.device_rate == old(
                        self,
                    ).view()[j].1.device_rate,
            decreases n - i,
        {
            let m = self.table.value_at_mut(i);
            m.update(params);
            i = i + 1;
        }
    }
}


/// Whether a constant-tempo metronome sees an interval pass on frame `k`:
/// the crossing test of [`ticks_crossed`] at the tick values `(k-1)*inc`
/// and `k*inc` that it holds after `k` frames.
pub open spec fn crossed_at(inc: int, it: int, k: nat) -> bool {
    let prev = (k - 1) * inc;
    let cur = k * inc;
    prev == 0 || prev % it > cur % it
}

/// How many events a constant-tempo metronome has emitted for one
/// interval over its first `n` frames.
pub open spec fn tick_count(inc: int, it: int, n: nat) -> int
    decreases n,
{
    if n == 0 {
        0
    } else {
        tick_count(inc, it, (n - 1) as nat) + if crossed_at(inc, it, n) {
            1int
        } else {
            0int
        }
    }
}

/// The metronome event count: over `n` frames at a constant tempo of
/// `inc` ticks per frame, an interval of `it` ticks emits one event at
/// the very start plus one for every multiple of `it` the tick counter
/// crosses — exactly `1 + floor(n * inc / it)` events for `n >= 1`.
pub proof fn lemma_metronome_event_count(inc: int, it: int, n: nat)
    requires
        0 < inc < it,
    ensures
        n >= 1 ==> tick_count(inc, it, n) == 1 + (n * inc) / it,
        n == 0 ==> tick_count(inc, it, n) == 0,
    decreases n,
{
    if n == 1 {
        assert(crossed_at(inc, it, 1)) by {
            assert((1 - 1) * inc == 0) by (nonlinear_arith);
        }
        assert(n * inc == inc) by (nonlinear_arith)
            requires n == 1nat;
        assert(inc / it == 0) by {
            assert(inc == 0 * it + inc) by (nonlinear_arith);
            lemma_fundamental_div_mod_converse(inc, it, 0, inc);
        }
        assert(tick_count(inc, it, 1) == tick_count(inc, it, 0) + 1);
        assert(tick_count(inc, it, 0) == 0);
    } else if n >= 2 {
        lemma_metronome_event_count(inc, it, (n - 1) as nat);
        let k = (n - 1) as nat;
        let a = k * inc;
        let b = n * inc;
        assert(b == a + inc) by (nonlinear_arith)
            requires a == k * inc, b == n * inc, n == k + 1;
        assert(a >= inc) by (nonlinear_arith)
            requires a == k * inc, k >= 1, inc > 0;
        lemma_fundamental_div_mod(a, it);
        vstd::arithmetic::div_mod::lemma_mod_division_less_than_divisor(a, it);
        let q = a / it;
        let r = a % it;
        assert(a == it * q + r);
        assert(0 <= r < it);
        if r + inc < it {
            assert(b == it * q + (r + inc));
            assert(b == q * it + (r + inc)) by (nonlinear_arith)
                requires b == it * q + (r + inc);
            lemma_fundamental_div_mod_converse(b, it, q, r + inc);
            assert(!crossed_at(inc, it, n)) by {
                assert((n - 1) * inc == a) by (nonlinear_arith)
                    requires a == k * inc, n == k + 1;
            }
        } else {
            assert(b == it * (q + 1) + (r + inc - it)) by (nonlinear_arith)
                requires a == it * q + r, b == a + inc;
            assert(b == (q + 1) * it + (r + inc - it)) by (nonlinear_arith)
                requires b == it * (q + 1) + (r + inc - it);
            lemma_fundamental_div_mod_converse(b, it, q + 1, r + inc - it);
            assert(crossed_at(inc, it, n)) by {
                assert((n - 1) * inc == a) by (nonlinear_arith)
                    requires a == k * inc, n == k + 1;
            }
        }
    }
}

} // verus!
