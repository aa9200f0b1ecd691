//! Time-based interpolation primitives: an exponential approach used for
//! hover feedback, and an eased linear counter used for screen-transition
//! fades. All scalars are fixed-point thousandths of the real interval
//! [0, 1], so every step is exactly specified in integer arithmetic.

use vstd::prelude::*;

verus! {

/// Scale of all animation scalars: a value `v` stands for the real number
/// `v / 1000`, and the legal range is `0 ..= UNIT`.
pub const UNIT: u32 = 1000;

/// Rate constant of the hover approach, per second.
pub const HOVER_RATE: u32 = 12;

/// Rate constant of the screen-transition fade, per second.
pub const FADE_RATE: u32 = 4;

/// Fraction (in thousandths) of the remaining distance covered after
/// `dt_ms` milliseconds at `rate` per second, capped at the whole distance.
pub open spec fn rate_step(rate: int, dt_ms: int) -> int {
    if rate * dt_ms > UNIT { UNIT as int } else { rate * dt_ms }
}

/// One exponential-approach step: move from `current` toward `target` by
/// `step` thousandths of the remaining distance.
pub open spec fn approach(current: int, target: int, step: int) -> int {
    if target >= current {
        current + (target - current) * step / (UNIT as int)
    } else {
        current - (current - target) * step / (UNIT as int)
    }
}

/// An approach step never overshoots the target and never moves away from it.
pub proof fn lemma_approach_bounds(current: int, target: int, step: int)
    requires
        0 <= step <= UNIT,
    ensures
        target >= current ==> current <= approach(current, target, step) <= target,
        target < current ==> target <= approach(current, target, step) <= current,
{
    if target >= current {
        let d = target - current;
        assert(0 <= d * step <= d * (UNIT as int)) by (nonlinear_arith)
            requires 0 <= step <= UNIT, d >= 0;
        assert(d * (UNIT as int) / (UNIT as int) == d) by (nonlinear_arith);
        vstd::arithmetic::div_mod::lemma_div_is_ordered(d * step, d * (UNIT as int), UNIT as int);
        vstd::arithmetic::div_mod::lemma_div_pos_is_pos(d * step, UNIT as int);
    } else {
        let d = current - target;
        assert(0 <= d * step <= d * (UNIT as int)) by (nonlinear_arith)
            requires 0 <= step <= UNIT, d >= 0;
        assert(d * (UNIT as int) / (UNIT as int) == d) by (nonlinear_arith);
        vstd::arithmetic::div_mod::lemma_div_is_ordered(d * step, d * (UNIT as int), UNIT as int);
        vstd::arithmetic::div_mod::lemma_div_pos_is_pos(d * step, UNIT as int);
    }
}

/// Hover intensity of one interactive element: `current` chases `target`
/// (fully hovered or not at all) at `HOVER_RATE`, frame-rate independent
/// to first order.
#[derive(Clone, Copy)]
pub struct HoverState {
    current: u32,
    target: u32,
}

impl HoverState {
    pub closed spec fn current_spec(&self) -> int {
        self.current as int
    }

    pub closed spec fn target_spec(&self) -> int {
        self.target as int
    }

    pub open spec fn wf(&self) -> bool {
        0 <= self.current_spec() <= UNIT && 0 <= self.target_spec() <= UNIT
    }

    pub open spec fn is_fresh(&self) -> bool {
        self.current_spec() == 0 && self.target_spec() == 0
    }

    pub fn new() -> (r: HoverState)
        ensures
            r.is_fresh(),
            r.wf(),
    {
        HoverState { current: 0, target: 0 }
    }

    /// One frame of the exponential approach, `dt_ms` milliseconds after the
    /// previous one.
    pub fn update(&mut self, hovered: bool, dt_ms: u32)
        requires
            old(self).wf(),
        ensures
            final(self).wf(),
            final(self).target_spec() == (if hovered { UNIT as int } else { 0 }),
            final(self).current_spec() == approach(
                old(self).current_spec(),
                final(self).target_spec(),
                rate_step(HOVER_RATE as int, dt_ms as int),
            ),
    {
        let target: u32 = if hovered { UNIT } else { 0 };
        self.target = target;
        let prod: u64 = (HOVER_RATE as u64) * (dt_ms as u64);
        let step: u32 = if prod > UNIT as u64 { UNIT } else { prod as u32 };
        proof {
            lemma_approach_bounds(
                self.current as int,
                target as int,
                rate_step(HOVER_RATE as int, dt_ms as int),
            );
        }
        if target >= self.current {
            let d: u32 = target - self.current;
            let add: u64 = (d as u64) * (step as u64) / (UNIT as u64);
            self.current = self.current + (add as u32);
        } else {
            let d: u32 = self.current - target;
            let sub: u64 = (d as u64) * (step as u64) / (UNIT as u64);
            self.current = self.current - (sub as u32);
        }
    }

    pub fn value(&self) -> (r: u32)
        ensures
            r == self.current_spec(),
    {
        self.current
    }
}

/// The transition counter after `dt_ms` milliseconds: it grows linearly at
/// `FADE_RATE` and saturates at `UNIT`.
pub open spec fn fade_tick_spec(progress: int, dt_ms: int) -> int {
    if progress + FADE_RATE * dt_ms > UNIT {
        UNIT as int
    } else {
        progress + FADE_RATE * dt_ms
    }
}

/// Cubic ease-out of a transition counter: fast initial movement, gentle
/// settle. Input and output are thousandths.
pub open spec fn ease_out_cubic_spec(t: int) -> int {
    (UNIT as int) - (UNIT - t) * (UNIT - t) * (UNIT - t) / ((UNIT as int) * (UNIT as int))
}

/// The eased fade lies between the raw counter and the top of the range, so
/// it never lags the linear progress and never leaves [0, UNIT].
pub proof fn lemma_ease_bounds(t: int)
    requires
        0 <= t <= UNIT,
    ensures
        t <= ease_out_cubic_spec(t) <= UNIT,
{
    let u = (UNIT as int) - t;
    assert(0 <= u * u * u <= u * (UNIT as int) * (UNIT as int)) by (nonlinear_arith)
        requires 0 <= u <= UNIT;
    assert(u * (UNIT as int) * (UNIT as int) / ((UNIT as int) * (UNIT as int)) == u)
        by (nonlinear_arith);
    vstd::arithmetic::div_mod::lemma_div_is_ordered(
        u * u * u,
        u * (UNIT as int) * (UNIT as int),
        (UNIT as int) * (UNIT as int),
    );
    vstd::arithmetic::div_mod::lemma_div_pos_is_pos(u * u * u, (UNIT as int) * (UNIT as int));
}

/// The eased fade is monotone in the underlying counter.
pub proof fn lemma_ease_monotone(t1: int, t2: int)
    requires
        0 <= t1 <= t2 <= UNIT,
    ensures
        ease_out_cubic_spec(t1) <= ease_out_cubic_spec(t2),
{
    let u1 = (UNIT as int) - t1;
    let u2 = (UNIT as int) - t2;
    assert(u2 * u2 * u2 <= u1 * u1 * u1) by (nonlinear_arith)
        requires 0 <= u2 <= u1;
    vstd::arithmetic::div_mod::lemma_div_is_ordered(
        u2 * u2 * u2,
        u1 * u1 * u1,
        (UNIT as int) * (UNIT as int),
    );
}

/// Computes the cubic ease-out of a fixed-point counter.
pub fn ease_out_cubic(t: u32) -> (r: u32)
    requires
        t <= UNIT,
    ensures
        r == ease_out_cubic_spec(t as int),
        t <= r <= UNIT,
{
    proof {
        lemma_ease_bounds(t as int);
    }
    let u: u64 = (UNIT - t) as u64;
    proof {
        assert((u as int) * (u as int) <= (UNIT as int) * (UNIT as int)) by (nonlinear_arith)
            requires 0 <= u <= UNIT;
        assert((u as int) * (u as int) * (u as int) <= (UNIT as int) * (UNIT as int) * (
        UNIT as int)) by (nonlinear_arith)
            requires 0 <= u <= UNIT;
    }
    let cube: u64 = u * u * u;
    let reduced: u64 = cube / ((UNIT as u64) * (UNIT as u64));
    UNIT - (reduced as u32)
}

/// Progress of the current screen transition: a saturating linear counter,
/// reset to zero on every screen change, displayed through the cubic ease.
pub struct FadeTransition {
    progress: u32,
}

impl FadeTransition {
    pub closed spec fn progress_spec(&self) -> int {
        self.progress as int
    }

    pub open spec fn wf(&self) -> bool {
        0 <= self.progress_spec() <= UNIT
    }

    pub fn new() -> (r: FadeTransition)
        ensures
            r.progress_spec() == 0,
            r.wf(),
    {
        FadeTransition { progress: 0 }
    }

    pub fn reset(&mut self)
        ensures
            final(self).progress_spec() == 0,
            final(self).wf(),
    {
        self.progress = 0;
    }

    /// One frame of the transition, `dt_ms` milliseconds after the previous
    /// one. The counter never decreases.
    pub fn tick(&mut self, dt_ms: u32)
        requires
            old(self).wf(),
        ensures
            final(self).wf(),
            final(self).progress_spec() == fade_tick_spec(old(self).progress_spec(), dt_ms as int),
            old(self).progress_spec() <= final(self).progress_spec(),
    {
        if dt_ms > UNIT {
            self.progress = UNIT;
        } else {
            let grow: u32 = FADE_RATE * dt_ms;
            let total: u32 = self.progress + grow;
            self.progress = if total > UNIT { UNIT } else { total };
        }
    }

    pub fn progress(&self) -> (r: u32)
        ensures
            r == self.progress_spec(),
    {
        self.progress
    }

    /// The displayed fade value: the cubic ease-out of the raw counter.
    pub fn value(&self) -> (r: u32)
        requires
            self.wf(),
        ensures
            r == ease_out_cubic_spec(self.progress_spec()),
            self.progress_spec() <= r <= UNIT,
    {
        ease_out_cubic(self.progress)
    }
}

} // verus!
