//! The countdown that gates every timed action.

use vstd::prelude::*;
use vstd::arithmetic::div_mod::*;

verus! {

/// What a cooldown does once its duration has elapsed.
#[derive(Clone, Copy, Debug, PartialEq, Eq, Structural)]
pub enum CooldownMode {
    /// Stays finished until it is reset.
    Once,
    /// Fires and starts the next cycle with the time left over.
    Repeating,
}

/// A countdown over microseconds.
#[derive(Clone, Copy, Debug, PartialEq, Eq, Structural)]
pub struct Cooldown {
    /// Time since the cycle began, never more than `duration`.
    pub elapsed: u64,
    pub duration: u64,
    pub mode: CooldownMode,
    /// Set by the tick that completes a cycle, cleared by the next.
    pub just_finished: bool,
}

/// Sum of a sequence of time steps.
pub open spec fn total(deltas: Seq<u64>) -> nat
    decreases deltas.len(),
{
    if deltas.len() == 0 {
        0
    } else {
        total(deltas.drop_last()) + deltas.last() as nat
    }
}

impl Cooldown {
    /// Elapsed time never exceeds the duration, and a one-shot cooldown that
    /// has just finished stands exactly at its duration.
    pub open spec fn wf(self) -> bool {
        &&& self.elapsed <= self.duration
        &&& (self.just_finished && self.mode == CooldownMode::Once ==> self.elapsed
            == self.duration)
    }

    /// Whether the cooldown has run out: a one-shot one once its time has
    /// elapsed, a repeating one in the tick that completes a cycle.
    pub open spec fn is_finished(self) -> bool {
        match self.mode {
            CooldownMode::Once => self.elapsed >= self.duration,
            CooldownMode::Repeating => self.just_finished,
        }
    }

    /// The cooldown after `dt` microseconds. A one-shot cooldown stops at
    /// its duration; a repeating one starts the next cycle with the time
    /// that is left over.
    pub open spec fn ticked(self, dt: u64) -> Cooldown {
        match self.mode {
            CooldownMode::Once => if self.elapsed >= self.duration {
                Cooldown { just_finished: false, ..self }
            } else if self.elapsed + dt >= self.duration {
                Cooldown { elapsed: self.duration, just_finished: true, ..self }
            } else {
                Cooldown { elapsed: (self.elapsed + dt) as u64, just_finished: false, ..self }
            },
            CooldownMode::Repeating => if self.duration == 0 {
                Cooldown { elapsed: 0, just_finished: true, ..self }
            } else if self.elapsed + dt >= self.duration {
                Cooldown {
                    elapsed: ((self.elapsed + dt) % (self.duration as int)) as u64,
                    just_finished: true,
                    ..self
                }
            } else {
                Cooldown { elapsed: (self.elapsed + dt) as u64, just_finished: false, ..self }
            },
        }
    }

    /// The cooldown at the start of its cycle.
    pub open spec fn restarted(self) -> Cooldown {
        Cooldown { elapsed: 0, just_finished: false, ..self }
    }

    /// The cooldown with a new duration, at the start of its cycle.
    pub open spec fn rearmed(self, duration: u64) -> Cooldown {
        Cooldown { elapsed: 0, duration, just_finished: false, ..self }
    }

    /// The cooldown after the ticks `deltas`, in order.
    pub open spec fn run(self, deltas: Seq<u64>) -> Cooldown
        decreases deltas.len(),
    {
        if deltas.len() == 0 {
            self
        } else {
            self.run(deltas.drop_last()).ticked(deltas.last())
        }
    }

    /// How many of the ticks `deltas` end with `just_finished` set.
    pub open spec fn firings(self, deltas: Seq<u64>) -> nat
        decreases deltas.len(),
    {
        if deltas.len() == 0 {
            0
        } else {
            self.firings(deltas.drop_last()) + if self.run(deltas).just_finished {
                1nat
            } else {
                0nat
            }
        }
    }

    /// Elapsed time in thousandths of the duration; a zero duration counts as complete.
    pub open spec fn permille_spec(self) -> nat {
        if self.duration == 0 {
            1000
        } else {
            (self.elapsed * 1000 / (self.duration as int)) as nat
        }
    }
}

impl Cooldown {
    /// A cooldown of `duration` microseconds with nothing elapsed.
    pub fn new(duration: u64, mode: CooldownMode) -> (c: Cooldown)
        ensures
            c == (Cooldown { elapsed: 0, duration, mode, just_finished: false }),
            c.wf(),
    {
        Cooldown { elapsed: 0, duration, mode, just_finished: false }
    }

    /// A one-shot cooldown of `duration` microseconds that has already run out.
    pub fn ready(duration: u64) -> (c: Cooldown)
        ensures
            c == (Cooldown {
                elapsed: duration,
                duration,
                mode: CooldownMode::Once,
                just_finished: false,
            }),
            c.wf(),
            c.is_finished(),
    {
        Cooldown { elapsed: duration, duration, mode: CooldownMode::Once, just_finished: false }
    }

    /// Advances the cooldown by `dt` microseconds.
    pub fn tick(&mut self, dt: u64)
        ensures
            *final(self) == old(self).ticked(dt),
            old(self).wf() ==> final(self).wf(),
    {
        proof {
            if self.wf() {
                lemma_wf_preserved(*self, dt, 0);
            }
        }
        match self.mode {
            CooldownMode::Once => {
                if self.elapsed >= self.duration {
                    self.just_finished = false;
                } else if dt >= self.duration - self.elapsed {
                    self.elapsed = self.duration;
                    self.just_finished = true;
                } else {
                    self.elapsed = self.elapsed + dt;
                    self.just_finished = false;
                }
            },
            CooldownMode::Repeating => {
                if self.duration == 0 {
                    self.elapsed = 0;
                    self.just_finished = true;
                } else {
                    let sum: u128 = self.elapsed as u128 + dt as u128;
                    if sum >= self.duration as u128 {
                        let rest: u128 = sum % (self.duration as u128);
                        self.elapsed = rest as u64;
                        self.just_finished = true;
                    } else {
                        self.elapsed = sum as u64;
                        self.just_finished = false;
                    }
                }
            },
        }
    }

    /// Starts the current cycle over.
    pub fn reset(&mut self)
        ensures
            *final(self) == old(self).restarted(),
            final(self).wf(),
    {
        self.elapsed = 0;
        self.just_finished = false;
    }

    /// Gives the cooldown a new duration and starts it over.
    pub fn rearm(&mut self, duration: u64)
        ensures
            *final(self) == old(self).rearmed(duration),
            final(self).wf(),
    {
        self.duration = duration;
        self.elapsed = 0;
        self.just_finished = false;
    }

    pub fn finished(&self) -> (b: bool)
        ensures
            b == self.is_finished(),
    {
        match self.mode {
            CooldownMode::Once => self.elapsed >= self.duration,
            CooldownMode::Repeating => self.just_finished,
        }
    }

    pub fn just_finished(&self) -> (b: bool)
        ensures
            b == self.just_finished,
    {
        self.just_finished
    }

    pub fn elapsed(&self) -> (e: u64)
        ensures
            e == self.elapsed,
    {
        self.elapsed
    }

    pub fn duration(&self) -> (d: u64)
        ensures
            d == self.duration,
    {
        self.duration
    }

    pub fn mode(&self) -> (m: CooldownMode)
        ensures
            m == self.mode,
    {
        self.mode
    }

    /// Elapsed time in thousandths of the duration.
    pub fn permille(&self) -> (p: u64)
        ensures
            p == if self.permille_spec() <= u64::MAX {
                self.permille_spec()
            } else {
                u64::MAX as nat
            },
    {
        if self.duration == 0 {
            1000
        } else {
            let q: u128 = (self.elapsed as u128 * 1000) / (self.duration as u128);
            if q > u64::MAX as u128 {
                u64::MAX
            } else {
                q as u64
            }
        }
    }
}

/// Adding `b` to a number moves its quotient and remainder by those of
/// `b` plus the old remainder.
proof fn lemma_carry(x: nat, b: nat, d: nat)
    requires
        d > 0,
    ensures
        (x + b) % d == ((x % d) + b) % d,
        (x + b) / d == x / d + ((x % d) + b) / d,
{
    let q = (x / d) as int;
    let r = (x % d) as int;
    lemma_fundamental_div_mod(x as int, d as int);
    lemma_mod_bound(x as int, d as int);
    let s = r + b;
    lemma_fundamental_div_mod(s, d as int);
    lemma_mod_bound(s, d as int);
    let q2 = s / (d as int);
    let r2 = s % (d as int);
    assert((x + b) as int == (q + q2) * d + r2) by (nonlinear_arith)
        requires
            x as int == d * q + r,
            s == d * q2 + r2,
            s == r + b,
    ;
    lemma_fundamental_div_mod_converse((x + b) as int, d as int, q + q2, r2);
}

/// Ticking, resetting and rearming keep a cooldown well-formed.
pub proof fn lemma_wf_preserved(c: Cooldown, dt: u64, duration: u64)
    requires
        c.wf(),
    ensures
        c.ticked(dt).wf(),
        c.restarted().wf(),
        c.rearmed(duration).wf(),
        c.ticked(dt).duration == c.duration,
        c.ticked(dt).mode == c.mode,
{
    if c.mode == CooldownMode::Repeating && c.duration > 0 {
        lemma_mod_bound((c.elapsed + dt) as int, c.duration as int);
    }
}

/// Where a one-shot cooldown stands after a run of ticks: at its duration
/// once the ticks add up to what was left, and at the sum before that.
pub proof fn lemma_once_run(c: Cooldown, deltas: Seq<u64>)
    requires
        c.mode == CooldownMode::Once,
        c.elapsed < c.duration,
    ensures
        c.run(deltas).mode == CooldownMode::Once,
        c.run(deltas).duration == c.duration,
        c.run(deltas).elapsed == if c.elapsed + total(deltas) >= c.duration {
            c.duration as int
        } else {
            c.elapsed + total(deltas)
        },
    decreases deltas.len(),
{
    if deltas.len() > 0 {
        lemma_once_run(c, deltas.drop_last());
    }
}

/// A one-shot cooldown is finished as soon as its ticks add up to its
/// duration.
pub proof fn lemma_once_finishes(c: Cooldown, deltas: Seq<u64>)
    requires
        c.mode == CooldownMode::Once,
        c.elapsed + total(deltas) >= c.duration,
    ensures
        c.run(deltas).is_finished(),
    decreases deltas.len(),
{
    if c.elapsed < c.duration {
        lemma_once_run(c, deltas);
    } else {
        lemma_once_stays_finished(c, deltas);
    }
}

/// A finished one-shot cooldown stays finished whatever ticks follow.
pub proof fn lemma_once_stays_finished(c: Cooldown, deltas: Seq<u64>)
    requires
        c.mode == CooldownMode::Once,
        c.is_finished(),
    ensures
        c.run(deltas).is_finished(),
        c.run(deltas).mode == CooldownMode::Once,
        c.run(deltas).elapsed == c.elapsed,
        c.run(deltas).duration == c.duration,
        c.firings(deltas) == 0,
    decreases deltas.len(),
{
    if deltas.len() > 0 {
        lemma_once_stays_finished(c, deltas.drop_last());
    }
}

/// Between two resets a one-shot cooldown reports `just_finished` on
/// exactly one tick if the ticks reach its duration, and on none otherwise.
pub proof fn lemma_once_fires_once(c: Cooldown, deltas: Seq<u64>)
    requires
        c.mode == CooldownMode::Once,
        !c.is_finished(),
    ensures
        c.firings(deltas) == if c.elapsed + total(deltas) >= c.duration {
            1nat
        } else {
            0nat
        },
    decreases deltas.len(),
{
    if deltas.len() > 0 {
        let init = deltas.drop_last();
        lemma_once_fires_once(c, init);
        lemma_once_run(c, init);
    }
}

/// A repeating cooldown keeps the time that is left over from whole
/// cycles.
pub proof fn lemma_repeating_run(c: Cooldown, deltas: Seq<u64>)
    requires
        c.mode == CooldownMode::Repeating,
        c.duration > 0,
        c.elapsed < c.duration,
    ensures
        c.run(deltas).mode == CooldownMode::Repeating,
        c.run(deltas).duration == c.duration,
        c.run(deltas).elapsed == (c.elapsed + total(deltas)) % (c.duration as int),
    decreases deltas.len(),
{
    if deltas.len() == 0 {
        lemma_small_mod(c.elapsed as nat, c.duration as nat);
    } else {
        let init = deltas.drop_last();
        lemma_repeating_run(c, init);
        let before = c.run(init);
        lemma_carry((c.elapsed + total(init)) as nat, deltas.last() as nat, c.duration as nat);
        lemma_mod_bound((c.elapsed + total(init)) as int, c.duration as int);
        if before.elapsed + deltas.last() < c.duration {
            lemma_small_mod((before.elapsed + deltas.last()) as nat, c.duration as nat);
        }
    }
}

/// A repeating cooldown is finished after exactly those ticks that complete
/// a cycle, and a reset clears it.
pub proof fn lemma_repeating_finished(c: Cooldown, dt: u64)
    requires
        c.mode == CooldownMode::Repeating,
    ensures
        c.ticked(dt).is_finished() <==> c.elapsed + dt >= c.duration,
        c.ticked(dt).just_finished == c.ticked(dt).is_finished(),
        !c.ticked(dt).restarted().is_finished(),
{
}

/// With ticks no longer than a cycle, a repeating cooldown reports
/// `just_finished` once for every cycle completed.
pub proof fn lemma_repeating_fires_once_per_cycle(c: Cooldown, deltas: Seq<u64>)
    requires
        c.mode == CooldownMode::Repeating,
        c.duration > 0,
        c.elapsed < c.duration,
        forall|i: int| 0 <= i < deltas.len() ==> deltas[i] <= c.duration,
    ensures
        c.firings(deltas) == (c.elapsed + total(deltas)) / (c.duration as int),
    decreases deltas.len(),
{
    if deltas.len() == 0 {
        lemma_basic_div(c.elapsed as int, c.duration as int);
    } else {
        let init = deltas.drop_last();
        let last = deltas.last();
        lemma_repeating_fires_once_per_cycle(c, init);
        lemma_repeating_run(c, init);
        let before = c.run(init);
        let d = c.duration;
        lemma_carry((c.elapsed + total(init)) as nat, last as nat, d as nat);
        lemma_mod_bound((c.elapsed + total(init)) as int, d as int);
        let s = before.elapsed + last;
        if s < d {
            lemma_basic_div(s as int, d as int);
        } else {
            lemma_fundamental_div_mod_converse(s as int, d as int, 1, s - d);
        }
    }
}

} // verus!
