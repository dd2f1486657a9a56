//! The accumulators of a session: score, kills, deaths and the combo meter.

use vstd::prelude::*;

verus! {

/// A full combo meter: one hundred percent, in millionths of a percent.
pub const COMBO_FULL: u32 = 100_000_000;

/// Combo progress lost each microsecond, in millionths of a percent
/// (twenty percent each second).
pub const COMBO_DECAY: u64 = 20;

/// `a + b`, capped at `u32::MAX`.
pub open spec fn capped_sum(a: u32, b: u32) -> u32 {
    if a + b > u32::MAX {
        u32::MAX
    } else {
        (a + b) as u32
    }
}

/// Points earned in the session.
#[derive(Clone, Copy, Debug, PartialEq, Eq, Structural)]
pub struct PlayerScore {
    pub score: u32,
}

impl PlayerScore {
    /// The score after `addition` points, stopping at `u32::MAX`.
    pub open spec fn added(self, addition: u32) -> PlayerScore {
        PlayerScore { score: capped_sum(self.score, addition) }
    }

    pub fn new() -> (s: PlayerScore)
        ensures
            s.score == 0,
    {
        PlayerScore { score: 0 }
    }

    pub fn score(&self) -> (s: u32)
        ensures
            s == self.score,
    {
        self.score
    }

    /// Adds `addition` points; the score stops at `u32::MAX`.
    pub fn add(&mut self, addition: u32)
        ensures
            *final(self) == old(self).added(addition),
            final(self).score >= old(self).score,
    {
        self.score = self.score.saturating_add(addition);
    }
}

impl Default for PlayerScore {
    fn default() -> (s: PlayerScore)
        ensures
            s.score == 0,
    {
        PlayerScore { score: 0 }
    }
}

/// Enemies defeated in the session.
#[derive(Clone, Copy, Debug, PartialEq, Eq, Structural)]
pub struct KillCounter {
    pub kills: u32,
}

impl KillCounter {
    /// The count after one more kill, stopping at `u32::MAX`.
    pub open spec fn increased(self) -> KillCounter {
        KillCounter { kills: capped_sum(self.kills, 1) }
    }

    pub fn new() -> (k: KillCounter)
        ensures
            k.kills == 0,
    {
        KillCounter { kills: 0 }
    }

    /// Counts one more kill; the count stops at `u32::MAX`.
    pub fn increase(&mut self)
        ensures
            *final(self) == old(self).increased(),
            final(self).kills >= old(self).kills,
    {
        self.kills = self.kills.saturating_add(1);
    }

    pub fn kills(&self) -> (k: u32)
        ensures
            k == self.kills,
    {
        self.kills
    }
}

impl Default for KillCounter {
    fn default() -> (k: KillCounter)
        ensures
            k.kills == 0,
    {
        KillCounter { kills: 0 }
    }
}

/// Times the player was defeated.
#[derive(Clone, Copy, Debug, PartialEq, Eq, Structural)]
pub struct DeathCounter {
    pub kills: u32,
}

impl DeathCounter {
    pub fn new() -> (k: DeathCounter)
        ensures
            k.kills == 0,
    {
        DeathCounter { kills: 0 }
    }

    /// Counts one more defeat; the count stops at `u32::MAX`.
    pub fn increase(&mut self)
        ensures
            final(self).kills == capped_sum(old(self).kills, 1),
            final(self).kills >= old(self).kills,
    {
        self.kills = self.kills.saturating_add(1);
    }

    pub fn kills(&self) -> (k: u32)
        ensures
            k == self.kills,
    {
        self.kills
    }
}

impl Default for DeathCounter {
    fn default() -> (k: DeathCounter)
        ensures
            k.kills == 0,
    {
        DeathCounter { kills: 0 }
    }
}

/// Combo progress between nothing and [`COMBO_FULL`].
#[derive(Clone, Copy, Debug, PartialEq, Eq, Structural)]
pub struct ComboMeter {
    pub progress: u32,
}

impl ComboMeter {
    /// The progress is no more than [`COMBO_FULL`].
    pub open spec fn wf(self) -> bool {
        self.progress <= COMBO_FULL
    }

    /// The meter after a loss of `decay`, not below zero.
    pub open spec fn decayed(self, decay: u64) -> ComboMeter {
        ComboMeter {
            progress: if decay >= self.progress {
                0
            } else {
                (self.progress - decay) as u32
            },
        }
    }

    /// The meter after a gain of `addition`, not above [`COMBO_FULL`].
    pub open spec fn increased(self, addition: u32) -> ComboMeter {
        ComboMeter {
            progress: if self.progress + addition >= COMBO_FULL {
                COMBO_FULL
            } else {
                (self.progress + addition) as u32
            },
        }
    }

    /// What the meter loses in `dt` microseconds.
    pub open spec fn decay_over(dt: u64) -> u64 {
        if COMBO_DECAY * dt > u64::MAX {
            u64::MAX
        } else {
            (COMBO_DECAY * dt) as u64
        }
    }

    /// A full meter.
    pub fn new() -> (m: ComboMeter)
        ensures
            m.progress == COMBO_FULL,
            m.wf(),
    {
        ComboMeter { progress: COMBO_FULL }
    }

    /// Lowers the progress by `decay`, not below zero.
    pub fn decay(&mut self, decay: u64)
        ensures
            *final(self) == old(self).decayed(decay),
            old(self).wf() ==> final(self).wf(),
    {
        if decay >= self.progress as u64 {
            self.progress = 0;
        } else {
            self.progress = self.progress - decay as u32;
        }
    }

    pub fn progress(&self) -> (p: u32)
        ensures
            p == self.progress,
    {
        self.progress
    }

    /// Raises the progress by `addition`, not above [`COMBO_FULL`].
    pub fn increase(&mut self, addition: u32)
        ensures
            *final(self) == old(self).increased(addition),
            final(self).wf(),
    {
        if self.progress as u64 + addition as u64 >= COMBO_FULL as u64 {
            self.progress = COMBO_FULL;
        } else {
            self.progress = self.progress + addition;
        }
    }

    /// The continuous decay over `dt` microseconds.
    pub fn decay_combo_progress(&mut self, dt: u64)
        ensures
            *final(self) == old(self).decayed(Self::decay_over(dt)),
            old(self).wf() ==> final(self).wf(),
    {
        let amount: u64 = match COMBO_DECAY.checked_mul(dt) {
            Some(a) => a,
            None => u64::MAX,
        };
        self.decay(amount);
    }
}

impl Default for ComboMeter {
    fn default() -> (m: ComboMeter)
        ensures
            m.progress == COMBO_FULL,
    {
        ComboMeter { progress: COMBO_FULL }
    }
}

} // verus!
