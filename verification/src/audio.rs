//! The main volume and the bar that shows it.

use vstd::prelude::*;
use crate::cooldown::Cooldown;
use crate::cooldown::CooldownMode;

verus! {

/// One step of the volume, in percent.
pub const MAIN_VOLUME_DELTA: u8 = 5;

/// How long the volume bar stays after the wheel has turned, in
/// microseconds.
pub const BAR_TIME: u64 = 500_000;

/// Marks on the volume bar.
pub const BAR_LENGTH: usize = 20;

/// The main volume, in percent.
#[derive(Clone, Copy, Debug, PartialEq, Eq, Structural)]
pub struct GameAudio {
    pub main_volume: u8,
}

impl Default for GameAudio {
    fn default() -> (a: GameAudio)
        ensures
            a.main_volume == 50,
    {
        GameAudio { main_volume: 50 }
    }
}

impl GameAudio {
    /// The volume is a percentage.
    pub open spec fn wf(self) -> bool {
        self.main_volume <= 100
    }

    /// The volume after a change by `x` percent, kept between 0 and 100.
    pub open spec fn updated(self, x: i16) -> GameAudio {
        GameAudio {
            main_volume: if self.main_volume + x < 0 {
                0
            } else if self.main_volume + x > 100 {
                100
            } else {
                (self.main_volume + x) as u8
            },
        }
    }

    /// Changes the volume by `x` percent and keeps it between 0 and 100.
    pub fn update(&mut self, x: i16)
        ensures
            *final(self) == old(self).updated(x),
            final(self).wf(),
    {
        let sum: i32 = self.main_volume as i32 + x as i32;
        self.main_volume = if sum < 0 {
            0
        } else if sum > 100 {
            100
        } else {
            sum as u8
        };
    }

    /// Turns the volume by one step against the wheel: a scroll of 1
    /// lowers it, a scroll of -1 raises it, and no scroll leaves it.
    pub fn update_main_volume(&mut self, scroll: i8)
        ensures
            *final(self) == if scroll == 0 {
                *old(self)
            } else {
                old(self).updated((-(scroll as int) * MAIN_VOLUME_DELTA) as i16)
            },
    {
        if scroll == 0 {
            return ;
        }
        self.update(-(scroll as i16) * MAIN_VOLUME_DELTA as i16);
    }
}

/// How many marks of the bar are filled at `percent`: one for each five
/// percent, rounded up, and no more than the bar has.
pub open spec fn bars(percent: u8) -> nat {
    let filled = ((percent + 4) / 5) as nat;
    if filled > BAR_LENGTH {
        BAR_LENGTH as nat
    } else {
        filled
    }
}

/// The volume as a bar of [`BAR_LENGTH`] marks, the filled ones first.
pub fn string_bar(percent: u8) -> (bar: String)
    ensures
        bar@ == Seq::new(bars(percent), |i: int| 'X') + Seq::new(
            (BAR_LENGTH - bars(percent)) as nat,
            |i: int| '_',
        ),
{
    let rounded: usize = (percent as usize + 4) / 5 * 5;
    let filled: usize = if rounded / 5 > BAR_LENGTH {
        BAR_LENGTH
    } else {
        rounded / 5
    };
    let mut bar = String::new();
    let mut i: usize = 0;
    while i < filled
        invariant
            i <= filled,
            bar@ == Seq::new(i as nat, |k: int| 'X'),
        decreases filled - i,
    {
        bar.push('X');
        proof {
            assert(bar@ =~= Seq::new((i + 1) as nat, |k: int| 'X'));
        }
        i = i + 1;
    }
    let ghost full = bar@;
    let mut j: usize = filled;
    while j < BAR_LENGTH
        invariant
            filled <= j <= BAR_LENGTH,
            bar@ == full + Seq::new((j - filled) as nat, |k: int| '_'),
        decreases BAR_LENGTH - j,
    {
        bar.push('_');
        proof {
            assert(bar@ =~= full + Seq::new((j + 1 - filled) as nat, |k: int| '_'));
        }
        j = j + 1;
    }
    bar
}

/// The bar that shows the volume for a while after it has changed.
#[derive(Clone, Copy, Debug, PartialEq, Eq, Structural)]
pub struct Bar {
    pub timer: Cooldown,
    pub visible: bool,
}

impl Default for Bar {
    fn default() -> (b: Bar)
        ensures
            b == (Bar {
                timer: Cooldown {
                    elapsed: 0,
                    duration: BAR_TIME,
                    mode: CooldownMode::Once,
                    just_finished: false,
                },
                visible: false,
            }),
    {
        Bar { timer: Cooldown::new(BAR_TIME, CooldownMode::Once), visible: false }
    }
}

impl Bar {
    /// The bar after a tick: a turn of the wheel shows it and starts
    /// its time anew, and it hides in the tick in which its time runs
    /// out.
    pub open spec fn ticked(self, dt: u64, scroll: i8) -> Bar {
        let timer = self.timer.ticked(dt);
        if scroll != 0 {
            Bar { timer: timer.restarted(), visible: true }
        } else if timer.just_finished {
            Bar { timer, visible: false }
        } else {
            Bar { timer, visible: self.visible }
        }
    }

    /// Advances the bar's time, shows the bar when the wheel turns, and
    /// hides it when its time has run out.
    pub fn tick(&mut self, dt: u64, scroll: i8)
        ensures
            *final(self) == old(self).ticked(dt, scroll),
    {
        self.timer.tick(dt);
        if scroll != 0 {
            self.visible = true;
            self.timer.reset();
        } else if self.timer.just_finished() {
            self.visible = false;
        }
    }
}

} // verus!
