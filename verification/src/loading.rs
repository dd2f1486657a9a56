//! The spinner of the loading screen.

use vstd::prelude::*;

verus! {

/// How long each mark of the spinner stays, in microseconds.
pub const LOADING_TICKER_TIME: u64 = 150_000;

/// The state of the spinner.
#[derive(Clone, Copy, Debug, PartialEq, Eq, Structural)]
pub struct LoadingTicker {
    /// Time since the mark changed.
    pub ticks: u64,
    /// Which way the next slanted mark leans.
    pub forward: bool,
    /// The mark shown; a blank before the first.
    pub mark: char,
}

impl Default for LoadingTicker {
    fn default() -> (t: LoadingTicker)
        ensures
            t == (LoadingTicker { ticks: 0, forward: false, mark: ' ' }),
    {
        LoadingTicker { ticks: 0, forward: false, mark: ' ' }
    }
}

impl LoadingTicker {
    /// The mark that follows: a slash is followed by a dash, a backslash
    /// by a bar, and anything else by a slash and a backslash in turn.
    pub open spec fn turned(self) -> LoadingTicker {
        if self.mark == '/' {
            LoadingTicker { ticks: 0, mark: '-', ..self }
        } else if self.mark == '\\' {
            LoadingTicker { ticks: 0, mark: '|', ..self }
        } else if !self.forward {
            LoadingTicker { ticks: 0, forward: true, mark: '/' }
        } else {
            LoadingTicker { ticks: 0, forward: false, mark: '\\' }
        }
    }

    /// The spinner after `dt` microseconds: it turns once its mark has
    /// stayed for [`LOADING_TICKER_TIME`].
    pub open spec fn ticked(self, dt: u64) -> LoadingTicker {
        if self.ticks + dt < LOADING_TICKER_TIME {
            LoadingTicker { ticks: (self.ticks + dt) as u64, ..self }
        } else {
            self.turned()
        }
    }

    /// Advances the spinner and tells whether its mark has changed.
    pub fn animate_loading_texts(&mut self, dt: u64) -> (changed: bool)
        ensures
            *final(self) == old(self).ticked(dt),
            changed == (old(self).ticks + dt >= LOADING_TICKER_TIME),
    {
        let ticks = self.ticks.saturating_add(dt);
        if ticks < LOADING_TICKER_TIME {
            self.ticks = ticks;
            return false;
        }
        self.ticks = 0;
        if self.mark == '/' {
            self.mark = '-';
        } else if self.mark == '\\' {
            self.mark = '|';
        } else {
            self.forward = !self.forward;
            self.mark = if self.forward {
                '/'
            } else {
                '\\'
            };
        }
        true
    }
}

/// The spinner shows slash, dash, backslash and bar in turn.
pub proof fn lemma_spinner_cycles(t: LoadingTicker)
    requires
        t.mark == '|' || t.mark == ' ',
        !t.forward,
    ensures
        t.turned().mark == '/',
        t.turned().turned().mark == '-',
        t.turned().turned().turned().mark == '\\',
        t.turned().turned().turned().turned().mark == '|',
        !t.turned().turned().turned().turned().forward,
{
}

} // verus!
