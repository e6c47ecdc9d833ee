//! One turn of the frontend's loop: wait, take what has come, draw.

use vstd::prelude::*;

use crate::app::{App, AppV};
use crate::frontend::HandleOutcome;

verus! {

/// How many queued events one turn takes after the first, so that a torrent
/// of output ends up in one frame.
pub const MAX_QUEUED: u16 = 256;

/// What a turn has gathered so far.
#[derive(Debug, Clone, Copy, PartialEq, Eq, Structural)]
pub struct Turn {
    pub needs_draw: bool,
    pub user_interaction: bool,
    /// How many queued events were taken.
    pub queued: u16,
}

/// How a turn ends.
#[derive(Debug, Clone, Copy, PartialEq, Eq, Structural)]
pub enum TurnEnd {
    /// Leave the loop.
    Quit,
    /// Nothing to show.
    Idle,
    /// Lay out and draw; where the user did something, claim the sizes of
    /// the visible surfaces in between.
    Draw { reassert: bool },
}

impl Turn {
    pub fn start() -> (turn: Turn)
        ensures
            turn == (Turn { needs_draw: false, user_interaction: false, queued: 0 }),
    {
        Turn { needs_draw: false, user_interaction: false, queued: 0 }
    }

    /// A turn that has taken an event.
    pub open spec fn with(self, outcome: HandleOutcome) -> Turn {
        Turn {
            needs_draw: self.needs_draw || outcome.needs_draw,
            user_interaction: self.user_interaction || outcome.user_interaction,
            ..self
        }
    }

    /// Takes an event's outcome into account.
    pub fn take(&mut self, outcome: HandleOutcome)
        ensures
            *final(self) == old(self).with(outcome),
    {
        self.needs_draw = self.needs_draw || outcome.needs_draw;
        self.user_interaction = self.user_interaction || outcome.user_interaction;
    }

    /// Whether to look for another queued event, and counts it.
    pub fn wants_queued(&mut self) -> (more: bool)
        ensures
            more == (old(self).queued < MAX_QUEUED),
            *final(self) == (Turn {
                queued: if more {
                    (old(self).queued + 1) as u16
                } else {
                    old(self).queued
                },
                ..*old(self)
            }),
    {
        if self.queued < MAX_QUEUED {
            self.queued = self.queued + 1;
            true
        } else {
            false
        }
    }

    /// Nothing came in time: what moves by itself is drawn again. `scrolled`
    /// tells whether a selection's drag has scrolled its text.
    pub fn timed_out(&mut self, app: &mut App, scrolled: bool, now: u64)
        ensures
            final(app)@ == old(app)@.toast_checked(now),
            old(app).wf() ==> final(app).wf(),
            *final(self) == (Turn {
                needs_draw: old(app)@.shake_frames > 0 || scrolled || old(app)@.toast_over(now),
                ..*old(self)
            }),
    {
        let shaking = app.shake_frames > 0;
        let expired = app.expire_toast(now);
        self.needs_draw = shaking || scrolled || expired;
    }

    /// Ends the turn.
    pub fn finish(&self, app: &mut App, now: u64) -> (end: TurnEnd)
        ensures
            end == if old(app)@.quit {
                TurnEnd::Quit
            } else if self.needs_draw || old(app)@.toast_over(now) {
                TurnEnd::Draw { reassert: self.user_interaction }
            } else {
                TurnEnd::Idle
            },
            old(app).wf() ==> final(app).wf(),
            final(app)@ == if old(app)@.quit {
                old(app)@
            } else {
                old(app)@.toast_checked(now)
            },
    {
        if app.quit {
            return TurnEnd::Quit;
        }
        if app.expire_toast(now) || self.needs_draw {
            TurnEnd::Draw { reassert: self.user_interaction }
        } else {
            TurnEnd::Idle
        }
    }
}

impl AppV {
    /// The message's time is over.
    pub open spec fn toast_over(self, now: u64) -> bool {
        self.toast matches Some(toast) && now >= toast.deadline
    }

    /// A message whose time is over goes away.
    pub open spec fn toast_checked(self, now: u64) -> AppV {
        if self.toast_over(now) {
            AppV { toast: None, ..self }
        } else {
            self
        }
    }
}

} // verus!
