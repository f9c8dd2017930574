//! The check that the page reaches the program: two calls that every page makes
//! when it loads.

use vstd::prelude::*;

verus! {

/// Whether the check runs: where its variable is set at all.
pub fn enabled(set: bool) -> (r: bool)
    ensures
        r == set,
{
    set
}

/// Which of the two calls have come.
#[derive(Clone, Copy, Debug)]
pub struct Handshake {
    pub tray_update: bool,
    pub pending: bool,
}

/// What a call leads to.
#[derive(Clone, Copy, PartialEq, Eq, Structural, Debug)]
pub enum Seen {
    /// It came before.
    Again,
    /// It came for the first time.
    First,
    /// It came for the first time, and now both have.
    Complete,
}

impl Handshake {
    /// Neither call has come.
    pub fn new() -> (r: Handshake)
        ensures
            r == (Handshake { tray_update: false, pending: false }),
    {
        Handshake { tray_update: false, pending: false }
    }

    /// The page reported the timer.
    pub fn on_tray_update(&mut self) -> (r: Seen)
        ensures
            *final(self) == (Handshake { tray_update: true, ..*old(self) }),
            r == (if old(self).tray_update {
                Seen::Again
            } else if old(self).pending {
                Seen::Complete
            } else {
                Seen::First
            }),
    {
        if self.tray_update {
            return Seen::Again;
        }
        self.tray_update = true;
        if self.pending {
            Seen::Complete
        } else {
            Seen::First
        }
    }

    /// The page asked for the popups that were put aside.
    pub fn on_pending_get_held(&mut self) -> (r: Seen)
        ensures
            *final(self) == (Handshake { pending: true, ..*old(self) }),
            r == (if old(self).pending {
                Seen::Again
            } else if old(self).tray_update {
                Seen::Complete
            } else {
                Seen::First
            }),
    {
        if self.pending {
            return Seen::Again;
        }
        self.pending = true;
        if self.tray_update {
            Seen::Complete
        } else {
            Seen::First
        }
    }
}

} // verus!
