//! Whether an edit is in flight, and when the user was last active.

use crate::error::VaultError;
use vstd::prelude::*;

verus! {

/// Microseconds in a minute.
pub const MICROS_PER_MINUTE: u64 = 60_000_000;

/// Full minutes of inactivity after which a session ends.
pub const IDLE_LIMIT_MINUTES: u64 = 10;

/// The full minutes that have passed from `earlier` to `later`, both in
/// microseconds; none if `later` is not after `earlier`.
pub open spec fn full_minutes_between(earlier: u64, later: u64) -> int {
    if later >= earlier {
        (later - earlier) / (MICROS_PER_MINUTE as int)
    } else {
        0
    }
}

/// With no edit in flight, a session has expired once it has been idle
/// for [`IDLE_LIMIT_MINUTES`] full minutes. An edit in flight keeps it
/// alive, however long it has been idle.
pub open spec fn expired(editing: bool, last_active: u64, now: u64) -> bool {
    !editing && full_minutes_between(last_active, now) >= IDLE_LIMIT_MINUTES
}

/// The editing state of a session. Times are microseconds on the clock of
/// the caller.
pub struct EditingState {
    editing: Option<String>,
    last_active: u64,
}

impl EditingState {
    /// The text as it was when the edit in flight began, if there is one.
    pub closed spec fn snapshot(&self) -> Option<Seq<char>> {
        match self.editing {
            Some(text) => Some(text@),
            None => None,
        }
    }

    /// When the user was last active.
    pub closed spec fn last_active(&self) -> u64 {
        self.last_active
    }

    /// No edit in flight; last active at `now`.
    pub fn new(now: u64) -> (state: Self)
        ensures
            state.snapshot() is None,
            state.last_active() == now,
    {
        EditingState { editing: None, last_active: now }
    }

    /// Whether an edit is in flight.
    pub fn is_editing(&self) -> (editing: bool)
        ensures
            editing == (self.snapshot() is Some),
    {
        self.editing.is_some()
    }

    /// When the user was last active.
    pub fn last_active_at(&self) -> (at: u64)
        ensures
            at == self.last_active(),
    {
        self.last_active
    }

    /// Ends the edit in flight and hands out the text as it was before it.
    pub fn finish_editing(&mut self) -> (before: String)
        requires
            old(self).snapshot() is Some,
        ensures
            Some(before@) == old(self).snapshot(),
            final(self).snapshot() is None,
            final(self).last_active() == old(self).last_active(),
    {
        self.editing.take().unwrap()
    }

    /// Ends the edit in flight, if there is one.
    pub fn stop_editing(&mut self)
        ensures
            final(self).snapshot() is None,
            final(self).last_active() == old(self).last_active(),
    {
        self.editing = None;
    }

    /// Records that the user was active at `now`.
    pub fn extend_expiration_time(&mut self, now: u64)
        ensures
            final(self).snapshot() == old(self).snapshot(),
            final(self).last_active() == now,
    {
        self.last_active = now;
    }

    /// Begins an edit of `current_text` at `now`. While an edit is in
    /// flight no other can begin: the call is refused with
    /// `InvariantViolation`, and the snapshot of the edit in flight stays.
    pub fn start_editing(&mut self, current_text: String, now: u64) -> (result: Result<
        (),
        VaultError,
    >)
        ensures
            match old(self).snapshot() {
                None => {
                    &&& result is Ok
                    &&& final(self).snapshot() == Some(current_text@)
                    &&& final(self).last_active() == now
                },
                Some(_) => {
                    &&& result == Err::<(), VaultError>(VaultError::InvariantViolation)
                    &&& final(self).snapshot() == old(self).snapshot()
                    &&& final(self).last_active() == old(self).last_active()
                },
            },
    {
        if self.editing.is_some() {
            return Err(VaultError::InvariantViolation);
        }
        self.editing = Some(current_text);
        self.last_active = now;
        Ok(())
    }

    /// Whether the session has expired at `now`.
    pub fn activity_expired(&self, now: u64) -> (gone: bool)
        ensures
            gone == expired(self.snapshot() is Some, self.last_active(), now),
    {
        if self.editing.is_some() {
            return false;
        }
        if now < self.last_active {
            return false;
        }
        (now - self.last_active) / MICROS_PER_MINUTE >= IDLE_LIMIT_MINUTES
    }

    /// The text as it was when the edit in flight began; empty if there is
    /// none.
    pub fn editing_value(&self) -> (text: &str)
        ensures
            text@ == match self.snapshot() {
                Some(t) => t,
                None => Seq::<char>::empty(),
            },
    {
        match self.editing.as_ref() {
            Some(value) => value.as_str(),
            None => {
                proof {
                    reveal_strlit("");
                }
                assert(""@ =~= Seq::<char>::empty());
                ""
            },
        }
    }

    /// The text as it was when the edit in flight began.
    pub fn editing_value_mut(&self) -> (text: &str)
        requires
            self.snapshot() is Some,
        ensures
            Some(text@) == self.snapshot(),
    {
        self.editing.as_ref().unwrap().as_str()
    }
}

} // verus!
