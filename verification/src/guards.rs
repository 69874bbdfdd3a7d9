//! Guard primitives: the binary pause flag and the single-slot re-entrancy
//! latch that wrap every state-mutating entry point.

use vstd::prelude::*;
use crate::errors::VaultError;

verus! {

/// Latch status meaning "no guarded call in progress".
pub const NOT_ENTERED: u8 = 1;

/// Latch status meaning "a guarded call is in progress".
pub const ENTERED: u8 = 2;

/// Emergency pause flag. Pausing blocks deposits and instant exits but
/// deliberately leaves the regular and time-locked exits open, so a pause
/// cannot be used to trap funds.
#[derive(Debug, Clone, Copy, PartialEq, Eq, Structural)]
pub struct Pausable {
    /// Whether operations are currently paused.
    pub paused: bool,
}

impl Pausable {
    /// Fresh, unpaused flag.
    pub fn init() -> (r: Pausable)
        ensures
            !r.paused,
    {
        Pausable { paused: false }
    }

    /// Raise the flag; fails if it is already raised.
    pub fn pause(&mut self) -> (r: Result<(), VaultError>)
        ensures
            old(self).paused ==> r == Err::<(), VaultError>(VaultError::Paused) && *final(self)
                == *old(self),
            !old(self).paused ==> r == Ok::<(), VaultError>(()) && final(self).paused,
    {
        if self.paused {
            return Err(VaultError::Paused);
        }
        self.paused = true;
        Ok(())
    }

    /// Clear the flag; fails if it is not raised.
    pub fn unpause(&mut self) -> (r: Result<(), VaultError>)
        ensures
            !old(self).paused ==> r == Err::<(), VaultError>(VaultError::NotPaused)
                && *final(self) == *old(self),
            old(self).paused ==> r == Ok::<(), VaultError>(()) && !final(self).paused,
    {
        if !self.paused {
            return Err(VaultError::NotPaused);
        }
        self.paused = false;
        Ok(())
    }

    /// Whether operations are currently paused.
    pub fn is_paused(&self) -> (r: bool)
        ensures
            r == self.paused,
    {
        self.paused
    }
}

/// Single-caller re-entrancy latch: a second call into any guarded function
/// while the latch is held must abort with a re-entrancy error.
#[derive(Debug, Clone, Copy, PartialEq, Eq, Structural)]
pub struct ReentrancyGuard {
    /// Latch status: [`NOT_ENTERED`] or [`ENTERED`].
    pub status: u8,
}

impl ReentrancyGuard {
    /// Whether the latch is currently held.
    pub open spec fn entered(self) -> bool {
        self.status == ENTERED
    }

    /// Fresh, released latch.
    pub fn init() -> (r: ReentrancyGuard)
        ensures
            !r.entered(),
    {
        ReentrancyGuard { status: NOT_ENTERED }
    }

    /// Take the latch; fails if it is already held.
    pub fn enter(&mut self) -> (r: Result<(), VaultError>)
        ensures
            old(self).entered() ==> r == Err::<(), VaultError>(VaultError::ReentrancyGuard)
                && *final(self) == *old(self),
            !old(self).entered() ==> r == Ok::<(), VaultError>(()) && final(self).entered(),
    {
        if self.status == ENTERED {
            return Err(VaultError::ReentrancyGuard);
        }
        self.status = ENTERED;
        Ok(())
    }

    /// Release the latch.
    pub fn exit(&mut self)
        ensures
            !final(self).entered(),
            final(self).status == NOT_ENTERED,
    {
        self.status = NOT_ENTERED;
    }

    /// Whether the latch is currently held.
    pub fn is_entered(&self) -> (r: bool)
        ensures
            r == self.entered(),
    {
        self.status == ENTERED
    }
}

} // verus!
