//! Fixed-step timing: how many game updates a frame runs, when an enemy
//! starts a dive, and when the player's gun may fire again.

use vstd::prelude::*;

verus! {

/// Length of one game update, in nanoseconds (one sixtieth of a second).
pub const TICK_NS: u64 = 16_666_667;

/// The longest frame time counted, in nanoseconds; longer frames are cut to
/// this so that a stall does not trigger a burst of updates.
pub const MAX_FRAME_NS: u64 = 100_000_000;

/// Number of updates between two enemy dives.
pub const DIVE_INTERVAL: u32 = 180;

/// Number of updates the gun needs to recover after a shot.
pub const FIRE_COOLDOWN: u32 = 12;

/// The part of a frame's time that is counted.
pub open spec fn counted(elapsed_ns: u64) -> int {
    if elapsed_ns < MAX_FRAME_NS {
        elapsed_ns as int
    } else {
        MAX_FRAME_NS as int
    }
}

/// A frame's counted time is its whole time up to `MAX_FRAME_NS`, and
/// `MAX_FRAME_NS` beyond: never more than the frame took, and a frame
/// shorter than the cap loses nothing.
pub proof fn lemma_counted_is_capped_time(elapsed_ns: u64)
    ensures
        counted(elapsed_ns) <= elapsed_ns,
        counted(elapsed_ns) <= MAX_FRAME_NS,
        counted(elapsed_ns) == elapsed_ns || counted(elapsed_ns) == MAX_FRAME_NS,
        elapsed_ns < MAX_FRAME_NS ==> counted(elapsed_ns) == elapsed_ns,
{
}

/// Accumulates frame time and hands it out in whole updates.
pub struct FrameClock {
    accumulator_ns: u64,
}

impl FrameClock {
    #[verifier::type_invariant]
    spec fn inv(self) -> bool {
        self.accumulator_ns < TICK_NS
    }

    /// Time counted but not yet spent on updates, in nanoseconds.
    pub closed spec fn pending(&self) -> int {
        self.accumulator_ns as int
    }

    /// A clock with no time pending.
    pub fn new() -> (c: Self)
        ensures
            c.pending() == 0,
    {
        FrameClock { accumulator_ns: 0 }
    }

    /// Time counted but not yet spent on updates, in nanoseconds.
    pub fn pending_ns(&self) -> (ns: u64)
        ensures
            ns == self.pending(),
            ns < TICK_NS,
    {
        proof {
            use_type_invariant(self);
        }
        self.accumulator_ns
    }

    /// Counts a frame that took `elapsed_ns` (at most `MAX_FRAME_NS` of it)
    /// and returns how many whole updates are now due; their time is taken
    /// off what is pending.
    pub fn advance(&mut self, elapsed_ns: u64) -> (ticks: u64)
        ensures
            ticks * TICK_NS + final(self).pending() == old(self).pending() + counted(elapsed_ns),
            elapsed_ns < MAX_FRAME_NS ==> ticks * TICK_NS + final(self).pending() == old(
                self,
            ).pending() + elapsed_ns,
            elapsed_ns >= MAX_FRAME_NS ==> ticks * TICK_NS + final(self).pending() == old(
                self,
            ).pending() + MAX_FRAME_NS,
            final(self).pending() < TICK_NS,
            ticks <= 6,
    {
        proof {
            use_type_invariant(&*self);
        }
        let dt = if elapsed_ns < MAX_FRAME_NS {
            elapsed_ns
        } else {
            MAX_FRAME_NS
        };
        let start = self.accumulator_ns;
        let mut acc = start + dt;
        let mut ticks: u64 = 0;
        while acc >= TICK_NS
            invariant
                ticks * TICK_NS + acc == start + counted(elapsed_ns),
                start == old(self).pending(),
                start < TICK_NS,
                ticks <= 6,
                acc >= TICK_NS ==> ticks < 6,
            decreases acc,
        {
            acc = acc - TICK_NS;
            ticks = ticks + 1;
            assert(acc >= TICK_NS ==> ticks < 6) by (nonlinear_arith)
                requires
                    ticks * TICK_NS + acc == start + counted(elapsed_ns),
                    start < TICK_NS,
                    counted(elapsed_ns) <= MAX_FRAME_NS,
                    ticks >= 1,
            ;
        }
        self.accumulator_ns = acc;
        ticks
    }
}

/// Counts updates until the next enemy dive.
pub struct DiveTimer {
    ticks: u32,
}

impl DiveTimer {
    /// Updates counted since the last dive.
    pub closed spec fn count(&self) -> int {
        self.ticks as int
    }

    /// A timer that has counted nothing.
    pub fn new() -> (t: Self)
        ensures
            t.count() == 0,
    {
        DiveTimer { ticks: 0 }
    }

    /// Updates counted since the last dive.
    pub fn ticks(&self) -> (n: u32)
        ensures
            n == self.count(),
    {
        self.ticks
    }

    /// Counts one update and says whether a dive starts now: once
    /// `DIVE_INTERVAL` updates have been counted and there is an enemy to
    /// dive; the count then starts again from zero.
    pub fn tick(&mut self, enemies: usize) -> (dive: bool)
        requires
            old(self).count() < u32::MAX,
        ensures
            dive == (old(self).count() + 1 >= DIVE_INTERVAL && enemies > 0),
            final(self).count() == if dive {
                0
            } else {
                old(self).count() + 1
            },
    {
        self.ticks = self.ticks + 1;
        if self.ticks >= DIVE_INTERVAL && enemies > 0 {
            self.ticks = 0;
            true
        } else {
            false
        }
    }
}

/// The player's gun: after each shot it needs `FIRE_COOLDOWN` updates
/// before it fires again.
pub struct FireCooldown {
    remaining: u32,
}

impl FireCooldown {
    /// Updates left before the gun can fire.
    pub closed spec fn remaining(&self) -> int {
        self.remaining as int
    }

    /// A gun that can fire at once.
    pub fn new() -> (c: Self)
        ensures
            c.remaining() == 0,
    {
        FireCooldown { remaining: 0 }
    }

    /// Counts one update of recovery.
    pub fn tick(&mut self)
        ensures
            final(self).remaining() == if old(self).remaining() > 0 {
                old(self).remaining() - 1
            } else {
                0
            },
    {
        self.remaining = self.remaining.saturating_sub(1);
    }

    /// Fires if the gun has recovered, and then starts its recovery.
    pub fn try_fire(&mut self) -> (fired: bool)
        ensures
            fired == (old(self).remaining() == 0),
            final(self).remaining() == if fired {
                FIRE_COOLDOWN as int
            } else {
                old(self).remaining()
            },
    {
        if self.remaining == 0 {
            self.remaining = FIRE_COOLDOWN;
            true
        } else {
            false
        }
    }
}

/// Recovery left after `n` more updates, starting from `r`.
pub open spec fn remaining_after(r: int, n: nat) -> int {
    if r >= n {
        r - n
    } else {
        0
    }
}

/// Counting updates one at a time agrees with counting them together, and
/// after a shot the gun is ready again exactly when `FIRE_COOLDOWN` updates
/// have been counted.
pub proof fn lemma_fire_rate(r: int, a: nat, b: nat)
    requires
        r >= 0,
    ensures
        remaining_after(remaining_after(r, a), b) == remaining_after(r, a + b),
        (remaining_after(FIRE_COOLDOWN as int, a) == 0) == (a >= FIRE_COOLDOWN),
{
}

/// The count after one update of a dive timer at count `c` with `enemies`
/// enemies.
pub open spec fn dive_count_after(c: int, enemies: int) -> int {
    if c + 1 >= DIVE_INTERVAL && enemies > 0 {
        0
    } else {
        c + 1
    }
}

/// While there are enemies, the count stays below `DIVE_INTERVAL` and a dive
/// starts exactly on the update that brings it to `DIVE_INTERVAL`: every
/// `DIVE_INTERVAL` updates, one dive.
pub proof fn lemma_dive_period(c: int, enemies: int)
    requires
        0 <= c < DIVE_INTERVAL,
        enemies > 0,
    ensures
        0 <= dive_count_after(c, enemies) < DIVE_INTERVAL,
        (dive_count_after(c, enemies) == 0) == (c == DIVE_INTERVAL - 1),
{
}

} // verus!
