//! Block-sync progress coordination: a state machine over {idle,
//! syncing} that advances one block per tick toward a target height,
//! recomputing progress and a remaining-time estimate on every advance.
//!
//! The loop that sleeps between ticks lives outside this crate; it calls
//! `sync_tick` once per interval and stops when the tick reports that
//! the sync is over. Stopping is cooperative: `stop_sync` only clears
//! the syncing flag, and the running loop observes it at its next tick.
//!
//! Progress is kept in thousandths (0 ..= 1000) instead of a floating
//! fraction; `1000` stands for a fully synced chain.

use vstd::prelude::*;

use crate::errors::RuneError;

verus! {

/// Estimated seconds per block used for the remaining-time estimate.
pub const SECONDS_PER_BLOCK: u64 = 2;

/// Progress of `current` toward `target`, in thousandths, rounded down;
/// a zero target counts as no progress.
pub open spec fn spec_progress_milli(current: u64, target: u64) -> int {
    if target == 0 {
        0
    } else {
        current as int * 1000 / target as int
    }
}

/// The progress fraction stays within [0, 1000] whenever the current
/// height does not exceed the target.
pub proof fn lemma_progress_bounded(current: u64, target: u64)
    requires
        current <= target,
    ensures
        0 <= spec_progress_milli(current, target) <= 1000,
{
    if target != 0 {
        assert(0 <= current as int * 1000 / target as int <= 1000) by (nonlinear_arith)
            requires
                0 <= current as int <= target as int,
                0 < target as int,
        ;
    }
}

/// The remaining-time estimate after reaching `current`: the blocks left
/// times `SECONDS_PER_BLOCK`, clamped at the largest representable value.
pub open spec fn spec_eta_seconds(current: u64, target: u64) -> u64 {
    let remaining = if target >= current {
        target - current
    } else {
        0
    };
    if remaining * SECONDS_PER_BLOCK > u64::MAX {
        u64::MAX
    } else {
        (remaining * SECONDS_PER_BLOCK) as u64
    }
}

/// A snapshot of sync progress. The invariant `wf` is what every
/// reachable snapshot satisfies: progress lies in [0, 1000], and the
/// current height never exceeds the target while syncing.
#[derive(Debug, Clone, Copy, PartialEq, Eq, Structural)]
pub struct SyncStatus {
    pub current_height: u64,
    pub target_height: u64,
    pub is_syncing: bool,
    /// Progress toward the target in thousandths (0 ..= 1000).
    pub progress_milli: u32,
    /// Estimated seconds until the target is reached, while one is known.
    pub estimated_time_remaining: Option<u64>,
}

impl SyncStatus {
    pub open spec fn wf(self) -> bool {
        &&& self.progress_milli <= 1000
        &&& (self.is_syncing ==> self.current_height <= self.target_height)
    }

    /// The idle initial snapshot: nothing synced, nothing targeted.
    pub open spec fn spec_initial() -> SyncStatus {
        SyncStatus {
            current_height: 0,
            target_height: 0,
            is_syncing: false,
            progress_milli: 0,
            estimated_time_remaining: None,
        }
    }
}

/// The sync coordinator: the current snapshot plus the configured tick
/// interval. The upstream height is handed to `start_sync` by the
/// caller, which obtained it from the node.
pub struct SyncService {
    status: SyncStatus,
    sync_interval_ms: u64,
}

impl SyncService {
    pub closed spec fn spec_status(self) -> SyncStatus {
        self.status
    }

    pub closed spec fn spec_interval_ms(self) -> u64 {
        self.sync_interval_ms
    }

    pub open spec fn wf(self) -> bool {
        self.spec_status().wf()
    }

    /// An idle coordinator that will advance once per `sync_interval_ms`.
    pub fn new(sync_interval_ms: u64) -> (s: SyncService)
        ensures
            s.wf(),
            s.spec_status() == SyncStatus::spec_initial(),
            s.spec_interval_ms() == sync_interval_ms,
    {
        SyncService {
            status: SyncStatus {
                current_height: 0,
                target_height: 0,
                is_syncing: false,
                progress_milli: 0,
                estimated_time_remaining: None,
            },
            sync_interval_ms,
        }
    }

    /// The configured pause between ticks, for the loop that drives this
    /// coordinator.
    pub fn interval_ms(&self) -> (r: u64)
        ensures
            r == self.spec_interval_ms(),
    {
        self.sync_interval_ms
    }

    /// Begins syncing toward `target_height`, as fetched from the node
    /// by the caller; a fetch that failed never reaches this function,
    /// so a failed start leaves the coordinator untouched. A no-op
    /// while already syncing.
    ///
    /// Policy choice: a target at or below the current height completes
    /// immediately — the coordinator stays idle with full progress —
    /// instead of passing through the syncing state. Entering that
    /// state with a target below the current height would break the
    /// invariant that the current height never exceeds the target while
    /// syncing, and the loop's first tick would settle to exactly this
    /// idle, fully-synced snapshot anyway. A target above the current
    /// height enters the syncing state with progress recomputed.
    pub fn start_sync(&mut self, target_height: u64) -> (r: Result<(), RuneError>)
        requires
            old(self).wf(),
        ensures
            final(self).wf(),
            r is Ok,
            final(self).spec_interval_ms() == old(self).spec_interval_ms(),
            old(self).spec_status().is_syncing ==> *final(self) == *old(self),
            !old(self).spec_status().is_syncing && target_height
                <= old(self).spec_status().current_height ==> final(self).spec_status() == (
            SyncStatus {
                target_height,
                is_syncing: false,
                progress_milli: 1000u32,
                estimated_time_remaining: None,
                ..old(self).spec_status()
            }),
            !old(self).spec_status().is_syncing && target_height > old(
                self,
            ).spec_status().current_height ==> final(self).spec_status() == (SyncStatus {
                target_height,
                is_syncing: true,
                progress_milli: spec_progress_milli(
                    old(self).spec_status().current_height,
                    target_height,
                ) as u32,
                estimated_time_remaining: None,
                ..old(self).spec_status()
            }),
    {
        if self.status.is_syncing {
            return Ok(());
        }
        if target_height <= self.status.current_height {
            self.status.target_height = target_height;
            self.status.is_syncing = false;
            self.status.progress_milli = 1000;
            self.status.estimated_time_remaining = None;
            return Ok(());
        }
        proof {
            lemma_progress_bounded(self.status.current_height, target_height);
        }
        let milli: u64 = (((self.status.current_height as u128) * 1000
            / (target_height as u128)) as u64);
        self.status.target_height = target_height;
        self.status.is_syncing = true;
        self.status.progress_milli = milli as u32;
        self.status.estimated_time_remaining = None;
        Ok(())
    }

    /// One tick of the sync loop. While syncing below the target it
    /// advances one block, recomputes progress and the remaining-time
    /// estimate, and reports `true` (keep ticking). Once stopped or at
    /// the target it settles the snapshot — idle, full progress, no
    /// estimate — and reports `false`.
    pub fn sync_tick(&mut self) -> (more: bool)
        requires
            old(self).wf(),
        ensures
            final(self).wf(),
            final(self).spec_interval_ms() == old(self).spec_interval_ms(),
            more == (old(self).spec_status().is_syncing && old(self).spec_status().current_height
                < old(self).spec_status().target_height),
            more ==> final(self).spec_status() == (SyncStatus {
                current_height: (old(self).spec_status().current_height + 1) as u64,
                progress_milli: spec_progress_milli(
                    (old(self).spec_status().current_height + 1) as u64,
                    old(self).spec_status().target_height,
                ) as u32,
                estimated_time_remaining: Some(
                    spec_eta_seconds(
                        (old(self).spec_status().current_height + 1) as u64,
                        old(self).spec_status().target_height,
                    ),
                ),
                ..old(self).spec_status()
            }),
            !more ==> final(self).spec_status() == (SyncStatus {
                is_syncing: false,
                progress_milli: 1000u32,
                estimated_time_remaining: None,
                ..old(self).spec_status()
            }),
    {
        if self.status.is_syncing && self.status.current_height < self.status.target_height {
            let next = self.status.current_height + 1;
            proof {
                lemma_progress_bounded(next, self.status.target_height);
            }
            let milli: u64 = (((next as u128) * 1000 / (self.status.target_height as u128))
                as u64);
            let remaining = self.status.target_height - next;
            let eta: u64 = if remaining > u64::MAX / SECONDS_PER_BLOCK {
                u64::MAX
            } else {
                remaining * SECONDS_PER_BLOCK
            };
            self.status.current_height = next;
            self.status.progress_milli = milli as u32;
            self.status.estimated_time_remaining = Some(eta);
            true
        } else {
            self.status.is_syncing = false;
            self.status.progress_milli = 1000;
            self.status.estimated_time_remaining = None;
            false
        }
    }

    /// Clears the syncing flag and nothing else; the running loop exits
    /// at its next tick. Calling this while idle changes nothing, so the
    /// operation is idempotent.
    pub fn stop_sync(&mut self) -> (r: Result<(), RuneError>)
        requires
            old(self).wf(),
        ensures
            final(self).wf(),
            r is Ok,
            final(self).spec_interval_ms() == old(self).spec_interval_ms(),
            final(self).spec_status() == (SyncStatus {
                is_syncing: false,
                ..old(self).spec_status()
            }),
    {
        self.status.is_syncing = false;
        Ok(())
    }

    /// A consistent snapshot of the sync state at call time.
    pub fn get_sync_status(&self) -> (r: Result<SyncStatus, RuneError>)
        requires
            self.wf(),
        ensures
            r == Ok::<SyncStatus, RuneError>(self.spec_status()),
            self.spec_status().wf(),
    {
        Ok(self.status)
    }
}

} // verus!
