//! The synchronization controller: a state machine that drives ingestion.
//!
//! The controller owns the reconciliation decisions and nothing else. The
//! surrounding loop performs one command at a time (fetch the tip, fetch a
//! block, insert the fetched block, roll one block back), sleeps for the
//! commanded delay first, and hands the outcome back as an event. Transport
//! failures back off with the square of the failure streak, capped at 90
//! seconds; an idle poll backs off linearly, capped at 10 seconds; a detected
//! fork rolls back exactly one block and re-evaluates from the shortened
//! chain.

use vstd::prelude::*;

verus! {

/// What the loop is waiting for.
#[derive(Clone, Copy, PartialEq, Eq, Structural, Debug)]
pub enum SyncPhase {
    /// Waiting for the remote tip height.
    AwaitTip,
    /// Waiting for the block at `current`; ingestion runs up to `tip`.
    AwaitBlock { current: u64, tip: u64 },
    /// Waiting for the store to apply the fetched block at `current`.
    AwaitInsert { current: u64, tip: u64 },
    /// Waiting for the store to remove the block at `height`.
    AwaitRollback { height: u64 },
    /// A fatal store error was reported; the process gives up.
    Halted,
}

/// The controller's whole state.
#[derive(Clone, Copy, PartialEq, Eq, Structural, Debug)]
pub struct SyncState {
    pub phase: SyncPhase,
    /// The next height to ingest when a new tip arrives.
    pub next: u64,
    /// Consecutive transport failures.
    pub failed: u64,
    /// Consecutive polls that found no new block.
    pub idle: u64,
}

/// What the outside world reports back.
#[derive(Clone, Copy, PartialEq, Eq, Structural, Debug)]
pub enum SyncEvent {
    TipFetched(u64),
    TipUnavailable,
    BlockFetched,
    BlockAbsent,
    BlockUnavailable,
    BlockInserted,
    ForkDetected(u64),
    InsertFailed,
    RolledBack,
    RollbackFailed,
}

/// What the loop must do next, after sleeping `delay` seconds.
#[derive(Clone, Copy, PartialEq, Eq, Structural, Debug)]
pub enum SyncCommand {
    FetchTip { delay: u64 },
    FetchBlock { height: u64, delay: u64 },
    InsertBlock { height: u64 },
    RollBack { height: u64 },
    Halt,
}

/// Increment that sticks at the maximum instead of wrapping.
pub open spec fn sat_inc(x: u64) -> u64 {
    if x < u64::MAX {
        (x + 1) as u64
    } else {
        x
    }
}

/// The transport backoff: the square of the failure streak, capped at 90
/// seconds.
pub open spec fn failure_delay(f: u64) -> u64 {
    if f >= 10 {
        90
    } else {
        ((f as int) * (f as int)) as u64
    }
}

/// The idle backoff: the idle streak itself, capped at 10 seconds.
pub open spec fn idle_delay(c: u64) -> u64 {
    if c > 10 {
        10
    } else {
        c
    }
}

/// The command a phase is waiting on; reissued when an event does not belong
/// to the current phase.
pub open spec fn spec_pending(s: SyncState) -> SyncCommand {
    match s.phase {
        SyncPhase::AwaitTip => SyncCommand::FetchTip { delay: 0 },
        SyncPhase::AwaitBlock { current, .. } => SyncCommand::FetchBlock {
            height: current,
            delay: 0,
        },
        SyncPhase::AwaitInsert { current, .. } => SyncCommand::InsertBlock { height: current },
        SyncPhase::AwaitRollback { height } => SyncCommand::RollBack { height },
        SyncPhase::Halted => SyncCommand::Halt,
    }
}

/// The complete transition table: from a state and an event to the new state
/// and the next command.
pub open spec fn spec_step(s: SyncState, e: SyncEvent) -> (SyncState, SyncCommand) {
    match (s.phase, e) {
        (SyncPhase::AwaitTip, SyncEvent::TipFetched(tip)) => {
            if tip < s.next {
                let idle2 = sat_inc(s.idle);
                (
                    SyncState { failed: 0, idle: idle2, ..s },
                    SyncCommand::FetchTip { delay: idle_delay(idle2) },
                )
            } else {
                (
                    SyncState {
                        phase: SyncPhase::AwaitBlock { current: s.next, tip },
                        failed: 0,
                        idle: 0,
                        ..s
                    },
                    SyncCommand::FetchBlock { height: s.next, delay: 0 },
                )
            }
        },
        (SyncPhase::AwaitTip, SyncEvent::TipUnavailable) => {
            let f2 = sat_inc(s.failed);
            (SyncState { failed: f2, ..s }, SyncCommand::FetchTip { delay: failure_delay(f2) })
        },
        (SyncPhase::AwaitBlock { current, tip }, SyncEvent::BlockFetched) => (
            SyncState { phase: SyncPhase::AwaitInsert { current, tip }, ..s },
            SyncCommand::InsertBlock { height: current },
        ),
        (SyncPhase::AwaitBlock { current, .. }, SyncEvent::BlockAbsent) => (
            SyncState { phase: SyncPhase::AwaitTip, next: current, failed: 0, ..s },
            SyncCommand::FetchTip { delay: 0 },
        ),
        (SyncPhase::AwaitBlock { current, .. }, SyncEvent::BlockUnavailable) => {
            let f2 = sat_inc(s.failed);
            (
                SyncState { failed: f2, ..s },
                SyncCommand::FetchBlock { height: current, delay: failure_delay(f2) },
            )
        },
        (SyncPhase::AwaitInsert { current, tip }, SyncEvent::BlockInserted) => {
            if current < tip {
                (
                    SyncState {
                        phase: SyncPhase::AwaitBlock { current: (current + 1) as u64, tip },
                        failed: 0,
                        ..s
                    },
                    SyncCommand::FetchBlock { height: (current + 1) as u64, delay: 0 },
                )
            } else {
                (
                    SyncState { phase: SyncPhase::AwaitTip, next: sat_inc(tip), failed: 0, ..s },
                    SyncCommand::FetchTip { delay: 0 },
                )
            }
        },
        (SyncPhase::AwaitInsert { .. }, SyncEvent::ForkDetected(n)) => (
            SyncState { phase: SyncPhase::AwaitRollback { height: n }, next: n, ..s },
            SyncCommand::RollBack { height: n },
        ),
        (SyncPhase::AwaitInsert { .. }, SyncEvent::InsertFailed) => (
            SyncState { phase: SyncPhase::Halted, ..s },
            SyncCommand::Halt,
        ),
        (SyncPhase::AwaitRollback { .. }, SyncEvent::RolledBack) => (
            SyncState { phase: SyncPhase::AwaitTip, ..s },
            SyncCommand::FetchTip { delay: 0 },
        ),
        (SyncPhase::AwaitRollback { .. }, SyncEvent::RollbackFailed) => (
            SyncState { phase: SyncPhase::Halted, ..s },
            SyncCommand::Halt,
        ),
        _ => (s, spec_pending(s)),
    }
}

impl SyncState {
    /// The controller as it starts: `stored_tip` is what `initialize`
    /// reported, and ingestion resumes at the height after it, or at genesis.
    pub fn new(stored_tip: Option<u64>) -> (s: SyncState)
        ensures
            s.phase == SyncPhase::AwaitTip,
            s.failed == 0,
            s.idle == 0,
            s.next == match stored_tip {
                Option::Some(n) => sat_inc(n),
                Option::None => 0u64,
            },
    {
        let next: u64 = match stored_tip {
            Some(n) => if n < u64::MAX {
                n + 1
            } else {
                n
            },
            None => 0,
        };
        SyncState { phase: SyncPhase::AwaitTip, next, failed: 0, idle: 0 }
    }

    /// The command the current phase is waiting on.
    pub fn pending(&self) -> (c: SyncCommand)
        ensures
            c == spec_pending(*self),
    {
        match self.phase {
            SyncPhase::AwaitTip => SyncCommand::FetchTip { delay: 0 },
            SyncPhase::AwaitBlock { current, tip: _ } => SyncCommand::FetchBlock {
                height: current,
                delay: 0,
            },
            SyncPhase::AwaitInsert { current, tip: _ } => SyncCommand::InsertBlock {
                height: current,
            },
            SyncPhase::AwaitRollback { height } => SyncCommand::RollBack { height },
            SyncPhase::Halted => SyncCommand::Halt,
        }
    }

    /// Feeds one event into the controller and returns the next command.
    pub fn step(&mut self, e: SyncEvent) -> (c: SyncCommand)
        ensures
            (*final(self), c) == spec_step(*old(self), e),
    {
        let s = *self;
        match (s.phase, e) {
            (SyncPhase::AwaitTip, SyncEvent::TipFetched(tip)) => {
                self.failed = 0;
                if tip < s.next {
                    let idle2 = if s.idle < u64::MAX {
                        s.idle + 1
                    } else {
                        s.idle
                    };
                    self.idle = idle2;
                    let delay = if idle2 > 10 {
                        10
                    } else {
                        idle2
                    };
                    SyncCommand::FetchTip { delay }
                } else {
                    self.idle = 0;
                    self.phase = SyncPhase::AwaitBlock { current: s.next, tip };
                    SyncCommand::FetchBlock { height: s.next, delay: 0 }
                }
            },
            (SyncPhase::AwaitTip, SyncEvent::TipUnavailable) => {
                let f2 = if s.failed < u64::MAX {
                    s.failed + 1
                } else {
                    s.failed
                };
                self.failed = f2;
                let delay = if f2 >= 10 {
                    90
                } else {
                    proof {
                        assert((f2 as int) * (f2 as int) < 100) by (nonlinear_arith)
                            requires
                                f2 < 10,
                        ;
                    }
                    f2 * f2
                };
                SyncCommand::FetchTip { delay }
            },
            (SyncPhase::AwaitBlock { current, tip }, SyncEvent::BlockFetched) => {
                self.phase = SyncPhase::AwaitInsert { current, tip };
                SyncCommand::InsertBlock { height: current }
            },
            (SyncPhase::AwaitBlock { current, tip: _ }, SyncEvent::BlockAbsent) => {
                self.phase = SyncPhase::AwaitTip;
                self.next = current;
                self.failed = 0;
                SyncCommand::FetchTip { delay: 0 }
            },
            (SyncPhase::AwaitBlock { current, tip: _ }, SyncEvent::BlockUnavailable) => {
                let f2 = if s.failed < u64::MAX {
                    s.failed + 1
                } else {
                    s.failed
                };
                self.failed = f2;
                let delay = if f2 >= 10 {
                    90
                } else {
                    proof {
                        assert((f2 as int) * (f2 as int) < 100) by (nonlinear_arith)
                            requires
                                f2 < 10,
                        ;
                    }
                    f2 * f2
                };
                SyncCommand::FetchBlock { height: current, delay }
            },
            (SyncPhase::AwaitInsert { current, tip }, SyncEvent::BlockInserted) => {
                self.failed = 0;
                if current < tip {
                    self.phase = SyncPhase::AwaitBlock { current: current + 1, tip };
                    SyncCommand::FetchBlock { height: current + 1, delay: 0 }
                } else {
                    self.phase = SyncPhase::AwaitTip;
                    self.next = if tip < u64::MAX {
                        tip + 1
                    } else {
                        tip
                    };
                    SyncCommand::FetchTip { delay: 0 }
                }
            },
            (SyncPhase::AwaitInsert { current: _, tip: _ }, SyncEvent::ForkDetected(n)) => {
                self.phase = SyncPhase::AwaitRollback { height: n };
                self.next = n;
                SyncCommand::RollBack { height: n }
            },
            (SyncPhase::AwaitInsert { current: _, tip: _ }, SyncEvent::InsertFailed) => {
                self.phase = SyncPhase::Halted;
                SyncCommand::Halt
            },
            (SyncPhase::AwaitRollback { height: _ }, SyncEvent::RolledBack) => {
                self.phase = SyncPhase::AwaitTip;
                SyncCommand::FetchTip { delay: 0 }
            },
            (SyncPhase::AwaitRollback { height: _ }, SyncEvent::RollbackFailed) => {
                self.phase = SyncPhase::Halted;
                SyncCommand::Halt
            },
            _ => self.pending(),
        }
    }
}

} // verus!
