use chain_indexer::sync::{SyncCommand, SyncEvent, SyncPhase, SyncState};

#[test]
fn starts_after_the_stored_tip() {
    let s = SyncState::new(Some(41));
    assert_eq!(s.next, 42);
    assert_eq!(s.phase, SyncPhase::AwaitTip);
    assert_eq!(s.pending(), SyncCommand::FetchTip { delay: 0 });
    let s0 = SyncState::new(None);
    assert_eq!(s0.next, 0);
}

#[test]
fn transport_failures_back_off_squared_capped() {
    let mut s = SyncState::new(None);
    let expected = [1u64, 4, 9, 16, 25, 36, 49, 64, 81, 90, 90];
    for want in expected {
        let c = s.step(SyncEvent::TipUnavailable);
        assert_eq!(c, SyncCommand::FetchTip { delay: want });
    }
    // one success resets the streak
    s.step(SyncEvent::TipFetched(0));
    s.step(SyncEvent::BlockFetched);
    s.step(SyncEvent::BlockInserted);
    let c = s.step(SyncEvent::TipUnavailable);
    assert_eq!(c, SyncCommand::FetchTip { delay: 1 });
}

#[test]
fn idle_polls_back_off_linearly_capped() {
    let mut s = SyncState::new(Some(9));  // next = 10
    for want in [1u64, 2, 3, 4, 5, 6, 7, 8, 9, 10, 10, 10] {
        let c = s.step(SyncEvent::TipFetched(5));
        assert_eq!(c, SyncCommand::FetchTip { delay: want });
    }
    // a new block resets the idle streak
    let c = s.step(SyncEvent::TipFetched(10));
    assert_eq!(c, SyncCommand::FetchBlock { height: 10, delay: 0 });
    assert_eq!(s.idle, 0);
}

// Scenario: the controller sees tip 5 while the next height to ingest is 3;
// it fetches and inserts heights 3 and 4, then height 5 is reported absent
// (the source rolled back). The loop stops without advancing past 5 and the
// next cycle re-evaluates from height 5.
#[test]
fn absent_block_stops_ingestion_without_skipping() {
    let mut s = SyncState::new(Some(2));
    assert_eq!(s.next, 3);
    assert_eq!(s.step(SyncEvent::TipFetched(5)), SyncCommand::FetchBlock { height: 3, delay: 0 });
    assert_eq!(s.step(SyncEvent::BlockFetched), SyncCommand::InsertBlock { height: 3 });
    assert_eq!(s.step(SyncEvent::BlockInserted), SyncCommand::FetchBlock { height: 4, delay: 0 });
    assert_eq!(s.step(SyncEvent::BlockFetched), SyncCommand::InsertBlock { height: 4 });
    assert_eq!(s.step(SyncEvent::BlockInserted), SyncCommand::FetchBlock { height: 5, delay: 0 });
    assert_eq!(s.step(SyncEvent::BlockAbsent), SyncCommand::FetchTip { delay: 0 });
    assert_eq!(s.next, 5);
    assert_eq!(s.phase, SyncPhase::AwaitTip);
}

#[test]
fn completed_ingestion_advances_past_the_tip() {
    let mut s = SyncState::new(None);
    assert_eq!(s.step(SyncEvent::TipFetched(1)), SyncCommand::FetchBlock { height: 0, delay: 0 });
    s.step(SyncEvent::BlockFetched);
    assert_eq!(s.step(SyncEvent::BlockInserted), SyncCommand::FetchBlock { height: 1, delay: 0 });
    s.step(SyncEvent::BlockFetched);
    assert_eq!(s.step(SyncEvent::BlockInserted), SyncCommand::FetchTip { delay: 0 });
    assert_eq!(s.next, 2);
}

#[test]
fn a_detected_fork_rolls_back_one_block_and_repolls() {
    let mut s = SyncState::new(Some(6));
    s.step(SyncEvent::TipFetched(8));
    s.step(SyncEvent::BlockFetched);
    // the store reports the stored parent at height 6 does not match
    assert_eq!(s.step(SyncEvent::ForkDetected(6)), SyncCommand::RollBack { height: 6 });
    assert_eq!(s.next, 6);
    assert_eq!(s.step(SyncEvent::RolledBack), SyncCommand::FetchTip { delay: 0 });
    assert_eq!(s.phase, SyncPhase::AwaitTip);
}

#[test]
fn transient_block_fetch_failures_retry_the_same_height() {
    let mut s = SyncState::new(None);
    s.step(SyncEvent::TipFetched(3));
    assert_eq!(
        s.step(SyncEvent::BlockUnavailable),
        SyncCommand::FetchBlock { height: 0, delay: 1 },
    );
    assert_eq!(
        s.step(SyncEvent::BlockUnavailable),
        SyncCommand::FetchBlock { height: 0, delay: 4 },
    );
    assert_eq!(s.step(SyncEvent::BlockFetched), SyncCommand::InsertBlock { height: 0 });
}

#[test]
fn fatal_store_errors_halt() {
    let mut s = SyncState::new(None);
    s.step(SyncEvent::TipFetched(0));
    s.step(SyncEvent::BlockFetched);
    assert_eq!(s.step(SyncEvent::InsertFailed), SyncCommand::Halt);
    assert_eq!(s.phase, SyncPhase::Halted);
    assert_eq!(s.step(SyncEvent::TipFetched(9)), SyncCommand::Halt);
}

#[test]
fn an_event_outside_the_phase_reissues_the_pending_command() {
    let mut s = SyncState::new(Some(0));
    let before = s;
    assert_eq!(s.step(SyncEvent::BlockInserted), SyncCommand::FetchTip { delay: 0 });
    assert_eq!(s, before);
}
