use murmur::error::MurmurError;
use murmur::roles::{
    bind_plan, busy_error, duplex_step, pair_role, retry_budget, retry_outcome, retry_step,
    timeout_error, BindPlan, ChannelState, DuplexAction, DuplexEvent, DuplexState, PairRole,
    RetryPolicy, RetryStep,
};

#[test]
fn active_channel_is_never_bound_over() {
    assert_eq!(bind_plan(ChannelState::Active), BindPlan::RejectBusy);
}

#[test]
fn stale_entry_is_reclaimed_then_bound() {
    assert_eq!(bind_plan(ChannelState::Stale), BindPlan::ReclaimThenBind);
    assert_eq!(bind_plan(ChannelState::Absent), BindPlan::BindDirectly);
}

#[test]
fn busy_and_timeout_failures_carry_the_channel() {
    assert_eq!(busy_error("work"), MurmurError::ChannelBusy("work".to_string()));
    assert_eq!(
        timeout_error("work", 5),
        MurmurError::ConnectTimeout { channel: "work".to_string(), timeout_secs: 5 }
    );
}

#[test]
fn first_pair_party_binds_second_connects() {
    assert_eq!(pair_role(false), PairRole::Host);
    assert_eq!(pair_role(true), PairRole::Peer);
}

#[test]
fn default_policy_matches_shipped_tuning() {
    let p = RetryPolicy::default();
    assert_eq!(p.peer_retry_delay_ms, 50);
    assert_eq!(p.bind_race_delay_ms, 100);
    assert_eq!(p.connect_interval_ms, 50);
}

#[test]
fn peer_whose_host_left_promotes_after_pause() {
    let p = RetryPolicy::default();
    let (s1, a1) = duplex_step(
        &p,
        DuplexState::Peer,
        DuplexEvent::SessionEnded { remote_closed: true },
    );
    assert_eq!((s1, a1), (DuplexState::Probing, DuplexAction::PauseThenProbe(50)));
    let (s2, a2) = duplex_step(&p, s1, DuplexEvent::Observed(ChannelState::Absent));
    assert_eq!((s2, a2), (DuplexState::BindRace, DuplexAction::AttemptBind));
    let (s3, a3) = duplex_step(&p, s2, DuplexEvent::BindSucceeded);
    assert_eq!((s3, a3), (DuplexState::Host, DuplexAction::ServeHost));
}

#[test]
fn third_peer_rejoins_new_host_without_restart() {
    let p = RetryPolicy::default();
    let (s1, _) = duplex_step(
        &p,
        DuplexState::Peer,
        DuplexEvent::SessionEnded { remote_closed: true },
    );
    let (s2, a2) = duplex_step(&p, s1, DuplexEvent::Observed(ChannelState::Active));
    assert_eq!((s2, a2), (DuplexState::Peer, DuplexAction::ConnectPeer));
}

#[test]
fn lost_bind_race_demotes_to_probing_after_pause() {
    let p = RetryPolicy::default();
    let (s, a) = duplex_step(&p, DuplexState::BindRace, DuplexEvent::BindFailed);
    assert_eq!((s, a), (DuplexState::Probing, DuplexAction::PauseThenProbe(100)));
}

#[test]
fn stale_probe_reclaims_and_probes_again() {
    let p = RetryPolicy::default();
    let (s, a) = duplex_step(&p, DuplexState::Probing, DuplexEvent::Observed(ChannelState::Stale));
    assert_eq!((s, a), (DuplexState::Probing, DuplexAction::ReclaimThenProbe));
}

#[test]
fn local_session_error_probes_again_at_once() {
    let p = RetryPolicy::default();
    let (s, a) = duplex_step(
        &p,
        DuplexState::Peer,
        DuplexEvent::SessionEnded { remote_closed: false },
    );
    assert_eq!((s, a), (DuplexState::Probing, DuplexAction::ProbeAgain));
}

#[test]
fn cancellation_stops_any_state() {
    let p = RetryPolicy::default();
    for s in [DuplexState::Probing, DuplexState::Peer, DuplexState::Host, DuplexState::BindRace] {
        let (s2, a) = duplex_step(&p, s, DuplexEvent::Cancelled);
        assert_eq!(s2, s);
        assert_eq!(a, DuplexAction::Stop);
    }
}

#[test]
fn unrelated_event_is_ignored() {
    let p = RetryPolicy::default();
    let (s, a) = duplex_step(&p, DuplexState::Host, DuplexEvent::BindFailed);
    assert_eq!((s, a), (DuplexState::Host, DuplexAction::Ignore));
}

#[test]
fn retry_budget_counts_whole_intervals() {
    assert_eq!(retry_budget(5000, 50), 100);
    assert_eq!(retry_budget(5001, 50), 101);
    assert_eq!(retry_budget(0, 50), 0);
    assert_eq!(retry_budget(1, 50), 1);
}

#[test]
fn retry_step_gives_up_exactly_at_budget() {
    let p = RetryPolicy::default();
    assert_eq!(retry_step(0, 100, &p), RetryStep::SleepThenRetry(50));
    assert_eq!(retry_step(99, 100, &p), RetryStep::SleepThenRetry(50));
    assert_eq!(retry_step(100, 100, &p), RetryStep::GiveUp);
    assert_eq!(retry_step(0, 0, &p), RetryStep::GiveUp);
}

#[test]
fn channel_coming_up_within_budget_connects() {
    let avail = vec![false, false, true, true, true];
    assert_eq!(retry_outcome(&avail, 4), Some(2));
    let at_last_chance = vec![false, false, false, false, true];
    assert_eq!(retry_outcome(&at_last_chance, 4), Some(4));
}

#[test]
fn channel_never_up_times_out_after_full_budget() {
    let avail = vec![false; 101];
    assert_eq!(retry_outcome(&avail, 100), None);
}
