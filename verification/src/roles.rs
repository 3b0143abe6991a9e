//! Transport roles: the state machines that decide whether a process
//! binds a channel or connects to it. Three modes share them: an
//! exclusive host that binds or fails with a reason, a duplex party
//! that flips between peer and host with failover, and a one-shot
//! sender that retries a connect until a timeout. The machines only
//! decide; the surrounding binary performs each action and reports the
//! outcome back as the next event.

use vstd::prelude::*;
use vstd::arithmetic::div_mod::{lemma_fundamental_div_mod, lemma_mod_bound};
use crate::error::MurmurError;

verus! {

/// The observed liveness of a channel. Sampled, never cached: it can
/// change between the sample and the next action, so every transition
/// built on it tolerates losing the race.
#[derive(Clone, Copy, Debug, PartialEq, Eq, Structural)]
pub enum ChannelState {
    /// No filesystem entry for the channel.
    Absent,
    /// An entry is present but no process accepts on it.
    Stale,
    /// An entry is present and a connect attempt succeeds.
    Active,
}

/// What an exclusive host does with a channel in the observed state.
#[derive(Clone, Copy, Debug, PartialEq, Eq, Structural)]
pub enum BindPlan {
    /// A listener is already active: fail with the busy reason rather
    /// than bind over it.
    RejectBusy,
    /// A prior holder crashed without cleanup: remove the stale entry,
    /// then bind.
    ReclaimThenBind,
    /// Nothing holds the channel: bind directly.
    BindDirectly,
}

/// The bind-or-serve decision: never overwrite an active listener,
/// reclaim a stale entry, bind an absent channel directly.
pub fn bind_plan(state: ChannelState) -> (p: BindPlan)
    ensures
        p is RejectBusy <==> state is Active,
        p is ReclaimThenBind <==> state is Stale,
        p is BindDirectly <==> state is Absent,
{
    match state {
        ChannelState::Active => BindPlan::RejectBusy,
        ChannelState::Stale => BindPlan::ReclaimThenBind,
        ChannelState::Absent => BindPlan::BindDirectly,
    }
}

/// The failure an exclusive host reports when the channel already has
/// an active listener.
pub fn busy_error(channel: &str) -> (e: MurmurError)
    ensures
        e matches MurmurError::ChannelBusy(name) && name@ == channel@,
{
    MurmurError::ChannelBusy(channel.to_owned())
}

/// The failure a retrying sender reports once its budget is spent.
pub fn timeout_error(channel: &str, timeout_secs: u64) -> (e: MurmurError)
    ensures
        e matches MurmurError::ConnectTimeout { channel: name, timeout_secs: t } && name@
            == channel@ && t == timeout_secs,
{
    MurmurError::ConnectTimeout { channel: channel.to_owned(), timeout_secs }
}

/// The side a party takes on a two-party channel.
#[derive(Clone, Copy, Debug, PartialEq, Eq, Structural)]
pub enum PairRole {
    /// First party: bind and wait for the other side.
    Host,
    /// Second party: an entry is already present, connect to it.
    Peer,
}

/// The two-party role decision: the first caller (no entry present)
/// binds, the second connects.
pub fn pair_role(entry_present: bool) -> (r: PairRole)
    ensures
        r is Peer <==> entry_present,
        r is Host <==> !entry_present,
{
    if entry_present {
        PairRole::Peer
    } else {
        PairRole::Host
    }
}

/// The backoff tuning of role negotiation. The intervals are tuning
/// choices, not correctness requirements, so they travel as named
/// parameters rather than fixed pauses.
#[derive(Clone, Copy, Debug, PartialEq, Eq, Structural)]
pub struct RetryPolicy {
    /// Pause before a former peer tries to promote itself to host,
    /// against a thundering herd of former peers.
    pub peer_retry_delay_ms: u64,
    /// Pause after losing a bind race to another process.
    pub bind_race_delay_ms: u64,
    /// Pause between connect attempts of a retrying sender.
    pub connect_interval_ms: u64,
}

impl Default for RetryPolicy {
    /// The tuning the transport ships with.
    fn default() -> (p: RetryPolicy)
        ensures
            p == (RetryPolicy {
                peer_retry_delay_ms: 50,
                bind_race_delay_ms: 100,
                connect_interval_ms: 50,
            }),
    {
        RetryPolicy { peer_retry_delay_ms: 50, bind_race_delay_ms: 100, connect_interval_ms: 50 }
    }
}

/// Where a duplex party stands in role negotiation.
#[derive(Clone, Copy, Debug, PartialEq, Eq, Structural)]
pub enum DuplexState {
    /// Sampling the channel to pick a side.
    Probing,
    /// Connected to the current host.
    Peer,
    /// Holding the channel and serving peers.
    Host,
    /// A bind is in flight against possible concurrent binders.
    BindRace,
}

/// What the outside world reported back to the duplex machine.
#[derive(Clone, Copy, Debug, PartialEq, Eq, Structural)]
pub enum DuplexEvent {
    /// A probe of the channel returned this state.
    Observed(ChannelState),
    /// The peer session ended; true when the remote side closed it,
    /// false on a local error.
    SessionEnded { remote_closed: bool },
    /// The in-flight bind won the channel.
    BindSucceeded,
    /// The in-flight bind lost the race to another process.
    BindFailed,
    /// External cancellation of the whole session.
    Cancelled,
}

/// What the duplex machine asks the outside world to do next.
#[derive(Clone, Copy, Debug, PartialEq, Eq, Structural)]
pub enum DuplexAction {
    /// Connect to the active host and run a peer session.
    ConnectPeer,
    /// Remove the stale entry, then probe again.
    ReclaimThenProbe,
    /// Try to bind the absent channel.
    AttemptBind,
    /// Run the accept loop as host.
    ServeHost,
    /// Pause this many milliseconds, then probe again.
    PauseThenProbe(u64),
    /// Probe again at once.
    ProbeAgain,
    /// Stop the session.
    Stop,
    /// The event carries nothing for this state; stay put.
    Ignore,
}

/// The duplex transition relation. An active channel is joined as
/// peer; a peer whose host went away pauses briefly, then re-probes to
/// try promotion; a stale entry is reclaimed; an absent channel is
/// bound, and a lost bind race demotes the party back to probing after
/// a pause. Races never surface: every losing outcome re-enters
/// Probing.
pub open spec fn duplex_spec(p: RetryPolicy, s: DuplexState, e: DuplexEvent) -> (
    DuplexState,
    DuplexAction,
) {
    match (s, e) {
        (_, DuplexEvent::Cancelled) => (s, DuplexAction::Stop),
        (DuplexState::Probing, DuplexEvent::Observed(ChannelState::Active)) => (
            DuplexState::Peer,
            DuplexAction::ConnectPeer,
        ),
        (DuplexState::Probing, DuplexEvent::Observed(ChannelState::Stale)) => (
            DuplexState::Probing,
            DuplexAction::ReclaimThenProbe,
        ),
        (DuplexState::Probing, DuplexEvent::Observed(ChannelState::Absent)) => (
            DuplexState::BindRace,
            DuplexAction::AttemptBind,
        ),
        (DuplexState::Peer, DuplexEvent::SessionEnded { remote_closed }) => if remote_closed {
            (DuplexState::Probing, DuplexAction::PauseThenProbe(p.peer_retry_delay_ms))
        } else {
            (DuplexState::Probing, DuplexAction::ProbeAgain)
        },
        (DuplexState::BindRace, DuplexEvent::BindSucceeded) => (
            DuplexState::Host,
            DuplexAction::ServeHost,
        ),
        (DuplexState::BindRace, DuplexEvent::BindFailed) => (
            DuplexState::Probing,
            DuplexAction::PauseThenProbe(p.bind_race_delay_ms),
        ),
        (_, _) => (s, DuplexAction::Ignore),
    }
}

/// One step of duplex role negotiation: exactly the transition
/// relation, as a value the driving loop can act on.
pub fn duplex_step(p: &RetryPolicy, s: DuplexState, e: DuplexEvent) -> (r: (
    DuplexState,
    DuplexAction,
))
    ensures
        r == duplex_spec(*p, s, e),
{
    match (s, e) {
        (_, DuplexEvent::Cancelled) => (s, DuplexAction::Stop),
        (DuplexState::Probing, DuplexEvent::Observed(ChannelState::Active)) => (
            DuplexState::Peer,
            DuplexAction::ConnectPeer,
        ),
        (DuplexState::Probing, DuplexEvent::Observed(ChannelState::Stale)) => (
            DuplexState::Probing,
            DuplexAction::ReclaimThenProbe,
        ),
        (DuplexState::Probing, DuplexEvent::Observed(ChannelState::Absent)) => (
            DuplexState::BindRace,
            DuplexAction::AttemptBind,
        ),
        (DuplexState::Peer, DuplexEvent::SessionEnded { remote_closed }) => if remote_closed {
            (DuplexState::Probing, DuplexAction::PauseThenProbe(p.peer_retry_delay_ms))
        } else {
            (DuplexState::Probing, DuplexAction::ProbeAgain)
        },
        (DuplexState::BindRace, DuplexEvent::BindSucceeded) => (
            DuplexState::Host,
            DuplexAction::ServeHost,
        ),
        (DuplexState::BindRace, DuplexEvent::BindFailed) => (
            DuplexState::Probing,
            DuplexAction::PauseThenProbe(p.bind_race_delay_ms),
        ),
        (_, _) => (s, DuplexAction::Ignore),
    }
}

/// The attempt index on which a retrying sender gives up: the first
/// whose start time, counted in whole intervals, has reached the
/// timeout. Giving up happens only after that attempt also fails, so
/// the reported timeout never arrives early.
pub fn retry_budget(timeout_ms: u64, interval_ms: u64) -> (n: u64)
    requires
        interval_ms > 0,
        timeout_ms <= u64::MAX - interval_ms,
    ensures
        n * interval_ms >= timeout_ms,
        n > 0 ==> (n - 1) * interval_ms < timeout_ms,
{
    let n = (timeout_ms + (interval_ms - 1)) / interval_ms;
    proof {
        let t = timeout_ms as int;
        let i = interval_ms as int;
        let m = t + i - 1;
        lemma_fundamental_div_mod(m, i);
        lemma_mod_bound(m, i);
        assert((n as int) == m / i);
        assert(m == i * (m / i) + (m % i));
        assert((n as int) * i == i * (m / i)) by (nonlinear_arith)
            requires
                (n as int) == m / i,
        ;
        assert((n as int) * i >= t);
        if n > 0 {
            assert(((n as int) - 1) * i == (n as int) * i - i) by (nonlinear_arith);
            assert(((n as int) - 1) * i < t);
        }
    }
    n
}

/// The decision after one failed connect attempt: give up once the
/// attempt index has reached the budget, otherwise sleep one interval
/// and try again.
#[derive(Clone, Copy, Debug, PartialEq, Eq, Structural)]
pub enum RetryStep {
    /// The budget is spent: fail with the timeout reason.
    GiveUp,
    /// Pause this many milliseconds, then attempt again.
    SleepThenRetry(u64),
}

/// One step of the retry-connect loop, after attempt `attempt` failed.
pub fn retry_step(attempt: u64, budget: u64, p: &RetryPolicy) -> (d: RetryStep)
    ensures
        attempt >= budget ==> d is GiveUp,
        attempt < budget ==> d == RetryStep::SleepThenRetry(p.connect_interval_ms),
{
    if attempt >= budget {
        RetryStep::GiveUp
    } else {
        RetryStep::SleepThenRetry(p.connect_interval_ms)
    }
}

/// The index of the first successful attempt in a record of attempt
/// outcomes, if any.
pub open spec fn first_true(s: Seq<bool>) -> Option<int>
    decreases s.len(),
{
    if s.len() == 0 {
        None
    } else if s[0] {
        Some(0int)
    } else {
        match first_true(s.drop_first()) {
            None => None,
            Some(i) => Some(i + 1),
        }
    }
}

/// `first_true` finds the first success: that attempt succeeds and
/// none before it does.
pub proof fn lemma_first_true(s: Seq<bool>)
    ensures
        match first_true(s) {
            Some(i) => 0 <= i < s.len() && s[i] && (forall|j: int| 0 <= j < i ==> !s[j]),
            None => forall|j: int| 0 <= j < s.len() ==> !s[j],
        },
    decreases s.len(),
{
    if s.len() == 0 {
    } else if s[0] {
    } else {
        let t = s.drop_first();
        lemma_first_true(t);
        match first_true(t) {
            None => {
                assert forall|j: int| 0 <= j < s.len() implies !s[j] by {
                    if j >= 1 {
                        assert(t[j - 1] == s[j]);
                    }
                }
            },
            Some(i) => {
                assert(t[i] == s[i + 1]);
                assert forall|j: int| 0 <= j < i + 1 implies !s[j] by {
                    if j >= 1 {
                        assert(t[j - 1] == s[j]);
                    }
                }
            },
        }
    }
}

/// Run the retry-connect schedule against a record of which attempts
/// would succeed: attempt `k` connects exactly when `avail[k]`, and
/// after a failed attempt at or past the budget the loop gives up. The
/// record covers each attempt the budget allows, the last one
/// included. Returns the attempt that connected, or nothing on
/// timeout.
pub fn retry_outcome(avail: &Vec<bool>, budget: u64) -> (r: Option<u64>)
    requires
        avail@.len() == budget + 1,
    ensures
        match first_true(avail@) {
            Some(k) => r matches Some(a) && a == k,
            None => r is None,
        },
{
    let mut k: u64 = 0;
    loop
        invariant
            avail@.len() == budget + 1,
            0 <= k <= budget,
            forall|j: int| 0 <= j < k ==> !avail@[j],
        decreases budget - k,
    {
        let n = avail.len();
        proof {
            assert(k < n as u64);
        }
        if *vstd::std_specs::vec::vec_index(avail, k as usize) {
            proof {
                lemma_first_true(avail@);
            }
            return Some(k);
        }
        if k >= budget {
            proof {
                lemma_first_true(avail@);
            }
            return None;
        }
        k = k + 1;
    }
}

/// A channel that is up from attempt `up_from` on, with `up_from`
/// within the budget, is connected to: the schedule succeeds no later
/// than the first attempt after the channel came up.
pub proof fn lemma_retry_connects(avail: Seq<bool>, up_from: int, budget: u64)
    requires
        avail.len() == budget + 1,
        0 <= up_from <= budget,
        forall|k: int| up_from <= k < avail.len() ==> avail[k],
    ensures
        first_true(avail) matches Some(k) && k <= up_from,
{
    lemma_first_true(avail);
    assert(avail[up_from]);
}

/// A channel that never comes up exhausts the whole budget: the
/// schedule fails, and only after its final attempt, whose start time
/// is at or past the timeout.
pub proof fn lemma_retry_times_out(avail: Seq<bool>, budget: u64)
    requires
        avail.len() == budget + 1,
        forall|k: int| 0 <= k < avail.len() ==> !avail[k],
    ensures
        first_true(avail) is None,
{
    lemma_first_true(avail);
}

} // verus!
