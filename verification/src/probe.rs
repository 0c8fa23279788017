//! Waiting for a fresh backend to accept connections.

use vstd::prelude::*;

verus! {

/// Milliseconds between two connection attempts.
pub const PROBE_INTERVAL_MS: u64 = 250;

/// What the probe does next.
pub enum ProbeMove {
    /// Try to connect to the backend's port.
    Attempt,
    /// Sleep before looking again.
    Wait { millis: u64 },
    /// The backend accepted a connection.
    Listening,
    /// The deadline passed without a connection.
    TimedOut,
}

/// The probe's next move. `attempt` is `None` before a connection attempt at this
/// time, and whether the attempt connected after it.
pub open spec fn probe_move(elapsed_ms: u64, deadline_ms: u64, attempt: Option<bool>) -> ProbeMove {
    match attempt {
        Some(true) => ProbeMove::Listening,
        Some(false) => ProbeMove::Wait { millis: PROBE_INTERVAL_MS },
        None => if elapsed_ms < deadline_ms {
            ProbeMove::Attempt
        } else {
            ProbeMove::TimedOut
        },
    }
}

/// The probe's next move. `attempt` is `None` before a connection attempt at this
/// time, and whether the attempt connected after it.
pub fn next_probe(elapsed_ms: u64, deadline_ms: u64, attempt: Option<bool>) -> (r: ProbeMove)
    ensures
        r == probe_move(elapsed_ms, deadline_ms, attempt),
        attempt == Some(true) ==> r is Listening,
        attempt == Some(false) ==> r == (ProbeMove::Wait { millis: 250 }),
        attempt is None && elapsed_ms < deadline_ms ==> r is Attempt,
        attempt is None && elapsed_ms >= deadline_ms ==> r is TimedOut,
{
    match attempt {
        Some(true) => ProbeMove::Listening,
        Some(false) => ProbeMove::Wait { millis: PROBE_INTERVAL_MS },
        None => if elapsed_ms < deadline_ms {
            ProbeMove::Attempt
        } else {
            ProbeMove::TimedOut
        },
    }
}


/// The outcome of a whole probe, made of looks at the time elapsed, each followed, before
/// the deadline, by a connection attempt: `obs[k]` is the time seen at the `k`-th look and
/// whether its attempt connected. `None` while it goes on.
pub open spec fn probe_outcome(deadline_ms: u64, obs: Seq<(u64, bool)>) -> Option<bool>
    decreases obs.len(),
{
    if obs.len() == 0 {
        None
    } else {
        match probe_move(obs[0].0, deadline_ms, None) {
            ProbeMove::TimedOut => Some(false),
            _ => match probe_move(obs[0].0, deadline_ms, Some(obs[0].1)) {
                ProbeMove::Listening => Some(true),
                _ => probe_outcome(deadline_ms, obs.drop_first()),
            },
        }
    }
}

/// A probe finds the backend listening exactly when an attempt started before the
/// deadline connected, and gives up only once the deadline has passed (the times
/// seen never go back).
pub proof fn lemma_probe_outcome(deadline_ms: u64, obs: Seq<(u64, bool)>)
    requires
        forall|i: int, j: int| 0 <= i < j < obs.len() ==> obs[i].0 <= obs[j].0,
    ensures
        probe_outcome(deadline_ms, obs) == Some(true) <==> exists|i: int|
            0 <= i < obs.len() && #[trigger] obs[i].0 < deadline_ms && obs[i].1,
        probe_outcome(deadline_ms, obs) == Some(false) ==> exists|i: int|
            0 <= i < obs.len() && #[trigger] obs[i].0 >= deadline_ms,
    decreases obs.len(),
{
    if obs.len() > 0 {
        let rest = obs.drop_first();
        lemma_probe_outcome(deadline_ms, rest);
        if obs[0].0 < deadline_ms && !obs[0].1 {
            assert forall|i: int| 0 <= i < rest.len() implies rest[i] == obs[i + 1] by {}
            if exists|i: int| 0 <= i < obs.len() && #[trigger] obs[i].0 < deadline_ms && obs[i].1 {
                let i = choose|i: int| 0 <= i < obs.len() && #[trigger] obs[i].0 < deadline_ms && obs[i].1;
                assert(rest[i - 1].0 < deadline_ms && rest[i - 1].1);
            }
            if probe_outcome(deadline_ms, rest) == Some(false) {
                let i = choose|i: int| 0 <= i < rest.len() && #[trigger] rest[i].0 >= deadline_ms;
                assert(obs[i + 1].0 >= deadline_ms);
            }
        } else if obs[0].0 >= deadline_ms {
            if exists|i: int| 0 <= i < obs.len() && #[trigger] obs[i].0 < deadline_ms && obs[i].1 {
                let i = choose|i: int| 0 <= i < obs.len() && #[trigger] obs[i].0 < deadline_ms && obs[i].1;
                assert(obs[0].0 <= obs[i].0);
            }
        }
    }
}

} // verus!
