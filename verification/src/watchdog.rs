use vstd::prelude::*;

use crate::text::{concat, decimal, decimal_chars};

verus! {

/// What the fishing loop is doing.
#[derive(Clone, Copy, Debug, PartialEq, Eq, Structural)]
pub enum BotState {
    Stopped,
    Paused,
    WaitingForRoblox,
    InitialSetup,
    Casting,
    WaitingForBite,
    Tracking,
    PostCatch,
    Purchasing,
    StoringFruit,
    Recovering,
}

/// The name of a state, as its `Debug` form writes it.
pub open spec fn state_name(s: BotState) -> Seq<char> {
    match s {
        BotState::Stopped => "Stopped"@,
        BotState::Paused => "Paused"@,
        BotState::WaitingForRoblox => "WaitingForRoblox"@,
        BotState::InitialSetup => "InitialSetup"@,
        BotState::Casting => "Casting"@,
        BotState::WaitingForBite => "WaitingForBite"@,
        BotState::Tracking => "Tracking"@,
        BotState::PostCatch => "PostCatch"@,
        BotState::Purchasing => "Purchasing"@,
        BotState::StoringFruit => "StoringFruit"@,
        BotState::Recovering => "Recovering"@,
    }
}

impl BotState {
    pub fn name(&self) -> (n: &'static str)
        ensures
            n@ == state_name(*self),
    {
        match self {
            BotState::Stopped => "Stopped",
            BotState::Paused => "Paused",
            BotState::WaitingForRoblox => "WaitingForRoblox",
            BotState::InitialSetup => "InitialSetup",
            BotState::Casting => "Casting",
            BotState::WaitingForBite => "WaitingForBite",
            BotState::Tracking => "Tracking",
            BotState::PostCatch => "PostCatch",
            BotState::Purchasing => "Purchasing",
            BotState::StoringFruit => "StoringFruit",
            BotState::Recovering => "Recovering",
        }
    }
}

/// Longest time, in seconds, the loop may stay in a state before it counts
/// as stuck; 0 for the idle states, which may last forever.
pub open spec fn max_state_age_spec(s: BotState) -> u64 {
    match s {
        BotState::InitialSetup => 45,
        BotState::Casting => 20,
        BotState::WaitingForBite => 90,
        BotState::Tracking => 90,
        BotState::PostCatch => 30,
        BotState::Purchasing => 60,
        BotState::StoringFruit => 45,
        BotState::Recovering => 30,
        BotState::WaitingForRoblox | BotState::Stopped | BotState::Paused => 0,
    }
}

/// Longest time, in seconds, the loop may stay in `s`.
pub fn max_state_age(s: BotState) -> (secs: u64)
    ensures
        secs == max_state_age_spec(s),
{
    match s {
        BotState::InitialSetup => 45,
        BotState::Casting => 20,
        BotState::WaitingForBite => 90,
        BotState::Tracking => 90,
        BotState::PostCatch => 30,
        BotState::Purchasing => 60,
        BotState::StoringFruit => 45,
        BotState::Recovering => 30,
        BotState::WaitingForRoblox | BotState::Stopped | BotState::Paused => 0,
    }
}

/// Whether the loop is healthy.
#[derive(Clone, Debug, PartialEq, Eq)]
pub enum Verdict {
    Healthy,
    Stuck(String),
}

pub open spec fn nanos_per_sec() -> int {
    1_000_000_000
}

/// Why the loop is stuck, if it is: no heartbeat for longer than the
/// timeout, or longer than allowed in the current state (all times in
/// nanoseconds).
pub open spec fn stuck_reason(
    heartbeat_timeout_ns: u128,
    heartbeat_age_ns: u128,
    state: BotState,
    state_age_ns: u128,
) -> Option<Seq<char>> {
    let max = max_state_age_spec(state);
    if heartbeat_age_ns > heartbeat_timeout_ns {
        Some(
            "no heartbeat for "@ + decimal_chars((heartbeat_age_ns / nanos_per_sec() as u128) as nat)
                + "s"@,
        )
    } else if max != 0 && state_age_ns > max * nanos_per_sec() {
        Some(state_name(state) + " exceeded "@ + decimal_chars(max as nat) + "s"@)
    } else {
        None
    }
}

/// Checks the loop's heartbeat and how long it has been in its state.
pub fn check(
    heartbeat_timeout_ns: u128,
    heartbeat_age_ns: u128,
    state: BotState,
    state_age_ns: u128,
) -> (v: Verdict)
    requires
        heartbeat_age_ns / 1_000_000_000 <= u64::MAX,
    ensures
        match stuck_reason(heartbeat_timeout_ns, heartbeat_age_ns, state, state_age_ns) {
            None => v == Verdict::Healthy,
            Some(m) => v matches Verdict::Stuck(s) && s@ == m,
        },
{
    if heartbeat_age_ns > heartbeat_timeout_ns {
        let secs = (heartbeat_age_ns / 1_000_000_000) as u64;
        let head = concat("no heartbeat for ", decimal(secs).as_str());
        return Verdict::Stuck(concat(head.as_str(), "s"));
    }
    let max = max_state_age(state);
    if max != 0 && state_age_ns > (max as u128) * 1_000_000_000 {
        let head = concat(state.name(), " exceeded ");
        let head = concat(head.as_str(), decimal(max).as_str());
        return Verdict::Stuck(concat(head.as_str(), "s"));
    }
    Verdict::Healthy
}


/// The idle states (stopped, paused, waiting for the game) have no time
/// limit: with a live heartbeat the loop is healthy however long it stays.
pub proof fn lemma_idle_states_never_time_out(
    heartbeat_timeout_ns: u128,
    heartbeat_age_ns: u128,
    state: BotState,
    state_age_ns: u128,
)
    requires
        state == BotState::Stopped || state == BotState::Paused || state
            == BotState::WaitingForRoblox,
        heartbeat_age_ns <= heartbeat_timeout_ns,
    ensures
        stuck_reason(heartbeat_timeout_ns, heartbeat_age_ns, state, state_age_ns) is None,
{
}

/// A stuck loop stays stuck as time passes: older heartbeats and longer
/// stays in the same state never make the verdict healthy again.
pub proof fn lemma_stuck_stays_stuck(
    heartbeat_timeout_ns: u128,
    state: BotState,
    heartbeat_age_ns: u128,
    state_age_ns: u128,
    later_heartbeat_age_ns: u128,
    later_state_age_ns: u128,
)
    requires
        stuck_reason(heartbeat_timeout_ns, heartbeat_age_ns, state, state_age_ns) is Some,
        heartbeat_age_ns <= later_heartbeat_age_ns,
        state_age_ns <= later_state_age_ns,
    ensures
        stuck_reason(heartbeat_timeout_ns, later_heartbeat_age_ns, state, later_state_age_ns) is Some,
{
}


/// The idle states: stopped, paused, or waiting for the game to start.
pub open spec fn is_idle(s: BotState) -> bool {
    s == BotState::Stopped || s == BotState::Paused || s == BotState::WaitingForRoblox
}

/// Only the idle states are without a time limit; every state in which the
/// loop is working has one, and none longer than 90 seconds.
pub proof fn lemma_only_idle_states_are_unlimited(s: BotState)
    ensures
        max_state_age_spec(s) == 0 <==> is_idle(s),
        !is_idle(s) ==> 20 <= max_state_age_spec(s) <= 90,
{
}

/// With a live heartbeat, a working (non-idle) state held for longer than
/// its limit makes the loop stuck, and so does any working state held for
/// more than 90 seconds.
pub proof fn lemma_working_states_time_out(
    heartbeat_timeout_ns: u128,
    heartbeat_age_ns: u128,
    state: BotState,
    state_age_ns: u128,
)
    requires
        !is_idle(state),
        heartbeat_age_ns <= heartbeat_timeout_ns,
        state_age_ns > max_state_age_spec(state) * 1_000_000_000 || state_age_ns > 90_000_000_000,
    ensures
        stuck_reason(heartbeat_timeout_ns, heartbeat_age_ns, state, state_age_ns) matches Some(m)
            && m == state_name(state) + " exceeded "@ + decimal_chars(
            max_state_age_spec(state) as nat,
        ) + "s"@,
{
    lemma_only_idle_states_are_unlimited(state);
}

} // verus!
