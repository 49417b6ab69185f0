use vstd::prelude::*;

use crate::command::{CommandOutcome, CommandResult};
use crate::saturating_add;
use crate::saturating_add_spec;

verus! {

/// Default bound on one send attempt, kept short against cue granularity.
pub const DEFAULT_SEND_TIMEOUT_MS: u64 = 200;

/// What one wire-level attempt of a command came back with. The socket
/// work itself happens in the driver layer outside the engine; the engine
/// decides retries and folds attempts into the one logical outcome.
#[derive(Clone, Copy, PartialEq, Eq, Structural, Debug)]
pub struct SendAttempt {
    pub result: CommandResult,
    pub latency_ms: u64,
}

/// Retry policy for one logical send: retry at most once, and only on a
/// timeout. A rejection marks the command itself malformed and must be
/// surfaced, never retried; a transport fault is reported as it stands.
pub open spec fn should_retry_spec(first: CommandResult) -> bool {
    first == CommandResult::Timeout
}

pub fn should_retry(first: CommandResult) -> (r: bool)
    ensures
        r == should_retry_spec(first),
{
    match first {
        CommandResult::Timeout => true,
        _ => false,
    }
}

/// Folds the attempts of one logical send into its single outcome: the
/// caller hands in the first attempt and, exactly when the policy asked
/// for a retry, the second. Every logical send yields one outcome; a
/// retry shows up only in the summed latency.
pub fn resolve_send(controller_id: u64, cue_id: u64, first: SendAttempt, second: Option<
    SendAttempt,
>) -> (o: CommandOutcome)
    requires
        second.is_some() == should_retry_spec(first.result),
    ensures
        o.controller_id == controller_id,
        o.cue_id == cue_id,
        match second {
            None => o.result == first.result && o.latency_ms == first.latency_ms,
            Some(s) => o.result == s.result && o.latency_ms == saturating_add_spec(
                first.latency_ms,
                s.latency_ms,
            ),
        },
{
    match second {
        None => CommandOutcome {
            controller_id,
            cue_id,
            result: first.result,
            latency_ms: first.latency_ms,
        },
        Some(s) => CommandOutcome {
            controller_id,
            cue_id,
            result: s.result,
            latency_ms: saturating_add(first.latency_ms, s.latency_ms),
        },
    }
}

} // verus!
