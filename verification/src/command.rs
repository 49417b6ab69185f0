use vstd::prelude::*;

verus! {

/// Result of one logical device command, as the transport reports it.
/// Never raised as an error: always carried as data.
#[derive(Clone, Copy, PartialEq, Eq, Structural, Debug)]
pub enum CommandResult {
    Success,
    Timeout,
    Rejected,
    TransportError,
}

impl CommandResult {
    /// Whether this result counts against a controller's health. Timeouts
    /// and transport faults do; a rejection means the controller answered
    /// and objected to the command itself.
    pub open spec fn is_transport_failure(self) -> bool {
        self == CommandResult::Timeout || self == CommandResult::TransportError
    }
}

/// Outcome of one logical send: which controller, for which cue, how it
/// went, and how long it took. Produced by the transport (or synthesised
/// by the executor for a skipped controller) and consumed by the registry
/// and the fault log; never persisted.
#[derive(Clone, Copy, PartialEq, Eq, Structural, Debug)]
pub struct CommandOutcome {
    pub controller_id: u64,
    pub cue_id: u64,
    pub result: CommandResult,
    pub latency_ms: u64,
}

} // verus!
