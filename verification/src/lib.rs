//! A show execution engine for live lighting and pyrotechnic shows: it
//! turns a validated timeline of timed cues into device commands on a
//! monotonic show clock, tracks playback state, and tolerates controller
//! faults without losing show timing. The shell around it owns all I/O —
//! sockets, files, windows — and drives the engine through plain values:
//! the engine decides, the shell performs.

use vstd::prelude::*;

pub mod command;
pub mod effect;
pub mod executor;
pub mod export;
pub mod registry;
pub mod scheduler;
pub mod system;
pub mod transport;
pub mod timeline;
pub mod validation;

use crate::registry::Registry;
use crate::scheduler::{Scheduler, Status};
use crate::timeline::{load_accepts, views_of, Cue, Timeline};
use crate::validation::{any_error, validate, validate_spec, ValidationError};

verus! {

/// Conversion factor between whole seconds of show time and the
/// millisecond clock the engine runs on.
pub const MILLIS_PER_SECOND: u64 = 1000;

/// Converts a whole-second figure from an operator console into engine
/// milliseconds, saturating at the top of the clock range.
pub fn seconds_to_millis(seconds: u64) -> (r: u64)
    ensures
        seconds <= u64::MAX / MILLIS_PER_SECOND ==> r == seconds * MILLIS_PER_SECOND,
        seconds > u64::MAX / MILLIS_PER_SECOND ==> r == u64::MAX,
{
    if seconds <= u64::MAX / MILLIS_PER_SECOND {
        seconds * MILLIS_PER_SECOND
    } else {
        u64::MAX
    }
}

/// Sum of two millisecond figures, saturating at the top of the clock
/// range.
pub open spec fn saturating_add_spec(a: u64, b: u64) -> u64 {
    if a + b > u64::MAX {
        u64::MAX
    } else {
        (a + b) as u64
    }
}

pub fn saturating_add(a: u64, b: u64) -> (r: u64)
    ensures
        r == saturating_add_spec(a, b),
{
    if b > u64::MAX - a {
        u64::MAX
    } else {
        a + b
    }
}

/// Loads a show for playback: builds the timeline from decoded cue data,
/// validates it against the registry, and hands back an idle scheduler
/// armed at the top of the show. Refused, with the reason, when the cue
/// data is structurally unsound or validation reports an error; warnings
/// alone do not block.
pub fn load_show(show_id: u64, cues: Vec<Cue>, registry: &Registry) -> (r: Result<
    Scheduler,
    ValidationError,
>)
    ensures
        match r {
            Ok(s) => {
                &&& load_accepts(views_of(cues@))
                &&& !any_error(validate_spec(views_of(cues@), registry@))
                &&& s@.wf()
                &&& s@.timeline.show_id == show_id
                &&& s@.timeline.cues == views_of(cues@)
                &&& s@.status == Status::Idle
                &&& s@.current_ms == 0
                &&& s@.faults.len() == 0
            },
            Err(ValidationError::Rejected { report }) => {
                &&& load_accepts(views_of(cues@))
                &&& report.issues@ == validate_spec(views_of(cues@), registry@)
                &&& any_error(validate_spec(views_of(cues@), registry@))
            },
            Err(_) => !load_accepts(views_of(cues@)),
        },
{
    let timeline = match Timeline::load(show_id, cues) {
        Ok(t) => t,
        Err(e) => {
            return Err(e);
        },
    };
    let report = validate(&timeline, registry);
    if report.has_errors() {
        return Err(ValidationError::Rejected { report });
    }
    Ok(Scheduler::new(timeline))
}

} // verus!
