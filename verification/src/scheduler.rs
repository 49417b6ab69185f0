use vstd::prelude::*;

use crate::command::{CommandOutcome, CommandResult};
use crate::saturating_add;
use crate::saturating_add_spec;
use crate::timeline::{CueView, Timeline, TimelineView};

verus! {

/// Default fixed tick rate of the scheduling loop, chosen to keep
/// worst-case dispatch jitter well inside show tolerance.
pub const DEFAULT_TICK_INTERVAL_MS: u64 = 20;

/// Playback status of one show run.
#[derive(Clone, Copy, PartialEq, Eq, Structural, Debug)]
pub enum Status {
    Idle,
    Playing,
    Paused,
    Stopped,
    Faulted,
}

/// One absorbed failure: which cue, which controller, what the transport
/// reported, and the show-clock instant it was recorded at. Failures are
/// logged here and never halt the show.
#[derive(Clone, Copy, PartialEq, Eq, Structural, Debug)]
pub struct FaultEntry {
    pub cue_id: u64,
    pub controller_id: u64,
    pub result: CommandResult,
    pub at_ms: u64,
}

/// An operation was asked for from a state whose transitions do not
/// allow it.
#[derive(Clone, Copy, PartialEq, Eq, Structural, Debug)]
pub struct InvalidStateTransition {
    pub from: Status,
}

/// The show scheduler: owns the playback state of one show run against a
/// loaded timeline. It advances a monotonic show clock, decides which
/// cues are due, and remembers which were already dispatched; the driver
/// layer around it performs the sends it asks for and feeds outcomes
/// back. External readers only ever get snapshots.
#[derive(Debug)]
pub struct Scheduler {
    pub timeline: Timeline,
    pub status: Status,
    pub current_ms: u64,
    pub dispatched: Vec<bool>,
    pub faults: Vec<FaultEntry>,
}

/// Mathematical value of the scheduler state.
pub ghost struct SchedulerView {
    pub timeline: TimelineView,
    pub status: Status,
    pub current_ms: u64,
    pub dispatched: Seq<bool>,
    pub faults: Seq<FaultEntry>,
}

impl View for Scheduler {
    type V = SchedulerView;

    open spec fn view(&self) -> SchedulerView {
        SchedulerView {
            timeline: self.timeline@,
            status: self.status,
            current_ms: self.current_ms,
            dispatched: self.dispatched@,
            faults: self.faults@,
        }
    }
}

/// Whether a cue is due for dispatch at instant `t`, given whether it was
/// already dispatched this run: its start has been reached and it has not
/// fired yet.
pub open spec fn cue_due(c: CueView, already: bool, t: u64) -> bool {
    !already && c.start_ms <= t
}

/// Ids of the cues due at instant `t`, in playback order.
pub open spec fn due_ids(cues: Seq<CueView>, d: Seq<bool>, t: u64) -> Seq<u64>
    decreases cues.len(),
{
    if cues.len() == 0 {
        Seq::empty()
    } else {
        let rest = due_ids(cues.drop_last(), d.drop_last(), t);
        if cue_due(cues.last(), d[cues.len() - 1], t) {
            rest.push(cues.last().id)
        } else {
            rest
        }
    }
}

/// Dispatched-state after every cue due at `t` has fired.
pub open spec fn mark_due(cues: Seq<CueView>, d: Seq<bool>, t: u64) -> Seq<bool> {
    Seq::new(d.len(), |i: int| d[i] || cues[i].start_ms <= t)
}

/// Ids of the cues running at instant `t`, in playback order.
pub open spec fn active_ids(cues: Seq<CueView>, t: u64) -> Seq<u64>
    decreases cues.len(),
{
    if cues.len() == 0 {
        Seq::empty()
    } else {
        let rest = active_ids(cues.drop_last(), t);
        if cues.last().active_at(t) {
            rest.push(cues.last().id)
        } else {
            rest
        }
    }
}

impl SchedulerView {
    /// Scheduler invariant: sound timeline, one dispatched flag per cue.
    pub open spec fn wf(self) -> bool {
        &&& self.timeline.wf()
        &&& self.dispatched.len() == self.timeline.cues.len()
    }

    /// `start` begins a fresh run from the top: clock at zero, nothing
    /// dispatched, fault log empty.
    pub open spec fn start_model(self) -> SchedulerView {
        SchedulerView {
            status: Status::Playing,
            current_ms: 0,
            dispatched: Seq::new(self.timeline.cues.len(), |i: int| false),
            faults: Seq::empty(),
            ..self
        }
    }

    /// `pause` freezes the clock and the dispatched-state, nothing more.
    pub open spec fn pause_model(self) -> SchedulerView {
        SchedulerView { status: Status::Paused, ..self }
    }

    /// `resume` continues from the frozen instant, nothing more.
    pub open spec fn resume_model(self) -> SchedulerView {
        SchedulerView { status: Status::Playing, ..self }
    }

    /// `stop` ends the run; the clock reading and the log stay for the
    /// post-show query, but no further cue is dispatched and the active
    /// set reads as empty.
    pub open spec fn stop_model(self) -> SchedulerView {
        SchedulerView { status: Status::Stopped, ..self }
    }

    /// `seek` moves the clock to `t` and recomputes dispatched-state:
    /// cues starting at or after `t` are armed again, cues starting
    /// before `t` count as already dispatched, so resuming after a
    /// forward seek does not replay the past.
    pub open spec fn seek_model(self, t: u64) -> SchedulerView {
        SchedulerView {
            current_ms: t,
            dispatched: Seq::new(self.timeline.cues.len(), |i: int| self.timeline.cues[i].start_ms < t),
            ..self
        }
    }

    /// One scheduling tick after `elapsed` milliseconds: the clock
    /// advances (saturating), every cue whose start has been reached and
    /// that has not fired this run is dispatched exactly now. Returns the
    /// new state and the dispatched ids in playback order.
    pub open spec fn tick_model(self, elapsed: u64) -> (SchedulerView, Seq<u64>) {
        let t = saturating_add_spec(self.current_ms, elapsed);
        (
            SchedulerView {
                current_ms: t,
                dispatched: mark_due(self.timeline.cues, self.dispatched, t),
                ..self
            },
            due_ids(self.timeline.cues, self.dispatched, t),
        )
    }

    /// One outcome fed back from the driver layer: during a run, every
    /// non-success is absorbed into the fault log at the current clock
    /// reading; the show keeps its timing. Outside a run the outcome is
    /// stale — an abandoned send finishing after `stop` — and discarded.
    pub open spec fn note_model(self, o: CommandOutcome) -> SchedulerView {
        if self.in_run() && o.result != CommandResult::Success {
            SchedulerView {
                faults: self.faults.push(
                    FaultEntry {
                        cue_id: o.cue_id,
                        controller_id: o.controller_id,
                        result: o.result,
                        at_ms: self.current_ms,
                    },
                ),
                ..self
            }
        } else {
            self
        }
    }

    /// An unrecoverable internal error surfaces as the terminal `Faulted`
    /// state, reachable from anywhere and left only by loading afresh.
    pub open spec fn fault_model(self) -> SchedulerView {
        SchedulerView { status: Status::Faulted, ..self }
    }

    /// Whether a run is underway (cues may still fire or finish).
    pub open spec fn in_run(self) -> bool {
        self.status == Status::Playing || self.status == Status::Paused
    }

    /// The active cue set exposed outward: cues running at the current
    /// instant during a run, empty otherwise.
    pub open spec fn active_set(self) -> Seq<u64> {
        if self.in_run() {
            active_ids(self.timeline.cues, self.current_ms)
        } else {
            Seq::empty()
        }
    }
}

/// Read-only snapshot of playback state, pulled by the operator console
/// and telemetry; handing it out mutates nothing and drives nothing.
#[derive(Debug)]
pub struct ShowStatus {
    pub status: Status,
    pub current_ms: u64,
    pub total_duration_ms: u64,
    pub active_cue_ids: Vec<u64>,
    pub fault_count: usize,
}

impl Scheduler {
    /// A scheduler over a validated timeline, idle, at the top of the
    /// show.
    pub fn new(timeline: Timeline) -> (s: Scheduler)
        requires
            timeline@.wf(),
        ensures
            s@.wf(),
            s@.timeline == timeline@,
            s@.status == Status::Idle,
            s@.current_ms == 0,
            s@.dispatched == Seq::new(timeline@.cues.len(), |i: int| false),
            s@.faults == Seq::<FaultEntry>::empty(),
    {
        let n = timeline.cues.len();
        let mut dispatched: Vec<bool> = Vec::new();
        let mut i: usize = 0;
        while i < n
            invariant
                i <= n,
                dispatched@.len() == i,
                forall|k: int| 0 <= k < i ==> !(#[trigger] dispatched@[k]),
            decreases n - i,
        {
            dispatched.push(false);
            i = i + 1;
        }
        proof {
            assert(dispatched@ =~= Seq::new(timeline@.cues.len(), |i: int| false));
        }
        Scheduler { timeline, status: Status::Idle, current_ms: 0, dispatched, faults: Vec::new() }
    }

    /// Starts a run from the top. Legal from `Idle` or `Stopped` only;
    /// in particular a faulted scheduler must be reloaded, never
    /// restarted.
    pub fn start(&mut self) -> (r: Result<(), InvalidStateTransition>)
        requires
            old(self)@.wf(),
        ensures
            final(self)@.wf(),
            match r {
                Ok(()) => (old(self)@.status == Status::Idle || old(self)@.status
                    == Status::Stopped) && final(self)@ == old(self)@.start_model(),
                Err(e) => !(old(self)@.status == Status::Idle || old(self)@.status
                    == Status::Stopped) && final(self)@ == old(self)@ && e.from == old(self)@.status,
            },
    {
        match self.status {
            Status::Idle | Status::Stopped => {},
            _ => {
                return Err(InvalidStateTransition { from: self.status });
            },
        }
        let n = self.timeline.cues.len();
        let mut dispatched: Vec<bool> = Vec::new();
        let mut i: usize = 0;
        while i < n
            invariant
                i <= n,
                dispatched@.len() == i,
                forall|k: int| 0 <= k < i ==> !(#[trigger] dispatched@[k]),
            decreases n - i,
        {
            dispatched.push(false);
            i = i + 1;
        }
        self.status = Status::Playing;
        self.current_ms = 0;
        self.dispatched = dispatched;
        self.faults = Vec::new();
        proof {
            assert(self@.dispatched =~= old(self)@.start_model().dispatched);
            assert(self@ =~= old(self)@.start_model());
        }
        Ok(())
    }

    /// Freezes the clock and the dispatched-state. Legal while `Playing`.
    pub fn pause(&mut self) -> (r: Result<(), InvalidStateTransition>)
        ensures
            match r {
                Ok(()) => old(self)@.status == Status::Playing && final(self)@ == old(
                    self,
                )@.pause_model(),
                Err(e) => old(self)@.status != Status::Playing && final(self)@ == old(self)@
                    && e.from == old(self)@.status,
            },
    {
        match self.status {
            Status::Playing => {
                self.status = Status::Paused;
                Ok(())
            },
            _ => Err(InvalidStateTransition { from: self.status }),
        }
    }

    /// Continues from the frozen instant. Legal while `Paused`.
    pub fn resume(&mut self) -> (r: Result<(), InvalidStateTransition>)
        ensures
            match r {
                Ok(()) => old(self)@.status == Status::Paused && final(self)@ == old(
                    self,
                )@.resume_model(),
                Err(e) => old(self)@.status != Status::Paused && final(self)@ == old(self)@
                    && e.from == old(self)@.status,
            },
    {
        match self.status {
            Status::Paused => {
                self.status = Status::Playing;
                Ok(())
            },
            _ => Err(InvalidStateTransition { from: self.status }),
        }
    }

    /// Ends the run: no further cue is dispatched, the active set reads
    /// empty, the clock reading and fault log remain queryable. Legal
    /// while `Playing` or `Paused`.
    pub fn stop(&mut self) -> (r: Result<(), InvalidStateTransition>)
        ensures
            match r {
                Ok(()) => (old(self)@.status == Status::Playing || old(self)@.status
                    == Status::Paused) && final(self)@ == old(self)@.stop_model(),
                Err(e) => !(old(self)@.status == Status::Playing || old(self)@.status
                    == Status::Paused) && final(self)@ == old(self)@ && e.from == old(self)@.status,
            },
    {
        match self.status {
            Status::Playing | Status::Paused => {
                self.status = Status::Stopped;
                Ok(())
            },
            _ => Err(InvalidStateTransition { from: self.status }),
        }
    }

    /// Moves the clock to `t` and re-arms exactly the cues starting at or
    /// after `t`. Legal in `Idle`, `Paused` or `Stopped` — never during
    /// live playback.
    pub fn seek(&mut self, t: u64) -> (r: Result<(), InvalidStateTransition>)
        requires
            old(self)@.wf(),
        ensures
            final(self)@.wf(),
            match r {
                Ok(()) => (old(self)@.status == Status::Idle || old(self)@.status == Status::Paused
                    || old(self)@.status == Status::Stopped) && final(self)@ == old(
                    self,
                )@.seek_model(t),
                Err(e) => !(old(self)@.status == Status::Idle || old(self)@.status
                    == Status::Paused || old(self)@.status == Status::Stopped) && final(self)@
                    == old(self)@ && e.from == old(self)@.status,
            },
    {
        match self.status {
            Status::Idle | Status::Paused | Status::Stopped => {},
            _ => {
                return Err(InvalidStateTransition { from: self.status });
            },
        }
        let ghost pre = self@;
        let n = self.timeline.cues.len();
        let mut dispatched: Vec<bool> = Vec::new();
        let mut i: usize = 0;
        while i < n
            invariant
                i <= n,
                self@ == pre,
                n == pre.timeline.cues.len(),
                dispatched@.len() == i,
                forall|k: int|
                    0 <= k < i ==> (#[trigger] dispatched@[k]) == (pre.timeline.cues[k].start_ms
                        < t),
            decreases n - i,
        {
            proof {
                assert(pre.timeline.cues[i as int] == self.timeline.cues@[i as int]@);
            }
            dispatched.push(self.timeline.cues[i].start_ms < t);
            i = i + 1;
        }
        self.current_ms = t;
        self.dispatched = dispatched;
        proof {
            assert(self@.dispatched =~= pre.seek_model(t).dispatched);
            assert(self@ =~= pre.seek_model(t));
        }
        Ok(())
    }

    /// One scheduling tick: advances the clock by `elapsed` milliseconds
    /// and dispatches, exactly once each and in playback order, every cue
    /// whose start the clock has now reached. Legal while `Playing`.
    pub fn tick(&mut self, elapsed: u64) -> (r: Result<Vec<u64>, InvalidStateTransition>)
        requires
            old(self)@.wf(),
        ensures
            final(self)@.wf(),
            match r {
                Ok(ids) => old(self)@.status == Status::Playing && final(self)@ == old(
                    self,
                )@.tick_model(elapsed).0 && ids@ == old(self)@.tick_model(elapsed).1,
                Err(e) => old(self)@.status != Status::Playing && final(self)@ == old(self)@
                    && e.from == old(self)@.status,
            },
    {
        match self.status {
            Status::Playing => {},
            _ => {
                return Err(InvalidStateTransition { from: self.status });
            },
        }
        let ghost pre = self@;
        let t = saturating_add(self.current_ms, elapsed);
        let n = self.timeline.cues.len();
        let mut emitted: Vec<u64> = Vec::new();
        let mut i: usize = 0;
        while i < n
            invariant
                i <= n,
                n == pre.timeline.cues.len(),
                n == self.timeline.cues@.len(),
                self@.timeline == pre.timeline,
                self@.status == pre.status,
                self@.current_ms == pre.current_ms,
                self@.faults == pre.faults,
                self@.dispatched.len() == n,
                pre.dispatched.len() == n,
                emitted@ == due_ids(pre.timeline.cues.take(i as int), pre.dispatched.take(i as int), t),
                forall|k: int|
                    0 <= k < i ==> (#[trigger] self@.dispatched[k]) == (pre.dispatched[k]
                        || pre.timeline.cues[k].start_ms <= t),
                forall|k: int| i <= k < n ==> (#[trigger] self@.dispatched[k]) == pre.dispatched[k],
            decreases n - i,
        {
            proof {
                assert(pre.timeline.cues.take(i as int + 1).drop_last() =~= pre.timeline.cues.take(
                    i as int,
                ));
                assert(pre.dispatched.take(i as int + 1).drop_last() =~= pre.dispatched.take(
                    i as int,
                ));
                assert(pre.timeline.cues.take(i as int + 1).last() == pre.timeline.cues[i as int]);
                assert(pre.dispatched.take(i as int + 1)[i as int] == pre.dispatched[i as int]);
                assert(pre.timeline.cues[i as int] == self.timeline.cues@[i as int]@);
            }
            let already = self.dispatched[i];
            if !already && self.timeline.cues[i].start_ms <= t {
                emitted.push(self.timeline.cues[i].id);
                self.dispatched[i] = true;
            }
            i = i + 1;
        }
        self.current_ms = t;
        proof {
            assert(pre.timeline.cues.take(n as int) =~= pre.timeline.cues);
            assert(pre.dispatched.take(n as int) =~= pre.dispatched);
            assert(self@.dispatched =~= pre.tick_model(elapsed).0.dispatched);
            assert(self@ =~= pre.tick_model(elapsed).0);
        }
        Ok(emitted)
    }

    /// Feeds one outcome back into the run's fault log, per `note_model`:
    /// failures are absorbed, stale outcomes after a stop are discarded,
    /// and playback state is otherwise untouched.
    pub fn note_outcome(&mut self, outcome: &CommandOutcome)
        ensures
            final(self)@ == old(self)@.note_model(*outcome),
    {
        let in_run = match self.status {
            Status::Playing | Status::Paused => true,
            _ => false,
        };
        let is_success = match outcome.result {
            CommandResult::Success => true,
            _ => false,
        };
        if in_run && !is_success {
            self.faults.push(
                FaultEntry {
                    cue_id: outcome.cue_id,
                    controller_id: outcome.controller_id,
                    result: outcome.result,
                    at_ms: self.current_ms,
                },
            );
        }
        proof {
            assert(self@ =~= old(self)@.note_model(*outcome));
        }
    }

    /// Records an unrecoverable internal error: the run is over and only
    /// a fresh load leaves `Faulted`.
    pub fn mark_faulted(&mut self)
        ensures
            final(self)@ == old(self)@.fault_model(),
    {
        self.status = Status::Faulted;
    }

    /// Read-only snapshot for the operator console: status, clock, total
    /// duration, the cues running right now, and how many faults the run
    /// has absorbed.
    pub fn status_snapshot(&self) -> (r: ShowStatus)
        requires
            self@.wf(),
        ensures
            r.status == self@.status,
            r.current_ms == self@.current_ms,
            r.total_duration_ms == self@.timeline.total_duration(),
            r.active_cue_ids@ == self@.active_set(),
            r.fault_count == self@.faults.len(),
    {
        let total = self.timeline.total_duration();
        let in_run = match self.status {
            Status::Playing | Status::Paused => true,
            _ => false,
        };
        let mut active: Vec<u64> = Vec::new();
        if in_run {
            let t = self.current_ms;
            let ghost cs = self@.timeline.cues;
            let mut i: usize = 0;
            while i < self.timeline.cues.len()
                invariant
                    i <= self.timeline.cues@.len(),
                    cs == self@.timeline.cues,
                    cs.len() == self.timeline.cues@.len(),
                    self@.wf(),
                    t == self@.current_ms,
                    active@ == active_ids(cs.take(i as int), t),
                decreases self.timeline.cues@.len() - i,
            {
                proof {
                    assert(cs.take(i as int + 1).drop_last() =~= cs.take(i as int));
                    assert(cs.take(i as int + 1).last() == cs[i as int]);
                    assert(cs[i as int].wf());
                    assert(cs[i as int] == self.timeline.cues@[i as int]@);
                }
                let c = &self.timeline.cues[i];
                if c.start_ms <= t && t < c.start_ms + c.duration_ms {
                    active.push(c.id);
                }
                i = i + 1;
            }
            proof {
                assert(cs.take(cs.len() as int) =~= cs);
            }
        }
        ShowStatus {
            status: self.status,
            current_ms: self.current_ms,
            total_duration_ms: total,
            active_cue_ids: active,
            fault_count: self.faults.len(),
        }
    }

    /// The run's accumulated fault log, oldest first.
    pub fn fault_log(&self) -> (r: &Vec<FaultEntry>)
        ensures
            r@ == self@.faults,
    {
        &self.faults
    }
}

/// Whether some still-undispatched cue whose start time the clock has
/// reached at `t` carries the id.
pub open spec fn due_cue_with_id(cues: Seq<CueView>, d: Seq<bool>, t: u64, id: u64) -> bool {
    exists|i: int|
        0 <= i < cues.len() && (#[trigger] cues[i]).id == id && cue_due(cues[i], d[i], t)
}

/// What a tick's emissions mean: every emitted id belongs to a cue that
/// was still undispatched with its start time reached, and — the
/// exactly-once guarantee — every such cue's id is emitted.
pub proof fn lemma_due_ids_members(cues: Seq<CueView>, d: Seq<bool>, t: u64)
    requires
        d.len() == cues.len(),
    ensures
        forall|k: int| #![trigger due_ids(cues, d, t)[k]]
            0 <= k < due_ids(cues, d, t).len() ==> due_cue_with_id(
                cues,
                d,
                t,
                due_ids(cues, d, t)[k],
            ),
        forall|i: int|
            0 <= i < cues.len() && cue_due(cues[i], #[trigger] d[i], t) ==> due_ids(
                cues,
                d,
                t,
            ).contains(cues[i].id),
    decreases cues.len(),
{
    if cues.len() > 0 {
        let shorter_c = cues.drop_last();
        let shorter_d = d.drop_last();
        lemma_due_ids_members(shorter_c, shorter_d, t);
        let rest = due_ids(shorter_c, shorter_d, t);
        let full = due_ids(cues, d, t);
        let n = cues.len() as int;
        assert forall|k: int| #![trigger full[k]] 0 <= k < full.len() implies due_cue_with_id(
            cues,
            d,
            t,
            full[k],
        ) by {
            if k < rest.len() {
                assert(full[k] == rest[k]);
                let i = choose|i: int|
                    0 <= i < shorter_c.len() && (#[trigger] shorter_c[i]).id == rest[k] && cue_due(
                        shorter_c[i],
                        shorter_d[i],
                        t,
                    );
                assert(cues[i] == shorter_c[i] && d[i] == shorter_d[i]);
                assert(0 <= i < cues.len() && cues[i].id == full[k] && cue_due(cues[i], d[i], t));
            } else {
                assert(cue_due(cues[n - 1], d[n - 1], t));
                assert(cues[n - 1].id == full[k]);
            }
        }
        assert forall|i: int|
            0 <= i < cues.len() && cue_due(cues[i], #[trigger] d[i], t) implies full.contains(
            cues[i].id,
        ) by {
            if i < n - 1 {
                assert(shorter_c[i] == cues[i] && shorter_d[i] == d[i]);
                assert(rest.contains(cues[i].id));
                let k = choose|k: int| 0 <= k < rest.len() && rest[k] == cues[i].id;
                assert(full[k] == cues[i].id);
                assert(full.contains(cues[i].id));
            } else {
                assert(full[full.len() - 1] == cues[i].id);
                assert(full.contains(cues[i].id));
            }
        }
    }
}

/// Whether two ids are carried by two due cues standing in timeline
/// order.
pub open spec fn due_pair_in_order(cues: Seq<CueView>, d: Seq<bool>, t: u64, id1: u64, id2: u64) -> bool {
    exists|i1: int, i2: int|
        0 <= i1 < i2 < cues.len() && (#[trigger] cues[i1]).id == id1 && (#[trigger] cues[i2]).id
            == id2 && cue_due(cues[i1], d[i1], t) && cue_due(cues[i2], d[i2], t)
}

/// Within one tick, cues are dispatched in timeline order: any two
/// emitted ids come from two due cues in index order — so on a sorted
/// timeline the dispatch order is non-decreasing in start time.
pub proof fn lemma_tick_emits_in_playback_order(cues: Seq<CueView>, d: Seq<bool>, t: u64)
    requires
        d.len() == cues.len(),
    ensures
        forall|k1: int, k2: int| #![trigger due_ids(cues, d, t)[k1], due_ids(cues, d, t)[k2]]
            0 <= k1 < k2 < due_ids(cues, d, t).len() ==> due_pair_in_order(
                cues,
                d,
                t,
                due_ids(cues, d, t)[k1],
                due_ids(cues, d, t)[k2],
            ),
    decreases cues.len(),
{
    if cues.len() > 0 {
        let shorter_c = cues.drop_last();
        let shorter_d = d.drop_last();
        lemma_tick_emits_in_playback_order(shorter_c, shorter_d, t);
        lemma_due_ids_members(shorter_c, shorter_d, t);
        let rest = due_ids(shorter_c, shorter_d, t);
        let full = due_ids(cues, d, t);
        let n = cues.len() as int;
        assert forall|k1: int, k2: int| #![trigger full[k1], full[k2]]
            0 <= k1 < k2 < full.len() implies due_pair_in_order(cues, d, t, full[k1], full[k2]) by {
            if k2 < rest.len() {
                assert(due_pair_in_order(shorter_c, shorter_d, t, rest[k1], rest[k2]));
                let (i1, i2) = choose|i1: int, i2: int|
                    0 <= i1 < i2 < shorter_c.len() && (#[trigger] shorter_c[i1]).id == rest[k1] && (
                    #[trigger] shorter_c[i2]).id == rest[k2] && cue_due(
                        shorter_c[i1],
                        shorter_d[i1],
                        t,
                    ) && cue_due(shorter_c[i2], shorter_d[i2], t);
                assert(cues[i1] == shorter_c[i1] && cues[i2] == shorter_c[i2]);
                assert(d[i1] == shorter_d[i1] && d[i2] == shorter_d[i2]);
                assert(full[k1] == rest[k1] && full[k2] == rest[k2]);
            } else {
                // The pushed element: full[k2] is the last cue's id, and
                // full[k1] has a witness inside the shorter prefix.
                assert(full[k2] == cues[n - 1].id);
                assert(cue_due(cues[n - 1], d[n - 1], t));
                assert(full[k1] == rest[k1]);
                assert(due_cue_with_id(shorter_c, shorter_d, t, rest[k1]));
                let i1 = choose|i1: int|
                    0 <= i1 < shorter_c.len() && (#[trigger] shorter_c[i1]).id == rest[k1]
                        && cue_due(shorter_c[i1], shorter_d[i1], t);
                assert(cues[i1] == shorter_c[i1] && d[i1] == shorter_d[i1]);
                assert(0 <= i1 < n - 1 && cues[i1].id == full[k1] && cue_due(cues[i1], d[i1], t));
            }
        }
    }
}

/// At-most-once dispatch: within one uninterrupted run (no seek in
/// between), an id emitted by one tick is never emitted again by a later
/// tick — marking due cues as dispatched makes re-emission impossible.
/// Cue ids must be unique, as the timeline invariant guarantees.
pub proof fn lemma_dispatch_at_most_once(cues: Seq<CueView>, d: Seq<bool>, t1: u64, t2: u64)
    requires
        d.len() == cues.len(),
        forall|i: int, j: int|
            0 <= i < j < cues.len() ==> (#[trigger] cues[i]).id != (#[trigger] cues[j]).id,
    ensures
        forall|k: int|
            0 <= k < due_ids(cues, d, t1).len() ==> !due_ids(
                cues,
                mark_due(cues, d, t1),
                t2,
            ).contains(#[trigger] due_ids(cues, d, t1)[k]),
{
    let e1 = due_ids(cues, d, t1);
    let d2 = mark_due(cues, d, t1);
    let e2 = due_ids(cues, d2, t2);
    lemma_due_ids_members(cues, d, t1);
    lemma_due_ids_members(cues, d2, t2);
    assert forall|k: int| 0 <= k < e1.len() implies !e2.contains(e1[k]) by {
        let id = e1[k];
        assert(due_cue_with_id(cues, d, t1, id));
        let i = choose|i: int|
            0 <= i < cues.len() && (#[trigger] cues[i]).id == id && cue_due(cues[i], d[i], t1);
        if e2.contains(id) {
            let k2 = choose|k2: int| 0 <= k2 < e2.len() && e2[k2] == id;
            assert(due_cue_with_id(cues, d2, t2, e2[k2]));
            let j = choose|j: int|
                0 <= j < cues.len() && (#[trigger] cues[j]).id == id && cue_due(cues[j], d2[j], t2);
            if i == j {
                assert(d2[i]);
            } else if i < j {
                assert(cues[i].id != cues[j].id);
            } else {
                assert(cues[j].id != cues[i].id);
            }
        }
    }
}

/// At-most-once dispatch at the scheduler level: across two consecutive
/// ticks of one run, the second tick never re-emits an id the first
/// emitted.
pub proof fn lemma_consecutive_ticks_disjoint(s: SchedulerView, e1: u64, e2: u64)
    requires
        s.wf(),
    ensures
        forall|k: int|
            0 <= k < s.tick_model(e1).1.len() ==> !s.tick_model(e1).0.tick_model(e2).1.contains(
                #[trigger] s.tick_model(e1).1[k],
            ),
{
    let t1 = saturating_add_spec(s.current_ms, e1);
    let t2 = saturating_add_spec(t1, e2);
    lemma_dispatch_at_most_once(s.timeline.cues, s.dispatched, t1, t2);
}

/// Exactly-once dispatch at the scheduler level: a tick emits the id of
/// every cue whose start time the advanced clock has reached and that
/// has not yet fired this run.
pub proof fn lemma_tick_emits_every_due_cue(s: SchedulerView, elapsed: u64, i: int)
    requires
        s.wf(),
        0 <= i < s.timeline.cues.len(),
        !s.dispatched[i],
        s.timeline.cues[i].start_ms <= saturating_add_spec(s.current_ms, elapsed),
    ensures
        s.tick_model(elapsed).1.contains(s.timeline.cues[i].id),
{
    lemma_due_ids_members(
        s.timeline.cues,
        s.dispatched,
        saturating_add_spec(s.current_ms, elapsed),
    );
}

/// Clock monotonicity while `Playing`: of the operations legal in that
/// state, a tick only advances the clock and none of the others moves it
/// at all, so consecutive status snapshots of a playing show never show
/// time running backwards.
pub proof fn lemma_playing_time_monotonic(s: SchedulerView, elapsed: u64, o: CommandOutcome)
    ensures
        s.tick_model(elapsed).0.current_ms >= s.current_ms,
        s.pause_model().current_ms == s.current_ms,
        s.resume_model().current_ms == s.current_ms,
        s.stop_model().current_ms == s.current_ms,
        s.note_model(o).current_ms == s.current_ms,
        s.fault_model().current_ms == s.current_ms,
{
}

/// Idempotent pause/resume: pausing and then resuming, with no seek in
/// between, returns the scheduler to exactly the state of the pause
/// instant — clock, dispatched-state and fault log included.
pub proof fn lemma_pause_resume_identity(s: SchedulerView)
    requires
        s.status == Status::Playing,
    ensures
        s.pause_model().resume_model() == s,
{
}

} // verus!
