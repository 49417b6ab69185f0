use vstd::prelude::*;

use crate::command::{CommandOutcome, CommandResult};
use crate::registry::{attempt_list, HealthState, Registry, RegistryView};
use crate::timeline::{Cue, CueView};

verus! {

/// How one due cue fans out: controllers worth attempting, and the
/// synthetic outcomes for the ones skipped because the registry reports
/// them unreachable. The actual sends are issued concurrently by the
/// driver layer; the cue counts as dispatched once all of them are
/// issued, so a slow controller never holds up cue timing.
#[derive(Debug)]
pub struct DispatchPlan {
    pub attempts: Vec<u64>,
    pub skipped: Vec<CommandOutcome>,
}

/// The synthetic outcome recorded for a skipped controller: an immediate
/// transport error with zero latency — no attempt was made, nothing
/// blocked on it.
pub open spec fn skip_outcome(cue_id: u64, controller_id: u64) -> CommandOutcome {
    CommandOutcome {
        controller_id,
        cue_id,
        result: CommandResult::TransportError,
        latency_ms: 0,
    }
}

/// The synthetic outcomes for the targets of `cue` that are not worth
/// attempting under registry state `reg`, in target order.
pub open spec fn skipped_outcomes(reg: RegistryView, cue: CueView) -> Seq<CommandOutcome>
    decreases cue.targets.len(),
{
    if cue.targets.len() == 0 {
        Seq::empty()
    } else {
        let shorter = CueView { targets: cue.targets.drop_last(), ..cue };
        let rest = skipped_outcomes(reg, shorter);
        if reg.attemptable(cue.targets.last()) {
            rest
        } else {
            rest.push(skip_outcome(cue.id, cue.targets.last()))
        }
    }
}

/// Splits a due cue's targets into controllers to attempt and synthetic
/// failure outcomes for the unreachable rest. Fallback policy: a cue
/// never stalls waiting on a known-dead controller.
pub fn plan_dispatch(cue: &Cue, registry: &Registry) -> (p: DispatchPlan)
    ensures
        p.attempts@ == attempt_list(registry@, cue@.targets),
        p.skipped@ == skipped_outcomes(registry@, cue@),
{
    let mut attempts: Vec<u64> = Vec::new();
    let mut skipped: Vec<CommandOutcome> = Vec::new();
    let ghost cv = cue@;
    let mut i: usize = 0;
    while i < cue.targets.len()
        invariant
            i <= cue.targets@.len(),
            cv == cue@,
            attempts@ == attempt_list(registry@, cv.targets.take(i as int)),
            skipped@ == skipped_outcomes(registry@, CueView { targets: cv.targets.take(i as int), ..cv }),
        decreases cue.targets@.len() - i,
    {
        proof {
            assert(cv.targets.take(i as int + 1).drop_last() =~= cv.targets.take(i as int));
            assert(cv.targets.take(i as int + 1).last() == cv.targets[i as int]);
        }
        let id = cue.targets[i];
        let attemptable = match registry.health(id) {
            None => false,
            Some(HealthState::Unreachable) => false,
            Some(_) => true,
        };
        if attemptable {
            attempts.push(id);
        } else {
            skipped.push(
                CommandOutcome {
                    controller_id: id,
                    cue_id: cue.id,
                    result: CommandResult::TransportError,
                    latency_ms: 0,
                },
            );
        }
        i = i + 1;
    }
    proof {
        assert(cv.targets.take(cv.targets.len() as int) =~= cv.targets);
        assert(CueView { targets: cv.targets.take(cv.targets.len() as int), ..cv } == cv);
    }
    DispatchPlan { attempts, skipped }
}

/// Joins the synthetic outcomes of a plan with the outcomes the driver
/// collected for the attempted controllers: the cue's full outcome list.
pub fn join_outcomes(skipped: Vec<CommandOutcome>, attempted: Vec<CommandOutcome>) -> (r: Vec<
    CommandOutcome,
>)
    ensures
        r@ == skipped@ + attempted@,
{
    let mut r = skipped;
    let mut rest = attempted;
    r.append(&mut rest);
    r
}

/// Fallback correctness: every synthetic outcome a plan records for a
/// skipped controller is a transport error with zero latency, for a
/// controller the registry holds unreachable (or has never seen), and
/// the skipped list holds exactly the targets not attempted.
pub proof fn lemma_fallback_synthetic(reg: RegistryView, cue: CueView)
    ensures
        forall|k: int|
            0 <= k < skipped_outcomes(reg, cue).len()
                ==> (#[trigger] skipped_outcomes(reg, cue)[k]).result
                    == CommandResult::TransportError,
        forall|k: int|
            0 <= k < skipped_outcomes(reg, cue).len()
                ==> (#[trigger] skipped_outcomes(reg, cue)[k]).latency_ms == 0,
        forall|k: int|
            0 <= k < skipped_outcomes(reg, cue).len()
                ==> (#[trigger] skipped_outcomes(reg, cue)[k]).cue_id == cue.id,
        forall|k: int|
            0 <= k < skipped_outcomes(reg, cue).len()
                ==> !reg.attemptable((#[trigger] skipped_outcomes(reg, cue)[k]).controller_id),
        skipped_outcomes(reg, cue).len() + attempt_list(reg, cue.targets).len()
            == cue.targets.len(),
    decreases cue.targets.len(),
{
    if cue.targets.len() > 0 {
        let shorter = CueView { targets: cue.targets.drop_last(), ..cue };
        lemma_fallback_synthetic(reg, shorter);
        assert(shorter.targets =~= cue.targets.drop_last());
    }
}

} // verus!
