use vstd::prelude::*;

use crate::effect::EffectKind;
use crate::registry::{Registry, RegistryView};
use crate::timeline::{Cue, CueView, Timeline};

verus! {

/// Weight of a validation finding. An `Error` blocks playback start; a
/// `Warning` lets the show run with the affected effect skipped or
/// contended at runtime.
#[derive(Clone, Copy, PartialEq, Eq, Structural, Debug)]
pub enum Severity {
    Error,
    Warning,
}

/// One finding of the validation engine, tied to the cue it concerns.
#[derive(Clone, Copy, PartialEq, Eq, Structural, Debug)]
pub enum IssueKind {
    /// A cue addresses a controller id the registry has never seen.
    UnresolvedController { cue_id: u64, controller_id: u64 },
    /// No target controller of the cue declares the cue's effect type.
    CapabilityMismatch { cue_id: u64 },
    /// Two cues overlap in time on a shared controller while asking for
    /// conflicting effect types.
    ConflictingOverlap { cue_id: u64, other_cue_id: u64 },
}

impl IssueKind {
    /// An unresolved controller reference is fatal; the other findings
    /// are advisory.
    pub open spec fn severity(self) -> Severity {
        match self {
            IssueKind::UnresolvedController { .. } => Severity::Error,
            IssueKind::CapabilityMismatch { .. } => Severity::Warning,
            IssueKind::ConflictingOverlap { .. } => Severity::Warning,
        }
    }

    pub open spec fn is_error(self) -> bool {
        self.severity() == Severity::Error
    }
}

/// Everything validation found, in cue order. A report with any `Error`
/// finding blocks playback start; warnings do not.
#[derive(Debug)]
pub struct ValidationReport {
    pub issues: Vec<IssueKind>,
}

/// Whether a list of findings contains one that blocks playback.
pub open spec fn any_error(issues: Seq<IssueKind>) -> bool {
    exists|i: int| 0 <= i < issues.len() && (#[trigger] issues[i]).is_error()
}

impl ValidationReport {
    pub open spec fn has_errors_spec(self) -> bool {
        any_error(self.issues@)
    }

    /// Whether the report contains a finding that blocks playback.
    pub fn has_errors(&self) -> (r: bool)
        ensures
            r == self.has_errors_spec(),
    {
        let mut i: usize = 0;
        while i < self.issues.len()
            invariant
                i <= self.issues@.len(),
                forall|k: int| 0 <= k < i ==> !(#[trigger] self.issues@[k]).is_error(),
            decreases self.issues@.len() - i,
        {
            let is_err = match self.issues[i] {
                IssueKind::UnresolvedController { .. } => true,
                _ => false,
            };
            if is_err {
                return true;
            }
            i = i + 1;
        }
        false
    }
}

/// Why a show was refused before playback: a structurally unsound cue
/// list, or a validation report carrying at least one error.
#[derive(Debug)]
pub enum ValidationError {
    /// A cue addresses no controller at all.
    EmptyTargets { cue_id: u64 },
    /// A cue's start time plus duration leaves the millisecond clock.
    EndTimeOverflow { cue_id: u64 },
    /// The decoded cue list is not in playback order at this position.
    CuesNotOrdered { position: usize },
    /// Two cues share an id.
    DuplicateCueId { cue_id: u64 },
    /// Structurally sound, but validation against the registry found at
    /// least one error-grade issue; the full report is enclosed.
    Rejected { report: ValidationReport },
}

/// The unresolved-reference findings for one cue: an error for each
/// target id the registry has never seen, in target order.
pub open spec fn unresolved_in(cue_id: u64, targets: Seq<u64>, reg: RegistryView) -> Seq<IssueKind>
    decreases targets.len(),
{
    if targets.len() == 0 {
        Seq::empty()
    } else {
        let rest = unresolved_in(cue_id, targets.drop_last(), reg);
        if reg.registered(targets.last()) {
            rest
        } else {
            rest.push(IssueKind::UnresolvedController { cue_id, controller_id: targets.last() })
        }
    }
}

/// Whether any of the targets is a registered controller declaring the
/// effect type.
pub open spec fn any_capable(targets: Seq<u64>, kind: EffectKind, reg: RegistryView) -> bool
    decreases targets.len(),
{
    if targets.len() == 0 {
        false
    } else {
        any_capable(targets.drop_last(), kind, reg) || reg.supports_effect(targets.last(), kind)
    }
}

/// The capability finding for one cue: a warning exactly when no target
/// controller declares the cue's effect type — the show can still run,
/// the effect will be skipped at runtime.
pub open spec fn capability_issues(cue: CueView, reg: RegistryView) -> Seq<IssueKind> {
    if any_capable(cue.targets, cue.effect.kind, reg) {
        Seq::empty()
    } else {
        seq![IssueKind::CapabilityMismatch { cue_id: cue.id }]
    }
}

/// Whether the two target lists name a controller in common.
pub open spec fn shares_target_spec(a: Seq<u64>, b: Seq<u64>) -> bool
    decreases a.len(),
{
    if a.len() == 0 {
        false
    } else {
        shares_target_spec(a.drop_last(), b) || b.contains(a.last())
    }
}

/// Whether two cues contend: conflicting effect types, overlapping spans
/// (degenerate, point-sized overlaps included), and a shared target
/// controller.
pub open spec fn cues_conflict(a: CueView, b: CueView) -> bool {
    &&& a.effect.kind.conflicts_with_spec(b.effect.kind)
    &&& a.start_ms <= b.end_ms() && b.start_ms <= a.end_ms()
    &&& shares_target_spec(a.targets, b.targets)
}

/// The overlap findings for one cue against the cues after it, in order.
pub open spec fn conflict_issues(cue: CueView, later: Seq<CueView>) -> Seq<IssueKind>
    decreases later.len(),
{
    if later.len() == 0 {
        Seq::empty()
    } else {
        let rest = conflict_issues(cue, later.drop_last());
        if cues_conflict(cue, later.last()) {
            rest.push(IssueKind::ConflictingOverlap { cue_id: cue.id, other_cue_id: later.last().id })
        } else {
            rest
        }
    }
}

/// Everything validation has to say about one cue, in order: unresolved
/// references, then the capability finding, then overlap findings against
/// later cues.
pub open spec fn cue_issues(cue: CueView, reg: RegistryView, later: Seq<CueView>) -> Seq<IssueKind> {
    unresolved_in(cue.id, cue.targets, reg) + capability_issues(cue, reg) + conflict_issues(
        cue,
        later,
    )
}

/// The report's contents from cue `i` onward.
pub open spec fn validate_from(cues: Seq<CueView>, reg: RegistryView, i: int) -> Seq<IssueKind>
    decreases cues.len() - i,
{
    if i < 0 || i >= cues.len() {
        Seq::empty()
    } else {
        cue_issues(cues[i], reg, cues.skip(i + 1)) + validate_from(cues, reg, i + 1)
    }
}

/// The full report: a pure function of the timeline and registry values.
pub open spec fn validate_spec(cues: Seq<CueView>, reg: RegistryView) -> Seq<IssueKind> {
    validate_from(cues, reg, 0)
}

/// Whether the two target lists name a controller in common.
fn shares_target(a: &Vec<u64>, b: &Vec<u64>) -> (r: bool)
    ensures
        r == shares_target_spec(a@, b@),
{
    let mut k: usize = 0;
    while k < a.len()
        invariant
            k <= a@.len(),
            !shares_target_spec(a@.take(k as int), b@),
        decreases a@.len() - k,
    {
        proof {
            assert(a@.take(k as int + 1).drop_last() =~= a@.take(k as int));
            assert(a@.take(k as int + 1).last() == a@[k as int]);
        }
        let needle = a[k];
        let mut l: usize = 0;
        while l < b.len()
            invariant
                l <= b@.len(),
                k < a@.len(),
                needle == a@[k as int],
                forall|l2: int| 0 <= l2 < l ==> b@[l2] != needle,
            decreases b@.len() - l,
        {
            if b[l] == needle {
                proof {
                    assert(a@.take(k as int + 1).drop_last() =~= a@.take(k as int));
                    assert(a@.take(k as int + 1).last() == a@[k as int]);
                    assert(b@.contains(a@[k as int]));
                    assert(shares_target_spec(a@.take(k as int + 1), b@));
                    lemma_shares_target_extend(a@, b@, k as int + 1);
                }
                return true;
            }
            l = l + 1;
        }
        proof {
            assert(!b@.contains(a@[k as int]));
        }
        k = k + 1;
    }
    proof {
        assert(a@.take(a@.len() as int) =~= a@);
    }
    false
}

/// Once some prefix of `a` shares a target with `b`, so does all of `a`.
proof fn lemma_shares_target_extend(a: Seq<u64>, b: Seq<u64>, k: int)
    requires
        0 <= k <= a.len(),
        shares_target_spec(a.take(k), b),
    ensures
        shares_target_spec(a, b),
    decreases a.len() - k,
{
    if k < a.len() {
        assert(a.take(k + 1).drop_last() =~= a.take(k));
        assert(shares_target_spec(a.take(k + 1), b));
        lemma_shares_target_extend(a, b, k + 1);
    } else {
        assert(a.take(k) =~= a);
    }
}

/// Whether two cues contend, computed.
fn cues_conflict_exec(a: &Cue, b: &Cue) -> (r: bool)
    requires
        a@.wf(),
        b@.wf(),
    ensures
        r == cues_conflict(a@, b@),
{
    if !a.effect.kind.conflicts_with(&b.effect.kind) {
        return false;
    }
    if !(a.start_ms <= b.start_ms + b.duration_ms && b.start_ms <= a.start_ms + a.duration_ms) {
        return false;
    }
    shares_target(&a.targets, &b.targets)
}

/// Static analysis of a timeline against the registry, prior to
/// playback: a pure function with no side effects, whose report is
/// pinned, finding for finding, to `validate_spec`. Unresolved controller
/// references are errors and block playback; capability mismatches and
/// conflicting overlaps are warnings.
pub fn validate(timeline: &Timeline, registry: &Registry) -> (r: ValidationReport)
    requires
        timeline@.wf(),
    ensures
        r.issues@ == validate_spec(timeline@.cues, registry@),
{
    let ghost cs = timeline@.cues;
    let ghost rv = registry@;
    let n = timeline.cues.len();
    let mut issues: Vec<IssueKind> = Vec::new();
    let mut i: usize = 0;
    while i < n
        invariant
            i <= n,
            n == timeline.cues@.len(),
            cs == timeline@.cues,
            rv == registry@,
            timeline@.wf(),
            issues@ + validate_from(cs, rv, i as int) == validate_spec(cs, rv),
        decreases n - i,
    {
        proof {
            assert(cs[i as int] == timeline.cues@[i as int]@);
            assert(cs[i as int].wf());
        }
        let c = &timeline.cues[i];
        let ghost cv = cs[i as int];
        let mut cue_iss: Vec<IssueKind> = Vec::new();

        // Unresolved controller references.
        let mut k: usize = 0;
        while k < c.targets.len()
            invariant
                k <= c.targets@.len(),
                cv == c@,
                rv == registry@,
                cue_iss@ == unresolved_in(cv.id, cv.targets.take(k as int), rv),
            decreases c.targets@.len() - k,
        {
            proof {
                assert(cv.targets.take(k as int + 1).drop_last() =~= cv.targets.take(k as int));
                assert(cv.targets.take(k as int + 1).last() == cv.targets[k as int]);
            }
            let id = c.targets[k];
            if id >= registry.controllers.len() as u64 {
                cue_iss.push(IssueKind::UnresolvedController { cue_id: c.id, controller_id: id });
            }
            k = k + 1;
        }
        proof {
            assert(cv.targets.take(cv.targets.len() as int) =~= cv.targets);
        }

        // Capability coverage.
        let mut capable = false;
        let mut k: usize = 0;
        while k < c.targets.len()
            invariant
                k <= c.targets@.len(),
                cv == c@,
                rv == registry@,
                capable == any_capable(cv.targets.take(k as int), cv.effect.kind, rv),
            decreases c.targets@.len() - k,
        {
            proof {
                assert(cv.targets.take(k as int + 1).drop_last() =~= cv.targets.take(k as int));
                assert(cv.targets.take(k as int + 1).last() == cv.targets[k as int]);
            }
            if registry.supports(c.targets[k], c.effect.kind) {
                capable = true;
            }
            k = k + 1;
        }
        proof {
            assert(cv.targets.take(cv.targets.len() as int) =~= cv.targets);
        }
        if !capable {
            cue_iss.push(IssueKind::CapabilityMismatch { cue_id: c.id });
        }
        proof {
            assert(cue_iss@ =~= unresolved_in(cv.id, cv.targets, rv) + capability_issues(cv, rv));
        }

        // Conflicting overlaps against later cues.
        let ghost before_conflicts = cue_iss@;
        let mut j: usize = i + 1;
        while j < n
            invariant
                i < j,
                j <= n,
                i < n,
                n == timeline.cues@.len(),
                cs == timeline@.cues,
                rv == registry@,
                timeline@.wf(),
                cv == cs[i as int],
                cue_iss@ == before_conflicts + conflict_issues(cv, cs.subrange(i as int + 1, j as int)),
            decreases n - j,
        {
            proof {
                assert(cs.subrange(i as int + 1, j as int + 1).drop_last() =~= cs.subrange(
                    i as int + 1,
                    j as int,
                ));
                assert(cs.subrange(i as int + 1, j as int + 1).last() == cs[j as int]);
                assert(cs[j as int] == timeline.cues@[j as int]@);
                assert(cs[j as int].wf());
            }
            let other = &timeline.cues[j];
            if cues_conflict_exec(&timeline.cues[i], other) {
                cue_iss.push(
                    IssueKind::ConflictingOverlap { cue_id: timeline.cues[i].id, other_cue_id: other.id },
                );
            }
            j = j + 1;
        }
        proof {
            assert(cs.subrange(i as int + 1, n as int) =~= cs.skip(i as int + 1));
            assert(cue_iss@ =~= cue_issues(cv, rv, cs.skip(i as int + 1)));
        }

        let ghost issues_before = issues@;
        let mut rest = cue_iss;
        issues.append(&mut rest);
        proof {
            assert(issues@ + validate_from(cs, rv, i as int + 1) =~= issues_before + validate_from(
                cs,
                rv,
                i as int,
            ));
        }
        i = i + 1;
    }
    ValidationReport { issues }
}

/// Whether the cue addresses a controller id the registry has never
/// seen.
pub open spec fn cue_has_unresolved(cue: CueView, reg: RegistryView) -> bool {
    exists|j: int| 0 <= j < cue.targets.len() && !reg.registered(#[trigger] cue.targets[j])
}

/// Whether some cue at or after position `lo` addresses an unregistered
/// controller id.
pub open spec fn has_unresolved_target(cues: Seq<CueView>, reg: RegistryView, lo: int) -> bool {
    exists|i: int| lo <= i < cues.len() && cue_has_unresolved(#[trigger] cues[i], reg)
}

/// An error-grade finding in a concatenation comes from one of its two
/// halves, and conversely.
proof fn lemma_any_error_concat(a: Seq<IssueKind>, b: Seq<IssueKind>)
    ensures
        any_error(a + b) <==> any_error(a) || any_error(b),
{
    if any_error(a) {
        let i = choose|i: int| 0 <= i < a.len() && (#[trigger] a[i]).is_error();
        assert((a + b)[i] == a[i]);
        assert(any_error(a + b));
    }
    if any_error(b) {
        let i = choose|i: int| 0 <= i < b.len() && (#[trigger] b[i]).is_error();
        assert((a + b)[a.len() + i] == b[i]);
        assert(any_error(a + b));
    }
    if any_error(a + b) {
        let i = choose|i: int| 0 <= i < (a + b).len() && (#[trigger] (a + b)[i]).is_error();
        if i < a.len() {
            assert(a[i] == (a + b)[i]);
            assert(any_error(a));
        } else {
            assert(b[i - a.len()] == (a + b)[i]);
            assert(any_error(b));
        }
    }
}

/// The capability finding is at worst a warning.
proof fn lemma_capability_never_error(cue: CueView, reg: RegistryView)
    ensures
        !any_error(capability_issues(cue, reg)),
{
    let iss = capability_issues(cue, reg);
    assert forall|i: int| 0 <= i < iss.len() implies !(#[trigger] iss[i]).is_error() by {
        assert(iss[i] == (IssueKind::CapabilityMismatch { cue_id: cue.id }));
    }
}

/// Overlap findings are at worst warnings.
proof fn lemma_conflict_never_error(cue: CueView, later: Seq<CueView>)
    ensures
        !any_error(conflict_issues(cue, later)),
    decreases later.len(),
{
    if later.len() > 0 {
        lemma_conflict_never_error(cue, later.drop_last());
        let rest = conflict_issues(cue, later.drop_last());
        let full = conflict_issues(cue, later);
        assert forall|i: int| 0 <= i < full.len() implies !(#[trigger] full[i]).is_error() by {
            if i < rest.len() {
                assert(full[i] == rest[i]);
                assert(!rest[i].is_error());
            }
        }
    }
}

/// The unresolved-reference findings for a cue carry an error exactly
/// when one of its targets is unregistered.
proof fn lemma_unresolved_errors(cue_id: u64, targets: Seq<u64>, reg: RegistryView)
    ensures
        any_error(unresolved_in(cue_id, targets, reg)) <==> exists|j: int|
            0 <= j < targets.len() && !reg.registered(#[trigger] targets[j]),
    decreases targets.len(),
{
    if targets.len() > 0 {
        let shorter = targets.drop_last();
        lemma_unresolved_errors(cue_id, shorter, reg);
        let rest = unresolved_in(cue_id, shorter, reg);
        let full = unresolved_in(cue_id, targets, reg);
        let n = targets.len() as int;
        if reg.registered(targets.last()) {
            if any_error(full) {
                let j = choose|j: int| 0 <= j < shorter.len() && !reg.registered(#[trigger] shorter[j]);
                assert(targets[j] == shorter[j]);
                assert(!reg.registered(targets[j]));
            }
            if exists|j: int| 0 <= j < targets.len() && !reg.registered(#[trigger] targets[j]) {
                let j = choose|j: int| 0 <= j < targets.len() && !reg.registered(#[trigger] targets[j]);
                assert(j < n - 1);
                assert(shorter[j] == targets[j]);
                assert(any_error(rest));
            }
        } else {
            assert(full[full.len() - 1] == (IssueKind::UnresolvedController {
                cue_id,
                controller_id: targets.last(),
            }));
            assert(full[full.len() - 1].is_error());
            assert(any_error(full));
            assert(!reg.registered(targets[n - 1]));
        }
    }
}

/// One cue's findings carry an error exactly when the cue addresses an
/// unregistered controller.
proof fn lemma_cue_issues_errors(cue: CueView, reg: RegistryView, later: Seq<CueView>)
    ensures
        any_error(cue_issues(cue, reg, later)) <==> cue_has_unresolved(cue, reg),
{
    lemma_unresolved_errors(cue.id, cue.targets, reg);
    lemma_capability_never_error(cue, reg);
    lemma_conflict_never_error(cue, later);
    lemma_any_error_concat(unresolved_in(cue.id, cue.targets, reg), capability_issues(cue, reg));
    lemma_any_error_concat(
        unresolved_in(cue.id, cue.targets, reg) + capability_issues(cue, reg),
        conflict_issues(cue, later),
    );
}

/// The findings from position `i` onward carry an error exactly when a
/// cue at or after `i` addresses an unregistered controller.
proof fn lemma_validate_from_errors(cues: Seq<CueView>, reg: RegistryView, i: int)
    requires
        0 <= i <= cues.len(),
    ensures
        any_error(validate_from(cues, reg, i)) <==> has_unresolved_target(cues, reg, i),
    decreases cues.len() - i,
{
    if i < cues.len() {
        lemma_validate_from_errors(cues, reg, i + 1);
        lemma_cue_issues_errors(cues[i], reg, cues.skip(i + 1));
        lemma_any_error_concat(
            cue_issues(cues[i], reg, cues.skip(i + 1)),
            validate_from(cues, reg, i + 1),
        );
        if cue_has_unresolved(cues[i], reg) {
            assert(has_unresolved_target(cues, reg, i));
        }
        if has_unresolved_target(cues, reg, i + 1) {
            let i2 = choose|i2: int| i + 1 <= i2 < cues.len() && cue_has_unresolved(#[trigger] cues[i2], reg);
            assert(has_unresolved_target(cues, reg, i));
        }
        if has_unresolved_target(cues, reg, i) {
            let i2 = choose|i2: int| i <= i2 < cues.len() && cue_has_unresolved(#[trigger] cues[i2], reg);
            if i2 == i {
                assert(cue_has_unresolved(cues[i], reg));
            } else {
                assert(has_unresolved_target(cues, reg, i + 1));
            }
        }
    }
}

/// Exactly the unresolved controller references block playback: a
/// validation report carries an error-grade finding if and only if some
/// cue addresses a controller id the registry has never seen. Capability
/// mismatches and conflicting overlaps never block on their own.
pub proof fn lemma_errors_are_unresolved_references(cues: Seq<CueView>, reg: RegistryView)
    ensures
        any_error(validate_spec(cues, reg)) <==> has_unresolved_target(cues, reg, 0),
{
    lemma_validate_from_errors(cues, reg, 0);
}

/// Determinism of validation: the report is a function of the timeline
/// and registry values alone, so two calls on equal inputs produce equal
/// reports — validation neither reads nor writes anything else.
pub proof fn lemma_validate_deterministic(
    cues1: Seq<CueView>,
    reg1: RegistryView,
    cues2: Seq<CueView>,
    reg2: RegistryView,
)
    requires
        cues1 == cues2,
        reg1 == reg2,
    ensures
        validate_spec(cues1, reg1) == validate_spec(cues2, reg2),
{
}

} // verus!
