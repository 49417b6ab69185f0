use vstd::prelude::*;

use crate::effect::Effect;
use crate::validation::ValidationError;

verus! {

/// One timed instruction of a show: when it fires, how long it runs,
/// what effect it asks for, and which controllers must carry it out.
/// Cues are created at load time and only read during playback.
#[derive(Debug)]
pub struct Cue {
    pub id: u64,
    pub start_ms: u64,
    pub duration_ms: u64,
    pub effect: Effect,
    pub targets: Vec<u64>,
}

/// Mathematical value of a cue: the same fields with the target list as
/// a sequence.
pub ghost struct CueView {
    pub id: u64,
    pub start_ms: u64,
    pub duration_ms: u64,
    pub effect: Effect,
    pub targets: Seq<u64>,
}

impl View for Cue {
    type V = CueView;

    open spec fn view(&self) -> CueView {
        CueView {
            id: self.id,
            start_ms: self.start_ms,
            duration_ms: self.duration_ms,
            effect: self.effect,
            targets: self.targets@,
        }
    }
}

impl CueView {
    /// Instant the cue stops running, on the unbounded time line.
    pub open spec fn end_ms(self) -> int {
        self.start_ms + self.duration_ms
    }

    /// A cue is sound when it addresses at least one controller and its
    /// end time still fits the millisecond clock.
    pub open spec fn wf(self) -> bool {
        &&& self.targets.len() > 0
        &&& self.start_ms + self.duration_ms <= u64::MAX
    }

    /// Whether the cue is running at instant `t`: its start has been
    /// reached and its span not yet left. A zero-duration cue is
    /// instantaneous and never counted as running.
    pub open spec fn active_at(self, t: u64) -> bool {
        self.start_ms <= t < self.end_ms()
    }

    /// Whether the cue's span `[start, end]` meets the closed query range
    /// `[lo, hi]`. The closed reading keeps instantaneous cues visible as
    /// the single point they occupy.
    pub open spec fn intersects(self, lo: u64, hi: u64) -> bool {
        self.start_ms <= hi && lo <= self.end_ms()
    }

    /// Playback order: by start time, ties broken by ascending id.
    pub open spec fn precedes(self, other: CueView) -> bool {
        ||| self.start_ms < other.start_ms
        ||| (self.start_ms == other.start_ms && self.id < other.id)
    }
}

impl Cue {
    /// Field-for-field copy; cues are handed out by value so that a
    /// caller can never reach into a loaded timeline.
    pub fn copied(&self) -> (c: Cue)
        ensures
            c@ == self@,
    {
        let mut targets: Vec<u64> = Vec::new();
        let mut k: usize = 0;
        while k < self.targets.len()
            invariant
                k <= self.targets.len(),
                targets@ == self.targets@.take(k as int),
            decreases self.targets.len() - k,
        {
            targets.push(self.targets[k]);
            k = k + 1;
            proof {
                assert(targets@ =~= self.targets@.take(k as int));
            }
        }
        proof {
            assert(targets@ =~= self.targets@);
        }
        Cue {
            id: self.id,
            start_ms: self.start_ms,
            duration_ms: self.duration_ms,
            effect: self.effect,
            targets,
        }
    }
}

/// The cue views of a cue list, index for index.
pub open spec fn views_of(cues: Seq<Cue>) -> Seq<CueView> {
    Seq::new(cues.len(), |i: int| cues[i]@)
}

/// A loaded show: its identifier and its cues, ordered by start time and
/// id. Immutable once `load` has accepted it, so every component may read
/// it concurrently without coordination.
#[derive(Debug)]
pub struct Timeline {
    pub show_id: u64,
    pub cues: Vec<Cue>,
}

/// Mathematical value of a timeline.
pub ghost struct TimelineView {
    pub show_id: u64,
    pub cues: Seq<CueView>,
}

impl View for Timeline {
    type V = TimelineView;

    open spec fn view(&self) -> TimelineView {
        TimelineView { show_id: self.show_id, cues: views_of(self.cues@) }
    }
}

impl TimelineView {
    /// The timeline invariant `load` establishes: every cue sound, cues
    /// strictly ordered by (start time, id), and ids unique throughout.
    pub open spec fn wf(self) -> bool {
        &&& forall|i: int| 0 <= i < self.cues.len() ==> (#[trigger] self.cues[i]).wf()
        &&& forall|i: int, j: int|
            0 <= i < j < self.cues.len() ==> (#[trigger] self.cues[i]).precedes(#[trigger] self.cues[j])
        &&& forall|i: int, j: int|
            0 <= i < j < self.cues.len() ==> (#[trigger] self.cues[i]).id != (#[trigger] self.cues[j]).id
    }

    /// Largest cue end time, i.e. the show's total duration in
    /// milliseconds; zero for an empty show.
    pub open spec fn total_duration(self) -> int {
        total_duration_of(self.cues)
    }
}

impl Timeline {
    /// Total duration, computed: the maximum end time over all cues.
    pub fn total_duration(&self) -> (d: u64)
        requires
            self@.wf(),
        ensures
            d == self@.total_duration(),
    {
        let ghost cs = self@.cues;
        let mut d: u64 = 0;
        let mut i: usize = 0;
        while i < self.cues.len()
            invariant
                i <= self.cues@.len(),
                cs == self@.cues,
                cs.len() == self.cues@.len(),
                self@.wf(),
                d == total_duration_of(cs.take(i as int)),
            decreases self.cues@.len() - i,
        {
            proof {
                assert(cs.take(i as int + 1).drop_last() =~= cs.take(i as int));
                assert(cs.take(i as int + 1).last() == cs[i as int]);
                assert(cs[i as int].wf());
                assert(cs[i as int] == self.cues@[i as int]@);
            }
            let c = &self.cues[i];
            let end = c.start_ms + c.duration_ms;
            if end > d {
                d = end;
            }
            i = i + 1;
        }
        proof {
            assert(cs.take(cs.len() as int) =~= cs);
        }
        d
    }

    /// Cues whose span meets the closed range `[lo, hi]`, in playback
    /// order. The operator console uses this to page through a show; the
    /// copies it gets back cannot touch the loaded timeline.
    pub fn cue_at(&self, lo: u64, hi: u64) -> (r: Vec<Cue>)
        requires
            self@.wf(),
            lo <= hi,
        ensures
            views_of(r@) == cues_in_range(self@.cues, lo, hi),
    {
        let ghost cs = self@.cues;
        let mut r: Vec<Cue> = Vec::new();
        let mut i: usize = 0;
        while i < self.cues.len()
            invariant
                i <= self.cues@.len(),
                cs == self@.cues,
                cs.len() == self.cues@.len(),
                self@.wf(),
                views_of(r@) == cues_in_range(cs.take(i as int), lo, hi),
            decreases self.cues@.len() - i,
        {
            proof {
                assert(cs.take(i as int + 1).drop_last() =~= cs.take(i as int));
                assert(cs.take(i as int + 1).last() == cs[i as int]);
                assert(cs[i as int].wf());
                assert(cs[i as int] == self.cues@[i as int]@);
            }
            let c = &self.cues[i];
            if c.start_ms <= hi && lo <= c.start_ms + c.duration_ms {
                let copy = c.copied();
                proof {
                    assert(copy@ == cs[i as int]);
                }
                r.push(copy);
                proof {
                    assert(views_of(r@) =~= cues_in_range(cs.take(i as int), lo, hi).push(cs[i as int]));
                }
            }
            i = i + 1;
        }
        proof {
            assert(cs.take(cs.len() as int) =~= cs);
        }
        r
    }

    /// Builds a timeline from decoded cue data, establishing the timeline
    /// invariant or reporting exactly why the data is unacceptable:
    /// a cue without targets, a cue whose end time leaves the clock range,
    /// cues out of playback order, or a repeated cue id.
    pub fn load(show_id: u64, cues: Vec<Cue>) -> (r: Result<Timeline, ValidationError>)
        ensures
            match r {
                Ok(t) => t@.wf() && t@.cues == views_of(cues@) && t@.show_id == show_id
                    && load_accepts(views_of(cues@)),
                Err(e) => !load_accepts(views_of(cues@)) && !(e matches ValidationError::Rejected {
                    ..
                }),
            },
    {
        let ghost cs = views_of(cues@);
        let n = cues.len();
        let mut i: usize = 0;
        while i < n
            invariant
                i <= n,
                n == cues@.len(),
                cs == views_of(cues@),
                forall|k: int| 0 <= k < i ==> (#[trigger] cs[k]).wf(),
            decreases n - i,
        {
            let c = &cues[i];
            if c.targets.len() == 0 {
                proof {
                    assert(!cs[i as int].wf());
                }
                return Err(ValidationError::EmptyTargets { cue_id: c.id });
            }
            if c.duration_ms > u64::MAX - c.start_ms {
                proof {
                    assert(!cs[i as int].wf());
                }
                return Err(ValidationError::EndTimeOverflow { cue_id: c.id });
            }
            i = i + 1;
        }
        let mut i: usize = 1;
        while i < n
            invariant
                1 <= i,
                i <= n || n == 0,
                n == cues@.len(),
                cs == views_of(cues@),
                forall|k: int, l: int| 0 <= k < l < i ==> (#[trigger] cs[k]).precedes(#[trigger] cs[l]),
            decreases n - i,
        {
            let a = &cues[i - 1];
            let b = &cues[i];
            let ordered = a.start_ms < b.start_ms || (a.start_ms == b.start_ms && a.id < b.id);
            if !ordered {
                proof {
                    assert(!cs[i as int - 1].precedes(cs[i as int]));
                }
                return Err(ValidationError::CuesNotOrdered { position: i });
            }
            proof {
                assert(cs[i as int - 1].precedes(cs[i as int]));
                assert forall|k: int, l: int| 0 <= k < l < i + 1 implies
                    (#[trigger] cs[k]).precedes(#[trigger] cs[l]) by {
                    if l == i && k < i - 1 {
                        assert(cs[k].precedes(cs[i - 1]));
                    }
                }
            }
            i = i + 1;
        }
        let mut i: usize = 0;
        while i < n
            invariant
                i <= n,
                n == cues@.len(),
                cs == views_of(cues@),
                forall|k: int, l: int|
                    0 <= k < l < n && k < i ==> (#[trigger] cs[k]).id != (#[trigger] cs[l]).id,
            decreases n - i,
        {
            let mut j: usize = i + 1;
            while j < n
                invariant
                    i < j,
                    j <= n,
                    i < n,
                    n == cues@.len(),
                    cs == views_of(cues@),
                    forall|l: int| i < l < j ==> (#[trigger] cs[l]).id != cs[i as int].id,
                decreases n - j,
            {
                if cues[j].id == cues[i].id {
                    proof {
                        assert(cs[i as int].id == cs[j as int].id);
                    }
                    return Err(ValidationError::DuplicateCueId { cue_id: cues[i].id });
                }
                j = j + 1;
            }
            i = i + 1;
        }
        Ok(Timeline { show_id, cues })
    }
}

/// Maximum end time over a sequence of cues; zero when there are none.
pub open spec fn total_duration_of(cues: Seq<CueView>) -> int
    decreases cues.len(),
{
    if cues.len() == 0 {
        0
    } else {
        let rest = total_duration_of(cues.drop_last());
        if cues.last().end_ms() >= rest {
            cues.last().end_ms()
        } else {
            rest
        }
    }
}

/// The cues of `cues`, in order, whose span meets the closed range
/// `[lo, hi]`.
pub open spec fn cues_in_range(cues: Seq<CueView>, lo: u64, hi: u64) -> Seq<CueView>
    decreases cues.len(),
{
    if cues.len() == 0 {
        Seq::empty()
    } else {
        let rest = cues_in_range(cues.drop_last(), lo, hi);
        if cues.last().intersects(lo, hi) {
            rest.push(cues.last())
        } else {
            rest
        }
    }
}

/// Exactly the cue sequences `load` accepts: every cue sound, strictly
/// ordered by (start time, id), ids unique.
pub open spec fn load_accepts(cues: Seq<CueView>) -> bool {
    &&& forall|i: int| 0 <= i < cues.len() ==> (#[trigger] cues[i]).wf()
    &&& forall|i: int, j: int|
        0 <= i < j < cues.len() ==> (#[trigger] cues[i]).precedes(#[trigger] cues[j])
    &&& forall|i: int, j: int|
        0 <= i < j < cues.len() ==> (#[trigger] cues[i]).id != (#[trigger] cues[j]).id
}

} // verus!
