//! The run state machine: `Built → Started → Artifacts(None) → Steps →
//! Disposed`, with failures and cancellations unwinding to disposal.
//!
//! The embedding program performs the current stage's effect (persist the
//! running flag, log, run a work item, dispose) and reports the outcome;
//! `advance` moves to the next stage. The laws at the end pin the order:
//! the running mark opens every run, the not-running mark follows all work
//! even on failure, dispose comes last, and after a cancellation no further
//! work item runs.
use crate::builder::Runner;
use crate::runner::{plan_view, spec_plan, WorkItem, WorkItemView};
use vstd::prelude::*;

verus! {

/// What the embedding program reports after performing one stage.
#[derive(Clone, Copy, PartialEq, Eq, Structural, Debug)]
pub enum Outcome {
    /// The work completed.
    Success,
    /// The work failed (nonzero exit, transport error, failed child run).
    Failure,
    /// The stop signal was observed at the checkpoint after the work.
    Cancelled,
}

/// Where a run stands.
#[derive(Clone, Copy, PartialEq, Eq, Structural, Debug)]
pub enum RunStage {
    /// Mark the run as running in the executor state.
    Start,
    /// Emit the info line with the pipeline name and target.
    Info,
    /// Perform the work item at this position of the plan.
    Work(usize),
    /// Log the failure that ended the work.
    Fail,
    /// Mark the run as not running.
    End,
    /// Invoke the dispose decision of the platform.
    Disp,
    /// Nothing is left to do.
    Done,
}

/// A run in progress: the plan, whether the pipeline asks for disposal,
/// and the current stage.
pub struct RunMachine {
    pub plan: Vec<WorkItem>,
    pub dispose: bool,
    pub stage: RunStage,
}

/// Mathematical model of a `RunMachine`.
pub struct MachineView {
    pub plan: Seq<WorkItemView>,
    pub dispose: bool,
    pub stage: RunStage,
}

impl View for RunMachine {
    type V = MachineView;

    open spec fn view(&self) -> MachineView {
        MachineView { plan: plan_view(self.plan@), dispose: self.dispose, stage: self.stage }
    }
}

/// A machine is well formed when its work position stays inside the plan.
pub open spec fn wf(v: MachineView) -> bool {
    v.stage matches RunStage::Work(pos) ==> pos < v.plan.len()
}

/// Whether the run goes on after this item came back with this outcome:
/// only on success, or on the failure of a transfer that ignores errors.
/// A cancellation always unwinds.
pub open spec fn spec_continues(w: WorkItemView, o: Outcome) -> bool {
    o is Success || (o is Failure && (w matches WorkItemView::Transfer {
        push,
        from,
        to,
        ignore_errors,
    } && ignore_errors))
}

/// The next stage, given the current stage's outcome. Failure anywhere in
/// the work unwinds through `Fail`, but `End` and `Disp` still follow:
/// the not-running mark and disposal are never skipped.
pub open spec fn spec_advance(v: MachineView, o: Outcome) -> RunStage {
    match v.stage {
        RunStage::Start => RunStage::Info,
        RunStage::Info => if v.plan.len() == 0 {
            RunStage::End
        } else {
            RunStage::Work(0)
        },
        RunStage::Work(pos) => if spec_continues(v.plan[pos as int], o) {
            if pos + 1 < v.plan.len() {
                RunStage::Work((pos + 1) as usize)
            } else {
                RunStage::End
            }
        } else {
            RunStage::Fail
        },
        RunStage::Fail => RunStage::End,
        RunStage::End => if v.dispose {
            RunStage::Disp
        } else {
            RunStage::Done
        },
        RunStage::Disp => RunStage::Done,
        RunStage::Done => RunStage::Done,
    }
}

/// The machine with its stage advanced.
pub open spec fn advance_view(v: MachineView, o: Outcome) -> MachineView {
    MachineView { stage: spec_advance(v, o), ..v }
}

impl Runner {
    /// Starts a run of this runner's pipeline: the full plan, the
    /// pipeline's dispose request, and the opening stage.
    pub fn run(&self) -> (r: RunMachine)
        ensures
            r@.plan == spec_plan(self.pipeline@, self.ctx@),
            r@.dispose == self.pipeline.dispose,
            r@.stage == RunStage::Start,
            wf(r@),
    {
        RunMachine { plan: self.steps(), dispose: self.pipeline.dispose, stage: RunStage::Start }
    }

    /// The dispose decision at the end of a run: nothing when the pipeline
    /// does not ask for it; otherwise the platform's dispose operation —
    /// the root machine target removes the run's temporary directory, a
    /// child machine target never touches it, a container is stopped.
    pub fn dispose(&self) -> (r: Option<crate::platform::PlatformOp>)
        ensures
            !self.pipeline.dispose ==> r is None,
            self.pipeline.dispose ==> (match self.platform {
                crate::platform::TargetPlatform::Machine(m) => if self.is_child {
                    r is None
                } else {
                    r matches Option::Some(op) && (op matches
                    crate::platform::PlatformOp::RemoveTempDir { path } && path@ == m.temp_dir@)
                },
                crate::platform::TargetPlatform::Container(c) => r == Option::Some(
                    crate::platform::PlatformOp::StopContainer,
                ),
            }),
    {
        if self.pipeline.dispose {
            self.platform.dispose(self.is_child)
        } else {
            Option::None
        }
    }
}

impl RunMachine {
    /// The work item the run currently stands at, if any.
    pub fn current_work(&self) -> (r: Option<&WorkItem>)
        requires
            wf(self@),
        ensures
            match self.stage {
                RunStage::Work(pos) => r matches Option::Some(w) && w@ == self@.plan[pos as int],
                _ => r is None,
            },
    {
        match self.stage {
            RunStage::Work(pos) => Option::Some(&self.plan[pos]),
            _ => Option::None,
        }
    }

    /// Moves to the next stage given the current stage's outcome.
    pub fn advance(&mut self, outcome: Outcome)
        requires
            wf(old(self)@),
        ensures
            wf(final(self)@),
            final(self)@.plan == old(self)@.plan,
            final(self)@.dispose == old(self)@.dispose,
            final(self)@.stage == spec_advance(old(self)@, outcome),
    {
        let next = match self.stage {
            RunStage::Start => RunStage::Info,
            RunStage::Info => {
                if self.plan.len() == 0 {
                    RunStage::End
                } else {
                    RunStage::Work(0)
                }
            },
            RunStage::Work(pos) => {
                let n = self.plan.len();
                proof {
                    assert(pos < self@.plan.len());
                }
                let cont = match outcome {
                    Outcome::Success => true,
                    Outcome::Failure => match &self.plan[pos] {
                        WorkItem::Transfer { push, from, to, ignore_errors } => *ignore_errors,
                        _ => false,
                    },
                    Outcome::Cancelled => false,
                };
                if cont {
                    if pos + 1 < n {
                        RunStage::Work(pos + 1)
                    } else {
                        RunStage::End
                    }
                } else {
                    RunStage::Fail
                }
            },
            RunStage::Fail => RunStage::End,
            RunStage::End => {
                if self.dispose {
                    RunStage::Disp
                } else {
                    RunStage::Done
                }
            },
            RunStage::Disp => RunStage::Done,
            RunStage::Done => RunStage::Done,
        };
        self.stage = next;
    }
}

/// What the embedding program observes of a run: one entry per performed
/// stage.
pub enum ActionView {
    PersistStart,
    LogInfo,
    Work(WorkItemView),
    LogError,
    PersistEnd,
    Dispose,
}

/// The effect of the current stage, `None` once the run is done.
pub open spec fn stage_action(v: MachineView) -> Option<ActionView> {
    match v.stage {
        RunStage::Start => Option::Some(ActionView::PersistStart),
        RunStage::Info => Option::Some(ActionView::LogInfo),
        RunStage::Work(pos) => Option::Some(ActionView::Work(v.plan[pos as int])),
        RunStage::Fail => Option::Some(ActionView::LogError),
        RunStage::End => Option::Some(ActionView::PersistEnd),
        RunStage::Disp => Option::Some(ActionView::Dispose),
        RunStage::Done => Option::None,
    }
}

/// The actions a run performs from state `v` under the given outcomes, one
/// outcome consumed per action; a short outcome list gives the prefix.
pub open spec fn spec_trace(v: MachineView, outcomes: Seq<Outcome>) -> Seq<ActionView>
    decreases outcomes.len(),
{
    if outcomes.len() == 0 || v.stage is Done {
        Seq::<ActionView>::empty()
    } else {
        seq![stage_action(v)->0] + spec_trace(advance_view(v, outcomes[0]), outcomes.skip(1))
    }
}

/// The position of a stage in the fixed order of a run.
pub open spec fn stage_rank(s: RunStage) -> int {
    match s {
        RunStage::Start => 0,
        RunStage::Info => 1,
        RunStage::Work(_) => 2,
        RunStage::Fail => 3,
        RunStage::End => 4,
        RunStage::Disp => 5,
        RunStage::Done => 6,
    }
}

/// Advancing preserves well-formedness and never returns to `Start`.
proof fn lemma_advance_wf(v: MachineView, o: Outcome)
    requires
        wf(v),
    ensures
        wf(advance_view(v, o)),
        stage_rank(spec_advance(v, o)) >= 1,
        stage_rank(spec_advance(v, o)) >= stage_rank(v.stage),
{
}

/// From any stage past `Start`, a run never marks itself running again.
proof fn lemma_trace_no_start(v: MachineView, outcomes: Seq<Outcome>)
    requires
        wf(v),
        stage_rank(v.stage) >= 1,
    ensures
        forall|i: int|
            0 <= i < spec_trace(v, outcomes).len() ==> !(#[trigger] spec_trace(v, outcomes)[i]
                is PersistStart),
    decreases outcomes.len(),
{
    if outcomes.len() == 0 || v.stage is Done {
    } else {
        lemma_advance_wf(v, outcomes[0]);
        lemma_trace_no_start(advance_view(v, outcomes[0]), outcomes.skip(1));
    }
}

/// From the failure stage on, no further work item runs.
proof fn lemma_trace_no_work(v: MachineView, outcomes: Seq<Outcome>)
    requires
        wf(v),
        stage_rank(v.stage) >= 3,
    ensures
        forall|i: int|
            0 <= i < spec_trace(v, outcomes).len() ==> !(#[trigger] spec_trace(v, outcomes)[i]
                is Work),
    decreases outcomes.len(),
{
    if outcomes.len() == 0 || v.stage is Done {
    } else {
        lemma_advance_wf(v, outcomes[0]);
        lemma_trace_no_work(advance_view(v, outcomes[0]), outcomes.skip(1));
    }
}

/// From the dispose stage on, disposal is all that is left.
proof fn lemma_trace_after_end(v: MachineView, outcomes: Seq<Outcome>)
    requires
        wf(v),
        v.stage is Disp || v.stage is Done,
    ensures
        forall|i: int|
            0 <= i < spec_trace(v, outcomes).len() ==> #[trigger] spec_trace(v, outcomes)[i]
                is Dispose,
    decreases outcomes.len(),
{
    if outcomes.len() == 0 || v.stage is Done {
    } else {
        lemma_trace_after_end(advance_view(v, outcomes[0]), outcomes.skip(1));
    }
}

/// Up to the not-running mark: after a `PersistEnd` only `Dispose` may
/// follow, every `Dispose` directly follows a `PersistEnd`, and the
/// not-running mark is emitted at most once.
proof fn lemma_trace_end_order(v: MachineView, outcomes: Seq<Outcome>)
    requires
        wf(v),
        stage_rank(v.stage) <= 4,
    ensures
        forall|i: int, j: int|
            0 <= i < j < spec_trace(v, outcomes).len() && (#[trigger] spec_trace(v, outcomes)[i]
                is PersistEnd) ==> (#[trigger] spec_trace(v, outcomes)[j] is Dispose),
        forall|i: int|
            0 <= i < spec_trace(v, outcomes).len() && (#[trigger] spec_trace(v, outcomes)[i]
                is Dispose) ==> i >= 1 && spec_trace(v, outcomes)[i - 1] is PersistEnd,
    decreases outcomes.len(),
{
    if outcomes.len() == 0 || v.stage is Done {
    } else {
        let t = spec_trace(v, outcomes);
        let v2 = advance_view(v, outcomes[0]);
        let t2 = spec_trace(v2, outcomes.skip(1));
        lemma_advance_wf(v, outcomes[0]);
        if v.stage is End {
            if v2.stage is Done {
                assert(t2 =~= Seq::<ActionView>::empty());
                assert(t =~= seq![ActionView::PersistEnd]);
            } else {
                let rest = outcomes.skip(1);
                if rest.len() == 0 {
                    assert(t2 =~= Seq::<ActionView>::empty());
                    assert(t =~= seq![ActionView::PersistEnd]);
                } else {
                    let v3 = advance_view(v2, rest[0]);
                    assert(v3.stage is Done);
                    assert(spec_trace(v3, rest.skip(1)) =~= Seq::<ActionView>::empty());
                    assert(t2 =~= seq![ActionView::Dispose]);
                    assert(t =~= seq![ActionView::PersistEnd, ActionView::Dispose]);
                }
            }
        } else {
            lemma_trace_end_order(v2, outcomes.skip(1));
            assert forall|i: int, j: int|
                0 <= i < j < t.len() && (#[trigger] t[i] is PersistEnd) implies (#[trigger] t[j]
                is Dispose) by {
                assert(t[i] == t2[i - 1]);
                assert(t[j] == t2[j - 1]);
            }
            assert forall|i: int| 0 <= i < t.len() && (#[trigger] t[i] is Dispose) implies i >= 1
                && t[i - 1] is PersistEnd by {
                assert(t[i] == t2[i - 1]);
                if i >= 2 {
                    assert(t[i - 1] == t2[i - 2]);
                }
            }
        }
    }
}

/// For every run: the running mark opens the trace and never recurs, all
/// work precedes the not-running mark, and disposal, when it happens, is
/// the last thing, directly after the not-running mark — also when a step
/// fails or the run is cancelled.
pub proof fn lemma_run_ordering(v: MachineView, outcomes: Seq<Outcome>)
    requires
        wf(v),
        v.stage is Start,
    ensures
        spec_trace(v, outcomes).len() > 0 ==> spec_trace(v, outcomes)[0] is PersistStart,
        forall|i: int|
            1 <= i < spec_trace(v, outcomes).len() ==> !(#[trigger] spec_trace(v, outcomes)[i]
                is PersistStart),
        forall|i: int, j: int|
            0 <= i < j < spec_trace(v, outcomes).len() && (#[trigger] spec_trace(v, outcomes)[i]
                is PersistEnd) ==> (#[trigger] spec_trace(v, outcomes)[j] is Dispose),
        forall|i: int|
            0 <= i < spec_trace(v, outcomes).len() && (#[trigger] spec_trace(v, outcomes)[i]
                is Dispose) ==> i >= 1 && spec_trace(v, outcomes)[i - 1] is PersistEnd,
{
    if outcomes.len() > 0 {
        let t = spec_trace(v, outcomes);
        let v2 = advance_view(v, outcomes[0]);
        let t2 = spec_trace(v2, outcomes.skip(1));
        lemma_advance_wf(v, outcomes[0]);
        lemma_trace_no_start(v2, outcomes.skip(1));
        lemma_trace_end_order(v2, outcomes.skip(1));
        assert forall|i: int| 1 <= i < t.len() implies !(#[trigger] t[i] is PersistStart) by {
            assert(t[i] == t2[i - 1]);
        }
        assert forall|i: int, j: int|
            0 <= i < j < t.len() && (#[trigger] t[i] is PersistEnd) implies (#[trigger] t[j]
            is Dispose) by {
            assert(t[i] == t2[i - 1]);
            assert(t[j] == t2[j - 1]);
        }
        assert forall|i: int| 0 <= i < t.len() && (#[trigger] t[i] is Dispose) implies i >= 1
            && t[i - 1] is PersistEnd by {
            assert(t[i] == t2[i - 1]);
            if i >= 2 {
                assert(t[i - 1] == t2[i - 2]);
            }
        }
    }
}

/// For every cancellation: once the stop token is observed at a work item,
/// that item is the last work of the run — the machine unwinds through the
/// failure path, and only the error line, the not-running mark and
/// disposal may still follow.
pub proof fn lemma_cancel_unwinds(v: MachineView, rest: Seq<Outcome>)
    requires
        wf(v),
        v.stage is Work,
    ensures
        forall|i: int|
            0 <= i < spec_trace(advance_view(v, Outcome::Cancelled), rest).len() ==> !(
            #[trigger] spec_trace(advance_view(v, Outcome::Cancelled), rest)[i] is Work),
{
    lemma_advance_wf(v, Outcome::Cancelled);
    lemma_trace_no_work(advance_view(v, Outcome::Cancelled), rest);
}

/// What a run emits for its whole plan from position `p` on, when every
/// outcome is a success.
proof fn lemma_success_from_work(v: MachineView, p: usize, outcomes: Seq<Outcome>)
    requires
        wf(v),
        v.plan.len() <= usize::MAX,
        v.stage == RunStage::Work(p),
        outcomes.len() >= v.plan.len() - p + 2,
        (forall|i: int| 0 <= i < outcomes.len() ==> outcomes[i] is Success),
    ensures
        spec_trace(v, outcomes) == v.plan.skip(p as int).map(
            |i: int, w: WorkItemView| ActionView::Work(w),
        ) + seq![ActionView::PersistEnd] + (if v.dispose {
            seq![ActionView::Dispose]
        } else {
            Seq::<ActionView>::empty()
        }),
    decreases v.plan.len() - p,
{
    let work = |i: int, w: WorkItemView| ActionView::Work(w);
    let tail = seq![ActionView::PersistEnd] + (if v.dispose {
        seq![ActionView::Dispose]
    } else {
        Seq::<ActionView>::empty()
    });
    let v2 = advance_view(v, outcomes[0]);
    assert(spec_trace(v, outcomes) == seq![ActionView::Work(v.plan[p as int])] + spec_trace(
        v2,
        outcomes.skip(1),
    ));
    if p + 1 < v.plan.len() {
        assert(v2.stage == RunStage::Work((p + 1) as usize));
        lemma_success_from_work(v2, (p + 1) as usize, outcomes.skip(1));
        assert(spec_trace(v, outcomes) =~= v.plan.skip(p as int).map(work) + tail);
    } else {
        assert(v2.stage is End);
        let v3 = advance_view(v2, outcomes.skip(1)[0]);
        if v.dispose {
            assert(v3.stage is Disp);
            let rest = outcomes.skip(1).skip(1);
            assert(rest.len() >= 1);
            let v4 = advance_view(v3, rest[0]);
            assert(v4.stage is Done);
            assert(spec_trace(v4, rest.skip(1)) =~= Seq::<ActionView>::empty());
            assert(spec_trace(v3, rest) =~= seq![ActionView::Dispose]);
        } else {
            assert(v3.stage is Done);
            assert(spec_trace(v3, outcomes.skip(1).skip(1)) =~= Seq::<ActionView>::empty());
        }
        assert(spec_trace(v2, outcomes.skip(1)) =~= tail);
        assert(v.plan.skip(p as int).map(work) =~= seq![ActionView::Work(v.plan[p as int])]);
        assert(spec_trace(v, outcomes) =~= v.plan.skip(p as int).map(work) + tail);
    }
}

/// A run whose every outcome is a success performs exactly its plan, in
/// order, bracketed by the running marks, with disposal last when asked
/// for — nothing is skipped and nothing is added.
pub proof fn lemma_successful_run(v: MachineView, outcomes: Seq<Outcome>)
    requires
        wf(v),
        v.plan.len() <= usize::MAX,
        v.stage is Start,
        outcomes.len() >= v.plan.len() + 4,
        (forall|i: int| 0 <= i < outcomes.len() ==> outcomes[i] is Success),
    ensures
        spec_trace(v, outcomes) == seq![ActionView::PersistStart, ActionView::LogInfo]
            + v.plan.map(|i: int, w: WorkItemView| ActionView::Work(w)) + seq![
            ActionView::PersistEnd,
        ] + (if v.dispose {
            seq![ActionView::Dispose]
        } else {
            Seq::<ActionView>::empty()
        }),
{
    let work = |i: int, w: WorkItemView| ActionView::Work(w);
    let tail = seq![ActionView::PersistEnd] + (if v.dispose {
        seq![ActionView::Dispose]
    } else {
        Seq::<ActionView>::empty()
    });
    let v2 = advance_view(v, outcomes[0]);
    assert(v2.stage is Info);
    assert(spec_trace(v, outcomes) == seq![ActionView::PersistStart] + spec_trace(
        v2,
        outcomes.skip(1),
    ));
    let v3 = advance_view(v2, outcomes.skip(1)[0]);
    assert(spec_trace(v2, outcomes.skip(1)) == seq![ActionView::LogInfo] + spec_trace(
        v3,
        outcomes.skip(1).skip(1),
    ));
    if v.plan.len() == 0 {
        assert(v3.stage is End);
        let after = outcomes.skip(1).skip(1);
        let v4 = advance_view(v3, after[0]);
        if v.dispose {
            assert(v4.stage is Disp);
            let rest = after.skip(1);
            assert(rest.len() >= 1);
            let v5 = advance_view(v4, rest[0]);
            assert(v5.stage is Done);
            assert(spec_trace(v5, rest.skip(1)) =~= Seq::<ActionView>::empty());
            assert(spec_trace(v4, rest) =~= seq![ActionView::Dispose]);
        } else {
            assert(v4.stage is Done);
            assert(spec_trace(v4, after.skip(1)) =~= Seq::<ActionView>::empty());
        }
        assert(spec_trace(v3, after) =~= tail);
        assert(v.plan.map(work) =~= Seq::<ActionView>::empty());
        assert(spec_trace(v, outcomes) =~= seq![ActionView::PersistStart, ActionView::LogInfo]
            + v.plan.map(work) + tail);
    } else {
        assert(v3.stage == RunStage::Work(0));
        lemma_success_from_work(v3, 0, outcomes.skip(1).skip(1));
        assert(v.plan.skip(0) =~= v.plan);
        assert(v.plan.skip(0).map(work) =~= v.plan.map(work));
        assert(spec_trace(v, outcomes) =~= seq![ActionView::PersistStart, ActionView::LogInfo]
            + v.plan.map(work) + tail);
    }
}

} // verus!
