//! The runner: turns one pipeline into an ordered plan of work items, and
//! drives a run through it as a small state machine.
//!
//! The work itself (shells, transfers, child runs) is I/O performed by the
//! embedding program, which reports each item's outcome back; this module
//! decides, verifiably, what runs next, what a failure or a cancellation
//! skips, and that the bookkeeping brackets every run.
use crate::builder::Runner;
use crate::interp::{spec_interpolate, RunContextView};
use crate::pipeline::{opt_view, ArtifactView, PipelineView, StepView};
use vstd::prelude::*;
use vstd::string::*;

verus! {

/// One unit of work of a run, in the order the runner executes them.
#[derive(Debug, Clone, PartialEq, Eq)]
pub enum WorkItem {
    /// Emit the step-name log line.
    StepName(String),
    /// Build and run the named child pipeline to completion.
    Child(String),
    /// Run one interpolated shell command on the platform.
    Shell { working_dir: Option<String>, command: String },
    /// Transfer one artifact; `push` says in which direction.
    Transfer { push: bool, from: String, to: String, ignore_errors: bool },
}

/// Mathematical model of a `WorkItem`.
pub enum WorkItemView {
    StepName(Seq<char>),
    Child(Seq<char>),
    Shell { working_dir: Option<Seq<char>>, command: Seq<char> },
    Transfer { push: bool, from: Seq<char>, to: Seq<char>, ignore_errors: bool },
}

impl View for WorkItem {
    type V = WorkItemView;

    open spec fn view(&self) -> WorkItemView {
        match self {
            WorkItem::StepName(n) => WorkItemView::StepName(n@),
            WorkItem::Child(c) => WorkItemView::Child(c@),
            WorkItem::Shell { working_dir, command } => WorkItemView::Shell {
                working_dir: opt_view(*working_dir),
                command: command@,
            },
            WorkItem::Transfer { push, from, to, ignore_errors } => WorkItemView::Transfer {
                push: *push,
                from: from@,
                to: to@,
                ignore_errors: *ignore_errors,
            },
        }
    }
}

/// The model of a list of work items.
pub open spec fn plan_view(v: Seq<WorkItem>) -> Seq<WorkItemView> {
    v.map(|i: int, w: WorkItem| w@)
}

/// Whether an artifact's method selects a transfer at all.
pub open spec fn spec_is_transfer_method(m: Option<Seq<char>>) -> bool {
    m == Option::Some("push"@) || m == Option::Some("get"@)
}

/// Whether an artifact runs at the given anchor: its `after` must equal the
/// anchor (None matches None), its method must be push or get, and both
/// paths must be present. Anything else is silently skipped.
pub open spec fn spec_artifact_selected(a: ArtifactView, anchor: Option<Seq<char>>) -> bool {
    a.after == anchor && spec_is_transfer_method(a.method) && a.from is Some && a.to is Some
}

/// The transfer item of a selected artifact, all fields interpolated.
pub open spec fn spec_artifact_item(
    a: ArtifactView,
    ctx: RunContextView,
    pip: PipelineView,
) -> WorkItemView {
    WorkItemView::Transfer {
        push: a.method == Option::Some("push"@),
        from: spec_interpolate(a.from->0, ctx, pip),
        to: spec_interpolate(a.to->0, ctx, pip),
        ignore_errors: a.ignore_errors,
    }
}

/// The transfer items of all artifacts anchored at `anchor`, in
/// declaration order.
pub open spec fn spec_artifact_items(
    arts: Seq<ArtifactView>,
    anchor: Option<Seq<char>>,
    ctx: RunContextView,
    pip: PipelineView,
) -> Seq<WorkItemView>
    decreases arts.len(),
{
    if arts.len() == 0 {
        Seq::<WorkItemView>::empty()
    } else {
        (if spec_artifact_selected(arts[0], anchor) {
            seq![spec_artifact_item(arts[0], ctx, pip)]
        } else {
            Seq::<WorkItemView>::empty()
        }) + spec_artifact_items(arts.skip(1), anchor, ctx, pip)
    }
}

/// The child-run items of a step's `call` list.
pub open spec fn spec_call_items(calls: Seq<Seq<char>>) -> Seq<WorkItemView> {
    calls.map(|i: int, c: Seq<char>| WorkItemView::Child(c))
}

/// The shell items of a step, command and working directory interpolated.
pub open spec fn spec_shell_items(
    step: StepView,
    ctx: RunContextView,
    pip: PipelineView,
) -> Seq<WorkItemView> {
    step.commands.map(
        |i: int, c: Seq<char>|
            WorkItemView::Shell {
                working_dir: match step.working_dir {
                    Option::Some(w) => Option::Some(spec_interpolate(w, ctx, pip)),
                    Option::None => Option::None,
                },
                command: spec_interpolate(c, ctx, pip),
            },
    )
}

/// One step's items: the name line, then calls, then commands, then the
/// artifacts anchored after this step.
pub open spec fn spec_step_items(
    step: StepView,
    arts: Seq<ArtifactView>,
    ctx: RunContextView,
    pip: PipelineView,
) -> Seq<WorkItemView> {
    (match step.name {
        Option::Some(n) => seq![WorkItemView::StepName(n)],
        Option::None => Seq::<WorkItemView>::empty(),
    }) + spec_call_items(step.call) + spec_shell_items(step, ctx, pip) + spec_artifact_items(
        arts,
        step.name,
        ctx,
        pip,
    )
}

/// All steps' items in declaration order.
pub open spec fn spec_steps_items(
    steps: Seq<StepView>,
    arts: Seq<ArtifactView>,
    ctx: RunContextView,
    pip: PipelineView,
) -> Seq<WorkItemView>
    decreases steps.len(),
{
    if steps.len() == 0 {
        Seq::<WorkItemView>::empty()
    } else {
        spec_step_items(steps[0], arts, ctx, pip) + spec_steps_items(steps.skip(1), arts, ctx, pip)
    }
}

/// The full plan of a run: the pre-step artifacts (anchor None), then every
/// step in order.
pub open spec fn spec_plan(pip: PipelineView, ctx: RunContextView) -> Seq<WorkItemView> {
    spec_artifact_items(pip.artifacts, Option::None, ctx, pip) + spec_steps_items(
        pip.steps,
        pip.artifacts,
        ctx,
        pip,
    )
}

/// The display text of a target selector.
pub open spec fn spec_runs_on_text(r: crate::pipeline::RunsOnView) -> Seq<char> {
    match r {
        crate::pipeline::RunsOnView::Machine => "machine"@,
        crate::pipeline::RunsOnView::Docker(img) => "docker [ "@ + img + " ]"@,
    }
}

impl Runner {
    /// The info lines opening a run's log: the pipeline's name when it has
    /// one, then the target it runs on.
    pub fn info(&self) -> (r: Vec<String>)
        ensures
            self.pipeline.name matches Option::Some(n) ==> (r@.len() == 2 && r@[0]@
                == "[bld] Pipeline: "@ + n@ && r@[1]@ == "[bld] Runs on: "@ + spec_runs_on_text(
                self.pipeline@.runs_on,
            )),
            self.pipeline.name is None ==> (r@.len() == 1 && r@[0]@ == "[bld] Runs on: "@
                + spec_runs_on_text(self.pipeline@.runs_on)),
    {
        let mut r: Vec<String> = Vec::new();
        match &self.pipeline.name {
            Option::Some(n) => {
                let mut line = String::from_str("[bld] Pipeline: ");
                line.append(n.as_str());
                r.push(line);
            },
            Option::None => {},
        }
        let mut line = String::from_str("[bld] Runs on: ");
        match &self.pipeline.runs_on {
            crate::pipeline::RunsOn::Machine => {
                line.append("machine");
            },
            crate::pipeline::RunsOn::Docker(img) => {
                line.append("docker [ ");
                line.append(img.as_str());
                line.append(" ]");
            },
        }
        r.push(line);
        r
    }

    /// The transfer items of the artifacts anchored at `anchor`, fields
    /// interpolated against this runner's context.
    pub fn artifacts(&self, anchor: &Option<String>) -> (r: Vec<WorkItem>)
        ensures
            plan_view(r@) == spec_artifact_items(
                self.pipeline@.artifacts,
                opt_view(*anchor),
                self.ctx@,
                self.pipeline@,
            ),
    {
        let ghost arts = self.pipeline@.artifacts;
        let ghost goal = spec_artifact_items(arts, opt_view(*anchor), self.ctx@, self.pipeline@);
        let n = self.pipeline.artifacts.len();
        let mut r: Vec<WorkItem> = Vec::new();
        let mut i: usize = 0;
        proof {
            assert(arts.skip(0) =~= arts);
        }
        while i < n
            invariant
                n == self.pipeline.artifacts@.len(),
                arts == self.pipeline@.artifacts,
                goal == spec_artifact_items(arts, opt_view(*anchor), self.ctx@, self.pipeline@),
                i <= n,
                goal == plan_view(r@) + spec_artifact_items(
                    arts.skip(i as int),
                    opt_view(*anchor),
                    self.ctx@,
                    self.pipeline@,
                ),
            decreases n - i,
        {
            proof {
                assert(arts[i as int] == self.pipeline.artifacts@[i as int]@);
                assert(arts.skip(i as int)[0] == arts[i as int]);
                assert(arts.skip(i as int).skip(1) =~= arts.skip(i + 1));
            }
            let a = &self.pipeline.artifacts[i];
            let method_ok = match &a.method {
                Option::Some(m) => {
                    crate::pipeline::str_eq(m.as_str(), "push") || crate::pipeline::str_eq(
                        m.as_str(),
                        "get",
                    )
                },
                Option::None => false,
            };
            let selected = crate::pipeline::opt_str_eq(&a.after, anchor) && method_ok
                && a.from.is_some() && a.to.is_some();
            if selected {
                let push = match &a.method {
                    Option::Some(m) => crate::pipeline::str_eq(m.as_str(), "push"),
                    Option::None => false,
                };
                let from = match &a.from {
                    Option::Some(f) => self.ctx.apply_context(&self.pipeline, f.as_str()),
                    Option::None => String::new(),
                };
                let to = match &a.to {
                    Option::Some(t) => self.ctx.apply_context(&self.pipeline, t.as_str()),
                    Option::None => String::new(),
                };
                let item = WorkItem::Transfer { push, from, to, ignore_errors: a.ignore_errors };
                proof {
                    assert(item@ == spec_artifact_item(arts[i as int], self.ctx@, self.pipeline@));
                }
                r.push(item);
                proof {
                    assert(plan_view(r@) =~= plan_view(r@.take(r@.len() - 1)) + seq![item@]);
                }
            }
            i += 1;
        }
        proof {
            assert(arts.skip(n as int) =~= Seq::<ArtifactView>::empty());
            assert(goal =~= plan_view(r@));
        }
        r
    }

    /// The child-run items of one step's `call` list.
    fn call(&self, step: &crate::pipeline::BuildStep) -> (r: Vec<WorkItem>)
        ensures
            plan_view(r@) == spec_call_items(step@.call),
    {
        let n = step.call.len();
        let mut r: Vec<WorkItem> = Vec::new();
        let mut i: usize = 0;
        while i < n
            invariant
                n == step.call@.len(),
                i <= n,
                r@.len() == i,
                plan_view(r@) =~= spec_call_items(step@.call).take(i as int),
            decreases n - i,
        {
            r.push(WorkItem::Child(String::from_str(step.call[i].as_str())));
            proof {
                assert(plan_view(r@) =~= spec_call_items(step@.call).take(i + 1));
            }
            i += 1;
        }
        proof {
            assert(spec_call_items(step@.call).take(n as int) =~= spec_call_items(step@.call));
        }
        r
    }

    /// The shell items of one step, interpolated.
    fn sh(&self, step: &crate::pipeline::BuildStep) -> (r: Vec<WorkItem>)
        ensures
            plan_view(r@) == spec_shell_items(step@, self.ctx@, self.pipeline@),
    {
        let ghost goal = spec_shell_items(step@, self.ctx@, self.pipeline@);
        let n = step.commands.len();
        let mut r: Vec<WorkItem> = Vec::new();
        let mut i: usize = 0;
        while i < n
            invariant
                n == step.commands@.len(),
                goal == spec_shell_items(step@, self.ctx@, self.pipeline@),
                i <= n,
                r@.len() == i,
                plan_view(r@) =~= goal.take(i as int),
            decreases n - i,
        {
            let working_dir = match &step.working_dir {
                Option::Some(w) => Option::Some(
                    self.ctx.apply_context(&self.pipeline, w.as_str()),
                ),
                Option::None => Option::None,
            };
            let command = self.ctx.apply_context(&self.pipeline, step.commands[i].as_str());
            r.push(WorkItem::Shell { working_dir, command });
            proof {
                assert(plan_view(r@) =~= goal.take(i + 1));
            }
            i += 1;
        }
        proof {
            assert(goal.take(n as int) =~= goal);
        }
        r
    }

    /// One step's items: name line, calls, commands, post-step artifacts.
    pub fn step(&self, step: &crate::pipeline::BuildStep) -> (r: Vec<WorkItem>)
        ensures
            plan_view(r@) == spec_step_items(step@, self.pipeline@.artifacts, self.ctx@, self.pipeline@),
    {
        let mut r: Vec<WorkItem> = Vec::new();
        match &step.name {
            Option::Some(n) => {
                r.push(WorkItem::StepName(String::from_str(n.as_str())));
            },
            Option::None => {},
        }
        let ghost name_items = (match step@.name {
            Option::Some(n) => seq![WorkItemView::StepName(n)],
            Option::None => Seq::<WorkItemView>::empty(),
        });
        proof {
            assert(plan_view(r@) =~= name_items);
        }
        let mut calls = self.call(step);
        let mut shells = self.sh(step);
        let mut arts = self.artifacts(&step.name);
        let ghost c = plan_view(calls@);
        let ghost s = plan_view(shells@);
        let ghost a = plan_view(arts@);
        r.append(&mut calls);
        r.append(&mut shells);
        r.append(&mut arts);
        proof {
            assert(plan_view(r@) =~= name_items + c + s + a);
        }
        r
    }

    /// The full plan of this runner's pipeline.
    pub fn steps(&self) -> (r: Vec<WorkItem>)
        ensures
            plan_view(r@) == spec_plan(self.pipeline@, self.ctx@),
    {
        let ghost stepsv = self.pipeline@.steps;
        let mut r: Vec<WorkItem> = self.artifacts(&Option::None);
        let ghost pre = plan_view(r@);
        let n = self.pipeline.steps.len();
        let mut i: usize = 0;
        proof {
            assert(stepsv.skip(0) =~= stepsv);
        }
        while i < n
            invariant
                n == self.pipeline.steps@.len(),
                stepsv == self.pipeline@.steps,
                pre == spec_artifact_items(
                    self.pipeline@.artifacts,
                    Option::None,
                    self.ctx@,
                    self.pipeline@,
                ),
                i <= n,
                pre + spec_steps_items(stepsv, self.pipeline@.artifacts, self.ctx@, self.pipeline@)
                    == plan_view(r@) + spec_steps_items(
                    stepsv.skip(i as int),
                    self.pipeline@.artifacts,
                    self.ctx@,
                    self.pipeline@,
                ),
            decreases n - i,
        {
            proof {
                assert(stepsv[i as int] == self.pipeline.steps@[i as int]@);
                assert(stepsv.skip(i as int)[0] == stepsv[i as int]);
                assert(stepsv.skip(i as int).skip(1) =~= stepsv.skip(i + 1));
            }
            let mut items = self.step(&self.pipeline.steps[i]);
            let ghost iv = plan_view(items@);
            r.append(&mut items);
            proof {
                assert(plan_view(r@) =~= plan_view(r@.take(r@.len() - iv.len())) + iv);
            }
            i += 1;
        }
        proof {
            assert(stepsv.skip(n as int) =~= Seq::<StepView>::empty());
            assert(plan_view(r@) =~= spec_plan(self.pipeline@, self.ctx@));
        }
        r
    }
}

} // verus!
