//! The parsed pipeline data model: steps, artifacts, declarations.
use vstd::prelude::*;
use vstd::string::*;

verus! {

/// The execution target selector of a pipeline.
#[derive(Debug, Clone)]
pub enum RunsOn {
    Machine,
    Docker(String),
}

/// A declared environment variable or pipeline variable: a name and the
/// default used when the caller supplies no value for it.
#[derive(Debug, Clone)]
pub struct Variable {
    pub name: String,
    pub default_value: String,
}

/// A declared file transfer, anchored before the run (`after == None`) or
/// after the step whose name equals `after`.
#[derive(Debug, Clone)]
pub struct Artifact {
    pub method: Option<String>,
    pub from: Option<String>,
    pub to: Option<String>,
    pub after: Option<String>,
    pub ignore_errors: bool,
}

/// One ordered build step: nested pipeline calls first, then shell commands.
#[derive(Debug, Clone)]
pub struct BuildStep {
    pub name: Option<String>,
    pub working_dir: Option<String>,
    pub call: Vec<String>,
    pub commands: Vec<String>,
}

/// A pipeline, immutable after parse.
#[derive(Debug, Clone)]
pub struct Pipeline {
    pub name: Option<String>,
    pub runs_on: RunsOn,
    pub environment: Vec<Variable>,
    pub variables: Vec<Variable>,
    pub artifacts: Vec<Artifact>,
    pub steps: Vec<BuildStep>,
    pub dispose: bool,
}

/// Mathematical model of `RunsOn`.
pub enum RunsOnView {
    Machine,
    Docker(Seq<char>),
}

/// Mathematical model of an `Artifact`.
pub struct ArtifactView {
    pub method: Option<Seq<char>>,
    pub from: Option<Seq<char>>,
    pub to: Option<Seq<char>>,
    pub after: Option<Seq<char>>,
    pub ignore_errors: bool,
}

/// Mathematical model of a `BuildStep`.
pub struct StepView {
    pub name: Option<Seq<char>>,
    pub working_dir: Option<Seq<char>>,
    pub call: Seq<Seq<char>>,
    pub commands: Seq<Seq<char>>,
}

/// Mathematical model of a `Pipeline`.
pub struct PipelineView {
    pub name: Option<Seq<char>>,
    pub runs_on: RunsOnView,
    pub environment: Seq<(Seq<char>, Seq<char>)>,
    pub variables: Seq<(Seq<char>, Seq<char>)>,
    pub artifacts: Seq<ArtifactView>,
    pub steps: Seq<StepView>,
    pub dispose: bool,
}

/// The model of an optional string.
pub open spec fn opt_view(o: Option<String>) -> Option<Seq<char>> {
    match o {
        Option::Some(s) => Option::Some(s@),
        Option::None => Option::None,
    }
}

/// The model of a list of strings.
pub open spec fn strs_view(v: Seq<String>) -> Seq<Seq<char>> {
    v.map(|i: int, s: String| s@)
}

/// The model of a list of declarations: (name, default) pairs.
pub open spec fn decls_view(v: Seq<Variable>) -> Seq<(Seq<char>, Seq<char>)> {
    v.map(|i: int, d: Variable| (d.name@, d.default_value@))
}

impl View for RunsOn {
    type V = RunsOnView;

    open spec fn view(&self) -> RunsOnView {
        match self {
            RunsOn::Machine => RunsOnView::Machine,
            RunsOn::Docker(img) => RunsOnView::Docker(img@),
        }
    }
}

impl View for Artifact {
    type V = ArtifactView;

    open spec fn view(&self) -> ArtifactView {
        ArtifactView {
            method: opt_view(self.method),
            from: opt_view(self.from),
            to: opt_view(self.to),
            after: opt_view(self.after),
            ignore_errors: self.ignore_errors,
        }
    }
}

impl View for BuildStep {
    type V = StepView;

    open spec fn view(&self) -> StepView {
        StepView {
            name: opt_view(self.name),
            working_dir: opt_view(self.working_dir),
            call: strs_view(self.call@),
            commands: strs_view(self.commands@),
        }
    }
}

impl View for Pipeline {
    type V = PipelineView;

    open spec fn view(&self) -> PipelineView {
        PipelineView {
            name: opt_view(self.name),
            runs_on: self.runs_on@,
            environment: decls_view(self.environment@),
            variables: decls_view(self.variables@),
            artifacts: self.artifacts@.map(|i: int, a: Artifact| a@),
            steps: self.steps@.map(|i: int, s: BuildStep| s@),
            dispose: self.dispose,
        }
    }
}

/// String equality on the underlying character sequences.
pub fn str_eq(a: &str, b: &str) -> (r: bool)
    ensures
        r == (a@ == b@),
{
    let x = String::from_str(a);
    let y = String::from_str(b);
    x == y
}

/// Equality of optional strings, by contents.
pub fn opt_str_eq(a: &Option<String>, b: &Option<String>) -> (r: bool)
    ensures
        r == (opt_view(*a) == opt_view(*b)),
{
    match a {
        Option::None => match b {
            Option::None => true,
            Option::Some(_) => false,
        },
        Option::Some(x) => match b {
            Option::None => false,
            Option::Some(y) => {
                let r = str_eq(x.as_str(), y.as_str());
                proof {
                    if x@ == y@ {
                        assert(opt_view(*a) == opt_view(*b));
                    } else {
                        assert(opt_view(*a) != opt_view(*b));
                    }
                }
                r
            },
        },
    }
}

} // verus!
