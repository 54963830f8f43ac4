//! Building a runner: required-input validation, resolution of the
//! environment and variables against the pipeline's declarations, and
//! materialization of the target platform.
use crate::config::BldConfig;
use crate::errors::RunError;
use crate::interp::{pairs_view, RunContext};
use crate::pipeline::{decls_view, Pipeline, RunsOn, Variable};
use crate::platform::{Container, Machine, TargetPlatform};
use crate::Binding;
use vstd::prelude::*;
use vstd::string::*;

verus! {

/// How the run-state store is driven: a real store at the root runner, or
/// the no-op variant used by every child runner.
#[derive(PartialEq, Eq, Structural)]
#[derive(Debug, Clone, Copy)]
pub enum ExecutorKind {
    Persistent,
    NoOp,
}

impl ExecutorKind {
    /// Whether the persist marks of a run reach the run-state store: only
    /// the root runner's executor does, so no child invocation performs a
    /// persistent run-state update.
    pub fn updates_run_state(&self) -> (r: bool)
        ensures
            r == (self is Persistent),
    {
        match self {
            ExecutorKind::Persistent => true,
            ExecutorKind::NoOp => false,
        }
    }
}

/// The first value bound to `name`, if any.
pub open spec fn spec_lookup(pairs: Seq<(Seq<char>, Seq<char>)>, name: Seq<char>) -> Option<
    Seq<char>,
>
    decreases pairs.len(),
{
    if pairs.len() == 0 {
        Option::None
    } else if pairs[0].0 == name {
        Option::Some(pairs[0].1)
    } else {
        spec_lookup(pairs.skip(1), name)
    }
}

/// The declared names in order, each bound to the caller-supplied value
/// when one exists and to the declared default otherwise.
pub open spec fn spec_resolve(
    declared: Seq<(Seq<char>, Seq<char>)>,
    supplied: Seq<(Seq<char>, Seq<char>)>,
) -> Seq<(Seq<char>, Seq<char>)> {
    declared.map(
        |i: int, d: (Seq<char>, Seq<char>)|
            (
                d.0,
                match spec_lookup(supplied, d.0) {
                    Option::Some(v) => v,
                    Option::None => d.1,
                },
            ),
    )
}

/// The value bound to `name` in the supplied pairs, if any.
pub fn lookup(pairs: &Vec<Binding>, name: &str) -> (r: Option<String>)
    ensures
        crate::pipeline::opt_view(r) == spec_lookup(pairs_view(pairs@), name@),
{
    let n = pairs.len();
    let mut i: usize = 0;
    proof {
        assert(pairs_view(pairs@).skip(0) =~= pairs_view(pairs@));
    }
    while i < n
        invariant
            n == pairs@.len(),
            i <= n,
            spec_lookup(pairs_view(pairs@), name@) == spec_lookup(
                pairs_view(pairs@).skip(i as int),
                name@,
            ),
        decreases n - i,
    {
        proof {
            assert(pairs_view(pairs@).skip(i as int)[0] == pairs_view(pairs@)[i as int]);
            assert(pairs_view(pairs@).skip(i as int).skip(1) =~= pairs_view(pairs@).skip(i + 1));
        }
        if crate::pipeline::str_eq(pairs[i].name.as_str(), name) {
            return Option::Some(pairs[i].value.clone());
        }
        i += 1;
    }
    proof {
        assert(pairs_view(pairs@).skip(n as int) =~= Seq::<(Seq<char>, Seq<char>)>::empty());
    }
    Option::None
}

/// Overlays the caller-supplied values onto the declared defaults.
pub fn resolve(declared: &Vec<Variable>, supplied: &Vec<Binding>) -> (r: Vec<Binding>)
    ensures
        pairs_view(r@) == spec_resolve(decls_view(declared@), pairs_view(supplied@)),
{
    let ghost goal = spec_resolve(decls_view(declared@), pairs_view(supplied@));
    let n = declared.len();
    let mut r: Vec<Binding> = Vec::new();
    let mut i: usize = 0;
    while i < n
        invariant
            n == declared@.len(),
            i <= n,
            goal == spec_resolve(decls_view(declared@), pairs_view(supplied@)),
            r@.len() == i,
            pairs_view(r@) =~= goal.take(i as int),
        decreases n - i,
    {
        let value = match lookup(supplied, declared[i].name.as_str()) {
            Option::Some(v) => v,
            Option::None => declared[i].default_value.clone(),
        };
        r.push(Binding { name: declared[i].name.clone(), value });
        proof {
            assert(decls_view(declared@)[i as int] == (
                declared@[i as int].name@,
                declared@[i as int].default_value@,
            ));
            assert(pairs_view(r@) =~= goal.take(i + 1));
        }
        i += 1;
    }
    proof {
        assert(goal.take(n as int) =~= goal);
    }
    r
}

/// Copies a list of bindings, preserving its contents.
pub fn clone_bindings(v: &Vec<Binding>) -> (r: Vec<Binding>)
    ensures
        pairs_view(r@) == pairs_view(v@),
{
    let n = v.len();
    let mut r: Vec<Binding> = Vec::new();
    let mut i: usize = 0;
    while i < n
        invariant
            n == v@.len(),
            i <= n,
            r@.len() == i,
            pairs_view(r@) =~= pairs_view(v@).take(i as int),
        decreases n - i,
    {
        r.push(Binding { name: v[i].name.clone(), value: v[i].value.clone() });
        proof {
            assert(pairs_view(r@) =~= pairs_view(v@).take(i + 1));
        }
        i += 1;
    }
    proof {
        assert(pairs_view(v@).take(n as int) =~= pairs_view(v@));
    }
    r
}

/// Collects the inputs of a run; `build` validates them and produces a
/// `Runner`. Every input except the stop-signal receiver is required.
pub struct RunnerBuilder {
    pub run_id: Option<String>,
    pub run_start_time: Option<String>,
    pub config: Option<BldConfig>,
    pub execution: Option<ExecutorKind>,
    pub logger: Option<u64>,
    pub proxy: Option<u64>,
    pub pipeline: Option<String>,
    pub receiver: Option<u64>,
    pub environment: Option<Vec<Binding>>,
    pub variables: Option<Vec<Binding>>,
    pub is_child: bool,
}

/// One runner frame: the interpolation context, the parsed pipeline, the
/// materialized platform, and the shared handles it was built over.
#[derive(Debug)]
pub struct Runner {
    pub ctx: RunContext,
    pub config: BldConfig,
    pub execution: ExecutorKind,
    pub logger: u64,
    pub proxy: u64,
    pub pipeline_name: String,
    pub pipeline: Pipeline,
    pub receiver: Option<u64>,
    pub platform: TargetPlatform,
    pub is_child: bool,
}

/// The description of the first missing required builder input, checked in
/// the order the builder validates them.
pub open spec fn spec_missing_field(b: RunnerBuilder) -> Option<Seq<char>> {
    if b.run_id is None {
        Option::Some("run id"@)
    } else if b.config is None {
        Option::Some("bld config instance"@)
    } else if b.logger is None {
        Option::Some("logger instance"@)
    } else if b.proxy is None {
        Option::Some("pipeline file system proxy"@)
    } else if b.pipeline is None {
        Option::Some("pipeline"@)
    } else if b.environment is None {
        Option::Some("environment instance"@)
    } else if b.variables is None {
        Option::Some("variables instance"@)
    } else if b.run_start_time is None {
        Option::Some("run start time"@)
    } else if b.execution is None {
        Option::Some("executor instance"@)
    } else {
        Option::None
    }
}

impl Default for RunnerBuilder {
    /// A builder with nothing supplied yet, for a root runner.
    fn default() -> (r: Self)
        ensures
            r.run_id is None,
            r.run_start_time is None,
            r.config is None,
            r.execution is None,
            r.logger is None,
            r.proxy is None,
            r.pipeline is None,
            r.receiver is None,
            r.environment is None,
            r.variables is None,
            !r.is_child,
    {
        RunnerBuilder {
            run_id: Option::None,
            run_start_time: Option::None,
            config: Option::None,
            execution: Option::None,
            logger: Option::None,
            proxy: Option::None,
            pipeline: Option::None,
            receiver: Option::None,
            environment: Option::None,
            variables: Option::None,
            is_child: false,
        }
    }
}

impl RunnerBuilder {
    /// Supplies the server-generated run id.
    pub fn run_id(self, id: &str) -> (r: Self)
        ensures
            r == (RunnerBuilder { run_id: r.run_id, ..self }),
            r.run_id matches Option::Some(s) && s@ == id@,
    {
        RunnerBuilder { run_id: Option::Some(String::from_str(id)), ..self }
    }

    /// Supplies the run start timestamp.
    pub fn run_start_time(self, time: &str) -> (r: Self)
        ensures
            r == (RunnerBuilder { run_start_time: r.run_start_time, ..self }),
            r.run_start_time matches Option::Some(s) && s@ == time@,
    {
        RunnerBuilder { run_start_time: Option::Some(String::from_str(time)), ..self }
    }

    /// Supplies the tool configuration.
    pub fn config(self, cfg: BldConfig) -> (r: Self)
        ensures
            r == (RunnerBuilder { config: Option::Some(cfg), ..self }),
    {
        RunnerBuilder { config: Option::Some(cfg), ..self }
    }

    /// Supplies the run-state executor: persistent at the root, no-op in
    /// children.
    pub fn execution(self, ex: ExecutorKind) -> (r: Self)
        ensures
            r == (RunnerBuilder { execution: Option::Some(ex), ..self }),
    {
        RunnerBuilder { execution: Option::Some(ex), ..self }
    }

    /// Supplies the handle of the shared logger.
    pub fn logger(self, lg: u64) -> (r: Self)
        ensures
            r == (RunnerBuilder { logger: Option::Some(lg), ..self }),
    {
        RunnerBuilder { logger: Option::Some(lg), ..self }
    }

    /// Supplies the name of the pipeline to run.
    pub fn pipeline(self, name: &str) -> (r: Self)
        ensures
            r == (RunnerBuilder { pipeline: r.pipeline, ..self }),
            r.pipeline matches Option::Some(s) && s@ == name@,
    {
        RunnerBuilder { pipeline: Option::Some(String::from_str(name)), ..self }
    }

    /// Supplies the handle of the pipeline file store proxy.
    pub fn proxy(self, prx: u64) -> (r: Self)
        ensures
            r == (RunnerBuilder { proxy: Option::Some(prx), ..self }),
    {
        RunnerBuilder { proxy: Option::Some(prx), ..self }
    }

    /// Supplies the optional stop-signal receiver handle.
    pub fn receiver(self, cm: Option<u64>) -> (r: Self)
        ensures
            r == (RunnerBuilder { receiver: cm, ..self }),
    {
        RunnerBuilder { receiver: cm, ..self }
    }

    /// Supplies the caller's environment values.
    pub fn environment(self, env: Vec<Binding>) -> (r: Self)
        ensures
            r == (RunnerBuilder { environment: Option::Some(env), ..self }),
    {
        RunnerBuilder { environment: Option::Some(env), ..self }
    }

    /// Supplies the caller's variable values.
    pub fn variables(self, vars: Vec<Binding>) -> (r: Self)
        ensures
            r == (RunnerBuilder { variables: Option::Some(vars), ..self }),
    {
        RunnerBuilder { variables: Option::Some(vars), ..self }
    }

    /// Marks the builder as building a child runner frame.
    pub fn child(self) -> (r: Self)
        ensures
            r == (RunnerBuilder { is_child: true, ..self }),
    {
        RunnerBuilder { is_child: true, ..self }
    }

    /// Validates the collected inputs and builds the runner: the first
    /// missing required input fails the build with an error naming it;
    /// otherwise the environment and variables are resolved and the
    /// platform is materialized from the pipeline's `runs_on`.
    ///
    /// At the root, resolution overlays the caller's values onto the
    /// pipeline's declared defaults. A child runner instead inherits its
    /// parent's resolved bindings unchanged, so names the child pipeline
    /// does not declare still resolve; the child's own declared defaults
    /// are served by interpolation's fallback sub-pass.
    pub fn build(self, pipeline: Pipeline) -> (r: Result<Runner, RunError>)
        ensures
            r is Ok <==> spec_missing_field(self) is None,
            r matches Result::Err(e) ==> (e matches RunError::ConfigMissing(f) && Option::Some(f@)
                == spec_missing_field(self)),
            r matches Result::Ok(run) ==> ({
                &&& run.ctx.run_id@ == self.run_id->0@
                &&& run.ctx.run_start_time@ == self.run_start_time->0@
                &&& pairs_view(run.ctx.env@) == (if self.is_child {
                    pairs_view(self.environment->0@)
                } else {
                    spec_resolve(
                        decls_view(pipeline.environment@),
                        pairs_view(self.environment->0@),
                    )
                })
                &&& pairs_view(run.ctx.vars@) == (if self.is_child {
                    pairs_view(self.variables->0@)
                } else {
                    spec_resolve(decls_view(pipeline.variables@), pairs_view(self.variables->0@))
                })
                &&& run.execution == self.execution->0
                &&& run.logger == self.logger->0
                &&& run.proxy == self.proxy->0
                &&& run.receiver == self.receiver
                &&& run.pipeline_name@ == self.pipeline->0@
                &&& run.pipeline == pipeline
                &&& run.is_child == self.is_child
                &&& (pipeline.runs_on matches RunsOn::Machine ==> (
                run.platform matches TargetPlatform::Machine(m) && m.temp_dir@ == ".bld/tmp/"@
                    + self.run_id->0@))
                &&& (pipeline.runs_on matches RunsOn::Docker(img) ==> (
                run.platform matches TargetPlatform::Container(c) && c.image@ == img@
                    && c.id is None))
            }),
    {
        let id = match self.run_id {
            Option::Some(id) => id,
            Option::None => {
                return Result::Err(RunError::ConfigMissing(String::from_str("run id")));
            },
        };
        let config = match self.config {
            Option::Some(c) => c,
            Option::None => {
                return Result::Err(
                    RunError::ConfigMissing(String::from_str("bld config instance")),
                );
            },
        };
        let logger = match self.logger {
            Option::Some(l) => l,
            Option::None => {
                return Result::Err(RunError::ConfigMissing(String::from_str("logger instance")));
            },
        };
        let proxy = match self.proxy {
            Option::Some(p) => p,
            Option::None => {
                return Result::Err(
                    RunError::ConfigMissing(String::from_str("pipeline file system proxy")),
                );
            },
        };
        let pipeline_name = match self.pipeline {
            Option::Some(p) => p,
            Option::None => {
                return Result::Err(RunError::ConfigMissing(String::from_str("pipeline")));
            },
        };
        let env = match self.environment {
            Option::Some(e) => e,
            Option::None => {
                return Result::Err(
                    RunError::ConfigMissing(String::from_str("environment instance")),
                );
            },
        };
        let vars = match self.variables {
            Option::Some(v) => v,
            Option::None => {
                return Result::Err(RunError::ConfigMissing(String::from_str("variables instance")));
            },
        };
        let run_start_time = match self.run_start_time {
            Option::Some(t) => t,
            Option::None => {
                return Result::Err(RunError::ConfigMissing(String::from_str("run start time")));
            },
        };
        let execution = match self.execution {
            Option::Some(e) => e,
            Option::None => {
                return Result::Err(RunError::ConfigMissing(String::from_str("executor instance")));
            },
        };
        let env = if self.is_child {
            env
        } else {
            resolve(&pipeline.environment, &env)
        };
        let vars = if self.is_child {
            vars
        } else {
            resolve(&pipeline.variables, &vars)
        };
        let platform = match &pipeline.runs_on {
            RunsOn::Machine => {
                let mut dir = String::from_str(".bld/tmp/");
                dir.append(id.as_str());
                TargetPlatform::Machine(Box::new(Machine { temp_dir: dir }))
            },
            RunsOn::Docker(img) => TargetPlatform::Container(
                Box::new(Container { image: img.clone(), id: Option::None }),
            ),
        };
        Result::Ok(
            Runner {
                ctx: RunContext { run_id: id, run_start_time, env, vars },
                config,
                execution,
                logger,
                proxy,
                pipeline_name,
                pipeline,
                receiver: self.receiver,
                platform,
                is_child: self.is_child,
            },
        )
    }
}

impl Runner {
    /// A builder for the child runner of one `call` entry: the child shares
    /// the parent's run id, start time, logger, proxy, stop signal,
    /// environment and variables, and always gets the no-op executor, so
    /// that only the root runner updates persistent run state.
    pub fn child_builder(&self, call: &str) -> (r: RunnerBuilder)
        ensures
            r.execution == Option::Some(ExecutorKind::NoOp),
            r.is_child,
            r.run_id matches Option::Some(s) && s@ == self.ctx.run_id@,
            r.run_start_time matches Option::Some(s) && s@ == self.ctx.run_start_time@,
            r.pipeline matches Option::Some(s) && s@ == call@,
            r.logger == Option::Some(self.logger),
            r.proxy == Option::Some(self.proxy),
            r.receiver == self.receiver,
            (match r.environment {
                Option::Some(e) => pairs_view(e@) == pairs_view(self.ctx.env@),
                Option::None => false,
            }),
            (match r.variables {
                Option::Some(v) => pairs_view(v@) == pairs_view(self.ctx.vars@),
                Option::None => false,
            }),
            spec_missing_field(r) matches Option::Some(f) ==> f == "bld config instance"@,
    {
        RunnerBuilder {
            run_id: Option::Some(self.ctx.run_id.clone()),
            run_start_time: Option::Some(self.ctx.run_start_time.clone()),
            config: Option::None,
            execution: Option::Some(ExecutorKind::NoOp),
            logger: Option::Some(self.logger),
            proxy: Option::Some(self.proxy),
            pipeline: Option::Some(String::from_str(call)),
            receiver: self.receiver,
            environment: Option::Some(clone_bindings(&self.ctx.env)),
            variables: Option::Some(clone_bindings(&self.ctx.vars)),
            is_child: true,
        }
    }
}

} // verus!
