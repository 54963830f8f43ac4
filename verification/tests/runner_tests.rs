use bld::builder::{ExecutorKind, RunnerBuilder};
use bld::errors::RunError;
use bld::machine::{Outcome, RunMachine, RunStage};
use bld::pipeline::{Artifact, BuildStep, Pipeline, RunsOn, Variable};
use bld::platform::PlatformOp;
use bld::runner::WorkItem;
use bld::Binding;

fn test_config() -> bld::config::BldConfig {
    bld::config::BldConfig {
        local: bld::config::BldLocalConfig {
            host: String::from("127.0.0.1"),
            port: 6080,
            logs: String::from("logs"),
        },
        remote: bld::config::BldRemoteConfig::default(),
    }
}

fn build_runner(pip: Pipeline, env: Vec<Binding>) -> bld::builder::Runner {
    RunnerBuilder::default()
        .run_id("run-7")
        .run_start_time("now")
        .config(test_config())
        .execution(ExecutorKind::Persistent)
        .logger(1)
        .proxy(1)
        .pipeline("demo")
        .receiver(None)
        .environment(env)
        .variables(Vec::new())
        .build(pip)
        .expect("build")
}

/// Walks the machine handing each work item the next outcome, and records
/// every stage performed, in order.
fn drive(machine: &mut RunMachine, mut outcomes: Vec<Outcome>) -> Vec<String> {
    outcomes.reverse();
    let mut log: Vec<String> = Vec::new();
    let mut fuel = 1000;
    loop {
        fuel -= 1;
        assert!(fuel > 0, "machine did not finish");
        let outcome = match machine.stage {
            RunStage::Start => {
                log.push(String::from("persist_start"));
                Outcome::Success
            }
            RunStage::Info => {
                log.push(String::from("info"));
                Outcome::Success
            }
            RunStage::Work(_) => {
                let item = machine.current_work().expect("work item").clone();
                log.push(format!("work:{:?}", item));
                outcomes.pop().unwrap_or(Outcome::Success)
            }
            RunStage::Fail => {
                log.push(String::from("log_error"));
                Outcome::Success
            }
            RunStage::End => {
                log.push(String::from("persist_end"));
                Outcome::Success
            }
            RunStage::Disp => {
                log.push(String::from("dispose"));
                Outcome::Success
            }
            RunStage::Done => break,
        };
        machine.advance(outcome);
    }
    log
}

#[test]
fn trivial_machine_run() {
    // {runs_on: machine, steps: [{commands: ["echo hi"]}], dispose: true}
    let pip = Pipeline {
        name: None,
        runs_on: RunsOn::Machine,
        environment: Vec::new(),
        variables: Vec::new(),
        artifacts: Vec::new(),
        steps: vec![BuildStep {
            name: None,
            working_dir: None,
            call: Vec::new(),
            commands: vec![String::from("echo hi")],
        }],
        dispose: true,
    };
    let runner = build_runner(pip, Vec::new());
    let mut machine = runner.run();
    let log = drive(&mut machine, vec![Outcome::Success]);
    assert_eq!(log[0], "persist_start");
    assert_eq!(log[1], "info");
    assert!(log[2].starts_with("work:"));
    assert!(log[2].contains("echo hi"));
    assert_eq!(log[3], "persist_end");
    assert_eq!(log[4], "dispose");
    assert_eq!(log.len(), 5);
    // the temp dir is removed at the root
    match runner.dispose() {
        Some(PlatformOp::RemoveTempDir { path }) => assert_eq!(path, ".bld/tmp/run-7"),
        other => panic!("unexpected dispose op: {:?}", other),
    }
}

#[test]
fn empty_steps_only_info_and_dispose() {
    let pip = Pipeline {
        name: Some(String::from("noop")),
        runs_on: RunsOn::Machine,
        environment: Vec::new(),
        variables: Vec::new(),
        artifacts: Vec::new(),
        steps: Vec::new(),
        dispose: true,
    };
    let runner = build_runner(pip, Vec::new());
    let info = runner.info();
    assert_eq!(info, vec!["[bld] Pipeline: noop", "[bld] Runs on: machine"]);
    let mut machine = runner.run();
    assert!(machine.plan.is_empty());
    let log = drive(&mut machine, Vec::new());
    assert_eq!(log, vec!["persist_start", "info", "persist_end", "dispose"]);
}

#[test]
fn pre_run_artifact_executes_without_steps() {
    // an artifact with after = None still runs before dispose even when
    // the pipeline has no steps
    let pip = Pipeline {
        name: None,
        runs_on: RunsOn::Machine,
        environment: Vec::new(),
        variables: Vec::new(),
        artifacts: vec![Artifact {
            method: Some(String::from("push")),
            from: Some(String::from("/tmp/a")),
            to: Some(String::from("in/a")),
            after: None,
            ignore_errors: false,
        }],
        steps: Vec::new(),
        dispose: true,
    };
    let runner = build_runner(pip, Vec::new());
    let mut machine = runner.run();
    assert_eq!(machine.plan.len(), 1);
    let log = drive(&mut machine, vec![Outcome::Success]);
    assert_eq!(log[0], "persist_start");
    assert_eq!(log[1], "info");
    assert!(log[2].starts_with("work:Transfer"));
    assert_eq!(log[3], "persist_end");
    assert_eq!(log[4], "dispose");
}

#[test]
fn artifact_after_named_step() {
    let pip = Pipeline {
        name: None,
        runs_on: RunsOn::Docker(String::from("ubuntu")),
        environment: Vec::new(),
        variables: Vec::new(),
        artifacts: vec![Artifact {
            method: Some(String::from("push")),
            from: Some(String::from("/tmp/a")),
            to: Some(String::from("/work/a")),
            after: Some(String::from("build")),
            ignore_errors: false,
        }],
        steps: vec![BuildStep {
            name: Some(String::from("build")),
            working_dir: None,
            call: Vec::new(),
            commands: vec![String::from("touch /tmp/a")],
        }],
        dispose: false,
    };
    let runner = build_runner(pip, Vec::new());
    let plan = runner.steps();
    assert_eq!(plan.len(), 3);
    assert_eq!(plan[0], WorkItem::StepName(String::from("build")));
    match &plan[1] {
        WorkItem::Shell { command, .. } => assert_eq!(command, "touch /tmp/a"),
        other => panic!("unexpected item: {:?}", other),
    }
    assert_eq!(
        plan[2],
        WorkItem::Transfer {
            push: true,
            from: String::from("/tmp/a"),
            to: String::from("/work/a"),
            ignore_errors: false,
        }
    );
}

#[test]
fn cancellation_mid_run_skips_later_steps_but_disposes() {
    // three steps; the stop signal is observed after the first command
    let step = |n: &str| BuildStep {
        name: Some(String::from(n)),
        working_dir: None,
        call: Vec::new(),
        commands: vec![String::from("sleep 5")],
    };
    let pip = Pipeline {
        name: None,
        runs_on: RunsOn::Machine,
        environment: Vec::new(),
        variables: Vec::new(),
        artifacts: Vec::new(),
        steps: vec![step("one"), step("two"), step("three")],
        dispose: true,
    };
    let runner = build_runner(pip, Vec::new());
    let mut machine = runner.run();
    // outcomes feed only the work items, in order: the name line of step
    // one succeeds, its command observes the cancellation
    let log = drive(&mut machine, vec![Outcome::Success, Outcome::Cancelled]);
    let works: Vec<&String> = log.iter().filter(|l| l.starts_with("work:")).collect();
    assert_eq!(works.len(), 2);
    assert!(works[1].contains("sleep 5"));
    assert!(log.contains(&String::from("log_error")));
    assert_eq!(log[log.len() - 2], "persist_end");
    assert_eq!(log[log.len() - 1], "dispose");
}

#[test]
fn failed_transfer_with_ignore_errors_continues() {
    let pip = Pipeline {
        name: None,
        runs_on: RunsOn::Machine,
        environment: Vec::new(),
        variables: Vec::new(),
        artifacts: vec![
            Artifact {
                method: Some(String::from("get")),
                from: Some(String::from("x")),
                to: Some(String::from("y")),
                after: None,
                ignore_errors: true,
            },
        ],
        steps: vec![BuildStep {
            name: Some(String::from("after")),
            working_dir: None,
            call: Vec::new(),
            commands: vec![String::from("echo after")],
        }],
        dispose: false,
    };
    let runner = build_runner(pip, Vec::new());
    let mut machine = runner.run();
    let log = drive(
        &mut machine,
        vec![Outcome::Failure, Outcome::Success, Outcome::Success],
    );
    let works: Vec<&String> = log.iter().filter(|l| l.starts_with("work:")).collect();
    assert_eq!(works.len(), 3);
    assert!(!log.contains(&String::from("log_error")));
}

#[test]
fn failed_shell_skips_rest_but_still_ends() {
    let pip = Pipeline {
        name: None,
        runs_on: RunsOn::Machine,
        environment: Vec::new(),
        variables: Vec::new(),
        artifacts: Vec::new(),
        steps: vec![BuildStep {
            name: None,
            working_dir: None,
            call: Vec::new(),
            commands: vec![String::from("false"), String::from("echo unreached")],
        }],
        dispose: false,
    };
    let runner = build_runner(pip, Vec::new());
    let mut machine = runner.run();
    let log = drive(&mut machine, vec![Outcome::Failure]);
    let works: Vec<&String> = log.iter().filter(|l| l.starts_with("work:")).collect();
    assert_eq!(works.len(), 1);
    assert!(log.contains(&String::from("log_error")));
    assert!(log.contains(&String::from("persist_end")));
    assert!(!log.contains(&String::from("dispose")));
}

#[test]
fn child_runner_inherits_context_and_gets_noop_executor() {
    // parent env {X: 1}; the step calls a child pipeline which uses ${env:X}
    let parent_pip = Pipeline {
        name: None,
        runs_on: RunsOn::Machine,
        environment: vec![Variable {
            name: String::from("X"),
            default_value: String::from("0"),
        }],
        variables: Vec::new(),
        artifacts: Vec::new(),
        steps: vec![BuildStep {
            name: None,
            working_dir: None,
            call: vec![String::from("child")],
            commands: Vec::new(),
        }],
        dispose: false,
    };
    let parent = build_runner(
        parent_pip,
        vec![Binding::new(String::from("X"), String::from("1"))],
    );
    let plan = parent.steps();
    assert_eq!(plan, vec![WorkItem::Child(String::from("child"))]);

    // the child declares nothing; it inherits the parent's resolved
    // environment unchanged
    let child_pip = Pipeline {
        name: None,
        runs_on: RunsOn::Machine,
        environment: Vec::new(),
        variables: Vec::new(),
        artifacts: Vec::new(),
        steps: vec![BuildStep {
            name: None,
            working_dir: None,
            call: Vec::new(),
            commands: vec![String::from("echo ${env:X}")],
        }],
        dispose: true,
    };
    let builder = parent.child_builder("child");
    assert_eq!(builder.execution, Some(ExecutorKind::NoOp));
    assert!(builder.is_child);
    let child = builder.config(test_config()).build(child_pip).expect("child build");
    assert_eq!(child.execution, ExecutorKind::NoOp);
    assert_eq!(child.ctx.run_id, parent.ctx.run_id);
    assert_eq!(child.ctx.run_start_time, parent.ctx.run_start_time);
    let child_plan = child.steps();
    match &child_plan[0] {
        WorkItem::Shell { command, .. } => assert_eq!(command, "echo 1"),
        other => panic!("unexpected item: {:?}", other),
    }
    // the child never removes the shared temp dir, dispose or not
    assert_eq!(child.dispose(), None);
}

#[test]
fn artifact_without_method_or_paths_is_skipped() {
    let pip = Pipeline {
        name: None,
        runs_on: RunsOn::Machine,
        environment: Vec::new(),
        variables: Vec::new(),
        artifacts: vec![
            Artifact {
                method: None,
                from: Some(String::from("a")),
                to: Some(String::from("b")),
                after: None,
                ignore_errors: false,
            },
            Artifact {
                method: Some(String::from("push")),
                from: None,
                to: Some(String::from("b")),
                after: None,
                ignore_errors: false,
            },
            Artifact {
                method: Some(String::from("copy")),
                from: Some(String::from("a")),
                to: Some(String::from("b")),
                after: None,
                ignore_errors: false,
            },
        ],
        steps: Vec::new(),
        dispose: false,
    };
    let runner = build_runner(pip, Vec::new());
    assert!(runner.steps().is_empty());
}

#[test]
fn builder_reports_first_missing_input() {
    let pip = || Pipeline {
        name: None,
        runs_on: RunsOn::Machine,
        environment: Vec::new(),
        variables: Vec::new(),
        artifacts: Vec::new(),
        steps: Vec::new(),
        dispose: false,
    };
    let err = RunnerBuilder::default().build(pip()).unwrap_err();
    assert_eq!(err, RunError::ConfigMissing(String::from("run id")));
    assert_eq!(err.as_text(), "no run id provided");

    let err = RunnerBuilder::default()
        .run_id("r")
        .build(pip())
        .unwrap_err();
    assert_eq!(err.as_text(), "no bld config instance provided");

    let err = RunnerBuilder::default()
        .run_id("r")
        .config(test_config())
        .logger(1)
        .proxy(1)
        .pipeline("p")
        .environment(Vec::new())
        .variables(Vec::new())
        .build(pip())
        .unwrap_err();
    assert_eq!(err.as_text(), "no run start time provided");

    let err = RunnerBuilder::default()
        .run_id("r")
        .config(test_config())
        .logger(1)
        .proxy(1)
        .pipeline("p")
        .environment(Vec::new())
        .variables(Vec::new())
        .run_start_time("now")
        .build(pip())
        .unwrap_err();
    assert_eq!(err.as_text(), "no executor instance provided");
}

#[test]
fn docker_pipeline_builds_container_platform() {
    let pip = Pipeline {
        name: Some(String::from("img-build")),
        runs_on: RunsOn::Docker(String::from("alpine")),
        environment: Vec::new(),
        variables: Vec::new(),
        artifacts: Vec::new(),
        steps: Vec::new(),
        dispose: true,
    };
    let runner = build_runner(pip, Vec::new());
    assert_eq!(
        runner.info(),
        vec!["[bld] Pipeline: img-build", "[bld] Runs on: docker [ alpine ]"]
    );
    assert_eq!(runner.dispose(), Some(PlatformOp::StopContainer));
}

#[test]
fn only_the_persistent_executor_updates_run_state() {
    assert!(ExecutorKind::Persistent.updates_run_state());
    assert!(!ExecutorKind::NoOp.updates_run_state());
}
