use bld::builder::{resolve, ExecutorKind, RunnerBuilder};
use bld::interp::{replace_str, RunContext};
use bld::pipeline::{BuildStep, Pipeline, RunsOn, Variable};
use bld::Binding;

fn empty_pipeline(runs_on: RunsOn) -> Pipeline {
    Pipeline {
        name: None,
        runs_on,
        environment: Vec::new(),
        variables: Vec::new(),
        artifacts: Vec::new(),
        steps: Vec::new(),
        dispose: false,
    }
}

fn ctx_with_env(env: Vec<(&str, &str)>, vars: Vec<(&str, &str)>) -> RunContext {
    RunContext {
        run_id: String::from("run-1"),
        run_start_time: String::from("2024-01-01 00:00:00"),
        env: env
            .into_iter()
            .map(|(n, v)| Binding::new(n.to_string(), v.to_string()))
            .collect(),
        vars: vars
            .into_iter()
            .map(|(n, v)| Binding::new(n.to_string(), v.to_string()))
            .collect(),
    }
}

#[test]
fn replace_is_literal_and_leftmost() {
    assert_eq!(replace_str("hello world", "world", "bld"), "hello bld");
    assert_eq!(replace_str("aaa", "aa", "b"), "ba");
    // the replacement text is not re-scanned, but a remainder may still
    // recombine with it, exactly as a single textual pass does
    assert_eq!(replace_str("aab", "ab", "b"), "ab");
    assert_eq!(replace_str("none here", "xyz", "q"), "none here");
}

#[test]
fn env_token_replaced_with_resolved_value() {
    let ctx = ctx_with_env(vec![("GREETING", "hi")], vec![]);
    let pip = empty_pipeline(RunsOn::Machine);
    let out = ctx.apply_context(&pip, "echo ${env:GREETING}");
    assert_eq!(out, "echo hi");
}

#[test]
fn var_token_replaced_with_resolved_value() {
    let ctx = ctx_with_env(vec![], vec![("TARGET", "release")]);
    let pip = empty_pipeline(RunsOn::Machine);
    let out = ctx.apply_context(&pip, "cargo build --${var:TARGET}");
    assert_eq!(out, "cargo build --release");
}

#[test]
fn run_property_tokens_replaced() {
    let ctx = ctx_with_env(vec![], vec![]);
    let pip = empty_pipeline(RunsOn::Machine);
    assert_eq!(ctx.apply_context(&pip, "id=${run:id}"), "id=run-1");
    assert_eq!(
        ctx.apply_context(&pip, "t=${run:start-time}"),
        "t=2024-01-01 00:00:00"
    );
}

#[test]
fn declared_default_is_fallback() {
    // a name declared in the pipeline but absent from the resolved
    // environment falls back to its declared default in the second sub-pass
    let ctx = ctx_with_env(vec![], vec![]);
    let mut pip = empty_pipeline(RunsOn::Machine);
    pip.environment.push(Variable {
        name: String::from("GREETING"),
        default_value: String::from("hello"),
    });
    let out = ctx.apply_context(&pip, "echo ${env:GREETING}");
    assert_eq!(out, "echo hello");
}

#[test]
fn string_without_tokens_is_fixed_point() {
    let ctx = ctx_with_env(vec![("A", "1")], vec![("B", "2")]);
    let mut pip = empty_pipeline(RunsOn::Machine);
    pip.environment.push(Variable {
        name: String::from("A"),
        default_value: String::from("0"),
    });
    let text = "make -j4 all && ./run.sh | tee log.txt";
    assert_eq!(ctx.apply_context(&pip, text), text);
}

#[test]
fn unresolved_token_stays_verbatim() {
    let ctx = ctx_with_env(vec![("A", "1")], vec![]);
    let pip = empty_pipeline(RunsOn::Machine);
    assert_eq!(
        ctx.apply_context(&pip, "echo ${env:UNKNOWN}"),
        "echo ${env:UNKNOWN}"
    );
}

#[test]
fn passes_run_in_fixed_order() {
    // run properties are substituted before the environment pass, so an
    // environment value may carry the run id
    let ctx = ctx_with_env(vec![("OUT", "logs-${run:id}")], vec![]);
    let pip = empty_pipeline(RunsOn::Machine);
    // the env value is inserted as-is: its token was already textual and
    // the env pass never re-scans, while the property pass already ran
    assert_eq!(
        ctx.apply_context(&pip, "cat ${env:OUT} @ ${run:id}"),
        "cat logs-${run:id} @ run-1"
    );
}

#[test]
fn resolve_overlays_supplied_onto_defaults() {
    let declared = vec![
        Variable {
            name: String::from("A"),
            default_value: String::from("da"),
        },
        Variable {
            name: String::from("B"),
            default_value: String::from("db"),
        },
    ];
    let supplied = vec![Binding::new(String::from("B"), String::from("vb"))];
    let resolved = resolve(&declared, &supplied);
    assert_eq!(resolved.len(), 2);
    assert_eq!(resolved[0].name, "A");
    assert_eq!(resolved[0].value, "da");
    assert_eq!(resolved[1].name, "B");
    assert_eq!(resolved[1].value, "vb");
}

#[test]
fn env_substitution_through_build() {
    // env [{name: GREETING, default: hello}], command `echo ${env:GREETING}`,
    // caller supplies {GREETING: hi}: the log line is `hi`
    let mut pip = empty_pipeline(RunsOn::Machine);
    pip.environment.push(Variable {
        name: String::from("GREETING"),
        default_value: String::from("hello"),
    });
    pip.steps.push(BuildStep {
        name: None,
        working_dir: None,
        call: Vec::new(),
        commands: vec![String::from("echo ${env:GREETING}")],
    });
    let runner = RunnerBuilder::default()
        .run_id("r1")
        .run_start_time("now")
        .config(test_config())
        .execution(ExecutorKind::Persistent)
        .logger(1)
        .proxy(1)
        .pipeline("greet")
        .receiver(None)
        .environment(vec![Binding::new(
            String::from("GREETING"),
            String::from("hi"),
        )])
        .variables(Vec::new())
        .build(pip)
        .expect("build");
    let plan = runner.steps();
    assert_eq!(plan.len(), 1);
    match &plan[0] {
        bld::runner::WorkItem::Shell {
            working_dir,
            command,
        } => {
            assert!(working_dir.is_none());
            assert_eq!(command, "echo hi");
        }
        other => panic!("unexpected item: {:?}", other),
    }
}

fn test_config() -> bld::config::BldConfig {
    bld::config::BldConfig {
        local: bld::config::BldLocalConfig {
            host: String::from("127.0.0.1"),
            port: 6080,
            logs: String::from("logs"),
        },
        remote: bld::config::BldRemoteConfig::default(),
    }
}

#[test]
fn unrecognized_brace_text_is_untouched() {
    let ctx = ctx_with_env(vec![("A", "1")], vec![("B", "2")]);
    let pip = empty_pipeline(RunsOn::Machine);
    assert_eq!(ctx.apply_context(&pip, "echo ${foo} $HOME {}"), "echo ${foo} $HOME {}");
}
