use bld::commands::{
    i64_text, parse_i64, remove_url, resolve_auth, resolve_host_port, u64_text, BldCommand,
    RemoveCommand,
};
use bld::config::{BldConfig, BldLocalConfig, BldRemoteConfig, BldServerConfig};
use bld::errors::RunError;
use bld::platform::{Container, Machine, PlatformOp, RunPlatform, TargetPlatform};
use bld::socket::{heartbeat_expired, idle_check, plan_exec, socket_reaction, ExecInfo, WsMessage, WsReaction};
use bld::Binding;

fn server(name: &str, same_auth_as: Option<&str>) -> BldServerConfig {
    BldServerConfig {
        name: String::from(name),
        host: String::from("10.0.0.1"),
        port: 6080,
        auth: Some(format!("{}-auth", name)),
        same_auth_as: same_auth_as.map(String::from),
    }
}

fn config(servers: Vec<BldServerConfig>) -> BldConfig {
    BldConfig {
        local: BldLocalConfig {
            host: String::from("127.0.0.1"),
            port: 6080,
            logs: String::from("logs"),
        },
        remote: BldRemoteConfig { servers },
    }
}

#[test]
fn plan_exec_accepts_a_pipeline_file() {
    let info = ExecInfo {
        name: String::from("deploy"),
        environment: Some(vec![Binding::new(String::from("A"), String::from("1"))]),
        variables: None,
    };
    let req = plan_exec(info, true, "logs").expect("planned");
    assert_eq!(req.run_id.len(), 36);
    assert_eq!(req.logs_path, format!("logs/{}", req.run_id));
    assert_eq!(req.name, "deploy");
    assert_eq!(req.environment.len(), 1);
    assert!(req.variables.is_empty());
}

#[test]
fn plan_exec_rejects_a_missing_pipeline() {
    let info = ExecInfo {
        name: String::from("ghost"),
        environment: None,
        variables: None,
    };
    let err = plan_exec(info, false, "logs").unwrap_err();
    assert_eq!(err, RunError::PipelineNotFound);
    assert_eq!(err.as_text(), "pipeline file not found");
}

#[test]
fn run_ids_are_fresh_per_request() {
    let info = |n: &str| ExecInfo {
        name: String::from(n),
        environment: None,
        variables: None,
    };
    let a = plan_exec(info("a"), true, "logs").unwrap();
    let b = plan_exec(info("b"), true, "logs").unwrap();
    assert_ne!(a.run_id, b.run_id);
}

#[test]
fn heartbeat_expires_after_ten_seconds() {
    assert!(!heartbeat_expired(5_000, 0));
    assert!(!heartbeat_expired(10_000, 0));
    assert!(heartbeat_expired(10_001, 0));
    assert!(!heartbeat_expired(0, 5_000));
}

#[test]
fn socket_reactions_follow_the_protocol() {
    match socket_reaction(WsMessage::Text(String::from("{\"name\":\"p\"}"))) {
        WsReaction::StartRun(t) => assert_eq!(t, "{\"name\":\"p\"}"),
        other => panic!("unexpected reaction: {:?}", other),
    }
    assert_eq!(socket_reaction(WsMessage::Ping), WsReaction::RefreshAndPong);
    assert_eq!(socket_reaction(WsMessage::Pong), WsReaction::Refresh);
    assert_eq!(socket_reaction(WsMessage::Close), WsReaction::CloseAndStop);
    assert_eq!(socket_reaction(WsMessage::Other), WsReaction::Stop);
}

#[test]
fn socket_stops_once_the_run_reports_not_running() {
    assert!(!idle_check(None));
    assert!(!idle_check(Some(true)));
    assert!(idle_check(Some(false)));
}

#[test]
fn integer_text_round_trip() {
    assert_eq!(u64_text(0), "0");
    assert_eq!(u64_text(42), "42");
    assert_eq!(u64_text(18446744073709551615), "18446744073709551615");
    assert_eq!(i64_text(-7), "-7");
    assert_eq!(i64_text(6080), "6080");
    assert_eq!(i64_text(i64::MIN), "-9223372036854775808");
    assert_eq!(parse_i64("6080"), Some(6080));
    assert_eq!(parse_i64("-9223372036854775808"), Some(i64::MIN));
    assert_eq!(parse_i64("9223372036854775807"), Some(i64::MAX));
    assert_eq!(parse_i64("9223372036854775808"), None);
    assert_eq!(parse_i64(""), None);
    assert_eq!(parse_i64("-"), None);
    assert_eq!(parse_i64("12a"), None);
    assert_eq!(parse_i64("080"), Some(80));
}

#[test]
fn remove_url_is_exact() {
    assert_eq!(remove_url("10.0.0.1", 6080), "http://10.0.0.1:6080/remove");
}

#[test]
fn host_and_port_arguments_win_when_valid() {
    let cfg = config(Vec::new());
    let (h, p) = resolve_host_port(None, None, &cfg);
    assert_eq!((h.as_str(), p), ("127.0.0.1", 6080));
    let (h, p) = resolve_host_port(Some(String::from("0.0.0.0")), Some(String::from("9000")), &cfg);
    assert_eq!((h.as_str(), p), ("0.0.0.0", 9000));
    let (_, p) = resolve_host_port(None, Some(String::from("no-port")), &cfg);
    assert_eq!(p, 6080);
}

#[test]
fn server_selection_and_auth_resolution() {
    let cfg = config(vec![server("alpha", None), server("beta", Some("alpha"))]);
    let first = cfg.remote.server_or_first(&None).expect("first");
    assert_eq!(first.name, "alpha");
    let beta = cfg
        .remote
        .server_or_first(&Some(String::from("beta")))
        .expect("beta");
    assert_eq!(beta.name, "beta");
    assert!(cfg
        .remote
        .server_or_first(&Some(String::from("gamma")))
        .is_err());

    // beta borrows alpha's credentials
    let (name, auth) = resolve_auth(&cfg.remote, beta).expect("auth");
    assert_eq!(name, "alpha");
    assert_eq!(auth.as_deref(), Some("alpha-auth"));

    // a dangling same_auth_as is an authentication error
    let dangling = server("gamma", Some("missing"));
    assert_eq!(resolve_auth(&cfg.remote, &dangling).unwrap_err(), RunError::Auth);
}

#[test]
fn default_remote_config_is_empty() {
    assert!(BldRemoteConfig::default().servers.is_empty());
}

#[test]
fn remove_command_identifies_itself() {
    let cmd = RemoveCommand::boxed();
    assert_eq!(cmd.id(), "rm");
}

#[test]
fn platform_operations_are_descriptive() {
    let machine = TargetPlatform::Machine(Box::new(Machine {
        temp_dir: String::from(".bld/tmp/r1"),
    }));
    assert_eq!(
        machine.push("src.txt", "dst.txt"),
        PlatformOp::HostCopy {
            from: String::from("src.txt"),
            to: String::from(".bld/tmp/r1/dst.txt"),
        }
    );
    assert_eq!(
        machine.get("dst.txt", "back.txt"),
        PlatformOp::HostCopy {
            from: String::from(".bld/tmp/r1/dst.txt"),
            to: String::from("back.txt"),
        }
    );
    assert_eq!(
        machine.shell(&None, "make"),
        PlatformOp::HostShell {
            dir: String::from(".bld/tmp/r1"),
            command: String::from("make"),
        }
    );
    // a child runner never removes the shared temp dir
    assert_eq!(machine.dispose(true), None);
    assert_eq!(
        machine.dispose(false),
        Some(PlatformOp::RemoveTempDir {
            path: String::from(".bld/tmp/r1"),
        })
    );

    let container = TargetPlatform::Container(Box::new(Container {
        image: String::from("alpine"),
        id: Some(String::from("c-1")),
    }));
    assert_eq!(
        container.push("a", "b"),
        PlatformOp::ContainerCopy {
            into: true,
            from: String::from("a"),
            to: String::from("b"),
        }
    );
    assert_eq!(container.dispose(true), Some(PlatformOp::StopContainer));
}

#[test]
fn run_platform_display_text() {
    let local = RunPlatform::Local(Machine {
        temp_dir: String::from("t"),
    });
    assert_eq!(local.display_string(), "machine");
    let docker = RunPlatform::Docker(Container {
        image: String::from("ubuntu:22.04"),
        id: None,
    });
    assert_eq!(docker.display_string(), "docker [ ubuntu:22.04 ]");
}

#[test]
fn error_texts_name_the_failure() {
    assert_eq!(
        RunError::ConfigMissing(String::from("logger instance")).as_text(),
        "no logger instance provided"
    );
    assert_eq!(RunError::Cancelled.as_text(), "run cancelled");
    assert_eq!(RunError::ShellFailure.as_text(), "command execution failed");
    assert_eq!(RunError::TransferFailure.as_text(), "artifact transfer failed");
    assert_eq!(RunError::IpcProtocol.as_text(), "malformed supervisor message");
    assert_eq!(RunError::Auth.as_text(), "no authenticated user");
    assert_eq!(RunError::PipelineParse.as_text(), "malformed pipeline");
    assert_eq!(
        RunError::PlatformInit.as_text(),
        "could not initialize the platform"
    );
}

#[test]
fn socket_requires_an_authenticated_user() {
    assert_eq!(
        bld::socket::authorize(Some(String::from("admin"))),
        Ok(String::from("admin"))
    );
    assert_eq!(bld::socket::authorize(None), Err(RunError::Auth));
}
