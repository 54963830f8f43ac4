//! The exec socket's decisions: what one client message leads to, when a
//! silent client is dropped, and how a run request is turned into a run.
//!
//! The WebSocket itself, the run record, the log file and the run thread
//! live in the embedding program; this module fixes the protocol decisions.
use crate::errors::RunError;
use crate::interp::pairs_view;
use crate::Binding;
use vstd::prelude::*;
use vstd::string::*;

verus! {

/// The one text frame a client sends: which pipeline to run and with what.
#[derive(Debug)]
pub struct ExecInfo {
    pub name: String,
    pub environment: Option<Vec<Binding>>,
    pub variables: Option<Vec<Binding>>,
}

/// Everything the embedding program needs to start a run for a client.
#[derive(Debug)]
pub struct ExecRequest {
    pub run_id: String,
    pub logs_path: String,
    pub name: String,
    pub environment: Vec<Binding>,
    pub variables: Vec<Binding>,
}

/// Relies on `uuid::Uuid::new_v4` and its `Display` impl: a fresh random
/// v4 identifier, printed in the 36-character hyphenated form. Nothing
/// more is assumed of the value: it is random.
#[verifier::external_body]
fn fresh_run_id() -> (r: String)
    ensures
        r@.len() == 36,
{
    uuid::Uuid::new_v4().to_string()
}

/// Turns a client's parsed request into a run to start: rejects a name
/// that did not resolve to a pipeline file, mints the run id, places the
/// log file under the logs directory, and defaults the environment and
/// variables to empty.
pub fn plan_exec(info: ExecInfo, path_is_yaml: bool, logs_dir: &str) -> (r: Result<
    ExecRequest,
    RunError,
>)
    ensures
        r is Ok <==> path_is_yaml,
        r matches Result::Err(e) ==> e is PipelineNotFound,
        r matches Result::Ok(req) ==> ({
            &&& req.run_id@.len() == 36
            &&& req.logs_path@ == logs_dir@ + "/"@ + req.run_id@
            &&& req.name@ == info.name@
            &&& pairs_view(req.environment@) == (match info.environment {
                Option::Some(e) => pairs_view(e@),
                Option::None => Seq::<(Seq<char>, Seq<char>)>::empty(),
            })
            &&& pairs_view(req.variables@) == (match info.variables {
                Option::Some(v) => pairs_view(v@),
                Option::None => Seq::<(Seq<char>, Seq<char>)>::empty(),
            })
        }),
{
    if !path_is_yaml {
        return Result::Err(RunError::PipelineNotFound);
    }
    let run_id = fresh_run_id();
    let logs_path = crate::platform::path_join(logs_dir, run_id.as_str());
    let environment = match info.environment {
        Option::Some(e) => e,
        Option::None => {
            let e: Vec<Binding> = Vec::new();
            proof {
                assert(pairs_view(e@) =~= Seq::<(Seq<char>, Seq<char>)>::empty());
            }
            e
        },
    };
    let variables = match info.variables {
        Option::Some(v) => v,
        Option::None => {
            let v: Vec<Binding> = Vec::new();
            proof {
                assert(pairs_view(v@) =~= Seq::<(Seq<char>, Seq<char>)>::empty());
            }
            v
        },
    };
    Result::Ok(ExecRequest { run_id, logs_path, name: info.name, environment, variables })
}

/// The exec socket serves only authenticated clients: a request without
/// a user is turned away before anything is run.
pub fn authorize(user: Option<String>) -> (r: Result<String, RunError>)
    ensures
        user matches Option::Some(u) ==> (r matches Result::Ok(s) && s@ == u@),
        user is None ==> (r matches Result::Err(e) && e is Auth),
{
    match user {
        Option::Some(u) => Result::Ok(u),
        Option::None => Result::Err(RunError::Auth),
    }
}

/// A client is dropped after ten silent seconds.
pub fn heartbeat_expired(now_ms: u64, last_heartbeat_ms: u64) -> (r: bool)
    ensures
        r == (now_ms >= last_heartbeat_ms && now_ms - last_heartbeat_ms > 10000),
{
    now_ms >= last_heartbeat_ms && now_ms - last_heartbeat_ms > 10000
}

/// One incoming WebSocket frame, reduced to what the decision needs.
#[derive(Debug, Clone)]
pub enum WsMessage {
    /// A text frame: the run request.
    Text(String),
    /// A ping; carries nothing the decision needs.
    Ping,
    /// A pong answering our ping.
    Pong,
    /// The client closed.
    Close,
    /// Anything else.
    Other,
}

/// What the socket does with one frame.
#[derive(Debug, Clone, PartialEq, Eq)]
pub enum WsReaction {
    /// Parse the text as a run request and spawn the run.
    StartRun(String),
    /// Refresh the heartbeat and answer with a pong.
    RefreshAndPong,
    /// Refresh the heartbeat.
    Refresh,
    /// Close the socket, then stop the actor.
    CloseAndStop,
    /// Stop the actor.
    Stop,
}

/// The socket's reaction to one frame: text starts a run, ping and pong
/// refresh the heartbeat (ping also answers), close closes, anything else
/// stops the actor.
pub fn socket_reaction(msg: WsMessage) -> (r: WsReaction)
    ensures
        msg matches WsMessage::Text(t) ==> (r matches WsReaction::StartRun(u) && u@ == t@),
        msg is Ping ==> r is RefreshAndPong,
        msg is Pong ==> r is Refresh,
        msg is Close ==> r is CloseAndStop,
        msg is Other ==> r is Stop,
{
    match msg {
        WsMessage::Text(t) => WsReaction::StartRun(t),
        WsMessage::Ping => WsReaction::RefreshAndPong,
        WsMessage::Pong => WsReaction::Refresh,
        WsMessage::Close => WsReaction::CloseAndStop,
        WsMessage::Other => WsReaction::Stop,
    }
}

/// The ten-second check: the socket stops once the run reports not
/// running; a live run keeps it open.
pub fn idle_check(executor_running: Option<bool>) -> (stop: bool)
    ensures
        stop == (executor_running == Option::Some(false)),
{
    match executor_running {
        Option::Some(running) => !running,
        Option::None => false,
    }
}

} // verus!
