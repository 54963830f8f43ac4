//! The worker supervisor: a FIFO queue of worker processes under a
//! concurrency cap, fed by length-delimited IPC messages.
//!
//! Spawning and reaping the processes is the embedding program's work; this
//! module owns the queue discipline: at most `capacity` workers run at any
//! time, later arrivals wait in order, and a freed slot goes to the head of
//! the queue.
use crate::pipeline::{opt_view, strs_view};
use vstd::prelude::*;
use vstd::string::*;

verus! {

/// The lifecycle of one worker: `Queued → Running → (Exited | Failed)`.
#[derive(Clone, Copy, PartialEq, Eq, Structural, Debug)]
pub enum WorkerState {
    Queued,
    Running,
    Exited,
    Failed,
}

/// One worker process descriptor: what to run and where it stands.
#[derive(Debug, Clone)]
pub struct PipelineWorker {
    pub pipeline: String,
    pub run_id: String,
    pub args: Vec<String>,
    pub state: WorkerState,
}

/// Mathematical model of a worker descriptor.
pub struct WorkerView {
    pub pipeline: Seq<char>,
    pub run_id: Seq<char>,
    pub args: Seq<Seq<char>>,
    pub state: WorkerState,
}

impl View for PipelineWorker {
    type V = WorkerView;

    open spec fn view(&self) -> WorkerView {
        WorkerView {
            pipeline: self.pipeline@,
            run_id: self.run_id@,
            args: strs_view(self.args@),
            state: self.state,
        }
    }
}

/// The model of a list of workers.
pub open spec fn workers_view(v: Seq<PipelineWorker>) -> Seq<WorkerView> {
    v.map(|i: int, w: PipelineWorker| w@)
}

/// How many of the workers are running.
pub open spec fn spec_running_count(ws: Seq<WorkerView>) -> int
    decreases ws.len(),
{
    if ws.len() == 0 {
        0
    } else {
        spec_running_count(ws.drop_last()) + if ws.last().state is Running {
            1int
        } else {
            0int
        }
    }
}

/// How many of the workers are waiting.
pub open spec fn spec_queued_count(ws: Seq<WorkerView>) -> int
    decreases ws.len(),
{
    if ws.len() == 0 {
        0
    } else {
        spec_queued_count(ws.drop_last()) + if ws.last().state is Queued {
            1int
        } else {
            0int
        }
    }
}

/// Counting is unchanged outside an updated position.
proof fn lemma_count_update(ws: Seq<WorkerView>, i: int, w: WorkerView)
    requires
        0 <= i < ws.len(),
    ensures
        spec_running_count(ws.update(i, w)) == spec_running_count(ws) - (
        if ws[i].state is Running {
            1int
        } else {
            0int
        }) + (
        if w.state is Running {
            1int
        } else {
            0int
        }),
    decreases ws.len(),
{
    if ws.len() > 0 {
        if i == ws.len() - 1 {
            assert(ws.update(i, w).drop_last() =~= ws.drop_last());
            assert(ws.update(i, w).last() == w);
        } else {
            assert(ws.update(i, w).drop_last() =~= ws.drop_last().update(i, w));
            assert(ws.update(i, w).last() == ws.last());
            lemma_count_update(ws.drop_last(), i, w);
        }
    }
}

/// Appending one worker adds its state to the counts.
proof fn lemma_count_push(ws: Seq<WorkerView>, w: WorkerView)
    ensures
        spec_running_count(ws.push(w)) == spec_running_count(ws) + (
        if w.state is Running {
            1int
        } else {
            0int
        }),
        spec_queued_count(ws.push(w)) == spec_queued_count(ws) + (
        if w.state is Queued {
            1int
        } else {
            0int
        }),
{
    assert(ws.push(w).drop_last() =~= ws);
    assert(ws.push(w).last() == w);
}

/// The first running worker with this run id, if any.
pub open spec fn spec_find_running(ws: Seq<WorkerView>, id: Seq<char>) -> Option<int>
    decreases ws.len(),
{
    if ws.len() == 0 {
        Option::None
    } else if ws[0].state is Running && ws[0].run_id == id {
        Option::Some(0)
    } else {
        match spec_find_running(ws.skip(1), id) {
            Option::Some(i) => Option::Some(i + 1),
            Option::None => Option::None,
        }
    }
}

/// The head of the waiting queue: the first queued worker, if any.
pub open spec fn spec_first_queued(ws: Seq<WorkerView>) -> Option<int>
    decreases ws.len(),
{
    if ws.len() == 0 {
        Option::None
    } else if ws[0].state is Queued {
        Option::Some(0)
    } else {
        match spec_first_queued(ws.skip(1)) {
            Option::Some(i) => Option::Some(i + 1),
            Option::None => Option::None,
        }
    }
}

/// A found index points at what was searched for, for both searches.
proof fn lemma_found_index_facts(ws: Seq<WorkerView>, id: Seq<char>)
    ensures
        spec_find_running(ws, id) matches Option::Some(i) ==> (0 <= i < ws.len() && ws[i].state
            is Running && ws[i].run_id == id),
        spec_first_queued(ws) matches Option::Some(i) ==> (0 <= i < ws.len() && ws[i].state
            is Queued),
    decreases ws.len(),
{
    if ws.len() > 0 {
        lemma_found_index_facts(ws.skip(1), id);
    }
}

/// The bounded worker queue of the supervisor.
pub struct WorkerQueue {
    pub capacity: usize,
    pub workers: Vec<PipelineWorker>,
}

impl WorkerQueue {
    /// The cap is respected: never more running workers than the capacity.
    pub open spec fn wf(&self) -> bool {
        spec_running_count(workers_view(self.workers@)) <= self.capacity
    }

    /// An empty queue with the given concurrency cap.
    pub fn new(capacity: usize) -> (r: Self)
        ensures
            r.capacity == capacity,
            r.workers@.len() == 0,
            r.wf(),
    {
        let r = WorkerQueue { capacity, workers: Vec::new() };
        proof {
            assert(workers_view(r.workers@) =~= Seq::<WorkerView>::empty());
        }
        r
    }

    /// How many workers are waiting and how many are running.
    pub fn monitor(&self) -> (r: (usize, usize))
        requires
            self.wf(),
        ensures
            r.0 == spec_queued_count(workers_view(self.workers@)),
            r.1 == spec_running_count(workers_view(self.workers@)),
    {
        let ghost all = workers_view(self.workers@);
        let n = self.workers.len();
        let mut queued: usize = 0;
        let mut running: usize = 0;
        let mut i: usize = 0;
        proof {
            assert(all.take(0) =~= Seq::<WorkerView>::empty());
        }
        while i < n
            invariant
                n == self.workers@.len(),
                all == workers_view(self.workers@),
                i <= n,
                queued == spec_queued_count(all.take(i as int)),
                running == spec_running_count(all.take(i as int)),
                queued + running <= i,
            decreases n - i,
        {
            proof {
                assert(all.take(i + 1).drop_last() =~= all.take(i as int));
                assert(all.take(i + 1).last() == all[i as int]);
            }
            match self.workers[i].state {
                WorkerState::Queued => {
                    queued += 1;
                },
                WorkerState::Running => {
                    running += 1;
                },
                _ => {},
            }
            i += 1;
        }
        proof {
            assert(all.take(n as int) =~= all);
        }
        (queued, running)
    }

    /// Accepts a new worker: it starts running at once when a slot is
    /// open, and otherwise waits in the queue in arrival order.
    pub fn enqueue(&mut self, w: PipelineWorker) -> (started: bool)
        requires
            old(self).wf(),
            w.state is Queued,
        ensures
            final(self).wf(),
            final(self).capacity == old(self).capacity,
            final(self).workers@.len() == old(self).workers@.len() + 1,
            forall|i: int|
                0 <= i < old(self).workers@.len() ==> final(self).workers@[i]
                    == old(self).workers@[i],
            started == (spec_running_count(workers_view(old(self).workers@)) < old(self).capacity),
            final(self).workers@.last()@ == (WorkerView {
                state: if started {
                    WorkerState::Running
                } else {
                    WorkerState::Queued
                },
                ..w@
            }),
    {
        let (_, running) = self.monitor();
        let started = running < self.capacity;
        let ghost oldws = workers_view(self.workers@);
        let worker = if started {
            PipelineWorker { state: WorkerState::Running, ..w }
        } else {
            w
        };
        proof {
            lemma_count_push(oldws, worker@);
        }
        self.workers.push(worker);
        proof {
            assert(workers_view(self.workers@) =~= oldws.push(worker@));
        }
        started
    }

    /// Marks the running worker with this run id as exited or failed, and
    /// promotes the head of the waiting queue into the freed slot. An
    /// unknown or not-running id changes nothing.
    pub fn ack(&mut self, run_id: &str, failed: bool) -> (promoted: bool)
        requires
            old(self).wf(),
        ensures
            final(self).wf(),
            final(self).capacity == old(self).capacity,
            final(self).workers@.len() == old(self).workers@.len(),
            spec_find_running(workers_view(old(self).workers@), run_id@) is None ==> (*final(self)
                == *old(self) && !promoted),
            spec_find_running(workers_view(old(self).workers@), run_id@) matches Option::Some(i)
                ==> ({
                let done = workers_view(old(self).workers@).update(
                    i,
                    WorkerView {
                        state: if failed {
                            WorkerState::Failed
                        } else {
                            WorkerState::Exited
                        },
                        ..workers_view(old(self).workers@)[i]
                    },
                );
                match spec_first_queued(done) {
                    Option::Some(j) => promoted && workers_view(final(self).workers@) == done.update(
                        j,
                        WorkerView { state: WorkerState::Running, ..done[j] },
                    ),
                    Option::None => !promoted && workers_view(final(self).workers@) == done,
                }
            }),
    {
        let ghost oldws = workers_view(self.workers@);
        proof {
            lemma_found_index_facts(oldws, run_id@);
        }
        let found = self.find_running(run_id);
        let i = match found {
            Option::Some(i) => i,
            Option::None => {
                return false;
            },
        };
        let next_state = if failed {
            WorkerState::Failed
        } else {
            WorkerState::Exited
        };
        self.set_state(i, next_state);
        let ghost done = workers_view(self.workers@);
        proof {
            lemma_count_update(
                oldws,
                i as int,
                WorkerView { state: next_state, ..oldws[i as int] },
            );
            lemma_found_index_facts(done, run_id@);
        }
        let head = self.first_queued();
        match head {
            Option::Some(j) => {
                self.set_state(j, WorkerState::Running);
                proof {
                    lemma_count_update(
                        done,
                        j as int,
                        WorkerView { state: WorkerState::Running, ..done[j as int] },
                    );
                }
                true
            },
            Option::None => false,
        }
    }

    /// The index of the first running worker with this run id.
    fn find_running(&self, run_id: &str) -> (r: Option<usize>)
        ensures
            r matches Option::Some(i) ==> spec_find_running(workers_view(self.workers@), run_id@)
                == Option::Some(i as int),
            r is None ==> spec_find_running(workers_view(self.workers@), run_id@) is None,
    {
        let ghost all = workers_view(self.workers@);
        let n = self.workers.len();
        let mut i: usize = 0;
        proof {
            assert(all.skip(0) =~= all);
        }
        while i < n
            invariant
                n == self.workers@.len(),
                all == workers_view(self.workers@),
                i <= n,
                spec_find_running(all, run_id@) == (match spec_find_running(
                    all.skip(i as int),
                    run_id@,
                ) {
                    Option::Some(k) => Option::Some(k + i),
                    Option::None => Option::<int>::None,
                }),
            decreases n - i,
        {
            proof {
                assert(all.skip(i as int)[0] == all[i as int]);
                assert(all.skip(i as int).skip(1) =~= all.skip(i + 1));
            }
            let is_running = match self.workers[i].state {
                WorkerState::Running => true,
                _ => false,
            };
            if is_running && crate::pipeline::str_eq(self.workers[i].run_id.as_str(), run_id) {
                return Option::Some(i);
            }
            i += 1;
        }
        proof {
            assert(all.skip(n as int) =~= Seq::<WorkerView>::empty());
        }
        Option::None
    }

    /// The index of the first queued worker.
    fn first_queued(&self) -> (r: Option<usize>)
        ensures
            r matches Option::Some(i) ==> spec_first_queued(workers_view(self.workers@))
                == Option::Some(i as int),
            r is None ==> spec_first_queued(workers_view(self.workers@)) is None,
    {
        let ghost all = workers_view(self.workers@);
        let n = self.workers.len();
        let mut i: usize = 0;
        proof {
            assert(all.skip(0) =~= all);
        }
        while i < n
            invariant
                n == self.workers@.len(),
                all == workers_view(self.workers@),
                i <= n,
                spec_first_queued(all) == (match spec_first_queued(all.skip(i as int)) {
                    Option::Some(k) => Option::Some(k + i),
                    Option::None => Option::<int>::None,
                }),
            decreases n - i,
        {
            proof {
                assert(all.skip(i as int)[0] == all[i as int]);
                assert(all.skip(i as int).skip(1) =~= all.skip(i + 1));
            }
            let is_queued = match self.workers[i].state {
                WorkerState::Queued => true,
                _ => false,
            };
            if is_queued {
                return Option::Some(i);
            }
            i += 1;
        }
        proof {
            assert(all.skip(n as int) =~= Seq::<WorkerView>::empty());
        }
        Option::None
    }

    /// Rewrites the state of the worker at `i`.
    fn set_state(&mut self, i: usize, state: WorkerState)
        requires
            i < old(self).workers@.len(),
        ensures
            final(self).capacity == old(self).capacity,
            workers_view(final(self).workers@) == workers_view(old(self).workers@).update(
                i as int,
                WorkerView { state, ..workers_view(old(self).workers@)[i as int] },
            ),
    {
        let ghost oldws = workers_view(self.workers@);
        let w = self.workers.remove(i);
        let w2 = PipelineWorker { state, ..w };
        self.workers.insert(i, w2);
        proof {
            assert(workers_view(self.workers@) =~= oldws.update(
                i as int,
                WorkerView { state, ..oldws[i as int] },
            ));
        }
    }
}

/// The command-line arguments the supervisor re-invokes itself with for
/// one enqueued pipeline.
pub open spec fn spec_worker_args(
    pipeline: Seq<char>,
    run_id: Seq<char>,
    variables: Option<Seq<char>>,
    environment: Option<Seq<char>>,
) -> Seq<Seq<char>> {
    seq!["worker"@, "--pipeline"@, pipeline, "--run-id"@, run_id] + (match variables {
        Option::Some(v) => seq!["--variables"@, v],
        Option::None => Seq::<Seq<char>>::empty(),
    }) + (match environment {
        Option::Some(e) => seq!["--environment"@, e],
        Option::None => Seq::<Seq<char>>::empty(),
    })
}

/// Builds the worker invocation arguments for one enqueue message.
pub fn worker_args(
    pipeline: &str,
    run_id: &str,
    variables: &Option<String>,
    environment: &Option<String>,
) -> (r: Vec<String>)
    ensures
        strs_view(r@) == spec_worker_args(
            pipeline@,
            run_id@,
            opt_view(*variables),
            opt_view(*environment),
        ),
{
    let mut r: Vec<String> = Vec::new();
    r.push(String::from_str("worker"));
    r.push(String::from_str("--pipeline"));
    r.push(String::from_str(pipeline));
    r.push(String::from_str("--run-id"));
    r.push(String::from_str(run_id));
    match variables {
        Option::Some(v) => {
            r.push(String::from_str("--variables"));
            r.push(v.clone());
        },
        Option::None => {},
    }
    match environment {
        Option::Some(e) => {
            r.push(String::from_str("--environment"));
            r.push(e.clone());
        },
        Option::None => {},
    }
    proof {
        assert(strs_view(r@) =~= spec_worker_args(
            pipeline@,
            run_id@,
            opt_view(*variables),
            opt_view(*environment),
        ));
    }
    r
}

/// A message of the supervisor's IPC socket.
#[derive(Debug, Clone)]
pub enum UnixSocketMessage {
    /// Enqueue a worker for this pipeline run.
    ServerEnqueue {
        pipeline: String,
        run_id: String,
        variables: Option<String>,
        environment: Option<String>,
    },
    /// A worker finished; its slot is free.
    WorkerAck { run_id: String },
    /// Ask for the queue depth and the running workers.
    Monitor,
}

/// The liveness of one IPC peer.
#[derive(Clone, Copy, PartialEq, Eq, Structural, Debug)]
pub enum UnixSocketConnectionState {
    Active,
    Stopped,
}

/// The supervisor's view of one connected IPC peer.
pub struct UnixSocketServerReader {
    pub state: UnixSocketConnectionState,
}

impl UnixSocketServerReader {
    /// A freshly accepted peer, active until it is seen dead.
    pub fn new() -> (r: Self)
        ensures
            r.state == UnixSocketConnectionState::Active,
    {
        UnixSocketServerReader { state: UnixSocketConnectionState::Active }
    }

    /// Records the peer's liveness.
    pub fn set_state(&mut self, state: UnixSocketConnectionState)
        ensures
            final(self).state == state,
    {
        self.state = state;
    }

    /// The peer's recorded liveness.
    pub fn get_state(&self) -> (r: UnixSocketConnectionState)
        ensures
            r == self.state,
    {
        self.state
    }

    /// Whether this peer's messages are to be discarded.
    pub fn has_stopped(&self) -> (r: bool)
        ensures
            r == (self.state is Stopped),
    {
        match self.state {
            UnixSocketConnectionState::Stopped => true,
            _ => false,
        }
    }

    /// Handles one batch of messages from this peer: every enqueue message
    /// becomes a worker descriptor carrying the worker-subcommand argument
    /// list, appended to the queue; other messages are left to their own
    /// handlers.
    pub fn handle(&self, queue: &mut WorkerQueue, messages: &Vec<UnixSocketMessage>)
        requires
            old(queue).wf(),
        ensures
            final(queue).wf(),
            final(queue).capacity == old(queue).capacity,
            workers_view(final(queue).workers@) == spec_handle(
                workers_view(old(queue).workers@),
                old(queue).capacity as int,
                messages@,
            ),
    {
        let ghost oldws = workers_view(queue.workers@);
        let ghost cap = queue.capacity as int;
        let n = messages.len();
        let mut i: usize = 0;
        proof {
            assert(messages@.skip(0) =~= messages@);
        }
        while i < n
            invariant
                n == messages@.len(),
                i <= n,
                queue.wf(),
                queue.capacity == old(queue).capacity,
                cap == old(queue).capacity as int,
                oldws == workers_view(old(queue).workers@),
                spec_handle(oldws, cap, messages@) == spec_handle(
                    workers_view(queue.workers@),
                    cap,
                    messages@.skip(i as int),
                ),
            decreases n - i,
        {
            proof {
                assert(messages@.skip(i as int)[0] == messages@[i as int]);
                assert(messages@.skip(i as int).skip(1) =~= messages@.skip(i + 1));
            }
            let ghost before = workers_view(queue.workers@);
            match &messages[i] {
                UnixSocketMessage::ServerEnqueue { pipeline, run_id, variables, environment } => {
                    let args = worker_args(
                        pipeline.as_str(),
                        run_id.as_str(),
                        variables,
                        environment,
                    );
                    let worker = PipelineWorker {
                        pipeline: pipeline.clone(),
                        run_id: run_id.clone(),
                        args,
                        state: WorkerState::Queued,
                    };
                    queue.enqueue(worker);
                    proof {
                        assert(workers_view(queue.workers@) =~= spec_enqueue_step(
                            before,
                            cap,
                            messages@[i as int],
                        ));
                    }
                },
                _ => {},
            }
            i += 1;
        }
        proof {
            assert(messages@.skip(n as int) =~= Seq::<UnixSocketMessage>::empty());
        }
    }
}

/// What one message does to the queue: an enqueue message appends its
/// worker, running at once when a slot is open; anything else is not this
/// handler's business.
pub open spec fn spec_enqueue_step(
    ws: Seq<WorkerView>,
    cap: int,
    m: UnixSocketMessage,
) -> Seq<WorkerView> {
    match m {
        UnixSocketMessage::ServerEnqueue { pipeline, run_id, variables, environment } => ws.push(
            WorkerView {
                pipeline: pipeline@,
                run_id: run_id@,
                args: spec_worker_args(pipeline@, run_id@, opt_view(variables), opt_view(environment)),
                state: if spec_running_count(ws) < cap {
                    WorkerState::Running
                } else {
                    WorkerState::Queued
                },
            },
        ),
        _ => ws,
    }
}

/// The queue after one batch of messages, in order.
pub open spec fn spec_handle(
    ws: Seq<WorkerView>,
    cap: int,
    msgs: Seq<UnixSocketMessage>,
) -> Seq<WorkerView>
    decreases msgs.len(),
{
    if msgs.len() == 0 {
        ws
    } else {
        spec_handle(spec_enqueue_step(ws, cap, msgs[0]), cap, msgs.skip(1))
    }
}

} // verus!
