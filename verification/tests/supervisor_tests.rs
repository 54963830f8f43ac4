use bld::supervisor::{
    PipelineWorker, UnixSocketConnectionState, UnixSocketMessage, UnixSocketServerReader,
    WorkerQueue, WorkerState, worker_args,
};

fn worker(id: &str) -> PipelineWorker {
    PipelineWorker {
        pipeline: String::from("demo"),
        run_id: String::from(id),
        args: worker_args("demo", id, &None, &None),
        state: WorkerState::Queued,
    }
}

#[test]
fn cap_two_third_waits_until_slot_frees() {
    // enqueue 3 workers under cap 2: exactly 2 run, the third waits and is
    // promoted only when one terminates
    let mut q = WorkerQueue::new(2);
    assert!(q.enqueue(worker("a")));
    assert!(q.enqueue(worker("b")));
    assert!(!q.enqueue(worker("c")));
    let (queued, running) = q.monitor();
    assert_eq!((queued, running), (1, 2));
    assert_eq!(q.workers[2].state, WorkerState::Queued);

    let promoted = q.ack("a", false);
    assert!(promoted);
    let (queued, running) = q.monitor();
    assert_eq!((queued, running), (0, 2));
    assert_eq!(q.workers[0].state, WorkerState::Exited);
    assert_eq!(q.workers[2].state, WorkerState::Running);
}

#[test]
fn enqueue_below_cap_starts_at_once() {
    let mut q = WorkerQueue::new(4);
    assert!(q.enqueue(worker("a")));
    assert_eq!(q.workers[0].state, WorkerState::Running);
    let (queued, running) = q.monitor();
    assert_eq!((queued, running), (0, 1));
}

#[test]
fn promotion_takes_the_head_of_the_queue() {
    let mut q = WorkerQueue::new(1);
    assert!(q.enqueue(worker("a")));
    assert!(!q.enqueue(worker("b")));
    assert!(!q.enqueue(worker("c")));
    q.ack("a", false);
    // b, the first queued, runs; c still waits
    assert_eq!(q.workers[1].state, WorkerState::Running);
    assert_eq!(q.workers[2].state, WorkerState::Queued);
}

#[test]
fn startup_failure_frees_the_slot() {
    let mut q = WorkerQueue::new(1);
    assert!(q.enqueue(worker("a")));
    assert!(!q.enqueue(worker("b")));
    let promoted = q.ack("a", true);
    assert!(promoted);
    assert_eq!(q.workers[0].state, WorkerState::Failed);
    assert_eq!(q.workers[1].state, WorkerState::Running);
}

#[test]
fn ack_of_unknown_run_id_changes_nothing() {
    let mut q = WorkerQueue::new(1);
    assert!(q.enqueue(worker("a")));
    let promoted = q.ack("nope", false);
    assert!(!promoted);
    assert_eq!(q.workers[0].state, WorkerState::Running);
}

#[test]
fn worker_args_follow_the_cli_contract() {
    assert_eq!(
        worker_args("deploy", "id-1", &None, &None),
        vec!["worker", "--pipeline", "deploy", "--run-id", "id-1"]
    );
    assert_eq!(
        worker_args(
            "deploy",
            "id-1",
            &Some(String::from("{\"a\":\"1\"}")),
            &Some(String::from("{\"b\":\"2\"}"))
        ),
        vec![
            "worker",
            "--pipeline",
            "deploy",
            "--run-id",
            "id-1",
            "--variables",
            "{\"a\":\"1\"}",
            "--environment",
            "{\"b\":\"2\"}"
        ]
    );
}

#[test]
fn reader_tracks_connection_state() {
    let mut reader = UnixSocketServerReader::new();
    assert_eq!(reader.get_state(), UnixSocketConnectionState::Active);
    assert!(!reader.has_stopped());
    reader.set_state(UnixSocketConnectionState::Stopped);
    assert!(reader.has_stopped());
}

#[test]
fn enqueue_messages_append_workers() {
    let reader = UnixSocketServerReader::new();
    let mut q = WorkerQueue::new(1);
    let messages = vec![
        UnixSocketMessage::ServerEnqueue {
            pipeline: String::from("p1"),
            run_id: String::from("r1"),
            variables: None,
            environment: Some(String::from("{}")),
        },
        UnixSocketMessage::Monitor,
        UnixSocketMessage::ServerEnqueue {
            pipeline: String::from("p2"),
            run_id: String::from("r2"),
            variables: None,
            environment: None,
        },
    ];
    reader.handle(&mut q, &messages);
    assert_eq!(q.workers.len(), 2);
    assert_eq!(q.workers[0].pipeline, "p1");
    assert_eq!(q.workers[0].state, WorkerState::Running);
    assert_eq!(
        q.workers[0].args,
        vec![
            "worker",
            "--pipeline",
            "p1",
            "--run-id",
            "r1",
            "--environment",
            "{}"
        ]
    );
    assert_eq!(q.workers[1].pipeline, "p2");
    assert_eq!(q.workers[1].state, WorkerState::Queued);
}
