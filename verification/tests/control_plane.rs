//! Supervision and shutdown.
use batchinf::control_plane::{
    confirm_restart, shutdown_workers, supervise, total_queue_depth, ShutdownStep, SupervisorStep,
};
use batchinf::{InnerConfig, StateChange, WorkerSnapshot, WorkerState, WorkerStatus};

fn pool(workers: &[(WorkerStatus, u64)]) -> Vec<WorkerSnapshot> {
    workers
        .iter()
        .map(|(status, queue_len)| WorkerSnapshot { status: *status, queue_len: *queue_len })
        .collect()
}

#[test]
fn crashed_workers_are_restarted() {
    let workers = pool(&[
        (WorkerStatus::Crashed, 3),
        (WorkerStatus::Waiting, 1),
        (WorkerStatus::Exit, 0),
        (WorkerStatus::Crashed, 0),
        (WorkerStatus::Running, 4),
    ]);
    match supervise(false, &Some(workers)) {
        SupervisorStep::Continue(restarts, depth) => {
            assert_eq!(restarts, vec![0, 3]);
            assert_eq!(depth, Some(8));
        }
        other => panic!("{:?}", other),
    }
}

#[test]
fn the_supervisor_stops_with_its_workers() {
    let workers = pool(&[(WorkerStatus::Exit, 0), (WorkerStatus::Exit, 2)]);
    assert!(matches!(supervise(false, &Some(workers)), SupervisorStep::Stop));
    assert!(matches!(supervise(false, &None), SupervisorStep::Stop));
}

#[test]
fn a_shutdown_comes_first() {
    let workers = pool(&[(WorkerStatus::Crashed, 0)]);
    assert!(matches!(supervise(true, &Some(workers)), SupervisorStep::Shutdown));
    assert!(matches!(supervise(true, &None), SupervisorStep::Shutdown));
}

#[test]
fn only_a_crashed_worker_is_restarted() {
    for (status, restart) in [
        (WorkerStatus::Crashed, Some(StateChange::Reset)),
        (WorkerStatus::Waiting, None),
        (WorkerStatus::Running, None),
        (WorkerStatus::Exit, None),
    ] {
        assert_eq!(confirm_restart(&WorkerSnapshot { status, queue_len: 0 }), restart);
    }
}

#[test]
fn a_round_leaves_the_other_workers_as_they_are() {
    let config = InnerConfig { timeout: 10, size: 4 };
    let statuses = [
        WorkerStatus::Waiting,
        WorkerStatus::Crashed,
        WorkerStatus::Running,
        WorkerStatus::Exit,
        WorkerStatus::Crashed,
    ];
    let mut workers: Vec<WorkerState> = statuses
        .iter()
        .map(|status| {
            let mut worker = WorkerState::new(config);
            worker.apply(StateChange::Counted);
            worker.apply(StateChange::Status(*status));
            worker
        })
        .collect();
    let seen: Vec<WorkerSnapshot> = workers.iter().map(|worker| worker.snapshot()).collect();
    // The last worker changes its status after it was seen.
    workers[4].set_state(WorkerStatus::Exit);
    match supervise(false, &Some(seen)) {
        SupervisorStep::Continue(restarts, depth) => {
            assert_eq!(depth, Some(5));
            for worker in restarts {
                if let Some(change) = confirm_restart(&workers[worker].snapshot()) {
                    workers[worker].apply(change);
                }
            }
        }
        other => panic!("{:?}", other),
    }
    let after: Vec<WorkerSnapshot> = workers.iter().map(|worker| worker.snapshot()).collect();
    assert_eq!(
        after,
        pool(&[
            (WorkerStatus::Waiting, 1),
            (WorkerStatus::Waiting, 0),
            (WorkerStatus::Running, 1),
            (WorkerStatus::Exit, 1),
            (WorkerStatus::Exit, 1),
        ])
    );
}

#[test]
fn a_depth_that_does_not_fit_is_not_reported() {
    let workers = pool(&[(WorkerStatus::Waiting, u64::MAX), (WorkerStatus::Waiting, 1)]);
    assert!(matches!(supervise(false, &Some(workers)), SupervisorStep::Continue(_, None)));
}

#[test]
fn queue_lengths_add_up() {
    assert_eq!(
        total_queue_depth(&pool(&[(WorkerStatus::Waiting, 3), (WorkerStatus::Running, 4)])),
        Some(7)
    );
    assert_eq!(total_queue_depth(&pool(&[])), Some(0));
    assert_eq!(
        total_queue_depth(&pool(&[(WorkerStatus::Waiting, u64::MAX), (WorkerStatus::Waiting, 1)])),
        None
    );
}

#[test]
fn a_shutdown_tells_every_live_worker_and_then_settles() {
    let mut workers = pool(&[
        (WorkerStatus::Waiting, 1),
        (WorkerStatus::Exit, 0),
        (WorkerStatus::Running, 4),
        (WorkerStatus::Crashed, 0),
    ]);
    match shutdown_workers(&Some(workers.clone())) {
        ShutdownStep::Poll(told) => {
            assert_eq!(told, vec![0, 2, 3]);
            for worker in told {
                workers[worker].status = WorkerStatus::Exit;
            }
        }
        other => panic!("{:?}", other),
    }
    assert!(matches!(shutdown_workers(&Some(workers)), ShutdownStep::Done));
    assert!(matches!(shutdown_workers(&None), ShutdownStep::Done));
}

#[test]
fn the_queue_depth_is_at_most_a_batch_for_each_worker() {
    let full = pool(&[(WorkerStatus::Running, 4), (WorkerStatus::Waiting, 4)]);
    assert_eq!(total_queue_depth(&full), Some(2 * 4));
    let part = pool(&[(WorkerStatus::Running, 4), (WorkerStatus::Waiting, 1)]);
    assert!(total_queue_depth(&part).unwrap() <= 2 * 4);
}
