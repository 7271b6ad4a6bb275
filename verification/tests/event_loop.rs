use fuser::errno::{AfterFailure, Errnos};
use fuser::event_loop::{EventLoop, LoopAction, LoopEvent};
use fuser::multi_thread::{MultiThreadRun, RunAction, RunError, RunEvent, WorkerExit};
use fuser::session::{FilesystemSession, SessionACL};

fn session() -> FilesystemSession<()> {
    let mut session = FilesystemSession::new((), SessionACL::Owner, 0);
    session.buffer_size = 4096;
    session
}

#[test]
fn error_numbers_are_the_systems() {
    let errnos = Errnos::host();
    assert_eq!(errnos.enoent, libc::ENOENT);
    assert_eq!(errnos.eintr, libc::EINTR);
    assert_eq!(errnos.eagain, libc::EAGAIN);
    assert_eq!(errnos.eacces, libc::EACCES);
    assert_eq!(errnos.enodev, libc::ENODEV);
    assert!([11, 35].contains(&errnos.eagain));
}

#[test]
fn failures_to_receive() {
    let errnos = Errnos::host();
    for code in [libc::ENOENT, libc::EINTR, libc::EAGAIN] {
        assert_eq!(errnos.receive_failed(Some(code)), AfterFailure::Retry);
    }
    assert_eq!(errnos.receive_failed(Some(libc::ENODEV)), AfterFailure::Quit);
    for errno in [None, Some(0), Some(libc::EIO), Some(-libc::ENODEV)] {
        assert_eq!(errnos.receive_failed(errno), AfterFailure::Fail);
    }
}

#[test]
fn a_loop_serves_until_it_is_stopped() {
    let session = session();
    let mut events = EventLoop::new(&session, false);
    assert_eq!(events.step(&session, LoopEvent::Started), LoopAction::Receive);
    for event in [
        LoopEvent::Dispatched,
        LoopEvent::ReceiveFailed(Some(libc::ENOENT)),
        LoopEvent::ReceiveFailed(Some(libc::EINTR)),
        LoopEvent::ReceiveFailed(Some(libc::EAGAIN)),
        LoopEvent::Dispatched,
    ] {
        assert_eq!(events.step(&session, event), LoopAction::Receive);
    }
    assert_eq!(events.step(&session, LoopEvent::Illegal), LoopAction::Finish);
    assert_eq!(
        events.step(&session, LoopEvent::ReceiveFailed(Some(libc::ENODEV))),
        LoopAction::Finish
    );
    assert_eq!(
        events.step(&session, LoopEvent::ReceiveFailed(Some(libc::EIO))),
        LoopAction::Fail
    );
    assert_eq!(
        events.step(&session, LoopEvent::ReceiveFailed(None)),
        LoopAction::Fail
    );
}

#[test]
fn a_negotiating_loop_ends_with_initialization() {
    let mut session = session();
    let mut events = EventLoop::new(&session, true);
    assert_eq!(events.step(&session, LoopEvent::Started), LoopAction::Receive);
    assert_eq!(events.step(&session, LoopEvent::Dispatched), LoopAction::Receive);
    session.initialized = true;
    assert_eq!(events.step(&session, LoopEvent::Dispatched), LoopAction::Finish);
    assert_eq!(
        events.step(&session, LoopEvent::ReceiveFailed(Some(libc::EINTR))),
        LoopAction::Finish
    );
    let mut serving = EventLoop::new(&session, false);
    assert_eq!(serving.step(&session, LoopEvent::Started), LoopAction::Receive);
}

#[test]
fn the_buffer_follows_the_negotiated_size() {
    let mut session = session();
    let mut events = EventLoop::new(&session, false);
    let before = events.receive_buffer().unwrap();
    assert!((4089..=4096).contains(&before.len()));
    before[0] = 9;
    before[100] = 7;
    let skipped = 4096 - before.len();
    session.buffer_size = 1024;
    // Nothing is lowered where nothing is received.
    assert_eq!(events.step(&session, LoopEvent::Illegal), LoopAction::Finish);
    assert!(events.receive_buffer().unwrap().len() >= 4089);
    assert_eq!(events.step(&session, LoopEvent::Dispatched), LoopAction::Receive);
    let after = events.receive_buffer().unwrap();
    assert!((1017..=1024).contains(&after.len()));
    let moved = 1024 - after.len();
    if moved <= skipped {
        assert_eq!(after[skipped - moved], 9);
    }
    assert_eq!(after[100 + skipped - moved], 7);
    // It never grows again.
    session.buffer_size = 4096;
    assert_eq!(events.step(&session, LoopEvent::Dispatched), LoopAction::Receive);
    assert!(events.receive_buffer().unwrap().len() <= 1024);
}

#[test]
fn the_buffer_is_zeroed_and_never_above_the_default() {
    let mut session = session();
    session.buffer_size = usize::MAX;
    let mut events = EventLoop::new(&session, false);
    let buffer = events.receive_buffer().unwrap();
    assert!(buffer.len() <= 16 * 1024 * 1024 + 4096);
    assert!(buffer.len() > 16 * 1024 * 1024 + 4096 - 8);
    assert!(buffer.iter().all(|byte| *byte == 0));
    assert_eq!(buffer.as_ptr() as usize % 8, 0);
}

fn negotiated(n_threads: usize) -> MultiThreadRun<i32> {
    let run = MultiThreadRun::new(n_threads, false);
    assert_eq!(run.action(), RunAction::Negotiate);
    run.step(RunEvent::LoopEnded {
        result: Ok(()),
        initialized: true,
    })
}

fn serving(n_threads: usize) -> MultiThreadRun<i32> {
    let mut run = negotiated(n_threads);
    for _ in 1..n_threads {
        assert_eq!(
            run.action(),
            RunAction::StartWorker {
                own_descriptor: false
            }
        );
        run = run.step(RunEvent::WorkerStarted);
    }
    assert_eq!(run.action(), RunAction::Serve);
    run
}

fn finish(exits: Vec<WorkerExit<i32>>, own: Result<(), i32>) -> Result<(), RunError<i32>> {
    let mut run = serving(exits.len() + 1).step(RunEvent::LoopEnded {
        result: own,
        initialized: true,
    });
    for exit in exits {
        run = run.step(RunEvent::WorkerJoined(exit));
    }
    assert_eq!(run.action(), RunAction::Return);
    run.into_result().unwrap()
}

#[test]
fn a_session_closed_before_init_starts_no_thread() {
    let run: MultiThreadRun<i32> = MultiThreadRun::new(4, true).step(RunEvent::LoopEnded {
        result: Ok(()),
        initialized: false,
    });
    assert_eq!(run.action(), RunAction::Return);
    assert!(matches!(run.into_result(), Some(Ok(()))));
    let run = MultiThreadRun::new(4, true).step(RunEvent::LoopEnded {
        result: Err(5),
        initialized: true,
    });
    assert!(matches!(run.into_result(), Some(Err(RunError::Io(5)))));
}

#[test]
fn as_many_threads_serve_as_asked_for() {
    for n_threads in [1, 2, 4] {
        let mut run = serving(n_threads).step(RunEvent::LoopEnded {
            result: Ok(()),
            initialized: true,
        });
        for _ in 1..n_threads {
            assert_eq!(run.action(), RunAction::JoinWorker);
            run = run.step(RunEvent::WorkerJoined(WorkerExit::Returned(Ok(()))));
        }
        assert!(matches!(run.into_result(), Some(Ok(()))));
    }
    assert_eq!(negotiated(0).action(), RunAction::Serve);
}

#[test]
fn threads_get_descriptors_of_their_own_if_asked_for() {
    for clone_fd in [false, true] {
        let mut run: MultiThreadRun<i32> =
            MultiThreadRun::new(3, clone_fd).step(RunEvent::LoopEnded {
                result: Ok(()),
                initialized: true,
            });
        for _ in 1..3 {
            assert_eq!(
                run.action(),
                RunAction::StartWorker {
                    own_descriptor: clone_fd
                }
            );
            run = run.step(RunEvent::WorkerStarted);
        }
        assert_eq!(run.action(), RunAction::Serve);
        for n_threads in [0, 1] {
            let run: MultiThreadRun<i32> =
                MultiThreadRun::new(n_threads, clone_fd).step(RunEvent::LoopEnded {
                    result: Ok(()),
                    initialized: true,
                });
            assert_eq!(run.action(), RunAction::Serve);
        }
    }
}

#[test]
fn a_thread_without_a_channel_ends_the_run() {
    let run = negotiated(3)
        .step(RunEvent::WorkerStarted)
        .step(RunEvent::WorkerNotStarted(9))
        .step(RunEvent::WorkerStarted);
    assert_eq!(run.action(), RunAction::Return);
    assert!(matches!(run.into_result(), Some(Err(RunError::Io(9)))));
}

#[test]
fn the_first_failing_thread_decides() {
    let good = || WorkerExit::Returned(Ok(()));
    assert!(finish(vec![], Ok(())).is_ok());
    assert!(finish(vec![good(), good()], Ok(())).is_ok());
    assert!(matches!(finish(vec![], Err(1)), Err(RunError::Io(1))));
    assert!(matches!(finish(vec![good()], Err(1)), Err(RunError::Io(1))));
    assert!(matches!(
        finish(
            vec![good(), WorkerExit::Returned(Err(2)), WorkerExit::Panicked],
            Err(1)
        ),
        Err(RunError::Io(2))
    ));
    assert!(matches!(
        finish(
            vec![WorkerExit::Panicked, WorkerExit::Returned(Err(2))],
            Ok(())
        ),
        Err(RunError::WorkerPanicked)
    ));
}

#[test]
fn unexpected_events_change_nothing() {
    let run = serving(3)
        .step(RunEvent::WorkerStarted)
        .step(RunEvent::WorkerJoined(WorkerExit::Panicked));
    assert_eq!(run.action(), RunAction::Serve);
    assert!(run.into_result().is_none());
}

#[test]
fn retried_failures_change_nothing() {
    let interrupted = [
        LoopEvent::Started,
        LoopEvent::ReceiveFailed(Some(libc::EINTR)),
        LoopEvent::Dispatched,
        LoopEvent::ReceiveFailed(Some(libc::EAGAIN)),
        LoopEvent::ReceiveFailed(Some(libc::ENOENT)),
        LoopEvent::ReceiveFailed(Some(libc::EIO)),
    ];
    let uninterrupted = [
        LoopEvent::Started,
        LoopEvent::Dispatched,
        LoopEvent::ReceiveFailed(Some(libc::EIO)),
    ];
    let session = session();
    let outcome = |inputs: &[LoopEvent]| {
        let mut events = EventLoop::new(&session, false);
        inputs
            .iter()
            .map(|event| events.step(&session, *event))
            .find(|action| *action != LoopAction::Receive)
    };
    assert_eq!(outcome(&interrupted), Some(LoopAction::Fail));
    assert_eq!(outcome(&uninterrupted), Some(LoopAction::Fail));
}

#[test]
fn the_buffer_has_the_least_size_seen() {
    let mut session = session();
    let mut events = EventLoop::new(&session, false);
    let mut least = 4096;
    for size in [5000, 3000, 3500, 1000, 8, 2000] {
        session.buffer_size = size;
        least = least.min(size);
        assert_eq!(events.step(&session, LoopEvent::Dispatched), LoopAction::Receive);
        let lent = events.receive_buffer().unwrap().len();
        assert!(lent <= least && least < lent + 8);
    }
}

#[test]
fn the_address_decides_what_is_lent() {
    let mut session = session();
    session.buffer_size = 3;
    let mut events = EventLoop::new(&session, false);
    for (address, lent) in [(16, Some(3)), (15, Some(2)), (13, Some(0)), (12, None)] {
        let part = events.receive_buffer_at(address);
        assert_eq!(part.map(|part| part.len()), lent);
    }
}
