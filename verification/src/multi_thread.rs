//! Sessions that are served by several event-loop threads.
//!
//! A [`MultiThreadRun`] decides; whoever drives it runs the loops and the
//! threads. It says what to do next, and is told how that went.

use vstd::prelude::*;

verus! {

/// How an event-loop thread ended.
#[derive(Debug)]
pub enum WorkerExit<E> {
    /// Its loop returned.
    Returned(Result<(), E>),
    /// It panicked.
    Panicked,
}

/// Why a run failed.
#[derive(Debug)]
pub enum RunError<E> {
    /// A loop failed, or a thread could not be given its channel.
    Io(E),
    /// An event-loop thread panicked.
    WorkerPanicked,
}

/// What happened to a run.
#[derive(Debug)]
pub enum RunEvent<E> {
    /// The loop of the running thread ended; the session is initialized by then,
    /// or is not.
    LoopEnded {
        /// How the loop ended.
        result: Result<(), E>,
        /// The session is initialized.
        initialized: bool,
    },
    /// An additional thread was started.
    WorkerStarted,
    /// An additional thread could not be started.
    WorkerNotStarted(E),
    /// The additional thread that was started first, of those not yet joined,
    /// has ended.
    WorkerJoined(WorkerExit<E>),
}

/// What a run does next.
#[derive(Clone, Copy, Debug, PartialEq, Eq, Structural)]
pub enum RunAction {
    /// Run the loop until the session is initialized, on the session's
    /// descriptor.
    Negotiate,
    /// Start an additional thread, with the session's protocol state.
    StartWorker {
        /// The thread reads requests from a descriptor of its own, cloned from
        /// the session's; else it shares the session's.
        own_descriptor: bool,
    },
    /// Run the loop, on the session's descriptor.
    Serve,
    /// Wait for the next additional thread, in the order they were started in.
    JoinWorker,
    /// Nothing more: the run has ended.
    Return,
}

/// How far a run has come.
#[derive(Debug)]
pub enum RunState<E> {
    /// Requests are processed single-threaded until `FUSE_INIT` completes.
    Negotiating {
        /// How many threads the run shall have, the running one counted.
        n_threads: usize,
    },
    /// Threads are being started.
    Starting {
        /// How many are still to start.
        left: usize,
        /// How many were started.
        started: usize,
    },
    /// All threads serve.
    Serving {
        /// How many threads serve besides the running one.
        started: usize,
    },
    /// The running thread is done and waits for the others.
    Joining {
        /// How many it still waits for.
        left: usize,
        /// How its own loop ended.
        own: Result<(), E>,
    },
    /// The run has ended.
    Ended(Result<(), RunError<E>>),
}

/// How many threads a run has besides the running one.
pub open spec fn additional_threads(n_threads: usize) -> usize {
    if n_threads == 0 {
        0
    } else {
        (n_threads - 1) as usize
    }
}

/// A loop's result as a run's.
pub open spec fn loop_outcome<E>(own: Result<(), E>) -> Result<(), RunError<E>> {
    match own {
        Ok(()) => Ok(()),
        Err(error) => Err(RunError::Io(error)),
    }
}

/// The failure that a thread ended with, if it did.
pub open spec fn failure<E>(exit: WorkerExit<E>) -> Option<RunError<E>> {
    match exit {
        WorkerExit::Returned(Ok(())) => None,
        WorkerExit::Returned(Err(error)) => Some(RunError::Io(error)),
        WorkerExit::Panicked => Some(RunError::WorkerPanicked),
    }
}

/// The first failure among threads, in the order they were started in.
pub open spec fn first_failure<E>(exits: Seq<WorkerExit<E>>) -> Option<RunError<E>>
    decreases exits.len(),
{
    if exits.len() == 0 {
        None
    } else if failure(exits[0]) is Some {
        failure(exits[0])
    } else {
        first_failure(exits.drop_first())
    }
}

/// How a run ends whose additional threads end as `exits` say, in the order they
/// were started in, and whose own loop ends as `own` says: with the first failure
/// among the additional threads, else as its own loop.
pub open spec fn run_outcome<E>(exits: Seq<WorkerExit<E>>, own: Result<(), E>) -> Result<
    (),
    RunError<E>,
> {
    match first_failure(exits) {
        Some(error) => Err(error),
        None => loop_outcome(own),
    }
}

impl<E> RunState<E> {
    /// There is something to do in the state: threads left to start, or to join.
    pub open spec fn wf(self) -> bool {
        match self {
            RunState::Starting { left, started } => 0 < left && left + started <= usize::MAX,
            RunState::Joining { left, own } => 0 < left,
            _ => true,
        }
    }

    /// The state with `left` threads to start and `started` started.
    pub open spec fn with_threads(left: usize, started: usize) -> Self {
        if left == 0 {
            RunState::Serving { started }
        } else {
            RunState::Starting { left, started }
        }
    }

    /// The state with `left` threads to join.
    pub open spec fn with_joins(left: usize, own: Result<(), E>) -> Self {
        if left == 0 {
            RunState::Ended(loop_outcome(own))
        } else {
            RunState::Joining { left, own }
        }
    }

    /// The state after `event`. An event that the state does not wait for changes
    /// nothing.
    pub open spec fn after(self, event: RunEvent<E>) -> Self {
        match (self, event) {
            (
                RunState::Negotiating { n_threads },
                RunEvent::LoopEnded { result, initialized },
            ) => match result {
                Err(error) => RunState::Ended(Err(RunError::Io(error))),
                Ok(()) => if initialized {
                    Self::with_threads(additional_threads(n_threads), 0)
                } else {
                    RunState::Ended(Ok(()))
                },
            },
            (
                RunState::Starting { left, started },
                RunEvent::WorkerStarted,
            ) => Self::with_threads((left - 1) as usize, (started + 1) as usize),
            (
                RunState::Starting { left, started },
                RunEvent::WorkerNotStarted(error),
            ) => RunState::Ended(Err(RunError::Io(error))),
            (
                RunState::Serving { started },
                RunEvent::LoopEnded { result, initialized },
            ) => Self::with_joins(started, result),
            (
                RunState::Joining { left, own },
                RunEvent::WorkerJoined(exit),
            ) => match failure(exit) {
                Some(error) => RunState::Ended(Err(error)),
                None => Self::with_joins((left - 1) as usize, own),
            },
            (state, _) => state,
        }
    }

    /// What a run does in this state whose additional threads shall have
    /// descriptors of their own, or shall not, as `clone_fd` says.
    pub open spec fn next(self, clone_fd: bool) -> RunAction {
        match self {
            RunState::Negotiating { .. } => RunAction::Negotiate,
            RunState::Starting { .. } => RunAction::StartWorker { own_descriptor: clone_fd },
            RunState::Serving { .. } => RunAction::Serve,
            RunState::Joining { .. } => RunAction::JoinWorker,
            RunState::Ended(_) => RunAction::Return,
        }
    }

    /// The state after several events, one after the other.
    pub open spec fn after_all(self, events: Seq<RunEvent<E>>) -> Self
        decreases events.len(),
    {
        if events.len() == 0 {
            self
        } else {
            self.after(events[0]).after_all(events.drop_first())
        }
    }

    /// The state after `event`.
    fn step(self, event: RunEvent<E>) -> (next: Self)
        requires
            self.wf(),
        ensures
            next == self.after(event),
            next.wf(),
    {
        match (self, event) {
            (
                RunState::Negotiating { n_threads },
                RunEvent::LoopEnded { result, initialized },
            ) => match result {
                Err(error) => RunState::Ended(Err(RunError::Io(error))),
                Ok(()) => if initialized {
                    Self::start(n_threads.saturating_sub(1), 0)
                } else {
                    // The kernel closed the session before INIT; nothing more to do.
                    RunState::Ended(Ok(()))
                },
            },
            (RunState::Starting { left, started }, RunEvent::WorkerStarted) => Self::start(
                left - 1,
                started + 1,
            ),
            (RunState::Starting { .. }, RunEvent::WorkerNotStarted(error)) => RunState::Ended(
                Err(RunError::Io(error)),
            ),
            (RunState::Serving { started }, RunEvent::LoopEnded { result, .. }) => Self::join(
                started,
                result,
            ),
            (RunState::Joining { left, own }, RunEvent::WorkerJoined(exit)) => match exit {
                WorkerExit::Returned(Ok(())) => Self::join(left - 1, own),
                WorkerExit::Returned(Err(error)) => RunState::Ended(Err(RunError::Io(error))),
                WorkerExit::Panicked => RunState::Ended(Err(RunError::WorkerPanicked)),
            },
            (state, _) => state,
        }
    }

    fn start(left: usize, started: usize) -> (state: Self)
        ensures
            state == Self::with_threads(left, started),
    {
        if left == 0 {
            RunState::Serving { started }
        } else {
            RunState::Starting { left, started }
        }
    }

    fn join(left: usize, own: Result<(), E>) -> (state: Self)
        ensures
            state == Self::with_joins(left, own),
    {
        if left == 0 {
            match own {
                Ok(()) => RunState::Ended(Ok(())),
                Err(error) => RunState::Ended(Err(RunError::Io(error))),
            }
        } else {
            RunState::Joining { left, own }
        }
    }
}

/// A run of a session with several event-loop threads.
///
/// Requests are processed on a single thread until `FUSE_INIT` completes;
/// the remaining event-loop threads are then started with the negotiated
/// protocol state.
#[derive(Debug)]
pub struct MultiThreadRun<E> {
    state: RunState<E>,
    clone_fd: bool,
}

impl<E> MultiThreadRun<E> {
    /// How far the run has come.
    pub closed spec fn state(&self) -> RunState<E> {
        self.state
    }

    /// The additional threads have descriptors of their own.
    pub closed spec fn clone_fd(&self) -> bool {
        self.clone_fd
    }

    /// The state is one with something to do.
    #[verifier::type_invariant]
    spec fn wf(&self) -> bool {
        self.state.wf()
    }

    /// A run with `n_threads` event-loop threads, the running one counted. If
    /// `clone_fd` is true, each additional thread gets its own descriptor;
    /// otherwise all threads share the session's.
    pub fn new(n_threads: usize, clone_fd: bool) -> (run: Self)
        ensures
            run.state() == (RunState::<E>::Negotiating { n_threads }),
            run.clone_fd() == clone_fd,
    {
        MultiThreadRun { state: RunState::Negotiating { n_threads }, clone_fd }
    }

    /// Decides what the run does next.
    pub fn action(&self) -> (action: RunAction)
        ensures
            action == self.state().next(self.clone_fd()),
            action == RunAction::Negotiate <==> self.state() is Negotiating,
            action == (RunAction::StartWorker { own_descriptor: self.clone_fd() })
                <==> self.state() is Starting,
            action == RunAction::Serve <==> self.state() is Serving,
            action == RunAction::JoinWorker <==> self.state() is Joining,
            action == RunAction::Return <==> self.state() is Ended,
    {
        match &self.state {
            RunState::Negotiating { .. } => RunAction::Negotiate,
            RunState::Starting { .. } => RunAction::StartWorker { own_descriptor: self.clone_fd },
            RunState::Serving { .. } => RunAction::Serve,
            RunState::Joining { .. } => RunAction::JoinWorker,
            RunState::Ended(_) => RunAction::Return,
        }
    }

    /// Goes on after `event`.
    pub fn step(self, event: RunEvent<E>) -> (next: Self)
        ensures
            next.state() == self.state().after(event),
            next.clone_fd() == self.clone_fd(),
            self.state() matches RunState::Negotiating { n_threads } ==> event
                == (RunEvent::<E>::LoopEnded { result: Ok(()), initialized: true }) ==> {
                &&& n_threads <= 1 ==> next.state() == (RunState::<E>::Serving { started: 0 })
                &&& n_threads > 1 ==> next.state() == (RunState::<E>::Starting {
                    left: (n_threads - 1) as usize,
                    started: 0,
                })
            },
            self.state() matches RunState::Starting { left, started } ==> event
                == RunEvent::<E>::WorkerStarted ==> {
                &&& left == 1 ==> next.state() == (RunState::<E>::Serving {
                    started: (started + 1) as usize,
                })
                &&& left > 1 ==> next.state() == (RunState::<E>::Starting {
                    left: (left - 1) as usize,
                    started: (started + 1) as usize,
                })
            },
    {
        proof {
            use_type_invariant(&self);
        }
        let clone_fd = self.clone_fd;
        MultiThreadRun { state: self.state.step(event), clone_fd }
    }

    /// How the run ended, or `None` if it has not.
    pub fn into_result(self) -> (result: Option<Result<(), RunError<E>>>)
        ensures
            result == (match self.state() {
                RunState::Ended(ended) => Some(ended),
                _ => None,
            }),
    {
        match self.state {
            RunState::Ended(ended) => Some(ended),
            _ => None,
        }
    }
}

/// Events in two parts act one part after the other.
proof fn lemma_after_all_append<E>(
    run: RunState<E>,
    first: Seq<RunEvent<E>>,
    second: Seq<RunEvent<E>>,
)
    ensures
        run.after_all(first + second) == run.after_all(first).after_all(second),
    decreases first.len(),
{
    if first.len() == 0 {
        assert(first + second =~= second);
    } else {
        assert((first + second).drop_first() =~= first.drop_first() + second);
        lemma_after_all_append(run.after(first[0]), first.drop_first(), second);
    }
}

/// The event that a thread was started, `n` times.
pub open spec fn starts<E>(n: nat) -> Seq<RunEvent<E>> {
    Seq::new(n, |i: int| RunEvent::<E>::WorkerStarted)
}

/// The events that threads were joined which ended as `exits` say.
pub open spec fn joins<E>(exits: Seq<WorkerExit<E>>) -> Seq<RunEvent<E>> {
    Seq::new(exits.len(), |i: int| RunEvent::WorkerJoined(exits[i]))
}

/// A run that has ended stays as it ended, whatever happens.
pub proof fn an_ended_run_stays_ended<E>(
    result: Result<(), RunError<E>>,
    events: Seq<RunEvent<E>>,
)
    ensures
        RunState::Ended(result).after_all(events) == RunState::Ended(result),
    decreases events.len(),
{
    if events.len() > 0 {
        an_ended_run_stays_ended(result, events.drop_first());
    }
}

/// A run starts each of the threads it has left to start, with a descriptor of its
/// own exactly if `clone_fd` says so, and serves once it has started the last.
pub proof fn all_threads_start_before_serving<E>(left: usize, started: usize, clone_fd: bool)
    requires
        left + started <= usize::MAX,
    ensures
        RunState::<E>::with_threads(left, started).after_all(starts(left as nat)) == (
        RunState::<E>::Serving { started: (left + started) as usize }),
        forall|k: nat|
            k < left ==> #[trigger] RunState::<E>::with_threads(left, started).after_all(
                starts(k),
            ).next(clone_fd) == (RunAction::StartWorker { own_descriptor: clone_fd }),
    decreases left,
{
    let run = RunState::<E>::with_threads(left, started);
    if left > 0 {
        let fewer = RunState::<E>::with_threads((left - 1) as usize, (started + 1) as usize);
        all_threads_start_before_serving::<E>(
            (left - 1) as usize,
            (started + 1) as usize,
            clone_fd,
        );
        assert(starts::<E>(left as nat).drop_first() =~= starts::<E>((left - 1) as nat));
        assert forall|k: nat| k < left implies #[trigger] run.after_all(starts(k)).next(
            clone_fd,
        ) == (RunAction::StartWorker { own_descriptor: clone_fd }) by {
            if k > 0 {
                assert(starts::<E>(k).drop_first() =~= starts::<E>((k - 1) as nat));
                assert(run.after_all(starts(k)) == fewer.after_all(starts((k - 1) as nat)));
            }
        }
    }
}

/// A run counts its threads: of `n_threads` threads the running one is the first,
/// so once the session is initialized and `k` threads have been started, another
/// is started exactly while `k + 1` is less than `n_threads`. After that the
/// run serves, with `n_threads - 1` threads besides the running one.
pub proof fn threads_are_counted<E>(n_threads: usize, k: nat, clone_fd: bool)
    ensures
        ({
            let run = (RunState::<E>::Negotiating { n_threads }).after_all(
                seq![RunEvent::<E>::LoopEnded { result: Ok(()), initialized: true }] + Seq::new(
                    k,
                    |i: int| RunEvent::<E>::WorkerStarted,
                ),
            );
            &&& run.next(clone_fd) is StartWorker <==> k + 1 < n_threads
            &&& run.next(clone_fd) == RunAction::Serve <==> k + 1 >= n_threads
            &&& k + 1 < n_threads ==> run == (RunState::<E>::Starting {
                left: (n_threads - 1 - k) as usize,
                started: k as usize,
            })
            &&& 1 <= n_threads <= k + 1 ==> run == (RunState::<E>::Serving {
                started: (n_threads - 1) as usize,
            })
            &&& n_threads == 0 ==> run == (RunState::<E>::Serving { started: 0 })
        }),
    decreases k,
{
    let start = RunState::<E>::Negotiating { n_threads };
    let negotiated = seq![RunEvent::<E>::LoopEnded { result: Ok(()), initialized: true }];
    let events = negotiated + Seq::new(k, |i: int| RunEvent::<E>::WorkerStarted);
    reveal_with_fuel(RunState::after_all, 2);
    if k == 0 {
        assert(events =~= negotiated);
        assert(negotiated.drop_first() =~= Seq::empty());
    } else {
        let fewer = negotiated + Seq::new(
            (k - 1) as nat,
            |i: int| RunEvent::<E>::WorkerStarted,
        );
        let last = seq![RunEvent::<E>::WorkerStarted];
        threads_are_counted::<E>(n_threads, (k - 1) as nat, clone_fd);
        assert(events =~= fewer + last);
        assert(last.drop_first() =~= Seq::empty());
        lemma_after_all_append(start, fewer, last);
    }
}

/// A run waits for each of its threads: when its own loop has ended and `k` of the
/// `started` threads were joined that ended well, it waits for the next one
/// exactly while `k` is less than `started`, and then ends as its own loop did.
pub proof fn every_thread_is_waited_for<E>(
    started: usize,
    own: Result<(), E>,
    initialized: bool,
    k: nat,
    clone_fd: bool,
)
    ensures
        ({
            let run = (RunState::<E>::Serving { started }).after_all(
                seq![RunEvent::LoopEnded { result: own, initialized }] + Seq::new(
                    k,
                    |i: int| RunEvent::<E>::WorkerJoined(WorkerExit::Returned(Ok(()))),
                ),
            );
            &&& run.next(clone_fd) == RunAction::JoinWorker <==> k < started
            &&& run.next(clone_fd) == RunAction::Return <==> k >= started
            &&& k < started ==> run == (RunState::Joining { left: (started - k) as usize, own })
            &&& k >= started && own is Ok ==> run == RunState::<E>::Ended(Ok(()))
            &&& k >= started ==> (own matches Err(error) ==> run == RunState::Ended(
                Err(RunError::Io(error)),
            ))
        }),
    decreases k,
{
    let start = RunState::<E>::Serving { started };
    let served = seq![RunEvent::LoopEnded { result: own, initialized }];
    let joined = |i: int| RunEvent::<E>::WorkerJoined(WorkerExit::Returned(Ok(())));
    let events = served + Seq::new(k, joined);
    reveal_with_fuel(RunState::after_all, 2);
    if k == 0 {
        assert(events =~= served);
        assert(served.drop_first() =~= Seq::empty());
    } else {
        let fewer = served + Seq::new((k - 1) as nat, joined);
        let last = seq![RunEvent::<E>::WorkerJoined(WorkerExit::Returned(Ok(())))];
        every_thread_is_waited_for(started, own, initialized, (k - 1) as nat, clone_fd);
        assert(events =~= fewer + last);
        assert(last.drop_first() =~= Seq::empty());
        lemma_after_all_append(start, fewer, last);
    }
}

/// The first thread that did not end well decides the result, whatever the own
/// loop of the run gave and whatever happens later: a thread whose loop failed
/// hands on that failure, and one that panicked is reported as that. `k` threads
/// that ended well were joined before it.
pub proof fn first_failing_thread_decides<E>(
    started: usize,
    own: Result<(), E>,
    initialized: bool,
    k: nat,
    exit: WorkerExit<E>,
    later: Seq<RunEvent<E>>,
)
    requires
        k < started,
    ensures
        ({
            let run = (RunState::<E>::Serving { started }).after_all(
                seq![RunEvent::LoopEnded { result: own, initialized }] + Seq::new(
                    k,
                    |i: int| RunEvent::<E>::WorkerJoined(WorkerExit::Returned(Ok(()))),
                ) + (seq![RunEvent::WorkerJoined(exit)] + later),
            );
            &&& exit matches WorkerExit::Returned(Err(error)) ==> run == RunState::Ended(
                Err(RunError::Io(error)),
            )
            &&& exit is Panicked ==> run == RunState::<E>::Ended(Err(RunError::WorkerPanicked))
        }),
{
    let start = RunState::<E>::Serving { started };
    let before = seq![RunEvent::LoopEnded { result: own, initialized }] + Seq::new(
        k,
        |i: int| RunEvent::<E>::WorkerJoined(WorkerExit::Returned(Ok(()))),
    );
    let rest = seq![RunEvent::WorkerJoined(exit)] + later;
    every_thread_is_waited_for(started, own, initialized, k, true);
    lemma_after_all_append(start, before, rest);
    assert(rest[0] == RunEvent::WorkerJoined(exit));
    assert(rest.drop_first() =~= later);
    match exit {
        WorkerExit::Returned(Ok(())) => {},
        WorkerExit::Returned(Err(error)) => {
            an_ended_run_stays_ended(Err(RunError::Io(error)), later);
        },
        WorkerExit::Panicked => {
            an_ended_run_stays_ended::<E>(Err(RunError::WorkerPanicked), later);
        },
    }
}

/// A run takes notice of what it has asked for and of nothing else: of the end of
/// its loop while it runs one, of threads being started, or not, while it starts
/// them, and of threads being joined while it waits for them.
pub proof fn other_events_change_nothing<E>(run: RunState<E>, event: RunEvent<E>)
    ensures
        (run is Negotiating || run is Serving) && !(event is LoopEnded) ==> run.after(event) == run,
        run is Starting && !(event is WorkerStarted || event is WorkerNotStarted) ==> run.after(
            event,
        ) == run,
        run is Joining && !(event is WorkerJoined) ==> run.after(event) == run,
        run is Ended ==> run.after(event) == run,
{
}

/// Whatever happens to a run, a thread that it starts reads from a descriptor of
/// its own exactly if the run was asked for that; and a run of at most one
/// thread starts none, so that no descriptor is cloned for it.
pub proof fn threads_read_the_descriptor_asked_for<E>(
    n_threads: usize,
    clone_fd: bool,
    events: Seq<RunEvent<E>>,
)
    ensures
        (RunState::<E>::Negotiating { n_threads }).after_all(events).next(
            clone_fd,
        ) matches RunAction::StartWorker { own_descriptor } ==> {
            &&& own_descriptor == clone_fd
            &&& n_threads > 1
        },
{
    if n_threads <= 1 {
        lemma_alone(RunState::<E>::Negotiating { n_threads }, events);
    }
}

/// A state that leads to no additional thread.
spec fn is_alone<E>(state: RunState<E>) -> bool {
    match state {
        RunState::Negotiating { n_threads } => n_threads <= 1,
        RunState::Serving { started } => started == 0,
        RunState::Ended(_) => true,
        _ => false,
    }
}

/// A run that leads to no additional thread never starts one.
proof fn lemma_alone<E>(state: RunState<E>, events: Seq<RunEvent<E>>)
    requires
        is_alone(state),
    ensures
        is_alone(state.after_all(events)),
    decreases events.len(),
{
    if events.len() > 0 {
        lemma_alone(state.after(events[0]), events.drop_first());
    }
}

/// A run that cannot start one of its threads, as when no descriptor can be cloned
/// for it, ends with that failure and starts no further thread.
pub proof fn a_thread_not_started_ends_the_run<E>(
    left: usize,
    started: usize,
    error: E,
    later: Seq<RunEvent<E>>,
)
    ensures
        (RunState::Starting { left, started }).after_all(
            seq![RunEvent::WorkerNotStarted(error)] + later,
        ) == RunState::Ended(Err(RunError::Io(error))),
{
    let events = seq![RunEvent::WorkerNotStarted(error)] + later;
    assert(events[0] == RunEvent::WorkerNotStarted(error));
    assert(events.drop_first() =~= later);
    an_ended_run_stays_ended(Err(RunError::Io(error)), later);
}

/// Joining the threads of a run ends it with the first failure among them, in the
/// order they were started in, else as its own loop ended.
pub proof fn joined_threads_decide_the_result<E>(exits: Seq<WorkerExit<E>>, own: Result<(), E>)
    requires
        exits.len() <= usize::MAX,
    ensures
        RunState::with_joins(exits.len() as usize, own).after_all(joins(exits))
            == RunState::Ended(run_outcome(exits, own)),
    decreases exits.len(),
{
    if exits.len() > 0 {
        let rest = exits.drop_first();
        assert(joins(exits).drop_first() =~= joins(rest));
        if failure(exits[0]) is Some {
            an_ended_run_stays_ended(Err(failure(exits[0])->Some_0), joins(rest));
        } else {
            joined_threads_decide_the_result(rest, own);
        }
    }
}

/// A whole run: once the session is initialized, exactly the threads that the
/// running one leaves over are started; the running thread then serves until
/// its loop ends as `own` says, and the threads are joined, which end as `exits`
/// say. The run ends with the first failure among them, else as its own loop.
pub proof fn a_run_from_start_to_end<E>(
    n_threads: usize,
    own: Result<(), E>,
    exits: Seq<WorkerExit<E>>,
    initialized: bool,
)
    requires
        exits.len() == additional_threads(n_threads),
    ensures
        (RunState::<E>::Negotiating { n_threads }).after_all(
            seq![RunEvent::<E>::LoopEnded { result: Ok(()), initialized: true }] + starts(
                additional_threads(n_threads) as nat,
            ) + seq![RunEvent::LoopEnded { result: own, initialized }] + joins(exits),
        ) == RunState::Ended(run_outcome(exits, own)),
{
    let run = RunState::<E>::Negotiating { n_threads };
    let negotiated = seq![RunEvent::<E>::LoopEnded { result: Ok(()), initialized: true }];
    let started = starts::<E>(additional_threads(n_threads) as nat);
    let served = seq![RunEvent::LoopEnded { result: own, initialized }];
    let threads = additional_threads(n_threads);
    lemma_after_all_append(run, negotiated + started + served, joins(exits));
    lemma_after_all_append(run, negotiated + started, served);
    lemma_after_all_append(run, negotiated, started);
    assert(negotiated.drop_first() =~= Seq::empty());
    assert(served.drop_first() =~= Seq::empty());
    reveal_with_fuel(RunState::after_all, 2);
    assert(run.after_all(negotiated) == RunState::<E>::with_threads(threads, 0));
    all_threads_start_before_serving::<E>(threads, 0, true);
    let serving = RunState::<E>::Serving { started: threads };
    assert(serving.after_all(served) == RunState::with_joins(threads, own));
    joined_threads_decide_the_result(exits, own);
}

/// A run whose session the kernel closes before INIT ends well, and one whose
/// first loop fails ends with that failure; either way no thread is started.
pub proof fn no_thread_starts_before_initialization<E>(
    n_threads: usize,
    result: Result<(), E>,
    initialized: bool,
    later: Seq<RunEvent<E>>,
)
    requires
        result is Err || !initialized,
    ensures
        (RunState::Negotiating { n_threads }).after_all(
            seq![RunEvent::LoopEnded { result, initialized }] + later,
        ) == RunState::Ended(loop_outcome(result)),
        result is Ok ==> (RunState::Negotiating { n_threads }).after_all(
            seq![RunEvent::LoopEnded { result, initialized }] + later,
        ) == RunState::<E>::Ended(Ok(())),
        result matches Err(error) ==> (RunState::Negotiating { n_threads }).after_all(
            seq![RunEvent::LoopEnded { result, initialized }] + later,
        ) == RunState::Ended(Err(RunError::Io(error))),
{
    let events = seq![RunEvent::LoopEnded { result, initialized }] + later;
    assert(events[0] == (RunEvent::LoopEnded { result, initialized }));
    assert(events.drop_first() =~= later);
    an_ended_run_stays_ended(loop_outcome(result), later);
}

/// A run succeeds exactly when every loop of it does and no thread panics.
pub proof fn success_needs_every_loop<E>(exits: Seq<WorkerExit<E>>, own: Result<(), E>)
    ensures
        run_outcome(exits, own) is Ok <==> (own is Ok && forall|i: int|
            0 <= i < exits.len() ==> failure(#[trigger] exits[i]) is None),
        run_outcome(exits, own) is Ok <==> (own is Ok && forall|i: int|
            0 <= i < exits.len() ==> #[trigger] exits[i] == WorkerExit::<E>::Returned(Ok(()))),
    decreases exits.len(),
{
    if exits.len() > 0 {
        let rest = exits.drop_first();
        success_needs_every_loop(rest, own);
        assert(forall|i: int| 0 <= i < rest.len() ==> #[trigger] rest[i] == exits[i + 1]);
        assert(forall|i: int| 1 <= i < exits.len() ==> #[trigger] exits[i] == rest[i - 1]);
    }
    assert forall|i: int| failure(#[trigger] exits[i]) is None <==> exits[i]
        == WorkerExit::<E>::Returned(Ok(())) by {
        if let WorkerExit::Returned(Ok(done)) = exits[i] {
            assert(done == ());
        }
    }
}

/// The threads after one that failed play no part in the result, so that nobody
/// waits for them.
pub proof fn threads_after_a_failure_do_not_matter<E>(
    exits: Seq<WorkerExit<E>>,
    later: Seq<WorkerExit<E>>,
    own: Result<(), E>,
)
    requires
        first_failure(exits) is Some,
    ensures
        run_outcome(exits + later, own) == run_outcome(exits, own),
    decreases exits.len(),
{
    assert((exits + later)[0] == exits[0]);
    if failure(exits[0]) is None {
        assert((exits + later).drop_first() =~= exits.drop_first() + later);
        threads_after_a_failure_do_not_matter(exits.drop_first(), later, own);
    }
}

} // verus!
