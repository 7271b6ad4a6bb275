//! The loop that serves the requests of a session.
//!
//! An [`EventLoop`] decides; whoever drives it does the work. It is told what
//! happened, answers what to do next, and lends the buffer to receive into.

use crate::align::{address_of, checked_aligned_sub_buf_at, request_alignment};
use crate::errno::{AfterFailure, Errnos};
use crate::read_buf::BUFFER_SIZE;
use crate::session::FilesystemSession;
use vstd::prelude::*;

verus! {

/// What happened.
#[derive(Clone, Copy, Debug, PartialEq, Eq, Structural)]
pub enum LoopEvent {
    /// The loop was entered.
    Started,
    /// A request was received and dispatched.
    Dispatched,
    /// What was received is no legal request.
    Illegal,
    /// Receiving failed, with this error number if it has one.
    ReceiveFailed(Option<i32>),
}

/// What to do next.
#[derive(Clone, Copy, Debug, PartialEq, Eq, Structural)]
pub enum LoopAction {
    /// Receive the next request and dispatch it.
    Receive,
    /// Leave the loop: it succeeded.
    Finish,
    /// Leave the loop with the failure that was just reported.
    Fail,
}

/// Read-dispatch loop for a single event-loop thread.
#[derive(Debug)]
pub struct EventLoop {
    /// Buffer for receiving requests from the kernel. Only one is allocated and
    /// it is reused immediately after dispatching to conserve memory and allocations.
    buffer: Vec<u8>,
    errnos: Errnos,
    until_initialized: bool,
}

/// What a loop does that is about to receive.
pub open spec fn receive_or_finish(until_initialized: bool, initialized: bool) -> LoopAction {
    if until_initialized && initialized {
        LoopAction::Finish
    } else {
        LoopAction::Receive
    }
}

/// What a loop does after `event`, where `initialized` says whether the session
/// is initialized by now.
pub open spec fn next_action(
    until_initialized: bool,
    errnos: Errnos,
    initialized: bool,
    event: LoopEvent,
) -> LoopAction {
    match event {
        LoopEvent::Started | LoopEvent::Dispatched => receive_or_finish(
            until_initialized,
            initialized,
        ),
        LoopEvent::Illegal => LoopAction::Finish,
        LoopEvent::ReceiveFailed(errno) => match errnos.after_failure(errno) {
            AfterFailure::Retry => receive_or_finish(until_initialized, initialized),
            AfterFailure::Quit => LoopAction::Finish,
            AfterFailure::Fail => LoopAction::Fail,
        },
    }
}

/// The length of a buffer of `len` bytes that is lowered to a size, if it is
/// larger.
pub open spec fn lowered_len(len: int, size: int) -> int {
    if size < len {
        size
    } else {
        len
    }
}

/// A buffer that is lowered to a size, if it is larger.
pub open spec fn lowered(buffer: Seq<u8>, size: int) -> Seq<u8> {
    if size < buffer.len() {
        buffer.take(size)
    } else {
        buffer
    }
}

/// Gives back the memory that a vector has allocated and does not use, with
/// `Vec::shrink_to_fit`. The contents stay as they are.
#[verifier::external_body]
fn release_spare_memory(buffer: &mut Vec<u8>)
    ensures
        final(buffer)@ == old(buffer)@,
{
    buffer.shrink_to_fit();
}

impl EventLoop {
    /// What the buffer holds.
    pub closed spec fn buffer(&self) -> Seq<u8> {
        self.buffer@
    }

    /// The error numbers that the loop goes by.
    pub closed spec fn errnos(&self) -> Errnos {
        self.errnos
    }

    /// The loop ends once the session is initialized.
    pub closed spec fn until_initialized(&self) -> bool {
        self.until_initialized
    }

    /// A loop for `session`. If `until_initialized` is true, the loop ends after
    /// `FUSE_INIT` has been processed.
    pub fn new<FS>(session: &FilesystemSession<FS>, until_initialized: bool) -> (events: Self)
        ensures
            events.buffer() == Seq::new(
                lowered_len(BUFFER_SIZE as int, session.buffer_size as int) as nat,
                |i: int| 0u8,
            ),
            events.errnos().wf(),
            events.until_initialized() == until_initialized,
            session.buffer_size <= BUFFER_SIZE ==> events.buffer().len() == session.buffer_size,
            BUFFER_SIZE <= session.buffer_size ==> events.buffer().len() == BUFFER_SIZE,
            forall|i: int| 0 <= i < events.buffer().len() ==> events.buffer()[i] == 0,
            events.errnos().enoent == 2,
            events.errnos().eintr == 4,
            events.errnos().eagain == 11 || events.errnos().eagain == 35,
            events.errnos().enodev == 19,
    {
        let size: usize = if session.buffer_size < BUFFER_SIZE {
            session.buffer_size
        } else {
            BUFFER_SIZE
        };
        let buffer: Vec<u8> = vec![0; size];
        assert(buffer@ =~= Seq::new(size as nat, |i: int| 0u8));
        EventLoop { buffer, errnos: Errnos::host(), until_initialized }
    }

    /// Decides what to do after `event`. Before a receive the buffer is lowered
    /// to the size that `session` has negotiated.
    pub fn step<FS>(&mut self, session: &FilesystemSession<FS>, event: LoopEvent) -> (action:
        LoopAction)
        ensures
            action == next_action(
                old(self).until_initialized(),
                old(self).errnos(),
                session.initialized,
                event,
            ),
            final(self).until_initialized() == old(self).until_initialized(),
            final(self).errnos() == old(self).errnos(),
            final(self).buffer() == (if action == LoopAction::Receive {
                lowered(old(self).buffer(), session.buffer_size as int)
            } else {
                old(self).buffer()
            }),
            ({
                let errnos = old(self).errnos();
                let retried = event == LoopEvent::ReceiveFailed(Some(errnos.enoent)) || event
                    == LoopEvent::ReceiveFailed(Some(errnos.eintr)) || event
                    == LoopEvent::ReceiveFailed(Some(errnos.eagain));
                let unmounted = event == LoopEvent::ReceiveFailed(Some(errnos.enodev)) && !retried;
                let serves = event == LoopEvent::Started || event == LoopEvent::Dispatched
                    || retried;
                let negotiated = old(self).until_initialized() && session.initialized;
                &&& action == LoopAction::Receive <==> serves && !negotiated
                &&& action == LoopAction::Finish <==> event == LoopEvent::Illegal || unmounted || (
                serves && negotiated)
            }),
            action == LoopAction::Receive && session.buffer_size < old(self).buffer().len()
                ==> final(self).buffer() == old(self).buffer().take(session.buffer_size as int),
            action != LoopAction::Receive || old(self).buffer().len() <= session.buffer_size
                ==> final(self).buffer() == old(self).buffer(),
    {
        match event {
            LoopEvent::Started | LoopEvent::Dispatched => {},
            // Quit loop on illegal request
            LoopEvent::Illegal => {
                return LoopAction::Finish;
            },
            LoopEvent::ReceiveFailed(errno) => match self.errnos.receive_failed(errno) {
                AfterFailure::Retry => {},
                AfterFailure::Quit => {
                    return LoopAction::Finish;
                },
                AfterFailure::Fail => {
                    return LoopAction::Fail;
                },
            },
        }
        if self.until_initialized && session.initialized {
            return LoopAction::Finish;
        }
        // After FUSE_INIT, lower the buffer to the negotiated max_write size.
        if session.buffer_size < self.buffer.len() {
            self.buffer.resize(session.buffer_size, 0);
            release_spare_memory(&mut self.buffer);
        }
        LoopAction::Receive
    }

    /// The aligned part of the buffer, to receive into, or `None` if the buffer
    /// ends before its first aligned byte. Where that is depends on where the
    /// buffer lies in memory, as [`EventLoop::receive_buffer_at`] says for each
    /// address.
    pub fn receive_buffer(&mut self) -> (aligned: Option<&mut [u8]>)
        ensures
            crate::align::header_alignment() <= old(self).buffer().len() + 1 ==> aligned is Some,
            aligned matches Some(part) ==> {
                &&& part@.len() <= old(self).buffer().len() < part@.len()
                    + crate::align::header_alignment()
                &&& part@ == old(self).buffer().skip(old(self).buffer().len() - part@.len())
                &&& final(self).buffer() == old(self).buffer().take(
                    old(self).buffer().len() - part@.len(),
                ) + final(part)@
            },
            aligned is None ==> final(self).buffer() == old(self).buffer(),
            final(self).until_initialized() == old(self).until_initialized(),
            final(self).errnos() == old(self).errnos(),
    {
        let address = address_of(self.buffer.as_slice());
        proof {
            crate::align::header_alignment_is_small();
            crate::align::padding_is_bounded(
                address as int,
                crate::align::header_alignment() as int,
            );
        }
        self.receive_buffer_at(address)
    }

    /// The aligned part of the buffer, to receive into, where the buffer lies at
    /// `address`: it starts at an aligned address, and no earlier byte of the
    /// buffer does. `None` if the buffer ends before such a byte.
    pub fn receive_buffer_at(&mut self, address: usize) -> (aligned: Option<&mut [u8]>)
        ensures
            aligned is Some <==> crate::align::padding(
                address as int,
                crate::align::header_alignment() as int,
            ) <= old(self).buffer().len(),
            aligned matches Some(part) ==> {
                &&& part@ == old(self).buffer().skip(
                    crate::align::padding(address as int, crate::align::header_alignment() as int),
                )
                &&& (address + (old(self).buffer().len() - part@.len())) % (
                crate::align::header_alignment() as int) == 0
                &&& part@.len() <= old(self).buffer().len() < part@.len()
                    + crate::align::header_alignment()
                &&& final(self).buffer() == old(self).buffer().take(
                    old(self).buffer().len() - part@.len(),
                ) + final(part)@
            },
            aligned is None ==> final(self).buffer() == old(self).buffer(),
            final(self).until_initialized() == old(self).until_initialized(),
            final(self).errnos() == old(self).errnos(),
    {
        let alignment = request_alignment();
        proof {
            crate::align::header_alignment_is_small();
            crate::align::padding_is_bounded(address as int, alignment as int);
        }
        checked_aligned_sub_buf_at(self.buffer.as_mut_slice(), address, alignment)
    }
}

/// What a loop is told at one step: what happened, and what the session is like
/// by then.
pub struct LoopInput {
    /// What happened.
    pub event: LoopEvent,
    /// The session is initialized.
    pub initialized: bool,
    /// The buffer size of the session.
    pub buffer_size: usize,
}

/// How a loop ends that is told `inputs`, or `None` if it is still running
/// after them. What it is told after its end plays no part.
pub open spec fn outcome(
    until_initialized: bool,
    errnos: Errnos,
    inputs: Seq<LoopInput>,
) -> Option<LoopAction>
    decreases inputs.len(),
{
    if inputs.len() == 0 {
        None
    } else {
        let action = next_action(
            until_initialized,
            errnos,
            inputs[0].initialized,
            inputs[0].event,
        );
        if action == LoopAction::Receive {
            outcome(until_initialized, errnos, inputs.drop_first())
        } else {
            Some(action)
        }
    }
}

/// An event after which a loop goes on serving requests: entering it, a
/// dispatched request, and a failure that is to be retried.
pub open spec fn is_harmless(errnos: Errnos, event: LoopEvent) -> bool {
    match event {
        LoopEvent::Started | LoopEvent::Dispatched => true,
        LoopEvent::Illegal => false,
        LoopEvent::ReceiveFailed(errno) => errnos.retries(errno),
    }
}

/// When a loop does which: it fails exactly on a failure that is neither retried
/// nor `ENODEV`; it finishes exactly on an illegal request, on `ENODEV`, and,
/// where it runs until initialization, once the session is initialized; else
/// it receives.
pub proof fn actions_exactly_when(
    until_initialized: bool,
    errnos: Errnos,
    initialized: bool,
    event: LoopEvent,
)
    requires
        errnos.wf(),
    ensures
        ({
            let action = next_action(until_initialized, errnos, initialized, event);
            let unmounted = event == LoopEvent::ReceiveFailed(Some(errnos.enodev));
            let negotiated = until_initialized && initialized && is_harmless(errnos, event);
            &&& action == LoopAction::Finish <==> (event == LoopEvent::Illegal || unmounted
                || negotiated)
            &&& action == LoopAction::Fail <==> (event is ReceiveFailed && !is_harmless(
                errnos,
                event,
            ) && !unmounted)
            &&& action == LoopAction::Receive <==> (is_harmless(errnos, event) && !negotiated)
        }),
{
}

/// What a loop does, by what happened and by the error number alone: it fails
/// exactly where receiving failed with none of the numbers of `ENOENT`, `EINTR`,
/// `EAGAIN` and `ENODEV`; it stops on an illegal request and on `ENODEV`; after
/// anything else it receives, unless it was to run until initialization only
/// and the session is initialized.
pub proof fn actions_by_what_happened(
    until_initialized: bool,
    errnos: Errnos,
    initialized: bool,
    event: LoopEvent,
)
    requires
        errnos.enoent == 2,
        errnos.eintr == 4,
        errnos.eagain == 11 || errnos.eagain == 35,
        errnos.enodev == 19,
    ensures
        ({
            let action = next_action(until_initialized, errnos, initialized, event);
            let number = match event {
                LoopEvent::ReceiveFailed(Some(code)) => code as int,
                _ => 0,
            };
            let failed = event is ReceiveFailed;
            let known = number == 2 || number == 4 || number == errnos.eagain || number == 19;
            &&& failed && !known <==> action == LoopAction::Fail
            &&& event == LoopEvent::Illegal || (failed && number == 19) ==> action
                == LoopAction::Finish
            &&& event == LoopEvent::Started || event == LoopEvent::Dispatched || (failed && known
                && number != 19) ==> action == (if until_initialized && initialized {
                LoopAction::Finish
            } else {
                LoopAction::Receive
            })
        }),
{
}

/// A loop that is not to stop at initialization takes no notice of it.
pub proof fn initialization_matters_only_until_it(errnos: Errnos, event: LoopEvent)
    ensures
        next_action(false, errnos, true, event) == next_action(false, errnos, false, event),
        next_action(true, errnos, false, event) == next_action(false, errnos, false, event),
        next_action(true, errnos, true, event) == (if next_action(false, errnos, false, event)
            == LoopAction::Receive {
            LoopAction::Finish
        } else {
            next_action(false, errnos, false, event)
        }),
{
}

/// However often receiving is interrupted, and however many requests it serves,
/// a loop does not end by it; only a loop that runs until initialization ends
/// without an illegal request or a failure that stops it, and not before the
/// session is initialized.
pub proof fn harmless_events_never_end_a_loop(
    until_initialized: bool,
    errnos: Errnos,
    inputs: Seq<LoopInput>,
)
    requires
        errnos.wf(),
        forall|i: int|
            0 <= i < inputs.len() ==> {
                &&& is_harmless(errnos, (#[trigger] inputs[i]).event)
                &&& until_initialized ==> !inputs[i].initialized
            },
    ensures
        outcome(until_initialized, errnos, inputs) is None,
    decreases inputs.len(),
{
    if inputs.len() > 0 {
        let rest = inputs.drop_first();
        assert(is_harmless(errnos, inputs[0].event));
        assert forall|i: int| 0 <= i < rest.len() implies {
            &&& is_harmless(errnos, (#[trigger] rest[i]).event)
            &&& until_initialized ==> !rest[i].initialized
        } by {
            assert(rest[i] == inputs[i + 1]);
        }
        harmless_events_never_end_a_loop(until_initialized, errnos, rest);
    }
}

/// A loop ends at the first input that does not let it receive, with what that
/// input gives: `inputs` start with harmless ones, then comes `last`.
pub proof fn first_other_input_ends_a_loop(
    until_initialized: bool,
    errnos: Errnos,
    inputs: Seq<LoopInput>,
    last: LoopInput,
    later: Seq<LoopInput>,
)
    requires
        outcome(until_initialized, errnos, inputs) is None,
        next_action(until_initialized, errnos, last.initialized, last.event) != LoopAction::Receive,
    ensures
        outcome(until_initialized, errnos, inputs.push(last) + later) == Some(
            next_action(until_initialized, errnos, last.initialized, last.event),
        ),
    decreases inputs.len(),
{
    let all = inputs.push(last) + later;
    if inputs.len() == 0 {
        assert(all[0] == last);
    } else {
        assert(all[0] == inputs[0]);
        assert(all.drop_first() =~= inputs.drop_first().push(last) + later);
        first_other_input_ends_a_loop(
            until_initialized,
            errnos,
            inputs.drop_first(),
            last,
            later,
        );
    }
}

/// A loop that runs until initialization never receives again once the session
/// is initialized, so the requests after it are left to other loops.
pub proof fn nothing_is_received_after_initialization(errnos: Errnos, event: LoopEvent)
    ensures
        next_action(true, errnos, true, event) != LoopAction::Receive,
{
}

/// The input at `i` is a failure that is retried.
pub open spec fn is_retry(errnos: Errnos, inputs: Seq<LoopInput>, i: int) -> bool {
    inputs[i].event matches LoopEvent::ReceiveFailed(errno) && errnos.retries(errno)
}

/// The inputs without the failures that are retried.
pub open spec fn without_retries(errnos: Errnos, inputs: Seq<LoopInput>) -> Seq<LoopInput>
    decreases inputs.len(),
{
    if inputs.len() == 0 {
        inputs
    } else if is_retry(errnos, inputs, 0) {
        without_retries(errnos, inputs.drop_first())
    } else {
        seq![inputs[0]] + without_retries(errnos, inputs.drop_first())
    }
}

/// Failures that are retried play no part in how a loop ends: it ends in the same
/// way where they are left out. A failure does not change whether the session is
/// initialized, and none comes before the loop is entered.
pub proof fn retries_do_not_matter(
    until_initialized: bool,
    errnos: Errnos,
    inputs: Seq<LoopInput>,
)
    requires
        forall|i: int|
            0 <= i < inputs.len() && #[trigger] is_retry(errnos, inputs, i) ==> {
                &&& 0 < i
                &&& inputs[i].initialized == inputs[i - 1].initialized
            },
    ensures
        outcome(until_initialized, errnos, without_retries(errnos, inputs)) == outcome(
            until_initialized,
            errnos,
            inputs,
        ),
{
    if inputs.len() > 0 {
        assert(!is_retry(errnos, inputs, 0));
        lemma_retries_after_receive(until_initialized, errnos, inputs, false);
    }
}

/// [`retries_do_not_matter`] for what follows an input after which the loop
/// received, and at which the session was initialized or not as `before` says.
proof fn lemma_retries_after_receive(
    until_initialized: bool,
    errnos: Errnos,
    inputs: Seq<LoopInput>,
    before: bool,
)
    requires
        !(until_initialized && before),
        forall|i: int|
            0 <= i < inputs.len() && #[trigger] is_retry(errnos, inputs, i) ==> inputs[i].initialized
                == (if i == 0 {
                before
            } else {
                inputs[i - 1].initialized
            }),
    ensures
        outcome(until_initialized, errnos, without_retries(errnos, inputs)) == outcome(
            until_initialized,
            errnos,
            inputs,
        ),
    decreases inputs.len(),
{
    if inputs.len() > 0 {
        let first = inputs[0];
        let rest = inputs.drop_first();
        let kept = without_retries(errnos, rest);
        let action = next_action(until_initialized, errnos, first.initialized, first.event);
        assert forall|i: int|
            0 <= i < rest.len() && #[trigger] is_retry(errnos, rest, i) implies rest[i].initialized
            == (if i == 0 {
            first.initialized
        } else {
            rest[i - 1].initialized
        }) by {
            assert(is_retry(errnos, inputs, i + 1));
        }
        if is_retry(errnos, inputs, 0) {
            assert(action == LoopAction::Receive);
            lemma_retries_after_receive(until_initialized, errnos, rest, first.initialized);
        } else {
            assert((seq![first] + kept).drop_first() =~= kept);
            if action == LoopAction::Receive {
                lemma_retries_after_receive(until_initialized, errnos, rest, first.initialized);
            }
        }
    }
}

/// What comes of trying to receive a request.
pub enum Receipt<R> {
    /// A legal request.
    Request(R),
    /// Bytes that are no legal request.
    Illegal,
    /// A failure, with this error number if it has one.
    Failed(Option<i32>),
}

/// How a loop ended.
pub enum LoopEnd {
    /// It succeeded.
    Finished,
    /// It failed with the failure that has this error number, if any.
    Failed(Option<i32>),
}

/// A session as far as a loop is concerned, in a state of type `S`.
#[verifier::reject_recursive_types(S)]
#[verifier::reject_recursive_types(R)]
pub struct SessionModel<S, R> {
    /// The session is initialized in this state.
    pub initialized: spec_fn(S) -> bool,
    /// The state that dispatching a request leaves.
    pub dispatch: spec_fn(S, R) -> S,
}

/// What a loop has done.
pub struct LoopRun<S, R> {
    /// The requests that were dispatched, in their order.
    pub dispatched: Seq<R>,
    /// The state that the session is left in.
    pub session: S,
    /// How the loop ended, or `None` if it waits for a receipt.
    pub end: Option<LoopEnd>,
}

/// What a loop does that was just told `event`, has dispatched `dispatched`, and
/// from then on receives `receipts`, in this order.
pub open spec fn serve<S, R>(
    until_initialized: bool,
    errnos: Errnos,
    model: SessionModel<S, R>,
    session: S,
    dispatched: Seq<R>,
    event: LoopEvent,
    receipts: Seq<Receipt<R>>,
) -> LoopRun<S, R>
    decreases receipts.len(),
{
    match next_action(until_initialized, errnos, (model.initialized)(session), event) {
        LoopAction::Finish => LoopRun { dispatched, session, end: Some(LoopEnd::Finished) },
        LoopAction::Fail => LoopRun {
            dispatched,
            session,
            end: Some(
                LoopEnd::Failed(
                    match event {
                        LoopEvent::ReceiveFailed(errno) => errno,
                        _ => None,
                    },
                ),
            ),
        },
        LoopAction::Receive => if receipts.len() == 0 {
            LoopRun { dispatched, session, end: None }
        } else {
            match receipts[0] {
                Receipt::Request(request) => serve(
                    until_initialized,
                    errnos,
                    model,
                    (model.dispatch)(session, request),
                    dispatched.push(request),
                    LoopEvent::Dispatched,
                    receipts.drop_first(),
                ),
                Receipt::Illegal => serve(
                    until_initialized,
                    errnos,
                    model,
                    session,
                    dispatched,
                    LoopEvent::Illegal,
                    receipts.drop_first(),
                ),
                Receipt::Failed(errno) => serve(
                    until_initialized,
                    errnos,
                    model,
                    session,
                    dispatched,
                    LoopEvent::ReceiveFailed(errno),
                    receipts.drop_first(),
                ),
            }
        },
    }
}

/// The receipts without the failures that are retried.
pub open spec fn without_retried<R>(errnos: Errnos, receipts: Seq<Receipt<R>>) -> Seq<Receipt<R>>
    decreases receipts.len(),
{
    if receipts.len() == 0 {
        receipts
    } else {
        let kept = without_retried(errnos, receipts.drop_first());
        match receipts[0] {
            Receipt::Failed(errno) if errnos.retries(errno) => kept,
            first => seq![first] + kept,
        }
    }
}

/// Failures that are retried only cause another receive: a loop dispatches the
/// same requests in the same order, leaves the session in the same state and
/// ends in the same way where they are left out.
pub proof fn retries_only_receive_again<S, R>(
    until_initialized: bool,
    errnos: Errnos,
    model: SessionModel<S, R>,
    session: S,
    dispatched: Seq<R>,
    event: LoopEvent,
    receipts: Seq<Receipt<R>>,
)
    ensures
        serve(
            until_initialized,
            errnos,
            model,
            session,
            dispatched,
            event,
            without_retried(errnos, receipts),
        ) == serve(until_initialized, errnos, model, session, dispatched, event, receipts),
    decreases receipts.len(),
{
    let action = next_action(until_initialized, errnos, (model.initialized)(session), event);
    if action == LoopAction::Receive && receipts.len() > 0 {
        let first = receipts[0];
        let rest = receipts.drop_first();
        let kept = without_retried(errnos, rest);
        assert((seq![first] + kept).drop_first() =~= kept);
        match first {
            Receipt::Request(request) => {
                retries_only_receive_again(
                    until_initialized,
                    errnos,
                    model,
                    (model.dispatch)(session, request),
                    dispatched.push(request),
                    LoopEvent::Dispatched,
                    rest,
                );
            },
            Receipt::Illegal => {
                retries_only_receive_again(
                    until_initialized,
                    errnos,
                    model,
                    session,
                    dispatched,
                    LoopEvent::Illegal,
                    rest,
                );
            },
            Receipt::Failed(errno) => {
                let failed = LoopEvent::ReceiveFailed(errno);
                retries_only_receive_again(
                    until_initialized,
                    errnos,
                    model,
                    session,
                    dispatched,
                    failed,
                    rest,
                );
                if errnos.retries(errno) {
                    // The session has not changed, so the loop receives again,
                    // and does with the rest what it would have done before.
                    assert(next_action(
                        until_initialized,
                        errnos,
                        (model.initialized)(session),
                        failed,
                    ) == LoopAction::Receive);
                    assert(serve(
                        until_initialized,
                        errnos,
                        model,
                        session,
                        dispatched,
                        failed,
                        kept,
                    ) == serve(
                        until_initialized,
                        errnos,
                        model,
                        session,
                        dispatched,
                        event,
                        kept,
                    ));
                }
            },
        }
    }
}

/// The length that a buffer of `len` bytes has after `inputs`. What the loop is
/// told after its end plays no part.
pub open spec fn length_after(
    until_initialized: bool,
    errnos: Errnos,
    len: int,
    inputs: Seq<LoopInput>,
) -> int
    decreases inputs.len(),
{
    if inputs.len() == 0 || next_action(
        until_initialized,
        errnos,
        inputs[0].initialized,
        inputs[0].event,
    ) != LoopAction::Receive {
        len
    } else {
        length_after(
            until_initialized,
            errnos,
            lowered_len(len, inputs[0].buffer_size as int),
            inputs.drop_first(),
        )
    }
}

/// `least` is the least of the default size, the size that the session had when
/// the loop was made, and the sizes that it had at each input.
pub open spec fn is_least_size(least: int, start: int, inputs: Seq<LoopInput>) -> bool {
    &&& least <= BUFFER_SIZE
    &&& least <= start
    &&& forall|i: int| 0 <= i < inputs.len() ==> least <= (#[trigger] inputs[i]).buffer_size
    &&& least == BUFFER_SIZE || least == start || exists|i: int|
        0 <= i < inputs.len() && least == (#[trigger] inputs[i]).buffer_size
}

/// Over a whole run the buffer is as long as the least of the default size and
/// all sizes that the session has had, so that it shrinks when the size is
/// lowered and never grows again; and what is lent of it to receive into is
/// shorter by fewer bytes than the header's alignment, and is there wherever the
/// sizes are at least that alignment. `start` is the session's size when the
/// loop was made, each of `inputs` made the loop receive, and `lent` is the
/// length of the aligned part.
pub proof fn buffer_has_the_least_size(
    until_initialized: bool,
    errnos: Errnos,
    start: usize,
    inputs: Seq<LoopInput>,
    lent: int,
)
    requires
        outcome(until_initialized, errnos, inputs) is None,
        ({
            let len = length_after(
                until_initialized,
                errnos,
                lowered_len(BUFFER_SIZE as int, start as int),
                inputs,
            );
            lent <= len < lent + crate::align::header_alignment()
        }),
    ensures
        ({
            let len = length_after(
                until_initialized,
                errnos,
                lowered_len(BUFFER_SIZE as int, start as int),
                inputs,
            );
            &&& is_least_size(len, start as int, inputs)
            &&& len - crate::align::header_alignment() < lent <= len
            &&& (start >= crate::align::header_alignment() && forall|i: int|
                0 <= i < inputs.len() ==> (#[trigger] inputs[i]).buffer_size
                    >= crate::align::header_alignment()) ==> len
                >= crate::align::header_alignment()
        }),
{
    crate::align::header_alignment_is_small();
    lemma_length_after(
        until_initialized,
        errnos,
        lowered_len(BUFFER_SIZE as int, start as int),
        inputs,
    );
}

/// The length after inputs that each made the loop receive.
proof fn lemma_length_after(
    until_initialized: bool,
    errnos: Errnos,
    len: int,
    inputs: Seq<LoopInput>,
)
    requires
        outcome(until_initialized, errnos, inputs) is None,
    ensures
        ({
            let after = length_after(until_initialized, errnos, len, inputs);
            &&& after <= len
            &&& forall|i: int| 0 <= i < inputs.len() ==> after <= (#[trigger] inputs[i]).buffer_size
            &&& after == len || exists|i: int|
                0 <= i < inputs.len() && after == (#[trigger] inputs[i]).buffer_size
        }),
    decreases inputs.len(),
{
    if inputs.len() > 0 {
        let rest = inputs.drop_first();
        let shorter = lowered_len(len, inputs[0].buffer_size as int);
        let after = length_after(until_initialized, errnos, len, inputs);
        lemma_length_after(until_initialized, errnos, shorter, rest);
        assert forall|i: int| 0 <= i < inputs.len() implies after <= (
        #[trigger] inputs[i]).buffer_size by {
            if i > 0 {
                assert(rest[i - 1] == inputs[i]);
            }
        }
        if after != shorter {
            let k = choose|k: int|
                0 <= k < rest.len() && after == (#[trigger] rest[k]).buffer_size;
            assert(inputs[k + 1] == rest[k]);
        } else if shorter != len {
            assert(after == inputs[0].buffer_size);
        }
    }
}

/// What lowering leaves of a buffer: exactly as many of its first bytes as the
/// size says, and the whole of it where the size is not smaller.
pub proof fn lowering_keeps_the_first_bytes(buffer: Seq<u8>, size: int)
    requires
        0 <= size,
    ensures
        size <= buffer.len() ==> lowered(buffer, size).len() == size,
        buffer.len() <= size ==> lowered(buffer, size) == buffer,
        forall|i: int|
            0 <= i < lowered(buffer, size).len() ==> #[trigger] lowered(buffer, size)[i]
                == buffer[i],
        size <= buffer.len() ==> lowered_len(buffer.len() as int, size) == size,
        buffer.len() <= size ==> lowered_len(buffer.len() as int, size) == buffer.len(),
{
}

/// Lowering never lets a buffer grow: what is left starts as the buffer did, fits
/// in every size it was lowered to, and lowering it twice to one size is
/// lowering it once.
pub proof fn lowering_only_shrinks(buffer: Seq<u8>, first: int, second: int)
    requires
        0 <= first,
        0 <= second,
    ensures
        lowered(buffer, first).len() <= buffer.len(),
        lowered(buffer, first).len() <= first,
        lowered(buffer, first).len() == lowered_len(buffer.len() as int, first),
        lowered(buffer, first) == buffer.take(lowered(buffer, first).len() as int),
        lowered(lowered(buffer, first), first) == lowered(buffer, first),
        lowered(lowered(buffer, first), second).len() <= first,
{
    assert(buffer.take(buffer.len() as int) =~= buffer);
}

} // verus!
