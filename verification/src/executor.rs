//! The subscription executor: turns a bus subscription into a lazy,
//! cancellable sequence of execution results.
//!
//! Starting an executor attaches a fresh bus handle; each poll maps one bus
//! observation into at most one result: a delivered event becomes a success
//! carrying the created entity (identity passthrough of its shape), an
//! overrun becomes one in-band error result after which the sequence
//! continues, and a closed bus terminates the sequence and releases the
//! handle. A cancelled executor releases its handle promptly, so it occupies
//! no further bus slot.

use vstd::prelude::*;

use crate::bus::{poll_model, BusHandle, BusPoll, EventBus, PollView};
use crate::models::{Human, HumanView};

verus! {

/// One value of a subscription's result sequence: either a successfully
/// computed output or a structured in-band error.
pub enum ExecutionResult {
    /// The created entity, passed through in its query shape.
    Data(Human),
    /// Some events were missed: the subscriber lagged past the bus's
    /// retention window. Streaming resumes after this result.
    EventsMissed,
}

/// The mathematical value of an `ExecutionResult`.
pub enum ExecutionResultView {
    Data(HumanView),
    EventsMissed,
}

impl View for ExecutionResult {
    type V = ExecutionResultView;

    open spec fn view(&self) -> ExecutionResultView {
        match self {
            ExecutionResult::Data(h) => ExecutionResultView::Data(h@),
            ExecutionResult::EventsMissed => ExecutionResultView::EventsMissed,
        }
    }
}

/// What one poll of an executor yields.
pub enum ExecutorPoll {
    /// The next result of the sequence.
    Ready(ExecutionResult),
    /// Nothing yet; poll again later.
    Pending,
    /// The sequence has ended (the bus closed); the handle is released.
    Terminated,
}

/// The mathematical value of an `ExecutorPoll`.
pub enum ExecutorPollView {
    Ready(ExecutionResultView),
    Pending,
    Terminated,
}

impl View for ExecutorPoll {
    type V = ExecutorPollView;

    open spec fn view(&self) -> ExecutorPollView {
        match self {
            ExecutorPoll::Ready(r) => ExecutorPollView::Ready(r@),
            ExecutorPoll::Pending => ExecutorPollView::Pending,
            ExecutorPoll::Terminated => ExecutorPollView::Terminated,
        }
    }
}

/// How an executor renders one bus observation as a poll outcome: events map
/// to success results, an overrun to one in-band error result, a quiet bus to
/// `Pending`, and a closed bus to termination.
pub open spec fn render_poll(out: PollView) -> ExecutorPollView {
    match out {
        PollView::Event(h) => ExecutorPollView::Ready(ExecutionResultView::Data(h)),
        PollView::Overrun => ExecutorPollView::Ready(ExecutionResultView::EventsMissed),
        PollView::Pending => ExecutorPollView::Pending,
        PollView::Closed => ExecutorPollView::Terminated,
    }
}

/// A live subscription: one bus handle and the knowledge of whether the
/// sequence has ended.
pub struct SubscriptionExecutor {
    handle: BusHandle,
    finished: bool,
}

impl SubscriptionExecutor {
    /// The bus handle this executor reads through.
    pub closed spec fn handle(&self) -> BusHandle {
        self.handle
    }

    /// Whether the sequence has ended and the handle was given back.
    pub closed spec fn finished(&self) -> bool {
        self.finished
    }

    /// An executor is well formed against its bus: while the sequence runs,
    /// its handle is attached.
    pub open spec fn wf(&self, bus: &EventBus) -> bool {
        !self.finished() ==> bus.attached(self.handle())
    }

    /// The position of the executor's cursor in the bus log.
    pub open spec fn cursor(&self, bus: &EventBus) -> nat {
        bus.cursor_of(self.handle())
    }

    /// Start a subscription: attach a fresh handle. The cursor starts at the
    /// end of the log, so the sequence carries exactly the events published
    /// after this call.
    pub fn start(bus: &mut EventBus) -> (ex: SubscriptionExecutor)
        requires
            old(bus).inv(),
            old(bus).num_slots() < usize::MAX,
        ensures
            final(bus).inv(),
            ex.wf(final(bus)),
            !ex.finished(),
            ex.handle().id == old(bus).num_slots(),
            ex.cursor(final(bus)) == old(bus).log().len(),
            final(bus).log() == old(bus).log(),
            final(bus).capacity() == old(bus).capacity(),
            final(bus).is_closed() == old(bus).is_closed(),
            final(bus).num_slots() == old(bus).num_slots() + 1,
            final(bus).sub_count() == old(bus).sub_count() + 1,
            forall|g: BusHandle|
                g.id != ex.handle().id ==> (#[trigger] final(bus).attached(g)) == old(bus).attached(g),
            forall|g: BusHandle|
                g.id != ex.handle().id && old(bus).attached(g) ==> (#[trigger] final(bus).cursor_of(g)) == old(bus).cursor_of(g),
    {
        let handle = bus.subscribe();
        SubscriptionExecutor { handle, finished: false }
    }

    /// Pull the next step of the result sequence: one bus poll, rendered by
    /// `render_poll`. A terminated sequence has released its handle (the
    /// subscriber count drops by one); any other outcome leaves the
    /// subscription attached with the cursor `poll_model` gives it.
    pub fn poll(&mut self, bus: &mut EventBus) -> (r: ExecutorPoll)
        requires
            old(bus).inv(),
            old(self).wf(old(bus)),
            !old(self).finished(),
        ensures
            final(bus).inv(),
            final(self).wf(final(bus)),
            final(self).handle() == old(self).handle(),
            final(bus).log() == old(bus).log(),
            final(bus).capacity() == old(bus).capacity(),
            final(bus).is_closed() == old(bus).is_closed(),
            final(bus).num_slots() == old(bus).num_slots(),
            ({
                let (out, c2) = poll_model(
                    old(bus).log(),
                    old(bus).capacity(),
                    old(bus).is_closed(),
                    old(self).cursor(old(bus)),
                );
                &&& r@ == render_poll(out)
                &&& final(self).finished() == (out is Closed)
                &&& (out is Closed ==> final(bus).sub_count() == old(bus).sub_count() - 1)
                &&& (!(out is Closed) ==> final(bus).sub_count() == old(bus).sub_count()
                    && final(bus).attached(final(self).handle()) && final(self).cursor(final(bus))
                    == c2)
            }),
            forall|g: BusHandle|
                g.id != old(self).handle().id ==> (#[trigger] final(bus).attached(g)) == old(bus).attached(g),
            forall|g: BusHandle|
                g.id != old(self).handle().id && old(bus).attached(g) ==> (#[trigger] final(bus).cursor_of(g)) == old(bus).cursor_of(g),
    {
        match bus.next(&self.handle) {
            BusPoll::Event(h) => ExecutorPoll::Ready(ExecutionResult::Data(h)),
            BusPoll::Overrun => ExecutorPoll::Ready(ExecutionResult::EventsMissed),
            BusPoll::Pending => ExecutorPoll::Pending,
            BusPoll::Closed => {
                bus.release(self.handle);
                self.finished = true;
                ExecutorPoll::Terminated
            },
        }
    }

    /// Abandon the subscription: release the handle at once if the sequence
    /// had not already ended, so the bus retains no dead slot.
    pub fn cancel(self, bus: &mut EventBus) -> (was_attached: bool)
        requires
            old(bus).inv(),
            self.wf(old(bus)),
        ensures
            final(bus).inv(),
            was_attached == !self.finished(),
            final(bus).log() == old(bus).log(),
            final(bus).capacity() == old(bus).capacity(),
            final(bus).is_closed() == old(bus).is_closed(),
            final(bus).num_slots() == old(bus).num_slots(),
            !self.finished() ==> !final(bus).attached(self.handle()),
            final(bus).sub_count() == old(bus).sub_count() - if self.finished() {
                0int
            } else {
                1int
            },
            forall|g: BusHandle|
                g.id != self.handle().id ==> (#[trigger] final(bus).attached(g)) == old(bus).attached(g),
            forall|g: BusHandle|
                g.id != self.handle().id && old(bus).attached(g) ==> (#[trigger] final(bus).cursor_of(g)) == old(bus).cursor_of(g),
    {
        if self.finished {
            false
        } else {
            bus.release(self.handle);
            true
        }
    }
}

} // verus!
