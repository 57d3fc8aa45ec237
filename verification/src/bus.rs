//! The event bus: a single-topic, bounded-history publish/subscribe
//! primitive.
//!
//! A publish appends one event to the bus's logical log and notifies every
//! attached handle. Each handle is an independent read cursor into that log;
//! the bus retains only the most recent `capacity` events, so a handle whose
//! cursor falls behind the retained window observes one `Overrun` indication
//! and then resumes from the oldest retained event (lossy but detectable).
//! Polling a closed bus reports `Closed` terminally.

use vstd::prelude::*;

use crate::models::{clone_human, Human, HumanView};

verus! {

/// A subscriber's private cursor into the bus, handed out by `subscribe` and
/// given back to `release`.
#[derive(Clone, Copy)]
pub struct BusHandle {
    pub id: usize,
}

/// What one poll of a handle observes.
pub enum BusPoll {
    /// The next event, in publish order.
    Event(Human),
    /// The handle lagged past the retention window; some events were missed.
    Overrun,
    /// Nothing new yet; the caller should poll again later.
    Pending,
    /// The bus is closed; no further events will ever arrive.
    Closed,
}

/// The mathematical value of a `BusPoll`.
pub enum PollView {
    Event(HumanView),
    Overrun,
    Pending,
    Closed,
}

impl View for BusPoll {
    type V = PollView;

    open spec fn view(&self) -> PollView {
        match self {
            BusPoll::Event(h) => PollView::Event(h@),
            BusPoll::Overrun => PollView::Overrun,
            BusPoll::Pending => PollView::Pending,
            BusPoll::Closed => PollView::Closed,
        }
    }
}

/// The smaller of two lengths.
pub open spec fn min_nat(a: nat, b: nat) -> nat {
    if a <= b {
        a
    } else {
        b
    }
}

/// How many slots of a cursor table are occupied.
pub open spec fn count_some(s: Seq<Option<usize>>) -> nat
    decreases s.len(),
{
    if s.len() == 0 {
        0
    } else {
        count_some(s.drop_last()) + if s.last() is Some {
            1nat
        } else {
            0nat
        }
    }
}

/// What one poll observes, as a function of the bus model: the full publish
/// log, the retention capacity, whether the bus is closed, and the polling
/// handle's cursor. Returns the observation and the cursor after the poll.
///
/// A cursor below the oldest retained position has lagged past the retention
/// window: it observes `Overrun` once and resumes at the oldest retained
/// event. Otherwise a cursor below the log's length observes the event
/// published at exactly that position, in publish order.
pub open spec fn poll_model(
    log: Seq<HumanView>,
    capacity: nat,
    closed: bool,
    cursor: nat,
) -> (PollView, nat) {
    let oldest = (log.len() - min_nat(log.len(), capacity)) as nat;
    if closed {
        (PollView::Closed, cursor)
    } else if cursor < oldest {
        (PollView::Overrun, oldest)
    } else if cursor < log.len() {
        (PollView::Event(log[cursor as int]), (cursor + 1) as nat)
    } else {
        (PollView::Pending, cursor)
    }
}

/// The single-topic publish/subscribe primitive. One logical topic, many
/// independent subscriber handles, bounded history.
pub struct EventBus {
    capacity: usize,
    buffer: Vec<Human>,
    published: usize,
    cursors: Vec<Option<usize>>,
    active: usize,
    closed: bool,
    log: Ghost<Seq<HumanView>>,
}

impl EventBus {
    /// Every event ever published, in publish order.
    pub closed spec fn log(&self) -> Seq<HumanView> {
        self.log@
    }

    /// The retention bound the bus was created with.
    pub closed spec fn capacity(&self) -> nat {
        self.capacity as nat
    }

    /// Whether the bus has been closed.
    pub closed spec fn is_closed(&self) -> bool {
        self.closed
    }

    /// How many handle slots were ever handed out.
    pub closed spec fn num_slots(&self) -> nat {
        self.cursors@.len()
    }

    /// How many handles are currently attached.
    pub closed spec fn sub_count(&self) -> nat {
        self.active as nat
    }

    /// Whether `h` is a live handle of this bus.
    pub closed spec fn attached(&self, h: BusHandle) -> bool {
        h.id < self.cursors@.len() && self.cursors@[h.id as int] is Some
    }

    /// The position in the log `h` will read next.
    pub closed spec fn cursor_of(&self, h: BusHandle) -> nat {
        self.cursors@[h.id as int]->0 as nat
    }

    /// The position of the oldest event still retained.
    pub open spec fn oldest(&self) -> nat {
        (self.log().len() - min_nat(self.log().len(), self.capacity())) as nat
    }

    /// The bus's internal consistency: the buffer is exactly the retained
    /// suffix of the log, every cursor is within the log, and the active
    /// count matches the occupied cursor slots.
    pub closed spec fn inv(&self) -> bool {
        &&& self.capacity >= 1
        &&& self.log@.len() == self.published
        &&& self.buffer@.len() == min_nat(self.published as nat, self.capacity as nat)
        &&& forall|i: int|
            0 <= i < self.buffer@.len() ==> self.buffer@[i]@ == self.log@[self.oldest() + i]
        &&& forall|j: int|
            0 <= j < self.cursors@.len() ==> ((#[trigger] self.cursors@[j]) matches Some(c) ==> c
                <= self.published)
        &&& self.active == count_some(self.cursors@)
    }

    /// A new bus with the given retention capacity: no events, no
    /// subscribers, open.
    pub fn new(capacity: usize) -> (bus: EventBus)
        requires
            capacity >= 1,
        ensures
            bus.inv(),
            bus.log() == Seq::<HumanView>::empty(),
            bus.capacity() == capacity,
            bus.sub_count() == 0,
            bus.num_slots() == 0,
            !bus.is_closed(),
    {
        EventBus {
            capacity,
            buffer: Vec::new(),
            published: 0,
            cursors: Vec::new(),
            active: 0,
            closed: false,
            log: Ghost(Seq::empty()),
        }
    }

    /// Attach a new subscriber. The handle's cursor starts at the end of the
    /// log, so it observes exactly the events published after this call and
    /// never one published before (no replay). Always succeeds; existing
    /// handles are untouched.
    pub fn subscribe(&mut self) -> (h: BusHandle)
        requires
            old(self).inv(),
            old(self).num_slots() < usize::MAX,
        ensures
            final(self).inv(),
            h.id == old(self).num_slots(),
            final(self).attached(h),
            final(self).cursor_of(h) == final(self).log().len(),
            final(self).log() == old(self).log(),
            final(self).capacity() == old(self).capacity(),
            final(self).is_closed() == old(self).is_closed(),
            final(self).num_slots() == old(self).num_slots() + 1,
            final(self).sub_count() == old(self).sub_count() + 1,
            forall|g: BusHandle|
                g.id != h.id ==> (#[trigger] final(self).attached(g)) == old(self).attached(g),
            forall|g: BusHandle|
                g.id != h.id && old(self).attached(g) ==> (#[trigger] final(self).cursor_of(g))
                    == old(self).cursor_of(g),
    {
        proof {
            lemma_count_some_le_len(self.cursors@);
        }
        let h = BusHandle { id: self.cursors.len() };
        self.cursors.push(Some(self.published));
        self.active = self.active + 1;
        proof {
            lemma_count_some_push(old(self).cursors@, Some(old(self).published));
        }
        h
    }

    /// Publish one event: append it to the log, dropping the oldest retained
    /// event if the retention window is full. Returns how many handles were
    /// notified. Never blocks and never fails: a publish with zero
    /// subscribers succeeds as a no-op, and a slow reader costs nothing here
    /// (it pays with an overrun at its own next poll). No cursor moves.
    pub fn publish(&mut self, e: Human) -> (n: usize)
        requires
            old(self).inv(),
            !old(self).is_closed(),
            old(self).log().len() < usize::MAX,
        ensures
            final(self).inv(),
            final(self).log() == old(self).log().push(e@),
            n == old(self).sub_count(),
            final(self).capacity() == old(self).capacity(),
            final(self).is_closed() == old(self).is_closed(),
            final(self).num_slots() == old(self).num_slots(),
            final(self).sub_count() == old(self).sub_count(),
            forall|g: BusHandle| (#[trigger] final(self).attached(g)) == old(self).attached(g),
            forall|g: BusHandle|
                old(self).attached(g) ==> (#[trigger] final(self).cursor_of(g)) == old(
                    self,
                ).cursor_of(g),
    {
        let ghost ev = e@;
        if self.buffer.len() == self.capacity {
            self.buffer.remove(0);
        }
        self.buffer.push(e);
        self.published = self.published + 1;
        proof {
            self.log@ = self.log@.push(ev);
        }
        assert forall|i: int| 0 <= i < self.buffer@.len() implies self.buffer@[i]@ == self.log@[
            self.oldest() + i
        ] by {
            if i < self.buffer@.len() - 1 {
                assert(self.buffer@[i] == old(self).buffer@[
                    i + (old(self).buffer@.len() - (self.buffer@.len() - 1))
                ]);
            }
        }
        self.active
    }

    /// Poll a handle once. The observation and the handle's new cursor are
    /// exactly `poll_model` of the bus and the handle's cursor: the next
    /// event in publish order, or one `Overrun` after lagging past the
    /// retention window, or `Pending` when caught up, or `Closed` terminally
    /// on a closed bus. Nothing else about the bus changes.
    pub fn next(&mut self, h: &BusHandle) -> (r: BusPoll)
        requires
            old(self).inv(),
            old(self).attached(*h),
        ensures
            final(self).inv(),
            final(self).log() == old(self).log(),
            final(self).capacity() == old(self).capacity(),
            final(self).is_closed() == old(self).is_closed(),
            final(self).num_slots() == old(self).num_slots(),
            final(self).sub_count() == old(self).sub_count(),
            final(self).attached(*h),
            ({
                let (out, c2) = poll_model(
                    old(self).log(),
                    old(self).capacity(),
                    old(self).is_closed(),
                    old(self).cursor_of(*h),
                );
                r@ == out && final(self).cursor_of(*h) == c2
            }),
            forall|g: BusHandle|
                g.id != h.id ==> (#[trigger] final(self).attached(g)) == old(self).attached(g),
            forall|g: BusHandle|
                g.id != h.id && old(self).attached(g) ==> (#[trigger] final(self).cursor_of(g))
                    == old(self).cursor_of(g),
    {
        let c = match self.cursors[h.id] {
            Some(c) => c,
            None => 0,
        };
        if self.closed {
            BusPoll::Closed
        } else {
            let oldest = self.published - self.buffer.len();
            if c < oldest {
                self.cursors.set(h.id, Some(oldest));
                proof {
                    lemma_count_some_update(old(self).cursors@, h.id as int, Some(oldest));
                }
                BusPoll::Overrun
            } else if c < self.published {
                let e = clone_human(&self.buffer[c - oldest]);
                self.cursors.set(h.id, Some(c + 1));
                proof {
                    lemma_count_some_update(old(self).cursors@, h.id as int, Some((c + 1) as usize));
                }
                BusPoll::Event(e)
            } else {
                BusPoll::Pending
            }
        }
    }

    /// Detach a handle: its cursor slot is freed, the subscriber count drops
    /// by one, and later publishes owe it nothing. Other handles and the log
    /// are untouched.
    pub fn release(&mut self, h: BusHandle)
        requires
            old(self).inv(),
            old(self).attached(h),
        ensures
            final(self).inv(),
            !final(self).attached(h),
            final(self).log() == old(self).log(),
            final(self).capacity() == old(self).capacity(),
            final(self).is_closed() == old(self).is_closed(),
            final(self).num_slots() == old(self).num_slots(),
            final(self).sub_count() == old(self).sub_count() - 1,
            forall|g: BusHandle|
                g.id != h.id ==> (#[trigger] final(self).attached(g)) == old(self).attached(g),
            forall|g: BusHandle|
                g.id != h.id && old(self).attached(g) ==> (#[trigger] final(self).cursor_of(g))
                    == old(self).cursor_of(g),
    {
        proof {
            lemma_count_some_update(self.cursors@, h.id as int, None);
        }
        self.cursors.set(h.id, None);
        self.active = self.active - 1;
    }

    /// Close the bus. Every handle's next poll, and every poll after it,
    /// observes `Closed`.
    pub fn close(&mut self)
        requires
            old(self).inv(),
        ensures
            final(self).inv(),
            final(self).is_closed(),
            final(self).log() == old(self).log(),
            final(self).capacity() == old(self).capacity(),
            final(self).num_slots() == old(self).num_slots(),
            final(self).sub_count() == old(self).sub_count(),
            forall|g: BusHandle| (#[trigger] final(self).attached(g)) == old(self).attached(g),
            forall|g: BusHandle|
                old(self).attached(g) ==> (#[trigger] final(self).cursor_of(g)) == old(
                    self,
                ).cursor_of(g),
    {
        self.closed = true;
    }

    /// How many handles are currently attached.
    pub fn subscriber_count(&self) -> (n: usize)
        ensures
            n == self.sub_count(),
    {
        self.active
    }
}

proof fn lemma_count_some_le_len(s: Seq<Option<usize>>)
    ensures
        count_some(s) <= s.len(),
    decreases s.len(),
{
    if s.len() > 0 {
        lemma_count_some_le_len(s.drop_last());
    }
}

proof fn lemma_count_some_push(s: Seq<Option<usize>>, v: Option<usize>)
    ensures
        count_some(s.push(v)) == count_some(s) + if v is Some {
            1nat
        } else {
            0nat
        },
{
    assert(s.push(v).drop_last() =~= s);
    assert(s.push(v).last() == v);
}

proof fn lemma_count_some_update(s: Seq<Option<usize>>, i: int, v: Option<usize>)
    requires
        0 <= i < s.len(),
    ensures
        count_some(s.update(i, v)) + (if s[i] is Some {
            1nat
        } else {
            0nat
        }) == count_some(s) + (if v is Some {
            1nat
        } else {
            0nat
        }),
    decreases s.len(),
{
    let t = s.update(i, v);
    if i == s.len() - 1 {
        assert(t.drop_last() =~= s.drop_last());
        assert(t.last() == v);
    } else {
        assert(t.drop_last() =~= s.drop_last().update(i, v));
        assert(t.last() == s.last());
        lemma_count_some_update(s.drop_last(), i, v);
    }
}

/// Law: a subscriber that attached before a run of publishes observes
/// exactly those events, in publish order, with no loss, as long as the run
/// is no longer than the retention capacity. `log0` is the log at attach
/// time, so the subscriber's cursor starts at `log0.len()` (by `subscribe`);
/// after `k` delivered events its cursor stands at `log0.len() + k` (by
/// `next`), and this poll delivers event `k` of the run and moves the cursor
/// one on.
pub proof fn lemma_publishes_observed_in_order(
    log0: Seq<HumanView>,
    events: Seq<HumanView>,
    capacity: nat,
    k: int,
)
    requires
        1 <= capacity,
        events.len() <= capacity,
        0 <= k < events.len(),
    ensures
        ({
            let log = log0 + events;
            let cursor = (log0.len() + k) as nat;
            poll_model(log, capacity, false, cursor) == (
                PollView::Event(events[k]),
                (cursor + 1) as nat,
            )
        }),
{
    let log = log0 + events;
    assert(log[log0.len() + k] == events[k]);
}

/// Law: polling never replays. The cursor never moves backward, and a
/// delivered event is the one published at exactly the cursor's position; so
/// a handle attached when the log had length `p` (cursor `p`, by
/// `subscribe`) is only ever handed events published at positions at or
/// after `p` — never a publish from before it attached.
pub proof fn lemma_no_replay(
    log: Seq<HumanView>,
    capacity: nat,
    closed: bool,
    cursor: nat,
    p: nat,
)
    requires
        p <= cursor,
    ensures
        ({
            let (out, c2) = poll_model(log, capacity, closed, cursor);
            &&& c2 >= cursor
            &&& (out matches PollView::Event(e) ==> cursor >= p && cursor < log.len() && e == log[
                cursor as int
            ])
        }),
{
}

/// Law: a handle that lagged past the retention window observes exactly one
/// overrun indication and then resumes forward progress: the poll that finds
/// the cursor behind the oldest retained event reports `Overrun` and moves
/// the cursor to that oldest position, and the very next poll delivers an
/// event again.
pub proof fn lemma_overrun_exactly_once(log: Seq<HumanView>, capacity: nat, cursor: nat)
    requires
        1 <= capacity,
        cursor < log.len() - min_nat(log.len(), capacity),
    ensures
        ({
            let oldest = (log.len() - min_nat(log.len(), capacity)) as nat;
            &&& poll_model(log, capacity, false, cursor) == (PollView::Overrun, oldest)
            &&& poll_model(log, capacity, false, oldest) == (
                PollView::Event(log[oldest as int]),
                (oldest + 1) as nat,
            )
        }),
{
}


/// The observations of `n` successive polls of an open bus, starting from
/// `cursor`, and the cursor after them.
pub open spec fn observe_seq(log: Seq<HumanView>, capacity: nat, cursor: nat, n: nat) -> (
    Seq<PollView>,
    nat,
)
    decreases n,
{
    if n == 0 {
        (Seq::empty(), cursor)
    } else {
        let (out, c2) = poll_model(log, capacity, false, cursor);
        let (rest, cf) = observe_seq(log, capacity, c2, (n - 1) as nat);
        (seq![out] + rest, cf)
    }
}

proof fn lemma_observed_tail(log0: Seq<HumanView>, events: Seq<HumanView>, capacity: nat, k: int)
    requires
        1 <= capacity,
        events.len() <= capacity,
        0 <= k <= events.len(),
    ensures
        ({
            let log = log0 + events;
            observe_seq(log, capacity, (log0.len() + k) as nat, (events.len() - k) as nat) == (
                events.skip(k).map_values(|e: HumanView| PollView::Event(e)),
                log.len() as nat,
            )
        }),
    decreases events.len() - k,
{
    let log = log0 + events;
    let f = |e: HumanView| PollView::Event(e);
    if k == events.len() {
        assert(events.skip(k) =~= Seq::<HumanView>::empty());
        assert(events.skip(k).map_values(f) =~= Seq::<PollView>::empty());
    } else {
        lemma_publishes_observed_in_order(log0, events, capacity, k);
        lemma_observed_tail(log0, events, capacity, k + 1);
        assert(events.skip(k).map_values(f) =~= seq![PollView::Event(events[k])] + events.skip(
            k + 1,
        ).map_values(f));
    }
}

/// Law: a subscriber that attached before a run of `N` publishes — its
/// cursor standing at the end of the log, by `subscribe` — observes, over
/// its next `N` polls, exactly those `N` events in publish order, with no
/// loss, as long as the run is no longer than the retention capacity; and
/// its cursor then stands at the end of the log again.
pub proof fn lemma_run_observed_whole(log0: Seq<HumanView>, events: Seq<HumanView>, capacity: nat)
    requires
        1 <= capacity,
        events.len() <= capacity,
    ensures
        observe_seq(log0 + events, capacity, log0.len(), events.len()) == (
            events.map_values(|e: HumanView| PollView::Event(e)),
            (log0 + events).len() as nat,
        ),
{
    let f = |e: HumanView| PollView::Event(e);
    lemma_observed_tail(log0, events, capacity, 0);
    assert(events.skip(0) =~= events);
}


} // verus!
