//! The connection session: the per-client state machine that owns one
//! persistent bidirectional connection.
//!
//! A session is born `Connecting`; a valid upgrade handshake (an `Upgrade:
//! websocket` header, case-insensitively, and a `Connection` header carrying
//! the token `upgrade`) opens it, anything else rejects it. While `Open` the
//! owning loop feeds it three kinds of ready events, one at a time: an
//! inbound text frame, the next result of the attached subscription, and the
//! keep-alive timer tick. A well-formed subscribe frame attaches a fresh
//! subscription executor, replacing (and releasing) any earlier one; a
//! malformed frame is dropped and the session stays `Open`. A write failure
//! or a disconnect drains the session: its executor — and so its bus handle —
//! is released at once, and the session ends `Closed`.

use vstd::prelude::*;
use vstd::string::StrSliceExecFns;

use crate::bus::{poll_model, BusHandle, EventBus, PollView};
use crate::executor::{ExecutionResult, ExecutorPoll, SubscriptionExecutor};
use crate::frames::{
    matches_at, parse_request_spec, parse_subscription_request, SubscriptionRequest,
};

verus! {

/// How long the session may be quiet before a keep-alive ping goes out.
pub const KEEP_ALIVE_INTERVAL_SECS: u64 = 15;

/// How many keep-alive pings an idle stretch of the given length produces.
pub fn keepalive_ticks(idle_secs: u64) -> (n: u64)
    ensures
        n == idle_secs / 15,
{
    idle_secs / KEEP_ALIVE_INTERVAL_SECS
}

/// The lifecycle of a session.
#[derive(Clone, Copy, Debug, PartialEq, Eq, Structural)]
pub enum SessionState {
    /// Born, handshake not yet validated.
    Connecting,
    /// Live: the multiplexed loop runs.
    Open,
    /// Tearing down: resources being released.
    Draining,
    /// Done: connection resource closed.
    Closed,
}

/// A frame the session asks its owner to write out.
pub enum OutboundFrame {
    /// A text frame with the given payload.
    Text(String),
    /// A protocol-level ping control frame with an empty payload.
    Ping,
}

/// An ASCII upper-case letter folded to lower case; all else unchanged.
pub open spec fn lower(c: char) -> char {
    if 'A' <= c && c <= 'Z' {
        (((c as u8) + 32) as char)
    } else {
        c
    }
}

/// A header value folded to lower case, character by character.
pub open spec fn lower_seq(s: Seq<char>) -> Seq<char> {
    s.map_values(|c: char| lower(c))
}

/// Whether `n` occurs in `h` as a contiguous run.
pub open spec fn contains_sub(h: Seq<char>, n: Seq<char>) -> bool {
    exists|k: int| matches_at(h, k, n)
}

/// The view of an optional header value.
pub open spec fn header_view(o: Option<&str>) -> Option<Seq<char>> {
    match o {
        Some(s) => Some(s@),
        None => None,
    }
}

/// What the upgrade handshake accepts: an `Upgrade` header that equals
/// `websocket` case-insensitively, and a `Connection` header that contains
/// the token `upgrade` case-insensitively.
pub open spec fn handshake_ok(upgrade: Option<Seq<char>>, connection: Option<Seq<char>>) -> bool {
    &&& upgrade matches Some(u) && lower_seq(u) == "websocket"@
    &&& connection matches Some(c) && contains_sub(lower_seq(c), "upgrade"@)
}

fn lower_exec(c: char) -> (r: char)
    ensures
        r == lower(c),
{
    if 'A' <= c && c <= 'Z' {
        (((c as u8) + 32) as char)
    } else {
        c
    }
}

fn to_lower_string(s: &str) -> (r: Vec<char>)
    ensures
        r@ == lower_seq(s@),
{
    let n = s.unicode_len();
    let mut out: Vec<char> = Vec::new();
    let mut i: usize = 0;
    proof {
        assert(out@ =~= lower_seq(s@.subrange(0, 0)));
    }
    while i < n
        invariant
            i <= n,
            n == s@.len(),
            out@ == lower_seq(s@.subrange(0, i as int)),
        decreases n - i,
    {
        let c = lower_exec(s.get_char(i));
        out.push(c);
        proof {
            assert(out@ =~= lower_seq(s@.subrange(0, i + 1)));
        }
        i = i + 1;
    }
    proof {
        assert(s@.subrange(0, n as int) =~= s@);
    }
    out
}

fn seq_matches_at(h: &Vec<char>, k: usize, n: &str) -> (r: bool)
    requires
        k <= h@.len(),
    ensures
        r == matches_at(h@, k as int, n@),
{
    let nl = n.unicode_len();
    let hl = h.len();
    if hl - k < nl {
        return false;
    }
    let mut j: usize = 0;
    while j < nl
        invariant
            j <= nl,
            nl == n@.len(),
            hl == h@.len(),
            k + nl <= hl,
            forall|t: int| 0 <= t < j ==> h@[k + t] == n@[t],
        decreases nl - j,
    {
        if h[k + j] != n.get_char(j) {
            assert(!matches_at(h@, k as int, n@)) by {
                if matches_at(h@, k as int, n@) {
                    assert(h@.subrange(k as int, k + n@.len())[j as int] == h@[k + j]);
                }
            }
            return false;
        }
        j = j + 1;
    }
    assert(h@.subrange(k as int, k + n@.len()) =~= n@);
    true
}

fn contains_exec(h: &Vec<char>, n: &str) -> (r: bool)
    ensures
        r == contains_sub(h@, n@),
{
    let nl = n.unicode_len();
    let hl = h.len();
    if nl > hl {
        assert(!contains_sub(h@, n@)) by {
            if contains_sub(h@, n@) {
                let k = choose|k: int| matches_at(h@, k, n@);
            }
        }
        return false;
    }
    if nl == 0 {
        assert(h@.subrange(0, 0) =~= n@);
        assert(matches_at(h@, 0, n@));
        return true;
    }
    let mut k: usize = 0;
    while k <= hl - nl
        invariant
            nl == n@.len(),
            hl == h@.len(),
            1 <= nl <= hl,
            k <= hl - nl + 1,
            forall|t: int| 0 <= t < k ==> !matches_at(h@, t, n@),
        decreases hl - nl - k + 1,
    {
        if seq_matches_at(h, k, n) {
            assert(contains_sub(h@, n@));
            return true;
        }
        k = k + 1;
    }
    assert(!contains_sub(h@, n@)) by {
        if contains_sub(h@, n@) {
            let t = choose|t: int| matches_at(h@, t, n@);
            assert(t + n@.len() <= h@.len());
            assert(t < k);
        }
    }
    false
}

/// Whether the two headers pass the upgrade handshake, exactly as
/// `handshake_ok` says.
pub fn handshake_valid(upgrade: Option<&str>, connection: Option<&str>) -> (r: bool)
    ensures
        r == handshake_ok(header_view(upgrade), header_view(connection)),
{
    match (upgrade, connection) {
        (Some(u), Some(c)) => {
            let ul = to_lower_string(u);
            let uls = chars_eq_websocket(&ul);
            if !uls {
                return false;
            }
            let cl = to_lower_string(c);
            contains_exec(&cl, "upgrade")
        },
        _ => false,
    }
}

fn chars_eq_websocket(v: &Vec<char>) -> (r: bool)
    ensures
        r == (v@ == "websocket"@),
{
    proof {
        reveal_strlit("websocket");
    }
    if v.len() != 9 {
        return false;
    }
    let lit = "websocket";
    let mut i: usize = 0;
    while i < 9
        invariant
            i <= 9,
            v@.len() == 9,
            lit@ == "websocket"@,
            "websocket"@.len() == 9,
            forall|t: int| 0 <= t < i ==> v@[t] == "websocket"@[t],
        decreases 9 - i,
    {
        proof {
            reveal_strlit("websocket");
        }
        if v[i] != lit.get_char(i) {
            return false;
        }
        i = i + 1;
    }
    proof {
        reveal_strlit("websocket");
        assert(v@ =~= "websocket"@);
    }
    true
}

/// One client's session: its lifecycle state and its at-most-one attached
/// subscription.
pub struct Session {
    state: SessionState,
    executor: Option<SubscriptionExecutor>,
}

impl Session {
    /// Where the session stands in its lifecycle.
    pub closed spec fn state(&self) -> SessionState {
        self.state
    }

    /// The attached subscription, if any.
    pub closed spec fn executor(&self) -> Option<SubscriptionExecutor> {
        self.executor
    }

    /// A session is well formed against its bus: an attached subscription is
    /// live on the bus, and only an `Open` session has one.
    pub open spec fn wf(&self, bus: &EventBus) -> bool {
        &&& (self.executor() matches Some(ex) ==> ex.wf(bus) && !ex.finished())
        &&& (!(self.state() is Open) ==> self.executor() is None)
    }

    /// A fresh session, waiting for its handshake.
    pub fn new() -> (s: Session)
        ensures
            s.state() is Connecting,
            s.executor() is None,
    {
        Session { state: SessionState::Connecting, executor: None }
    }

    /// Validate the upgrade handshake. A valid one opens the session; an
    /// invalid one rejects it for good — it never reaches `Open` and no
    /// resources are allocated.
    pub fn accept(&mut self, upgrade: Option<&str>, connection: Option<&str>) -> (ok: bool)
        requires
            old(self).state() is Connecting,
            old(self).executor() is None,
        ensures
            ok == handshake_ok(header_view(upgrade), header_view(connection)),
            final(self).executor() is None,
            ok ==> final(self).state() is Open,
            !ok ==> final(self).state() is Closed,
    {
        if handshake_valid(upgrade, connection) {
            self.state = SessionState::Open;
            true
        } else {
            self.state = SessionState::Closed;
            false
        }
    }

    /// Hand the session one inbound text frame. A frame that parses as a
    /// subscribe message attaches a fresh subscription — whose cursor starts
    /// at the end of the log — releasing any earlier one; the parsed request
    /// is handed back. Any other frame is dropped whole: the session stays
    /// `Open` with its subscription untouched, so a later well-formed
    /// subscribe still succeeds.
    pub fn on_text_frame(&mut self, bus: &mut EventBus, frame: &str) -> (r: Option<
        SubscriptionRequest,
    >)
        requires
            old(self).state() is Open,
            old(self).wf(old(bus)),
            old(bus).inv(),
            old(bus).num_slots() < usize::MAX,
            4 * frame@.len() + 16 <= usize::MAX,
        ensures
            final(bus).inv(),
            final(self).wf(final(bus)),
            final(self).state() is Open,
            final(bus).log() == old(bus).log(),
            final(bus).capacity() == old(bus).capacity(),
            final(bus).is_closed() == old(bus).is_closed(),
            (match parse_request_spec(frame@) {
                Some(req) => {
                    &&& r matches Some(q) && q@ == req
                    &&& final(self).executor() matches Some(ex) && ex.cursor(final(bus)) == final(bus).log().len() && final(bus).attached(ex.handle())
                    &&& final(bus).sub_count() == old(bus).sub_count() + 1 - (
                    if old(self).executor() is Some {
                        1int
                    } else {
                        0int
                    })
                },
                None => {
                    &&& r is None
                    &&& final(self).executor() == old(self).executor()
                    &&& final(bus).sub_count() == old(bus).sub_count()
                    &&& (old(self).executor() matches Some(ex) ==> final(bus).attached(ex.handle())
                        && final(bus).cursor_of(ex.handle()) == old(bus).cursor_of(ex.handle()))
                },
            }),
    {
        match parse_subscription_request(frame) {
            Some(req) => {
                let mut prev: Option<SubscriptionExecutor> = None;
                core::mem::swap(&mut prev, &mut self.executor);
                match prev {
                    Some(ex) => {
                        ex.cancel(bus);
                    },
                    None => {},
                }
                let ex = SubscriptionExecutor::start(bus);
                self.executor = Some(ex);
                Some(req)
            },
            None => None,
        }
    }

    /// Pull the next outbound event result, if the attached subscription has
    /// one ready: a delivered event as a success result, an overrun as one
    /// in-band error result. A quiet or absent subscription yields nothing;
    /// a closed bus ends the subscription and releases its handle, and the
    /// session itself stays `Open`.
    pub fn poll_outbound(&mut self, bus: &mut EventBus) -> (r: Option<ExecutionResult>)
        requires
            old(self).state() is Open,
            old(self).wf(old(bus)),
            old(bus).inv(),
        ensures
            final(bus).inv(),
            final(self).wf(final(bus)),
            final(self).state() is Open,
            final(bus).log() == old(bus).log(),
            final(bus).capacity() == old(bus).capacity(),
            final(bus).is_closed() == old(bus).is_closed(),
            final(bus).num_slots() == old(bus).num_slots(),
            (match old(self).executor() {
                None => {
                    &&& r is None
                    &&& final(self).executor() is None
                    &&& final(bus).sub_count() == old(bus).sub_count()
                },
                Some(ex) => {
                    let (out, c2) = poll_model(
                        old(bus).log(),
                        old(bus).capacity(),
                        old(bus).is_closed(),
                        ex.cursor(old(bus)),
                    );
                    &&& (out matches PollView::Event(h) ==> (r matches Some(res) && res@
                        == crate::executor::ExecutionResultView::Data(h)))
                    &&& (out is Overrun ==> (r matches Some(res) && res@
                        == crate::executor::ExecutionResultView::EventsMissed))
                    &&& (out is Pending ==> r is None)
                    &&& (out is Closed ==> (r is None && final(self).executor() is None && final(bus).sub_count() == old(bus).sub_count() - 1))
                    &&& (!(out is Closed) ==> (final(self).executor() matches Some(ex2)
                        && ex2.handle() == ex.handle() && ex2.cursor(final(bus)) == c2 && final(bus).sub_count() == old(bus).sub_count()))
                },
            }),
    {
        let mut current: Option<SubscriptionExecutor> = None;
        core::mem::swap(&mut current, &mut self.executor);
        match current {
            Some(mut ex) => {
                match ex.poll(bus) {
                    ExecutorPoll::Ready(res) => {
                        self.executor = Some(ex);
                        Some(res)
                    },
                    ExecutorPoll::Pending => {
                        self.executor = Some(ex);
                        None
                    },
                    ExecutorPoll::Terminated => None,
                }
            },
            None => None,
        }
    }

    /// The keep-alive tick: while the session is `Open`, each tick emits one
    /// protocol-level ping control frame with an empty payload.
    pub fn on_tick(&self) -> (r: OutboundFrame)
        requires
            self.state() is Open,
        ensures
            r is Ping,
    {
        OutboundFrame::Ping
    }

    /// Tear the session down — on a write failure, a disconnect signal, or
    /// when the owner is done with it. The attached subscription, and so its
    /// bus handle, is released at once: later publishes owe this session
    /// nothing, and the bus's subscriber count returns to what it was before
    /// this session subscribed.
    pub fn close(&mut self, bus: &mut EventBus)
        requires
            old(self).wf(old(bus)),
            old(bus).inv(),
        ensures
            final(bus).inv(),
            final(self).state() is Closed,
            final(self).executor() is None,
            final(bus).log() == old(bus).log(),
            final(bus).capacity() == old(bus).capacity(),
            final(bus).is_closed() == old(bus).is_closed(),
            final(bus).num_slots() == old(bus).num_slots(),
            final(bus).sub_count() == old(bus).sub_count() - (if old(self).executor() is Some {
                1int
            } else {
                0int
            }),
            forall|g: BusHandle|
                (old(self).executor() matches Some(ex) ==> g.id != ex.handle().id) ==> (
                #[trigger] final(bus).attached(g)) == old(bus).attached(g),
            forall|g: BusHandle|
                ((old(self).executor() matches Some(ex) ==> g.id != ex.handle().id) && old(bus).attached(g)) ==> (#[trigger] final(bus).cursor_of(g)) == old(bus).cursor_of(g),
    {
        self.state = SessionState::Draining;
        let mut prev: Option<SubscriptionExecutor> = None;
        core::mem::swap(&mut prev, &mut self.executor);
        match prev {
            Some(ex) => {
                ex.cancel(bus);
            },
            None => {},
        }
        self.state = SessionState::Closed;
    }
}

} // verus!
