use vstd::prelude::*;
use crate::telemetry::VehicleState;
use crate::envelope::{decode, envelope_text};
use crate::classify::{classify_payload, Classified, is_record_text};
use crate::telemetry::record_text;
use crate::text::comma_free;

verus! {

// The operator-side link manager: a reconnecting client's control state,
// the shared vehicle snapshot, and the two directional message queues. The
// control machine never terminates by design: every failure lands back in
// Disconnected, and the next poll starts the next attempt after a fixed
// backoff.

/// Fixed wait between connection attempts, in milliseconds.
pub const RECONNECT_BACKOFF_MS: u64 = 5000;

/// A receipt older than this many milliseconds means the link is reported
/// as disconnected, whether or not the connection is still formally open.
pub const STALENESS_MS: u64 = 500;

#[derive(Clone, Copy, PartialEq, Eq, Structural, Debug)]
pub enum LinkPhase {
    Disconnected,
    Connecting,
    Connected,
}

/// What presentation reads to derive its connectivity indicator.
#[derive(Clone, Copy, PartialEq, Eq, Structural, Debug)]
pub struct LinkStatus {
    /// Consecutive failed attempts since the last successful handshake.
    pub connection_attempts: u32,
    /// The manager's own view of the connection; presentation derives its
    /// indicator from receipt recency instead.
    pub is_connected: bool,
    /// When the last inbound message arrived, in milliseconds.
    pub last_receipt_ms: u64,
}

/// The control face of the manager: phase plus status.
#[derive(Clone, Copy, PartialEq, Eq, Structural, Debug)]
pub struct LinkControl {
    pub phase: LinkPhase,
    pub status: LinkStatus,
}

/// What the reconnect loop observes.
#[derive(Clone, Copy, PartialEq, Eq, Structural, Debug)]
pub enum LinkEvent {
    /// The manager is free to try the fixed target now.
    PollConnect,
    /// The handshake succeeded.
    ConnectSucceeded,
    /// The handshake failed.
    ConnectFailed,
    /// A read from the live connection failed or the stream closed.
    ReadFailed,
    /// A write to the live connection failed.
    WriteFailed,
}

/// What the reconnect loop is told to do next.
#[derive(Clone, Copy, PartialEq, Eq, Structural, Debug)]
pub enum LinkAction {
    /// Open a connection to the fixed target now.
    Connect,
    /// Wait this many milliseconds before polling again.
    Backoff(u64),
}

/// An attempt counter one higher, held at the top of its range.
pub open spec fn bump(a: u32) -> u32 {
    if a < u32::MAX {
        (a + 1) as u32
    } else {
        a
    }
}

/// The control state before anything has happened.
pub open spec fn fresh_control() -> LinkControl {
    LinkControl {
        phase: LinkPhase::Disconnected,
        status: LinkStatus { connection_attempts: 0, is_connected: false, last_receipt_ms: 0 },
    }
}

/// One control transition. A poll from Disconnected enters Connecting at
/// once; success resets the attempt counter and marks the link up; every
/// failure lands in Disconnected, counts one attempt and marks the link
/// down. Events that do not fit the phase change nothing.
pub open spec fn link_step(c: LinkControl, e: LinkEvent) -> LinkControl {
    match e {
        LinkEvent::PollConnect => {
            if c.phase is Disconnected {
                LinkControl { phase: LinkPhase::Connecting, ..c }
            } else {
                c
            }
        },
        LinkEvent::ConnectSucceeded => {
            if c.phase is Connecting {
                LinkControl {
                    phase: LinkPhase::Connected,
                    status: LinkStatus {
                        connection_attempts: 0,
                        is_connected: true,
                        ..c.status
                    },
                }
            } else {
                c
            }
        },
        LinkEvent::ConnectFailed => {
            if c.phase is Connecting {
                LinkControl {
                    phase: LinkPhase::Disconnected,
                    status: LinkStatus {
                        connection_attempts: bump(c.status.connection_attempts),
                        is_connected: false,
                        ..c.status
                    },
                }
            } else {
                c
            }
        },
        LinkEvent::ReadFailed | LinkEvent::WriteFailed => {
            if c.phase is Connected {
                LinkControl {
                    phase: LinkPhase::Disconnected,
                    status: LinkStatus {
                        connection_attempts: bump(c.status.connection_attempts),
                        is_connected: false,
                        ..c.status
                    },
                }
            } else {
                c
            }
        },
    }
}

/// Whether this step opens a connection attempt.
pub open spec fn link_attempt(c: LinkControl, e: LinkEvent) -> bool {
    e is PollConnect && c.phase is Disconnected
}

/// Whether this step orders the fixed backoff wait.
pub open spec fn link_backoff(c: LinkControl, e: LinkEvent) -> bool {
    ||| e is ConnectFailed && c.phase is Connecting
    ||| (e is ReadFailed || e is WriteFailed) && c.phase is Connected
}

/// The control state after a whole event sequence.
pub open spec fn link_run(c: LinkControl, es: Seq<LinkEvent>) -> LinkControl
    decreases es.len(),
{
    if es.len() == 0 {
        c
    } else {
        link_run(link_step(c, es[0]), es.drop_first())
    }
}

/// How many connection attempts a whole event sequence opens.
pub open spec fn link_attempt_count(c: LinkControl, es: Seq<LinkEvent>) -> nat
    decreases es.len(),
{
    if es.len() == 0 {
        0
    } else {
        (if link_attempt(c, es[0]) {
            1nat
        } else {
            0nat
        }) + link_attempt_count(link_step(c, es[0]), es.drop_first())
    }
}

/// How many backoff waits a whole event sequence orders.
pub open spec fn link_backoff_count(c: LinkControl, es: Seq<LinkEvent>) -> nat
    decreases es.len(),
{
    if es.len() == 0 {
        0
    } else {
        (if link_backoff(c, es[0]) {
            1nat
        } else {
            0nat
        }) + link_backoff_count(link_step(c, es[0]), es.drop_first())
    }
}

/// Runs compose over concatenation, and so do attempt and backoff counts.
pub proof fn lemma_link_run_app(c: LinkControl, es1: Seq<LinkEvent>, es2: Seq<LinkEvent>)
    ensures
        link_run(c, es1 + es2) == link_run(link_run(c, es1), es2),
        link_attempt_count(c, es1 + es2) == link_attempt_count(c, es1) + link_attempt_count(
            link_run(c, es1),
            es2,
        ),
        link_backoff_count(c, es1 + es2) == link_backoff_count(c, es1) + link_backoff_count(
            link_run(c, es1),
            es2,
        ),
    decreases es1.len(),
{
    if es1.len() == 0 {
        assert(es1 + es2 =~= es2);
    } else {
        assert((es1 + es2)[0] == es1[0]);
        assert((es1 + es2).drop_first() =~= es1.drop_first() + es2);
        lemma_link_run_app(link_step(c, es1[0]), es1.drop_first(), es2);
    }
}

/// The life of an always-failing link: one first poll, then after every
/// failure another poll.
pub open spec fn failure_trace(n: nat) -> Seq<LinkEvent>
    decreases n,
{
    if n == 0 {
        seq![LinkEvent::PollConnect]
    } else {
        failure_trace((n - 1) as nat) + seq![LinkEvent::ConnectFailed, LinkEvent::PollConnect]
    }
}

/// Reconnect liveness: after `n` consecutive connection failures the
/// manager has opened exactly `n + 1` attempts with the fixed backoff wait
/// ordered after each of the `n` failures, is in Connecting for the
/// `n + 1`-th attempt, and its attempt counter reads exactly `n` at that
/// point.
pub proof fn lemma_reconnect_liveness(n: nat)
    requires
        n < u32::MAX,
    ensures
        link_run(fresh_control(), failure_trace(n)).phase is Connecting,
        link_run(fresh_control(), failure_trace(n)).status.connection_attempts == n,
        !link_run(fresh_control(), failure_trace(n)).status.is_connected,
        link_attempt_count(fresh_control(), failure_trace(n)) == n + 1,
        link_backoff_count(fresh_control(), failure_trace(n)) == n,
    decreases n,
{
    let c0 = fresh_control();
    if n == 0 {
        reveal_with_fuel(link_run, 2);
        reveal_with_fuel(link_attempt_count, 2);
        reveal_with_fuel(link_backoff_count, 2);
        let es = failure_trace(0);
        assert(es.drop_first() =~= Seq::<LinkEvent>::empty());
        assert(link_run(c0, es) == link_step(c0, LinkEvent::PollConnect));
    } else {
        reveal_with_fuel(link_run, 3);
        reveal_with_fuel(link_attempt_count, 3);
        reveal_with_fuel(link_backoff_count, 3);
        lemma_reconnect_liveness((n - 1) as nat);
        let pre = failure_trace((n - 1) as nat);
        let tail = seq![LinkEvent::ConnectFailed, LinkEvent::PollConnect];
        lemma_link_run_app(c0, pre, tail);
        let m = link_run(c0, pre);
        let tail1 = tail.drop_first();
        assert(tail1 =~= seq![LinkEvent::PollConnect]);
        assert(tail1.drop_first() =~= Seq::<LinkEvent>::empty());
        let m1 = link_step(m, LinkEvent::ConnectFailed);
        let m2 = link_step(m1, LinkEvent::PollConnect);
        assert(tail[0] == LinkEvent::ConnectFailed && tail1[0] == LinkEvent::PollConnect);
        assert(link_run(m, tail) == link_run(m1, tail1));
        assert(link_run(m1, tail1) == link_run(m2, tail1.drop_first()));
        assert(link_run(m2, tail1.drop_first()) == m2);
        assert(m1.status.connection_attempts == n);
        assert(link_attempt_count(m, tail) == link_attempt_count(m1, tail1));
        assert(link_attempt_count(m1, tail1) == 1 + link_attempt_count(m2, tail1.drop_first()));
        assert(link_attempt_count(m2, tail1.drop_first()) == 0);
        assert(link_backoff(m, LinkEvent::ConnectFailed));
        assert(link_backoff_count(m, tail) == 1 + link_backoff_count(m1, tail1));
        assert(link_backoff_count(m1, tail1) == link_backoff_count(m2, tail1.drop_first()));
        assert(link_backoff_count(m2, tail1.drop_first()) == 0);
    }
}

/// A queued conversational message. Ownership passes from producer to
/// consumer on dequeue.
#[derive(Debug)]
pub struct ChatMessage {
    pub text: String,
    /// True for vehicle-originated lines, false for operator-typed ones.
    pub from_vehicle: bool,
    pub timestamp_ms: u64,
}

/// What a `ChatMessage` says, with the text as a character sequence.
pub struct ChatMessageView {
    pub text: Seq<char>,
    pub from_vehicle: bool,
    pub timestamp_ms: u64,
}

impl View for ChatMessage {
    type V = ChatMessageView;

    open spec fn view(&self) -> ChatMessageView {
        ChatMessageView {
            text: self.text@,
            from_vehicle: self.from_vehicle,
            timestamp_ms: self.timestamp_ms,
        }
    }
}

/// The operator core: control state, the shared snapshot with its tags and
/// status, and the two directional queues. Presentation interacts with it
/// only through `read_snapshot`, `enqueue_outbound` and
/// `try_dequeue_inbound_chat`; the reconnect loop drives the rest.
pub struct LinkCore {
    pub control: LinkControl,
    pub snapshot: VehicleState,
    pub tags: Vec<u32>,
    pub outbound: Vec<String>,
    pub inbound: Vec<ChatMessage>,
}

impl LinkCore {
    /// The queued outbound lines, oldest first.
    pub open spec fn outbound_view(&self) -> Seq<Seq<char>> {
        self.outbound@.map_values(|s: String| s@)
    }

    /// The queued inbound chat messages, oldest first.
    pub open spec fn inbound_view(&self) -> Seq<ChatMessageView> {
        self.inbound@.map_values(|m: ChatMessage| m@)
    }

    /// A fresh core: disconnected, all-zero snapshot, empty queues.
    pub fn new() -> (r: LinkCore)
        ensures
            r.control == fresh_control(),
            r.snapshot == VehicleState::spec_zeroed(),
            r.tags@ == Seq::<u32>::empty(),
            r.outbound_view() == Seq::<Seq<char>>::empty(),
            r.inbound_view() == Seq::<ChatMessageView>::empty(),
    {
        let r = LinkCore {
            control: LinkControl {
                phase: LinkPhase::Disconnected,
                status: LinkStatus {
                    connection_attempts: 0,
                    is_connected: false,
                    last_receipt_ms: 0,
                },
            },
            snapshot: VehicleState::zeroed(),
            tags: Vec::new(),
            outbound: Vec::new(),
            inbound: Vec::new(),
        };
        proof {
            assert(r.outbound_view() =~= Seq::<Seq<char>>::empty());
            assert(r.inbound_view() =~= Seq::<ChatMessageView>::empty());
        }
        r
    }

    /// Marks the link up or down; a link that comes up starts a fresh
    /// attempt count.
    pub fn update_connection_status(&mut self, status: bool)
        ensures
            final(self).control.status.is_connected == status,
            final(self).control.status.connection_attempts == if status {
                0u32
            } else {
                old(self).control.status.connection_attempts
            },
            final(self).control.status.last_receipt_ms == old(
                self,
            ).control.status.last_receipt_ms,
            final(self).control.phase == old(self).control.phase,
            final(self).snapshot == old(self).snapshot,
            final(self).tags@ == old(self).tags@,
            final(self).outbound@ == old(self).outbound@,
            final(self).inbound@ == old(self).inbound@,
    {
        self.control.status.is_connected = status;
        if status {
            self.control.status.connection_attempts = 0;
        }
    }

    /// Counts one more failed attempt, holding at the top of the range.
    pub fn increment_connection_attempts(&mut self)
        ensures
            final(self).control.status.connection_attempts == bump(
                old(self).control.status.connection_attempts,
            ),
            final(self).control.status.is_connected == old(self).control.status.is_connected,
            final(self).control.status.last_receipt_ms == old(
                self,
            ).control.status.last_receipt_ms,
            final(self).control.phase == old(self).control.phase,
            final(self).snapshot == old(self).snapshot,
            final(self).tags@ == old(self).tags@,
            final(self).outbound@ == old(self).outbound@,
            final(self).inbound@ == old(self).inbound@,
    {
        if self.control.status.connection_attempts < u32::MAX {
            self.control.status.connection_attempts = self.control.status.connection_attempts
                + 1;
        }
    }

    /// Records that a message arrived now.
    pub fn update_last_received_time(&mut self, now_ms: u64)
        ensures
            final(self).control.status.last_receipt_ms == now_ms,
            final(self).control.status.is_connected == old(self).control.status.is_connected,
            final(self).control.status.connection_attempts == old(
                self,
            ).control.status.connection_attempts,
            final(self).control.phase == old(self).control.phase,
            final(self).snapshot == old(self).snapshot,
            final(self).tags@ == old(self).tags@,
            final(self).outbound@ == old(self).outbound@,
            final(self).inbound@ == old(self).inbound@,
    {
        self.control.status.last_receipt_ms = now_ms;
    }

    /// Feeds one control event to the state machine and says what the loop
    /// must do next: connect at once on a poll from Disconnected, wait the
    /// fixed backoff after any failure.
    pub fn step_link(&mut self, e: LinkEvent) -> (acts: Vec<LinkAction>)
        ensures
            final(self).control == link_step(old(self).control, e),
            final(self).snapshot == old(self).snapshot,
            final(self).tags@ == old(self).tags@,
            final(self).outbound@ == old(self).outbound@,
            final(self).inbound@ == old(self).inbound@,
            link_attempt(old(self).control, e) ==> acts@ == seq![LinkAction::Connect],
            link_backoff(old(self).control, e) ==> acts@ == seq![
                LinkAction::Backoff(RECONNECT_BACKOFF_MS),
            ],
            !link_attempt(old(self).control, e) && !link_backoff(old(self).control, e)
                ==> acts@ == Seq::<LinkAction>::empty(),
    {
        let mut acts: Vec<LinkAction> = Vec::new();
        match e {
            LinkEvent::PollConnect => {
                if matches!(self.control.phase, LinkPhase::Disconnected) {
                    self.control.phase = LinkPhase::Connecting;
                    acts.push(LinkAction::Connect);
                    proof {
                        assert(acts@ =~= seq![LinkAction::Connect]);
                    }
                }
            },
            LinkEvent::ConnectSucceeded => {
                if matches!(self.control.phase, LinkPhase::Connecting) {
                    self.control.phase = LinkPhase::Connected;
                    self.update_connection_status(true);
                }
            },
            LinkEvent::ConnectFailed => {
                if matches!(self.control.phase, LinkPhase::Connecting) {
                    self.control.phase = LinkPhase::Disconnected;
                    self.update_connection_status(false);
                    self.increment_connection_attempts();
                    acts.push(LinkAction::Backoff(RECONNECT_BACKOFF_MS));
                    proof {
                        assert(acts@ =~= seq![LinkAction::Backoff(RECONNECT_BACKOFF_MS)]);
                    }
                }
            },
            LinkEvent::ReadFailed | LinkEvent::WriteFailed => {
                if matches!(self.control.phase, LinkPhase::Connected) {
                    self.control.phase = LinkPhase::Disconnected;
                    self.update_connection_status(false);
                    self.increment_connection_attempts();
                    acts.push(LinkAction::Backoff(RECONNECT_BACKOFF_MS));
                    proof {
                        assert(acts@ =~= seq![LinkAction::Backoff(RECONNECT_BACKOFF_MS)]);
                    }
                }
            },
        }
        acts
    }

    /// Handles one inbound wire frame. A frame that decodes has its receipt
    /// instant recorded whatever its payload holds: a telemetry payload
    /// then replaces the snapshot and tags wholesale, separator-free text
    /// that is no record joins the chat queue as vehicle-originated, and
    /// separator-bearing text that is no record is dropped. A frame that is
    /// no envelope at all is only logged and skipped: nothing changes, the
    /// receipt instant included.
    pub fn handle_wire_message(&mut self, wire: &str, now_ms: u64)
        ensures
            final(self).control.status.is_connected == old(self).control.status.is_connected,
            final(self).control.status.connection_attempts == old(
                self,
            ).control.status.connection_attempts,
            final(self).control.phase == old(self).control.phase,
            final(self).outbound@ == old(self).outbound@,
            forall|tags: Seq<u32>, p: Seq<char>|
                wire@ == envelope_text(tags, p) ==> final(self).control.status.last_receipt_ms
                    == now_ms,
            forall|tags: Seq<u32>, st: VehicleState|
                wire@ == envelope_text(tags, record_text(st)) ==> final(self).snapshot == st
                    && final(self).tags@ == tags && final(self).inbound@ == old(self).inbound@,
            forall|tags: Seq<u32>, p: Seq<char>|
                wire@ == envelope_text(tags, p) && comma_free(p) && !is_record_text(p)
                    ==> final(self).inbound_view() == old(self).inbound_view().push(
                    (ChatMessageView { text: p, from_vehicle: true, timestamp_ms: now_ms }),
                ) && final(self).snapshot == old(self).snapshot
                    && final(self).tags@ == old(self).tags@,
            forall|tags: Seq<u32>, p: Seq<char>|
                wire@ == envelope_text(tags, p) && !comma_free(p) && !is_record_text(p)
                    ==> final(self).snapshot == old(self).snapshot
                    && final(self).tags@ == old(self).tags@
                    && final(self).inbound@ == old(self).inbound@,
            (forall|tags: Seq<u32>, p: Seq<char>| wire@ != envelope_text(tags, p)) ==> *final(self) == *old(self),
    {
        match decode(wire) {
            Ok(env) => {
                self.update_last_received_time(now_ms);
                match classify_payload(env.payload.as_str()) {
                    Classified::Telemetry(st) => {
                        self.snapshot = st;
                        self.tags = env.tags;
                    },
                    Classified::Chat(text) => {
                        let msg = ChatMessage { text, from_vehicle: true, timestamp_ms: now_ms };
                        let ghost mv = msg@;
                        self.inbound.push(msg);
                        proof {
                            assert(self.inbound_view() =~= old(self).inbound_view().push(mv));
                        }
                    },
                    Classified::Unrecognized => {},
                }
            },
            Err(_) => {},
        }
    }

    /// The presentation read: the whole snapshot, its tags, and the link
    /// status, in one consistent piece.
    pub fn read_snapshot(&self) -> (r: (VehicleState, Vec<u32>, LinkStatus))
        ensures
            r.0 == self.snapshot,
            r.1@ == self.tags@,
            r.2 == self.control.status,
    {
        let mut tags_copy: Vec<u32> = Vec::new();
        let mut i: usize = 0;
        while i < self.tags.len()
            invariant
                0 <= i <= self.tags@.len(),
                tags_copy@ == self.tags@.subrange(0, i as int),
            decreases self.tags@.len() - i,
        {
            tags_copy.push(self.tags[i]);
            proof {
                assert(tags_copy@ =~= self.tags@.subrange(0, i as int + 1));
            }
            i = i + 1;
        }
        proof {
            assert(self.tags@.subrange(0, self.tags@.len() as int) =~= self.tags@);
        }
        (self.snapshot, tags_copy, self.control.status)
    }

    /// The presentation write: queue one line for the vehicle. Never
    /// blocks, never drops; the line waits until the link can carry it.
    pub fn enqueue_outbound(&mut self, text: String)
        ensures
            final(self).outbound_view() == old(self).outbound_view().push(text@),
            final(self).control == old(self).control,
            final(self).snapshot == old(self).snapshot,
            final(self).tags@ == old(self).tags@,
            final(self).inbound@ == old(self).inbound@,
    {
        let ghost t = text@;
        self.outbound.push(text);
        proof {
            assert(self.outbound_view() =~= old(self).outbound_view().push(t));
        }
    }

    /// The presentation read of the chat queue: the oldest undelivered
    /// vehicle line, if any; first in, first out.
    pub fn try_dequeue_inbound_chat(&mut self) -> (r: Option<ChatMessage>)
        ensures
            old(self).inbound@.len() == 0 ==> r is None && *final(self) == *old(self),
            old(self).inbound@.len() > 0 ==> (r matches Some(m) && m@ == old(
                self,
            ).inbound_view()[0] && final(self).inbound_view() == old(
                self,
            ).inbound_view().drop_first()),
            final(self).control == old(self).control,
            final(self).snapshot == old(self).snapshot,
            final(self).tags@ == old(self).tags@,
            final(self).outbound@ == old(self).outbound@,
    {
        if self.inbound.len() == 0 {
            None
        } else {
            let m = self.inbound.remove(0);
            proof {
                assert(self.inbound_view() =~= old(self).inbound_view().drop_first());
            }
            Some(m)
        }
    }

    /// The next outbound line to put on the wire, drained oldest first and
    /// only while connected. While the link is down the queue holds
    /// everything back rather than lose it.
    pub fn take_outbound(&mut self) -> (r: Option<String>)
        ensures
            old(self).control.phase is Connected && old(self).outbound@.len() > 0 ==> (
            r matches Some(t) && t@ == old(self).outbound_view()[0] && final(self).outbound_view() == old(self).outbound_view().drop_first()),
            !(old(self).control.phase is Connected && old(self).outbound@.len() > 0) ==> r
                is None && *final(self) == *old(self),
            final(self).control == old(self).control,
            final(self).snapshot == old(self).snapshot,
            final(self).tags@ == old(self).tags@,
            final(self).inbound@ == old(self).inbound@,
    {
        if matches!(self.control.phase, LinkPhase::Connected) && self.outbound.len() > 0 {
            let t = self.outbound.remove(0);
            proof {
                assert(self.outbound_view() =~= old(self).outbound_view().drop_first());
            }
            Some(t)
        } else {
            None
        }
    }

    /// A line the wire refused goes back to the front of the queue, so it
    /// is retried once reconnected, and the failure downs the link.
    pub fn on_send_failed(&mut self, text: String) -> (acts: Vec<LinkAction>)
        ensures
            final(self).control == link_step(old(self).control, LinkEvent::WriteFailed),
            final(self).outbound_view() == seq![text@] + old(self).outbound_view(),
            final(self).snapshot == old(self).snapshot,
            final(self).tags@ == old(self).tags@,
            final(self).inbound@ == old(self).inbound@,
            link_backoff(old(self).control, LinkEvent::WriteFailed) ==> acts@ == seq![
                LinkAction::Backoff(RECONNECT_BACKOFF_MS),
            ],
            !link_backoff(old(self).control, LinkEvent::WriteFailed) ==> acts@ == Seq::<
                LinkAction,
            >::empty(),
    {
        let ghost t = text@;
        self.outbound.insert(0, text);
        proof {
            assert(self.outbound_view() =~= seq![t] + old(self).outbound_view());
        }
        self.step_link(LinkEvent::WriteFailed)
    }
}

/// Milliseconds elapsed since `last_ms` at time `now_ms`; a clock that has
/// not advanced past the last receipt counts as no elapsed time.
pub open spec fn elapsed_ms(now_ms: u64, last_ms: u64) -> int {
    if now_ms >= last_ms {
        now_ms - last_ms
    } else {
        0
    }
}

/// The connectivity indicator shown to presentation: true exactly when
/// less than the staleness threshold has elapsed since the last receipt.
/// It is derived from receipt recency alone, independent of any explicit
/// disconnect notification — a stalled but formally open connection reads
/// as disconnected once the threshold passes.
pub fn derived_connected(now_ms: u64, last_receipt_ms: u64) -> (r: bool)
    ensures
        r == (elapsed_ms(now_ms, last_receipt_ms) < STALENESS_MS),
{
    if now_ms >= last_receipt_ms {
        now_ms - last_receipt_ms < STALENESS_MS
    } else {
        true
    }
}

} // verus!
