//! The link to the remote authority: the queue of snapshots that go out,
//! and the rule by which the connection is made and made again.

use std::collections::VecDeque;
use vstd::prelude::*;

verus! {

/// What was captured of the user's focus at one tick.
#[derive(Clone, Debug, PartialEq, Eq)]
pub struct FocusSnapshot {
    pub window_title: String,
    pub process_name: String,
    pub ui_tree_snapshot: Option<String>,
}

/// What a `FocusSnapshot` stands for.
pub struct SnapshotView {
    pub window_title: Seq<char>,
    pub process_name: Seq<char>,
    pub ui_tree_snapshot: Option<Seq<char>>,
}

impl View for FocusSnapshot {
    type V = SnapshotView;

    open spec fn view(&self) -> SnapshotView {
        SnapshotView {
            window_title: self.window_title@,
            process_name: self.process_name@,
            ui_tree_snapshot: match self.ui_tree_snapshot {
                Some(s) => Some(s@),
                None => None,
            },
        }
    }
}

/// The views of snapshots, in order.
pub open spec fn snapshots_view(snapshots: Seq<FocusSnapshot>) -> Seq<SnapshotView> {
    Seq::new(snapshots.len(), |i: int| snapshots[i]@)
}

/// The number of snapshots that the outbound queue holds by default.
pub const OUTBOUND_CAPACITY: usize = 32;

/// The queue with a snapshot offered: taken at the end while there is
/// room, refused once the queue is full.
pub open spec fn offered(queue: Seq<SnapshotView>, capacity: nat, snapshot: SnapshotView) -> Seq<
    SnapshotView,
> {
    if queue.len() < capacity {
        queue.push(snapshot)
    } else {
        queue
    }
}

/// The bounded queue between the one producer of snapshots and the
/// outbound stream. It is first in, first out. A full queue refuses what is
/// offered and drops nothing: the producer keeps the snapshot and waits.
#[derive(Debug, PartialEq, Eq)]
pub struct OutboundQueue {
    items: VecDeque<FocusSnapshot>,
    capacity: usize,
}

impl View for OutboundQueue {
    type V = Seq<SnapshotView>;

    closed spec fn view(&self) -> Seq<SnapshotView> {
        snapshots_view(self.items@)
    }
}

impl OutboundQueue {
    /// The most snapshots that the queue holds.
    pub closed spec fn limit(&self) -> nat {
        self.capacity as nat
    }

    /// The invariant of the queue: it holds no more than its limit.
    pub open spec fn wf(&self) -> bool {
        self@.len() <= self.limit()
    }

    /// An empty queue that holds up to `capacity` snapshots.
    pub fn new(capacity: usize) -> (r: OutboundQueue)
        ensures
            r.wf(),
            r@ == Seq::<SnapshotView>::empty(),
            r.limit() == capacity,
    {
        let r = OutboundQueue { items: VecDeque::new(), capacity };
        assert(r@ =~= Seq::<SnapshotView>::empty());
        r
    }

    /// The number of snapshots that wait.
    pub fn len(&self) -> (n: usize)
        ensures
            n == self@.len(),
    {
        self.items.len()
    }

    /// Tells whether the queue refuses what is offered.
    pub fn is_full(&self) -> (r: bool)
        ensures
            r == (self@.len() >= self.limit()),
    {
        self.items.len() >= self.capacity
    }

    /// Offers a snapshot. A full queue hands it back.
    pub fn try_push(&mut self, snapshot: FocusSnapshot) -> (r: Result<(), FocusSnapshot>)
        requires
            old(self).wf(),
        ensures
            final(self).wf(),
            final(self).limit() == old(self).limit(),
            final(self)@ == offered(old(self)@, old(self).limit(), snapshot@),
            match r {
                Ok(_) => old(self)@.len() < old(self).limit(),
                Err(back) => old(self)@.len() >= old(self).limit() && back == snapshot,
            },
    {
        if self.items.len() >= self.capacity {
            return Err(snapshot);
        }
        let ghost before = self@;
        self.items.push_back(snapshot);
        assert(self@ =~= before.push(snapshot@));
        Ok(())
    }

    /// Takes the snapshot that has waited longest.
    pub fn pop(&mut self) -> (r: Option<FocusSnapshot>)
        requires
            old(self).wf(),
        ensures
            final(self).wf(),
            final(self).limit() == old(self).limit(),
            match r {
                Some(s) => {
                    &&& old(self)@.len() > 0
                    &&& s@ == old(self)@[0]
                    &&& final(self)@ == old(self)@.drop_first()
                },
                None => old(self)@.len() == 0 && final(self)@ == old(self)@,
            },
    {
        let ghost before = self@;
        let r = self.items.pop_front();
        proof {
            if r is Some {
                assert(self@ =~= before.drop_first());
            }
        }
        r
    }
}

/// The state of the link.
#[derive(Clone, Copy, Debug, PartialEq, Eq, Structural)]
pub enum LinkState {
    /// Not started.
    Idle,
    /// A connection is being made. Nothing is kept of earlier attempts.
    Connecting,
    /// Connected, with the outbound and the inbound stream open.
    Streaming,
}

/// What happened to the link.
#[derive(Clone, Copy, Debug, PartialEq, Eq, Structural)]
pub enum LinkEvent {
    /// The link is started.
    Start,
    /// An attempt to connect failed.
    ConnectFailed,
    /// An attempt to connect succeeded.
    Connected,
    /// The sending side of the outbound queue was closed.
    OutboundClosed,
    /// The inbound stream of commands ended.
    InboundEnded,
    /// The transport failed, in either direction.
    TransportError,
}

/// What the owner of the connection does next.
#[derive(Clone, Copy, Debug, PartialEq, Eq, Structural)]
pub enum LinkAction {
    /// Nothing: the event is of no concern in this state.
    Ignore,
    /// Log the attempt and connect.
    Connect,
    /// Log the failure, wait, then log the attempt and connect.
    Retry { delay_ms: u64 },
    /// Open the outbound stream and subscribe to the inbound stream, on
    /// the connection just made.
    OpenStreams,
    /// Log the loss, close both streams, then log the attempt and connect.
    Reconnect,
}

/// The state and the action that follow an event. No event is fatal: the
/// link waits for the remote authority for as long as it takes.
pub open spec fn link_step(state: LinkState, event: LinkEvent, delay_ms: u64) -> (
    LinkState,
    LinkAction,
) {
    match (state, event) {
        (LinkState::Idle, LinkEvent::Start) => (LinkState::Connecting, LinkAction::Connect),
        (LinkState::Connecting, LinkEvent::ConnectFailed) => (
            LinkState::Connecting,
            LinkAction::Retry { delay_ms },
        ),
        (LinkState::Connecting, LinkEvent::Connected) => (
            LinkState::Streaming,
            LinkAction::OpenStreams,
        ),
        (LinkState::Streaming, LinkEvent::OutboundClosed) => (
            LinkState::Connecting,
            LinkAction::Reconnect,
        ),
        (LinkState::Streaming, LinkEvent::InboundEnded) => (
            LinkState::Connecting,
            LinkAction::Reconnect,
        ),
        (LinkState::Streaming, LinkEvent::TransportError) => (
            LinkState::Connecting,
            LinkAction::Reconnect,
        ),
        _ => (state, LinkAction::Ignore),
    }
}

/// The state after a run of events, and the actions that the run asked
/// for, in order.
pub open spec fn link_run(state: LinkState, events: Seq<LinkEvent>, delay_ms: u64) -> (
    LinkState,
    Seq<LinkAction>,
)
    decreases events.len(),
{
    if events.len() == 0 {
        (state, Seq::<LinkAction>::empty())
    } else {
        let before = link_run(state, events.drop_last(), delay_ms);
        let step = link_step(before.0, events.last(), delay_ms);
        (step.0, before.1.push(step.1))
    }
}

/// The link: its state and the delay between attempts to connect.
#[derive(Clone, Copy, Debug, PartialEq, Eq, Structural)]
pub struct KernelLink {
    state: LinkState,
    retry_delay_ms: u64,
}

impl KernelLink {
    /// The state of the link.
    pub closed spec fn phase(&self) -> LinkState {
        self.state
    }

    /// The fixed delay between attempts to connect.
    pub closed spec fn delay(&self) -> u64 {
        self.retry_delay_ms
    }

    /// A link that is not started.
    pub fn new(retry_delay_ms: u64) -> (r: KernelLink)
        ensures
            r.phase() == LinkState::Idle,
            r.delay() == retry_delay_ms,
    {
        KernelLink { state: LinkState::Idle, retry_delay_ms }
    }

    /// The state of the link.
    pub fn state(&self) -> (r: LinkState)
        ensures
            r == self.phase(),
    {
        self.state
    }

    /// Tells whether both streams are open.
    pub fn is_streaming(&self) -> (r: bool)
        ensures
            r == (self.phase() == LinkState::Streaming),
    {
        matches!(self.state, LinkState::Streaming)
    }

    /// Takes an event and tells what to do next.
    pub fn step(&mut self, event: LinkEvent) -> (action: LinkAction)
        ensures
            final(self).delay() == old(self).delay(),
            (final(self).phase(), action) == link_step(old(self).phase(), event, old(self).delay()),
    {
        let (next, action) = match (self.state, event) {
            (LinkState::Idle, LinkEvent::Start) => (LinkState::Connecting, LinkAction::Connect),
            (LinkState::Connecting, LinkEvent::ConnectFailed) => (
                LinkState::Connecting,
                LinkAction::Retry { delay_ms: self.retry_delay_ms },
            ),
            (LinkState::Connecting, LinkEvent::Connected) => (
                LinkState::Streaming,
                LinkAction::OpenStreams,
            ),
            (LinkState::Streaming, LinkEvent::OutboundClosed) => (
                LinkState::Connecting,
                LinkAction::Reconnect,
            ),
            (LinkState::Streaming, LinkEvent::InboundEnded) => (
                LinkState::Connecting,
                LinkAction::Reconnect,
            ),
            (LinkState::Streaming, LinkEvent::TransportError) => (
                LinkState::Connecting,
                LinkAction::Reconnect,
            ),
            _ => (self.state, LinkAction::Ignore),
        };
        self.state = next;
        action
    }
}

/// `n` failures to connect, one after the other.
pub open spec fn failures(n: nat) -> Seq<LinkEvent> {
    Seq::new(n, |i: int| LinkEvent::ConnectFailed)
}

/// The number of times that a run asked to open the streams.
pub open spec fn openings(actions: Seq<LinkAction>) -> nat
    decreases actions.len(),
{
    if actions.len() == 0 {
        0
    } else {
        openings(actions.drop_last()) + if actions.last() == LinkAction::OpenStreams {
            1nat
        } else {
            0nat
        }
    }
}

/// Failing to connect changes nothing: after any number of failures the
/// link is still connecting, and every failure asked for the same retry.
pub proof fn lemma_failures_repeat(n: nat, delay_ms: u64)
    ensures
        link_run(LinkState::Connecting, failures(n), delay_ms).0 == LinkState::Connecting,
        link_run(LinkState::Connecting, failures(n), delay_ms).1 == Seq::new(
            n,
            |i: int| LinkAction::Retry { delay_ms },
        ),
        openings(link_run(LinkState::Connecting, failures(n), delay_ms).1) == 0,
    decreases n,
{
    let run = link_run(LinkState::Connecting, failures(n), delay_ms);
    if n == 0 {
        assert(run.1 =~= Seq::new(0nat, |i: int| LinkAction::Retry { delay_ms }));
    } else {
        lemma_failures_repeat((n - 1) as nat, delay_ms);
        assert(failures(n).drop_last() =~= failures((n - 1) as nat));
        let before = link_run(LinkState::Connecting, failures((n - 1) as nat), delay_ms);
        assert(run.1 =~= Seq::new(n, |i: int| LinkAction::Retry { delay_ms }));
        assert(run.1.drop_last() =~= before.1);
    }
}

/// Reconnection is idempotent: after `n` failures and one success the link
/// streams, every failure asked for the same retry, and the streams were
/// opened exactly once, by the success.
pub proof fn lemma_reconnect_opens_once(n: nat, delay_ms: u64)
    ensures
        ({
            let run = link_run(
                LinkState::Connecting,
                failures(n).push(LinkEvent::Connected),
                delay_ms,
            );
            &&& run.0 == LinkState::Streaming
            &&& run.1 == Seq::new(n, |i: int| LinkAction::Retry { delay_ms }).push(
                LinkAction::OpenStreams,
            )
            &&& openings(run.1) == 1
        }),
{
    lemma_failures_repeat(n, delay_ms);
    let events = failures(n).push(LinkEvent::Connected);
    assert(events.drop_last() =~= failures(n));
    let run = link_run(LinkState::Connecting, events, delay_ms);
    let before = link_run(LinkState::Connecting, failures(n), delay_ms);
    assert(run.1.drop_last() =~= before.1);
}

/// Whatever happens, the link ends in one of its three states and asks for
/// one of its actions: no event makes it fail. After the loss of a stream
/// the link connects again.
pub proof fn lemma_loss_reconnects(event: LinkEvent, delay_ms: u64)
    requires
        event == LinkEvent::OutboundClosed || event == LinkEvent::InboundEnded || event
            == LinkEvent::TransportError,
    ensures
        link_step(LinkState::Streaming, event, delay_ms) == (
            LinkState::Connecting,
            LinkAction::Reconnect,
        ),
{
}

} // verus!
