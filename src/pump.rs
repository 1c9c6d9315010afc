use vstd::prelude::*;
use vstd::multiset::Multiset;
use vstd::seq_lib::lemma_multiset_commutative;

use crate::messages::{
    before_close, contains_close, is_subsequence, lemma_subsequence_extend,
    lemma_subsequence_push_both, user_events, DaemonReply, DaemonRequest, DropToken, NodeEvent,
};

verus! {

broadcast use {vstd::seq_lib::group_to_multiset_ensures, vstd::multiset::group_multiset_axioms};

/// How long the pump waits for a delivered event to be released, in seconds.
pub const ACK_TIMEOUT_SECS: u64 = 30;

/// Where the background task stands in its loop.
#[derive(Clone, Copy, Debug)]
pub enum PumpPhase {
    /// No request is outstanding; the next `NextEvent` may be sent.
    Ready,
    /// A `NextEvent` request was sent and its reply is awaited.
    AwaitingReply,
    /// The events of a non-empty batch are being handled.
    Processing,
    /// An event was handed to the stream; whether the receiver took it is awaited.
    Handoff { drop_token: Option<DropToken> },
    /// The receiver took an event; its release is awaited.
    AwaitingAck { drop_token: Option<DropToken> },
    /// The daemon answered with an empty batch (terminal).
    Drained,
    /// The connection to the daemon is gone (terminal).
    Disconnected,
    /// The receiving end of the stream is gone (terminal).
    Cancelled,
    /// Something was sent on an acknowledgement channel (terminal).
    Failed,
}

/// Why a request/reply exchange with the daemon failed.
#[derive(Debug)]
pub enum TransportError {
    /// The connection is gone: no later request can succeed.
    Disconnected,
    /// This exchange failed; a later one may succeed.
    Transient(String),
}

/// What to do after a reply to `NextEvent`.
#[derive(Debug)]
pub enum ReplyAction {
    /// The daemon closed the stream, or the connection to it is gone: stop the loop.
    Finish,
    /// Hand each of these events to `handle_event`, in order.
    Process(Vec<NodeEvent>),
    /// Log the reason and send the next request.
    Retry { reason: String },
}

/// What to do with one event of a batch.
#[derive(Debug)]
pub enum EventAction {
    /// The stream was closed; nothing to do.
    CloseStream,
    /// Forward the token on the finished-drop-tokens channel.
    ReportDropped(DropToken),
    /// Send the event on the stream with a fresh acknowledgement channel.
    Deliver(NodeEvent),
    /// The stream is closed: log and drop the event.
    Discard(NodeEvent),
}

/// What happened on the acknowledgement channel of a delivered event.
#[derive(Clone, Copy, Debug, PartialEq, Eq, Structural)]
pub enum AckOutcome {
    /// A value arrived on the channel.
    Received,
    /// The timeout elapsed before the channel was closed.
    Timeout,
    /// The receiving side dropped the event.
    Disconnected,
}

/// What to do after the acknowledgement wait of a delivered event.
#[derive(Clone, Copy, Debug)]
pub enum AckAction {
    /// The event was released; its token, if any, goes back with the next request.
    Released(Option<DropToken>),
    /// The event was not released in time; its token, if any, is leaked.
    Leak(Option<DropToken>),
    /// Protocol violation: stop the loop with a fatal error.
    Fail,
}

/// What to do once the loop has stopped.
#[derive(Debug)]
pub enum TerminalAction {
    Done,
    /// Send this fatal error on the stream.
    ReportFatal(String),
    /// The stream is closed: log this fatal error.
    LogFatal(String),
}

/// The fatal error raised when something is sent on an acknowledgement channel.
pub open spec fn ack_violation_message() -> Seq<char> {
    "Node API should not send anything on ACK channel"@
}

/// The drop tokens carried by shared-memory inputs in `s`, in order.
pub open spec fn shared_tokens(s: Seq<NodeEvent>) -> Seq<DropToken>
    decreases s.len(),
{
    if s.len() == 0 {
        Seq::empty()
    } else {
        match s.last().spec_shared_drop_token() {
            Some(t) => shared_tokens(s.drop_last()).push(t),
            None => shared_tokens(s.drop_last()),
        }
    }
}

/// Decision state of the background task that pulls events from the daemon.
///
/// The loop around it performs each action: it sends the requests, hands
/// events to the stream, waits on acknowledgement channels, and reports back.
pub struct EventPump {
    /// Whether the stream towards the user is still open.
    pub stream_open: bool,
    /// Tokens of released payloads, to be returned with the next request.
    pub pending_drop_tokens: Vec<DropToken>,
    /// Tokens sent with the outstanding request.
    pub sent_drop_tokens: Vec<DropToken>,
    pub phase: PumpPhase,
    /// Every event the daemon sent and the pump has taken up, in order.
    pub received: Ghost<Seq<NodeEvent>>,
    /// The events of the current batch that are still to be handled.
    pub remaining: Ghost<Seq<NodeEvent>>,
    /// The event of the current handoff.
    pub in_flight: Ghost<NodeEvent>,
    /// Every event the stream's receiver took, in order.
    pub delivered: Ghost<Seq<NodeEvent>>,
    /// User events that are done with: released, timed out or discarded.
    pub settled: Ghost<Seq<NodeEvent>>,
    /// Tokens that reached the daemon in a `NextEvent` request.
    pub returned: Ghost<Seq<DropToken>>,
    /// Tokens given up after the acknowledgement timeout.
    pub leaked: Ghost<Seq<DropToken>>,
    pub requests_sent: Ghost<nat>,
    pub replies_seen: Ghost<nat>,
}

/// Facts about appending one event to a history.
pub proof fn lemma_push_event(s: Seq<NodeEvent>, e: NodeEvent)
    ensures
        s.push(e).drop_last() == s,
        user_events(s.push(e)) == if e.is_internal() {
            user_events(s)
        } else {
            user_events(s).push(e)
        },
        contains_close(s.push(e)) == (e is AllInputsClosed || contains_close(s)),
        before_close(s.push(e)) == if contains_close(s) {
            before_close(s)
        } else {
            s.push(e)
        },
        shared_tokens(s.push(e)) == match e.spec_shared_drop_token() {
            Some(t) => shared_tokens(s).push(t),
            None => shared_tokens(s),
        },
{
    assert(s.push(e).drop_last() =~= s);
}

/// A history without `AllInputsClosed` is its own prefix up to the close.
pub proof fn lemma_before_close_open(s: Seq<NodeEvent>)
    requires
        !contains_close(s),
    ensures
        before_close(s) == s,
{
}

/// Internal events carry no shared-memory token.
pub proof fn lemma_shared_tokens_user_events(s: Seq<NodeEvent>)
    ensures
        shared_tokens(user_events(s)) == shared_tokens(s),
    decreases s.len(),
{
    if s.len() > 0 {
        let p = s.drop_last();
        assert(s =~= p.push(s.last()));
        lemma_shared_tokens_user_events(p);
        lemma_push_event(p, s.last());
        if !s.last().is_internal() {
            lemma_push_event(user_events(p), s.last());
        }
    }
}

impl EventPump {
    /// Where the tokens of settled events are: each is exactly once in
    /// `returned`, `pending_drop_tokens`, `sent_drop_tokens` or `leaked`.
    pub open spec fn tokens_accounted(&self) -> bool {
        shared_tokens(self.settled@).to_multiset() == self.returned@.to_multiset().add(
            self.pending_drop_tokens@.to_multiset(),
        ).add(self.sent_drop_tokens@.to_multiset()).add(self.leaked@.to_multiset())
    }

    pub open spec fn is_terminal(&self) -> bool {
        self.phase is Drained || self.phase is Disconnected || self.phase is Cancelled
            || self.phase is Failed
    }

    /// The delivered events are user events of the history, in order, and
    /// none of them came after `AllInputsClosed`.
    pub open spec fn delivered_within(&self, history: Seq<NodeEvent>) -> bool {
        &&& is_subsequence(self.delivered@, user_events(history))
        &&& is_subsequence(self.delivered@, user_events(before_close(history)))
    }

    pub open spec fn wf(&self) -> bool {
        &&& self.replies_seen@ <= self.requests_sent@ <= self.replies_seen@ + 1
        &&& (self.requests_sent@ == self.replies_seen@ + 1 <==> self.phase is AwaitingReply)
        &&& self.tokens_accounted()
        &&& !(self.phase is AwaitingReply) ==> self.sent_drop_tokens@.len() == 0
        &&& (self.phase is AwaitingReply || self.phase is Drained)
            ==> self.pending_drop_tokens@.len() == 0
        &&& (self.phase is Ready || self.phase is AwaitingReply || self.phase is Drained)
            ==> self.remaining@.len() == 0
        &&& self.stream_open == !contains_close(self.received@)
        &&& match self.phase {
            PumpPhase::Handoff { drop_token } => {
                &&& self.received@.len() > 0
                &&& self.received@.last() == self.in_flight@
                &&& !self.in_flight@.is_internal()
                &&& drop_token == self.in_flight@.spec_shared_drop_token()
                &&& self.stream_open
                &&& self.delivered_within(self.received@.drop_last())
                &&& self.settled@ == user_events(self.received@.drop_last())
            },
            PumpPhase::AwaitingAck { drop_token } => {
                &&& self.received@.len() > 0
                &&& self.delivered@.len() > 0
                &&& self.delivered@.last() == self.received@.last()
                &&& !self.received@.last().is_internal()
                &&& drop_token == self.received@.last().spec_shared_drop_token()
                &&& self.stream_open
                &&& self.delivered_within(self.received@)
                &&& self.settled@ == user_events(self.received@.drop_last())
            },
            PumpPhase::Failed | PumpPhase::Cancelled => self.delivered_within(self.received@),
            _ => {
                &&& self.delivered_within(self.received@)
                &&& self.settled@ == user_events(self.received@)
            },
        }
    }

    /// A fresh pump: stream open, nothing pending, no request sent yet.
    pub fn new() -> (r: Self)
        ensures
            r.wf(),
            r.phase is Ready,
            r.stream_open,
            r.pending_drop_tokens@.len() == 0,
            r.received@.len() == 0,
            r.delivered@.len() == 0,
            r.returned@.len() == 0,
            r.leaked@.len() == 0,
            r.requests_sent@ == 0,
    {
        let r = EventPump {
            stream_open: true,
            pending_drop_tokens: Vec::new(),
            sent_drop_tokens: Vec::new(),
            phase: PumpPhase::Ready,
            received: Ghost(Seq::empty()),
            remaining: Ghost(Seq::empty()),
            in_flight: Ghost(NodeEvent::Stop),
            delivered: Ghost(Seq::empty()),
            settled: Ghost(Seq::empty()),
            returned: Ghost(Seq::empty()),
            leaked: Ghost(Seq::empty()),
            requests_sent: Ghost(0),
            replies_seen: Ghost(0),
        };
        assert(shared_tokens(r.settled@).to_multiset() =~= r.returned@.to_multiset().add(
            r.pending_drop_tokens@.to_multiset(),
        ).add(r.sent_drop_tokens@.to_multiset()).add(r.leaked@.to_multiset()));
        r
    }

    /// Builds the next `NextEvent` request: it carries every pending token,
    /// and it is sent only when no request is outstanding and the previous
    /// batch has been handled in full.
    pub fn next_request(&mut self) -> (r: DaemonRequest)
        requires
            old(self).wf(),
            old(self).phase is Ready,
        ensures
            final(self).wf(),
            final(self).phase is AwaitingReply,
            old(self).requests_sent@ == old(self).replies_seen@,
            old(self).remaining@.len() == 0,
            final(self).requests_sent@ == old(self).requests_sent@ + 1,
            final(self).replies_seen@ == old(self).replies_seen@,
            r matches DaemonRequest::NextEvent { drop_tokens }
                && drop_tokens@ == old(self).pending_drop_tokens@,
            final(self).sent_drop_tokens@ == old(self).pending_drop_tokens@,
            final(self).pending_drop_tokens@.len() == 0,
            final(self).stream_open == old(self).stream_open,
            final(self).received == old(self).received,
            final(self).delivered == old(self).delivered,
            final(self).returned == old(self).returned,
            final(self).leaked == old(self).leaked,
    {
        let mut tokens: Vec<DropToken> = Vec::new();
        std::mem::swap(&mut tokens, &mut self.pending_drop_tokens);
        let drop_tokens = copy_tokens(&tokens);
        self.sent_drop_tokens = tokens;
        self.phase = PumpPhase::AwaitingReply;
        self.requests_sent = Ghost(self.requests_sent@ + 1);
        proof {
            let o = old(self);
            assert(o.sent_drop_tokens@.to_multiset() =~= Multiset::empty());
            assert(self.pending_drop_tokens@.to_multiset() =~= Multiset::empty());
            assert(shared_tokens(self.settled@).to_multiset() =~= self.returned@.to_multiset().add(
                self.pending_drop_tokens@.to_multiset(),
            ).add(self.sent_drop_tokens@.to_multiset()).add(self.leaked@.to_multiset()));
        }
        DaemonRequest::NextEvent { drop_tokens }
    }

    /// Classifies the outcome of the outstanding request. An empty batch or a
    /// lost connection ends the loop; a transient error keeps the sent tokens
    /// for the next request.
    pub fn handle_reply(&mut self, reply: Result<DaemonReply, TransportError>) -> (r: ReplyAction)
        requires
            old(self).wf(),
            old(self).phase is AwaitingReply,
        ensures
            final(self).wf(),
            final(self).replies_seen@ == old(self).replies_seen@ + 1,
            final(self).requests_sent@ == old(self).requests_sent@,
            final(self).stream_open == old(self).stream_open,
            final(self).received == old(self).received,
            final(self).delivered == old(self).delivered,
            final(self).leaked == old(self).leaked,
            match reply {
                Ok(DaemonReply::NextEvents(events)) => {
                    &&& final(self).returned@ == old(self).returned@ + old(self).sent_drop_tokens@
                    &&& final(self).pending_drop_tokens@.len() == 0
                    &&& if events@.len() == 0 {
                        r is Finish && final(self).phase is Drained
                    } else {
                        &&& r matches ReplyAction::Process(batch) && batch@ == events@
                        &&& final(self).phase is Processing
                        &&& final(self).remaining@ == events@
                    }
                },
                Ok(DaemonReply::Result(_)) => {
                    &&& final(self).returned@ == old(self).returned@ + old(self).sent_drop_tokens@
                    &&& final(self).pending_drop_tokens@.len() == 0
                    &&& r is Retry
                    &&& final(self).phase is Ready
                },
                Err(TransportError::Transient(e)) => {
                    &&& final(self).returned == old(self).returned
                    &&& final(self).pending_drop_tokens@ == old(self).sent_drop_tokens@
                    &&& r matches ReplyAction::Retry { reason } && reason@ == e@
                    &&& final(self).phase is Ready
                },
                Err(TransportError::Disconnected) => {
                    &&& final(self).returned == old(self).returned
                    &&& r is Finish
                    &&& final(self).phase is Disconnected
                },
            },
    {
        self.replies_seen = Ghost(self.replies_seen@ + 1);
        match reply {
            Ok(DaemonReply::NextEvents(events)) => {
                self.deliver_sent_tokens();
                if events.len() == 0 {
                    self.phase = PumpPhase::Drained;
                    ReplyAction::Finish
                } else {
                    self.phase = PumpPhase::Processing;
                    self.remaining = Ghost(events@);
                    ReplyAction::Process(events)
                }
            },
            Ok(DaemonReply::Result(_)) => {
                self.deliver_sent_tokens();
                self.phase = PumpPhase::Ready;
                ReplyAction::Retry { reason: String::from_str("unexpected control reply") }
            },
            Err(TransportError::Transient(reason)) => {
                self.keep_sent_tokens();
                self.phase = PumpPhase::Ready;
                ReplyAction::Retry { reason }
            },
            Err(TransportError::Disconnected) => {
                self.keep_sent_tokens();
                self.phase = PumpPhase::Disconnected;
                ReplyAction::Finish
            },
        }
    }

    /// Decides what to do with the next event of the current batch.
    pub fn handle_event(&mut self, event: NodeEvent) -> (r: EventAction)
        requires
            old(self).wf(),
            old(self).phase is Processing,
            old(self).remaining@.len() > 0,
            event == old(self).remaining@[0],
        ensures
            final(self).wf(),
            final(self).received@ == old(self).received@.push(event),
            final(self).remaining@ == old(self).remaining@.drop_first(),
            final(self).delivered == old(self).delivered,
            final(self).returned == old(self).returned,
            final(self).leaked == old(self).leaked,
            final(self).requests_sent == old(self).requests_sent,
            final(self).replies_seen == old(self).replies_seen,
            !old(self).stream_open ==> !final(self).stream_open,
            match event {
                NodeEvent::AllInputsClosed => {
                    &&& r is CloseStream
                    &&& !final(self).stream_open
                    &&& final(self).phase is Processing
                    &&& final(self).pending_drop_tokens == old(self).pending_drop_tokens
                },
                NodeEvent::OutputDropped { drop_token } => {
                    &&& r == EventAction::ReportDropped(drop_token)
                    &&& final(self).stream_open == old(self).stream_open
                    &&& final(self).phase is Processing
                    &&& final(self).pending_drop_tokens == old(self).pending_drop_tokens
                },
                _ => {
                    &&& final(self).stream_open == old(self).stream_open
                    &&& if old(self).stream_open {
                        &&& r == EventAction::Deliver(event)
                        &&& final(self).phase == (PumpPhase::Handoff {
                            drop_token: event.spec_shared_drop_token(),
                        })
                        &&& final(self).in_flight@ == event
                        &&& final(self).pending_drop_tokens == old(self).pending_drop_tokens
                    } else {
                        &&& r == EventAction::Discard(event)
                        &&& final(self).phase is Processing
                        &&& final(self).pending_drop_tokens@ == match event.spec_shared_drop_token() {
                            Some(t) => old(self).pending_drop_tokens@.push(t),
                            None => old(self).pending_drop_tokens@,
                        }
                    }
                },
            },
    {
        let ghost o = *old(self);
        proof {
            lemma_push_event(o.received@, event);
            if !contains_close(o.received@) {
                lemma_before_close_open(o.received@);
                if !(event is AllInputsClosed) {
                    lemma_before_close_open(o.received@.push(event));
                }
            }
        }
        self.received = Ghost(self.received@.push(event));
        self.remaining = Ghost(self.remaining@.drop_first());
        match event {
            NodeEvent::AllInputsClosed => {
                self.stream_open = false;
                EventAction::CloseStream
            },
            NodeEvent::OutputDropped { drop_token } => EventAction::ReportDropped(drop_token),
            _ => {
                if self.stream_open {
                    let drop_token = event.shared_drop_token();
                    self.phase = PumpPhase::Handoff { drop_token };
                    self.in_flight = Ghost(event);
                    EventAction::Deliver(event)
                } else {
                    // The payload was never mapped: its token goes back at once.
                    let drop_token = event.shared_drop_token();
                    if let Some(t) = drop_token {
                        self.pending_drop_tokens.push(t);
                    }
                    self.settled = Ghost(self.settled@.push(event));
                    proof {
                        lemma_push_event(o.settled@, event);
                        lemma_subsequence_extend(o.delivered@, user_events(o.received@), event);
                        assert(shared_tokens(self.settled@).to_multiset() =~= self.returned@.to_multiset().add(
                            self.pending_drop_tokens@.to_multiset(),
                        ).add(self.sent_drop_tokens@.to_multiset()).add(self.leaked@.to_multiset()));
                    }
                    EventAction::Discard(event)
                }
            },
        }
    }

    /// Records whether the stream's receiver took the event of the current
    /// handoff. If it is gone, the loop ends.
    pub fn handoff_result(&mut self, accepted: bool)
        requires
            old(self).wf(),
            old(self).phase is Handoff,
        ensures
            final(self).wf(),
            final(self).received == old(self).received,
            final(self).remaining == old(self).remaining,
            final(self).returned == old(self).returned,
            final(self).leaked == old(self).leaked,
            final(self).pending_drop_tokens == old(self).pending_drop_tokens,
            final(self).stream_open == old(self).stream_open,
            final(self).requests_sent == old(self).requests_sent,
            final(self).replies_seen == old(self).replies_seen,
            accepted ==> final(self).delivered@ == old(self).delivered@.push(old(self).in_flight@),
            accepted ==> final(self).phase == (PumpPhase::AwaitingAck {
                drop_token: old(self).in_flight@.spec_shared_drop_token(),
            }),
            !accepted ==> final(self).delivered == old(self).delivered,
            !accepted ==> final(self).phase is Cancelled,
    {
        let ghost o = *old(self);
        proof {
            let r = o.received@;
            let p = r.drop_last();
            assert(r =~= p.push(o.in_flight@));
            lemma_push_event(p, o.in_flight@);
            lemma_before_close_open(p);
            lemma_before_close_open(r);
        }
        if accepted {
            let drop_token = match self.phase {
                PumpPhase::Handoff { drop_token } => drop_token,
                _ => None,
            };
            self.delivered = Ghost(self.delivered@.push(self.in_flight@));
            self.phase = PumpPhase::AwaitingAck { drop_token };
            proof {
                lemma_subsequence_push_both(
                    o.delivered@,
                    user_events(o.received@.drop_last()),
                    o.in_flight@,
                );
            }
        } else {
            self.phase = PumpPhase::Cancelled;
            proof {
                lemma_subsequence_extend(
                    o.delivered@,
                    user_events(o.received@.drop_last()),
                    o.in_flight@,
                );
            }
        }
    }

    /// Decides what follows the acknowledgement wait of the delivered event:
    /// a release returns its token with the next request, a timeout leaks it,
    /// and a value on the channel is a fatal protocol violation.
    pub fn handle_ack(&mut self, outcome: AckOutcome) -> (r: AckAction)
        requires
            old(self).wf(),
            old(self).phase is AwaitingAck,
        ensures
            final(self).wf(),
            final(self).received == old(self).received,
            final(self).remaining == old(self).remaining,
            final(self).delivered == old(self).delivered,
            final(self).returned == old(self).returned,
            final(self).stream_open == old(self).stream_open,
            final(self).requests_sent == old(self).requests_sent,
            final(self).replies_seen == old(self).replies_seen,
            ({
                let token = old(self).delivered@.last().spec_shared_drop_token();
                match outcome {
                    AckOutcome::Disconnected => {
                        &&& r == AckAction::Released(token)
                        &&& final(self).phase is Processing
                        &&& final(self).leaked == old(self).leaked
                        &&& final(self).pending_drop_tokens@ == match token {
                            Some(t) => old(self).pending_drop_tokens@.push(t),
                            None => old(self).pending_drop_tokens@,
                        }
                    },
                    AckOutcome::Timeout => {
                        &&& r == AckAction::Leak(token)
                        &&& final(self).phase is Processing
                        &&& final(self).pending_drop_tokens == old(self).pending_drop_tokens
                        &&& final(self).leaked@ == match token {
                            Some(t) => old(self).leaked@.push(t),
                            None => old(self).leaked@,
                        }
                    },
                    AckOutcome::Received => {
                        &&& r is Fail
                        &&& final(self).phase is Failed
                        &&& final(self).pending_drop_tokens == old(self).pending_drop_tokens
                        &&& final(self).leaked == old(self).leaked
                    },
                }
            }),
    {
        let ghost o = *old(self);
        let drop_token = match self.phase {
            PumpPhase::AwaitingAck { drop_token } => drop_token,
            _ => None,
        };
        proof {
            let r = o.received@;
            let p = r.drop_last();
            assert(r =~= p.push(r.last()));
            lemma_push_event(p, r.last());
            lemma_push_event(o.settled@, r.last());
        }
        match outcome {
            AckOutcome::Received => {
                self.phase = PumpPhase::Failed;
                AckAction::Fail
            },
            AckOutcome::Timeout => {
                if let Some(t) = drop_token {
                    self.leaked = Ghost(self.leaked@.push(t));
                }
                self.settled = Ghost(self.settled@.push(o.received@.last()));
                self.phase = PumpPhase::Processing;
                proof {
                    assert(shared_tokens(self.settled@).to_multiset() =~= self.returned@.to_multiset().add(
                        self.pending_drop_tokens@.to_multiset(),
                    ).add(self.sent_drop_tokens@.to_multiset()).add(self.leaked@.to_multiset()));
                }
                AckAction::Leak(drop_token)
            },
            AckOutcome::Disconnected => {
                if let Some(t) = drop_token {
                    self.pending_drop_tokens.push(t);
                }
                self.settled = Ghost(self.settled@.push(o.received@.last()));
                self.phase = PumpPhase::Processing;
                proof {
                    assert(shared_tokens(self.settled@).to_multiset() =~= self.returned@.to_multiset().add(
                        self.pending_drop_tokens@.to_multiset(),
                    ).add(self.sent_drop_tokens@.to_multiset()).add(self.leaked@.to_multiset()));
                }
                AckAction::Released(drop_token)
            },
        }
    }

    /// Every event of the current batch has been handled: the next request
    /// may be sent.
    pub fn finish_batch(&mut self)
        requires
            old(self).wf(),
            old(self).phase is Processing,
            old(self).remaining@.len() == 0,
        ensures
            final(self).wf(),
            final(self).phase is Ready,
            final(self).stream_open == old(self).stream_open,
            final(self).pending_drop_tokens == old(self).pending_drop_tokens,
            final(self).received == old(self).received,
            final(self).delivered == old(self).delivered,
            final(self).returned == old(self).returned,
            final(self).leaked == old(self).leaked,
            final(self).requests_sent == old(self).requests_sent,
            final(self).replies_seen == old(self).replies_seen,
    {
        self.phase = PumpPhase::Ready;
    }

    /// What the loop does once it has stopped: a fatal error goes to the
    /// stream while it is open, and to the log otherwise.
    pub fn terminal_action(&self) -> (r: TerminalAction)
        requires
            self.wf(),
            self.is_terminal(),
        ensures
            !(self.phase is Failed) ==> r is Done,
            self.phase is Failed && self.stream_open ==> (r matches TerminalAction::ReportFatal(m)
                && m@ == ack_violation_message()),
            self.phase is Failed && !self.stream_open ==> (r matches TerminalAction::LogFatal(m)
                && m@ == ack_violation_message()),
    {
        match self.phase {
            PumpPhase::Failed => {
                let message = String::from_str("Node API should not send anything on ACK channel");
                if self.stream_open {
                    TerminalAction::ReportFatal(message)
                } else {
                    TerminalAction::LogFatal(message)
                }
            },
            _ => TerminalAction::Done,
        }
    }

    /// The daemon answered: the tokens sent with the request are returned.
    fn deliver_sent_tokens(&mut self)
        requires
            old(self).tokens_accounted(),
            old(self).pending_drop_tokens@.len() == 0,
        ensures
            final(self).tokens_accounted(),
            final(self).returned@ == old(self).returned@ + old(self).sent_drop_tokens@,
            final(self).sent_drop_tokens@.len() == 0,
            final(self).pending_drop_tokens == old(self).pending_drop_tokens,
            final(self).settled == old(self).settled,
            final(self).leaked == old(self).leaked,
            final(self).received == old(self).received,
            final(self).remaining == old(self).remaining,
            final(self).delivered == old(self).delivered,
            final(self).in_flight == old(self).in_flight,
            final(self).stream_open == old(self).stream_open,
            final(self).phase == old(self).phase,
            final(self).requests_sent == old(self).requests_sent,
            final(self).replies_seen == old(self).replies_seen,
    {
        let ghost o = *old(self);
        self.returned = Ghost(self.returned@ + self.sent_drop_tokens@);
        self.sent_drop_tokens = Vec::new();
        proof {
            lemma_multiset_commutative(o.returned@, o.sent_drop_tokens@);
            assert(self.sent_drop_tokens@.to_multiset() =~= Multiset::empty());
            assert(self.pending_drop_tokens@.to_multiset() =~= Multiset::empty());
            assert(shared_tokens(self.settled@).to_multiset() =~= self.returned@.to_multiset().add(
                self.pending_drop_tokens@.to_multiset(),
            ).add(self.sent_drop_tokens@.to_multiset()).add(self.leaked@.to_multiset()));
        }
    }

    /// The request failed: the tokens sent with it are pending again.
    fn keep_sent_tokens(&mut self)
        requires
            old(self).tokens_accounted(),
            old(self).pending_drop_tokens@.len() == 0,
        ensures
            final(self).tokens_accounted(),
            final(self).pending_drop_tokens@ == old(self).sent_drop_tokens@,
            final(self).sent_drop_tokens@.len() == 0,
            final(self).returned == old(self).returned,
            final(self).settled == old(self).settled,
            final(self).leaked == old(self).leaked,
            final(self).received == old(self).received,
            final(self).remaining == old(self).remaining,
            final(self).delivered == old(self).delivered,
            final(self).in_flight == old(self).in_flight,
            final(self).stream_open == old(self).stream_open,
            final(self).phase == old(self).phase,
            final(self).requests_sent == old(self).requests_sent,
            final(self).replies_seen == old(self).replies_seen,
    {
        let ghost o = *old(self);
        let mut tokens: Vec<DropToken> = Vec::new();
        std::mem::swap(&mut tokens, &mut self.sent_drop_tokens);
        self.pending_drop_tokens = tokens;
        proof {
            assert(self.sent_drop_tokens@.to_multiset() =~= Multiset::empty());
            assert(o.pending_drop_tokens@.to_multiset() =~= Multiset::empty());
            assert(shared_tokens(self.settled@).to_multiset() =~= self.returned@.to_multiset().add(
                self.pending_drop_tokens@.to_multiset(),
            ).add(self.sent_drop_tokens@.to_multiset()).add(self.leaked@.to_multiset()));
        }
    }
}

/// A copy of a list of tokens.
fn copy_tokens(v: &Vec<DropToken>) -> (r: Vec<DropToken>)
    ensures
        r@ == v@,
{
    let mut r: Vec<DropToken> = Vec::new();
    let mut i: usize = 0;
    while i < v.len()
        invariant
            i <= v.len(),
            r@ == v@.subrange(0, i as int),
        decreases v.len() - i,
    {
        r.push(v[i]);
        i = i + 1;
    }
    assert(r@ =~= v@);
    r
}

} // verus!

verus! {

/// Once the daemon has closed the stream, every drop token of a shared-memory
/// input it sent (delivered or discarded) has been either returned to it in a
/// `NextEvent` request or leaked after the acknowledgement timeout: exactly one
/// of the two, once.
pub proof fn lemma_drop_tokens_returned_or_leaked(p: EventPump, t: DropToken)
    requires
        p.wf(),
        p.phase is Drained,
        shared_tokens(p.received@).to_multiset().count(t) == 1,
    ensures
        p.returned@.to_multiset().count(t) + p.leaked@.to_multiset().count(t) == 1,
        (p.returned@.to_multiset().count(t) == 1 && p.leaked@.to_multiset().count(t) == 0)
            || (p.returned@.to_multiset().count(t) == 0 && p.leaked@.to_multiset().count(t)
            == 1),
{
    lemma_shared_tokens_user_events(p.received@);
    assert(p.pending_drop_tokens@.to_multiset().count(t) == 0);
    assert(p.sent_drop_tokens@.to_multiset().count(t) == 0);
}

/// The events handed to the stream are the daemon's events, with the internal
/// sentinels removed and possibly some left out, in the daemon's order; none
/// of them came after `AllInputsClosed`, and the stream is open exactly until
/// that event.
pub proof fn lemma_delivered_is_subsequence(p: EventPump)
    requires
        p.wf(),
    ensures
        is_subsequence(p.delivered@, user_events(p.received@)),
        is_subsequence(p.delivered@, user_events(before_close(p.received@))),
        p.stream_open <==> !contains_close(p.received@),
{
    if p.phase is Handoff {
        let r = p.received@;
        let q = r.drop_last();
        assert(r =~= q.push(r.last()));
        lemma_push_event(q, r.last());
        lemma_before_close_open(q);
        lemma_before_close_open(r);
        lemma_subsequence_extend(p.delivered@, user_events(q), r.last());
    }
}

/// At most one `NextEvent` request is outstanding at any time, and a batch is
/// handled in full before the next request.
pub proof fn lemma_one_request_outstanding(p: EventPump)
    requires
        p.wf(),
    ensures
        p.replies_seen@ <= p.requests_sent@ <= p.replies_seen@ + 1,
        p.requests_sent@ == p.replies_seen@ + 1 <==> p.phase is AwaitingReply,
        p.phase is Ready ==> p.remaining@.len() == 0,
{
}

} // verus!
