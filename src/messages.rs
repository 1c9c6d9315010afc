use vstd::prelude::*;

verus! {

/// Identifier minted by the daemon for each shared-memory payload it hands out.
#[derive(Clone, Copy, Debug, PartialEq, Eq, Structural)]
pub struct DropToken {
    pub id: u128,
}

/// Payload of an input message as the daemon describes it.
#[derive(Debug)]
pub enum DaemonData {
    /// Bytes carried inline in the message.
    Vec(Vec<u8>),
    /// A reference to a shared-memory region of `len` bytes.
    SharedMemory { shared_memory_id: String, len: usize, drop_token: DropToken },
}

/// Event delivered by the daemon to a node.
#[derive(Debug)]
pub enum NodeEvent {
    Stop,
    Reload { operator_id: Option<String> },
    InputClosed { id: String },
    /// Internal sentinel: no input of the node will deliver anything more.
    AllInputsClosed,
    /// `metadata` is kept in its serialized form: the node does not inspect it.
    Input { id: String, metadata: Vec<u8>, data: Option<DaemonData> },
    /// Internal sentinel: a payload sent by this node was released downstream.
    OutputDropped { drop_token: DropToken },
}

/// Request sent by a node to its local daemon.
#[derive(Debug)]
pub enum DaemonRequest {
    Register { dataflow_id: u128, node_id: String },
    Subscribe,
    NextEvent { drop_tokens: Vec<DropToken> },
}

/// Reply of the daemon to a `DaemonRequest`.
#[derive(Debug)]
pub enum DaemonReply {
    /// Answer to `Register` and `Subscribe`; `Err` carries the daemon's message.
    Result(Result<(), String>),
    /// Answer to `NextEvent`; an empty batch ends the stream.
    NextEvents(Vec<NodeEvent>),
}

impl DaemonData {
    /// The drop token that must be returned once the payload is released.
    pub open spec fn spec_drop_token(&self) -> Option<DropToken> {
        match self {
            DaemonData::Vec(_) => None,
            DaemonData::SharedMemory { drop_token, .. } => Some(*drop_token),
        }
    }

    pub fn drop_token(&self) -> (r: Option<DropToken>)
        ensures
            r == self.spec_drop_token(),
    {
        match self {
            DaemonData::Vec(_) => None,
            DaemonData::SharedMemory { drop_token, .. } => Some(*drop_token),
        }
    }
}

impl DaemonReply {
    /// Whether the daemon accepted a `Register` or `Subscribe` request; an
    /// event batch is no answer to either.
    pub fn into_ack(self) -> (r: Result<(), String>)
        ensures
            match self {
                DaemonReply::Result(Ok(())) => r is Ok,
                DaemonReply::Result(Err(e)) => r == Err::<(), String>(e),
                DaemonReply::NextEvents(_) => r matches Err(m) && m@ == "unexpected reply"@,
            },
    {
        match self {
            DaemonReply::Result(result) => result,
            DaemonReply::NextEvents(_) => Err(String::from_str("unexpected reply")),
        }
    }
}

impl NodeEvent {
    /// Events that the background task consumes itself and never hands to the user.
    pub open spec fn is_internal(&self) -> bool {
        self is AllInputsClosed || self is OutputDropped
    }

    /// The drop token of a shared-memory input, if the event is one.
    pub open spec fn spec_shared_drop_token(&self) -> Option<DropToken> {
        match self {
            NodeEvent::Input { data: Some(data), .. } => data.spec_drop_token(),
            _ => None,
        }
    }

    pub fn shared_drop_token(&self) -> (r: Option<DropToken>)
        ensures
            r == self.spec_shared_drop_token(),
    {
        match self {
            NodeEvent::Input { data: Some(data), .. } => data.drop_token(),
            _ => None,
        }
    }
}

/// The events of `s` that are meant for the user, in order.
pub open spec fn user_events(s: Seq<NodeEvent>) -> Seq<NodeEvent>
    decreases s.len(),
{
    if s.len() == 0 {
        Seq::empty()
    } else if s.last().is_internal() {
        user_events(s.drop_last())
    } else {
        user_events(s.drop_last()).push(s.last())
    }
}

/// `s` holds an `AllInputsClosed` event.
pub open spec fn contains_close(s: Seq<NodeEvent>) -> bool
    decreases s.len(),
{
    s.len() > 0 && (s.last() is AllInputsClosed || contains_close(s.drop_last()))
}

/// `s` up to and including its first `AllInputsClosed`; all of `s` if it has none.
pub open spec fn before_close(s: Seq<NodeEvent>) -> Seq<NodeEvent>
    decreases s.len(),
{
    if s.len() > 0 && contains_close(s.drop_last()) {
        before_close(s.drop_last())
    } else {
        s
    }
}

/// `a` is `b` with some elements left out, the rest kept in order.
pub open spec fn is_subsequence<A>(a: Seq<A>, b: Seq<A>) -> bool
    decreases b.len(),
{
    if b.len() == 0 {
        a.len() == 0
    } else if a.len() > 0 && a.last() == b.last() {
        is_subsequence(a.drop_last(), b.drop_last()) || is_subsequence(a, b.drop_last())
    } else {
        is_subsequence(a, b.drop_last())
    }
}

/// Appending to `b` keeps `a` a subsequence of it.
pub proof fn lemma_subsequence_extend<A>(a: Seq<A>, b: Seq<A>, x: A)
    requires
        is_subsequence(a, b),
    ensures
        is_subsequence(a, b.push(x)),
{
    assert(b.push(x).drop_last() =~= b);
    if a.len() > 0 && a.last() == x {
    }
}

/// Appending the same element to both keeps the relation.
pub proof fn lemma_subsequence_push_both<A>(a: Seq<A>, b: Seq<A>, x: A)
    requires
        is_subsequence(a, b),
    ensures
        is_subsequence(a.push(x), b.push(x)),
{
    assert(b.push(x).drop_last() =~= b);
    assert(a.push(x).drop_last() =~= a);
}

} // verus!
