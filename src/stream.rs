use vstd::prelude::*;

use crate::messages::{DaemonData, NodeEvent};

verus! {

/// Item passed from the background task to the user-facing stream.
#[derive(Debug)]
pub enum EventItem {
    NodeEvent(NodeEvent),
    FatalError(String),
}

/// Payload of an input event as the user sees it.
#[derive(Debug)]
pub enum Data {
    Vec(Vec<u8>),
    /// A shared-memory region that was mapped read-only for `len` bytes.
    SharedMemory { shared_memory_id: String, len: usize },
}

/// Event seen by user code.
#[derive(Debug)]
pub enum Event {
    Stop,
    Reload { operator_id: Option<String> },
    InputClosed { id: String },
    Input { id: String, metadata: Vec<u8>, data: Option<Data> },
    Error(String),
}

pub open spec fn internal_event_message() -> Seq<char> {
    "internal: unexpected event"@
}

pub open spec fn fatal_error_prefix() -> Seq<char> {
    "fatal event stream error: "@
}

/// `e` is the user event for `item`; `mapping` is the outcome of mapping the
/// shared-memory region of a shared input, and is not read otherwise.
pub open spec fn translates_to(item: EventItem, mapping: Result<(), String>, e: Event) -> bool {
    match item {
        EventItem::NodeEvent(event) => match event {
            NodeEvent::Stop => e is Stop,
            NodeEvent::Reload { operator_id } => e == (Event::Reload { operator_id }),
            NodeEvent::InputClosed { id } => e == (Event::InputClosed { id }),
            NodeEvent::Input { id, metadata, data } => match data {
                None => e == (Event::Input { id, metadata, data: None }),
                Some(DaemonData::Vec(v)) => e == (Event::Input {
                    id,
                    metadata,
                    data: Some(Data::Vec(v)),
                }),
                Some(DaemonData::SharedMemory { shared_memory_id, len, .. }) => match mapping {
                    Ok(()) => e == (Event::Input {
                        id,
                        metadata,
                        data: Some(Data::SharedMemory { shared_memory_id, len }),
                    }),
                    Err(message) => e == Event::Error(message),
                },
            },
            NodeEvent::AllInputsClosed | NodeEvent::OutputDropped { .. } => {
                e matches Event::Error(message) && message@ == internal_event_message()
            },
        },
        EventItem::FatalError(report) => {
            e matches Event::Error(message) && message@ == fatal_error_prefix() + report@
        },
    }
}

/// Turns an item of the background task into the event the user sees.
pub fn translate(item: EventItem, mapping: Result<(), String>) -> (r: Event)
    ensures
        translates_to(item, mapping, r),
{
    match item {
        EventItem::NodeEvent(event) => match event {
            NodeEvent::Stop => Event::Stop,
            NodeEvent::Reload { operator_id } => Event::Reload { operator_id },
            NodeEvent::InputClosed { id } => Event::InputClosed { id },
            NodeEvent::Input { id, metadata, data } => match data {
                None => Event::Input { id, metadata, data: None },
                Some(DaemonData::Vec(v)) => Event::Input { id, metadata, data: Some(Data::Vec(v)) },
                Some(DaemonData::SharedMemory { shared_memory_id, len, .. }) => match mapping {
                    Ok(()) => Event::Input {
                        id,
                        metadata,
                        data: Some(Data::SharedMemory { shared_memory_id, len }),
                    },
                    Err(message) => Event::Error(message),
                },
            },
            NodeEvent::AllInputsClosed | NodeEvent::OutputDropped { .. } => {
                Event::Error(String::from_str("internal: unexpected event"))
            },
        },
        EventItem::FatalError(report) => {
            let prefix = String::from_str("fatal event stream error: ");
            Event::Error(prefix.concat(report.as_str()))
        },
    }
}

/// State of the user-facing end of the event stream.
pub struct EventStreamState {
    /// Whether end-of-stream was already reported to the user.
    pub closed: bool,
}

impl EventStreamState {
    pub fn new() -> (r: Self)
        ensures
            !r.closed,
    {
        EventStreamState { closed: false }
    }

    /// Handles what one receive on the handoff produced: `None` when the
    /// background task is gone. Once `None` was returned, every later call
    /// returns `None` too.
    pub fn recv_common(&mut self, item: Option<EventItem>, mapping: Result<(), String>) -> (r:
        Option<Event>)
        ensures
            old(self).closed ==> r is None,
            final(self).closed == (old(self).closed || item is None),
            r is None <==> final(self).closed,
            !old(self).closed && item is Some ==> (r matches Some(e) && translates_to(
                item->0,
                mapping,
                e,
            )),
    {
        if self.closed {
            return None;
        }
        match item {
            None => {
                self.closed = true;
                None
            },
            Some(item) => Some(translate(item, mapping)),
        }
    }
}

} // verus!
