//! The closed set of events exchanged between the host and its plugins.

use std::sync::mpsc::Receiver;
use termion::event::Event as InputEvent;
use vstd::prelude::*;

verus! {

/// Declares `std::sync::mpsc::Receiver`, the inbound stream handle a `Special`
/// event carries. The library only moves such handles; it assumes nothing of them.
#[verifier::external_type_specification]
#[verifier::external_body]
#[verifier::reject_recursive_types(T)]
pub struct ExReceiver<T>(Receiver<T>);

/// Declares `termion::event::Event`, the host-level input occurrence (key press,
/// pointer action) an `Input` event carries. The library only moves it; it
/// assumes nothing of it.
#[verifier::external_type_specification]
#[verifier::external_body]
pub struct ExInputEvent(InputEvent);

/// Payload of a `Special` event.
pub struct EventData {
    /// Plugin intended to receive the event. `None` leaves the event to the plugin manager.
    pub target_id: Option<String>,
    /// A short string describing the kind of event.
    pub meta: String,
    /// Optional stream of `String` values.
    pub message: Option<Receiver<String>>,
    /// Optional stream of `u64` values.
    pub data: Option<Receiver<u64>>,
}

impl EventData {
    /// The addressee of this payload, as a sequence of characters.
    pub open spec fn target_view(&self) -> Option<Seq<char>> {
        match self.target_id {
            Some(t) => Some(t@),
            None => None,
        }
    }

    /// A payload handled by the plugin manager itself: it names no plugin.
    pub fn sys(meta: String, message: Option<Receiver<String>>, data: Option<Receiver<u64>>) -> (r:
        Self)
        ensures
            r.target_id is None,
            r.meta == meta,
            r.message == message,
            r.data == data,
    {
        EventData { target_id: None, meta, message, data }
    }

    /// A payload addressed to the plugin whose id is `target_id`.
    pub fn new(
        target_id: String,
        meta: String,
        message: Option<Receiver<String>>,
        data: Option<Receiver<u64>>,
    ) -> (r: Self)
        ensures
            r.target_id == Some(target_id),
            r.meta == meta,
            r.message == message,
            r.data == data,
    {
        EventData { target_id: Some(target_id), meta, message, data }
    }
}

/// An event: exactly one of four kinds.
pub enum Event {
    /// Input event such as a key press or a mouse click.
    Input(InputEvent),
    /// Message between plugins, or from a plugin to the manager.
    Special(EventData),
    /// The terminal was resized to (width, height).
    Resize((u16, u16)),
    /// Some time has passed.
    Tick,
}

} // verus!
