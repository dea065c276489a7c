//! The interface every plugin implements, and the guarantees its calls give
//! the host.

use crate::canvas::VirtualCanvas;
use crate::event::Event;
use std::sync::mpsc::Sender;
use vstd::prelude::*;

verus! {

/// Declares `std::sync::mpsc::Sender`, the outbound handle a plugin keeps to emit
/// events later. The library only hands it over; it assumes nothing of it.
#[verifier::external_type_specification]
#[verifier::external_body]
#[verifier::reject_recursive_types(T)]
pub struct ExSender<T>(Sender<T>);

/// A plugin of the image editor.
pub trait ImageEditorPlugin {
    /// Store emitter to be able to send events later.
    fn setup(&mut self, emitter: Sender<&Event>);

    /// Plugin-unique identifier. May be used in `EventData.target_id`.
    /// The host asks once, when it loads the plugin, and routes by that answer.
    fn id(&self) -> String;

    /// Plugin is starting to be used. Called by the host, not by other plugins.
    fn activate(&mut self, canvas: &VirtualCanvas)
        requires
            canvas.wf(),
    ;

    /// Plugin may draw some additional overlay there.
    fn draw(&self, canvas: &mut VirtualCanvas)
        requires
            old(canvas).wf(),
        ensures
            final(canvas).wf(),
            final(canvas).same_shape(old(canvas)),
            final(final(canvas).data)@ == final(old(canvas).data)@,
            final(final(canvas).overlay)@ == final(old(canvas).overlay)@,
    ;

    /// Return value: whether this plugin consumes the event.
    fn act(&mut self, ev: &Event, canvas: &mut VirtualCanvas) -> (consumed: bool)
        requires
            old(canvas).wf(),
        ensures
            final(canvas).wf(),
            final(canvas).same_shape(old(canvas)),
            final(final(canvas).data)@ == final(old(canvas).data)@,
            final(final(canvas).overlay)@ == final(old(canvas).overlay)@,
    ;

    /// Plugin is deactivated. It may be activated again later. Called by the
    /// host, not by other plugins.
    fn deactivate(&mut self);
}

} // verus!
