//! Core contract between an image-editing host and its plugins: the event
//! model, the bounded canvas view handed to plugins, the plugin lifecycle
//! interface, and the host-side routing of events to plugins.

pub mod canvas;
pub mod event;
pub mod host;
pub mod plugin;

pub use canvas::VirtualCanvas;
pub use event::{Event, EventData};
pub use plugin::ImageEditorPlugin;
