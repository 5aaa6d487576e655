//! Core of a cross-surface unread-count application.
//!
//! The library keeps one unread-count value consistent across several user
//! interface surfaces (tray icon, window title, platform badge), derives the
//! presentation strings for each surface from the count, and encodes and
//! decodes the typed messages that travel between the user interface process
//! and its backend on a compact binary wire format.

pub mod codec;
pub mod commands;
pub mod counter;
pub mod device;
pub mod surface;
pub mod text;
pub mod transport;
pub mod wire;

pub use codec::{DecodeError, EventCommon, MessageSend, MessageSendAck};
pub use counter::UnreadCount;
pub use device::DeviceInfo;
