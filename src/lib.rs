//! Core of a serial-link debugging tool: the receive buffer fed by the
//! background reader, the payloads handed to writer tasks, the panel id
//! allocator, the script host capabilities and the panel registry that the
//! presentation loop keeps up to date.
pub mod text;

pub mod allocator;
pub mod panel;
pub mod receive;
pub mod transmit;
pub mod host;
