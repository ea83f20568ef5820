//! Real-time audio passthrough core: a single-producer/single-consumer
//! sample transport, configuration reconciliation for a capture/render
//! session, and device-selection rules. Device I/O itself lives outside
//! this crate; the library works on plain values handed in from it.

pub mod config;
pub mod devices;
pub mod graph;
pub mod pick;
pub mod ring;
