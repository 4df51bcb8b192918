//! Host side of a microcontroller link: device state, connection state machine,
//! the byte-level synchronisation protocol and a strictly serialised deployment
//! pipeline. All transitions are pure decisions; the caller performs the I/O.
pub mod control;
pub mod device;
pub mod error;
pub mod link;
pub mod pipeline;
pub mod protocol;
