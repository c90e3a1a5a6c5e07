//! Client-side engine for the USBA command/response protocol spoken by an
//! SD2SNES cartridge over a USB bulk or interrupt pipe.
//!
//! The library holds the logic of the protocol: the wire layout of a command
//! frame, the choice of endpoints from a descriptor tree, the choice of a
//! device from an enumeration, and the decisions of one request/response
//! exchange (drain, write, bounded-retry chunked read). The USB transfers
//! themselves are performed by the caller, who reports their outcomes back.
pub mod endpoint;
pub mod error;
pub mod exchange;
pub mod frame;
pub mod locator;
