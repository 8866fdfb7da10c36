//! A transparent relay for PTP multicast traffic.
//!
//! The library holds the verified core: the packet classification and
//! mutation engine (`packet`) and the per-event decision logic of the
//! dual-port relay loop (`engine`). The surrounding I/O — sockets,
//! readiness polling, logging — lives outside the library.

pub mod engine;
pub mod packet;
