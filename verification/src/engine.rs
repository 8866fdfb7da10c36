//! Per-event decision logic of the dual-port relay loop.
//!
//! The relay owns two multicast ports: the event port 319 and the general
//! port 320, both joined to the group 224.0.1.129. The surrounding loop
//! waits for read-readiness, receives one datagram from the ready port and
//! hands it to `handle_datagram`, which decides whether anything is
//! re-broadcast onto that same port's multicast group, and mutates the
//! buffer exactly when it is.

use vstd::prelude::*;

use crate::packet::{forwards, transform, transformed, TransformResult};

verus! {

/// Identity of one of the relay's two multicast ports.
#[derive(Clone, Copy, Debug, PartialEq, Eq, Structural)]
pub enum PortId {
    /// The PTP event port, UDP port 319.
    Event,
    /// The PTP general port, UDP port 320.
    General,
}

/// The UDP port number a `PortId` stands for.
pub open spec fn spec_port_number(p: PortId) -> u16 {
    match p {
        PortId::Event => 319,
        PortId::General => 320,
    }
}

/// Returns the UDP port number of `p`: 319 for the event port, 320 for
/// the general port. Each port binds the wildcard address at this number
/// and re-broadcasts to the multicast group at this same number.
pub fn port_number(p: PortId) -> (n: u16)
    ensures
        n == spec_port_number(p),
{
    match p {
        PortId::Event => 319,
        PortId::General => 320,
    }
}

/// Returns the four octets of the fixed PTP multicast group address,
/// 224.0.1.129: both ports join it, and every forwarded datagram is sent
/// back to it, never to the original sender.
pub fn multicast_group_octets() -> (g: (u8, u8, u8, u8))
    ensures
        g == (224u8, 0u8, 1u8, 129u8),
{
    (224, 0, 1, 129)
}

/// What the loop must do with the buffer after one received datagram.
#[derive(Clone, Copy, Debug, PartialEq, Eq, Structural)]
pub enum RelayAction {
    /// Send the first `len` octets of the buffer — exactly the received
    /// length, never the buffer's capacity — to the multicast group on
    /// the port the datagram arrived on.
    Rebroadcast { len: usize },
    /// Nothing is transmitted for this datagram.
    Ignore,
}

/// Decides one loop iteration's outcome for a datagram of `len` received
/// octets sitting in `buf`: exactly the forwarded datagrams are
/// re-broadcast, mutated in place, at their received length; a dropped
/// datagram leaves the buffer byte-for-byte unchanged.
pub fn handle_datagram(buf: &mut Vec<u8>, len: usize) -> (a: RelayAction)
    requires
        len <= old(buf).len(),
    ensures
        (a == (RelayAction::Rebroadcast { len })) == forwards(old(buf)@, len as int),
        a == RelayAction::Ignore ==> final(buf)@ == old(buf)@,
        a == (RelayAction::Rebroadcast { len }) ==> final(buf)@ == transformed(
            old(buf)@,
            len as int,
        ),
{
    match transform(buf, len) {
        TransformResult::Forwarded => RelayAction::Rebroadcast { len },
        TransformResult::Dropped => RelayAction::Ignore,
    }
}

} // verus!
