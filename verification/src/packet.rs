//! Packet classification and mutation for the PTP relay.
//!
//! A datagram arrives as a buffer of up to `MAX_DATAGRAM` octets together
//! with the number of octets actually received. `transform` decides whether
//! the datagram is relayed and, when it is, rewrites the domain octet and
//! complements the correction-bearing byte ranges in place. A dropped
//! datagram's buffer is left byte-for-byte unchanged.

use vstd::prelude::*;

verus! {

/// Capacity of the reusable receive buffer, in octets.
pub const MAX_DATAGRAM: usize = 1024;

/// Minimum received length at which the inspected header fields exist.
pub const MIN_LENGTH: usize = 44;

/// Minimum received length at which the second correction-bearing field
/// (bytes `[44, 52)`) exists, required to relay a delay-response datagram.
pub const EXTENDED_MIN_LENGTH: usize = 54;

/// The domain number: octet 4 of the datagram.
pub open spec fn domain(b: Seq<u8>) -> u8 {
    b[4]
}

/// The message type: the low nibble of octet 0.
pub open spec fn msg_type(b: Seq<u8>) -> u8 {
    b[0] & 0x0f
}

/// Whether the datagram carries the second correction-bearing field that
/// must be complemented as well: a domain-0 delay-response message long
/// enough to contain bytes `[44, 52)`.
pub open spec fn extended_mutation(b: Seq<u8>, len: int) -> bool {
    domain(b) == 0 && msg_type(b) == 0x09 && len >= EXTENDED_MIN_LENGTH
}

/// The relay decision: whether a datagram of `len` received octets is
/// forwarded (mutated and re-broadcast) or silently dropped.
///
/// Domain 0 relays time-synchronization (`0x00`), follow-up (`0x08`) and
/// announce (`0x0b`) messages, and delay-response (`0x09`) messages long
/// enough for their second correction field; domain 1 relays delay-request
/// (`0x01`) messages. Everything else is dropped.
pub open spec fn forwards(b: Seq<u8>, len: int) -> bool {
    &&& MIN_LENGTH <= len <= b.len()
    &&& if domain(b) == 0 {
        ||| msg_type(b) == 0x00
        ||| msg_type(b) == 0x08
        ||| msg_type(b) == 0x0b
        ||| msg_type(b) == 0x09 && len >= EXTENDED_MIN_LENGTH
    } else if domain(b) == 1 {
        msg_type(b) == 0x01
    } else {
        false
    }
}

/// The domain number a forwarded datagram leaves with: 0 and 1 swap.
pub open spec fn flipped_domain(d: u8) -> u8 {
    if d == 0 {
        1u8
    } else {
        0u8
    }
}

/// Octet `i` of the mutated datagram: the domain octet is flipped, the
/// correction accumulator at `[20, 28)` is complemented, the second
/// correction field at `[44, 52)` is complemented only for an extended
/// mutation, and every other octet passes through unchanged.
pub open spec fn transformed_byte(b: Seq<u8>, len: int, i: int) -> u8 {
    if i == 4 {
        flipped_domain(domain(b))
    } else if 20 <= i < 28 {
        b[i] ^ 0xff
    } else if 44 <= i < 52 && extended_mutation(b, len) {
        b[i] ^ 0xff
    } else {
        b[i]
    }
}

/// The whole mutated datagram buffer; same length as the input.
pub open spec fn transformed(b: Seq<u8>, len: int) -> Seq<u8> {
    Seq::new(b.len(), |i: int| transformed_byte(b, len, i))
}

/// The outcome of `transform`: either the datagram is dropped and its
/// buffer left untouched, or it is forwarded with the mutation applied.
#[derive(Clone, Copy, Debug, PartialEq, Eq, Structural)]
pub enum TransformResult {
    Dropped,
    Forwarded,
}

/// Classifies one received datagram — the first `len` octets of `buf` —
/// and, exactly when it is to be forwarded, rewrites the domain octet and
/// complements the correction-bearing ranges in place.
///
/// A dropped datagram's buffer is byte-for-byte unchanged: no partial
/// mutation is ever committed to a buffer that is not re-broadcast.
pub fn transform(buf: &mut Vec<u8>, len: usize) -> (r: TransformResult)
    requires
        len <= old(buf).len(),
    ensures
        (r == TransformResult::Forwarded) == forwards(old(buf)@, len as int),
        r == TransformResult::Dropped ==> final(buf)@ == old(buf)@,
        r == TransformResult::Forwarded ==> final(buf)@ == transformed(old(buf)@, len as int),
{
    if len < MIN_LENGTH {
        return TransformResult::Dropped;
    }
    let d = buf[4];
    let t = buf[0] & 0x0f;
    if d == 0 {
        if t == 0x00 || t == 0x08 || t == 0x0b {
            buf[4] = 1;
            complement_range(buf, 20, 28);
            assert(buf@ =~= transformed(old(buf)@, len as int));
            TransformResult::Forwarded
        } else if t == 0x09 && len >= EXTENDED_MIN_LENGTH {
            buf[4] = 1;
            complement_range(buf, 20, 28);
            complement_range(buf, 44, 52);
            assert(buf@ =~= transformed(old(buf)@, len as int));
            TransformResult::Forwarded
        } else {
            TransformResult::Dropped
        }
    } else if d == 1 && t == 0x01 {
        buf[4] = 0;
        complement_range(buf, 20, 28);
        assert(buf@ =~= transformed(old(buf)@, len as int));
        TransformResult::Forwarded
    } else {
        TransformResult::Dropped
    }
}

/// Complements every byte of `buf` whose index lies in `[start, end)`,
/// leaving all other bytes unchanged.
pub fn complement_range(buf: &mut Vec<u8>, start: usize, end: usize)
    requires
        start <= end,
        end <= old(buf).len(),
    ensures
        final(buf).len() == old(buf).len(),
        forall|i: int|
            0 <= i < final(buf).len() ==> final(buf)[i] == (if start <= i < end {
                old(buf)[i] ^ 0xff
            } else {
                old(buf)[i]
            }),
{
    let mut j: usize = start;
    while j < end
        invariant
            start <= j <= end,
            end <= buf.len(),
            buf.len() == old(buf).len(),
            forall|i: int|
                0 <= i < buf.len() ==> buf[i] == (if start <= i < j {
                    old(buf)[i] ^ 0xff
                } else {
                    old(buf)[i]
                }),
        decreases end - j,
    {
        let b = buf[j];
        buf[j] = b ^ 0xff;
        j = j + 1;
    }
}

/// A datagram whose received length is below the minimum header length is
/// never forwarded; `transform` therefore leaves its buffer unchanged.
pub proof fn lemma_short_datagram_dropped(b: Seq<u8>, len: int)
    requires
        len < MIN_LENGTH,
    ensures
        !forwards(b, len),
{
}

/// The length guard for domain-0 delay-response messages goes by the
/// received length: below `EXTENDED_MIN_LENGTH` octets the datagram is
/// dropped, however large the buffer holding it may be.
pub proof fn lemma_delay_resp_length_guard(b: Seq<u8>, len: int)
    requires
        domain(b) == 0,
        msg_type(b) == 0x09,
        MIN_LENGTH <= len < EXTENDED_MIN_LENGTH,
    ensures
        !forwards(b, len),
{
}

/// A domain-0 delay-response message of sufficient received length is
/// forwarded with both correction-bearing ranges complemented, the domain
/// octet set to 1, and every other octet unchanged.
pub proof fn lemma_domain0_delay_resp_forwarded(b: Seq<u8>, len: int)
    requires
        domain(b) == 0,
        msg_type(b) == 0x09,
        EXTENDED_MIN_LENGTH <= len <= b.len(),
    ensures
        forwards(b, len),
        transformed(b, len).len() == b.len(),
        transformed(b, len)[4] == 1,
        forall|i: int|
            (20 <= i < 28 || 44 <= i < 52) ==> transformed(b, len)[i] == b[i] ^ 0xff,
        forall|i: int|
            0 <= i < b.len() && i != 4 && !(20 <= i < 28) && !(44 <= i < 52) ==> transformed(
                b,
                len,
            )[i] == b[i],
{
}

/// A domain-0 time-synchronization, follow-up or announce message of at
/// least the minimum length is forwarded with bytes `[20, 28)`
/// complemented, the domain octet set to 1, and every other octet
/// unchanged.
pub proof fn lemma_domain0_forwarded(b: Seq<u8>, len: int)
    requires
        domain(b) == 0,
        msg_type(b) == 0x00 || msg_type(b) == 0x08 || msg_type(b) == 0x0b,
        MIN_LENGTH <= len <= b.len(),
    ensures
        forwards(b, len),
        transformed(b, len).len() == b.len(),
        transformed(b, len)[4] == 1,
        forall|i: int| 20 <= i < 28 ==> transformed(b, len)[i] == b[i] ^ 0xff,
        forall|i: int|
            0 <= i < b.len() && i != 4 && !(20 <= i < 28) ==> transformed(b, len)[i] == b[i],
{
}

/// A domain-1 delay-request message of at least the minimum length is
/// forwarded with bytes `[20, 28)` complemented, the domain octet set to
/// 0, and every other octet unchanged.
pub proof fn lemma_domain1_forwarded(b: Seq<u8>, len: int)
    requires
        domain(b) == 1,
        msg_type(b) == 0x01,
        MIN_LENGTH <= len <= b.len(),
    ensures
        forwards(b, len),
        transformed(b, len).len() == b.len(),
        transformed(b, len)[4] == 0,
        forall|i: int| 20 <= i < 28 ==> transformed(b, len)[i] == b[i] ^ 0xff,
        forall|i: int|
            0 <= i < b.len() && i != 4 && !(20 <= i < 28) ==> transformed(b, len)[i] == b[i],
{
}

/// A domain-1 datagram of any type other than delay-request, and a
/// datagram of any domain other than 0 or 1, is never forwarded;
/// `transform` therefore leaves such a buffer byte-for-byte unchanged.
pub proof fn lemma_unrecognized_dropped(b: Seq<u8>, len: int)
    requires
        (domain(b) == 1 && msg_type(b) != 0x01) || (domain(b) != 0 && domain(b) != 1),
    ensures
        !forwards(b, len),
{
}

/// Complementing an octet twice restores it.
proof fn lemma_complement_involutive(x: u8)
    by (bit_vector)
    ensures
        (x ^ 0xff) ^ 0xff == x,
{
}

/// Two relay hops undo each other's mutation: applying the mutation to a
/// forwarded domain-0 time-synchronization datagram and then applying it
/// again to the result restores the original octets — the domain returns
/// to 0 and the complemented range `[20, 28)` to its original values.
///
/// The second application describes the mutation alone: the relay's
/// forwarding decision drops a domain-1 datagram whose type is not
/// delay-request, so the relayed datagram is not itself forwarded a
/// second time.
pub proof fn lemma_relay_hop_involution(b: Seq<u8>, len: int)
    requires
        domain(b) == 0,
        msg_type(b) == 0x00,
        MIN_LENGTH <= len <= b.len(),
    ensures
        forwards(b, len),
        transformed(transformed(b, len), len) == b,
        !forwards(transformed(b, len), len),
{
    let c = transformed(b, len);
    assert(c[0] == b[0]);
    assert(c[4] == 1);
    assert forall|i: int| 0 <= i < b.len() implies transformed(c, len)[i] == b[i] by {
        lemma_complement_involutive(b[i]);
    }
    assert(transformed(c, len) =~= b);
}

} // verus!
