//! The subscription command codec.
//!
//! Commands are binary frames: a ten-byte envelope followed by a
//! version-specific payload. All multi-byte integers on the wire are
//! big-endian. Frames are assembled in a `bytes::BytesMut` buffer; the
//! buffer's contents are tracked by the uninterpreted `bytes_of` view and
//! every operation on it goes through a trusted wrapper below.

use vstd::prelude::*;
use crate::version::DanteVersion;

verus! {

/// The bytes held by a `bytes::BytesMut` buffer.
pub uninterp spec fn bytes_of(b: bytes::BytesMut) -> Seq<u8>;

#[verifier::external_type_specification]
#[verifier::external_body]
pub struct ExBytesMut(bytes::BytesMut);

/// Relies on bytes::BytesMut::new: a fresh buffer is empty.
#[verifier::external_body]
pub(crate) fn buffer_new() -> (r: bytes::BytesMut)
    ensures
        bytes_of(r) == Seq::<u8>::empty(),
{
    bytes::BytesMut::new()
}

/// Relies on bytes::BytesMut::extend_from_slice: appends the slice to the
/// end of the buffer.
#[verifier::external_body]
pub(crate) fn buffer_extend(b: &mut bytes::BytesMut, s: &[u8])
    ensures
        bytes_of(*final(b)) == bytes_of(*old(b)) + s@,
{
    b.extend_from_slice(s);
}

/// Relies on bytes::BytesMut::len: the number of bytes in the buffer.
#[verifier::external_body]
pub(crate) fn buffer_len(b: &bytes::BytesMut) -> (r: usize)
    ensures
        r == bytes_of(*b).len(),
{
    b.len()
}

/// Relies on bytes::BytesMut's Deref to `[u8]` and on slice::to_vec: the
/// buffer's bytes, copied out in order.
#[verifier::external_body]
pub(crate) fn buffer_to_vec(b: &bytes::BytesMut) -> (r: Vec<u8>)
    ensures
        r@ == bytes_of(*b),
{
    b.to_vec()
}

/// A 16-bit value as two big-endian bytes.
pub open spec fn be16(x: u16) -> Seq<u8> {
    seq![(x / 256) as u8, (x % 256) as u8]
}

/// `n` zero bytes.
pub open spec fn zero_bytes(n: nat) -> Seq<u8> {
    Seq::new(n, |i: int| 0u8)
}

/// The envelope around every command: magic, length field (payload length
/// plus ten), sequence number, command code, two reserved zero bytes, then
/// the payload.
pub open spec fn envelope_bytes(seq_id: u16, command: Seq<u8>, payload: Seq<u8>) -> Seq<u8> {
    seq![0x28u8, 0x30u8] + be16((payload.len() + 10) as u16) + be16(seq_id) + command + seq![
        0x00u8,
        0x00u8,
    ] + payload
}

/// Payload of a "set subscription" command, version 4.4.1.3: a fixed
/// 16-byte prefix, the end position of the channel name, 248 zero bytes,
/// then the NUL-terminated channel and device names at offset 266.
pub open spec fn subscription_payload_v4_4(rx_channel_id: u16, tx_device: Seq<u8>, tx_channel: Seq<u8>) -> Seq<u8> {
    seq![0x00u8, 0x00u8, 0x00u8, 0x00u8, 0x00u8, 0x00u8, 0x08u8, 0x00u8, 0x20u8, 0x01u8] + be16(
        rx_channel_id,
    ) + seq![0x00u8, 0x03u8, 0x01u8, 0x14u8] + be16((277 + tx_channel.len()) as u16) + zero_bytes(
        248,
    ) + tx_channel + seq![0x00u8] + tx_device + seq![0x00u8]
}

/// Payload of a "set subscription" command, version 4.2.1.3: a fixed
/// 6-byte prefix, the end position of the channel name, 314 zero bytes,
/// then the NUL-terminated channel and device names at offset 322.
pub open spec fn subscription_payload_v4_2(rx_channel_id: u16, tx_device: Seq<u8>, tx_channel: Seq<u8>) -> Seq<u8> {
    seq![0x10u8, 0x01u8] + be16(rx_channel_id) + seq![0x01u8, 0x4Cu8] + be16(
        (333 + tx_channel.len()) as u16,
    ) + zero_bytes(314) + tx_channel + seq![0x00u8] + tx_device + seq![0x00u8]
}

/// Payload of a "clear subscription" command, version 4.4.1.3: 266 bytes,
/// zero from offset 18 onward.
pub open spec fn clear_payload_v4_4(rx_channel_id: u16) -> Seq<u8> {
    seq![0x00u8, 0x00u8, 0x00u8, 0x00u8, 0x00u8, 0x00u8, 0x08u8, 0x00u8, 0x20u8, 0x01u8] + be16(
        rx_channel_id,
    ) + seq![0x00u8, 0x03u8, 0x00u8, 0x00u8, 0x00u8, 0x00u8] + zero_bytes(248)
}

/// Payload of a "clear subscription" command, version 4.2.1.3: 322 bytes,
/// zero from offset 4 onward.
pub open spec fn clear_payload_v4_2(rx_channel_id: u16) -> Seq<u8> {
    seq![0x10u8, 0x01u8] + be16(rx_channel_id) + zero_bytes(318)
}

/// The subscription payload of the given version.
pub open spec fn spec_subscription_payload(version: DanteVersion, rx_channel_id: u16, tx_device: Seq<u8>, tx_channel: Seq<u8>) -> Seq<u8> {
    match version {
        DanteVersion::Dante4_4_1_3 => subscription_payload_v4_4(rx_channel_id, tx_device, tx_channel),
        DanteVersion::Dante4_2_1_3 => subscription_payload_v4_2(rx_channel_id, tx_device, tx_channel),
    }
}

/// The clear-subscription payload of the given version.
pub open spec fn spec_clear_payload(version: DanteVersion, rx_channel_id: u16) -> Seq<u8> {
    match version {
        DanteVersion::Dante4_4_1_3 => clear_payload_v4_4(rx_channel_id),
        DanteVersion::Dante4_2_1_3 => clear_payload_v4_2(rx_channel_id),
    }
}

/// The destination UDP port of every subscription command.
pub fn subscription_port() -> (r: u16)
    ensures
        r == 4440,
{
    4440
}

/// Appends `x` to the buffer as two big-endian bytes.
fn push_be16(b: &mut bytes::BytesMut, x: u16)
    ensures
        bytes_of(*final(b)) == bytes_of(*old(b)) + be16(x),
{
    let bytes_arr: [u8; 2] = [(x / 256) as u8, (x % 256) as u8];
    buffer_extend(b, bytes_arr.as_slice());
    proof {
        assert(bytes_arr@ =~= be16(x));
    }
}

/// Appends `n` zero bytes to the buffer.
fn push_zeros(b: &mut bytes::BytesMut, n: usize)
    ensures
        bytes_of(*final(b)) == bytes_of(*old(b)) + zero_bytes(n as nat),
{
    let zeros: Vec<u8> = vec![0u8; n];
    buffer_extend(b, zeros.as_slice());
    proof {
        assert(zeros@ =~= zero_bytes(n as nat));
    }
}

/// Builds the subscription payload of the given version.
pub fn subscription_payload(version: &DanteVersion, rx_channel_id: u16, tx_device: &[u8], tx_channel: &[u8]) -> (r: bytes::BytesMut)
    requires
        tx_device@.len() + tx_channel@.len() + 334 <= 65535,
    ensures
        bytes_of(r) == spec_subscription_payload(*version, rx_channel_id, tx_device@, tx_channel@),
{
    let mut buf = buffer_new();
    match version {
        DanteVersion::Dante4_4_1_3 => {
            buffer_extend(
                &mut buf,
                [0x00u8, 0x00, 0x00, 0x00, 0x00, 0x00, 0x08, 0x00, 0x20, 0x01].as_slice(),
            );
            push_be16(&mut buf, rx_channel_id);
            buffer_extend(&mut buf, [0x00u8, 0x03, 0x01, 0x14].as_slice());
            let end_pos: u16 = (277 + tx_channel.len()) as u16;
            push_be16(&mut buf, end_pos);
            push_zeros(&mut buf, 248);
            buffer_extend(&mut buf, tx_channel);
            buffer_extend(&mut buf, [0x00u8].as_slice());
            buffer_extend(&mut buf, tx_device);
            buffer_extend(&mut buf, [0x00u8].as_slice());
            proof {
                assert(bytes_of(buf) =~= subscription_payload_v4_4(
                    rx_channel_id,
                    tx_device@,
                    tx_channel@,
                ));
            }
        },
        DanteVersion::Dante4_2_1_3 => {
            buffer_extend(&mut buf, [0x10u8, 0x01].as_slice());
            push_be16(&mut buf, rx_channel_id);
            buffer_extend(&mut buf, [0x01u8, 0x4C].as_slice());
            let end_pos: u16 = (333 + tx_channel.len()) as u16;
            push_be16(&mut buf, end_pos);
            push_zeros(&mut buf, 314);
            buffer_extend(&mut buf, tx_channel);
            buffer_extend(&mut buf, [0x00u8].as_slice());
            buffer_extend(&mut buf, tx_device);
            buffer_extend(&mut buf, [0x00u8].as_slice());
            proof {
                assert(bytes_of(buf) =~= subscription_payload_v4_2(
                    rx_channel_id,
                    tx_device@,
                    tx_channel@,
                ));
            }
        },
    }
    buf
}

/// Builds the clear-subscription payload of the given version.
pub fn clear_payload(version: &DanteVersion, rx_channel_id: u16) -> (r: bytes::BytesMut)
    ensures
        bytes_of(r) == spec_clear_payload(*version, rx_channel_id),
{
    let mut buf = buffer_new();
    match version {
        DanteVersion::Dante4_4_1_3 => {
            buffer_extend(
                &mut buf,
                [0x00u8, 0x00, 0x00, 0x00, 0x00, 0x00, 0x08, 0x00, 0x20, 0x01].as_slice(),
            );
            push_be16(&mut buf, rx_channel_id);
            buffer_extend(&mut buf, [0x00u8, 0x03, 0x00, 0x00, 0x00, 0x00].as_slice());
            push_zeros(&mut buf, 248);
            proof {
                assert(bytes_of(buf) =~= clear_payload_v4_4(rx_channel_id));
            }
        },
        DanteVersion::Dante4_2_1_3 => {
            buffer_extend(&mut buf, [0x10u8, 0x01].as_slice());
            push_be16(&mut buf, rx_channel_id);
            push_zeros(&mut buf, 318);
            proof {
                assert(bytes_of(buf) =~= clear_payload_v4_2(rx_channel_id));
            }
        },
    }
    buf
}

/// Wraps a command payload in the envelope: magic bytes, the length field,
/// the given sequence number, the command code, two reserved bytes, then
/// the payload.
pub fn build_envelope(seq_id: u16, command: [u8; 2], args: &bytes::BytesMut) -> (r: Vec<u8>)
    requires
        bytes_of(*args).len() + 10 <= 65535,
    ensures
        r@ == envelope_bytes(seq_id, command@, bytes_of(*args)),
{
    let mut buf = buffer_new();
    buffer_extend(&mut buf, [0x28u8, 0x30].as_slice());
    let args_len: usize = buffer_len(args);
    push_be16(&mut buf, (args_len + 10) as u16);
    push_be16(&mut buf, seq_id);
    buffer_extend(&mut buf, command.as_slice());
    buffer_extend(&mut buf, [0x00u8, 0x00].as_slice());
    let args_vec: Vec<u8> = buffer_to_vec(args);
    buffer_extend(&mut buf, args_vec.as_slice());
    proof {
        assert(bytes_of(buf) =~= envelope_bytes(seq_id, command@, bytes_of(*args)));
    }
    buffer_to_vec(&buf)
}

} // verus!
