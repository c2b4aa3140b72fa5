//! The wire format: its model, and the executable pieces that read and write
//! the length header.

use byteorder::{BigEndian, ByteOrder};
use vstd::prelude::*;

verus! {

/// Width of the length header, in bytes.
pub const HEADER_LEN: usize = 2;

/// Largest payload length that the header can announce.
pub const MAX_PAYLOAD_LEN: usize = 65535;

/// The number spelled by two bytes, most significant first.
pub open spec fn be16(hi: u8, lo: u8) -> nat {
    (hi as nat) * 256 + (lo as nat)
}

/// The two header bytes that announce a payload of `len` bytes.
pub open spec fn header(len: nat) -> Seq<u8>
    recommends
        len <= MAX_PAYLOAD_LEN,
{
    seq![(len / 256) as u8, (len % 256) as u8]
}

/// The bytes of the frame that carries `payload`: header, then payload.
pub open spec fn frame(payload: Seq<u8>) -> Seq<u8>
    recommends
        payload.len() <= MAX_PAYLOAD_LEN,
{
    header(payload.len()) + payload
}

/// The payload length that the first two bytes of `buf` announce.
pub open spec fn announced_len(buf: Seq<u8>) -> nat
    recommends
        buf.len() >= HEADER_LEN,
{
    be16(buf[0], buf[1])
}

/// The total length, header included, of the frame at the front of `buf`.
pub open spec fn frame_len(buf: Seq<u8>) -> nat
    recommends
        buf.len() >= HEADER_LEN,
{
    HEADER_LEN as nat + announced_len(buf)
}

/// Whether `buf` starts with a whole frame: the header is there, and so are
/// all the payload bytes it announces.
pub open spec fn has_frame(buf: Seq<u8>) -> bool {
    buf.len() >= HEADER_LEN && buf.len() >= frame_len(buf)
}

/// The payload of the frame at the front of `buf`.
pub open spec fn first_payload(buf: Seq<u8>) -> Seq<u8>
    recommends
        has_frame(buf),
{
    buf.subrange(HEADER_LEN as int, frame_len(buf) as int)
}

/// What is left of `buf` once the frame at its front is taken away.
pub open spec fn after_frame(buf: Seq<u8>) -> Seq<u8>
    recommends
        has_frame(buf),
{
    buf.subrange(frame_len(buf) as int, buf.len() as int)
}

/// One decode attempt on `buf`, as a function: the payload handed out, if
/// any, and the buffer afterwards. Without a whole frame nothing is handed
/// out and the buffer stays as it is.
pub open spec fn decode_step(buf: Seq<u8>) -> (Option<Seq<u8>>, Seq<u8>) {
    if has_frame(buf) {
        (Some(first_payload(buf)), after_frame(buf))
    } else {
        (None, buf)
    }
}

/// Reads a big-endian `u16` from the first two bytes of `buf` with
/// `byteorder::ByteOrder::read_u16` for `BigEndian`. Trusted: the result is
/// the first byte times 256 plus the second. The call panics on fewer than
/// two bytes, which the precondition rules out.
#[verifier::external_body]
fn read_header(buf: &[u8]) -> (n: u16)
    requires
        buf@.len() >= HEADER_LEN,
    ensures
        n as nat == be16(buf@[0], buf@[1]),
{
    BigEndian::read_u16(buf)
}

/// Spells `n` as two big-endian bytes with `byteorder::ByteOrder::write_u16`
/// for `BigEndian`, into a fresh two-byte array. Trusted: the first byte is
/// `n / 256`, the second `n % 256`.
#[verifier::external_body]
fn header_bytes(n: u16) -> (out: [u8; 2])
    ensures
        out@ == header(n as nat),
{
    let mut out: [u8; 2] = [0u8; 2];
    BigEndian::write_u16(&mut out, n);
    out
}

/// Looks at the front of a buffer and says how many bytes the frame there
/// takes up, header included, or `None` while the frame is not whole. With
/// fewer than two bytes buffered the header is not read at all.
pub fn frame_extent(front: &[u8]) -> (extent: Option<usize>)
    ensures
        has_frame(front@) ==> extent == Some(frame_len(front@) as usize),
        !has_frame(front@) ==> extent is None,
        extent is Some ==> HEADER_LEN <= extent->0 <= front@.len(),
{
    if front.len() < HEADER_LEN {
        return None;
    }
    let announced: u16 = read_header(front);
    let total: usize = announced as usize + HEADER_LEN;
    if front.len() < total {
        None
    } else {
        Some(total)
    }
}

/// Appends the frame that carries `payload` to `out`. Bytes already in `out`
/// stay as they are.
pub(crate) fn write_frame(payload: &[u8], out: &mut Vec<u8>)
    requires
        payload@.len() <= MAX_PAYLOAD_LEN,
    ensures
        final(out)@ == old(out)@ + frame(payload@),
{
    let hdr: [u8; 2] = header_bytes(payload.len() as u16);
    out.push(hdr[0]);
    out.push(hdr[1]);
    out.extend_from_slice(payload);
    assert(out@ =~= old(out)@ + frame(payload@));
}

} // verus!
