//! The codec: whole frames out of a growing buffer, and payloads into frames.

use crate::buffer::buffered;
use crate::wire::{
    decode_step, first_payload, frame, frame_extent, has_frame, write_frame, HEADER_LEN,
    MAX_PAYLOAD_LEN,
};
use tokio_core::io::EasyBuf;
use vstd::prelude::*;
use vstd::slice::{slice_subrange, slice_to_vec};

verus! {

/// Why a payload could not be framed, or a frame not be delivered.
#[derive(Debug, Clone, Copy, PartialEq, Eq, Structural)]
pub enum FrameError {
    /// The payload is longer than the length header can announce.
    PayloadTooLarge,
    /// The frame was whole, but its payload is not a valid message.
    MalformedPayload,
}

/// The bytes of a payload that a decode attempt handed out, if it did.
pub open spec fn handed_out(payload: Option<Vec<u8>>) -> Option<Seq<u8>> {
    match payload {
        Some(bytes) => Some(bytes@),
        None => None,
    }
}

/// What the caller of a decode attempt gets once the payload of a whole
/// frame has been through the message parser: the message, or the error that
/// says the frame was whole but its payload no message.
pub open spec fn parsed_frame<T>(parsed: Option<T>) -> Result<Option<T>, FrameError> {
    match parsed {
        Some(msg) => Ok(Some(msg)),
        None => Err(FrameError::MalformedPayload),
    }
}

/// A codec for messages that travel as JSON text behind a two-byte
/// big-endian length. It keeps no state between calls: all there is to know
/// is in the buffers it is handed.
pub struct LengthPrefixedJson {}

impl LengthPrefixedJson {
    pub fn new() -> (codec: LengthPrefixedJson) {
        LengthPrefixedJson {  }
    }

    /// Takes the frame at the front of `buf`, if a whole one is there, and
    /// returns its payload; what follows the frame stays in `buf`. Otherwise
    /// returns `None` and leaves `buf` as it was, so that the call can be
    /// repeated once more bytes have arrived.
    pub fn decode(&mut self, buf: &mut EasyBuf) -> (payload: Option<Vec<u8>>)
        ensures
            (handed_out(payload), buffered(*final(buf))) == decode_step(buffered(*old(buf))),
            !has_frame(buffered(*old(buf))) ==> *final(buf) == *old(buf),
    {
        match frame_extent(buf.as_slice()) {
            None => None,
            Some(total) => {
                let taken: EasyBuf = buf.drain_to(total);
                let bytes: &[u8] = taken.as_slice();
                Some(slice_to_vec(slice_subrange(bytes, HEADER_LEN, total)))
            },
        }
    }

    /// Like [`decode`](Self::decode), and hands the payload of a whole frame
    /// to `parse`, which turns it into a message or rejects it. A rejected
    /// payload gives `MalformedPayload`; its frame is consumed all the same,
    /// so the next call looks at the next frame. While no whole frame is
    /// there, `parse` is not called.
    pub fn decode_with<T, F>(&mut self, buf: &mut EasyBuf, parse: F) -> (msg: Result<
        Option<T>,
        FrameError,
    >) where F: FnOnce(Vec<u8>) -> Option<T>
        requires
            forall|bytes: Vec<u8>| parse.requires((bytes,)),
        ensures
            buffered(*final(buf)) == decode_step(buffered(*old(buf))).1,
            !has_frame(buffered(*old(buf))) ==> msg == Ok::<Option<T>, FrameError>(None)
                && *final(buf) == *old(buf),
            has_frame(buffered(*old(buf))) ==> exists|bytes: Vec<u8>, parsed: Option<T>|
                bytes@ == first_payload(buffered(*old(buf))) && parse.ensures((bytes,), parsed)
                    && msg == parsed_frame(parsed),
    {
        match self.decode(buf) {
            None => Ok(None),
            Some(bytes) => {
                let ghost given = bytes;
                let parsed: Option<T> = parse(bytes);
                assert(parse.ensures((given,), parsed));
                match parsed {
                    Some(msg) => Ok(Some(msg)),
                    None => Err(FrameError::MalformedPayload),
                }
            },
        }
    }

    /// Appends the frame that carries `payload` to `buf`; what `buf` held
    /// before stays in front of it. A payload too long for the header is
    /// refused, and then nothing is written.
    pub fn encode(&mut self, payload: &[u8], buf: &mut Vec<u8>) -> (done: Result<(), FrameError>)
        ensures
            payload@.len() <= MAX_PAYLOAD_LEN ==> done is Ok && final(buf)@ == old(buf)@ + frame(
                payload@,
            ),
            payload@.len() > MAX_PAYLOAD_LEN ==> done == Err::<(), FrameError>(
                FrameError::PayloadTooLarge,
            ) && final(buf)@ == old(buf)@,
    {
        if payload.len() > MAX_PAYLOAD_LEN {
            return Err(FrameError::PayloadTooLarge);
        }
        write_frame(payload, buf);
        Ok(())
    }
}

} // verus!
