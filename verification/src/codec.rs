//! Frames: how control messages travel on a stream. A frame is the length
//! of the message in four bytes, most significant first, then the bytes of
//! the message.

use crate::error::{DecodeError, NRelayError};
use crate::encoding::lemma_message_roundtrip;
use crate::proto::{ControlMessage, ControlMessageView};
use vstd::prelude::*;
use vstd::slice::slice_subrange;

verus! {

/// Largest length that a reader accepts for the message of a frame.
pub const MAX_MESSAGE_SIZE: usize = 65536;

/// Number of bytes of the length in front of a message.
pub const FRAME_HEADER_LEN: usize = 4;

/// The four bytes that write the length `len` down, most significant first.
pub open spec fn length_bytes(len: nat) -> Seq<u8> {
    seq![
        (len / 0x100_0000) as u8,
        ((len / 0x1_0000) % 0x100) as u8,
        ((len / 0x100) % 0x100) as u8,
        (len % 0x100) as u8,
    ]
}

/// The length that the first four bytes of `data` write down.
pub open spec fn length_of(data: Seq<u8>) -> nat {
    (data[0] as nat) * 0x100_0000 + (data[1] as nat) * 0x1_0000 + (data[2] as nat) * 0x100
        + data[3] as nat
}

/// The frame that carries the message `m`.
pub open spec fn frame_of(m: ControlMessageView) -> Seq<u8> {
    length_bytes(m.bytes().len()) + m.bytes()
}

/// Why a reader refuses the bytes of a stream.
pub enum FrameFailure {
    /// The stream ended inside the frame.
    Closed,
    /// The frame announces more than `MAX_MESSAGE_SIZE` bytes.
    TooLarge,
    /// The frame announces no bytes.
    Zero,
    /// The frame is whole, but its bytes are no message.
    Malformed(DecodeError),
}

/// What a reader makes of a stream that holds `input` and then ends: the
/// message of the first frame and the number of bytes that the frame took,
/// or the reason why there is none.
pub open spec fn first_frame(input: Seq<u8>) -> Result<(ControlMessageView, nat), FrameFailure> {
    if input.len() < FRAME_HEADER_LEN {
        Err(FrameFailure::Closed)
    } else {
        let len = length_of(input);
        if len > MAX_MESSAGE_SIZE {
            Err(FrameFailure::TooLarge)
        } else if len == 0 {
            Err(FrameFailure::Zero)
        } else if input.len() < FRAME_HEADER_LEN + len {
            Err(FrameFailure::Closed)
        } else {
            match ControlMessageView::parse(
                input.subrange(FRAME_HEADER_LEN as int, FRAME_HEADER_LEN + len),
            ) {
                Ok(m) => Ok((m, (FRAME_HEADER_LEN + len) as nat)),
                Err(e) => Err(FrameFailure::Malformed(e)),
            }
        }
    }
}

/// Whether the error `e` reports the failure `f`.
pub open spec fn reports(e: NRelayError, f: FrameFailure) -> bool {
    match f {
        FrameFailure::Closed => e == NRelayError::ConnectionClosed,
        FrameFailure::TooLarge => e.is_protocol("Message too large"@),
        FrameFailure::Zero => e.is_protocol("Message size is zero"@),
        FrameFailure::Malformed(d) => e == NRelayError::Decode(d),
    }
}

/// Checks the length that a frame announces: it must be above zero and at
/// most `MAX_MESSAGE_SIZE`. The check comes before any byte of the message
/// is read, so that an absurd length costs no memory.
pub fn check_frame_len(len: u32) -> (res: Result<usize, NRelayError>)
    ensures
        match res {
            Ok(n) => n == len && 0 < len <= MAX_MESSAGE_SIZE,
            Err(e) => if len > MAX_MESSAGE_SIZE {
                e.is_protocol("Message too large"@)
            } else {
                len == 0 && e.is_protocol("Message size is zero"@)
            },
        },
{
    if len as usize > MAX_MESSAGE_SIZE {
        return Err(NRelayError::Protocol("Message too large".to_owned()));
    }
    if len == 0 {
        return Err(NRelayError::Protocol("Message size is zero".to_owned()));
    }
    Ok(len as usize)
}

/// The length that the four bytes of a frame header write down.
pub fn frame_len(header: &[u8; 4]) -> (len: u32)
    ensures
        len == length_of(header@),
{
    let b0: u32 = header[0] as u32;
    let b1: u32 = header[1] as u32;
    let b2: u32 = header[2] as u32;
    let b3: u32 = header[3] as u32;
    b0 * 0x100_0000 + b1 * 0x1_0000 + b2 * 0x100 + b3
}

/// Reads the bytes of a frame as a message.
pub fn decode_frame_body(body: &[u8]) -> (res: Result<ControlMessage, NRelayError>)
    ensures
        match res {
            Ok(m) => ControlMessageView::parse(body@) == Ok::<ControlMessageView, DecodeError>(m@),
            Err(e) => match ControlMessageView::parse(body@) {
                Ok(_) => false,
                Err(d) => e == NRelayError::Decode(d),
            },
        },
{
    match ControlMessage::decode(body) {
        Ok(m) => Ok(m),
        Err(d) => Err(NRelayError::Decode(d)),
    }
}

/// Reads the first frame of a stream that holds `input` and then ends.
/// Returns the message and the number of bytes that the frame took.
///
/// A length above `MAX_MESSAGE_SIZE` and a length of zero are protocol
/// errors; a stream that ends inside the frame is a closed connection; bytes
/// that are no message give the decoder's error.
pub fn read_control_message(input: &[u8]) -> (res: Result<(ControlMessage, usize), NRelayError>)
    ensures
        match res {
            Ok((msg, used)) => first_frame(input@) == Ok::<
                (ControlMessageView, nat),
                FrameFailure,
            >((msg@, used as nat)),
            Err(e) => match first_frame(input@) {
                Ok(_) => false,
                Err(f) => reports(e, f),
            },
        },
{
    if input.len() < FRAME_HEADER_LEN {
        return Err(NRelayError::ConnectionClosed);
    }
    let header: [u8; 4] = [input[0], input[1], input[2], input[3]];
    let len = match check_frame_len(frame_len(&header)) {
        Ok(len) => len,
        Err(e) => {
            return Err(e);
        },
    };
    if input.len() - FRAME_HEADER_LEN < len {
        return Err(NRelayError::ConnectionClosed);
    }
    let end: usize = FRAME_HEADER_LEN + len;
    match decode_frame_body(slice_subrange(input, FRAME_HEADER_LEN, end)) {
        Ok(msg) => Ok((msg, end)),
        Err(e) => Err(e),
    }
}

/// Appends the frame that carries `msg` to `out`.
///
/// Fails, and leaves `out` as it was, for a message whose bytes are more
/// than a 32-bit length can say. A message of more than `MAX_MESSAGE_SIZE`
/// bytes is written; it is the reader that refuses it.
pub fn write_control_message(out: &mut Vec<u8>, msg: &ControlMessage) -> (res: Result<
    (),
    NRelayError,
>)
    ensures
        msg@.fits(),
        match res {
            Ok(_) => msg@.bytes().len() <= u32::MAX && final(out)@ == old(out)@ + frame_of(msg@),
            Err(e) => msg@.bytes().len() > u32::MAX && e.is_encode("Message too large"@)
                && final(out)@ == old(out)@,
        },
{
    let body = msg.encode();
    if body.len() > u32::MAX as usize {
        return Err(NRelayError::Encode("Message too large".to_owned()));
    }
    let len: u32 = body.len() as u32;
    out.push((len / 0x100_0000) as u8);
    out.push(((len / 0x1_0000) % 0x100) as u8);
    out.push(((len / 0x100) % 0x100) as u8);
    out.push((len % 0x100) as u8);
    out.extend_from_slice(body.as_slice());
    Ok(())
}

/// The length that `length_bytes` writes down is read back by `length_of`.
pub proof fn lemma_length_roundtrip(len: nat, rest: Seq<u8>)
    requires
        len <= u32::MAX,
    ensures
        length_of(length_bytes(len) + rest) == len,
{
}

/// A message that was framed is read back from the frame, whatever
/// follows the frame on the stream, if the message has a payload and its
/// bytes are no more than the reader accepts.
pub proof fn lemma_frame_roundtrip(m: ControlMessageView, rest: Seq<u8>)
    requires
        m.fits(),
        0 < m.bytes().len() <= MAX_MESSAGE_SIZE,
    ensures
        first_frame(frame_of(m) + rest) == Ok::<(ControlMessageView, nat), FrameFailure>(
            (m, (FRAME_HEADER_LEN + m.bytes().len()) as nat),
        ),
{
    let len = m.bytes().len();
    let input = frame_of(m) + rest;
    lemma_length_roundtrip(len, m.bytes() + rest);
    assert(input.subrange(FRAME_HEADER_LEN as int, FRAME_HEADER_LEN + len) =~= m.bytes());
    lemma_message_roundtrip(m);
}

/// A frame whose length is zero or above `MAX_MESSAGE_SIZE` is never read:
/// it fails as a protocol error, whatever its bytes are.
pub proof fn lemma_bad_length_is_protocol_error(input: Seq<u8>)
    requires
        input.len() >= FRAME_HEADER_LEN,
        length_of(input) == 0 || length_of(input) > MAX_MESSAGE_SIZE,
    ensures
        first_frame(input) == Err::<(ControlMessageView, nat), FrameFailure>(FrameFailure::Zero)
            || first_frame(input) == Err::<(ControlMessageView, nat), FrameFailure>(
            FrameFailure::TooLarge,
        ),
{
}

} // verus!
