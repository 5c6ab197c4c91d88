//! Frames: fixed-width blocks of bytes that carry one text message each.
//!
//! A frame holds the UTF-8 bytes of its text, followed by zero bytes up to the
//! frame's width. Text that does not fit is cut at a character boundary: the
//! frame then holds the longest run of leading characters whose encoding fits.
//! Reading a frame back takes the bytes before the first zero byte, or all of
//! them when there is none, and interprets them as UTF-8.

use vstd::prelude::*;
use vstd::utf8::*;
use crate::MSG_SIZE;

pub mod encoding;
pub mod laws;

use crate::frame::encoding::{lemma_before_first, lemma_boundary_cut};

verus! {

/// Why a frame could not be read back as text.
#[derive(Debug, Clone, Copy, PartialEq, Eq, Structural)]
pub enum DecodeError {
    /// The bytes before the first zero byte are not valid UTF-8.
    InvalidEncoding,
}

/// One message as it travels on the wire.
#[derive(Debug, Clone, PartialEq, Eq)]
pub struct Frame {
    bytes: Vec<u8>,
}

impl View for Frame {
    type V = Seq<u8>;

    closed spec fn view(&self) -> Seq<u8> {
        self.bytes@
    }
}

/// The elements of `s` that come before the first occurrence of `stop`; all of
/// `s` when `stop` does not occur.
pub open spec fn before_first<T>(s: Seq<T>, stop: T) -> Seq<T> {
    match s.index_of_first(stop) {
        Some(end) => s.take(end),
        None => s,
    }
}

/// `n` zero bytes.
pub open spec fn padding(n: nat) -> Seq<u8> {
    Seq::new(n, |i: int| 0u8)
}

/// How many leading characters of `text` have a UTF-8 encoding of at most
/// `width` bytes in total.
pub open spec fn fitting_chars(text: Seq<char>, width: nat) -> nat
    decreases text.len(),
{
    if text.len() == 0 {
        0
    } else {
        let first = encode_scalar(text[0] as u32).len();
        if first > width {
            0
        } else {
            1 + fitting_chars(text.drop_first(), (width - first) as nat)
        }
    }
}

/// The part of `text` that a frame of `width` bytes carries.
pub open spec fn truncated(text: Seq<char>, width: nat) -> Seq<char> {
    text.take(fitting_chars(text, width) as int)
}

/// The frame of `width` bytes for `text`.
pub open spec fn encoded(text: Seq<char>, width: nat) -> Seq<u8> {
    let body = encode_utf8(truncated(text, width));
    body + padding((width - body.len()) as nat)
}

/// The bytes of a frame that carry its text.
pub open spec fn payload(frame: Seq<u8>) -> Seq<u8> {
    before_first(frame, 0u8)
}

/// The text that a frame carries, if its payload is valid UTF-8.
pub open spec fn decoded(frame: Seq<u8>) -> Result<Seq<char>, DecodeError> {
    if valid_utf8(payload(frame)) {
        Ok(decode_utf8(payload(frame)))
    } else {
        Err(DecodeError::InvalidEncoding)
    }
}

impl Frame {
    /// Takes `bytes`, as read from a connection, as a frame.
    pub fn from_bytes(bytes: Vec<u8>) -> (frame: Frame)
        ensures
            frame@ == bytes@,
    {
        Frame { bytes }
    }

    /// The bytes to write to a connection.
    pub fn as_bytes(&self) -> (bytes: &[u8])
        ensures
            bytes@ == self@,
    {
        self.bytes.as_slice()
    }

    /// Number of bytes in the frame.
    pub fn width(&self) -> (width: usize)
        ensures
            width == self@.len(),
    {
        self.bytes.len()
    }
}

/// Builds the frame of `width` bytes for `text`: its UTF-8 bytes, cut at the last
/// character boundary within `width` bytes where the text is longer, then zero
/// bytes up to `width`.
pub fn encode_to_width(text: &str, width: usize) -> (frame: Frame)
    ensures
        frame@ == encoded(text@, width as nat),
{
    let source = text.as_bytes();
    let limit = if source.len() <= width {
        source.len()
    } else {
        width
    };
    proof {
        encode_utf8_valid_utf8(text@);
    }
    let mut cut: usize = limit;
    while !text.is_char_boundary(cut)
        invariant
            cut <= limit,
            source@ == encode_utf8(text@),
            valid_utf8(source@),
            forall|k: int| cut < k <= limit ==> !is_char_boundary(source@, k),
        decreases cut,
    {
        cut = cut - 1;
    }
    let mut bytes: Vec<u8> = Vec::new();
    let mut copied: usize = 0;
    while copied < cut
        invariant
            copied <= cut <= source@.len(),
            bytes@ == source@.take(copied as int),
        decreases cut - copied,
    {
        bytes.push(source[copied]);
        copied = copied + 1;
    }
    while bytes.len() < width
        invariant
            cut <= bytes@.len() <= width,
            bytes@ == source@.take(cut as int) + padding((bytes@.len() - cut) as nat),
        decreases width - bytes@.len(),
    {
        bytes.push(0u8);
    }
    proof {
        lemma_boundary_cut(text@, width as nat, cut as int);
    }
    Frame { bytes }
}

/// Builds the frame for `text` at the width of the wire format, `MSG_SIZE`.
pub fn encode(text: &str) -> (frame: Frame)
    ensures
        frame@ == encoded(text@, MSG_SIZE as nat),
{
    encode_to_width(text, MSG_SIZE)
}

/// The error that `String::from_utf8` returns.
#[verifier::external_type_specification]
#[verifier::external_body]
pub struct ExFromUtf8Error(std::string::FromUtf8Error);

/// `String::from_utf8` accepts exactly the byte vectors that are valid UTF-8,
/// and the string it returns then has those bytes as its encoding.
pub assume_specification[ String::from_utf8 ](bytes: Vec<u8>) -> (result: Result<
    String,
    std::string::FromUtf8Error,
>)
    ensures
        result is Ok <==> valid_utf8(bytes@),
        result matches Ok(text) ==> encode_utf8(text@) == bytes@,
;

/// Reads the text of a frame: the bytes before its first zero byte, or all of
/// them when none is zero, taken as UTF-8.
pub fn decode(frame: &Frame) -> (result: Result<String, DecodeError>)
    ensures
        match result {
            Ok(text) => decoded(frame@) == Ok::<Seq<char>, DecodeError>(text@),
            Err(error) => decoded(frame@) == Err::<Seq<char>, DecodeError>(error),
        },
{
    let mut end: usize = 0;
    while end < frame.bytes.len() && frame.bytes[end] != 0
        invariant
            end <= frame.bytes@.len(),
            forall|j: int| 0 <= j < end ==> frame.bytes@[j] != 0u8,
        decreases frame.bytes@.len() - end,
    {
        end = end + 1;
    }
    let mut body: Vec<u8> = Vec::new();
    let mut copied: usize = 0;
    while copied < end
        invariant
            copied <= end <= frame.bytes@.len(),
            body@ == frame.bytes@.take(copied as int),
        decreases end - copied,
    {
        body.push(frame.bytes[copied]);
        copied = copied + 1;
    }
    proof {
        lemma_before_first(frame@, 0u8, end as int);
    }
    match String::from_utf8(body) {
        Ok(text) => {
            proof {
                encode_utf8_decode_utf8(text@);
            }
            Ok(text)
        },
        Err(_) => Err(DecodeError::InvalidEncoding),
    }
}

} // verus!
