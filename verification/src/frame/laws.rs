//! What holds of frames whatever the text and the width.

use vstd::prelude::*;
use vstd::utf8::*;
use crate::frame::{
    before_first, decoded, encoded, fitting_chars, padding, payload, truncated, DecodeError,
};
use crate::frame::encoding::{lemma_fitting_chars, lemma_payload_of_padded};

verus! {

/// A frame has exactly the width it was built for.
pub proof fn theorem_frame_width(text: Seq<char>, width: nat)
    ensures
        encoded(text, width).len() == width,
{
    lemma_fitting_chars(text, width);
}

/// The text in a frame is the longest run of leading characters of the text
/// it was built for whose encoding fits: it fits, and either it is the whole
/// text or one more character would not fit. Cutting a text that was cut
/// already changes nothing.
pub proof fn theorem_truncation(text: Seq<char>, width: nat)
    ensures
        fitting_chars(text, width) <= text.len(),
        encode_utf8(truncated(text, width)).len() <= width,
        fitting_chars(text, width) < text.len() ==> encode_utf8(
            text.take(fitting_chars(text, width) as int + 1),
        ).len() > width,
        encode_utf8(text).len() <= width ==> truncated(text, width) == text,
        truncated(truncated(text, width), width) == truncated(text, width),
        encoded(truncated(text, width), width) == encoded(text, width),
{
    lemma_fitting_chars(text, width);
    lemma_fitting_chars(truncated(text, width), width);
    assert(truncated(text, width).take(truncated(text, width).len() as int) =~= truncated(
        text,
        width,
    ));
    if encode_utf8(text).len() <= width {
        assert(text.take(text.len() as int) =~= text);
    }
}

/// Every frame that `encoded` describes reads back as text: the text it
/// carries, up to that text's first NUL character.
pub proof fn theorem_decode_encoded(text: Seq<char>, width: nat)
    ensures
        decoded(encoded(text, width)) == Ok::<Seq<char>, DecodeError>(
            before_first(truncated(text, width), '\0'),
        ),
{
    let carried = truncated(text, width);
    lemma_fitting_chars(text, width);
    lemma_payload_of_padded(carried, (width - encode_utf8(carried).len()) as nat);
    encode_utf8_valid_utf8(before_first(carried, '\0'));
    encode_utf8_decode_utf8(before_first(carried, '\0'));
}

/// A text without NUL characters whose encoding is no longer than the frame
/// comes back unchanged. Where the encoding fills the frame exactly, the frame
/// holds it with no padding.
pub proof fn theorem_round_trip(text: Seq<char>, width: nat)
    requires
        encode_utf8(text).len() <= width,
        !text.contains('\0'),
    ensures
        decoded(encoded(text, width)) == Ok::<Seq<char>, DecodeError>(text),
        payload(encoded(text, width)) == encode_utf8(text),
        encode_utf8(text).len() == width ==> encoded(text, width) == encode_utf8(text),
{
    theorem_truncation(text, width);
    theorem_decode_encoded(text, width);
    text.index_of_first_ensures('\0');
    lemma_payload_of_padded(text, (width - encode_utf8(text).len()) as nat);
    if encode_utf8(text).len() == width {
        assert(encode_utf8(text) + padding(0) =~= encode_utf8(text));
    }
}

} // verus!
