//! Facts about UTF-8 encodings that the frame codec rests on: how an encoding
//! splits along the characters of its text, where its character boundaries lie,
//! and which of its bytes can be zero.

use vstd::prelude::*;
use vstd::utf8::*;
use crate::frame::{before_first, fitting_chars, padding, payload, truncated};

verus! {

/// The encoding of a text is the encoding of its parts, one after the other.
pub proof fn lemma_encode_concat(a: Seq<char>, b: Seq<char>)
    ensures
        encode_utf8(a + b) == encode_utf8(a) + encode_utf8(b),
    decreases a.len(),
{
    if a.len() == 0 {
        assert(a + b =~= b);
        assert(encode_utf8(a) + encode_utf8(b) =~= encode_utf8(b));
    } else {
        lemma_encode_concat(a.drop_first(), b);
        assert((a + b).drop_first() =~= a.drop_first() + b);
        assert(encode_utf8(a + b) =~= encode_utf8(a) + encode_utf8(b));
    }
}

/// The encoding of the first `n` characters opens the encoding of the whole.
pub proof fn lemma_encode_take(text: Seq<char>, n: int)
    requires
        0 <= n <= text.len(),
    ensures
        encode_utf8(text) == encode_utf8(text.take(n)) + encode_utf8(text.skip(n)),
        encode_utf8(text.take(n)).len() <= encode_utf8(text).len(),
{
    assert(text =~= text.take(n) + text.skip(n));
    lemma_encode_concat(text.take(n), text.skip(n));
}

/// The encoding of a text that starts with `text[0]` starts with that
/// character's bytes, and the encoding of the remaining characters follows.
pub proof fn lemma_encode_first(text: Seq<char>)
    requires
        text.len() > 0,
    ensures
        encode_utf8(text) == encode_scalar(text[0] as u32) + encode_utf8(text.drop_first()),
        valid_utf8(encode_utf8(text)),
        length_of_first_scalar(encode_utf8(text)) == encode_scalar(text[0] as u32).len(),
        pop_first_scalar(encode_utf8(text)) == encode_utf8(text.drop_first()),
{
    encode_utf8_valid_utf8(text);
    encode_utf8_first_scalar(text);
    assert(pop_first_scalar(encode_utf8(text)) =~= encode_utf8(text.drop_first()));
}

/// The truncated text fits, it is all of the text when all of it fits, and
/// otherwise one more character would not fit.
pub proof fn lemma_fitting_chars(text: Seq<char>, width: nat)
    ensures
        fitting_chars(text, width) <= text.len(),
        encode_utf8(truncated(text, width)).len() <= width,
        encode_utf8(text).len() <= width ==> fitting_chars(text, width) == text.len(),
        fitting_chars(text, width) < text.len() ==> encode_utf8(
            text.take(fitting_chars(text, width) as int + 1),
        ).len() > width,
    decreases text.len(),
{
    if text.len() == 0 {
        assert(truncated(text, width) =~= text);
    } else {
        lemma_encode_first(text);
        let first = encode_scalar(text[0] as u32);
        let rest = text.drop_first();
        if first.len() > width {
            assert(truncated(text, width) =~= Seq::<char>::empty());
            assert(text.take(1) =~= seq![text[0]]);
            lemma_encode_first(text.take(1));
        } else {
            let room = (width - first.len()) as nat;
            lemma_fitting_chars(rest, room);
            let count = fitting_chars(rest, room) as int;
            assert(truncated(text, width) =~= seq![text[0]] + truncated(rest, room));
            lemma_encode_concat(seq![text[0]], truncated(rest, room));
            lemma_encode_first(seq![text[0]]);
            assert(seq![text[0]].drop_first() =~= Seq::<char>::empty());
            assert(encode_utf8(seq![text[0]]) =~= first);
            if count < rest.len() {
                assert(text.take(count + 2) =~= seq![text[0]] + rest.take(count + 1));
                lemma_encode_concat(seq![text[0]], rest.take(count + 1));
            }
        }
    }
}

/// Cutting an encoding at the last character boundary within `width` bytes
/// leaves the encoding of the truncated text.
pub proof fn lemma_boundary_cut(text: Seq<char>, width: nat, cut: int)
    requires
        0 <= cut <= width,
        cut <= encode_utf8(text).len(),
        is_char_boundary(encode_utf8(text), cut),
        forall|k: int|
            cut < k <= width && k <= encode_utf8(text).len() ==> !is_char_boundary(
                encode_utf8(text),
                k,
            ),
    ensures
        encode_utf8(text).take(cut) == encode_utf8(truncated(text, width)),
    decreases text.len(),
{
    let bytes = encode_utf8(text);
    if text.len() == 0 {
        assert(truncated(text, width) =~= text);
        assert(bytes.take(cut) =~= bytes);
    } else {
        lemma_encode_first(text);
        let first = encode_scalar(text[0] as u32);
        let n = first.len() as int;
        let rest = text.drop_first();
        let rest_bytes = encode_utf8(rest);
        encode_utf8_valid_utf8(rest);
        if n > width {
            if cut > 0 {
                assert(!is_char_boundary(rest_bytes, cut - n));
                assert(false);
            }
            assert(truncated(text, width) =~= Seq::<char>::empty());
            assert(bytes.take(cut) =~= Seq::<u8>::empty());
        } else {
            let room = (width - n) as nat;
            assert(is_char_boundary(rest_bytes, 0));
            assert(is_char_boundary(bytes, n));
            assert(cut >= n);
            assert(is_char_boundary(rest_bytes, cut - n));
            assert forall|k: int|
                cut - n < k <= room && k <= rest_bytes.len() implies !is_char_boundary(
                rest_bytes,
                k,
            ) by {
                assert(!is_char_boundary(bytes, k + n));
            }
            lemma_boundary_cut(rest, room, cut - n);
            lemma_fitting_chars(rest, room);
            assert(truncated(text, width) =~= seq![text[0]] + truncated(rest, room));
            lemma_encode_concat(seq![text[0]], truncated(rest, room));
            lemma_encode_first(seq![text[0]]);
            assert(seq![text[0]].drop_first() =~= Seq::<char>::empty());
            assert(encode_utf8(seq![text[0]]) =~= first);
            assert(bytes.take(cut) =~= first + rest_bytes.take(cut - n));
        }
    }
}

/// `before_first` ends at the one position that has no `stop` before it and
/// either `stop` at it or nothing left.
pub proof fn lemma_before_first<T>(s: Seq<T>, stop: T, end: int)
    requires
        0 <= end <= s.len(),
        forall|j: int| 0 <= j < end ==> s[j] != stop,
        end < s.len() ==> s[end] == stop,
    ensures
        before_first(s, stop) == s.take(end),
{
    s.index_of_first_ensures(stop);
    match s.index_of_first(stop) {
        Some(found) => {
            assert(found == end);
        },
        None => {
            assert(end == s.len());
            assert(s.take(end) =~= s);
        },
    }
}

proof fn lemma_one_byte_zero(c: u32)
    by (bit_vector)
    requires
        has_width_1_encoding(c),
    ensures
        leading_byte_width_1(c) == 0 <==> c == 0,
{
}

proof fn lemma_wide_bytes_nonzero(c: u32)
    by (bit_vector)
    ensures
        leading_byte_width_2(c) != 0,
        leading_byte_width_3(c) != 0,
        leading_byte_width_4(c) != 0,
        last_continuation_byte(c) != 0,
        second_last_continuation_byte(c) != 0,
        third_last_continuation_byte(c) != 0,
{
}

/// Only the NUL character has a zero byte in its encoding, and its encoding is
/// that one byte.
pub proof fn lemma_scalar_zero(c: char)
    ensures
        c == '\0' ==> encode_scalar(c as u32) == seq![0u8],
        c != '\0' ==> !encode_scalar(c as u32).contains(0u8),
{
    let v = c as u32;
    char_is_scalar(c);
    lemma_wide_bytes_nonzero(v);
    if has_width_1_encoding(v) {
        lemma_one_byte_zero(v);
    }
}

/// The encoding of a text without NUL characters has no zero byte.
pub proof fn lemma_zero_free(text: Seq<char>)
    requires
        !text.contains('\0'),
    ensures
        !encode_utf8(text).contains(0u8),
    decreases text.len(),
{
    if text.len() > 0 {
        let rest = text.drop_first();
        assert(text[0] != '\0');
        assert forall|i: int| 0 <= i < rest.len() implies rest[i] != '\0' by {
            assert(rest[i] == text[i + 1]);
        }
        lemma_zero_free(rest);
        lemma_scalar_zero(text[0]);
        lemma_encode_first(text);
        let first = encode_scalar(text[0] as u32);
        let bytes = encode_utf8(text);
        assert forall|i: int| 0 <= i < bytes.len() implies bytes[i] != 0u8 by {
            if i < first.len() {
                assert(bytes[i] == first[i]);
            } else {
                assert(bytes[i] == encode_utf8(rest)[i - first.len()]);
            }
        }
    }
}

/// Followed by zero bytes or not, the encoding of a text has as its payload the
/// encoding of the characters before the text's first NUL.
pub proof fn lemma_payload_of_padded(text: Seq<char>, pad: nat)
    ensures
        payload(encode_utf8(text) + padding(pad)) == encode_utf8(before_first(text, '\0')),
{
    let block = encode_utf8(text) + padding(pad);
    let head = before_first(text, '\0');
    text.index_of_first_ensures('\0');
    let shown = match text.index_of_first('\0') {
        Some(at) => at,
        None => text.len() as int,
    };
    assert(head =~= text.take(shown));
    lemma_encode_take(text, shown);
    let body = encode_utf8(head);
    assert(!head.contains('\0'));
    lemma_zero_free(head);
    if shown < text.len() {
        let tail = text.skip(shown);
        assert(tail[0] == '\0');
        lemma_encode_first(tail);
        lemma_scalar_zero(tail[0]);
        assert(block[body.len() as int] == 0u8);
    }
    assert forall|j: int| 0 <= j < body.len() implies block[j] != 0u8 by {
        assert(block[j] == body[j]);
        assert(body.contains(body[j]));
    }
    lemma_before_first(block, 0u8, body.len() as int);
    assert(block.take(body.len() as int) =~= body);
}

} // verus!
