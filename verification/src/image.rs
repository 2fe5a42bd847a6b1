//! Reading a null-terminated run of bytes out of an image.

use vstd::prelude::*;
use vstd::utf8::{
    char_is_scalar, char_u32_cast, decode_utf8, encode_scalar, encode_utf8,
    encode_utf8_decode_utf8, encode_utf8_valid_utf8, valid_utf8,
};

verus! {

/// The index of the first zero byte of `data` at or after `start`, or the
/// length of `data` where no zero byte follows.
pub open spec fn terminator(data: Seq<u8>, start: int) -> int
    decreases data.len() - start,
{
    if start >= data.len() {
        data.len() as int
    } else if data[start] == 0 {
        start
    } else {
        terminator(data, start + 1)
    }
}

/// The bytes of `data` from `offset` up to, and without, the first zero byte;
/// up to the end of `data` where no zero byte follows. An offset at or past
/// the end gives the empty run.
pub open spec fn until_null(data: Seq<u8>, offset: int) -> Seq<u8> {
    if 0 <= offset < data.len() {
        data.subrange(offset, terminator(data, offset))
    } else {
        Seq::empty()
    }
}

/// `terminator` stays within the data, passes over no zero byte, and stops
/// on one unless it reaches the end.
pub proof fn lemma_terminator(data: Seq<u8>, start: int)
    requires
        0 <= start <= data.len(),
    ensures
        start <= terminator(data, start) <= data.len(),
        forall|i: int| start <= i < terminator(data, start) ==> data[i] != 0,
        terminator(data, start) < data.len() ==> data[terminator(data, start)] == 0,
    decreases data.len() - start,
{
    if start < data.len() && data[start] != 0 {
        lemma_terminator(data, start + 1);
    }
}

/// Extracts the run of bytes that starts at `offset` and ends before the
/// first zero byte, or at the end of `data`.
pub fn bytes_until_null(data: &[u8], offset: u64) -> (run: Vec<u8>)
    ensures
        run@ == until_null(data@, offset as int),
{
    let mut run: Vec<u8> = Vec::new();
    if offset >= data.len() as u64 {
        return run;
    }
    let start: usize = offset as usize;
    let mut i: usize = start;
    while i < data.len() && data[i] != 0
        invariant
            start <= i <= data.len(),
            run@ == data@.subrange(start as int, i as int),
            terminator(data@, start as int) == terminator(data@, i as int),
        decreases data.len() - i,
    {
        run.push(data[i]);
        i += 1;
    }
    run
}

/// The text that the run of bytes at `offset` holds, where that run is UTF-8.
pub open spec fn string_at(data: Seq<u8>, offset: int) -> Option<Seq<char>> {
    if valid_utf8(until_null(data, offset)) {
        Some(decode_utf8(until_null(data, offset)))
    } else {
        None
    }
}

/// A run that no zero byte ends reaches the end of the data: where no zero
/// byte stands at or after `offset`, the run is all that follows `offset`.
pub proof fn lemma_unterminated_run(data: Seq<u8>, offset: int)
    requires
        0 <= offset <= data.len(),
        forall|i: int| offset <= i < data.len() ==> data[i] != 0,
    ensures
        until_null(data, offset) == data.skip(offset),
{
    lemma_terminator(data, offset);
    assert(until_null(data, offset) =~= data.skip(offset));
}

/// A terminated run is found again whole: where `bytes`, which hold no zero
/// byte, stand at `offset` and a zero byte follows them, the run at `offset`
/// is `bytes`.
pub proof fn lemma_terminated_run(data: Seq<u8>, offset: int, bytes: Seq<u8>)
    requires
        0 <= offset,
        offset + bytes.len() < data.len(),
        data.subrange(offset, offset + bytes.len()) == bytes,
        data[offset + bytes.len()] == 0,
        forall|i: int| 0 <= i < bytes.len() ==> bytes[i] != 0,
    ensures
        until_null(data, offset) == bytes,
{
    lemma_terminator(data, offset);
    let end = terminator(data, offset);
    assert forall|i: int| offset <= i < offset + bytes.len() implies data[i] != 0 by {
        assert(data[i] == bytes[i - offset]);
    }
    assert(end == offset + bytes.len());
}

proof fn lemma_scalar_bytes(scalar: u32)
    by (bit_vector)
    requires
        scalar != 0,
    ensures
        scalar <= 0x7F ==> (scalar & 0x7F) as u8 != 0,
        0xC0u8 | ((scalar >> 6) & 0x1F) as u8 != 0,
        0xE0u8 | ((scalar >> 12) & 0x0F) as u8 != 0,
        0xF0u8 | ((scalar >> 18) & 0x7) as u8 != 0,
        0x80u8 | (scalar & 0x3F) as u8 != 0,
        0x80u8 | ((scalar >> 6) & 0x3F) as u8 != 0,
        0x80u8 | ((scalar >> 12) & 0x3F) as u8 != 0,
{
}

/// The UTF-8 encoding of a text without a NUL character holds no zero byte.
pub proof fn lemma_encoding_without_nul(text: Seq<char>)
    requires
        forall|i: int| 0 <= i < text.len() ==> text[i] != '\0',
    ensures
        forall|i: int| 0 <= i < encode_utf8(text).len() ==> encode_utf8(text)[i] != 0,
    decreases text.len(),
{
    if text.len() > 0 {
        let rest = text.drop_first();
        assert forall|i: int| 0 <= i < rest.len() implies rest[i] != '\0' by {
            assert(rest[i] == text[i + 1]);
        }
        lemma_encoding_without_nul(rest);
        let scalar = text[0] as u32;
        assert(scalar != 0) by {
            assert(text[0] != '\0');
            char_u32_cast(text[0], scalar);
            char_u32_cast('\0', 0u32);
        }
        char_is_scalar(text[0]);
        lemma_scalar_bytes(scalar);
        let head = encode_scalar(scalar);
        assert forall|i: int| 0 <= i < encode_utf8(text).len() implies encode_utf8(text)[i]
            != 0 by {
            if i < head.len() {
                assert(encode_utf8(text)[i] == head[i]);
            } else {
                assert(encode_utf8(text)[i] == encode_utf8(rest)[i - head.len()]);
            }
        }
    }
}

/// Encoding a text and extracting it gives the text back: where the UTF-8
/// encoding of a text without a NUL character stands at `offset` and a zero
/// byte follows it, the string at `offset` is that text.
pub proof fn lemma_round_trip(data: Seq<u8>, offset: int, text: Seq<char>)
    requires
        0 <= offset,
        offset + encode_utf8(text).len() < data.len(),
        data.subrange(offset, offset + encode_utf8(text).len()) == encode_utf8(text),
        data[offset + encode_utf8(text).len()] == 0,
        forall|i: int| 0 <= i < text.len() ==> text[i] != '\0',
    ensures
        until_null(data, offset) == encode_utf8(text),
        string_at(data, offset) == Some(text),
{
    lemma_encoding_without_nul(text);
    lemma_terminated_run(data, offset, encode_utf8(text));
    encode_utf8_valid_utf8(text);
    encode_utf8_decode_utf8(text);
}

/// `std::str::from_utf8`: succeeds on exactly the byte sequences that are
/// valid UTF-8, and the string slice it gives is the text that those bytes
/// encode.
#[verifier::external_body]
fn from_utf8(bytes: &[u8]) -> (text: Option<&str>)
    ensures
        text is Some <==> valid_utf8(bytes@),
        text matches Some(s) ==> s@ == decode_utf8(bytes@),
{
    match std::str::from_utf8(bytes) {
        Ok(text) => Some(text),
        Err(_) => None,
    }
}

/// Decodes `bytes` as UTF-8 text; `None` where they are not valid UTF-8.
pub fn decode_text(bytes: &[u8]) -> (text: Option<String>)
    ensures
        text is Some <==> valid_utf8(bytes@),
        text matches Some(s) ==> s@ == decode_utf8(bytes@),
{
    match from_utf8(bytes) {
        Some(text) => Some(text.to_owned()),
        None => None,
    }
}

} // verus!
