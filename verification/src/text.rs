//! Fixed-width text fields: UTF-8 text, cut at the first NUL and padded with
//! zero bytes to the width of the field.

use crate::codec::{
    cstring_bytes, cstring_len, is_cstring_len, lemma_cstring_len, padded, read_cstring,
    write_padded, zeros, DecodeError,
};
use vstd::prelude::*;
use vstd::utf8::{decode_utf8, encode_scalar, encode_utf8, valid_utf8};

verus! {

/// Number of characters before the first NUL character of `chars`.
pub open spec fn nul_index(chars: Seq<char>) -> int
    decreases chars.len(),
{
    if chars.len() == 0 || chars[0] == '\0' {
        0
    } else {
        1 + nul_index(chars.drop_first())
    }
}

/// The text that survives a trip through a text field: everything before the
/// first NUL character.
pub open spec fn text_before_nul(chars: Seq<char>) -> Seq<char> {
    chars.take(nul_index(chars))
}

/// True when `chars` holds no NUL character.
pub open spec fn nul_free(chars: Seq<char>) -> bool {
    forall|i: int| 0 <= i < chars.len() ==> chars[i] != '\0'
}

/// True when `chars` encodes to at most `width` bytes.
pub open spec fn fits_field(chars: Seq<char>, width: nat) -> bool {
    encode_utf8(chars).len() <= width
}

/// The bytes of a text field of `width` bytes that holds `chars`.
pub open spec fn text_field(chars: Seq<char>, width: nat) -> Seq<u8>
    recommends
        fits_field(chars, width),
{
    padded(encode_utf8(chars), width)
}

/// What decoding the text field `field` gives: its text, or nothing when the
/// bytes before the first NUL are not valid UTF-8.
pub open spec fn field_text(field: Seq<u8>) -> Option<Seq<char>> {
    let bytes = cstring_bytes(field, field.len() as int);
    if valid_utf8(bytes) {
        Some(decode_utf8(bytes))
    } else {
        None
    }
}

/// True when `bytes` holds no zero byte.
pub open spec fn zero_free(bytes: Seq<u8>) -> bool {
    forall|i: int| 0 <= i < bytes.len() ==> bytes[i] != 0
}

/// `nul_index` stays within the text and stops at a NUL.
pub proof fn lemma_nul_index(chars: Seq<char>)
    ensures
        0 <= nul_index(chars) <= chars.len(),
        nul_free(text_before_nul(chars)),
        nul_index(chars) < chars.len() ==> chars[nul_index(chars)] == '\0',
        nul_free(chars) ==> text_before_nul(chars) == chars,
    decreases chars.len(),
{
    if chars.len() == 0 || chars[0] == '\0' {
        assert(text_before_nul(chars) =~= chars.take(0));
        if nul_free(chars) {
            assert(chars.len() == 0);
            assert(text_before_nul(chars) =~= chars);
        }
    } else {
        let rest = chars.drop_first();
        lemma_nul_index(rest);
        let n = nul_index(rest);
        let kept = chars.take(n + 1);
        assert forall|i: int| 0 <= i < kept.len() implies kept[i] != '\0' by {
            if i > 0 {
                assert(rest.take(n)[i - 1] == chars[i]);
            }
        }
        if n + 1 < chars.len() {
            assert(rest[n] == chars[n + 1]);
        }
        if nul_free(chars) {
            assert forall|i: int| 0 <= i < rest.len() implies rest[i] != '\0' by {
                assert(rest[i] == chars[i + 1]);
            }
            assert(text_before_nul(rest) == rest);
            assert(n == rest.len()) by {
                assert(rest.take(n).len() == n);
            }
            assert(text_before_nul(chars) =~= chars);
        }
    }
}

/// Only the NUL character encodes to a zero byte.
pub proof fn lemma_encode_scalar_nul(c: char)
    ensures
        c == '\0' ==> encode_scalar(c as u32) == seq![0u8],
        c != '\0' ==> zero_free(encode_scalar(c as u32)),
        1 <= encode_scalar(c as u32).len() <= 4,
{
    let s = c as u32;
    assert(s <= 0x7F ==> ((s & 0x7F) as u8 == 0 <==> s == 0)) by (bit_vector);
    assert(0xC0 | ((s >> 6) & 0x1F) as u8 != 0) by (bit_vector);
    assert(0xE0 | ((s >> 12) & 0x0F) as u8 != 0) by (bit_vector);
    assert(0xF0 | ((s >> 18) & 0x7) as u8 != 0) by (bit_vector);
    assert(0x80 | (s & 0x3F) as u8 != 0) by (bit_vector);
    assert(0x80 | ((s >> 6) & 0x3F) as u8 != 0) by (bit_vector);
    assert(0x80 | ((s >> 12) & 0x3F) as u8 != 0) by (bit_vector);
    if c == '\0' {
        assert(encode_scalar(s) =~= seq![0u8]);
    }
}

/// Cutting the encoded text at its first zero byte is cutting the text at its
/// first NUL character.
pub proof fn lemma_encode_before_nul(chars: Seq<char>)
    ensures
        cstring_bytes(encode_utf8(chars), encode_utf8(chars).len() as int) == encode_utf8(
            text_before_nul(chars),
        ),
    decreases chars.len(),
{
    let bytes = encode_utf8(chars);
    lemma_nul_index(chars);
    if chars.len() == 0 {
        assert(text_before_nul(chars) =~= chars);
        assert(cstring_bytes(bytes, bytes.len() as int) =~= bytes);
    } else {
        let first = encode_scalar(chars[0] as u32);
        let rest = chars.drop_first();
        let tail = encode_utf8(rest);
        lemma_encode_scalar_nul(chars[0]);
        assert(bytes == first + tail);
        if chars[0] == '\0' {
            assert(bytes[0] == 0);
            assert(text_before_nul(chars) =~= Seq::<char>::empty());
            assert(cstring_bytes(bytes, bytes.len() as int) =~= encode_utf8(Seq::<char>::empty()));
        } else {
            lemma_encode_before_nul(rest);
            lemma_nul_index(rest);
            let m = cstring_len(tail, tail.len() as int);
            lemma_cstring_len(tail, tail.len() as int, m);
            let n = first.len() + m;
            assert forall|i: int| 0 <= i < n implies bytes[i] != 0 by {
                if i < first.len() {
                    assert(bytes[i] == first[i]);
                } else {
                    assert(bytes[i] == tail[i - first.len()]);
                }
            }
            if n < bytes.len() {
                assert(bytes[n] == tail[m]);
            }
            assert(is_cstring_len(bytes, bytes.len() as int, n));
            lemma_cstring_len(bytes, bytes.len() as int, n);
            let kept = text_before_nul(chars);
            assert(kept.len() > 0);
            assert(kept[0] == chars[0]);
            assert(kept.drop_first() =~= text_before_nul(rest));
            assert(encode_utf8(kept) == first + encode_utf8(text_before_nul(rest)));
            assert(bytes.take(n) =~= first + tail.take(m));
        }
    }
}

/// A text field decodes to the text that was written into it, up to the
/// first NUL character.
pub proof fn lemma_text_field_round_trip(chars: Seq<char>, width: nat)
    requires
        fits_field(chars, width),
    ensures
        text_field(chars, width).len() == width,
        field_text(text_field(chars, width)) == Some(text_before_nul(chars)),
{
    let bytes = encode_utf8(chars);
    let field = text_field(chars, width);
    let n = cstring_len(bytes, bytes.len() as int);
    lemma_cstring_len(bytes, bytes.len() as int, n);
    lemma_encode_before_nul(chars);
    assert forall|i: int| 0 <= i < n implies field[i] != 0 by {
        assert(field[i] == bytes[i]);
    }
    if n < width {
        if n < bytes.len() {
            assert(field[n] == bytes[n]);
        } else {
            assert(field[n] == zeros((width - bytes.len()) as nat)[n - bytes.len()]);
        }
    }
    assert(is_cstring_len(field, width as int, n));
    lemma_cstring_len(field, width as int, n);
    assert(field.take(n) =~= bytes.take(n));
    vstd::utf8::encode_utf8_valid_utf8(text_before_nul(chars));
    vstd::utf8::encode_utf8_decode_utf8(text_before_nul(chars));
}

/// The text of a field holds no NUL character, and fits the field it came
/// from.
pub proof fn lemma_field_text(field: Seq<u8>)
    requires
        field_text(field) is Some,
    ensures
        nul_free(field_text(field)->Some_0),
        fits_field(field_text(field)->Some_0, field.len()),
        encode_utf8(field_text(field)->Some_0) == cstring_bytes(field, field.len() as int),
{
    let bytes = cstring_bytes(field, field.len() as int);
    let chars = decode_utf8(bytes);
    lemma_cstring_len(field, field.len() as int, 0);
    vstd::utf8::decode_utf8_encode_utf8(bytes);
    lemma_encode_before_nul(chars);
    assert(is_cstring_len(bytes, bytes.len() as int, bytes.len() as int));
    lemma_cstring_len(bytes, bytes.len() as int, bytes.len() as int);
    assert(bytes.take(bytes.len() as int) =~= bytes);
    vstd::utf8::encode_utf8_decode_utf8(chars);
    vstd::utf8::encode_utf8_decode_utf8(text_before_nul(chars));
    lemma_nul_index(chars);
}

/// Decodes a whole text field: the text before its first NUL, or the whole
/// field when it holds none. The text that comes out holds no NUL.
pub fn decode_text_field(field: &[u8]) -> (r: Result<String, DecodeError>)
    ensures
        field_text(field@) matches Some(chars) ==> r is Ok && r->Ok_0@ == chars && nul_free(chars),
        field_text(field@) is None ==> r == Err::<String, DecodeError>(DecodeError::InvalidText),
{
    proof {
        if field_text(field@) is Some {
            lemma_field_text(field@);
        }
    }
    read_cstring(field, field.len())
}

/// Appends `text` as a zero-padded field of `width` bytes. Text that needs
/// more than `width` bytes is refused and nothing is written.
pub fn encode_text_field(out: &mut Vec<u8>, text: &str, width: usize) -> (fits: bool)
    ensures
        fits == fits_field(text@, width as nat),
        fits ==> final(out)@ == old(out)@ + text_field(text@, width as nat),
        !fits ==> final(out)@ == old(out)@,
{
    write_padded(out, text.as_bytes(), width)
}

/// Compares two texts byte by byte.
pub fn str_equal(a: &str, b: &str) -> (r: bool)
    ensures
        r == (a@ == b@),
{
    let x = a.as_bytes();
    let y = b.as_bytes();
    proof {
        vstd::utf8::encode_utf8_decode_utf8(a@);
        vstd::utf8::encode_utf8_decode_utf8(b@);
    }
    if x.len() != y.len() {
        return false;
    }
    let mut i: usize = 0;
    while i < x.len()
        invariant
            i <= x@.len(),
            x@.len() == y@.len(),
            x@.take(i as int) == y@.take(i as int),
            x@ == vstd::utf8::encode_utf8(a@),
            y@ == vstd::utf8::encode_utf8(b@),
        decreases x@.len() - i,
    {
        if x[i] != y[i] {
            assert(x@[i as int] != y@[i as int]);
            return false;
        }
        assert(x@.take(i + 1) =~= x@.take(i as int).push(x@[i as int]));
        assert(y@.take(i + 1) =~= y@.take(i as int).push(y@[i as int]));
        i = i + 1;
    }
    assert(x@ =~= x@.take(x@.len() as int));
    assert(y@ =~= y@.take(y@.len() as int));
    true
}

} // verus!
