//! Little-endian framing primitives: integers, fixed-width fields and
//! NUL-terminated text fields. Readers take the bytes that a connection
//! delivered; writers append to the packet that is being assembled.

use byteorder::{ByteOrder, LittleEndian};
use vstd::arithmetic::div_mod::lemma_div_denominator;
use vstd::prelude::*;
use vstd::utf8::{decode_utf8, valid_utf8};

verus! {

/// What can go wrong while decoding a frame.
#[derive(Clone, Copy, Debug, PartialEq, Eq, Structural)]
pub enum DecodeError {
    /// Fewer bytes were supplied than the layout needs.
    Truncated,
    /// A text field holds bytes that are not valid UTF-8.
    InvalidText,
    /// The length that a packet declares is not the length it has.
    LengthMismatch,
    /// The packet is not one that the decoder reads.
    Unsupported,
}

/// The value of two bytes read as a little-endian unsigned integer.
pub open spec fn le16(lo: u8, hi: u8) -> int {
    lo as int + 256 * (hi as int)
}

/// The value of four bytes read as a little-endian unsigned integer.
pub open spec fn le32(b0: u8, b1: u8, b2: u8, b3: u8) -> int {
    b0 as int + 256 * (b1 as int) + 65536 * (b2 as int) + 16777216 * (b3 as int)
}

/// The little-endian value of the two bytes of `s` starting at `at`.
pub open spec fn u16_at(s: Seq<u8>, at: int) -> int
    recommends
        0 <= at,
        at + 2 <= s.len(),
{
    le16(s[at], s[at + 1])
}

/// The little-endian value of the four bytes of `s` starting at `at`.
pub open spec fn u32_at(s: Seq<u8>, at: int) -> int
    recommends
        0 <= at,
        at + 4 <= s.len(),
{
    le32(s[at], s[at + 1], s[at + 2], s[at + 3])
}

/// The two bytes of a little-endian `u16`.
pub open spec fn u16_le_bytes(v: u16) -> Seq<u8> {
    seq![(v % 256) as u8, (v / 256) as u8]
}

/// The four bytes of a little-endian `u32`.
pub open spec fn u32_le_bytes(v: u32) -> Seq<u8> {
    seq![
        (v % 256) as u8,
        ((v / 256) % 256) as u8,
        ((v / 65536) % 256) as u8,
        (v / 16777216) as u8,
    ]
}

/// 256 to the power `k`.
pub open spec fn pow256(k: nat) -> nat
    decreases k,
{
    if k == 0 {
        1
    } else {
        256 * pow256((k - 1) as nat)
    }
}

/// Byte number `k` of `value`, counting from the least significant one.
pub open spec fn le_byte(value: nat, k: nat) -> u8 {
    ((value / pow256(k)) % 256) as u8
}

/// The `width` low bytes of `value`, least significant first.
pub open spec fn le_bytes(value: nat, width: nat) -> Seq<u8> {
    Seq::new(width, |k: int| le_byte(value, k as nat))
}

/// `count` zero bytes.
pub open spec fn zeros(count: nat) -> Seq<u8> {
    Seq::new(count, |i: int| 0u8)
}

/// A field of `width` bytes: the text, then zero bytes up to the width.
pub open spec fn padded(text: Seq<u8>, width: nat) -> Seq<u8>
    recommends
        text.len() <= width,
{
    text + zeros((width - text.len()) as nat)
}

/// Number of bytes of `buf` that belong to the text of a field of at most
/// `max_len` bytes: everything before the first NUL, or the whole field when
/// there is none.
pub open spec fn cstring_len(buf: Seq<u8>, max_len: int) -> int
    decreases buf.len(),
{
    if max_len <= 0 || buf.len() == 0 || buf[0] == 0 {
        0
    } else {
        1 + cstring_len(buf.drop_first(), max_len - 1)
    }
}

/// The text bytes of a NUL-terminated or NUL-padded field.
pub open spec fn cstring_bytes(buf: Seq<u8>, max_len: int) -> Seq<u8> {
    buf.take(cstring_len(buf, max_len))
}

/// What `cstring_len` computes, stated directly: `n` bytes without a NUL,
/// ended by a NUL, by the width of the field or by the end of the buffer.
pub open spec fn is_cstring_len(buf: Seq<u8>, max_len: int, n: int) -> bool {
    &&& 0 <= n <= buf.len()
    &&& n <= max_len || n == 0
    &&& forall|i: int| 0 <= i < n ==> buf[i] != 0
    &&& n >= max_len || n == buf.len() || buf[n] == 0
}

/// `byteorder::LittleEndian::read_u16`: the first two bytes of `buf` as a
/// little-endian integer. The call panics on a shorter buffer, which the
/// precondition rules out.
#[verifier::external_body]
fn le_read_u16(buf: &[u8]) -> (value: u16)
    requires
        buf@.len() >= 2,
    ensures
        value as int == le16(buf@[0], buf@[1]),
{
    LittleEndian::read_u16(buf)
}

/// `std::string::FromUtf8Error`, the error of `String::from_utf8`. Nothing
/// is read out of it.
#[verifier::external_type_specification]
#[verifier::external_body]
pub struct ExFromUtf8Error(std::string::FromUtf8Error);

/// `String::from_utf8`: succeeds exactly on valid UTF-8, and the string it
/// returns is the decoding of those bytes.
#[verifier::external_body]
fn string_from_utf8(bytes: Vec<u8>) -> (r: Result<String, std::string::FromUtf8Error>)
    ensures
        r is Ok <==> valid_utf8(bytes@),
        r is Ok ==> r->Ok_0@ == decode_utf8(bytes@),
{
    String::from_utf8(bytes)
}

/// Reads the two-byte command identifier that prefixes every packet.
pub fn read_opcode(buf: &[u8]) -> (r: Result<u16, DecodeError>)
    ensures
        buf@.len() >= 2 ==> r == Ok::<u16, DecodeError>(u16_at(buf@, 0) as u16),
        buf@.len() < 2 ==> r == Err::<u16, DecodeError>(DecodeError::Truncated),
{
    if buf.len() < 2 {
        Err(DecodeError::Truncated)
    } else {
        Ok(le_read_u16(buf))
    }
}

/// Copies `n` bytes of `buf` starting at `at`, or reports that the buffer is
/// too short to hold them.
pub fn read_fixed(buf: &[u8], at: usize, n: usize) -> (r: Result<Vec<u8>, DecodeError>)
    ensures
        at + n <= buf@.len() ==> r is Ok && r->Ok_0@ == buf@.subrange(at as int, at + n),
        at + n > buf@.len() ==> r == Err::<Vec<u8>, DecodeError>(DecodeError::Truncated),
{
    if at > buf.len() || n > buf.len() - at {
        return Err(DecodeError::Truncated);
    }
    let mut out: Vec<u8> = Vec::new();
    let mut i: usize = 0;
    while i < n
        invariant
            i <= n,
            at + n <= buf@.len() <= usize::MAX,
            out@ == buf@.subrange(at as int, at + i),
        decreases n - i,
    {
        out.push(buf[at + i]);
        i = i + 1;
    }
    Ok(out)
}

/// Reads a little-endian `u16` at offset `at`.
pub fn read_u16_le(buf: &[u8], at: usize) -> (r: Result<u16, DecodeError>)
    ensures
        at + 2 <= buf@.len() ==> r == Ok::<u16, DecodeError>(u16_at(buf@, at as int) as u16),
        at + 2 > buf@.len() ==> r == Err::<u16, DecodeError>(DecodeError::Truncated),
{
    if at > buf.len() || 2 > buf.len() - at {
        return Err(DecodeError::Truncated);
    }
    let lo: u16 = buf[at] as u16;
    let hi: u16 = buf[at + 1] as u16;
    Ok(lo + 256 * hi)
}

/// Reads a little-endian `u32` at offset `at`.
pub fn read_u32_le(buf: &[u8], at: usize) -> (r: Result<u32, DecodeError>)
    ensures
        at + 4 <= buf@.len() ==> r == Ok::<u32, DecodeError>(u32_at(buf@, at as int) as u32),
        at + 4 > buf@.len() ==> r == Err::<u32, DecodeError>(DecodeError::Truncated),
{
    if at > buf.len() || 4 > buf.len() - at {
        return Err(DecodeError::Truncated);
    }
    let b0: u32 = buf[at] as u32;
    let b1: u32 = buf[at + 1] as u32;
    let b2: u32 = buf[at + 2] as u32;
    let b3: u32 = buf[at + 3] as u32;
    Ok(b0 + 256 * b1 + 65536 * b2 + 16777216 * b3)
}

/// Decodes a NUL-terminated or NUL-padded text field of at most `max_len`
/// bytes. Decoding stops at the first NUL; what follows it is not looked at.
/// Text that is not valid UTF-8 is an error.
pub fn read_cstring(buf: &[u8], max_len: usize) -> (r: Result<String, DecodeError>)
    ensures
        valid_utf8(cstring_bytes(buf@, max_len as int)) ==> r is Ok && r->Ok_0@ == decode_utf8(
            cstring_bytes(buf@, max_len as int),
        ),
        !valid_utf8(cstring_bytes(buf@, max_len as int)) ==> r == Err::<String, DecodeError>(
            DecodeError::InvalidText,
        ),
{
    let mut text: Vec<u8> = Vec::new();
    let mut i: usize = 0;
    while i < buf.len() && i < max_len && buf[i] != 0
        invariant
            i <= buf@.len(),
            i <= max_len,
            text@ == buf@.take(i as int),
            forall|j: int| 0 <= j < i ==> buf@[j] != 0,
        decreases buf@.len() - i,
    {
        text.push(buf[i]);
        i = i + 1;
    }
    proof {
        lemma_cstring_len(buf@, max_len as int, i as int);
    }
    match string_from_utf8(text) {
        Ok(s) => Ok(s),
        Err(_) => Err(DecodeError::InvalidText),
    }
}

/// Appends the `width` low bytes of `value`, least significant first. A
/// width beyond four bytes pads with zero bytes.
pub fn write_le(out: &mut Vec<u8>, value: u32, width: usize)
    ensures
        final(out)@ == old(out)@ + le_bytes(value as nat, width as nat),
{
    let mut rest: u32 = value;
    let mut k: usize = 0;
    assert(pow256(0) == 1);
    assert(out@ =~= old(out)@ + le_bytes(value as nat, 0));
    while k < width
        invariant
            k <= width,
            rest as nat == value as nat / pow256(k as nat),
            pow256(k as nat) > 0,
            out@ == old(out)@ + le_bytes(value as nat, k as nat),
        decreases width - k,
    {
        out.push((rest % 256) as u8);
        proof {
            lemma_div_denominator(value as int, pow256(k as nat) as int, 256);
            assert(pow256((k + 1) as nat) == 256 * pow256(k as nat));
            assert(pow256(k as nat) * 256 == 256 * pow256(k as nat));
            assert(out@ =~= old(out)@ + le_bytes(value as nat, (k + 1) as nat));
        }
        rest = rest / 256;
        k = k + 1;
    }
}

/// Appends a `u8`.
pub fn write_u8(out: &mut Vec<u8>, value: u8)
    ensures
        final(out)@ == old(out)@ + seq![value],
{
    out.push(value);
    assert(out@ =~= old(out)@ + seq![value]);
}

/// Appends a little-endian `u16`.
pub fn write_u16_le(out: &mut Vec<u8>, value: u16)
    ensures
        final(out)@ == old(out)@ + u16_le_bytes(value),
{
    proof {
        lemma_le_bytes_fixed(value, 0);
    }
    write_le(out, value as u32, 2);
}

/// Appends a little-endian `u32`.
pub fn write_u32_le(out: &mut Vec<u8>, value: u32)
    ensures
        final(out)@ == old(out)@ + u32_le_bytes(value),
{
    proof {
        lemma_le_bytes_fixed(0, value);
    }
    write_le(out, value, 4);
}

/// Appends `bytes` unchanged.
pub fn write_bytes(out: &mut Vec<u8>, bytes: &[u8])
    ensures
        final(out)@ == old(out)@ + bytes@,
{
    let mut i: usize = 0;
    while i < bytes.len()
        invariant
            i <= bytes@.len(),
            out@ == old(out)@ + bytes@.take(i as int),
        decreases bytes@.len() - i,
    {
        out.push(bytes[i]);
        assert(out@ =~= old(out)@ + bytes@.take(i + 1));
        i = i + 1;
    }
    assert(bytes@.take(bytes@.len() as int) =~= bytes@);
}

/// Appends `count` zero bytes.
pub fn write_zeros(out: &mut Vec<u8>, count: usize)
    ensures
        final(out)@ == old(out)@ + zeros(count as nat),
{
    let mut i: usize = 0;
    while i < count
        invariant
            i <= count,
            out@ == old(out)@ + zeros(i as nat),
        decreases count - i,
    {
        out.push(0);
        assert(out@ =~= old(out)@ + zeros((i + 1) as nat));
        i = i + 1;
    }
}

/// Appends `text` as a zero-padded field of `width` bytes. Text that does not
/// fit is refused and nothing is written.
pub fn write_padded(out: &mut Vec<u8>, text: &[u8], width: usize) -> (fits: bool)
    ensures
        fits == (text@.len() <= width),
        fits ==> final(out)@ == old(out)@ + padded(text@, width as nat),
        !fits ==> final(out)@ == old(out)@,
{
    if text.len() > width {
        return false;
    }
    write_bytes(out, text);
    write_zeros(out, width - text.len());
    assert(out@ =~= old(out)@ + padded(text@, width as nat));
    true
}

/// `cstring_len` is the one length that stops at the first NUL, at the width
/// of the field or at the end of the buffer.
pub proof fn lemma_cstring_len(buf: Seq<u8>, max_len: int, n: int)
    ensures
        is_cstring_len(buf, max_len, cstring_len(buf, max_len)),
        is_cstring_len(buf, max_len, n) ==> n == cstring_len(buf, max_len),
    decreases buf.len(),
{
    if max_len <= 0 || buf.len() == 0 || buf[0] == 0 {
    } else {
        let rest = buf.drop_first();
        lemma_cstring_len(rest, max_len - 1, n - 1);
        let m = cstring_len(rest, max_len - 1);
        assert forall|i: int| 0 <= i < m + 1 implies buf[i] != 0 by {
            if i > 0 {
                assert(rest[i - 1] == buf[i]);
            }
        }
        if m + 1 < max_len && m + 1 < buf.len() {
            assert(rest[m] == buf[m + 1]);
        }
        if is_cstring_len(buf, max_len, n) {
            assert(n >= 1);
            assert forall|i: int| 0 <= i < n - 1 implies rest[i] != 0 by {
                assert(rest[i] == buf[i + 1]);
            }
            if n - 1 < max_len - 1 && n - 1 < rest.len() {
                assert(rest[n - 1] == buf[n]);
            }
            assert(is_cstring_len(rest, max_len - 1, n - 1));
        }
    }
}

/// The fixed-width encodings are the general one at widths 2 and 4.
pub proof fn lemma_le_bytes_fixed(v16: u16, v32: u32)
    ensures
        le_bytes(v16 as nat, 2) == u16_le_bytes(v16),
        le_bytes(v32 as nat, 4) == u32_le_bytes(v32),
{
    reveal_with_fuel(pow256, 5);
    assert(pow256(0) == 1 && pow256(1) == 256 && pow256(2) == 65536 && pow256(3) == 16777216);
    let a = le_bytes(v16 as nat, 2);
    assert(a[0] == le_byte(v16 as nat, 0) && a[1] == le_byte(v16 as nat, 1));
    assert(a =~= u16_le_bytes(v16));
    let b = le_bytes(v32 as nat, 4);
    assert(b[0] == le_byte(v32 as nat, 0) && b[1] == le_byte(v32 as nat, 1));
    assert(b[2] == le_byte(v32 as nat, 2) && b[3] == le_byte(v32 as nat, 3));
    assert(b =~= u32_le_bytes(v32));
}

/// A `u16` that is written and read back is the same `u16`.
pub proof fn lemma_u16_round_trip(v: u16)
    ensures
        u16_le_bytes(v).len() == 2,
        u16_at(u16_le_bytes(v), 0) == v,
{
}

/// Two bytes that are read as a `u16` and written back are the same bytes.
pub proof fn lemma_u16_bytes_round_trip(b0: u8, b1: u8)
    ensures
        0 <= le16(b0, b1) <= u16::MAX,
        u16_le_bytes(le16(b0, b1) as u16) == seq![b0, b1],
{
    let x = le16(b0, b1);
    assert(x % 256 == b0 && x / 256 == b1);
    assert(u16_le_bytes(x as u16) =~= seq![b0, b1]);
}

/// A `u32` that is written and read back is the same `u32`.
pub proof fn lemma_u32_round_trip(v: u32)
    ensures
        u32_le_bytes(v).len() == 4,
        u32_at(u32_le_bytes(v), 0) == v,
{
    let q1 = v as int / 256;
    let q2 = v as int / 65536;
    let q3 = v as int / 16777216;
    assert(q2 == q1 / 256 && q3 == q2 / 256);
    assert(v == v as int % 256 + 256 * (q1 % 256) + 65536 * (q2 % 256) + 16777216 * q3);
}

/// Four bytes that are read as a `u32` and written back are the same bytes.
pub proof fn lemma_u32_bytes_round_trip(b0: u8, b1: u8, b2: u8, b3: u8)
    ensures
        0 <= le32(b0, b1, b2, b3) <= u32::MAX,
        u32_le_bytes(le32(b0, b1, b2, b3) as u32) == seq![b0, b1, b2, b3],
{
    let x = le32(b0, b1, b2, b3);
    let y1 = b1 as int + 256 * (b2 as int) + 65536 * (b3 as int);
    let y2 = b2 as int + 256 * (b3 as int);
    assert(x == b0 as int + 256 * y1);
    assert(x % 256 == b0 && x / 256 == y1);
    assert(y1 == b1 as int + 256 * y2);
    assert(y1 % 256 == b1 && y1 / 256 == y2);
    assert(x / 65536 == y2);
    assert(y2 % 256 == b2 && y2 / 256 == b3);
    assert(x / 16777216 == b3);
    assert(u32_le_bytes(x as u32) =~= seq![b0, b1, b2, b3]);
}

} // verus!
