//! Primitive readers and writers: fixed-width integers, the variable byte
//! integer, length-prefixed bytes and strings, and the fixed header's lengths.

use crate::common::error::{read_agrees, Error, ErrorView};
use crate::common::outside::{bytes_contents, bytes_from_slice, str_from_utf8};
use bytes::Bytes;
use vstd::prelude::*;
use vstd::slice::slice_subrange;
use vstd::utf8::{decode_utf8, encode_utf8, valid_utf8};

verus! {

/// Largest value of a variable byte integer: 2^28 - 1.
pub const VAR_INT_MAX: u32 = 268_435_455;

/// Largest length of a length-prefixed field.
pub const FIELD_MAX: usize = 65_535;

// ---------------------------------------------------------------------
// Parsers
// ---------------------------------------------------------------------
/// One byte at `off`.
pub open spec fn spec_read_u8(s: Seq<u8>, off: int) -> Result<(u8, int), ErrorView> {
    if 0 <= off < s.len() {
        Ok((s[off], off + 1))
    } else {
        Err(ErrorView::UnexpectedEof)
    }
}

/// A big-endian 16-bit integer at `off`.
pub open spec fn spec_read_u16(s: Seq<u8>, off: int) -> Result<(u16, int), ErrorView> {
    if 0 <= off && off + 2 <= s.len() {
        Ok(((s[off] as int * 256 + s[off + 1] as int) as u16, off + 2))
    } else {
        Err(ErrorView::UnexpectedEof)
    }
}

/// A big-endian 32-bit integer at `off`.
pub open spec fn spec_read_u32(s: Seq<u8>, off: int) -> Result<(u32, int), ErrorView> {
    if 0 <= off && off + 4 <= s.len() {
        Ok(
            (
                (s[off] as int * 16777216 + s[off + 1] as int * 65536 + s[off + 2] as int * 256
                    + s[off + 3] as int) as u32,
                off + 4,
            ),
        )
    } else {
        Err(ErrorView::UnexpectedEof)
    }
}

/// A variable byte integer at `off`: seven bits per byte, least significant
/// group first, the top bit of a byte saying that another follows. A fourth
/// byte that asks for a fifth is an error.
pub open spec fn spec_decode_var_int(s: Seq<u8>, off: int) -> Result<(u32, int), ErrorView> {
    if !(0 <= off < s.len()) {
        Err(ErrorView::UnexpectedEof)
    } else if s[off] < 128 {
        Ok((s[off] as u32, off + 1))
    } else if off + 1 >= s.len() {
        Err(ErrorView::UnexpectedEof)
    } else if s[off + 1] < 128 {
        Ok((((s[off] - 128) + s[off + 1] * 128) as u32, off + 2))
    } else if off + 2 >= s.len() {
        Err(ErrorView::UnexpectedEof)
    } else if s[off + 2] < 128 {
        Ok((((s[off] - 128) + (s[off + 1] - 128) * 128 + s[off + 2] * 16384) as u32, off + 3))
    } else if off + 3 >= s.len() {
        Err(ErrorView::UnexpectedEof)
    } else if s[off + 3] < 128 {
        Ok(
            (
                ((s[off] - 128) + (s[off + 1] - 128) * 128 + (s[off + 2] - 128) * 16384 + s[off
                    + 3] * 2097152) as u32,
                off + 4,
            ),
        )
    } else {
        Err(ErrorView::InvalidVarByteInt)
    }
}

/// A 16-bit length at `off`, then that many bytes.
pub open spec fn spec_read_bytes(s: Seq<u8>, off: int) -> Result<(Seq<u8>, int), ErrorView> {
    match spec_read_u16(s, off) {
        Err(e) => Err(e),
        Ok((len, start)) => if start + len <= s.len() {
            Ok((s.subrange(start, start + len), start + len))
        } else {
            Err(ErrorView::UnexpectedEof)
        },
    }
}

/// A 16-bit length at `off`, then that many bytes of well-formed UTF-8.
pub open spec fn spec_read_string(s: Seq<u8>, off: int) -> Result<(Seq<char>, int), ErrorView> {
    match spec_read_bytes(s, off) {
        Err(e) => Err(e),
        Ok((bytes, end)) => if valid_utf8(bytes) {
            Ok((decode_utf8(bytes), end))
        } else {
            Err(ErrorView::InvalidString)
        },
    }
}

/// A string at `off`, read only where `present`.
pub open spec fn spec_read_opt_string(s: Seq<u8>, off: int, present: bool) -> Result<
    (Option<Seq<char>>, int),
    ErrorView,
> {
    if present {
        match spec_read_string(s, off) {
            Err(e) => Err(e),
            Ok((v, end)) => Ok((Some(v), end)),
        }
    } else {
        Ok((None, off))
    }
}

/// A length-prefixed field at `off`, read only where `present`.
pub open spec fn spec_read_opt_bytes(s: Seq<u8>, off: int, present: bool) -> Result<
    (Option<Seq<u8>>, int),
    ErrorView,
> {
    if present {
        match spec_read_bytes(s, off) {
            Err(e) => Err(e),
            Ok((v, end)) => Ok((Some(v), end)),
        }
    } else {
        Ok((None, off))
    }
}

// ---------------------------------------------------------------------
// Encodings
// ---------------------------------------------------------------------
/// The two bytes of `v`, most significant first.
pub open spec fn spec_u16_bytes(v: u16) -> Seq<u8> {
    seq![(v / 256) as u8, (v % 256) as u8]
}

/// The four bytes of `v`, most significant first.
pub open spec fn spec_u32_bytes(v: u32) -> Seq<u8> {
    seq![
        (v / 16777216) as u8,
        ((v / 65536) % 256) as u8,
        ((v / 256) % 256) as u8,
        (v % 256) as u8,
    ]
}

/// The number of bytes of the variable byte integer `v`.
pub open spec fn spec_var_int_len(v: int) -> int {
    if v < 128 {
        1
    } else if v < 16384 {
        2
    } else if v < 2097152 {
        3
    } else {
        4
    }
}

/// The shortest variable byte integer encoding of `v`, for `v` up to
/// [`VAR_INT_MAX`].
pub open spec fn spec_var_int_bytes(v: u32) -> Seq<u8> {
    if v < 128 {
        seq![v as u8]
    } else if v < 16384 {
        seq![(v % 128 + 128) as u8, (v / 128) as u8]
    } else if v < 2097152 {
        seq![(v % 128 + 128) as u8, ((v / 128) % 128 + 128) as u8, (v / 16384) as u8]
    } else {
        seq![
            (v % 128 + 128) as u8,
            ((v / 128) % 128 + 128) as u8,
            ((v / 16384) % 128 + 128) as u8,
            (v / 2097152) as u8,
        ]
    }
}

/// `data` behind its 16-bit length, for `data` of at most 65535 bytes.
pub open spec fn spec_field_bytes(data: Seq<u8>) -> Seq<u8> {
    spec_u16_bytes(data.len() as u16) + data
}

/// The UTF-8 encoding of `chars` behind its 16-bit length.
pub open spec fn spec_string_bytes(chars: Seq<char>) -> Seq<u8> {
    spec_field_bytes(encode_utf8(chars))
}

/// What [`total_len`] returns.
pub open spec fn spec_total_len(remaining_len: int) -> Result<int, ErrorView> {
    if remaining_len > VAR_INT_MAX {
        Err(ErrorView::InvalidVarByteInt)
    } else {
        Ok(1 + spec_var_int_len(remaining_len) + remaining_len)
    }
}

/// The parser behind [`decode_raw_header`]: the first byte, then the
/// remaining length.
pub open spec fn spec_decode_raw_header(s: Seq<u8>, off: int) -> Result<
    ((u8, u32), int),
    ErrorView,
> {
    match spec_read_u8(s, off) {
        Err(e) => Err(e),
        Ok((first, off1)) => match spec_decode_var_int(s, off1) {
            Err(e) => Err(e),
            Ok((len, off2)) => Ok(((first, len), off2)),
        },
    }
}

// ---------------------------------------------------------------------
// Readers: each leaves the offset where it was when it fails.
// ---------------------------------------------------------------------
/// Reads one byte at `offset`.
pub fn read_u8(buf: &[u8], offset: &mut usize) -> (res: Result<u8, Error>)
    ensures
        read_agrees(res, *final(offset), spec_read_u8(buf@, *old(offset) as int)),        res is Err ==> *final(offset) == *old(offset),
{
    let off: usize = *offset;
    if off < buf.len() {
        *offset = off + 1;
        Ok(buf[off])
    } else {
        Err(Error::UnexpectedEof)
    }
}

/// Reads a big-endian 16-bit integer at `offset`.
pub fn read_u16(buf: &[u8], offset: &mut usize) -> (res: Result<u16, Error>)
    ensures
        read_agrees(res, *final(offset), spec_read_u16(buf@, *old(offset) as int)),        res is Err ==> *final(offset) == *old(offset),
{
    let off: usize = *offset;
    if off <= buf.len() && buf.len() - off >= 2 {
        *offset = off + 2;
        let hi: u16 = buf[off] as u16;
        let lo: u16 = buf[off + 1] as u16;
        Ok(hi * 256 + lo)
    } else {
        Err(Error::UnexpectedEof)
    }
}

/// Reads a big-endian 32-bit integer at `offset`.
pub fn read_u32(buf: &[u8], offset: &mut usize) -> (res: Result<u32, Error>)
    ensures
        read_agrees(res, *final(offset), spec_read_u32(buf@, *old(offset) as int)),        res is Err ==> *final(offset) == *old(offset),
{
    let off: usize = *offset;
    if off <= buf.len() && buf.len() - off >= 4 {
        *offset = off + 4;
        let b0: u32 = buf[off] as u32;
        let b1: u32 = buf[off + 1] as u32;
        let b2: u32 = buf[off + 2] as u32;
        let b3: u32 = buf[off + 3] as u32;
        Ok(b0 * 16777216 + b1 * 65536 + b2 * 256 + b3)
    } else {
        Err(Error::UnexpectedEof)
    }
}

/// Reads a variable byte integer at `offset`: `UnexpectedEof` where the
/// input ends inside it, `InvalidVarByteInt` where a fourth byte asks for a
/// fifth.
pub fn decode_var_int(buf: &[u8], offset: &mut usize) -> (res: Result<u32, Error>)
    ensures
        read_agrees(res, *final(offset), spec_decode_var_int(buf@, *old(offset) as int)),
        res matches Ok(v) ==> v <= VAR_INT_MAX,        res is Err ==> *final(offset) == *old(offset),
{
    let off: usize = *offset;
    let n: usize = buf.len();
    if off >= n {
        return Err(Error::UnexpectedEof);
    }
    let b0: u32 = buf[off] as u32;
    if b0 < 128 {
        *offset = off + 1;
        return Ok(b0);
    }
    if n - off < 2 {
        return Err(Error::UnexpectedEof);
    }
    let b1: u32 = buf[off + 1] as u32;
    if b1 < 128 {
        *offset = off + 2;
        return Ok((b0 - 128) + b1 * 128);
    }
    if n - off < 3 {
        return Err(Error::UnexpectedEof);
    }
    let b2: u32 = buf[off + 2] as u32;
    if b2 < 128 {
        *offset = off + 3;
        return Ok((b0 - 128) + (b1 - 128) * 128 + b2 * 16384);
    }
    if n - off < 4 {
        return Err(Error::UnexpectedEof);
    }
    let b3: u32 = buf[off + 3] as u32;
    if b3 < 128 {
        *offset = off + 4;
        return Ok((b0 - 128) + (b1 - 128) * 128 + (b2 - 128) * 16384 + b3 * 2097152);
    }
    Err(Error::InvalidVarByteInt)
}

/// Reads a 16-bit length and that many bytes at `offset`; the bytes are
/// borrowed from `buf`.
pub fn read_bytes<'a>(buf: &'a [u8], offset: &mut usize) -> (res: Result<&'a [u8], Error>)
    ensures
        read_agrees(res, *final(offset), spec_read_bytes(buf@, *old(offset) as int)),        res is Err ==> *final(offset) == *old(offset),
{
    let begin: usize = *offset;
    let len: usize = read_u16(buf, offset)? as usize;
    let start: usize = *offset;
    if buf.len() - start >= len {
        *offset = start + len;
        Ok(slice_subrange(buf, start, start + len))
    } else {
        *offset = begin;
        Err(Error::UnexpectedEof)
    }
}

/// Reads a length-prefixed UTF-8 string at `offset`; `InvalidString` where
/// the bytes are not well-formed UTF-8.
pub fn read_string(buf: &[u8], offset: &mut usize) -> (res: Result<String, Error>)
    ensures
        read_agrees(res, *final(offset), spec_read_string(buf@, *old(offset) as int)),        res is Err ==> *final(offset) == *old(offset),
{
    let begin: usize = *offset;
    let bytes = read_bytes(buf, offset)?;
    match str_from_utf8(bytes) {
        Some(s) => Ok(s.to_owned()),
        None => {
            *offset = begin;
            Err(Error::InvalidString)
        },
    }
}

/// Reads the first byte of a packet and its remaining length.
pub fn decode_raw_header(buf: &[u8], offset: &mut usize) -> (res: Result<(u8, u32), Error>)
    ensures
        read_agrees(res, *final(offset), spec_decode_raw_header(buf@, *old(offset) as int)),
        res matches Ok(h) ==> h.1 <= VAR_INT_MAX,        res is Err ==> *final(offset) == *old(offset),
{
    let begin: usize = *offset;
    let first = read_u8(buf, offset)?;
    match decode_var_int(buf, offset) {
        Ok(len) => Ok((first, len)),
        Err(e) => {
            *offset = begin;
            Err(e)
        },
    }
}

/// Reads a string where `present`.
pub fn read_opt_string(buf: &[u8], offset: &mut usize, present: bool) -> (res: Result<
    Option<String>,
    Error,
>)
    ensures
        match spec_read_opt_string(buf@, *old(offset) as int, present) {
            Ok((v, end)) => res is Ok && *final(offset) == end && match res->Ok_0 {
                Some(x) => v == Some(x@),
                None => v is None,
            },
            Err(e) => res is Err && res->Err_0@ == e,
        },        res is Err ==> *final(offset) == *old(offset),
{
    if present {
        let s = read_string(buf, offset)?;
        Ok(Some(s))
    } else {
        Ok(None)
    }
}

/// Reads a length-prefixed field where `present`.
pub fn read_opt_bytes(buf: &[u8], offset: &mut usize, present: bool) -> (res: Result<
    Option<Bytes>,
    Error,
>)
    ensures
        match spec_read_opt_bytes(buf@, *old(offset) as int, present) {
            Ok((v, end)) => res is Ok && *final(offset) == end && match res->Ok_0 {
                Some(x) => v == Some(bytes_contents(x)),
                None => v is None,
            },
            Err(e) => res is Err && res->Err_0@ == e,
        },        res is Err ==> *final(offset) == *old(offset),
{
    if present {
        let b = read_bytes(buf, offset)?;
        Ok(Some(bytes_from_slice(b)))
    } else {
        Ok(None)
    }
}

// ---------------------------------------------------------------------
// Writers
// ---------------------------------------------------------------------
/// Appends one byte.
pub fn write_u8(out: &mut Vec<u8>, value: u8)
    ensures
        final(out)@ == old(out)@.push(value),
{
    out.push(value);
}

/// Appends a 16-bit integer, most significant byte first.
pub fn write_u16(out: &mut Vec<u8>, value: u16)
    ensures
        final(out)@ == old(out)@ + spec_u16_bytes(value),
{
    out.push((value / 256) as u8);
    out.push((value % 256) as u8);
    assert(out@ =~= old(out)@ + spec_u16_bytes(value));
}

/// Appends a 32-bit integer, most significant byte first.
pub fn write_u32(out: &mut Vec<u8>, value: u32)
    ensures
        final(out)@ == old(out)@ + spec_u32_bytes(value),
{
    out.push((value / 16777216) as u8);
    out.push(((value / 65536) % 256) as u8);
    out.push(((value / 256) % 256) as u8);
    out.push((value % 256) as u8);
    assert(out@ =~= old(out)@ + spec_u32_bytes(value));
}

/// Appends the shortest variable byte integer encoding of `value`, or fails
/// with `InvalidVarByteInt`, leaving `out` as it was, where `value` is above
/// [`VAR_INT_MAX`].
pub fn write_var_int(out: &mut Vec<u8>, value: u32) -> (res: Result<(), Error>)
    ensures
        value <= VAR_INT_MAX ==> res is Ok && final(out)@ == old(out)@ + spec_var_int_bytes(value),
        value > VAR_INT_MAX ==> res == Err::<(), Error>(Error::InvalidVarByteInt) && final(out)@
            == old(out)@,
{
    if value > VAR_INT_MAX {
        return Err(Error::InvalidVarByteInt);
    }
    if value < 128 {
        out.push(value as u8);
    } else if value < 16384 {
        out.push((value % 128 + 128) as u8);
        out.push((value / 128) as u8);
    } else if value < 2097152 {
        out.push((value % 128 + 128) as u8);
        out.push(((value / 128) % 128 + 128) as u8);
        out.push((value / 16384) as u8);
    } else {
        out.push((value % 128 + 128) as u8);
        out.push(((value / 128) % 128 + 128) as u8);
        out.push(((value / 16384) % 128 + 128) as u8);
        out.push((value / 2097152) as u8);
    }
    assert(out@ =~= old(out)@ + spec_var_int_bytes(value));
    Ok(())
}

/// Appends the bytes of `data` as they are.
pub fn write_raw(out: &mut Vec<u8>, data: &[u8])
    ensures
        final(out)@ == old(out)@ + data@,
{
    let mut i: usize = 0;
    while i < data.len()
        invariant
            i <= data@.len(),
            out@ == old(out)@ + data@.subrange(0, i as int),
        decreases data@.len() - i,
    {
        out.push(data[i]);
        i = i + 1;
        assert(out@ =~= old(out)@ + data@.subrange(0, i as int));
    }
    assert(data@.subrange(0, i as int) =~= data@);
}

/// Appends `data` behind its 16-bit length, or fails with `PayloadTooLong`,
/// leaving `out` as it was, where `data` is longer than 65535 bytes.
pub fn write_bytes(out: &mut Vec<u8>, data: &[u8]) -> (res: Result<(), Error>)
    ensures
        data@.len() <= FIELD_MAX ==> res is Ok && final(out)@ == old(out)@ + spec_field_bytes(
            data@,
        ),
        data@.len() > FIELD_MAX ==> res == Err::<(), Error>(Error::PayloadTooLong) && final(out)@
            == old(out)@,
{
    if data.len() > FIELD_MAX {
        return Err(Error::PayloadTooLong);
    }
    write_u16(out, data.len() as u16);
    write_raw(out, data);
    assert(out@ =~= old(out)@ + spec_field_bytes(data@));
    Ok(())
}

/// Appends the UTF-8 bytes of `s` behind their 16-bit length, or fails with
/// `PayloadTooLong`, leaving `out` as it was, where they are more than 65535.
pub fn write_string(out: &mut Vec<u8>, s: &str) -> (res: Result<(), Error>)
    ensures
        encode_utf8(s@).len() <= FIELD_MAX ==> res is Ok && final(out)@ == old(out)@
            + spec_string_bytes(s@),
        encode_utf8(s@).len() > FIELD_MAX ==> res == Err::<(), Error>(Error::PayloadTooLong)
            && final(out)@ == old(out)@,
{
    write_bytes(out, s.as_bytes())
}

// ---------------------------------------------------------------------
// Lengths
// ---------------------------------------------------------------------
/// The number of bytes of the variable byte integer of `value`.
pub fn var_int_len(value: usize) -> (res: Result<usize, Error>)
    ensures
        value <= VAR_INT_MAX ==> res == Ok::<usize, Error>(spec_var_int_len(value as int) as usize),
        value > VAR_INT_MAX ==> res == Err::<usize, Error>(Error::InvalidVarByteInt),
{
    if value > 268_435_455 {
        Err(Error::InvalidVarByteInt)
    } else if value < 128 {
        Ok(1)
    } else if value < 16384 {
        Ok(2)
    } else if value < 2097152 {
        Ok(3)
    } else {
        Ok(4)
    }
}

/// The length of a fixed header: the first byte and the remaining length.
pub fn header_len(remaining_len: usize) -> (res: Result<usize, Error>)
    ensures
        remaining_len <= VAR_INT_MAX ==> res == Ok::<usize, Error>(
            (1 + spec_var_int_len(remaining_len as int)) as usize,
        ),
        remaining_len > VAR_INT_MAX ==> res == Err::<usize, Error>(Error::InvalidVarByteInt),
{
    let n = var_int_len(remaining_len)?;
    Ok(1 + n)
}

/// The length of a whole packet: fixed header and `remaining_len` bytes.
pub fn total_len(remaining_len: usize) -> (res: Result<usize, Error>)
    ensures
        match spec_total_len(remaining_len as int) {
            Ok(n) => res == Ok::<usize, Error>(n as usize) && n <= usize::MAX,
            Err(_) => res == Err::<usize, Error>(Error::InvalidVarByteInt),
        },
{
    let n = header_len(remaining_len)?;
    Ok(n + remaining_len)
}

/// The remaining length of a packet of `total` bytes: the inverse of
/// [`total_len`]. Fails with `InvalidRemainingLength` where no packet has
/// that many bytes.
pub fn remaining_len(total: usize) -> (res: Result<usize, Error>)
    ensures
        match res {
            Ok(r) => spec_total_len(r as int) == Ok::<int, ErrorView>(total as int),
            Err(e) => e == Error::InvalidRemainingLength && forall|r: int|
                0 <= r ==> spec_total_len(r) != Ok::<int, ErrorView>(total as int),
        },
{
    if total < 2 || total > 268_435_455 + 5 {
        return Err(Error::InvalidRemainingLength);
    }
    let r: usize = if total <= 127 + 2 {
        total - 2
    } else if total <= 16383 + 3 {
        total - 3
    } else if total <= 2097151 + 4 {
        total - 4
    } else {
        total - 5
    };
    match total_len(r) {
        Ok(t) => if t == total {
            Ok(r)
        } else {
            Err(Error::InvalidRemainingLength)
        },
        Err(_) => Err(Error::InvalidRemainingLength),
    }
}

// ---------------------------------------------------------------------
// Laws
// ---------------------------------------------------------------------
/// The digits of `v` in base 128 add up to `v`.
#[verifier::rlimit(50)]
proof fn lemma_var_int_digits(v: u32)
    requires
        v <= VAR_INT_MAX,
    ensures
        v % 128 + (v / 128) * 128 == v,
        v % 128 + ((v / 128) % 128) * 128 + (v / 16384) * 16384 == v,
        v % 128 + ((v / 128) % 128) * 128 + ((v / 16384) % 128) * 16384 + (v / 2097152) * 2097152
            == v,
        v < 16384 ==> v / 128 < 128,
        v < 2097152 ==> v / 16384 < 128,
        v / 2097152 < 128,
{
    let a = v / 128;
    let b = a / 128;
    let c = b / 128;
    assert(v == a * 128 + v % 128);
    assert(a == b * 128 + a % 128);
    assert(b == c * 128 + b % 128);
    assert(b == v / 16384);
    assert(c == v / 2097152);
}

/// A variable byte integer of at most [`VAR_INT_MAX`] is read back from its
/// encoding, wherever the encoding stands, and the reader stops behind it.
#[verifier::rlimit(50)]
pub proof fn lemma_var_int_round_trip(v: u32, before: Seq<u8>, after: Seq<u8>)
    requires
        v <= VAR_INT_MAX,
    ensures
        spec_var_int_bytes(v).len() == spec_var_int_len(v as int),
        spec_decode_var_int(before + spec_var_int_bytes(v) + after, before.len() as int) == Ok::<
            (u32, int),
            ErrorView,
        >((v, before.len() + spec_var_int_len(v as int))),
{
    let e = spec_var_int_bytes(v);
    let s = before + e + after;
    let off = before.len() as int;
    lemma_var_int_digits(v);
    assert(s.len() == before.len() + e.len() + after.len());
    assert(s[off] == e[0]);
    if v >= 128 {
        assert(s[off + 1] == e[1]);
    }
    if v >= 16384 {
        assert(s[off + 2] == e[2]);
    }
    if v >= 2097152 {
        assert(s[off + 3] == e[3]);
    }
}

/// A value above [`VAR_INT_MAX`] has no encoding: the writer refuses it.
/// Four bytes that all ask for another byte are no variable byte integer.
pub proof fn lemma_var_int_over_long(s: Seq<u8>, off: int)
    requires
        0 <= off,
        off + 4 <= s.len(),
        s[off] >= 128,
        s[off + 1] >= 128,
        s[off + 2] >= 128,
        s[off + 3] >= 128,
    ensures
        spec_decode_var_int(s, off) == Err::<(u32, int), ErrorView>(ErrorView::InvalidVarByteInt),
{
}

/// A 16-bit integer is read back from its two bytes.
pub proof fn lemma_u16_round_trip(v: u16, before: Seq<u8>, after: Seq<u8>)
    ensures
        spec_read_u16(before + spec_u16_bytes(v) + after, before.len() as int) == Ok::<
            (u16, int),
            ErrorView,
        >((v, (before.len() + 2) as int)),
{
    let s = before + spec_u16_bytes(v) + after;
    let off = before.len() as int;
    assert(s[off] == spec_u16_bytes(v)[0]);
    assert(s[off + 1] == spec_u16_bytes(v)[1]);
}

/// A 32-bit integer is read back from its four bytes.
pub proof fn lemma_u32_round_trip(v: u32, before: Seq<u8>, after: Seq<u8>)
    ensures
        spec_read_u32(before + spec_u32_bytes(v) + after, before.len() as int) == Ok::<
            (u32, int),
            ErrorView,
        >((v, (before.len() + 4) as int)),
{
    let s = before + spec_u32_bytes(v) + after;
    let off = before.len() as int;
    assert(s[off] == spec_u32_bytes(v)[0]);
    assert(s[off + 1] == spec_u32_bytes(v)[1]);
    assert(s[off + 2] == spec_u32_bytes(v)[2]);
    assert(s[off + 3] == spec_u32_bytes(v)[3]);
}

/// A field of at most 65535 bytes is read back from its encoding.
pub proof fn lemma_bytes_round_trip(data: Seq<u8>, before: Seq<u8>, after: Seq<u8>)
    requires
        data.len() <= FIELD_MAX,
    ensures
        spec_read_bytes(before + spec_field_bytes(data) + after, before.len() as int) == Ok::<
            (Seq<u8>, int),
            ErrorView,
        >((data, (before.len() + 2 + data.len()) as int)),
{
    let s = before + spec_field_bytes(data) + after;
    let off = before.len() as int;
    assert(s =~= before + spec_u16_bytes(data.len() as u16) + (data + after));
    lemma_u16_round_trip(data.len() as u16, before, data + after);
    assert(s.subrange(off + 2, off + 2 + data.len()) =~= data);
}

/// A text whose UTF-8 encoding has at most 65535 bytes is read back from
/// its encoding.
pub proof fn lemma_string_round_trip(chars: Seq<char>, before: Seq<u8>, after: Seq<u8>)
    requires
        encode_utf8(chars).len() <= FIELD_MAX,
    ensures
        spec_read_string(before + spec_string_bytes(chars) + after, before.len() as int) == Ok::<
            (Seq<char>, int),
            ErrorView,
        >((chars, (before.len() + 2 + encode_utf8(chars).len()) as int)),
{
    lemma_bytes_round_trip(encode_utf8(chars), before, after);
    vstd::utf8::encode_utf8_valid_utf8(chars);
    vstd::utf8::encode_utf8_decode_utf8(chars);
}

/// The byte at the head of what is left of `s` is read, and its tail is what
/// is left then.
pub proof fn lemma_u8_suffix(s: Seq<u8>, off: int, v: u8, tail: Seq<u8>)
    requires
        0 <= off <= s.len(),
        s.subrange(off, s.len() as int) == seq![v] + tail,
    ensures
        spec_read_u8(s, off) == Ok::<(u8, int), ErrorView>((v, off + 1)),
        s.subrange(off + 1, s.len() as int) == tail,
        off + 1 <= s.len(),
{
    let rest = s.subrange(off, s.len() as int);
    assert(rest.len() == 1 + tail.len());
    assert(rest[0] == v);
    assert(s.subrange(off + 1, s.len() as int) =~= rest.subrange(1, rest.len() as int));
    assert(rest.subrange(1, rest.len() as int) =~= tail);
}

/// A 16-bit integer at the head of what is left of `s` is read, and its tail
/// is what is left then.
pub proof fn lemma_u16_suffix(s: Seq<u8>, off: int, v: u16, tail: Seq<u8>)
    requires
        0 <= off <= s.len(),
        s.subrange(off, s.len() as int) == spec_u16_bytes(v) + tail,
    ensures
        spec_read_u16(s, off) == Ok::<(u16, int), ErrorView>((v, off + 2)),
        s.subrange(off + 2, s.len() as int) == tail,
        off + 2 <= s.len(),
{
    let rest = s.subrange(off, s.len() as int);
    assert(rest.len() == 2 + tail.len());
    assert(rest[0] == spec_u16_bytes(v)[0]);
    assert(rest[1] == spec_u16_bytes(v)[1]);
    assert(s.subrange(off + 2, s.len() as int) =~= rest.subrange(2, rest.len() as int));
    assert(rest.subrange(2, rest.len() as int) =~= tail);
}

/// A 32-bit integer at the head of what is left of `s` is read, and its tail
/// is what is left then.
pub proof fn lemma_u32_suffix(s: Seq<u8>, off: int, v: u32, tail: Seq<u8>)
    requires
        0 <= off <= s.len(),
        s.subrange(off, s.len() as int) == spec_u32_bytes(v) + tail,
    ensures
        spec_read_u32(s, off) == Ok::<(u32, int), ErrorView>((v, off + 4)),
        s.subrange(off + 4, s.len() as int) == tail,
        off + 4 <= s.len(),
{
    let rest = s.subrange(off, s.len() as int);
    assert(rest.len() == 4 + tail.len());
    assert(rest[0] == spec_u32_bytes(v)[0]);
    assert(rest[1] == spec_u32_bytes(v)[1]);
    assert(rest[2] == spec_u32_bytes(v)[2]);
    assert(rest[3] == spec_u32_bytes(v)[3]);
    assert(s.subrange(off + 4, s.len() as int) =~= rest.subrange(4, rest.len() as int));
    assert(rest.subrange(4, rest.len() as int) =~= tail);
}

/// A variable byte integer at the head of what is left of `s` is read, and
/// its tail is what is left then.
pub proof fn lemma_var_int_suffix(s: Seq<u8>, off: int, v: u32, tail: Seq<u8>)
    requires
        v <= VAR_INT_MAX,
        0 <= off <= s.len(),
        s.subrange(off, s.len() as int) == spec_var_int_bytes(v) + tail,
    ensures
        spec_decode_var_int(s, off) == Ok::<(u32, int), ErrorView>(
            (v, off + spec_var_int_len(v as int)),
        ),
        s.subrange(off + spec_var_int_len(v as int), s.len() as int) == tail,
        off + spec_var_int_len(v as int) <= s.len(),
        spec_var_int_bytes(v).len() == spec_var_int_len(v as int),
{
    let before = s.subrange(0, off);
    lemma_var_int_round_trip(v, before, tail);
    assert(s =~= before + s.subrange(off, s.len() as int));
    assert(s =~= before + spec_var_int_bytes(v) + tail);
    let n = spec_var_int_len(v as int);
    assert(s.subrange(off + n, s.len() as int) =~= tail);
}

/// A length-prefixed field at the head of what is left of `s` is read, and
/// its tail is what is left then.
pub proof fn lemma_bytes_suffix(s: Seq<u8>, off: int, data: Seq<u8>, tail: Seq<u8>)
    requires
        data.len() <= FIELD_MAX,
        0 <= off <= s.len(),
        s.subrange(off, s.len() as int) == spec_field_bytes(data) + tail,
    ensures
        spec_read_bytes(s, off) == Ok::<(Seq<u8>, int), ErrorView>((data, off + 2 + data.len())),
        s.subrange(off + 2 + data.len(), s.len() as int) == tail,
        off + 2 + data.len() <= s.len(),
        spec_field_bytes(data).len() == 2 + data.len(),
{
    let before = s.subrange(0, off);
    lemma_bytes_round_trip(data, before, tail);
    assert(s =~= before + s.subrange(off, s.len() as int));
    assert(s =~= before + spec_field_bytes(data) + tail);
    assert(s.subrange(off + 2 + data.len(), s.len() as int) =~= tail);
}

/// A string at the head of what is left of `s` is read, and its tail is what
/// is left then.
pub proof fn lemma_string_suffix(s: Seq<u8>, off: int, chars: Seq<char>, tail: Seq<u8>)
    requires
        encode_utf8(chars).len() <= FIELD_MAX,
        0 <= off <= s.len(),
        s.subrange(off, s.len() as int) == spec_string_bytes(chars) + tail,
    ensures
        spec_read_string(s, off) == Ok::<(Seq<char>, int), ErrorView>(
            (chars, off + 2 + encode_utf8(chars).len()),
        ),
        s.subrange(off + 2 + encode_utf8(chars).len(), s.len() as int) == tail,
        off + 2 + encode_utf8(chars).len() <= s.len(),
        spec_string_bytes(chars).len() == 2 + encode_utf8(chars).len(),
{
    lemma_bytes_suffix(s, off, encode_utf8(chars), tail);
    vstd::utf8::encode_utf8_valid_utf8(chars);
    vstd::utf8::encode_utf8_decode_utf8(chars);
}

/// Three sequences one behind the other, whichever two are joined first.
pub proof fn lemma_concat_assoc3(a: Seq<u8>, b: Seq<u8>, c: Seq<u8>)
    ensures
        a + b + c == a + (b + c),
{
    assert(a + b + c =~= a + (b + c));
}

/// Four sequences one behind the other, whichever are joined first.
pub proof fn lemma_concat_assoc4(a: Seq<u8>, b: Seq<u8>, c: Seq<u8>, d: Seq<u8>)
    ensures
        a + b + c + d == a + (b + (c + d)),
{
    assert(a + b + c + d =~= a + (b + (c + d)));
}

/// A byte behind a sequence and before another.
pub proof fn lemma_push_concat(a: Seq<u8>, f: u8, rest: Seq<u8>)
    ensures
        a.push(f) + rest == a + (seq![f] + rest),
{
    assert(a.push(f) + rest =~= a + (seq![f] + rest));
}

/// The whole of a sequence is the sequence.
pub proof fn lemma_whole(s: Seq<u8>)
    ensures
        s.subrange(0, s.len() as int) == s,
{
    assert(s.subrange(0, s.len() as int) =~= s);
}

} // verus!
