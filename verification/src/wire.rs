//! Codec for the relational engine's binary composite encoding.
//!
//! An aggregate query returns each child collection as one column holding an
//! array of anonymous record values.  Such a column is not backed by a
//! declared type, so the driver cannot decode it; this module walks the
//! self-describing encoding directly, as a pure function over bytes.
//!
//! A record value is: a big-endian 4-byte field count, then per field a
//! 4-byte type tag, a 4-byte signed length (`-1` marks NULL) and that many
//! bytes of the scalar's native encoding.  An array value is: a 4-byte
//! dimension count, 4 bytes of flags, a 4-byte element type tag, then per
//! dimension a 4-byte length and a 4-byte lower bound, then the elements,
//! each a 4-byte signed length (`-1` marks a NULL element) and that many
//! payload bytes.
//!
//! Arrays of more than one dimension are rejected with
//! [`DecodeError::UnsupportedShape`].  Inside an array, a NULL element or an
//! element that fails to decode is dropped rather than aborting the whole
//! decode; this best-effort policy is intentional and lossy.  A record field
//! whose type tag is not the expected scalar fails with
//! [`DecodeError::TypeMismatch`].
//!
//! The encoding direction exists so that the decode can be checked: encoding
//! records and decoding the result yields the records back, which
//! [`lemma_domain_array_round_trip`] and [`lemma_page_array_round_trip`]
//! prove.

use vstd::prelude::*;
use vstd::string::StringSliceAdditionalSpecFns;
use vstd::utf8::{decode_utf8, encode_utf8, valid_utf8};

use crate::model::{DomainAsRel, DomainAsRelV, DomainAsRelVec, PageAsRel, PageAsRelV, PageAsRelVec};

verus! {

/// Why a buffer was rejected.
#[derive(Clone, Copy, Debug, PartialEq, Eq, Structural)]
pub enum DecodeError {
    /// A field's type tag is unknown or does not match the expected scalar.
    TypeMismatch,
    /// An array declares more than one dimension.
    UnsupportedShape,
    /// The buffer ends before the declared content.
    Truncated,
    /// A length, a scalar payload or a text encoding is invalid.
    Malformed,
}

/// Type tag of the engine's boolean scalar.
pub const OID_BOOL: u32 = 16;

/// Type tag of the engine's 8-byte integer scalar.
pub const OID_INT8: u32 = 20;

/// Type tag of the engine's unbounded text scalar.
pub const OID_TEXT: u32 = 25;

/// Type tag of the engine's bounded varying-text scalar.
pub const OID_VARCHAR: u32 = 1043;

/// Type tag of the engine's anonymous record type.
pub const OID_RECORD: u32 = 2249;

/// The 4-byte length field value that marks NULL.
pub const LEN_NULL: u32 = 0xffff_ffff;

// ------------------------------------------------------------------
// Big-endian integers
// ------------------------------------------------------------------
/// The four big-endian bytes of `x`.
pub open spec fn spec_be_u32(x: u32) -> Seq<u8> {
    seq![
        ((x >> 24) & 0xff) as u8,
        ((x >> 16) & 0xff) as u8,
        ((x >> 8) & 0xff) as u8,
        (x & 0xff) as u8,
    ]
}

/// The value of four big-endian bytes.
pub open spec fn spec_u32_of_be(b: Seq<u8>) -> u32
    recommends
        b.len() == 4,
{
    (((b[0] as u32) << 24) | ((b[1] as u32) << 16) | ((b[2] as u32) << 8) | (b[3] as u32)) as u32
}

/// The eight big-endian bytes of `x`.
pub open spec fn spec_be_u64(x: u64) -> Seq<u8> {
    seq![
        ((x >> 56) & 0xff) as u8,
        ((x >> 48) & 0xff) as u8,
        ((x >> 40) & 0xff) as u8,
        ((x >> 32) & 0xff) as u8,
        ((x >> 24) & 0xff) as u8,
        ((x >> 16) & 0xff) as u8,
        ((x >> 8) & 0xff) as u8,
        (x & 0xff) as u8,
    ]
}

/// The value of eight big-endian bytes.
pub open spec fn spec_u64_of_be(b: Seq<u8>) -> u64
    recommends
        b.len() == 8,
{
    (((b[0] as u64) << 56) | ((b[1] as u64) << 48) | ((b[2] as u64) << 40) | ((b[3] as u64) << 32)
        | ((b[4] as u64) << 24) | ((b[5] as u64) << 16) | ((b[6] as u64) << 8) | (
    b[7] as u64)) as u64
}

/// Reading back the four big-endian bytes of a value yields the value.
pub proof fn lemma_be_u32_round_trip(x: u32)
    ensures
        spec_be_u32(x).len() == 4,
        spec_u32_of_be(spec_be_u32(x)) == x,
{
    let b0 = ((x >> 24) & 0xff) as u8;
    let b1 = ((x >> 16) & 0xff) as u8;
    let b2 = ((x >> 8) & 0xff) as u8;
    let b3 = (x & 0xff) as u8;
    assert((((b0 as u32) << 24) | ((b1 as u32) << 16) | ((b2 as u32) << 8) | (b3 as u32)) as u32
        == x) by (bit_vector)
        requires
            b0 == ((x >> 24) & 0xff) as u8,
            b1 == ((x >> 16) & 0xff) as u8,
            b2 == ((x >> 8) & 0xff) as u8,
            b3 == (x & 0xff) as u8,
    ;
}

/// Reading back the eight big-endian bytes of a value yields the value.
pub proof fn lemma_be_u64_round_trip(x: u64)
    ensures
        spec_be_u64(x).len() == 8,
        spec_u64_of_be(spec_be_u64(x)) == x,
{
    let b0 = ((x >> 56) & 0xff) as u8;
    let b1 = ((x >> 48) & 0xff) as u8;
    let b2 = ((x >> 40) & 0xff) as u8;
    let b3 = ((x >> 32) & 0xff) as u8;
    let b4 = ((x >> 24) & 0xff) as u8;
    let b5 = ((x >> 16) & 0xff) as u8;
    let b6 = ((x >> 8) & 0xff) as u8;
    let b7 = (x & 0xff) as u8;
    assert((((b0 as u64) << 56) | ((b1 as u64) << 48) | ((b2 as u64) << 40) | ((b3 as u64) << 32)
        | ((b4 as u64) << 24) | ((b5 as u64) << 16) | ((b6 as u64) << 8) | (b7 as u64)) as u64
        == x) by (bit_vector)
        requires
            b0 == ((x >> 56) & 0xff) as u8,
            b1 == ((x >> 48) & 0xff) as u8,
            b2 == ((x >> 40) & 0xff) as u8,
            b3 == ((x >> 32) & 0xff) as u8,
            b4 == ((x >> 24) & 0xff) as u8,
            b5 == ((x >> 16) & 0xff) as u8,
            b6 == ((x >> 8) & 0xff) as u8,
            b7 == (x & 0xff) as u8,
    ;
}

/// The signed 64-bit value represented by `u` in two's complement.
pub open spec fn spec_i64_val(u: u64) -> int {
    if u < 0x8000_0000_0000_0000 {
        u as int
    } else {
        u as int - 0x1_0000_0000_0000_0000
    }
}

/// The unsigned two's-complement representation of `x`.
pub open spec fn spec_u64_rep(x: i64) -> u64 {
    if x >= 0 {
        x as u64
    } else {
        (x + 0x1_0000_0000_0000_0000) as u64
    }
}

/// Reads the big-endian 4-byte integer at `pos`.
fn be_u32_at(buf: &[u8], pos: usize) -> (r: u32)
    requires
        pos + 4 <= buf@.len(),
    ensures
        r == spec_u32_of_be(buf@.subrange(pos as int, pos as int + 4)),
{
    let b0 = buf[pos];
    let b1 = buf[pos + 1];
    let b2 = buf[pos + 2];
    let b3 = buf[pos + 3];
    proof {
        let s = buf@.subrange(pos as int, pos as int + 4);
        assert(s[0] == b0 && s[1] == b1 && s[2] == b2 && s[3] == b3);
    }
    ((b0 as u32) << 24) | ((b1 as u32) << 16) | ((b2 as u32) << 8) | (b3 as u32)
}

/// Reads the big-endian 8-byte integer at `pos`.
fn be_u64_at(buf: &[u8], pos: usize) -> (r: u64)
    requires
        pos + 8 <= buf@.len(),
    ensures
        r == spec_u64_of_be(buf@.subrange(pos as int, pos as int + 8)),
{
    let b0 = buf[pos];
    let b1 = buf[pos + 1];
    let b2 = buf[pos + 2];
    let b3 = buf[pos + 3];
    let b4 = buf[pos + 4];
    let b5 = buf[pos + 5];
    let b6 = buf[pos + 6];
    let b7 = buf[pos + 7];
    proof {
        let s = buf@.subrange(pos as int, pos as int + 8);
        assert(s[0] == b0 && s[1] == b1 && s[2] == b2 && s[3] == b3 && s[4] == b4 && s[5] == b5
            && s[6] == b6 && s[7] == b7);
    }
    ((b0 as u64) << 56) | ((b1 as u64) << 48) | ((b2 as u64) << 40) | ((b3 as u64) << 32) | ((
    b4 as u64) << 24) | ((b5 as u64) << 16) | ((b6 as u64) << 8) | (b7 as u64)
}

/// The signed 64-bit value of an unsigned two's-complement representation.
fn i64_from_u64(u: u64) -> (r: i64)
    ensures
        r as int == spec_i64_val(u),
{
    if u <= 0x7fff_ffff_ffff_ffffu64 {
        u as i64
    } else {
        let d: u64 = u - 0x8000_0000_0000_0000u64;
        (-0x8000_0000_0000_0000i64) + (d as i64)
    }
}

/// The unsigned two's-complement representation of a signed value.
fn u64_from_i64(x: i64) -> (r: u64)
    ensures
        r == spec_u64_rep(x),
{
    if x >= 0 {
        x as u64
    } else {
        let d: i64 = x - (-0x8000_0000_0000_0000i64);
        (d as u64) + 0x8000_0000_0000_0000u64
    }
}

/// Appends the four big-endian bytes of `x`.
fn push_be_u32(out: &mut Vec<u8>, x: u32)
    ensures
        final(out)@ == old(out)@ + spec_be_u32(x),
{
    proof {
        assert(((x >> 24) & 0xff) < 256 && ((x >> 16) & 0xff) < 256 && ((x >> 8) & 0xff) < 256 && (
        x & 0xff) < 256) by (bit_vector);
    }
    out.push(((x >> 24) & 0xff) as u8);
    out.push(((x >> 16) & 0xff) as u8);
    out.push(((x >> 8) & 0xff) as u8);
    out.push((x & 0xff) as u8);
    proof {
        assert(out@ =~= old(out)@ + spec_be_u32(x));
    }
}

/// Appends the eight big-endian bytes of `x`.
fn push_be_u64(out: &mut Vec<u8>, x: u64)
    ensures
        final(out)@ == old(out)@ + spec_be_u64(x),
{
    proof {
        assert(((x >> 56) & 0xff) < 256 && ((x >> 48) & 0xff) < 256 && ((x >> 40) & 0xff) < 256 && (
        (x >> 32) & 0xff) < 256 && ((x >> 24) & 0xff) < 256 && ((x >> 16) & 0xff) < 256 && ((x >> 8)
            & 0xff) < 256 && (x & 0xff) < 256) by (bit_vector);
    }
    out.push(((x >> 56) & 0xff) as u8);
    out.push(((x >> 48) & 0xff) as u8);
    out.push(((x >> 40) & 0xff) as u8);
    out.push(((x >> 32) & 0xff) as u8);
    out.push(((x >> 24) & 0xff) as u8);
    out.push(((x >> 16) & 0xff) as u8);
    out.push(((x >> 8) & 0xff) as u8);
    out.push((x & 0xff) as u8);
    proof {
        assert(out@ =~= old(out)@ + spec_be_u64(x));
    }
}

/// Appends a byte slice.
fn push_bytes(out: &mut Vec<u8>, src: &[u8])
    ensures
        final(out)@ == old(out)@ + src@,
{
    let n = src.len();
    let mut i: usize = 0;
    while i < n
        invariant
            n == src@.len(),
            i <= n,
            out@ == old(out)@ + src@.subrange(0, i as int),
        decreases n - i,
    {
        out.push(src[i]);
        proof {
            assert(out@ =~= old(out)@ + src@.subrange(0, i as int + 1));
        }
        i += 1;
    }
    proof {
        assert(src@.subrange(0, n as int) =~= src@);
    }
}

// ------------------------------------------------------------------
// Specification of the decode: field layer
// ------------------------------------------------------------------
/// Parses an 8-byte-integer field at the front of `b`: the expected type tag,
/// a length that must be 8, then the big-endian value.  Returns the value and
/// the remaining bytes.
pub open spec fn spec_parse_int8_field(b: Seq<u8>) -> Result<(i64, Seq<u8>), DecodeError> {
    if b.len() < 4 {
        Err(DecodeError::Truncated)
    } else if spec_u32_of_be(b.subrange(0, 4)) != OID_INT8 {
        Err(DecodeError::TypeMismatch)
    } else if b.len() < 8 {
        Err(DecodeError::Truncated)
    } else if spec_u32_of_be(b.subrange(4, 8)) != 8u32 {
        Err(DecodeError::Malformed)
    } else if b.len() < 16 {
        Err(DecodeError::Truncated)
    } else {
        let u = spec_u64_of_be(b.subrange(8, 16));
        Ok(((spec_i64_val(u)) as i64, b.skip(16)))
    }
}

/// Parses a text field at the front of `b`: a text or varying-text type tag,
/// a non-negative length, then that many bytes of valid UTF-8.  Returns the
/// decoded characters and the remaining bytes.
pub open spec fn spec_parse_text_field(b: Seq<u8>) -> Result<(Seq<char>, Seq<u8>), DecodeError> {
    if b.len() < 4 {
        Err(DecodeError::Truncated)
    } else if spec_u32_of_be(b.subrange(0, 4)) != OID_TEXT && spec_u32_of_be(b.subrange(0, 4))
        != OID_VARCHAR {
        Err(DecodeError::TypeMismatch)
    } else if b.len() < 8 {
        Err(DecodeError::Truncated)
    } else if spec_u32_of_be(b.subrange(4, 8)) >= 0x8000_0000u32 {
        // negative length: NULL (or garbage) in a required field
        Err(DecodeError::Malformed)
    } else if b.len() < 8 + spec_u32_of_be(b.subrange(4, 8)) {
        Err(DecodeError::Truncated)
    } else {
        let n = spec_u32_of_be(b.subrange(4, 8)) as int;
        let data = b.subrange(8, 8 + n);
        if !valid_utf8(data) {
            Err(DecodeError::Malformed)
        } else {
            Ok((decode_utf8(data), b.skip(8 + n)))
        }
    }
}

/// Parses a boolean field at the front of `b`: the boolean type tag, a length
/// that must be 1, then one byte that is true when non-zero.  Returns the
/// value and the remaining bytes.
pub open spec fn spec_parse_bool_field(b: Seq<u8>) -> Result<(bool, Seq<u8>), DecodeError> {
    if b.len() < 4 {
        Err(DecodeError::Truncated)
    } else if spec_u32_of_be(b.subrange(0, 4)) != OID_BOOL {
        Err(DecodeError::TypeMismatch)
    } else if b.len() < 8 {
        Err(DecodeError::Truncated)
    } else if spec_u32_of_be(b.subrange(4, 8)) != 1u32 {
        Err(DecodeError::Malformed)
    } else if b.len() < 9 {
        Err(DecodeError::Truncated)
    } else {
        Ok((b[8] != 0, b.skip(9)))
    }
}

// ------------------------------------------------------------------
// Specification of the decode: record layer
// ------------------------------------------------------------------
/// Parses one domain child record: a field count (read and not otherwise
/// used, as the field list is fixed by the query), then the id, name and
/// status fields.  Trailing bytes are ignored.
pub open spec fn spec_parse_domain_record(b: Seq<u8>) -> Result<DomainAsRelV, DecodeError> {
    if b.len() < 4 {
        Err(DecodeError::Truncated)
    } else {
        match spec_parse_int8_field(b.skip(4)) {
            Err(e) => Err(e),
            Ok((domain_id, r1)) => match spec_parse_text_field(r1) {
                Err(e) => Err(e),
                Ok((domain, r2)) => match spec_parse_text_field(r2) {
                    Err(e) => Err(e),
                    Ok((status, _)) => Ok(DomainAsRelV { domain_id, domain, status }),
                },
            },
        }
    }
}

/// Parses one page child record: a field count (read and not otherwise
/// used), then the id, type, content id, title, home-page flag and path
/// fields.  Trailing bytes are ignored.
pub open spec fn spec_parse_page_record(b: Seq<u8>) -> Result<PageAsRelV, DecodeError> {
    if b.len() < 4 {
        Err(DecodeError::Truncated)
    } else {
        match spec_parse_int8_field(b.skip(4)) {
            Err(e) => Err(e),
            Ok((page_id, r1)) => match spec_parse_text_field(r1) {
                Err(e) => Err(e),
                Ok((page_type, r2)) => match spec_parse_text_field(r2) {
                    Err(e) => Err(e),
                    Ok((content_id, r3)) => match spec_parse_text_field(r3) {
                        Err(e) => Err(e),
                        Ok((title, r4)) => match spec_parse_bool_field(r4) {
                            Err(e) => Err(e),
                            Ok((is_home_page, r5)) => match spec_parse_text_field(r5) {
                                Err(e) => Err(e),
                                Ok((path, _)) => Ok(
                                    PageAsRelV {
                                        page_id,
                                        page_type,
                                        content_id,
                                        title,
                                        is_home_page,
                                        path,
                                    },
                                ),
                            },
                        },
                    },
                },
            },
        }
    }
}

// ------------------------------------------------------------------
// Specification of the decode: array layer
// ------------------------------------------------------------------
/// Parses `count` length-prefixed array elements from the front of `b`.
/// A length of `-1` marks a NULL element.  Yields each element's payload
/// bytes (or `None` for NULL); trailing bytes are ignored.
pub open spec fn spec_parse_array_items(b: Seq<u8>, count: int) -> Result<
    Seq<Option<Seq<u8>>>,
    DecodeError,
>
    decreases count,
{
    if count <= 0 {
        Ok(Seq::empty())
    } else if b.len() < 4 {
        Err(DecodeError::Truncated)
    } else {
        let lenu = spec_u32_of_be(b.subrange(0, 4));
        if lenu == LEN_NULL {
            match spec_parse_array_items(b.skip(4), count - 1) {
                Ok(rest) => Ok(seq![Option::<Seq<u8>>::None] + rest),
                Err(e) => Err(e),
            }
        } else if lenu >= 0x8000_0000u32 {
            Err(DecodeError::Malformed)
        } else if b.len() < 4 + lenu {
            Err(DecodeError::Truncated)
        } else {
            let n = lenu as int;
            match spec_parse_array_items(b.skip(4 + n), count - 1) {
                Ok(rest) => Ok(seq![Some(b.subrange(4, 4 + n))] + rest),
                Err(e) => Err(e),
            }
        }
    }
}

/// Parses an array value: the header, then the elements of its single
/// dimension.  A dimension count of zero is the empty array; any dimension
/// count other than zero or one is rejected with `UnsupportedShape`.  The
/// flags, element type tag and lower bound are not inspected.
pub open spec fn spec_parse_array(b: Seq<u8>) -> Result<Seq<Option<Seq<u8>>>, DecodeError> {
    if b.len() < 12 {
        Err(DecodeError::Truncated)
    } else {
        let ndim = spec_u32_of_be(b.subrange(0, 4));
        if ndim == 0 {
            Ok(Seq::empty())
        } else if ndim != 1 {
            Err(DecodeError::UnsupportedShape)
        } else if b.len() < 20 {
            Err(DecodeError::Truncated)
        } else {
            let count = spec_u32_of_be(b.subrange(12, 16));
            if count >= 0x8000_0000u32 {
                Err(DecodeError::Malformed)
            } else {
                spec_parse_array_items(b.skip(20), count as int)
            }
        }
    }
}

/// The records recovered from array elements: NULL elements and elements
/// whose record fails to parse are dropped (the decode is best-effort and
/// lossy by design); the order of the surviving records is kept.
pub open spec fn spec_collect_rows<T>(
    items: Seq<Option<Seq<u8>>>,
    parse: spec_fn(Seq<u8>) -> Result<T, DecodeError>,
) -> Seq<T>
    decreases items.len(),
{
    if items.len() == 0 {
        Seq::empty()
    } else {
        let tail = spec_collect_rows(items.skip(1), parse);
        match items[0] {
            None => tail,
            Some(payload) => match parse(payload) {
                Ok(v) => seq![v] + tail,
                Err(_) => tail,
            },
        }
    }
}

/// The meaning of a domains aggregate column: the array structure must be
/// well-formed, and each surviving element decodes as a domain child record.
pub open spec fn spec_decode_domain_array(b: Seq<u8>) -> Result<Seq<DomainAsRelV>, DecodeError> {
    match spec_parse_array(b) {
        Ok(items) => Ok(spec_collect_rows(items, |p: Seq<u8>| spec_parse_domain_record(p))),
        Err(e) => Err(e),
    }
}

/// The meaning of a pages aggregate column.
pub open spec fn spec_decode_page_array(b: Seq<u8>) -> Result<Seq<PageAsRelV>, DecodeError> {
    match spec_parse_array(b) {
        Ok(items) => Ok(spec_collect_rows(items, |p: Seq<u8>| spec_parse_page_record(p))),
        Err(e) => Err(e),
    }
}

// ------------------------------------------------------------------
// Executable decode
// ------------------------------------------------------------------
#[verifier::external_type_specification]
#[verifier::external_body]
pub struct ExUtf8Error(core::str::Utf8Error);

/// Relies on core::str::from_utf8: it succeeds exactly on the byte sequences
/// that are valid UTF-8, returning the string slice backed by those bytes.
pub assume_specification[ core::str::from_utf8 ](v: &[u8]) -> (r: Result<
    &str,
    core::str::Utf8Error,
>)
    ensures
        r matches Ok(s) ==> s.spec_bytes() == v@,
        r is Ok <==> valid_utf8(v@),
;

/// A subrange of a subrange is a subrange of the underlying sequence.
proof fn lemma_sub_of_sub(b: Seq<u8>, pos: int, end: int, a: int, c: int)
    requires
        0 <= pos <= end <= b.len(),
        0 <= a <= c <= end - pos,
    ensures
        b.subrange(pos, end).subrange(a, c) == b.subrange(pos + a, pos + c),
{
    assert(b.subrange(pos, end).subrange(a, c) =~= b.subrange(pos + a, pos + c));
}

/// Skipping into a subrange lands in a subrange of the underlying sequence.
proof fn lemma_skip_of_sub(b: Seq<u8>, pos: int, end: int, a: int)
    requires
        0 <= pos <= end <= b.len(),
        0 <= a <= end - pos,
    ensures
        b.subrange(pos, end).skip(a) == b.subrange(pos + a, end),
{
    assert(b.subrange(pos, end).skip(a) =~= b.subrange(pos + a, end));
}

/// Decodes an 8-byte-integer field at `pos`, within the record that ends at
/// `end`.  Agrees exactly with [`spec_parse_int8_field`] on the window.
fn parse_int8_field(buf: &[u8], pos: usize, end: usize) -> (r: Result<(i64, usize), DecodeError>)
    requires
        pos <= end <= buf@.len(),
    ensures
        match r {
            Ok((v, p2)) => pos <= p2 <= end && spec_parse_int8_field(
                buf@.subrange(pos as int, end as int),
            ) == Ok::<_, DecodeError>((v, buf@.subrange(p2 as int, end as int))),
            Err(e) => spec_parse_int8_field(buf@.subrange(pos as int, end as int)) == Err::<
                (i64, Seq<u8>),
                _,
            >(e),
        },
{
    let ghost w = buf@.subrange(pos as int, end as int);
    if end - pos < 4 {
        return Err(DecodeError::Truncated);
    }
    let oid = be_u32_at(buf, pos);
    proof {
        lemma_sub_of_sub(buf@, pos as int, end as int, 0, 4);
    }
    if oid != OID_INT8 {
        return Err(DecodeError::TypeMismatch);
    }
    if end - pos < 8 {
        return Err(DecodeError::Truncated);
    }
    let lenu = be_u32_at(buf, pos + 4);
    proof {
        lemma_sub_of_sub(buf@, pos as int, end as int, 4, 8);
    }
    if lenu != 8 {
        return Err(DecodeError::Malformed);
    }
    if end - pos < 16 {
        return Err(DecodeError::Truncated);
    }
    let u = be_u64_at(buf, pos + 8);
    proof {
        lemma_sub_of_sub(buf@, pos as int, end as int, 8, 16);
        lemma_skip_of_sub(buf@, pos as int, end as int, 16);
    }
    let v = i64_from_u64(u);
    Ok((v, pos + 16))
}

/// Decodes a text field at `pos`, within the record that ends at `end`.
/// Agrees exactly with [`spec_parse_text_field`] on the window.
fn parse_text_field(buf: &[u8], pos: usize, end: usize) -> (r: Result<(String, usize), DecodeError>)
    requires
        pos <= end <= buf@.len(),
    ensures
        match r {
            Ok((s, p2)) => pos <= p2 <= end && spec_parse_text_field(
                buf@.subrange(pos as int, end as int),
            ) == Ok::<_, DecodeError>((s@, buf@.subrange(p2 as int, end as int))),
            Err(e) => spec_parse_text_field(buf@.subrange(pos as int, end as int)) == Err::<
                (Seq<char>, Seq<u8>),
                _,
            >(e),
        },
{
    let ghost w = buf@.subrange(pos as int, end as int);
    if end - pos < 4 {
        return Err(DecodeError::Truncated);
    }
    let oid = be_u32_at(buf, pos);
    proof {
        lemma_sub_of_sub(buf@, pos as int, end as int, 0, 4);
    }
    if oid != OID_TEXT && oid != OID_VARCHAR {
        return Err(DecodeError::TypeMismatch);
    }
    if end - pos < 8 {
        return Err(DecodeError::Truncated);
    }
    let lenu = be_u32_at(buf, pos + 4);
    proof {
        lemma_sub_of_sub(buf@, pos as int, end as int, 4, 8);
    }
    if lenu >= 0x8000_0000u32 {
        return Err(DecodeError::Malformed);
    }
    let n = lenu as usize;
    if end - pos - 8 < n {
        return Err(DecodeError::Truncated);
    }
    let data = vstd::slice::slice_subrange(buf, pos + 8, pos + 8 + n);
    proof {
        lemma_sub_of_sub(buf@, pos as int, end as int, 8, 8 + n as int);
        lemma_skip_of_sub(buf@, pos as int, end as int, 8 + n as int);
    }
    match core::str::from_utf8(data) {
        Ok(s) => {
            proof {
                vstd::utf8::encode_utf8_decode_utf8(s@);
            }
            Ok((s.to_owned(), pos + 8 + n))
        },
        Err(_) => Err(DecodeError::Malformed),
    }
}

/// Decodes a boolean field at `pos`, within the record that ends at `end`.
/// Agrees exactly with [`spec_parse_bool_field`] on the window.
fn parse_bool_field(buf: &[u8], pos: usize, end: usize) -> (r: Result<(bool, usize), DecodeError>)
    requires
        pos <= end <= buf@.len(),
    ensures
        match r {
            Ok((v, p2)) => pos <= p2 <= end && spec_parse_bool_field(
                buf@.subrange(pos as int, end as int),
            ) == Ok::<_, DecodeError>((v, buf@.subrange(p2 as int, end as int))),
            Err(e) => spec_parse_bool_field(buf@.subrange(pos as int, end as int)) == Err::<
                (bool, Seq<u8>),
                _,
            >(e),
        },
{
    let ghost w = buf@.subrange(pos as int, end as int);
    if end - pos < 4 {
        return Err(DecodeError::Truncated);
    }
    let oid = be_u32_at(buf, pos);
    proof {
        lemma_sub_of_sub(buf@, pos as int, end as int, 0, 4);
    }
    if oid != OID_BOOL {
        return Err(DecodeError::TypeMismatch);
    }
    if end - pos < 8 {
        return Err(DecodeError::Truncated);
    }
    let lenu = be_u32_at(buf, pos + 4);
    proof {
        lemma_sub_of_sub(buf@, pos as int, end as int, 4, 8);
    }
    if lenu != 1 {
        return Err(DecodeError::Malformed);
    }
    if end - pos < 9 {
        return Err(DecodeError::Truncated);
    }
    let byte = buf[pos + 8];
    proof {
        assert(w[8] == byte);
        lemma_skip_of_sub(buf@, pos as int, end as int, 9);
    }
    Ok((byte != 0, pos + 9))
}

/// Decodes one domain child record from `buf[pos..end]`.  Agrees exactly
/// with [`spec_parse_domain_record`] on the window.
fn parse_domain_record(buf: &[u8], pos: usize, end: usize) -> (r: Result<DomainAsRel, DecodeError>)
    requires
        pos <= end <= buf@.len(),
    ensures
        match r {
            Ok(d) => spec_parse_domain_record(buf@.subrange(pos as int, end as int)) == Ok::<
                _,
                DecodeError,
            >(d@),
            Err(e) => spec_parse_domain_record(buf@.subrange(pos as int, end as int)) == Err::<
                DomainAsRelV,
                _,
            >(e),
        },
{
    let ghost w = buf@.subrange(pos as int, end as int);
    if end - pos < 4 {
        return Err(DecodeError::Truncated);
    }
    proof {
        lemma_skip_of_sub(buf@, pos as int, end as int, 4);
    }
    let (domain_id, p1) = match parse_int8_field(buf, pos + 4, end) {
        Ok(v) => v,
        Err(e) => {
            return Err(e);
        },
    };
    let (domain, p2) = match parse_text_field(buf, p1, end) {
        Ok(v) => v,
        Err(e) => {
            return Err(e);
        },
    };
    let (status, _p3) = match parse_text_field(buf, p2, end) {
        Ok(v) => v,
        Err(e) => {
            return Err(e);
        },
    };
    Ok(DomainAsRel { domain_id, domain, status })
}

/// Decodes one page child record from `buf[pos..end]`.  Agrees exactly with
/// [`spec_parse_page_record`] on the window.
fn parse_page_record(buf: &[u8], pos: usize, end: usize) -> (r: Result<PageAsRel, DecodeError>)
    requires
        pos <= end <= buf@.len(),
    ensures
        match r {
            Ok(p) => spec_parse_page_record(buf@.subrange(pos as int, end as int)) == Ok::<
                _,
                DecodeError,
            >(p@),
            Err(e) => spec_parse_page_record(buf@.subrange(pos as int, end as int)) == Err::<
                PageAsRelV,
                _,
            >(e),
        },
{
    let ghost w = buf@.subrange(pos as int, end as int);
    if end - pos < 4 {
        return Err(DecodeError::Truncated);
    }
    proof {
        lemma_skip_of_sub(buf@, pos as int, end as int, 4);
    }
    let (page_id, p1) = match parse_int8_field(buf, pos + 4, end) {
        Ok(v) => v,
        Err(e) => {
            return Err(e);
        },
    };
    let (page_type, p2) = match parse_text_field(buf, p1, end) {
        Ok(v) => v,
        Err(e) => {
            return Err(e);
        },
    };
    let (content_id, p3) = match parse_text_field(buf, p2, end) {
        Ok(v) => v,
        Err(e) => {
            return Err(e);
        },
    };
    let (title, p4) = match parse_text_field(buf, p3, end) {
        Ok(v) => v,
        Err(e) => {
            return Err(e);
        },
    };
    let (is_home_page, p5) = match parse_bool_field(buf, p4, end) {
        Ok(v) => v,
        Err(e) => {
            return Err(e);
        },
    };
    let (path, _p6) = match parse_text_field(buf, p5, end) {
        Ok(v) => v,
        Err(e) => {
            return Err(e);
        },
    };
    Ok(PageAsRel { page_id, page_type, content_id, title, is_home_page, path })
}

/// Decodes one domain child record from a whole buffer, as handed out by the
/// driver for a single composite value.
pub fn decode_domain_record(buf: &[u8]) -> (r: Result<DomainAsRel, DecodeError>)
    ensures
        match r {
            Ok(d) => spec_parse_domain_record(buf@) == Ok::<_, DecodeError>(d@),
            Err(e) => spec_parse_domain_record(buf@) == Err::<DomainAsRelV, _>(e),
        },
{
    proof {
        assert(buf@.subrange(0, buf@.len() as int) =~= buf@);
    }
    parse_domain_record(buf, 0, buf.len())
}

/// Decodes one page child record from a whole buffer.
pub fn decode_page_record(buf: &[u8]) -> (r: Result<PageAsRel, DecodeError>)
    ensures
        match r {
            Ok(p) => spec_parse_page_record(buf@) == Ok::<_, DecodeError>(p@),
            Err(e) => spec_parse_page_record(buf@) == Err::<PageAsRelV, _>(e),
        },
{
    proof {
        assert(buf@.subrange(0, buf@.len() as int) =~= buf@);
    }
    parse_page_record(buf, 0, buf.len())
}

/// The element payloads denoted by a list of spans over `b`; `None` spans
/// are NULL elements.
pub open spec fn spec_span_items(spans: Seq<Option<(usize, usize)>>, b: Seq<u8>) -> Seq<
    Option<Seq<u8>>,
> {
    Seq::new(
        spans.len(),
        |i: int|
            match spans[i] {
                Some(p) => Some(b.subrange(p.0 as int, p.1 as int)),
                None => None,
            },
    )
}

/// Every span lies inside `b` in order.
pub open spec fn spec_spans_wf(spans: Seq<Option<(usize, usize)>>, b: Seq<u8>) -> bool {
    forall|i: int|
        0 <= i < spans.len() ==> ((#[trigger] spans[i]) matches Some(p) ==> p.0 <= p.1 <= b.len())
}

/// Locates the elements of an array value, returning the byte span of each
/// non-NULL element.  Agrees exactly with [`spec_parse_array`].
fn parse_array_spans(buf: &[u8]) -> (r: Result<Vec<Option<(usize, usize)>>, DecodeError>)
    ensures
        match r {
            Ok(spans) => spec_parse_array(buf@) == Ok::<_, DecodeError>(
                spec_span_items(spans@, buf@),
            ) && spec_spans_wf(spans@, buf@),
            Err(e) => spec_parse_array(buf@) == Err::<Seq<Option<Seq<u8>>>, _>(e),
        },
{
    if buf.len() < 12 {
        return Err(DecodeError::Truncated);
    }
    let ndim = be_u32_at(buf, 0);
    if ndim == 0 {
        let spans: Vec<Option<(usize, usize)>> = Vec::new();
        proof {
            assert(spec_span_items(spans@, buf@) =~= Seq::<Option<Seq<u8>>>::empty());
        }
        return Ok(spans);
    }
    if ndim != 1 {
        return Err(DecodeError::UnsupportedShape);
    }
    if buf.len() < 20 {
        return Err(DecodeError::Truncated);
    }
    let count = be_u32_at(buf, 12);
    if count >= 0x8000_0000u32 {
        return Err(DecodeError::Malformed);
    }
    let mut spans: Vec<Option<(usize, usize)>> = Vec::new();
    let mut pos: usize = 20;
    let mut k: u32 = 0;
    while k < count
        invariant
            buf@.len() >= 20,
            spec_u32_of_be(buf@.subrange(0, 4)) == 1,
            spec_u32_of_be(buf@.subrange(12, 16)) == count,
            count < 0x8000_0000u32,
            20 <= pos <= buf@.len(),
            k <= count,
            spec_spans_wf(spans@, buf@),
            match spec_parse_array_items(buf@.skip(pos as int), count - k) {
                Ok(rest) => spec_parse_array_items(buf@.skip(20), count as int) == Ok::<
                    _,
                    DecodeError,
                >(spec_span_items(spans@, buf@) + rest),
                Err(e) => spec_parse_array_items(buf@.skip(20), count as int) == Err::<
                    Seq<Option<Seq<u8>>>,
                    _,
                >(e),
            },
        decreases count - k,
    {
        let ghost w = buf@.skip(pos as int);
        if buf.len() - pos < 4 {
            return Err(DecodeError::Truncated);
        }
        let lenu = be_u32_at(buf, pos);
        proof {
            assert(w.subrange(0, 4) =~= buf@.subrange(pos as int, pos as int + 4));
        }
        if lenu == LEN_NULL {
            proof {
                assert(w.skip(4) =~= buf@.skip(pos as int + 4));
            }
            let ghost old_spans = spans@;
            spans.push(None);
            pos = pos + 4;
            k = k + 1;
            proof {
                match spec_parse_array_items(buf@.skip(pos as int), count - k) {
                    Ok(rest) => {
                        assert(spec_span_items(spans@, buf@) + rest =~= spec_span_items(
                            old_spans,
                            buf@,
                        ) + (seq![Option::<Seq<u8>>::None] + rest));
                    },
                    Err(_) => {},
                }
            }
        } else if lenu >= 0x8000_0000u32 {
            return Err(DecodeError::Malformed);
        } else {
            let n = lenu as usize;
            if buf.len() - pos - 4 < n {
                return Err(DecodeError::Truncated);
            }
            proof {
                assert(w.subrange(4, 4 + n as int) =~= buf@.subrange(
                    pos as int + 4,
                    pos as int + 4 + n as int,
                ));
                assert(w.skip(4 + n as int) =~= buf@.skip(pos as int + 4 + n as int));
            }
            let ghost old_spans = spans@;
            spans.push(Some((pos + 4, pos + 4 + n)));
            pos = pos + 4 + n;
            k = k + 1;
            proof {
                match spec_parse_array_items(buf@.skip(pos as int), count - k) {
                    Ok(rest) => {
                        assert(spec_span_items(spans@, buf@) + rest =~= spec_span_items(
                            old_spans,
                            buf@,
                        ) + (seq![
                            Some(
                                buf@.subrange(
                                    pos as int - n as int,
                                    pos as int,
                                ),
                            ),
                        ] + rest));
                    },
                    Err(_) => {},
                }
            }
        }
    }
    proof {
        assert(spec_span_items(spans@, buf@) + Seq::<Option<Seq<u8>>>::empty() =~= spec_span_items(
            spans@,
            buf@,
        ));
    }
    Ok(spans)
}

/// Concatenating element lists concatenates the recovered records.
proof fn lemma_collect_rows_concat<T>(
    a: Seq<Option<Seq<u8>>>,
    b: Seq<Option<Seq<u8>>>,
    parse: spec_fn(Seq<u8>) -> Result<T, DecodeError>,
)
    ensures
        spec_collect_rows(a + b, parse) == spec_collect_rows(a, parse) + spec_collect_rows(
            b,
            parse,
        ),
    decreases a.len(),
{
    if a.len() == 0 {
        assert(a + b =~= b);
        assert(spec_collect_rows(a, parse) + spec_collect_rows(b, parse) =~= spec_collect_rows(
            b,
            parse,
        ));
    } else {
        assert((a + b).skip(1) =~= a.skip(1) + b);
        lemma_collect_rows_concat(a.skip(1), b, parse);
        assert((a + b)[0] == a[0]);
        match a[0] {
            None => {},
            Some(payload) => {
                match parse(payload) {
                    Ok(v) => {
                        assert(seq![v] + (spec_collect_rows(a.skip(1), parse) + spec_collect_rows(
                            b,
                            parse,
                        )) =~= (seq![v] + spec_collect_rows(a.skip(1), parse))
                            + spec_collect_rows(b, parse));
                    },
                    Err(_) => {},
                }
            },
        }
    }
}

/// The spec-level parser of one domain child record, as a function value.
pub open spec fn spec_domain_parser() -> spec_fn(Seq<u8>) -> Result<DomainAsRelV, DecodeError> {
    |p: Seq<u8>| spec_parse_domain_record(p)
}

/// The spec-level parser of one page child record, as a function value.
pub open spec fn spec_page_parser() -> spec_fn(Seq<u8>) -> Result<PageAsRelV, DecodeError> {
    |p: Seq<u8>| spec_parse_page_record(p)
}

/// Decodes a domains aggregate column: the array structure is validated,
/// NULL or undecodable elements are dropped, and the surviving records are
/// returned in order.  Agrees exactly with [`spec_decode_domain_array`].
pub fn decode_domain_array(buf: &[u8]) -> (r: Result<DomainAsRelVec, DecodeError>)
    ensures
        match r {
            Ok(v) => spec_decode_domain_array(buf@) == Ok::<_, DecodeError>(v.0.deep_view()),
            Err(e) => spec_decode_domain_array(buf@) == Err::<Seq<DomainAsRelV>, _>(e),
        },
{
    let spans = match parse_array_spans(buf) {
        Ok(s) => s,
        Err(e) => {
            return Err(e);
        },
    };
    let ghost items = spec_span_items(spans@, buf@);
    let ghost parse = spec_domain_parser();
    proof {
        assert(spec_decode_domain_array(buf@) == Ok::<_, DecodeError>(
            spec_collect_rows(items, parse),
        ));
    }
    let mut rows: Vec<DomainAsRel> = Vec::new();
    let n = spans.len();
    let mut i: usize = 0;
    while i < n
        invariant
            n == spans@.len(),
            i <= n,
            spec_spans_wf(spans@, buf@),
            items == spec_span_items(spans@, buf@),
            parse == spec_domain_parser(),
            rows.deep_view() == spec_collect_rows(items.take(i as int), parse),
        decreases n - i,
    {
        let ghost prev = rows.deep_view();
        let ghost item = items[i as int];
        proof {
            assert(items.take(i as int + 1) =~= items.take(i as int) + seq![item]);
            lemma_collect_rows_concat(items.take(i as int), seq![item], parse);
            assert(seq![item].skip(1) =~= Seq::<Option<Seq<u8>>>::empty());
            assert(spec_collect_rows(Seq::<Option<Seq<u8>>>::empty(), parse)
                =~= Seq::<DomainAsRelV>::empty());
        }
        match spans[i] {
            Some(span) => {
                proof {
                    assert(item == Some(buf@.subrange(span.0 as int, span.1 as int)));
                }
                match parse_domain_record(buf, span.0, span.1) {
                    Ok(d) => {
                        proof {
                            assert(parse(buf@.subrange(span.0 as int, span.1 as int))
                                == Ok::<_, DecodeError>(d@));
                            assert(seq![d@] + Seq::<DomainAsRelV>::empty() =~= seq![d@]);
                            assert(spec_collect_rows(seq![item], parse) =~= seq![d@]);
                        }
                        rows.push(d);
                        proof {
                            assert(rows.deep_view() =~= prev + seq![d@]);
                        }
                    },
                    Err(e) => {
                        proof {
                            assert(parse(buf@.subrange(span.0 as int, span.1 as int))
                                == Err::<DomainAsRelV, _>(e));
                            assert(spec_collect_rows(seq![item], parse)
                                =~= Seq::<DomainAsRelV>::empty());
                            assert(prev + Seq::<DomainAsRelV>::empty() =~= prev);
                        }
                    },
                }
            },
            None => {
                proof {
                    assert(item is None);
                    assert(spec_collect_rows(seq![item], parse) =~= Seq::<DomainAsRelV>::empty());
                    assert(prev + Seq::<DomainAsRelV>::empty() =~= prev);
                }
            },
        }
        i += 1;
    }
    proof {
        assert(items.take(n as int) =~= items);
    }
    Ok(DomainAsRelVec(rows))
}

/// Decodes a pages aggregate column.  Agrees exactly with
/// [`spec_decode_page_array`].
pub fn decode_page_array(buf: &[u8]) -> (r: Result<PageAsRelVec, DecodeError>)
    ensures
        match r {
            Ok(v) => spec_decode_page_array(buf@) == Ok::<_, DecodeError>(v.0.deep_view()),
            Err(e) => spec_decode_page_array(buf@) == Err::<Seq<PageAsRelV>, _>(e),
        },
{
    let spans = match parse_array_spans(buf) {
        Ok(s) => s,
        Err(e) => {
            return Err(e);
        },
    };
    let ghost items = spec_span_items(spans@, buf@);
    let ghost parse = spec_page_parser();
    proof {
        assert(spec_decode_page_array(buf@) == Ok::<_, DecodeError>(
            spec_collect_rows(items, parse),
        ));
    }
    let mut rows: Vec<PageAsRel> = Vec::new();
    let n = spans.len();
    let mut i: usize = 0;
    while i < n
        invariant
            n == spans@.len(),
            i <= n,
            spec_spans_wf(spans@, buf@),
            items == spec_span_items(spans@, buf@),
            parse == spec_page_parser(),
            rows.deep_view() == spec_collect_rows(items.take(i as int), parse),
        decreases n - i,
    {
        let ghost prev = rows.deep_view();
        let ghost item = items[i as int];
        proof {
            assert(items.take(i as int + 1) =~= items.take(i as int) + seq![item]);
            lemma_collect_rows_concat(items.take(i as int), seq![item], parse);
            assert(seq![item].skip(1) =~= Seq::<Option<Seq<u8>>>::empty());
            assert(spec_collect_rows(Seq::<Option<Seq<u8>>>::empty(), parse)
                =~= Seq::<PageAsRelV>::empty());
        }
        match spans[i] {
            Some(span) => {
                proof {
                    assert(item == Some(buf@.subrange(span.0 as int, span.1 as int)));
                }
                match parse_page_record(buf, span.0, span.1) {
                    Ok(p) => {
                        proof {
                            assert(parse(buf@.subrange(span.0 as int, span.1 as int))
                                == Ok::<_, DecodeError>(p@));
                            assert(seq![p@] + Seq::<PageAsRelV>::empty() =~= seq![p@]);
                            assert(spec_collect_rows(seq![item], parse) =~= seq![p@]);
                        }
                        rows.push(p);
                        proof {
                            assert(rows.deep_view() =~= prev + seq![p@]);
                        }
                    },
                    Err(e) => {
                        proof {
                            assert(parse(buf@.subrange(span.0 as int, span.1 as int))
                                == Err::<PageAsRelV, _>(e));
                            assert(spec_collect_rows(seq![item], parse)
                                =~= Seq::<PageAsRelV>::empty());
                            assert(prev + Seq::<PageAsRelV>::empty() =~= prev);
                        }
                    },
                }
            },
            None => {
                proof {
                    assert(item is None);
                    assert(spec_collect_rows(seq![item], parse) =~= Seq::<PageAsRelV>::empty());
                    assert(prev + Seq::<PageAsRelV>::empty() =~= prev);
                }
            },
        }
        i += 1;
    }
    proof {
        assert(items.take(n as int) =~= items);
    }
    Ok(PageAsRelVec(rows))
}

// ------------------------------------------------------------------
// Encoding
// ------------------------------------------------------------------
/// A text value small enough that its length field and every enclosing
/// length field fit the wire's signed 4-byte lengths.
pub open spec fn spec_text_fits(s: Seq<char>) -> bool {
    encode_utf8(s).len() <= 0x1000_0000
}

/// The wire encoding of an 8-byte-integer field.
pub open spec fn spec_enc_int8_field(x: i64) -> Seq<u8> {
    spec_be_u32(OID_INT8) + spec_be_u32(8) + spec_be_u64(spec_u64_rep(x))
}

/// The wire encoding of a text field.
pub open spec fn spec_enc_text_field(s: Seq<char>) -> Seq<u8>
    recommends
        spec_text_fits(s),
{
    spec_be_u32(OID_TEXT) + spec_be_u32(encode_utf8(s).len() as u32) + encode_utf8(s)
}

/// The wire encoding of a boolean field.
pub open spec fn spec_enc_bool_field(v: bool) -> Seq<u8> {
    spec_be_u32(OID_BOOL) + spec_be_u32(1) + seq![if v { 1u8 } else { 0u8 }]
}

/// The wire encoding of a domain child record.
pub open spec fn spec_enc_domain_record(d: DomainAsRelV) -> Seq<u8> {
    spec_be_u32(3) + spec_enc_int8_field(d.domain_id) + spec_enc_text_field(d.domain)
        + spec_enc_text_field(d.status)
}

/// A domain child record whose encoding fits the wire's length fields.
pub open spec fn spec_domain_record_fits(d: DomainAsRelV) -> bool {
    spec_text_fits(d.domain) && spec_text_fits(d.status)
}

/// The wire encoding of a page child record.
pub open spec fn spec_enc_page_record(p: PageAsRelV) -> Seq<u8> {
    spec_be_u32(6) + spec_enc_int8_field(p.page_id) + spec_enc_text_field(p.page_type)
        + spec_enc_text_field(p.content_id) + spec_enc_text_field(p.title) + spec_enc_bool_field(
        p.is_home_page,
    ) + spec_enc_text_field(p.path)
}

/// A page child record whose encoding fits the wire's length fields.
pub open spec fn spec_page_record_fits(p: PageAsRelV) -> bool {
    spec_text_fits(p.page_type) && spec_text_fits(p.content_id) && spec_text_fits(p.title)
        && spec_text_fits(p.path)
}

/// The wire encoding of the elements of a one-dimensional array.
pub open spec fn spec_enc_array_items(payloads: Seq<Seq<u8>>) -> Seq<u8>
    decreases payloads.len(),
{
    if payloads.len() == 0 {
        Seq::empty()
    } else {
        spec_be_u32(payloads[0].len() as u32) + payloads[0] + spec_enc_array_items(
            payloads.skip(1),
        )
    }
}

/// The wire encoding of an array of record payloads.  An empty array is
/// encoded with a dimension count of zero and no dimension header; a
/// non-empty one with a single dimension of lower bound 1.
pub open spec fn spec_enc_array(payloads: Seq<Seq<u8>>) -> Seq<u8> {
    if payloads.len() == 0 {
        spec_be_u32(0) + spec_be_u32(0) + spec_be_u32(OID_RECORD)
    } else {
        spec_be_u32(1) + spec_be_u32(0) + spec_be_u32(OID_RECORD) + spec_be_u32(
            payloads.len() as u32,
        ) + spec_be_u32(1) + spec_enc_array_items(payloads)
    }
}

/// The wire encoding of a domains aggregate column.
pub open spec fn spec_enc_domain_array(rows: Seq<DomainAsRelV>) -> Seq<u8> {
    spec_enc_array(rows.map_values(|d: DomainAsRelV| spec_enc_domain_record(d)))
}

/// The wire encoding of a pages aggregate column.
pub open spec fn spec_enc_page_array(rows: Seq<PageAsRelV>) -> Seq<u8> {
    spec_enc_array(rows.map_values(|p: PageAsRelV| spec_enc_page_record(p)))
}

/// Appends the wire encoding of an 8-byte-integer field.
fn push_int8_field(out: &mut Vec<u8>, x: i64)
    ensures
        final(out)@ == old(out)@ + spec_enc_int8_field(x),
{
    push_be_u32(out, OID_INT8);
    push_be_u32(out, 8);
    let u = u64_from_i64(x);
    push_be_u64(out, u);
    proof {
        assert(out@ =~= old(out)@ + spec_enc_int8_field(x));
    }
}

/// Appends the wire encoding of a text field.
fn push_text_field(out: &mut Vec<u8>, s: &str)
    requires
        spec_text_fits(s@),
    ensures
        final(out)@ == old(out)@ + spec_enc_text_field(s@),
{
    push_be_u32(out, OID_TEXT);
    let bytes = s.as_bytes();
    push_be_u32(out, bytes.len() as u32);
    push_bytes(out, bytes);
    proof {
        assert(out@ =~= old(out)@ + spec_enc_text_field(s@));
    }
}

/// Appends the wire encoding of a boolean field.
fn push_bool_field(out: &mut Vec<u8>, v: bool)
    ensures
        final(out)@ == old(out)@ + spec_enc_bool_field(v),
{
    push_be_u32(out, OID_BOOL);
    push_be_u32(out, 1);
    out.push(if v {
        1
    } else {
        0
    });
    proof {
        assert(out@ =~= old(out)@ + spec_enc_bool_field(v));
    }
}

/// Encodes one domain child record in the engine's composite wire format.
pub fn encode_domain_record(d: &DomainAsRel) -> (r: Vec<u8>)
    requires
        spec_domain_record_fits(d@),
    ensures
        r@ == spec_enc_domain_record(d@),
{
    let mut out: Vec<u8> = Vec::new();
    push_be_u32(&mut out, 3);
    push_int8_field(&mut out, d.domain_id);
    push_text_field(&mut out, d.domain.as_str());
    push_text_field(&mut out, d.status.as_str());
    proof {
        assert(out@ =~= spec_enc_domain_record(d@));
    }
    out
}

/// Encodes one page child record in the engine's composite wire format.
pub fn encode_page_record(p: &PageAsRel) -> (r: Vec<u8>)
    requires
        spec_page_record_fits(p@),
    ensures
        r@ == spec_enc_page_record(p@),
{
    let mut out: Vec<u8> = Vec::new();
    push_be_u32(&mut out, 6);
    push_int8_field(&mut out, p.page_id);
    push_text_field(&mut out, p.page_type.as_str());
    push_text_field(&mut out, p.content_id.as_str());
    push_text_field(&mut out, p.title.as_str());
    push_bool_field(&mut out, p.is_home_page);
    push_text_field(&mut out, p.path.as_str());
    proof {
        assert(out@ =~= spec_enc_page_record(p@));
    }
    out
}

/// Concatenating payload lists concatenates their element encodings.
proof fn lemma_enc_items_concat(a: Seq<Seq<u8>>, b: Seq<Seq<u8>>)
    ensures
        spec_enc_array_items(a + b) == spec_enc_array_items(a) + spec_enc_array_items(b),
    decreases a.len(),
{
    if a.len() == 0 {
        assert(a + b =~= b);
        assert(spec_enc_array_items(a) + spec_enc_array_items(b) =~= spec_enc_array_items(b));
    } else {
        assert((a + b).skip(1) =~= a.skip(1) + b);
        lemma_enc_items_concat(a.skip(1), b);
        assert((a + b)[0] == a[0]);
        assert(spec_be_u32(a[0].len() as u32) + a[0] + (spec_enc_array_items(a.skip(1))
            + spec_enc_array_items(b)) =~= (spec_be_u32(a[0].len() as u32) + a[0]
            + spec_enc_array_items(a.skip(1))) + spec_enc_array_items(b));
    }
}

/// Encodes already-encoded record payloads as an array column.
fn encode_array(payloads: &Vec<Vec<u8>>) -> (r: Vec<u8>)
    requires
        payloads@.len() < 0x8000_0000,
        forall|i: int|
            0 <= i < payloads@.len() ==> (#[trigger] payloads@[i])@.len() < 0x8000_0000,
    ensures
        r@ == spec_enc_array(payloads.deep_view()),
{
    let ghost ps = payloads.deep_view();
    let n = payloads.len();
    let mut out: Vec<u8> = Vec::new();
    if n == 0 {
        push_be_u32(&mut out, 0);
        push_be_u32(&mut out, 0);
        push_be_u32(&mut out, OID_RECORD);
        proof {
            assert(out@ =~= spec_enc_array(ps));
        }
        return out;
    }
    push_be_u32(&mut out, 1);
    push_be_u32(&mut out, 0);
    push_be_u32(&mut out, OID_RECORD);
    push_be_u32(&mut out, n as u32);
    push_be_u32(&mut out, 1);
    let ghost header = out@;
    let mut i: usize = 0;
    while i < n
        invariant
            n == payloads@.len(),
            ps == payloads.deep_view(),
            i <= n,
            forall|j: int|
                0 <= j < payloads@.len() ==> (#[trigger] payloads@[j])@.len() < 0x8000_0000,
            out@ == header + spec_enc_array_items(ps.take(i as int)),
        decreases n - i,
    {
        let ghost prev = out@;
        let item = &payloads[i];
        push_be_u32(&mut out, item.len() as u32);
        push_bytes(&mut out, item.as_slice());
        proof {
            assert(item@ == ps[i as int]);
            assert(ps.take(i as int + 1) =~~= ps.take(i as int) + seq![ps[i as int]]);
            lemma_enc_items_concat(ps.take(i as int), seq![ps[i as int]]);
            assert(seq![ps[i as int]].skip(1) =~~= Seq::<Seq<u8>>::empty());
            assert(spec_enc_array_items(Seq::<Seq<u8>>::empty()) == Seq::<u8>::empty());
            assert(spec_enc_array_items(seq![ps[i as int]]) =~= spec_be_u32(
                ps[i as int].len() as u32,
            ) + ps[i as int]);
            assert(out@ =~= header + spec_enc_array_items(ps.take(i as int + 1)));
        }
        i += 1;
    }
    proof {
        assert(ps.take(n as int) =~= ps);
        assert(out@ =~= spec_enc_array(ps));
    }
    out
}

/// Encodes a list of domain child records as a domains aggregate column.
pub fn encode_domain_array(rows: &Vec<DomainAsRel>) -> (r: Vec<u8>)
    requires
        rows@.len() < 0x8000_0000,
        forall|i: int|
            0 <= i < rows@.len() ==> spec_domain_record_fits((#[trigger] rows@[i])@),
    ensures
        r@ == spec_enc_domain_array(rows.deep_view()),
{
    let mut payloads: Vec<Vec<u8>> = Vec::new();
    let n = rows.len();
    let mut i: usize = 0;
    while i < n
        invariant
            n == rows@.len(),
            i <= n,
            forall|j: int|
                0 <= j < rows@.len() ==> spec_domain_record_fits((#[trigger] rows@[j])@),
            payloads@.len() == i,
            forall|j: int|
                0 <= j < i ==> (#[trigger] payloads@[j])@ == spec_enc_domain_record(rows@[j]@),
        decreases n - i,
    {
        let rec = encode_domain_record(&rows[i]);
        payloads.push(rec);
        i += 1;
    }
    proof {
        assert forall|j: int| 0 <= j < payloads@.len() implies (#[trigger] payloads@[j])@.len()
            < 0x8000_0000 by {
            assert(payloads@[j]@ == spec_enc_domain_record(rows@[j]@));
        }
    }
    let r = encode_array(&payloads);
    proof {
        assert(payloads.deep_view() =~~= rows.deep_view().map_values(
            |d: DomainAsRelV| spec_enc_domain_record(d),
        ));
    }
    r
}

/// Encodes a list of page child records as a pages aggregate column.
pub fn encode_page_array(rows: &Vec<PageAsRel>) -> (r: Vec<u8>)
    requires
        rows@.len() < 0x8000_0000,
        forall|i: int| 0 <= i < rows@.len() ==> spec_page_record_fits((#[trigger] rows@[i])@),
    ensures
        r@ == spec_enc_page_array(rows.deep_view()),
{
    let mut payloads: Vec<Vec<u8>> = Vec::new();
    let n = rows.len();
    let mut i: usize = 0;
    while i < n
        invariant
            n == rows@.len(),
            i <= n,
            forall|j: int| 0 <= j < rows@.len() ==> spec_page_record_fits((#[trigger] rows@[j])@),
            payloads@.len() == i,
            forall|j: int|
                0 <= j < i ==> (#[trigger] payloads@[j])@ == spec_enc_page_record(rows@[j]@),
        decreases n - i,
    {
        let rec = encode_page_record(&rows[i]);
        payloads.push(rec);
        i += 1;
    }
    proof {
        assert forall|j: int| 0 <= j < payloads@.len() implies (#[trigger] payloads@[j])@.len()
            < 0x8000_0000 by {
            assert(payloads@[j]@ == spec_enc_page_record(rows@[j]@));
        }
    }
    let r = encode_array(&payloads);
    proof {
        assert(payloads.deep_view() =~~= rows.deep_view().map_values(
            |p: PageAsRelV| spec_enc_page_record(p),
        ));
    }
    r
}

// ------------------------------------------------------------------
// Round trip: decoding an encoding yields the records back
// ------------------------------------------------------------------
/// Parsing an encoded 8-byte-integer field succeeds and consumes exactly the
/// encoding.
proof fn lemma_parse_enc_int8(x: i64, rest: Seq<u8>)
    ensures
        spec_parse_int8_field(spec_enc_int8_field(x) + rest) == Ok::<_, DecodeError>((x, rest)),
{
    let e = spec_enc_int8_field(x) + rest;
    lemma_be_u32_round_trip(OID_INT8);
    lemma_be_u32_round_trip(8);
    lemma_be_u64_round_trip(spec_u64_rep(x));
    assert(e.subrange(0, 4) =~= spec_be_u32(OID_INT8));
    assert(e.subrange(4, 8) =~= spec_be_u32(8));
    assert(e.subrange(8, 16) =~= spec_be_u64(spec_u64_rep(x)));
    assert(e.skip(16) =~= rest);
}

/// Parsing an encoded text field succeeds and consumes exactly the encoding.
proof fn lemma_parse_enc_text(t: Seq<char>, rest: Seq<u8>)
    requires
        spec_text_fits(t),
    ensures
        spec_parse_text_field(spec_enc_text_field(t) + rest) == Ok::<_, DecodeError>((t, rest)),
{
    let data = encode_utf8(t);
    let e = spec_enc_text_field(t) + rest;
    lemma_be_u32_round_trip(OID_TEXT);
    lemma_be_u32_round_trip(data.len() as u32);
    assert(e.subrange(0, 4) =~= spec_be_u32(OID_TEXT));
    assert(e.subrange(4, 8) =~= spec_be_u32(data.len() as u32));
    assert(e.subrange(8, 8 + data.len() as int) =~= data);
    assert(e.skip(8 + data.len() as int) =~= rest);
    vstd::utf8::encode_utf8_valid_utf8(t);
    vstd::utf8::encode_utf8_decode_utf8(t);
}

/// Parsing an encoded boolean field succeeds and consumes exactly the
/// encoding.
proof fn lemma_parse_enc_bool(v: bool, rest: Seq<u8>)
    ensures
        spec_parse_bool_field(spec_enc_bool_field(v) + rest) == Ok::<_, DecodeError>((v, rest)),
{
    let e = spec_enc_bool_field(v) + rest;
    lemma_be_u32_round_trip(OID_BOOL);
    lemma_be_u32_round_trip(1);
    assert(e.subrange(0, 4) =~= spec_be_u32(OID_BOOL));
    assert(e.subrange(4, 8) =~= spec_be_u32(1));
    assert(e[8] == if v {
        1u8
    } else {
        0u8
    });
    assert(e.skip(9) =~= rest);
}

/// Parsing an encoded domain child record yields the record back.
#[verifier::rlimit(100)]
#[verifier::spinoff_prover]
pub proof fn lemma_parse_enc_domain_record(d: DomainAsRelV)
    requires
        spec_domain_record_fits(d),
    ensures
        spec_parse_domain_record(spec_enc_domain_record(d)) == Ok::<_, DecodeError>(d),
{
    let e = spec_enc_domain_record(d);
    let r2 = spec_enc_text_field(d.status);
    let r1 = spec_enc_text_field(d.domain) + r2;
    assert(e.skip(4) =~= spec_enc_int8_field(d.domain_id) + r1);
    lemma_parse_enc_int8(d.domain_id, r1);
    assert(spec_parse_int8_field(e.skip(4)) == Ok::<_, DecodeError>((d.domain_id, r1)));
    lemma_parse_enc_text(d.domain, r2);
    assert(spec_parse_text_field(r1) == Ok::<_, DecodeError>((d.domain, r2)));
    assert(r2 =~= spec_enc_text_field(d.status) + Seq::<u8>::empty());
    lemma_parse_enc_text(d.status, Seq::<u8>::empty());
    assert(spec_parse_text_field(r2) == Ok::<_, DecodeError>((d.status, Seq::<u8>::empty())));
    assert(e.len() >= 4);
}

/// Parsing an encoded page child record yields the record back.
#[verifier::rlimit(60)]
#[verifier::spinoff_prover]
pub proof fn lemma_parse_enc_page_record(p: PageAsRelV)
    requires
        spec_page_record_fits(p),
    ensures
        spec_parse_page_record(spec_enc_page_record(p)) == Ok::<_, DecodeError>(p),
{
    let e = spec_enc_page_record(p);
    let r5 = spec_enc_text_field(p.path);
    let r4 = spec_enc_bool_field(p.is_home_page) + r5;
    let r3 = spec_enc_text_field(p.title) + r4;
    let r2 = spec_enc_text_field(p.content_id) + r3;
    let r1 = spec_enc_text_field(p.page_type) + r2;
    assert(e.skip(4) =~= spec_enc_int8_field(p.page_id) + r1);
    lemma_parse_enc_int8(p.page_id, r1);
    assert(spec_parse_int8_field(e.skip(4)) == Ok::<_, DecodeError>((p.page_id, r1)));
    lemma_parse_enc_text(p.page_type, r2);
    assert(spec_parse_text_field(r1) == Ok::<_, DecodeError>((p.page_type, r2)));
    lemma_parse_enc_text(p.content_id, r3);
    assert(spec_parse_text_field(r2) == Ok::<_, DecodeError>((p.content_id, r3)));
    lemma_parse_enc_text(p.title, r4);
    assert(spec_parse_text_field(r3) == Ok::<_, DecodeError>((p.title, r4)));
    lemma_parse_enc_bool(p.is_home_page, r5);
    assert(spec_parse_bool_field(r4) == Ok::<_, DecodeError>((p.is_home_page, r5)));
    assert(r5 =~= spec_enc_text_field(p.path) + Seq::<u8>::empty());
    lemma_parse_enc_text(p.path, Seq::<u8>::empty());
    assert(spec_parse_text_field(r5) == Ok::<_, DecodeError>((p.path, Seq::<u8>::empty())));
    assert(e.len() >= 4);
}

/// Parsing the encoded elements of an array recovers every payload, none
/// NULL, in order.
proof fn lemma_parse_enc_items(payloads: Seq<Seq<u8>>)
    requires
        forall|i: int| 0 <= i < payloads.len() ==> (#[trigger] payloads[i]).len() < 0x8000_0000,
    ensures
        spec_parse_array_items(spec_enc_array_items(payloads), payloads.len() as int) == Ok::<
            _,
            DecodeError,
        >(payloads.map_values(|p: Seq<u8>| Some(p))),
    decreases payloads.len(),
{
    let f = |p: Seq<u8>| Some(p);
    if payloads.len() == 0 {
        assert(payloads.map_values(f) =~= Seq::<Option<Seq<u8>>>::empty());
    } else {
        let p0 = payloads[0];
        let n = p0.len() as int;
        let e = spec_enc_array_items(payloads);
        lemma_be_u32_round_trip(p0.len() as u32);
        assert(e.subrange(0, 4) =~= spec_be_u32(p0.len() as u32));
        assert(e.subrange(4, 4 + n) =~= p0);
        assert(e.skip(4 + n) =~= spec_enc_array_items(payloads.skip(1)));
        lemma_parse_enc_items(payloads.skip(1));
        assert(payloads.map_values(f) =~= seq![Some(p0)] + payloads.skip(1).map_values(f));
    }
}

/// Parsing an encoded array recovers every payload, none NULL, in order.
proof fn lemma_parse_enc_array(payloads: Seq<Seq<u8>>)
    requires
        payloads.len() < 0x8000_0000,
        forall|i: int| 0 <= i < payloads.len() ==> (#[trigger] payloads[i]).len() < 0x8000_0000,
    ensures
        spec_parse_array(spec_enc_array(payloads)) == Ok::<_, DecodeError>(
            payloads.map_values(|p: Seq<u8>| Some(p)),
        ),
{
    let e = spec_enc_array(payloads);
    if payloads.len() == 0 {
        lemma_be_u32_round_trip(0);
        assert(e.subrange(0, 4) =~= spec_be_u32(0));
        assert(payloads.map_values(|p: Seq<u8>| Some(p)) =~= Seq::<Option<Seq<u8>>>::empty());
    } else {
        lemma_be_u32_round_trip(1);
        lemma_be_u32_round_trip(0);
        lemma_be_u32_round_trip(OID_RECORD);
        lemma_be_u32_round_trip(payloads.len() as u32);
        assert(e.subrange(0, 4) =~= spec_be_u32(1));
        assert(e.subrange(12, 16) =~= spec_be_u32(payloads.len() as u32));
        assert(e.skip(20) =~= spec_enc_array_items(payloads));
        lemma_parse_enc_items(payloads);
    }
}

/// Collecting records over the encodings of decodable records yields the
/// records back.
proof fn lemma_collect_enc_domain(rows: Seq<DomainAsRelV>)
    requires
        forall|i: int| 0 <= i < rows.len() ==> spec_domain_record_fits(#[trigger] rows[i]),
    ensures
        spec_collect_rows(
            rows.map_values(|d: DomainAsRelV| spec_enc_domain_record(d)).map_values(
                |p: Seq<u8>| Some(p),
            ),
            spec_domain_parser(),
        ) == rows,
    decreases rows.len(),
{
    let enc = |d: DomainAsRelV| spec_enc_domain_record(d);
    let some = |p: Seq<u8>| Some(p);
    let items = rows.map_values(enc).map_values(some);
    if rows.len() == 0 {
        assert(items =~= Seq::<Option<Seq<u8>>>::empty());
    } else {
        lemma_parse_enc_domain_record(rows[0]);
        assert(items[0] == Some(spec_enc_domain_record(rows[0])));
        assert(items.skip(1) =~~= rows.skip(1).map_values(enc).map_values(some));
        lemma_collect_enc_domain(rows.skip(1));
        assert(seq![rows[0]] + rows.skip(1) =~= rows);
    }
}

/// Collecting records over the encodings of decodable records yields the
/// records back.
proof fn lemma_collect_enc_page(rows: Seq<PageAsRelV>)
    requires
        forall|i: int| 0 <= i < rows.len() ==> spec_page_record_fits(#[trigger] rows[i]),
    ensures
        spec_collect_rows(
            rows.map_values(|p: PageAsRelV| spec_enc_page_record(p)).map_values(
                |p: Seq<u8>| Some(p),
            ),
            spec_page_parser(),
        ) == rows,
    decreases rows.len(),
{
    let enc = |p: PageAsRelV| spec_enc_page_record(p);
    let some = |p: Seq<u8>| Some(p);
    let items = rows.map_values(enc).map_values(some);
    if rows.len() == 0 {
        assert(items =~= Seq::<Option<Seq<u8>>>::empty());
    } else {
        lemma_parse_enc_page_record(rows[0]);
        assert(items[0] == Some(spec_enc_page_record(rows[0])));
        assert(items.skip(1) =~~= rows.skip(1).map_values(enc).map_values(some));
        lemma_collect_enc_page(rows.skip(1));
        assert(seq![rows[0]] + rows.skip(1) =~= rows);
    }
}

/// Round trip: decoding the encoding of any list of domain child records —
/// empty, single or many — yields exactly those records, in order.
#[verifier::rlimit(100)]
#[verifier::spinoff_prover]
pub proof fn lemma_domain_array_round_trip(rows: Seq<DomainAsRelV>)
    requires
        rows.len() < 0x8000_0000,
        forall|i: int| 0 <= i < rows.len() ==> spec_domain_record_fits(#[trigger] rows[i]),
    ensures
        spec_decode_domain_array(spec_enc_domain_array(rows)) == Ok::<_, DecodeError>(rows),
{
    let enc = |d: DomainAsRelV| spec_enc_domain_record(d);
    let some = |p: Seq<u8>| Some(p);
    let payloads = rows.map_values(enc);
    assert forall|i: int| 0 <= i < payloads.len() implies (#[trigger] payloads[i]).len()
        < 0x8000_0000 by {
        assert(payloads[i] == spec_enc_domain_record(rows[i]));
    }
    lemma_parse_enc_array(payloads);
    assert(spec_enc_domain_array(rows) == spec_enc_array(payloads));
    assert(spec_parse_array(spec_enc_domain_array(rows)) == Ok::<_, DecodeError>(
        payloads.map_values(some),
    ));
    lemma_collect_enc_domain(rows);
    assert(spec_collect_rows(payloads.map_values(some), spec_domain_parser()) == rows);
}

/// Round trip: decoding the encoding of any list of page child records —
/// empty, single or many — yields exactly those records, in order.
#[verifier::rlimit(100)]
#[verifier::spinoff_prover]
pub proof fn lemma_page_array_round_trip(rows: Seq<PageAsRelV>)
    requires
        rows.len() < 0x8000_0000,
        forall|i: int| 0 <= i < rows.len() ==> spec_page_record_fits(#[trigger] rows[i]),
    ensures
        spec_decode_page_array(spec_enc_page_array(rows)) == Ok::<_, DecodeError>(rows),
{
    let enc = |p: PageAsRelV| spec_enc_page_record(p);
    let some = |p: Seq<u8>| Some(p);
    let payloads = rows.map_values(enc);
    assert forall|i: int| 0 <= i < payloads.len() implies (#[trigger] payloads[i]).len()
        < 0x8000_0000 by {
        assert(payloads[i] == spec_enc_page_record(rows[i]));
    }
    lemma_parse_enc_array(payloads);
    assert(spec_enc_page_array(rows) == spec_enc_array(payloads));
    assert(spec_parse_array(spec_enc_page_array(rows)) == Ok::<_, DecodeError>(
        payloads.map_values(some),
    ));
    lemma_collect_enc_page(rows);
    assert(spec_collect_rows(payloads.map_values(some), spec_page_parser()) == rows);
}

// ------------------------------------------------------------------
// Rejection of malformed shapes
// ------------------------------------------------------------------
/// A buffer declaring an array of any dimension other than zero or one —
/// in particular of dimension two — is rejected with `UnsupportedShape`.
pub proof fn lemma_multidimensional_array_rejected(b: Seq<u8>)
    requires
        b.len() >= 12,
        spec_u32_of_be(b.subrange(0, 4)) != 0,
        spec_u32_of_be(b.subrange(0, 4)) != 1,
    ensures
        spec_decode_domain_array(b) == Err::<Seq<DomainAsRelV>, _>(DecodeError::UnsupportedShape),
        spec_decode_page_array(b) == Err::<Seq<PageAsRelV>, _>(DecodeError::UnsupportedShape),
{
}

/// A record whose first field carries a type tag other than the expected
/// 8-byte integer is rejected with `TypeMismatch`, not silently coerced.
pub proof fn lemma_record_id_type_mismatch(b: Seq<u8>)
    requires
        b.len() >= 8,
        spec_u32_of_be(b.subrange(4, 8)) != OID_INT8,
    ensures
        spec_parse_domain_record(b) == Err::<DomainAsRelV, _>(DecodeError::TypeMismatch),
        spec_parse_page_record(b) == Err::<PageAsRelV, _>(DecodeError::TypeMismatch),
{
    assert(b.skip(4).subrange(0, 4) =~= b.subrange(4, 8));
}

} // verus!
