//! The Protocol Buffers wire format, and the primitives of `prost::encoding`
//! that this crate calls to write and read it.
//!
//! The spec functions here state what each primitive writes or reads; the
//! `external_body` functions call the primitive and are trusted to behave as
//! stated. Wire types are carried as their numbers (0 to 5).

use vstd::prelude::*;

use prost::encoding::{DecodeContext, WireType};

use crate::failure::{decimal, error_display};
use crate::varint::{read_varint, varint_bytes};

verus! {

/// Wire type of varint fields.
pub const VARINT: u8 = 0;

/// Wire type of 64-bit fixed-width fields.
pub const SIXTY_FOUR_BIT: u8 = 1;

/// Wire type of length-delimited fields.
pub const LENGTH_DELIMITED: u8 = 2;

/// Wire type that opens a group.
pub const START_GROUP: u8 = 3;

/// Wire type that closes a group.
pub const END_GROUP: u8 = 4;

/// Wire type of 32-bit fixed-width fields.
pub const THIRTY_TWO_BIT: u8 = 5;

/// Largest field tag.
pub const MAX_TAG: u32 = 0x1fff_ffff;

// ----------------------------------------------------------------------------
// What the primitives write
// ----------------------------------------------------------------------------

/// The key of a field: its tag and wire type, as one varint.
pub open spec fn key_bytes(tag: u32, wire_type: u8) -> Seq<u8> {
    varint_bytes(tag as nat * 8 + wire_type as nat)
}

/// A varint field.
pub open spec fn varint_field(tag: u32, value: u64) -> Seq<u8> {
    key_bytes(tag, VARINT) + varint_bytes(value as nat)
}

/// A length-delimited field holding `body`.
pub open spec fn delimited_field(tag: u32, body: Seq<u8>) -> Seq<u8> {
    key_bytes(tag, LENGTH_DELIMITED) + varint_bytes(body.len()) + body
}

/// The eight little-endian bytes of `v`.
pub open spec fn le_bytes(v: u64) -> Seq<u8> {
    seq![
        v as u8,
        (v >> 8u64) as u8,
        (v >> 16u64) as u8,
        (v >> 24u64) as u8,
        (v >> 32u64) as u8,
        (v >> 40u64) as u8,
        (v >> 48u64) as u8,
        (v >> 56u64) as u8,
    ]
}

/// The value of eight little-endian bytes.
pub open spec fn le_value(s: Seq<u8>) -> u64 {
    (s[0] as u64) | ((s[1] as u64) << 8u64) | ((s[2] as u64) << 16u64) | ((s[3] as u64) << 24u64)
        | ((s[4] as u64) << 32u64) | ((s[5] as u64) << 40u64) | ((s[6] as u64) << 48u64) | ((
    s[7] as u64) << 56u64)
}

/// A 64-bit fixed-width field.
pub open spec fn fixed64_field(tag: u32, value: u64) -> Seq<u8> {
    key_bytes(tag, SIXTY_FOUR_BIT) + le_bytes(value)
}

/// The varints of `values`, one after the other.
pub open spec fn varints(values: Seq<u64>) -> Seq<u8>
    decreases values.len(),
{
    if values.len() == 0 {
        seq![]
    } else {
        varint_bytes(values[0] as nat) + varints(values.drop_first())
    }
}

/// A packed repeated varint field; nothing at all for no values.
pub open spec fn packed_field(tag: u32, values: Seq<u64>) -> Seq<u8> {
    if values.len() == 0 {
        seq![]
    } else {
        delimited_field(tag, varints(values))
    }
}

/// The wire value of an `int32`: sign-extended to 64 bits.
pub open spec fn int32_wire(v: i32) -> u64 {
    v as u64
}

pub open spec fn int32_wires(values: Seq<i32>) -> Seq<u64> {
    values.map_values(|v: i32| int32_wire(v))
}

pub open spec fn uint32_wires(values: Seq<u32>) -> Seq<u64> {
    values.map_values(|v: u32| v as u64)
}

pub open spec fn bool_wire(b: bool) -> u64 {
    if b {
        1
    } else {
        0
    }
}

/// UTF-8 bytes of a string.
pub open spec fn utf8(s: Seq<char>) -> Seq<u8> {
    vstd::utf8::encode_utf8(s)
}

// ----------------------------------------------------------------------------
// What the primitives read
// ----------------------------------------------------------------------------

/// A field key at the front of `s`: tag, wire type and the number of bytes
/// read. The key must fit in 32 bits, name a wire type from 0 to 5 and a
/// tag of at least 1.
pub open spec fn read_key(s: Seq<u8>) -> Option<(u32, u8, nat)> {
    match read_varint(s) {
        None => None,
        Some((k, n)) => if k > 0xffff_ffff {
            None
        } else if k % 8 > 5 {
            None
        } else if k / 8 < 1 {
            None
        } else {
            Some(((k / 8) as u32, (k % 8) as u8, n))
        },
    }
}

/// A varint value of a field of the given wire type.
pub open spec fn read_varint_field(wire_type: u8, s: Seq<u8>) -> Option<(u64, nat)> {
    if wire_type == VARINT {
        read_varint(s)
    } else {
        None
    }
}

/// The body of a length-delimited field and the number of bytes read.
pub open spec fn read_delimited(wire_type: u8, s: Seq<u8>) -> Option<(Seq<u8>, nat)> {
    if wire_type != LENGTH_DELIMITED {
        None
    } else {
        match read_varint(s) {
            None => None,
            Some((len, n)) => if len > s.len() - n {
                None
            } else {
                Some((s.subrange(n as int, n + len), n + len as nat))
            },
        }
    }
}

/// A string field: its body must be UTF-8.
pub open spec fn read_string(wire_type: u8, s: Seq<u8>) -> Option<(Seq<char>, nat)> {
    match read_delimited(wire_type, s) {
        Some((body, n)) => if vstd::utf8::valid_utf8(body) {
            Some((vstd::utf8::decode_utf8(body), n))
        } else {
            None
        },
        None => None,
    }
}

/// A 64-bit fixed-width field.
pub open spec fn read_fixed64(wire_type: u8, s: Seq<u8>) -> Option<(u64, nat)> {
    if wire_type == SIXTY_FOUR_BIT && s.len() >= 8 {
        Some((le_value(s.take(8)), 8nat))
    } else {
        None
    }
}

/// Varints read one after the other until exactly `limit` bytes remain; a
/// varint may not run past that point. Gives the values and what remains.
pub open spec fn read_packed(s: Seq<u8>, limit: nat) -> Option<Seq<u64>>
    decreases s.len(),
{
    if s.len() <= limit {
        if s.len() == limit {
            Some(seq![])
        } else {
            None
        }
    } else {
        match read_varint(s) {
            None => None,
            Some((v, n)) => if 1 <= n <= s.len() {
                match read_packed(s.skip(n as int), limit) {
                    Some(vs) => Some(seq![v] + vs),
                    None => None,
                }
            } else {
                None
            },
        }
    }
}

/// A repeated varint field: packed (length-delimited) or one value.
pub open spec fn read_repeated_varint(wire_type: u8, s: Seq<u8>) -> Option<(Seq<u64>, nat)> {
    if wire_type == LENGTH_DELIMITED {
        match read_varint(s) {
            None => None,
            Some((len, n)) => if len > s.len() - n {
                None
            } else {
                match read_packed(s.skip(n as int), (s.len() - n - len) as nat) {
                    Some(vs) => Some((vs, n + len as nat)),
                    None => None,
                }
            },
        }
    } else if wire_type == VARINT {
        match read_varint(s) {
            Some((v, n)) => Some((seq![v], n)),
            None => None,
        }
    } else {
        None
    }
}

/// How many bytes an unknown field of a wire type other than start-group
/// takes at the front of `s`.
pub open spec fn skip_len(wire_type: u8, s: Seq<u8>) -> Option<nat> {
    if wire_type == VARINT {
        match read_varint(s) {
            Some((_, n)) => Some(n),
            None => None,
        }
    } else if wire_type == SIXTY_FOUR_BIT {
        if s.len() >= 8 {
            Some(8nat)
        } else {
            None
        }
    } else if wire_type == THIRTY_TWO_BIT {
        if s.len() >= 4 {
            Some(4nat)
        } else {
            None
        }
    } else if wire_type == LENGTH_DELIMITED {
        match read_varint(s) {
            Some((len, n)) => if len > s.len() - n {
                None
            } else {
                Some(n + len as nat)
            },
            None => None,
        }
    } else {
        None
    }
}

/// Passing over an unknown field when `count` more levels of nesting are
/// allowed: the bytes it takes, or why it cannot be passed over. A group is
/// passed over field by field up to the end-group key of its own tag, its
/// fields one level deeper.
pub open spec fn skip_outcome(wire_type: u8, tag: u32, s: Seq<u8>, count: nat) -> Result<nat, Seq<char>>
    decreases s.len(), 1nat,
{
    if count == 0 {
        Err("recursion limit reached"@)
    } else if wire_type == START_GROUP {
        group_outcome(tag, s, count)
    } else {
        match skip_len(wire_type, s) {
            Some(k) => Ok(k),
            None => Err(skip_error(wire_type, s)),
        }
    }
}

/// The rest of a group with the given tag at the front of `s`, its
/// end-group key included.
pub open spec fn group_outcome(tag: u32, s: Seq<u8>, count: nat) -> Result<nat, Seq<char>>
    decreases s.len(), 0nat,
{
    match read_key(s) {
        None => Err(key_error(s)),
        Some((inner_tag, inner_wire_type, n)) => if !(1 <= n <= s.len()) {
            Err(seq![])
        } else if inner_wire_type == END_GROUP {
            if inner_tag != tag {
                Err("unexpected end group tag"@)
            } else {
                Ok(n)
            }
        } else {
            match skip_outcome(inner_wire_type, inner_tag, s.skip(n as int), (count - 1) as nat) {
                Err(d) => Err(d),
                Ok(k) => if k <= s.len() - n {
                    match group_outcome(tag, s.skip((n + k) as int), count) {
                        Ok(j) => Ok(n + k + j),
                        Err(d) => Err(d),
                    }
                } else {
                    Err(seq![])
                },
            }
        },
    }
}

// ----------------------------------------------------------------------------
// Why the primitives fail: the descriptions of their errors
// ----------------------------------------------------------------------------

/// The name `prost` gives a wire type (its `Debug`).
pub open spec fn wire_type_name(wire_type: u8) -> Seq<char> {
    if wire_type == 0 {
        "Varint"@
    } else if wire_type == 1 {
        "SixtyFourBit"@
    } else if wire_type == 2 {
        "LengthDelimited"@
    } else if wire_type == 3 {
        "StartGroup"@
    } else if wire_type == 4 {
        "EndGroup"@
    } else {
        "ThirtyTwoBit"@
    }
}

/// `check_wire_type`'s description when the wire types differ.
pub open spec fn wire_type_error(expected: u8, actual: u8) -> Seq<char> {
    "invalid wire type: "@ + wire_type_name(actual) + " (expected "@ + wire_type_name(expected) + ")"@
}

/// `decode_varint`'s description.
pub open spec fn varint_error() -> Seq<char> {
    "invalid varint"@
}

/// `decode_key`'s description when `read_key(s)` fails.
pub open spec fn key_error(s: Seq<u8>) -> Seq<char> {
    match read_varint(s) {
        None => varint_error(),
        Some((k, _)) => if k > 0xffff_ffff {
            "invalid key value: "@ + decimal(k as nat)
        } else if k % 8 > 5 {
            "invalid wire type value: "@ + decimal((k % 8) as nat)
        } else {
            "invalid tag value: 0"@
        },
    }
}

/// The description when a varint field cannot be read.
pub open spec fn varint_field_error(wire_type: u8) -> Seq<char> {
    if wire_type != VARINT {
        wire_type_error(VARINT, wire_type)
    } else {
        varint_error()
    }
}

/// The description when a 64-bit field cannot be read.
pub open spec fn fixed64_error(wire_type: u8) -> Seq<char> {
    if wire_type != SIXTY_FOUR_BIT {
        wire_type_error(SIXTY_FOUR_BIT, wire_type)
    } else {
        "buffer underflow"@
    }
}

/// The description when a length-delimited field cannot be read.
pub open spec fn delimited_error(wire_type: u8, s: Seq<u8>) -> Seq<char> {
    if wire_type != LENGTH_DELIMITED {
        wire_type_error(LENGTH_DELIMITED, wire_type)
    } else if read_varint(s) is None {
        varint_error()
    } else {
        "buffer underflow"@
    }
}

/// The description when a string field cannot be read.
pub open spec fn string_error(wire_type: u8, s: Seq<u8>) -> Seq<char> {
    if read_delimited(wire_type, s) is None {
        delimited_error(wire_type, s)
    } else {
        "invalid string value: data is not UTF-8 encoded"@
    }
}

/// The description when the varints of a packed field cannot be read.
pub open spec fn packed_error(s: Seq<u8>, limit: nat) -> Seq<char>
    decreases s.len(),
{
    if s.len() <= limit {
        "delimited length exceeded"@
    } else {
        match read_varint(s) {
            Some((v, n)) => if 1 <= n <= s.len() {
                packed_error(s.skip(n as int), limit)
            } else {
                varint_error()
            },
            None => varint_error(),
        }
    }
}

/// The description when a repeated varint field cannot be read.
pub open spec fn repeated_varint_error(wire_type: u8, s: Seq<u8>) -> Seq<char> {
    if wire_type == LENGTH_DELIMITED {
        match read_varint(s) {
            None => varint_error(),
            Some((len, n)) => if len > s.len() - n {
                "buffer underflow"@
            } else {
                packed_error(s.skip(n as int), (s.len() - n - len) as nat)
            },
        }
    } else {
        varint_field_error(wire_type)
    }
}

/// The description when an unknown field of a wire type other than
/// start-group cannot be passed over.
pub open spec fn skip_error(wire_type: u8, s: Seq<u8>) -> Seq<char> {
    if wire_type == END_GROUP {
        "unexpected end group tag"@
    } else if wire_type == VARINT || (wire_type == LENGTH_DELIMITED && read_varint(s) is None) {
        varint_error()
    } else {
        "buffer underflow"@
    }
}

// ----------------------------------------------------------------------------
// Writing
// ----------------------------------------------------------------------------

/// `prost::encoding::encode_varint`: appends the varint bytes of `value`.
#[verifier::external_body]
pub(crate) fn put_varint(value: u64, buf: &mut Vec<u8>)
    ensures
        final(buf)@ == old(buf)@ + varint_bytes(value as nat),
{
    prost::encoding::encode_varint(value, buf)
}

/// `prost::encoding::encode_key` with wire type length-delimited: appends
/// the key of `tag`.
#[verifier::external_body]
pub(crate) fn put_delimited_key(tag: u32, buf: &mut Vec<u8>)
    requires
        1 <= tag <= MAX_TAG,
    ensures
        final(buf)@ == old(buf)@ + key_bytes(tag, LENGTH_DELIMITED),
{
    prost::encoding::encode_key(tag, WireType::LengthDelimited, buf)
}

/// `prost::encoding::uint32::encode`: appends the key of `tag` (varint) and
/// the varint of `value`.
#[verifier::external_body]
pub(crate) fn put_uint32(tag: u32, value: u32, buf: &mut Vec<u8>)
    requires
        1 <= tag <= MAX_TAG,
    ensures
        final(buf)@ == old(buf)@ + varint_field(tag, value as u64),
{
    prost::encoding::uint32::encode(tag, &value, buf)
}

/// `prost::encoding::uint64::encode`: appends the key of `tag` (varint) and
/// the varint of `value`.
#[verifier::external_body]
pub(crate) fn put_uint64(tag: u32, value: u64, buf: &mut Vec<u8>)
    requires
        1 <= tag <= MAX_TAG,
    ensures
        final(buf)@ == old(buf)@ + varint_field(tag, value),
{
    prost::encoding::uint64::encode(tag, &value, buf)
}

/// `prost::encoding::int32::encode`: appends the key of `tag` (varint) and
/// the varint of `value` sign-extended to 64 bits.
#[verifier::external_body]
pub(crate) fn put_int32(tag: u32, value: i32, buf: &mut Vec<u8>)
    requires
        1 <= tag <= MAX_TAG,
    ensures
        final(buf)@ == old(buf)@ + varint_field(tag, int32_wire(value)),
{
    prost::encoding::int32::encode(tag, &value, buf)
}

/// `prost::encoding::bool::encode`: appends the key of `tag` (varint) and
/// the varint 1 or 0.
#[verifier::external_body]
pub(crate) fn put_bool(tag: u32, value: bool, buf: &mut Vec<u8>)
    requires
        1 <= tag <= MAX_TAG,
    ensures
        final(buf)@ == old(buf)@ + varint_field(tag, bool_wire(value)),
{
    prost::encoding::bool::encode(tag, &value, buf)
}

/// `prost::encoding::string::encode`: appends the key of `tag`
/// (length-delimited), the byte length of `value` and its UTF-8 bytes.
#[verifier::external_body]
pub(crate) fn put_string(tag: u32, value: &String, buf: &mut Vec<u8>)
    requires
        1 <= tag <= MAX_TAG,
    ensures
        final(buf)@ == old(buf)@ + delimited_field(tag, utf8(value@)),
{
    prost::encoding::string::encode(tag, value, buf)
}

/// `prost::encoding::bytes::encode`: appends the key of `tag`
/// (length-delimited), the length of `value` and its bytes.
#[verifier::external_body]
pub(crate) fn put_bytes(tag: u32, value: &Vec<u8>, buf: &mut Vec<u8>)
    requires
        1 <= tag <= MAX_TAG,
    ensures
        final(buf)@ == old(buf)@ + delimited_field(tag, value@),
{
    prost::encoding::bytes::encode(tag, value, buf)
}

/// `prost::encoding::fixed64::encode`: appends the key of `tag` (64-bit) and
/// the eight little-endian bytes of `value`.
#[verifier::external_body]
pub(crate) fn put_fixed64(tag: u32, value: u64, buf: &mut Vec<u8>)
    requires
        1 <= tag <= MAX_TAG,
    ensures
        final(buf)@ == old(buf)@ + fixed64_field(tag, value),
{
    prost::encoding::fixed64::encode(tag, &value, buf)
}

/// `prost::encoding::int32::encode_packed`: appends nothing for no values,
/// else the key of `tag` (length-delimited), the total length of the
/// varints and the varints of the sign-extended values.
#[verifier::external_body]
pub(crate) fn put_packed_int32(tag: u32, values: &Vec<i32>, buf: &mut Vec<u8>)
    requires
        1 <= tag <= MAX_TAG,
    ensures
        final(buf)@ == old(buf)@ + packed_field(tag, int32_wires(values@)),
{
    prost::encoding::int32::encode_packed(tag, values, buf)
}

/// `prost::encoding::uint32::encode_packed`: appends nothing for no values,
/// else the key of `tag` (length-delimited), the total length of the
/// varints and the varints of the values.
#[verifier::external_body]
pub(crate) fn put_packed_uint32(tag: u32, values: &Vec<u32>, buf: &mut Vec<u8>)
    requires
        1 <= tag <= MAX_TAG,
    ensures
        final(buf)@ == old(buf)@ + packed_field(tag, uint32_wires(values@)),
{
    prost::encoding::uint32::encode_packed(tag, values, buf)
}

// ----------------------------------------------------------------------------
// Reading
// ----------------------------------------------------------------------------

/// Number of bytes read from `bytes[pos..]` when `rest` of them remain.
pub open spec fn consumed(bytes: Seq<u8>, pos: usize, rest: usize) -> nat {
    (bytes.len() - pos - rest) as nat
}

// The readers below give an error as the text that `prost` displays for it;
// none of these primitives records a field name, so the text is the prefix
// and the description.

/// `prost::encoding::decode_key` on `bytes[pos..]`: the tag and wire type of
/// the key there, and how many bytes remain after it.
#[verifier::external_body]
pub(crate) fn take_key(bytes: &[u8], pos: usize) -> (res: Result<(u32, u8, usize), String>)
    requires
        pos <= bytes.len(),
    ensures
        res matches Ok((tag, wire_type, rest)) ==> rest <= bytes.len() - pos && read_key(
            bytes@.skip(pos as int),
        ) == Some((tag, wire_type, consumed(bytes@, pos, rest))),
        res is Err ==> read_key(bytes@.skip(pos as int)) is None,
        res matches Err(text) ==> text@ == error_display(key_error(bytes@.skip(pos as int))),
{
    let mut buf = &bytes[pos..];
    match prost::encoding::decode_key(&mut buf) {
        Ok((tag, wire_type)) => Ok((tag, wire_type as u8, buf.len())),
        Err(error) => Err(error.to_string()),
    }
}

/// `prost::encoding::decode_varint` on `bytes[pos..]`: the value of the
/// varint there and how many bytes remain after it.
#[verifier::external_body]
pub(crate) fn take_varint(bytes: &[u8], pos: usize) -> (res: Result<(u64, usize), String>)
    requires
        pos <= bytes.len(),
    ensures
        res matches Ok((v, rest)) ==> rest <= bytes.len() - pos && read_varint(
            bytes@.skip(pos as int),
        ) == Some((v, consumed(bytes@, pos, rest))),
        res is Err ==> read_varint(bytes@.skip(pos as int)) is None,
        res matches Err(text) ==> text@ == error_display(varint_error()),
{
    let mut buf = &bytes[pos..];
    match prost::encoding::decode_varint(&mut buf) {
        Ok(value) => Ok((value, buf.len())),
        Err(error) => Err(error.to_string()),
    }
}

/// `prost::encoding::check_wire_type`: succeeds exactly when the two wire
/// types are the same.
#[verifier::external_body]
pub(crate) fn check_wire_type(expected: u8, actual: u8) -> (res: Result<(), String>)
    requires
        expected <= 5,
        actual <= 5,
    ensures
        res is Ok <==> expected == actual,
        res matches Err(text) ==> text@ == error_display(wire_type_error(expected, actual)),
{
    let checked = match (WireType::try_from(u64::from(expected)), WireType::try_from(u64::from(actual))) {
        (Ok(expected), Ok(actual)) => prost::encoding::check_wire_type(expected, actual),
        (Err(error), _) => Err(error),
        (_, Err(error)) => Err(error),
    };
    match checked {
        Ok(()) => Ok(()),
        Err(error) => Err(error.to_string()),
    }
}

/// `prost::encoding::uint32::merge` on `bytes[pos..]`: a varint of a field
/// of wire type varint, cut to 32 bits, and how many bytes remain.
#[verifier::external_body]
pub(crate) fn take_uint32(wire_type: u8, bytes: &[u8], pos: usize) -> (res: Result<(u32, usize), String>)
    requires
        wire_type <= 5,
        pos <= bytes.len(),
    ensures
        res matches Ok((v, rest)) ==> rest <= bytes.len() - pos && (read_varint_field(
            wire_type,
            bytes@.skip(pos as int),
        ) matches Some((w, n)) && v == w as u32 && n == consumed(bytes@, pos, rest)),
        res is Err ==> read_varint_field(wire_type, bytes@.skip(pos as int)) is None,
        res matches Err(text) ==> text@ == error_display(varint_field_error(wire_type)),
{
    let mut buf = &bytes[pos..];
    let mut value: u32 = 0;
    let merged = match WireType::try_from(u64::from(wire_type)) {
        Ok(wire_type) => prost::encoding::uint32::merge(wire_type, &mut value, &mut buf, DecodeContext::default()),
        Err(error) => Err(error),
    };
    match merged {
        Ok(()) => Ok((value, buf.len())),
        Err(error) => Err(error.to_string()),
    }
}

/// `prost::encoding::uint64::merge` on `bytes[pos..]`: a varint of a field
/// of wire type varint, and how many bytes remain.
#[verifier::external_body]
pub(crate) fn take_uint64(wire_type: u8, bytes: &[u8], pos: usize) -> (res: Result<(u64, usize), String>)
    requires
        wire_type <= 5,
        pos <= bytes.len(),
    ensures
        res matches Ok((v, rest)) ==> rest <= bytes.len() - pos && (read_varint_field(
            wire_type,
            bytes@.skip(pos as int),
        ) == Some((v, consumed(bytes@, pos, rest)))),
        res is Err ==> read_varint_field(wire_type, bytes@.skip(pos as int)) is None,
        res matches Err(text) ==> text@ == error_display(varint_field_error(wire_type)),
{
    let mut buf = &bytes[pos..];
    let mut value: u64 = 0;
    let merged = match WireType::try_from(u64::from(wire_type)) {
        Ok(wire_type) => prost::encoding::uint64::merge(wire_type, &mut value, &mut buf, DecodeContext::default()),
        Err(error) => Err(error),
    };
    match merged {
        Ok(()) => Ok((value, buf.len())),
        Err(error) => Err(error.to_string()),
    }
}

/// `prost::encoding::int32::merge` on `bytes[pos..]`: a varint of a field
/// of wire type varint, cut to 32 bits, and how many bytes remain.
#[verifier::external_body]
pub(crate) fn take_int32(wire_type: u8, bytes: &[u8], pos: usize) -> (res: Result<(i32, usize), String>)
    requires
        wire_type <= 5,
        pos <= bytes.len(),
    ensures
        res matches Ok((v, rest)) ==> rest <= bytes.len() - pos && (read_varint_field(
            wire_type,
            bytes@.skip(pos as int),
        ) matches Some((w, n)) && v == w as i32 && n == consumed(bytes@, pos, rest)),
        res is Err ==> read_varint_field(wire_type, bytes@.skip(pos as int)) is None,
        res matches Err(text) ==> text@ == error_display(varint_field_error(wire_type)),
{
    let mut buf = &bytes[pos..];
    let mut value: i32 = 0;
    let merged = match WireType::try_from(u64::from(wire_type)) {
        Ok(wire_type) => prost::encoding::int32::merge(wire_type, &mut value, &mut buf, DecodeContext::default()),
        Err(error) => Err(error),
    };
    match merged {
        Ok(()) => Ok((value, buf.len())),
        Err(error) => Err(error.to_string()),
    }
}

/// `prost::encoding::bool::merge` on `bytes[pos..]`: whether a varint of a
/// field of wire type varint is nonzero, and how many bytes remain.
#[verifier::external_body]
pub(crate) fn take_bool(wire_type: u8, bytes: &[u8], pos: usize) -> (res: Result<(bool, usize), String>)
    requires
        wire_type <= 5,
        pos <= bytes.len(),
    ensures
        res matches Ok((v, rest)) ==> rest <= bytes.len() - pos && (read_varint_field(
            wire_type,
            bytes@.skip(pos as int),
        ) matches Some((w, n)) && v == (w != 0) && n == consumed(bytes@, pos, rest)),
        res is Err ==> read_varint_field(wire_type, bytes@.skip(pos as int)) is None,
        res matches Err(text) ==> text@ == error_display(varint_field_error(wire_type)),
{
    let mut buf = &bytes[pos..];
    let mut value: bool = false;
    let merged = match WireType::try_from(u64::from(wire_type)) {
        Ok(wire_type) => prost::encoding::bool::merge(wire_type, &mut value, &mut buf, DecodeContext::default()),
        Err(error) => Err(error),
    };
    match merged {
        Ok(()) => Ok((value, buf.len())),
        Err(error) => Err(error.to_string()),
    }
}

/// `prost::encoding::fixed64::merge` on `bytes[pos..]`: eight little-endian
/// bytes of a field of wire type 64-bit, and how many bytes remain.
#[verifier::external_body]
pub(crate) fn take_fixed64(wire_type: u8, bytes: &[u8], pos: usize) -> (res: Result<(u64, usize), String>)
    requires
        wire_type <= 5,
        pos <= bytes.len(),
    ensures
        res matches Ok((v, rest)) ==> rest <= bytes.len() - pos && read_fixed64(
            wire_type,
            bytes@.skip(pos as int),
        ) == Some((v, consumed(bytes@, pos, rest))),
        res is Err ==> read_fixed64(wire_type, bytes@.skip(pos as int)) is None,
        res matches Err(text) ==> text@ == error_display(fixed64_error(wire_type)),
{
    let mut buf = &bytes[pos..];
    let mut value: u64 = 0;
    let merged = match WireType::try_from(u64::from(wire_type)) {
        Ok(wire_type) => prost::encoding::fixed64::merge(wire_type, &mut value, &mut buf, DecodeContext::default()),
        Err(error) => Err(error),
    };
    match merged {
        Ok(()) => Ok((value, buf.len())),
        Err(error) => Err(error.to_string()),
    }
}

/// `prost::encoding::string::merge` on `bytes[pos..]`: the body of a
/// length-delimited field, which must be UTF-8, and how many bytes remain.
#[verifier::external_body]
pub(crate) fn take_string(wire_type: u8, bytes: &[u8], pos: usize) -> (res: Result<(String, usize), String>)
    requires
        wire_type <= 5,
        pos <= bytes.len(),
    ensures
        res matches Ok((v, rest)) ==> rest <= bytes.len() - pos && read_string(
            wire_type,
            bytes@.skip(pos as int),
        ) == Some((v@, consumed(bytes@, pos, rest))),
        res is Err ==> read_string(wire_type, bytes@.skip(pos as int)) is None,
        res matches Err(text) ==> text@ == error_display(string_error(wire_type, bytes@.skip(pos as int))),
{
    let mut buf = &bytes[pos..];
    let mut value: String = String::new();
    let merged = match WireType::try_from(u64::from(wire_type)) {
        Ok(wire_type) => prost::encoding::string::merge(wire_type, &mut value, &mut buf, DecodeContext::default()),
        Err(error) => Err(error),
    };
    match merged {
        Ok(()) => Ok((value, buf.len())),
        Err(error) => Err(error.to_string()),
    }
}

/// `prost::encoding::bytes::merge` on `bytes[pos..]`: the body of a
/// length-delimited field, and how many bytes remain.
#[verifier::external_body]
pub(crate) fn take_bytes(wire_type: u8, bytes: &[u8], pos: usize) -> (res: Result<(Vec<u8>, usize), String>)
    requires
        wire_type <= 5,
        pos <= bytes.len(),
    ensures
        res matches Ok((v, rest)) ==> rest <= bytes.len() - pos && read_delimited(
            wire_type,
            bytes@.skip(pos as int),
        ) == Some((v@, consumed(bytes@, pos, rest))),
        res is Err ==> read_delimited(wire_type, bytes@.skip(pos as int)) is None,
        res matches Err(text) ==> text@ == error_display(delimited_error(wire_type, bytes@.skip(pos as int))),
{
    let mut buf = &bytes[pos..];
    let mut value: Vec<u8> = Vec::new();
    let merged = match WireType::try_from(u64::from(wire_type)) {
        Ok(wire_type) => prost::encoding::bytes::merge(wire_type, &mut value, &mut buf, DecodeContext::default()),
        Err(error) => Err(error),
    };
    match merged {
        Ok(()) => Ok((value, buf.len())),
        Err(error) => Err(error.to_string()),
    }
}

/// `prost::encoding::int32::merge_repeated` on `bytes[pos..]`: appends the
/// values of a packed or single varint field, each cut to 32 bits, and gives
/// how many bytes remain.
#[verifier::external_body]
pub(crate) fn take_repeated_int32(
    wire_type: u8,
    values: &mut Vec<i32>,
    bytes: &[u8],
    pos: usize,
) -> (res: Result<usize, String>)
    requires
        wire_type <= 5,
        pos <= bytes.len(),
    ensures
        res matches Ok(rest) ==> rest <= bytes.len() - pos && (read_repeated_varint(
            wire_type,
            bytes@.skip(pos as int),
        ) matches Some((ws, n)) && n == consumed(bytes@, pos, rest) && final(values)@ == old(
            values,
        )@ + ws.map_values(|w: u64| w as i32)),
        res is Err ==> read_repeated_varint(wire_type, bytes@.skip(pos as int)) is None,
        res matches Err(text) ==> text@ == error_display(
            repeated_varint_error(wire_type, bytes@.skip(pos as int)),
        ),
{
    let mut buf = &bytes[pos..];
    let merged = match WireType::try_from(u64::from(wire_type)) {
        Ok(wire_type) => prost::encoding::int32::merge_repeated(wire_type, values, &mut buf, DecodeContext::default()),
        Err(error) => Err(error),
    };
    match merged {
        Ok(()) => Ok(buf.len()),
        Err(error) => Err(error.to_string()),
    }
}

/// `prost::encoding::uint32::merge_repeated` on `bytes[pos..]`: appends the
/// values of a packed or single varint field, each cut to 32 bits, and gives
/// how many bytes remain.
#[verifier::external_body]
pub(crate) fn take_repeated_uint32(
    wire_type: u8,
    values: &mut Vec<u32>,
    bytes: &[u8],
    pos: usize,
) -> (res: Result<usize, String>)
    requires
        wire_type <= 5,
        pos <= bytes.len(),
    ensures
        res matches Ok(rest) ==> rest <= bytes.len() - pos && (read_repeated_varint(
            wire_type,
            bytes@.skip(pos as int),
        ) matches Some((ws, n)) && n == consumed(bytes@, pos, rest) && final(values)@ == old(
            values,
        )@ + ws.map_values(|w: u64| w as u32)),
        res is Err ==> read_repeated_varint(wire_type, bytes@.skip(pos as int)) is None,
        res matches Err(text) ==> text@ == error_display(
            repeated_varint_error(wire_type, bytes@.skip(pos as int)),
        ),
{
    let mut buf = &bytes[pos..];
    let merged = match WireType::try_from(u64::from(wire_type)) {
        Ok(wire_type) => prost::encoding::uint32::merge_repeated(wire_type, values, &mut buf, DecodeContext::default()),
        Err(error) => Err(error),
    };
    match merged {
        Ok(()) => Ok(buf.len()),
        Err(error) => Err(error.to_string()),
    }
}

/// `prost::encoding::skip_field` on `bytes[pos..]` for a wire type other
/// than start-group, with a fresh decoding context (whose recursion limit a
/// single field does not reach): passes over the field and gives how many
/// bytes remain.
#[verifier::external_body]
pub(crate) fn skip_field(wire_type: u8, tag: u32, bytes: &[u8], pos: usize) -> (res: Result<usize, String>)
    requires
        wire_type <= 5,
        wire_type != START_GROUP,
        pos <= bytes.len(),
    ensures
        res matches Ok(rest) ==> rest <= bytes.len() - pos && skip_len(
            wire_type,
            bytes@.skip(pos as int),
        ) == Some(consumed(bytes@, pos, rest)),
        res is Err ==> skip_len(wire_type, bytes@.skip(pos as int)) is None,
        res matches Err(text) ==> text@ == error_display(skip_error(wire_type, bytes@.skip(pos as int))),
{
    let mut buf = &bytes[pos..];
    let skipped = match WireType::try_from(u64::from(wire_type)) {
        Ok(wire_type) => prost::encoding::skip_field(wire_type, tag, &mut buf, DecodeContext::default()),
        Err(error) => Err(error),
    };
    match skipped {
        Ok(()) => Ok(buf.len()),
        Err(error) => Err(error.to_string()),
    }
}

} // verus!
