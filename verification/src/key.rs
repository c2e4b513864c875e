//! Primary keys, and the little-endian byte form in which a gateway hands a
//! freshly assigned key back to a model.

use byteorder::{LittleEndian, ReadBytesExt, WriteBytesExt};
use vstd::prelude::*;

verus! {

/// The unsigned value of `bytes` read least significant byte first.
pub open spec fn le_unsigned(bytes: Seq<u8>) -> nat
    decreases bytes.len(),
{
    if bytes.len() == 0 {
        0
    } else {
        bytes[0] as nat + 256 * le_unsigned(bytes.drop_first())
    }
}

/// The signed 64-bit value (two's complement) of the first eight bytes of
/// `bytes`, least significant byte first.
pub open spec fn le_i64(bytes: Seq<u8>) -> int {
    let u = le_unsigned(bytes.take(8));
    if u >= 0x8000_0000_0000_0000 {
        u - 0x1_0000_0000_0000_0000
    } else {
        u as int
    }
}

/// Reads a little-endian `i64` from the start of `bytes`, through
/// `byteorder::ReadBytesExt::read_i64::<LittleEndian>` on a cursor over
/// `bytes`. The read takes the first eight bytes and fails when there are
/// fewer; the caller's `requires` rules that out, as the unwrap in the body
/// would panic there.
#[verifier::external_body]
fn read_i64_le(bytes: &[u8]) -> (v: i64)
    requires
        bytes@.len() >= 8,
    ensures
        v == le_i64(bytes@),
{
    let mut reader = std::io::Cursor::new(bytes);
    reader.read_i64::<LittleEndian>().unwrap()
}

/// Reads a little-endian `u64` from the start of `bytes`, through
/// `byteorder::ReadBytesExt::read_u64::<LittleEndian>` on a cursor over
/// `bytes`. The read takes the first eight bytes and fails when there are
/// fewer; the caller's `requires` rules that out, as the unwrap in the body
/// would panic there.
#[verifier::external_body]
fn read_u64_le(bytes: &[u8]) -> (v: u64)
    requires
        bytes@.len() >= 8,
    ensures
        v == le_unsigned(bytes@.take(8)),
{
    let mut reader = std::io::Cursor::new(bytes);
    reader.read_u64::<LittleEndian>().unwrap()
}

/// Writes `v` as eight little-endian bytes into a fresh vector, through
/// `byteorder::WriteBytesExt::write_i64::<LittleEndian>`. Writing into a
/// vector does not fail.
#[verifier::external_body]
fn write_i64_le(v: i64) -> (bytes: Vec<u8>)
    ensures
        bytes@.len() == 8,
        le_i64(bytes@) == v,
{
    let mut writer: Vec<u8> = Vec::new();
    writer.write_i64::<LittleEndian>(v).unwrap();
    writer
}

/// A primary key that can be rebuilt from the bytes a gateway reports for a
/// newly stored row.
pub trait Key: Sized + Clone {
    /// The key that `from_bytes` rebuilds from `bytes`.
    spec fn key_of(bytes: Seq<u8>) -> Self;

    fn from_bytes(bytes: &[u8]) -> (k: Self)
        requires
            bytes@.len() >= 8,
        ensures
            k == Self::key_of(bytes@),
    ;
}

impl Key for i64 {
    /// The little-endian `i64` in the first eight bytes.
    open spec fn key_of(bytes: Seq<u8>) -> i64 {
        le_i64(bytes) as i64
    }

    fn from_bytes(bytes: &[u8]) -> (k: i64) {
        read_i64_le(bytes)
    }
}

impl Key for u64 {
    /// The little-endian `u64` in the first eight bytes.
    open spec fn key_of(bytes: Seq<u8>) -> u64 {
        le_unsigned(bytes.take(8)) as u64
    }

    fn from_bytes(bytes: &[u8]) -> (k: u64) {
        read_u64_le(bytes)
    }
}

/// The bytes in which a gateway reports a newly assigned row id.
pub fn key_bytes(row_id: i64) -> (bytes: Vec<u8>)
    ensures
        bytes@.len() == 8,
        le_i64(bytes@) == row_id,
{
    write_i64_le(row_id)
}

/// The key rebuilt from the bytes a gateway reports for a row id is that row
/// id.
pub proof fn law_row_id_roundtrip(row_id: i64, bytes: Seq<u8>)
    requires
        bytes.len() == 8,
        le_i64(bytes) == row_id,
    ensures
        <i64 as Key>::key_of(bytes) == row_id,
{
}

/// A key is read from the first eight bytes alone: bytes after them do not
/// change it.
pub proof fn law_key_ignores_trailing_bytes(bytes: Seq<u8>, extra: Seq<u8>)
    requires
        bytes.len() >= 8,
    ensures
        <i64 as Key>::key_of(bytes + extra) == <i64 as Key>::key_of(bytes),
{
    assert((bytes + extra).take(8) =~= bytes.take(8));
}

} // verus!
