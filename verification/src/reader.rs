//! Little-endian fields read out of a byte buffer at a given position.

use podio::{LittleEndian, ReadPodExt};
use std::io::Cursor;
use vstd::prelude::*;
use vstd::std_specs::convert::FromSpec;

verus! {

/// `std::io::Error`, the cause that a failed read or a failed decoding
/// hands on. Nothing is said of what it holds.
#[verifier::external_type_specification]
#[verifier::external_body]
pub struct ExIoError(std::io::Error);

/// The 16-bit little-endian number whose two bytes start at `at`.
pub open spec fn le16(d: Seq<u8>, at: int) -> int {
    d[at] as int + 0x100 * (d[at + 1] as int)
}

/// The 32-bit little-endian number whose four bytes start at `at`.
pub open spec fn le32(d: Seq<u8>, at: int) -> int {
    d[at] as int + 0x100 * (d[at + 1] as int) + 0x1_0000 * (d[at + 2] as int) + 0x100_0000 * (
    d[at + 3] as int)
}

/// Reads two bytes at `pos` with `podio::ReadPodExt::read_u16::<LittleEndian>`
/// on a `std::io::Cursor` placed there.
///
/// Trusted: the read succeeds exactly when both bytes lie inside the
/// buffer, and then gives their little-endian value.
#[verifier::external_body]
fn read_u16(data: &[u8], pos: usize) -> (r: Result<u16, std::io::Error>)
    ensures
        r is Ok <==> pos + 2 <= data@.len(),
        r matches Ok(v) ==> v as int == le16(data@, pos as int),
{
    let mut cursor = Cursor::new(data);
    cursor.set_position(pos as u64);
    cursor.read_u16::<LittleEndian>()
}

/// Reads four bytes at `pos` with `podio::ReadPodExt::read_u32::<LittleEndian>`
/// on a `std::io::Cursor` placed there.
///
/// Trusted: the read succeeds exactly when all four bytes lie inside the
/// buffer, and then gives their little-endian value.
#[verifier::external_body]
fn read_u32(data: &[u8], pos: usize) -> (r: Result<u32, std::io::Error>)
    ensures
        r is Ok <==> pos + 4 <= data@.len(),
        r matches Ok(v) ==> v as int == le32(data@, pos as int),
{
    let mut cursor = Cursor::new(data);
    cursor.set_position(pos as u64);
    cursor.read_u32::<LittleEndian>()
}

/// Copies `n` bytes starting at `pos` with `podio::ReadPodExt::read_exact`
/// on a `std::io::Cursor` placed there.
///
/// Trusted: the read succeeds exactly when the `n` bytes lie inside the
/// buffer, and then gives a copy of them.
#[verifier::external_body]
fn read_bytes(data: &[u8], pos: usize, n: u16) -> (r: Result<Vec<u8>, std::io::Error>)
    requires
        pos <= data@.len(),
    ensures
        r is Ok <==> pos + n <= data@.len(),
        r matches Ok(v) ==> v@ == data@.subrange(pos as int, pos + n),
{
    let mut cursor = Cursor::new(data);
    cursor.set_position(pos as u64);
    ReadPodExt::read_exact(&mut cursor, n as usize)
}

/// Makes the error that tells of input that ends too early, with
/// `std::io::Error::from` on `std::io::ErrorKind::UnexpectedEof`.
#[verifier::external_body]
pub(crate) fn end_of_input() -> std::io::Error {
    std::io::Error::from(std::io::ErrorKind::UnexpectedEof)
}

/// Whether `e` is what the error type `E` makes of a read that failed.
pub open spec fn is_read_failure<E: From<std::io::Error>>(e: E) -> bool {
    exists|cause: std::io::Error| e == E::from_spec(cause)
}

/// The 16-bit field at `at`, or the failure to read it.
pub(crate) fn field_u16<E: From<std::io::Error>>(data: &[u8], at: usize) -> (r: Result<u16, E>)
    ensures
        r is Ok <==> at + 2 <= data@.len(),
        r matches Ok(v) ==> v as int == le16(data@, at as int),
        r matches Err(e) ==> E::obeys_from_spec() ==> is_read_failure(e),
{
    match read_u16(data, at) {
        Ok(v) => Ok(v),
        Err(cause) => Err(E::from(cause)),
    }
}

/// The 32-bit field at `at`, or the failure to read it.
pub(crate) fn field_u32<E: From<std::io::Error>>(data: &[u8], at: usize) -> (r: Result<u32, E>)
    ensures
        r is Ok <==> at + 4 <= data@.len(),
        r matches Ok(v) ==> v as int == le32(data@, at as int),
        r matches Err(e) ==> E::obeys_from_spec() ==> is_read_failure(e),
{
    match read_u32(data, at) {
        Ok(v) => Ok(v),
        Err(cause) => Err(E::from(cause)),
    }
}

/// A copy of the `n` bytes at `at`, or the failure to read them.
pub(crate) fn field_bytes<E: From<std::io::Error>>(data: &[u8], at: usize, n: u16) -> (r: Result<Vec<u8>, E>)
    requires
        at <= data@.len(),
    ensures
        r is Ok <==> at + n <= data@.len(),
        r matches Ok(v) ==> v@ == data@.subrange(at as int, at + n),
        r matches Err(e) ==> E::obeys_from_spec() ==> is_read_failure(e),
{
    match read_bytes(data, at, n) {
        Ok(v) => Ok(v),
        Err(cause) => Err(E::from(cause)),
    }
}

/// Whether the four bytes at `at` spell the 32-bit number `signature`.
pub open spec fn has_signature(d: Seq<u8>, at: int, signature: u32) -> bool {
    0 <= at && at + 4 <= d.len() && le32(d, at) == signature
}

} // verus!
