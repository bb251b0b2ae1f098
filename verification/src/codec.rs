//! The compression methods that a member's data can be stored with.

use crate::local::LoadFileError;
use libflate::deflate::Decoder;
use std::io::Read;
use vstd::prelude::*;
use vstd::slice::slice_to_vec;

verus! {

/// The method that stores the contents as they are.
pub const COMPRESSION_METHOD_STORED: u16 = 0;

/// The method that stores the contents as a raw DEFLATE stream.
pub const COMPRESSION_METHOD_DEFLATED: u16 = 8;

/// The bytes that `libflate` decodes the raw DEFLATE stream `stream` to, or
/// `None` where it reports an error.
pub uninterp spec fn inflated(stream: Seq<u8>) -> Option<Seq<u8>>;

/// What there is to learn from a member's stored bytes.
pub enum Unpacked {
    /// The member's contents.
    Contents(Seq<u8>),
    /// The stored bytes are no valid stream of the method.
    Corrupt,
    /// The method is not one that the library knows.
    Unsupported(u16),
}

/// The contents that `payload` stands for under compression method `method`.
pub open spec fn unpacked(method: u16, payload: Seq<u8>) -> Unpacked {
    if method == COMPRESSION_METHOD_STORED {
        Unpacked::Contents(payload)
    } else if method == COMPRESSION_METHOD_DEFLATED {
        match inflated(payload) {
            Some(contents) => Unpacked::Contents(contents),
            None => Unpacked::Corrupt,
        }
    } else {
        Unpacked::Unsupported(method)
    }
}

/// Asks `Vec::try_reserve` for room for `additional` more bytes.
///
/// Trusted: the contents stay as they are, whether or not the room is
/// granted.
#[verifier::external_body]
fn reserve(buffer: &mut Vec<u8>, additional: usize)
    ensures
        final(buffer)@ == old(buffer)@,
{
    let _ = buffer.try_reserve(additional);
}

/// Decodes a raw DEFLATE stream with `libflate::deflate::Decoder`, read to
/// its end through `std::io::Read::read_to_end` into `buffer`.
///
/// Trusted: the outcome is a function of the stream alone, here called
/// `inflated`.
#[verifier::external_body]
fn inflate(stream: &[u8], buffer: Vec<u8>) -> (r: Result<Vec<u8>, std::io::Error>)
    requires
        buffer@.len() == 0,
    ensures
        r is Ok <==> inflated(stream@) is Some,
        r matches Ok(contents) ==> inflated(stream@) == Some(contents@),
{
    let mut decoder = Decoder::new(stream);
    let mut contents = buffer;
    match decoder.read_to_end(&mut contents) {
        Ok(_) => Ok(contents),
        Err(e) => Err(e),
    }
}

/// Gives the outcome of the decoder as the outcome of unpacking.
pub fn inflate_outcome(decoded: Result<Vec<u8>, std::io::Error>) -> (r: Result<
    Vec<u8>,
    LoadFileError,
>)
    ensures
        match (decoded, r) {
            (Ok(contents), Ok(out)) => out@ == contents@,
            (Err(_), Err(e)) => e is IOError,
            _ => false,
        },
{
    match decoded {
        Ok(contents) => Ok(contents),
        Err(cause) => Err(LoadFileError::IOError(cause)),
    }
}

/// Unpacks the stored bytes of a member.
///
/// `declared_size` is the size that the archive gives for the contents.
/// Room for as much is asked for ahead of decoding; the size is not held
/// against what comes out, and decoding goes on where the room is refused.
pub fn decompress(method: u16, payload: &[u8], declared_size: u32) -> (r: Result<
    Vec<u8>,
    LoadFileError,
>)
    ensures
        match r {
            Ok(contents) => unpacked(method, payload@) == Unpacked::Contents(contents@),
            Err(LoadFileError::IOError(_)) => unpacked(method, payload@) is Corrupt,
            Err(LoadFileError::UnsupportedCompressionMethod(m)) => unpacked(method, payload@)
                == Unpacked::Unsupported(m),
            Err(_) => false,
        },
{
    if method == COMPRESSION_METHOD_STORED {
        Ok(slice_to_vec(payload))
    } else if method == COMPRESSION_METHOD_DEFLATED {
        let mut buffer: Vec<u8> = Vec::new();
        reserve(&mut buffer, declared_size as usize);
        inflate_outcome(inflate(payload, buffer))
    } else {
        Err(LoadFileError::UnsupportedCompressionMethod(method))
    }
}

} // verus!
