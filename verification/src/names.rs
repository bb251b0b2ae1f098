//! Decoding of member names, which an archive stores either as UTF-8 or as
//! Shift_JIS. Both decoders are strict: a byte sequence that is not valid
//! in the chosen encoding is refused, never patched.

use encoding_rs::SHIFT_JIS;
use std::string::FromUtf8Error;
use vstd::prelude::*;
use vstd::std_specs::convert::FromSpecImpl;
use vstd::utf8::{decode_utf8, valid_utf8};

verus! {

/// `std::string::FromUtf8Error`, what `String::from_utf8` hands back for
/// bytes that are not UTF-8. Nothing is said of what it holds.
#[verifier::external_type_specification]
#[verifier::external_body]
pub struct ExFromUtf8Error(FromUtf8Error);

/// The encodings in which an archive stores names.
#[derive(Debug, Clone, Copy, PartialEq, Eq, Structural)]
pub enum NameEncoding {
    Utf8,
    ShiftJis,
}

/// Why a name could not be decoded.
#[derive(Debug)]
pub enum FileNameError {
    /// The bytes are not UTF-8.
    FromUtf8Error,
    /// The bytes are not Shift_JIS.
    FromSJISError,
}

impl NameEncoding {
    /// The encoding that the UTF-8 flag of a record selects.
    pub open spec fn selected_by(is_utf8: bool) -> NameEncoding {
        if is_utf8 {
            NameEncoding::Utf8
        } else {
            NameEncoding::ShiftJis
        }
    }

    /// The encoding that the UTF-8 flag of a record selects.
    pub fn of_flag(is_utf8: bool) -> (r: NameEncoding)
        ensures
            r == NameEncoding::selected_by(is_utf8),
    {
        if is_utf8 {
            NameEncoding::Utf8
        } else {
            NameEncoding::ShiftJis
        }
    }
}

impl From<FromUtf8Error> for FileNameError {
    fn from(_error: FromUtf8Error) -> (e: Self) {
        FileNameError::FromUtf8Error
    }
}

impl FromSpecImpl<FromUtf8Error> for FileNameError {
    open spec fn obeys_from_spec() -> bool {
        true
    }

    open spec fn from_spec(_error: FromUtf8Error) -> Self {
        FileNameError::FromUtf8Error
    }
}

/// The text that `encoding_rs` decodes `bytes` to as Shift_JIS, or `None`
/// where it finds a malformed sequence.
pub uninterp spec fn shift_jis_text(bytes: Seq<u8>) -> Option<Seq<char>>;

/// The longest name that a 16-bit length field can announce.
pub const MAX_NAME_LENGTH: usize = 0xFFFF;

/// What `bytes` stand for in `encoding`: the decoded text, or `None`
/// where the bytes are not valid in it.
pub open spec fn decoded_text(bytes: Seq<u8>, encoding: NameEncoding) -> Option<Seq<char>> {
    match encoding {
        NameEncoding::Utf8 => if valid_utf8(bytes) {
            Some(decode_utf8(bytes))
        } else {
            None
        },
        NameEncoding::ShiftJis => shift_jis_text(bytes),
    }
}

/// What the bytes of a name stand for: the decoded text, or `None` where
/// the bytes are not valid in the encoding that the flag selects.
pub open spec fn decoded_name(bytes: Seq<u8>, is_utf8: bool) -> Option<Seq<char>> {
    decoded_text(bytes, NameEncoding::selected_by(is_utf8))
}

/// Calls `String::from_utf8`.
///
/// Trusted: the call succeeds exactly on well-formed UTF-8, and the string
/// it gives holds the characters that the bytes encode.
#[verifier::external_body]
fn string_from_utf8(bytes: Vec<u8>) -> (r: Result<String, FromUtf8Error>)
    ensures
        r is Ok <==> valid_utf8(bytes@),
        r matches Ok(s) ==> s@ == decode_utf8(bytes@),
{
    String::from_utf8(bytes)
}

/// Calls `encoding_rs::Encoding::decode_without_bom_handling_and_without_replacement`
/// on `encoding_rs::SHIFT_JIS`.
///
/// Trusted: the result is a function of the bytes alone, here called
/// `shift_jis_text`. The call sets aside three bytes of output for each
/// byte of input and for one byte more, and panics where that size does
/// not fit; the bound keeps it far below.
#[verifier::external_body]
fn string_from_shift_jis(bytes: &[u8]) -> (r: Option<String>)
    requires
        bytes@.len() <= MAX_NAME_LENGTH,
    ensures
        r is Some <==> shift_jis_text(bytes@) is Some,
        r matches Some(s) ==> shift_jis_text(bytes@) == Some(s@),
{
    match SHIFT_JIS.decode_without_bom_handling_and_without_replacement(bytes) {
        Some(text) => Some(text.into_owned()),
        None => None,
    }
}

/// Decodes the bytes of a name in the given encoding. Nothing is
/// patched: bytes that are not valid in the encoding fail the call.
///
/// A name is at most as long as a 16-bit length field can announce.
pub fn decode_name(buf: &Vec<u8>, encoding: NameEncoding) -> (r: Result<String, FileNameError>)
    requires
        buf@.len() <= MAX_NAME_LENGTH,
    ensures
        match r {
            Ok(name) => decoded_text(buf@, encoding) == Some(name@),
            Err(FileNameError::FromUtf8Error) => {
                &&& encoding == NameEncoding::Utf8
                &&& decoded_text(buf@, encoding) is None
            },
            Err(FileNameError::FromSJISError) => {
                &&& encoding == NameEncoding::ShiftJis
                &&& decoded_text(buf@, encoding) is None
            },
        },
{
    match encoding {
        NameEncoding::Utf8 => match string_from_utf8(buf.clone()) {
            Ok(name) => Ok(name),
            Err(e) => Err(FileNameError::from(e)),
        },
        NameEncoding::ShiftJis => match string_from_shift_jis(buf.as_slice()) {
            Some(name) => Ok(name),
            None => Err(FileNameError::FromSJISError),
        },
    }
}

/// Decodes the bytes of a member name, as UTF-8 if `is_utf8` is set and as
/// Shift_JIS otherwise.
pub fn decode_file_name(buf: &Vec<u8>, is_utf8: bool) -> (r: Result<String, FileNameError>)
    requires
        buf@.len() <= MAX_NAME_LENGTH,
    ensures
        match r {
            Ok(name) => decoded_name(buf@, is_utf8) == Some(name@),
            Err(FileNameError::FromUtf8Error) => is_utf8 && decoded_name(buf@, is_utf8) is None,
            Err(FileNameError::FromSJISError) => !is_utf8 && decoded_name(buf@, is_utf8) is None,
        },
{
    decode_name(buf, NameEncoding::of_flag(is_utf8))
}

} // verus!
