//! The end-of-central-directory record: the summary that closes an
//! archive, followed only by its own comment.

use crate::reader::{field_bytes, field_u16, field_u32, has_signature, le16, le32};
use vstd::prelude::*;
use vstd::std_specs::convert::FromSpecImpl;

verus! {

broadcast use vstd::std_specs::control_flow::group_control_flow_axioms;

/// The four bytes `PK\x05\x06` that open the closing record, read as a
/// little-endian number.
pub const EOCD_SIGNATURE: u32 = 0x06054b50;

/// Size of the record without its comment.
pub const EOCD_MIN_SIZE: usize = 22;

#[derive(Debug)]
pub struct EOCD {
    pub signature: u32,
    pub number_of_this_disk: u16,
    pub number_of_disk_start_eocd: u16,
    pub total_number_of_entries_on_disk: u16,
    pub total_number_of_entries_in_cd: u16,
    pub cd_size: u32,
    pub cd_offset: u32,
    pub comment: Vec<u8>,
    /// Where the record starts in the buffer it was found in.
    pub eocd_offset: u32,
    /// Length of the record, comment included.
    pub eocd_size: u32,
}

#[derive(Debug)]
pub enum ParseEOCDError {
    TooShortDataLength,
    InvalidSignature,
    IOError(std::io::Error),
}

impl From<std::io::Error> for ParseEOCDError {
    fn from(error: std::io::Error) -> (e: Self) {
        ParseEOCDError::IOError(error)
    }
}

impl FromSpecImpl<std::io::Error> for ParseEOCDError {
    open spec fn obeys_from_spec() -> bool {
        true
    }

    open spec fn from_spec(error: std::io::Error) -> Self {
        ParseEOCDError::IOError(error)
    }
}

/// Whether a record's signature stands at `p`, far enough from the end of
/// `d` for the fixed fields to follow it.
pub open spec fn is_candidate(d: Seq<u8>, p: int) -> bool {
    p + EOCD_MIN_SIZE <= d.len() && has_signature(d, p, EOCD_SIGNATURE)
}

/// Whether `p` is the last position of `d` at which a record can start.
pub open spec fn is_eocd_position(d: Seq<u8>, p: int) -> bool {
    &&& is_candidate(d, p)
    &&& forall|q: int| p < q ==> !is_candidate(d, q)
}

/// The length that the record at `p` announces for its comment.
pub open spec fn comment_length_at(d: Seq<u8>, p: int) -> int {
    le16(d, p + 20)
}

impl EOCD {
    /// Whether `self` is the record that the bytes of `d` spell out from
    /// position `p` on, comment included.
    pub open spec fn is_record_at(&self, d: Seq<u8>, p: int) -> bool {
        &&& is_candidate(d, p)
        &&& p + EOCD_MIN_SIZE + comment_length_at(d, p) <= d.len()
        &&& self.signature == EOCD_SIGNATURE
        &&& self.number_of_this_disk == le16(d, p + 4)
        &&& self.number_of_disk_start_eocd == le16(d, p + 6)
        &&& self.total_number_of_entries_on_disk == le16(d, p + 8)
        &&& self.total_number_of_entries_in_cd == le16(d, p + 10)
        &&& self.cd_size == le32(d, p + 12)
        &&& self.cd_offset == le32(d, p + 16)
        &&& self.comment@ == d.subrange(
            p + EOCD_MIN_SIZE,
            p + EOCD_MIN_SIZE + comment_length_at(d, p),
        )
        &&& self.eocd_offset == p
        &&& self.eocd_size == EOCD_MIN_SIZE + comment_length_at(d, p)
    }
}

/// Whether `eocd` is the record that closes `d`: the last one that can
/// start in `d`, read with its whole comment.
pub open spec fn closes(eocd: EOCD, d: Seq<u8>) -> bool {
    &&& is_eocd_position(d, eocd.eocd_offset as int)
    &&& eocd.is_record_at(d, eocd.eocd_offset as int)
}

/// Whether the comment of the last record that can start in `d` is cut
/// short by the end of `d`.
pub open spec fn comment_is_cut(d: Seq<u8>) -> bool {
    exists|p: int|
        {
            &&& is_eocd_position(d, p)
            &&& p + EOCD_MIN_SIZE + comment_length_at(d, p) > d.len()
        }
}

/// Whether `r` is what looking for the closing record of `d` comes to.
pub open spec fn is_eocd_outcome(d: Seq<u8>, r: Result<EOCD, ParseEOCDError>) -> bool {
    match r {
        Ok(eocd) => closes(eocd, d),
        Err(ParseEOCDError::TooShortDataLength) => d.len() < EOCD_MIN_SIZE,
        Err(ParseEOCDError::InvalidSignature) => {
            &&& d.len() >= EOCD_MIN_SIZE
            &&& forall|p: int| !is_candidate(d, p)
        },
        Err(ParseEOCDError::IOError(_)) => comment_is_cut(d),
    }
}

/// A buffer of fewer than 22 bytes is too short to hold a closing record,
/// and no other buffer is; a buffer of 22 bytes or more is found to lack
/// the signature exactly if the signature stands at none of the places
/// where a record can start, and so whenever it stands nowhere at all.
pub proof fn lemma_buffer_without_record(d: Seq<u8>, r: Result<EOCD, ParseEOCDError>)
    requires
        is_eocd_outcome(d, r),
    ensures
        r matches Err(ParseEOCDError::TooShortDataLength) <==> d.len() < EOCD_MIN_SIZE,
        r matches Err(ParseEOCDError::InvalidSignature) <==> {
            &&& d.len() >= EOCD_MIN_SIZE
            &&& forall|p: int| !is_candidate(d, p)
        },
        d.len() >= EOCD_MIN_SIZE && (forall|p: int| !has_signature(d, p, EOCD_SIGNATURE))
            ==> r matches Err(ParseEOCDError::InvalidSignature),
{
}

/// Reads the record whose signature was found at `pos`.
fn read_record(data: &[u8], pos: usize, signature: u32) -> (r: Result<EOCD, ParseEOCDError>)
    requires
        data@.len() <= u32::MAX,
        is_candidate(data@, pos as int),
        signature == EOCD_SIGNATURE,
    ensures
        match r {
            Ok(eocd) => eocd.is_record_at(data@, pos as int),
            Err(ParseEOCDError::IOError(_)) => pos + EOCD_MIN_SIZE + comment_length_at(
                data@,
                pos as int,
            ) > data@.len(),
            Err(_) => false,
        },
{
    let number_of_this_disk = field_u16::<ParseEOCDError>(data, pos + 4)?;
    let number_of_disk_start_eocd = field_u16::<ParseEOCDError>(data, pos + 6)?;
    let total_number_of_entries_on_disk = field_u16::<ParseEOCDError>(data, pos + 8)?;
    let total_number_of_entries_in_cd = field_u16::<ParseEOCDError>(data, pos + 10)?;
    let cd_size = field_u32::<ParseEOCDError>(data, pos + 12)?;
    let cd_offset = field_u32::<ParseEOCDError>(data, pos + 16)?;
    let comment_length = field_u16::<ParseEOCDError>(data, pos + 20)?;
    let comment = field_bytes::<ParseEOCDError>(data, pos + EOCD_MIN_SIZE, comment_length)?;
    let eocd_size: u32 = 4 + 2 + 2 + 2 + 2 + 4 + 4 + 2 + comment_length as u32;
    Ok(
        EOCD {
            signature,
            number_of_this_disk,
            number_of_disk_start_eocd,
            total_number_of_entries_on_disk,
            total_number_of_entries_in_cd,
            cd_size,
            cd_offset,
            comment,
            eocd_offset: pos as u32,
            eocd_size,
        },
    )
}

/// Finds the end-of-central-directory record in the tail of an archive.
///
/// The record is followed by a comment whose length only the record
/// tells, so its signature is looked for from the last position at which
/// a record without comment would start, back to the start of the buffer.
/// The first signature met in that order is taken for the record's.
///
/// The place of the record is kept in 32 bits, so the buffer may not be
/// longer than 32 bits can count.
pub fn parse_eocd(data: &[u8]) -> (r: Result<EOCD, ParseEOCDError>)
    requires
        data@.len() <= u32::MAX,
    ensures
        is_eocd_outcome(data@, r),
{
    let length = data.len();
    if length < EOCD_MIN_SIZE {
        return Err(ParseEOCDError::TooShortDataLength);
    }
    let mut pos: usize = length - EOCD_MIN_SIZE;
    loop
        invariant
            length == data@.len(),
            length <= u32::MAX,
            pos + EOCD_MIN_SIZE <= length,
            forall|q: int| pos < q ==> !is_candidate(data@, q),
        decreases pos,
    {
        let signature = field_u32::<ParseEOCDError>(data, pos)?;
        if signature == EOCD_SIGNATURE {
            assert(is_eocd_position(data@, pos as int));
            return read_record(data, pos, signature);
        }
        if pos == 0 {
            return Err(ParseEOCDError::InvalidSignature);
        }
        pos = pos - 1;
    }
}

} // verus!
