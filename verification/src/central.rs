//! The central directory: one record for each member of the archive, laid
//! end to end.

use crate::names::{decode_file_name, decoded_name, FileNameError};
use crate::reader::{field_bytes, field_u16, field_u32, le16, le32};
use vstd::prelude::*;
use vstd::std_specs::convert::FromSpecImpl;

verus! {

broadcast use vstd::std_specs::control_flow::group_control_flow_axioms;

/// The four bytes `PK\x01\x02` that open a record of the central
/// directory, read as a little-endian number.
pub const CD_SIGNATURE: u32 = 0x02014b50;

/// Size of a record without its name, extra field and comment.
pub const CD_HEADER_SIZE: usize = 46;

/// Bit of the general purpose flags that marks an encrypted member.
pub const FLAG_ENCRYPTED: u16 = 0x0001;

/// Bit of the general purpose flags that defers checksum and sizes to a
/// descriptor behind the member's data.
pub const FLAG_DATA_DESCRIPTOR: u16 = 0x0008;

/// Bit of the general purpose flags that marks a name stored as UTF-8.
pub const FLAG_UTF8: u16 = 0x0800;

#[derive(Debug)]
pub struct CDHeader {
    pub signature: u32,
    pub version_made_by: u16,
    pub version_needed_to_extract: u16,
    pub general_purpose_bit_flag: u16,
    pub compression_method: u16,
    pub last_mod_file_time: u16,
    pub last_mod_file_date: u16,
    pub crc32: u32,
    pub compressed_size: u32,
    pub uncompressed_size: u32,
    pub file_name_length: u16,
    pub extra_field_length: u16,
    pub file_comment_length: u16,
    pub disk_number_start: u16,
    pub internal_file_attributes: u16,
    pub external_file_attributes: u32,
    pub relative_offset_of_local_header: u32,
    pub file_name: String,
    pub extra_field: Vec<u8>,
    pub file_comment: Vec<u8>,
    pub is_utf8: bool,
    pub is_encrypted: bool,
}

#[derive(Debug)]
pub enum ParseCDError {
    InvalidSignature,
    FileNameConversionError,
    IOError(std::io::Error),
}

/// What stands at a position of the central directory.
pub enum RecordStatus {
    /// A whole record with a name that decodes.
    Complete,
    /// The buffer ends inside the record.
    Truncated,
    /// The first four bytes are not the record's signature.
    WrongSignature,
    /// The bytes of the name are not valid in the encoding that the flags
    /// select.
    BadName,
}

/// Whether the flags mark the name as UTF-8.
pub open spec fn flags_say_utf8(flags: u16) -> bool {
    flags & FLAG_UTF8 != 0
}

/// Whether the flags mark the member as encrypted.
pub open spec fn flags_say_encrypted(flags: u16) -> bool {
    flags & FLAG_ENCRYPTED == 1
}

/// Whether the flags defer checksum and sizes to a data descriptor.
pub open spec fn flags_say_deferred(flags: u16) -> bool {
    flags & FLAG_DATA_DESCRIPTOR != 0
}

/// Length of the record at `p`, as its three length fields give it.
pub open spec fn record_size(d: Seq<u8>, p: int) -> int {
    CD_HEADER_SIZE + le16(d, p + 28) + le16(d, p + 30) + le16(d, p + 32)
}

/// The bytes of the name in the record at `p`.
pub open spec fn record_name(d: Seq<u8>, p: int) -> Seq<u8> {
    d.subrange(p + CD_HEADER_SIZE, p + CD_HEADER_SIZE + le16(d, p + 28))
}

/// What a reader finds at `p` when it expects a record there.
pub open spec fn record_status(d: Seq<u8>, p: int) -> RecordStatus {
    if p + 4 > d.len() {
        RecordStatus::Truncated
    } else if le32(d, p) != CD_SIGNATURE {
        RecordStatus::WrongSignature
    } else if p + CD_HEADER_SIZE > d.len() || p + record_size(d, p) > d.len() {
        RecordStatus::Truncated
    } else if decoded_name(record_name(d, p), flags_say_utf8(le16(d, p + 8) as u16)) is None {
        RecordStatus::BadName
    } else {
        RecordStatus::Complete
    }
}

/// Where the record with index `k` starts, if every record before it
/// has the length that its fields announce.
pub open spec fn record_start(d: Seq<u8>, k: int) -> int
    decreases k,
{
    if k <= 0 {
        0
    } else {
        record_start(d, k - 1) + record_size(d, record_start(d, k - 1))
    }
}

impl CDHeader {
    /// Whether `self` is the record that the bytes of `d` spell out from
    /// position `p` on.
    pub open spec fn is_record_at(&self, d: Seq<u8>, p: int) -> bool {
        &&& 0 <= p
        &&& p + record_size(d, p) <= d.len()
        &&& self.signature == CD_SIGNATURE
        &&& self.signature == le32(d, p)
        &&& self.version_made_by == le16(d, p + 4)
        &&& self.version_needed_to_extract == le16(d, p + 6)
        &&& self.general_purpose_bit_flag == le16(d, p + 8)
        &&& self.compression_method == le16(d, p + 10)
        &&& self.last_mod_file_time == le16(d, p + 12)
        &&& self.last_mod_file_date == le16(d, p + 14)
        &&& self.crc32 == le32(d, p + 16)
        &&& self.compressed_size == le32(d, p + 20)
        &&& self.uncompressed_size == le32(d, p + 24)
        &&& self.file_name_length == le16(d, p + 28)
        &&& self.extra_field_length == le16(d, p + 30)
        &&& self.file_comment_length == le16(d, p + 32)
        &&& self.disk_number_start == le16(d, p + 34)
        &&& self.internal_file_attributes == le16(d, p + 36)
        &&& self.external_file_attributes == le32(d, p + 38)
        &&& self.relative_offset_of_local_header == le32(d, p + 42)
        &&& decoded_name(record_name(d, p), self.is_utf8) == Some(self.file_name@)
        &&& self.extra_field@ == d.subrange(
            p + CD_HEADER_SIZE + self.file_name_length,
            p + CD_HEADER_SIZE + self.file_name_length + self.extra_field_length,
        )
        &&& self.file_comment@ == d.subrange(
            p + CD_HEADER_SIZE + self.file_name_length + self.extra_field_length,
            p + record_size(d, p),
        )
        &&& self.is_utf8 == flags_say_utf8(self.general_purpose_bit_flag)
        &&& self.is_encrypted == flags_say_encrypted(self.general_purpose_bit_flag)
    }
}

impl ParseCDError {
    /// The state of a record that makes the parser fail with `self`.
    pub open spec fn status(&self) -> RecordStatus {
        match self {
            ParseCDError::InvalidSignature => RecordStatus::WrongSignature,
            ParseCDError::FileNameConversionError => RecordStatus::BadName,
            ParseCDError::IOError(_) => RecordStatus::Truncated,
        }
    }
}

impl From<std::io::Error> for ParseCDError {
    fn from(error: std::io::Error) -> (e: Self) {
        ParseCDError::IOError(error)
    }
}

impl FromSpecImpl<std::io::Error> for ParseCDError {
    open spec fn obeys_from_spec() -> bool {
        true
    }

    open spec fn from_spec(error: std::io::Error) -> Self {
        ParseCDError::IOError(error)
    }
}

impl From<FileNameError> for ParseCDError {
    fn from(_error: FileNameError) -> (e: Self) {
        ParseCDError::FileNameConversionError
    }
}

impl FromSpecImpl<FileNameError> for ParseCDError {
    open spec fn obeys_from_spec() -> bool {
        true
    }

    open spec fn from_spec(_error: FileNameError) -> Self {
        ParseCDError::FileNameConversionError
    }
}

/// Reads the record that starts at `pos`.
fn parse_cd_record(data: &[u8], pos: usize) -> (r: Result<CDHeader, ParseCDError>)
    requires
        pos <= data.len(),
    ensures
        match r {
            Ok(header) => {
                &&& record_status(data@, pos as int) is Complete
                &&& header.is_record_at(data@, pos as int)
            },
            Err(e) => record_status(data@, pos as int) == e.status() && !(e.status() is Complete),
        },
{
    let signature = field_u32::<ParseCDError>(data, pos)?;
    if signature != CD_SIGNATURE {
        return Err(ParseCDError::InvalidSignature);
    }
    let version_made_by = field_u16::<ParseCDError>(data, pos + 4)?;
    let version_needed_to_extract = field_u16::<ParseCDError>(data, pos + 6)?;
    let general_purpose_bit_flag = field_u16::<ParseCDError>(data, pos + 8)?;
    let compression_method = field_u16::<ParseCDError>(data, pos + 10)?;
    let last_mod_file_time = field_u16::<ParseCDError>(data, pos + 12)?;
    let last_mod_file_date = field_u16::<ParseCDError>(data, pos + 14)?;
    let crc32 = field_u32::<ParseCDError>(data, pos + 16)?;
    let compressed_size = field_u32::<ParseCDError>(data, pos + 20)?;
    let uncompressed_size = field_u32::<ParseCDError>(data, pos + 24)?;
    let file_name_length = field_u16::<ParseCDError>(data, pos + 28)?;
    let extra_field_length = field_u16::<ParseCDError>(data, pos + 30)?;
    let file_comment_length = field_u16::<ParseCDError>(data, pos + 32)?;
    let disk_number_start = field_u16::<ParseCDError>(data, pos + 34)?;
    let internal_file_attributes = field_u16::<ParseCDError>(data, pos + 36)?;
    let external_file_attributes = field_u32::<ParseCDError>(data, pos + 38)?;
    let relative_offset_of_local_header = field_u32::<ParseCDError>(data, pos + 42)?;
    let name_at = pos + CD_HEADER_SIZE;
    let file_name_bytes = field_bytes::<ParseCDError>(data, name_at, file_name_length)?;
    let extra_at = name_at + file_name_length as usize;
    let extra_field = field_bytes::<ParseCDError>(data, extra_at, extra_field_length)?;
    let comment_at = extra_at + extra_field_length as usize;
    let file_comment = field_bytes::<ParseCDError>(data, comment_at, file_comment_length)?;

    let is_utf8 = general_purpose_bit_flag & FLAG_UTF8 != 0;
    let is_encrypted = general_purpose_bit_flag & FLAG_ENCRYPTED == 1;

    let file_name = match decode_file_name(&file_name_bytes, is_utf8) {
        Ok(name) => name,
        Err(e) => return Err(ParseCDError::from(e)),
    };
    Ok(
        CDHeader {
            signature,
            version_made_by,
            version_needed_to_extract,
            general_purpose_bit_flag,
            compression_method,
            last_mod_file_time,
            last_mod_file_date,
            crc32,
            compressed_size,
            uncompressed_size,
            file_name_length,
            extra_field_length,
            file_comment_length,
            disk_number_start,
            internal_file_attributes,
            external_file_attributes,
            relative_offset_of_local_header,
            file_name,
            extra_field,
            file_comment,
            is_utf8,
            is_encrypted,
        },
    )
}

/// Whether `entries` are the first records of `d`, in the order in which
/// they stand there.
pub open spec fn are_first_records(entries: Seq<CDHeader>, d: Seq<u8>) -> bool {
    forall|i: int|
        0 <= i < entries.len() ==> {
            &&& record_status(d, #[trigger] record_start(d, i)) is Complete
            &&& entries[i].is_record_at(d, record_start(d, i))
        }
}

/// Whether the record with index `k` is the first of `d` that cannot be
/// read, and `status` is what stands in its place.
pub open spec fn is_first_failure(d: Seq<u8>, k: int, status: RecordStatus) -> bool {
    &&& 0 <= k
    &&& forall|i: int| 0 <= i < k ==> record_status(d, #[trigger] record_start(d, i)) is Complete
    &&& record_status(d, record_start(d, k)) == status
    &&& !(status is Complete)
}

/// Whether `r` is what reading the first `count` records of `d` comes
/// to.
pub open spec fn is_cd_outcome(d: Seq<u8>, count: int, r: Result<Vec<CDHeader>, ParseCDError>) -> bool {
    match r {
        Ok(entries) => entries@.len() == count && are_first_records(entries@, d),
        Err(e) => exists|k: int| k < count && is_first_failure(d, k, e.status()),
    }
}

/// Parses the first `count` records of a central directory.
///
/// `data` starts where the directory starts. The records come back in the
/// order in which they stand in the buffer; what follows the last of them
/// is not looked at. The first record that cannot be read fails the whole
/// call.
pub fn parse_cd(data: &[u8], count: usize) -> (r: Result<Vec<CDHeader>, ParseCDError>)
    ensures
        is_cd_outcome(data@, count as int, r),
{
    let mut cdhs: Vec<CDHeader> = Vec::new();
    let mut pos: usize = 0;
    while cdhs.len() < count
        invariant
            cdhs@.len() <= count,
            pos <= data.len(),
            pos == record_start(data@, cdhs@.len() as int),
            are_first_records(cdhs@, data@),
        decreases count - cdhs@.len(),
    {
        let cdh = match parse_cd_record(data, pos) {
            Ok(cdh) => cdh,
            Err(e) => {
                assert(is_first_failure(data@, cdhs@.len() as int, e.status()));
                return Err(e);
            },
        };
        pos = pos + CD_HEADER_SIZE + cdh.file_name_length as usize + cdh.extra_field_length as usize
            + cdh.file_comment_length as usize;
        cdhs.push(cdh);
    }
    Ok(cdhs)
}

} // verus!
