//! The local file header that precedes a member's data, and the
//! extraction of the member once the header has been held against the
//! member's record in the central directory.

use crate::central::{
    flags_say_deferred, flags_say_encrypted, flags_say_utf8, CDHeader, FLAG_DATA_DESCRIPTOR,
    FLAG_ENCRYPTED, FLAG_UTF8,
};
use crate::codec::{decompress, unpacked, Unpacked};
use crate::names::{decode_file_name, decoded_name, FileNameError};
use crate::reader::{
    end_of_input, field_bytes, field_u16, field_u32, has_signature, le16, le32,
};
use vstd::prelude::*;
use vstd::std_specs::convert::FromSpecImpl;
use vstd::slice::slice_subrange;

verus! {

broadcast use vstd::std_specs::control_flow::group_control_flow_axioms;

/// The four bytes `PK\x03\x04` that open a local file header, read as a
/// little-endian number.
pub const LFH_SIGNATURE: u32 = 0x04034b50;

/// Size of a local file header without its name and extra field.
pub const LFH_HEADER_SIZE: usize = 30;

/// Size of the descriptor that follows the data of a member whose header
/// defers checksum and sizes.
pub const DATA_DESCRIPTOR_SIZE: usize = 12;

#[derive(Debug)]
pub enum LoadFileError {
    /// Not given out by this module, which counts a wrong signature as a
    /// mismatch.
    InvalidSignature,
    /// The name in the local file header does not decode.
    FileNameConversionError,
    /// The buffer does not start with a local file header, or the header
    /// disagrees with the record of the central directory.
    UnmatchHeader,
    /// The member is packed by a method other than store and deflate.
    UnsupportedCompressionMethod(u16),
    /// The buffer ends too early, or the data is no valid stream.
    IOError(std::io::Error),
    /// The member is encrypted.
    Encrypted,
}

/// The kinds of failure that `LoadFileError` tells apart.
pub enum LoadFault {
    InvalidSignature,
    FileNameConversion,
    UnmatchHeader,
    UnsupportedCompressionMethod(u16),
    IO,
    Encrypted,
}

impl LoadFileError {
    /// The kind of failure that `self` tells of.
    pub open spec fn fault(&self) -> LoadFault {
        match self {
            LoadFileError::InvalidSignature => LoadFault::InvalidSignature,
            LoadFileError::FileNameConversionError => LoadFault::FileNameConversion,
            LoadFileError::UnmatchHeader => LoadFault::UnmatchHeader,
            LoadFileError::UnsupportedCompressionMethod(m) => LoadFault::UnsupportedCompressionMethod(
                *m,
            ),
            LoadFileError::IOError(_) => LoadFault::IO,
            LoadFileError::Encrypted => LoadFault::Encrypted,
        }
    }
}

impl From<std::io::Error> for LoadFileError {
    fn from(error: std::io::Error) -> (e: Self) {
        LoadFileError::IOError(error)
    }
}

impl FromSpecImpl<std::io::Error> for LoadFileError {
    open spec fn obeys_from_spec() -> bool {
        true
    }

    open spec fn from_spec(error: std::io::Error) -> Self {
        LoadFileError::IOError(error)
    }
}

impl From<FileNameError> for LoadFileError {
    fn from(_error: FileNameError) -> (e: Self) {
        LoadFileError::FileNameConversionError
    }
}

impl FromSpecImpl<FileNameError> for LoadFileError {
    open spec fn obeys_from_spec() -> bool {
        true
    }

    open spec fn from_spec(_error: FileNameError) -> Self {
        LoadFileError::FileNameConversionError
    }
}

/// Checksum and sizes of a member, as a header or a descriptor states them.
#[derive(Debug, Clone, Copy)]
pub struct DataDescriptor {
    pub crc32: u32,
    pub compressed_size: u32,
    pub uncompressed_size: u32,
}

/// What a local file header says of its member.
#[derive(Debug)]
pub struct LocalHeader {
    pub general_purpose_bit_flag: u16,
    pub compression_method: u16,
    pub crc32: u32,
    pub compressed_size: u32,
    pub uncompressed_size: u32,
    pub file_name_length: u16,
    pub extra_field_length: u16,
    pub file_name: String,
    pub is_utf8: bool,
    pub is_encrypted: bool,
    /// Whether checksum and sizes are deferred to a descriptor behind the
    /// data.
    pub is_deferred: bool,
}

/// The fields in which a local file header and a record of the central
/// directory disagree.
#[derive(Debug, Clone, Copy)]
pub struct HeaderMismatch {
    pub file_name: bool,
    pub crc32: bool,
    pub is_encrypted: bool,
    pub compressed_size: bool,
    pub uncompressed_size: bool,
}

/// The flags of the header that `d` starts with.
pub open spec fn local_flags(d: Seq<u8>) -> u16 {
    le16(d, 6) as u16
}

/// The bytes of the name in the header that `d` starts with.
pub open spec fn local_name(d: Seq<u8>) -> Seq<u8> {
    d.subrange(LFH_HEADER_SIZE as int, LFH_HEADER_SIZE + le16(d, 26))
}

/// Where the member's data starts in `d`: behind the header, the name and
/// the extra field.
pub open spec fn payload_start(d: Seq<u8>) -> int {
    LFH_HEADER_SIZE + le16(d, 26) + le16(d, 28)
}

/// Why the header that `d` starts with cannot be read, if it cannot.
pub open spec fn header_fault(d: Seq<u8>) -> Option<LoadFault> {
    if d.len() < 4 {
        Some(LoadFault::IO)
    } else if !has_signature(d, 0, LFH_SIGNATURE) {
        Some(LoadFault::UnmatchHeader)
    } else if d.len() < LFH_HEADER_SIZE || d.len() < LFH_HEADER_SIZE + le16(d, 26) {
        Some(LoadFault::IO)
    } else if decoded_name(local_name(d), flags_say_utf8(local_flags(d))) is None {
        Some(LoadFault::FileNameConversion)
    } else {
        None
    }
}

/// Checksum and sizes as the fixed part of the header gives them.
pub open spec fn header_sizes(d: Seq<u8>) -> DataDescriptor {
    DataDescriptor {
        crc32: le32(d, 14) as u32,
        compressed_size: le32(d, 18) as u32,
        uncompressed_size: le32(d, 22) as u32,
    }
}

/// Checksum and sizes as the last twelve bytes of `d` give them.
pub open spec fn trailing_sizes(d: Seq<u8>) -> DataDescriptor {
    DataDescriptor {
        crc32: le32(d, d.len() - 12) as u32,
        compressed_size: le32(d, d.len() - 8) as u32,
        uncompressed_size: le32(d, d.len() - 4) as u32,
    }
}

/// Checksum and sizes that hold for the member in `d`: those of the
/// trailing descriptor where the header defers to it, else the header's.
pub open spec fn stated_sizes(d: Seq<u8>) -> DataDescriptor {
    if flags_say_deferred(local_flags(d)) {
        trailing_sizes(d)
    } else {
        header_sizes(d)
    }
}

impl LocalHeader {
    /// Whether `self` gives the header that `d` starts with, with `sizes`
    /// for checksum and sizes.
    pub open spec fn describes(&self, d: Seq<u8>, sizes: DataDescriptor) -> bool {
        &&& header_fault(d) is None
        &&& self.general_purpose_bit_flag == local_flags(d)
        &&& self.compression_method == le16(d, 8)
        &&& self.crc32 == sizes.crc32
        &&& self.compressed_size == sizes.compressed_size
        &&& self.uncompressed_size == sizes.uncompressed_size
        &&& self.file_name_length == le16(d, 26)
        &&& self.extra_field_length == le16(d, 28)
        &&& decoded_name(local_name(d), self.is_utf8) == Some(self.file_name@)
        &&& self.is_utf8 == flags_say_utf8(self.general_purpose_bit_flag)
        &&& self.is_encrypted == flags_say_encrypted(self.general_purpose_bit_flag)
        &&& self.is_deferred == flags_say_deferred(self.general_purpose_bit_flag)
    }

    /// The header with checksum and sizes replaced by those of `descriptor`.
    pub fn with_sizes(self, descriptor: DataDescriptor) -> (r: LocalHeader)
        ensures
            r == (LocalHeader {
                crc32: descriptor.crc32,
                compressed_size: descriptor.compressed_size,
                uncompressed_size: descriptor.uncompressed_size,
                ..self
            }),
    {
        LocalHeader {
            crc32: descriptor.crc32,
            compressed_size: descriptor.compressed_size,
            uncompressed_size: descriptor.uncompressed_size,
            ..self
        }
    }
}

impl HeaderMismatch {
    /// Whether the two headers disagree in any field.
    pub fn any(&self) -> (r: bool)
        ensures
            r == (self.file_name || self.crc32 || self.is_encrypted || self.compressed_size
                || self.uncompressed_size),
    {
        self.file_name || self.crc32 || self.is_encrypted || self.compressed_size
            || self.uncompressed_size
    }
}

/// Holds a local file header against the member's record in the central
/// directory, field by field.
pub fn compare_headers(local: &LocalHeader, cdh: &CDHeader) -> (r: HeaderMismatch)
    ensures
        r.file_name == (local.file_name@ != cdh.file_name@),
        r.crc32 == (local.crc32 != cdh.crc32),
        r.is_encrypted == (local.is_encrypted != cdh.is_encrypted),
        r.compressed_size == (local.compressed_size != cdh.compressed_size),
        r.uncompressed_size == (local.uncompressed_size != cdh.uncompressed_size),
{
    HeaderMismatch {
        file_name: local.file_name != cdh.file_name,
        crc32: local.crc32 != cdh.crc32,
        is_encrypted: local.is_encrypted != cdh.is_encrypted,
        compressed_size: local.compressed_size != cdh.compressed_size,
        uncompressed_size: local.uncompressed_size != cdh.uncompressed_size,
    }
}

/// Reads the header that `data` starts with, checksum and sizes as its
/// fixed part gives them.
pub fn read_local_header(data: &[u8]) -> (r: Result<LocalHeader, LoadFileError>)
    ensures
        match r {
            Ok(header) => header.describes(data@, header_sizes(data@)),
            Err(e) => header_fault(data@) == Some(e.fault()),
        },
{
    let signature = field_u32::<LoadFileError>(data, 0)?;
    if signature != LFH_SIGNATURE {
        return Err(LoadFileError::UnmatchHeader);
    }
    let general_purpose_bit_flag = field_u16::<LoadFileError>(data, 6)?;
    let compression_method = field_u16::<LoadFileError>(data, 8)?;
    let crc32 = field_u32::<LoadFileError>(data, 14)?;
    let compressed_size = field_u32::<LoadFileError>(data, 18)?;
    let uncompressed_size = field_u32::<LoadFileError>(data, 22)?;
    let file_name_length = field_u16::<LoadFileError>(data, 26)?;
    let extra_field_length = field_u16::<LoadFileError>(data, 28)?;
    let file_name_bytes = field_bytes::<LoadFileError>(data, LFH_HEADER_SIZE, file_name_length)?;

    let is_encrypted = general_purpose_bit_flag & FLAG_ENCRYPTED == 1;
    let is_utf8 = general_purpose_bit_flag & FLAG_UTF8 != 0;
    let is_deferred = general_purpose_bit_flag & FLAG_DATA_DESCRIPTOR != 0;

    let file_name = match decode_file_name(&file_name_bytes, is_utf8) {
        Ok(name) => name,
        Err(e) => return Err(LoadFileError::from(e)),
    };
    Ok(
        LocalHeader {
            general_purpose_bit_flag,
            compression_method,
            crc32,
            compressed_size,
            uncompressed_size,
            file_name_length,
            extra_field_length,
            file_name,
            is_utf8,
            is_encrypted,
            is_deferred,
        },
    )
}

/// Reads the descriptor that the last twelve bytes of `data` hold.
fn read_trailing_sizes(data: &[u8]) -> (r: Result<DataDescriptor, LoadFileError>)
    requires
        data.len() >= DATA_DESCRIPTOR_SIZE,
    ensures
        r matches Ok(sizes) && sizes == trailing_sizes(data@),
{
    let at = data.len() - DATA_DESCRIPTOR_SIZE;
    let crc32 = field_u32::<LoadFileError>(data, at)?;
    let compressed_size = field_u32::<LoadFileError>(data, at + 4)?;
    let uncompressed_size = field_u32::<LoadFileError>(data, at + 8)?;
    Ok(DataDescriptor { crc32, compressed_size, uncompressed_size })
}

/// Reads the header that `data` starts with. Where the header defers
/// checksum and sizes, they are those of the descriptor that the last
/// twelve bytes of `data` hold.
pub fn parse_local_header(data: &[u8]) -> (r: Result<LocalHeader, LoadFileError>)
    ensures
        match r {
            Ok(header) => header.describes(data@, stated_sizes(data@)),
            Err(e) => header_fault(data@) == Some(e.fault()),
        },
{
    let header = read_local_header(data)?;
    if header.is_deferred {
        let sizes = read_trailing_sizes(data)?;
        Ok(header.with_sizes(sizes))
    } else {
        Ok(header)
    }
}

/// Whether the header that `d` starts with agrees with the record `cdh`
/// in name, checksum, encryption and both sizes.
pub open spec fn agrees(d: Seq<u8>, cdh: CDHeader) -> bool {
    &&& decoded_name(local_name(d), flags_say_utf8(local_flags(d))) == Some(cdh.file_name@)
    &&& stated_sizes(d).crc32 == cdh.crc32
    &&& flags_say_encrypted(local_flags(d)) == cdh.is_encrypted
    &&& stated_sizes(d).compressed_size == cdh.compressed_size
    &&& stated_sizes(d).uncompressed_size == cdh.uncompressed_size
}

/// The stored bytes of the member in `d`, `size` of them.
pub open spec fn payload(d: Seq<u8>, size: int) -> Seq<u8> {
    d.subrange(payload_start(d), payload_start(d) + size)
}

/// What unpacking `stored` by `method` comes to: the contents, or the
/// failure.
pub open spec fn unpacking(method: u16, stored: Seq<u8>) -> Result<Seq<u8>, LoadFault> {
    match unpacked(method, stored) {
        Unpacked::Contents(contents) => Ok(contents),
        Unpacked::Corrupt => Err(LoadFault::IO),
        Unpacked::Unsupported(m) => Err(LoadFault::UnsupportedCompressionMethod(m)),
    }
}

/// What extracting the member of record `cdh` from `d` comes to: the
/// member's contents, or the first failure on the way.
pub open spec fn extraction(d: Seq<u8>, cdh: CDHeader) -> Result<Seq<u8>, LoadFault> {
    if header_fault(d) is Some {
        Err(header_fault(d).unwrap())
    } else if !agrees(d, cdh) {
        Err(LoadFault::UnmatchHeader)
    } else if cdh.is_encrypted {
        Err(LoadFault::Encrypted)
    } else if payload_start(d) + cdh.compressed_size > d.len() {
        Err(LoadFault::IO)
    } else {
        unpacking(le16(d, 8) as u16, payload(d, cdh.compressed_size as int))
    }
}

/// A member whose readable header disagrees with its record in name,
/// checksum or either size is refused as a mismatch, and so is one whose
/// header and record disagree on encryption: no data comes back.
pub proof fn lemma_disagreement_is_a_mismatch(d: Seq<u8>, cdh: CDHeader)
    requires
        header_fault(d) is None,
        !agrees(d, cdh),
    ensures
        extraction(d, cdh) == Err::<Seq<u8>, LoadFault>(LoadFault::UnmatchHeader),
{
}

/// A member whose record marks it encrypted is never extracted, whatever
/// the bytes handed over.
pub proof fn lemma_encrypted_is_refused(d: Seq<u8>, cdh: CDHeader)
    requires
        cdh.is_encrypted,
    ensures
        extraction(d, cdh) is Err,
        header_fault(d) is None && agrees(d, cdh) ==> extraction(d, cdh) == Err::<
            Seq<u8>,
            LoadFault,
        >(LoadFault::Encrypted),
{
}

/// Extracts the member that the record `cdh` describes.
///
/// `data` starts with the member's local file header and reaches at
/// least to the end of the member's data; where the header defers
/// checksum and sizes, `data` ends with the descriptor that gives them.
/// The header is held against `cdh` before any data is touched, an
/// encrypted member is refused, and the data is then unpacked by the
/// method that the header names. After a mismatch, `parse_local_header`
/// and `compare_headers` tell which fields disagree.
pub fn load_file(data: &[u8], cdh: &CDHeader) -> (r: Result<Vec<u8>, LoadFileError>)
    ensures
        match r {
            Ok(contents) => extraction(data@, *cdh) == Ok::<Seq<u8>, LoadFault>(contents@),
            Err(e) => extraction(data@, *cdh) == Err::<Seq<u8>, LoadFault>(e.fault()),
        },
{
    let header = parse_local_header(data)?;
    if compare_headers(&header, cdh).any() {
        return Err(LoadFileError::UnmatchHeader);
    }
    if header.is_encrypted {
        return Err(LoadFileError::Encrypted);
    }
    let name_end = LFH_HEADER_SIZE + header.file_name_length as usize;
    if header.extra_field_length as usize > data.len() - name_end {
        return Err(LoadFileError::IOError(end_of_input()));
    }
    let start = name_end + header.extra_field_length as usize;
    if header.compressed_size as usize > data.len() - start {
        return Err(LoadFileError::IOError(end_of_input()));
    }
    let end = start + header.compressed_size as usize;
    decompress(header.compression_method, slice_subrange(data, start, end), header.uncompressed_size)
}

} // verus!
