//! The records of an archive as a writer puts them down, and the proof
//! that the readers of this library get back what was written.

use crate::central::{
    are_first_records, flags_say_deferred, flags_say_encrypted, flags_say_utf8, is_cd_outcome,
    is_first_failure, record_size, record_start, record_status, CDHeader, ParseCDError,
    CD_HEADER_SIZE, CD_SIGNATURE,
};
use crate::eocd::{
    is_candidate, is_eocd_outcome, is_eocd_position, ParseEOCDError, EOCD, EOCD_MIN_SIZE,
    EOCD_SIGNATURE,
};
use crate::codec::COMPRESSION_METHOD_STORED;
use crate::local::{
    agrees, extraction, header_fault, header_sizes, local_flags, local_name, payload,
    payload_start, stated_sizes, trailing_sizes, unpacking, DataDescriptor, LoadFault,
    LFH_HEADER_SIZE, LFH_SIGNATURE,
};
use crate::names::decoded_name;
use crate::reader::{has_signature, le16, le32};
use vstd::prelude::*;

verus! {

/// The two bytes that stand for `x`, low byte first.
pub open spec fn u16_bytes(x: u16) -> Seq<u8> {
    seq![(x % 0x100) as u8, (x / 0x100) as u8]
}

/// The four bytes that stand for `x`, low byte first.
pub open spec fn u32_bytes(x: u32) -> Seq<u8> {
    seq![
        (x % 0x100) as u8,
        (x / 0x100 % 0x100) as u8,
        (x / 0x1_0000 % 0x100) as u8,
        (x / 0x100_0000) as u8,
    ]
}

/// Whether `part` stands in `d` from position `at` on.
pub open spec fn holds_at(d: Seq<u8>, at: int, part: Seq<u8>) -> bool {
    &&& 0 <= at
    &&& at + part.len() <= d.len()
    &&& forall|i: int| 0 <= i < part.len() ==> d[at + i] == part[i]
}

/// Of four parts written one behind the other, the first stands at the
/// start and the second behind the first.
proof fn lemma_parts_hold(first: Seq<u8>, second: Seq<u8>, third: Seq<u8>, last: Seq<u8>)
    ensures
        holds_at(first + second + third + last, 0, first),
        holds_at(first + second + third + last, first.len() as int, second),
{
}

/// Two bytes written by `u16_bytes` as part of `whole` are read back as
/// the number written, wherever `whole` stands.
pub proof fn lemma_u16_read_back(d: Seq<u8>, at: int, whole: Seq<u8>, k: int, x: u16)
    requires
        holds_at(d, at, whole),
        0 <= k,
        k + 2 <= whole.len(),
        whole[k] == u16_bytes(x)[0],
        whole[k + 1] == u16_bytes(x)[1],
    ensures
        le16(d, at + k) == x,
{
    assert(d[at + k] == whole[k]);
    assert(d[at + (k + 1)] == whole[k + 1]);
}

/// Four bytes written by `u32_bytes` as part of `whole` are read back as
/// the number written, wherever `whole` stands.
pub proof fn lemma_u32_read_back(d: Seq<u8>, at: int, whole: Seq<u8>, k: int, x: u32)
    requires
        holds_at(d, at, whole),
        0 <= k,
        k + 4 <= whole.len(),
        whole[k] == u32_bytes(x)[0],
        whole[k + 1] == u32_bytes(x)[1],
        whole[k + 2] == u32_bytes(x)[2],
        whole[k + 3] == u32_bytes(x)[3],
    ensures
        le32(d, at + k) == x,
{
    assert(d[at + k] == whole[k]);
    assert(d[at + (k + 1)] == whole[k + 1]);
    assert(d[at + (k + 2)] == whole[k + 2]);
    assert(d[at + (k + 3)] == whole[k + 3]);
}

/// A run of bytes written as part of `whole` is read back as it was
/// written, wherever `whole` stands.
pub proof fn lemma_run_read_back(d: Seq<u8>, at: int, whole: Seq<u8>, k: int, run: Seq<u8>)
    requires
        holds_at(d, at, whole),
        0 <= k,
        k + run.len() <= whole.len(),
        forall|i: int| 0 <= i < run.len() ==> whole[k + i] == run[i],
    ensures
        d.subrange(at + k, at + k + run.len()) == run,
{
    assert forall|i: int| 0 <= i < run.len() implies d[at + k + i] == run[i] by {
        assert(d[at + (k + i)] == whole[k + i]);
    }
    assert(d.subrange(at + k, at + k + run.len()) =~= run);
}

/// The closing record `eocd` as it is written: the fixed fields, then the
/// comment. The place and size that a reader notes are not written.
pub open spec fn eocd_bytes(eocd: EOCD) -> Seq<u8> {
    u32_bytes(eocd.signature) + u16_bytes(eocd.number_of_this_disk) + u16_bytes(
        eocd.number_of_disk_start_eocd,
    ) + u16_bytes(eocd.total_number_of_entries_on_disk) + u16_bytes(
        eocd.total_number_of_entries_in_cd,
    ) + u32_bytes(eocd.cd_size) + u32_bytes(eocd.cd_offset) + u16_bytes(
        eocd.comment@.len() as u16,
    ) + eocd.comment@
}

/// Whether a reader that finds `found` has read what was written as
/// `written`: every field and the comment.
pub open spec fn is_read_back(found: EOCD, written: EOCD) -> bool {
    &&& found.signature == written.signature
    &&& found.number_of_this_disk == written.number_of_this_disk
    &&& found.number_of_disk_start_eocd == written.number_of_disk_start_eocd
    &&& found.total_number_of_entries_on_disk == written.total_number_of_entries_on_disk
    &&& found.total_number_of_entries_in_cd == written.total_number_of_entries_in_cd
    &&& found.cd_size == written.cd_size
    &&& found.cd_offset == written.cd_offset
    &&& found.comment@ == written.comment@
}

/// The fields of a closing record written at `at` are read back from
/// their places.
proof fn lemma_eocd_fields(d: Seq<u8>, at: int, eocd: EOCD)
    requires
        holds_at(d, at, eocd_bytes(eocd)),
        eocd.comment@.len() <= 0xFFFF,
    ensures
        eocd_bytes(eocd).len() == EOCD_MIN_SIZE + eocd.comment@.len(),
        le32(d, at) == eocd.signature,
        le16(d, at + 4) == eocd.number_of_this_disk,
        le16(d, at + 6) == eocd.number_of_disk_start_eocd,
        le16(d, at + 8) == eocd.total_number_of_entries_on_disk,
        le16(d, at + 10) == eocd.total_number_of_entries_in_cd,
        le32(d, at + 12) == eocd.cd_size,
        le32(d, at + 16) == eocd.cd_offset,
        le16(d, at + 20) == eocd.comment@.len(),
        d.subrange(at + EOCD_MIN_SIZE, at + EOCD_MIN_SIZE + eocd.comment@.len()) == eocd.comment@,
{
    let b = eocd_bytes(eocd);
    lemma_u32_read_back(d, at, b, 0, eocd.signature);
    lemma_u16_read_back(d, at, b, 4, eocd.number_of_this_disk);
    lemma_u16_read_back(d, at, b, 6, eocd.number_of_disk_start_eocd);
    lemma_u16_read_back(d, at, b, 8, eocd.total_number_of_entries_on_disk);
    lemma_u16_read_back(d, at, b, 10, eocd.total_number_of_entries_in_cd);
    lemma_u32_read_back(d, at, b, 12, eocd.cd_size);
    lemma_u32_read_back(d, at, b, 16, eocd.cd_offset);
    lemma_u16_read_back(d, at, b, 20, eocd.comment@.len() as u16);
    lemma_run_read_back(d, at, b, 22, eocd.comment@);
}

/// A closing record is found behind whatever precedes it and whatever
/// the length of its comment, and is read back as it was written: the
/// place noted for it is where it was written, and the size noted for it
/// is 22 and the length of the comment.
///
/// The search goes backward and stops at the first signature that fits,
/// so the comment must not itself hold bytes that can be taken for a
/// record.
pub proof fn lemma_closing_record_is_found(
    before: Seq<u8>,
    written: EOCD,
    r: Result<EOCD, ParseEOCDError>,
)
    requires
        written.signature == EOCD_SIGNATURE,
        written.comment@.len() <= 0xFFFF,
        is_eocd_outcome(before + eocd_bytes(written), r),
        forall|q: int| before.len() < q ==> !is_candidate(before + eocd_bytes(written), q),
    ensures
        r matches Ok(found) && {
            &&& is_read_back(found, written)
            &&& found.eocd_offset == before.len()
            &&& found.eocd_size == 22 + written.comment@.len()
        },
{
    let d = before + eocd_bytes(written);
    let at = before.len() as int;
    assert(holds_at(d, at, eocd_bytes(written)));
    lemma_eocd_fields(d, at, written);
    assert(is_candidate(d, at));
    assert(is_eocd_position(d, at));
    assert forall|p: int| is_eocd_position(d, p) implies p == at by {
        if p < at {
            assert(!is_candidate(d, at));
        }
    }
}

/// A record of the central directory as it is written: the fixed fields,
/// then the bytes of the name, the extra field and the comment.
pub open spec fn record_bytes(h: CDHeader, name: Seq<u8>) -> Seq<u8> {
    u32_bytes(h.signature) + u16_bytes(h.version_made_by) + u16_bytes(h.version_needed_to_extract)
        + u16_bytes(h.general_purpose_bit_flag) + u16_bytes(h.compression_method) + u16_bytes(
        h.last_mod_file_time,
    ) + u16_bytes(h.last_mod_file_date) + u32_bytes(h.crc32) + u32_bytes(h.compressed_size)
        + u32_bytes(h.uncompressed_size) + u16_bytes(h.file_name_length) + u16_bytes(
        h.extra_field_length,
    ) + u16_bytes(h.file_comment_length) + u16_bytes(h.disk_number_start) + u16_bytes(
        h.internal_file_attributes,
    ) + u32_bytes(h.external_file_attributes) + u32_bytes(h.relative_offset_of_local_header)
        + name + h.extra_field@ + h.file_comment@
}

/// Whether `h` can be written with `name` for the bytes of its name: the
/// signature is the record's, the three lengths are those of the parts,
/// the name decodes to the text that `h` holds, and what `h` notes of
/// the flags is what the flags say.
pub open spec fn is_well_formed(h: CDHeader, name: Seq<u8>) -> bool {
    &&& h.signature == CD_SIGNATURE
    &&& h.file_name_length == name.len()
    &&& h.extra_field_length == h.extra_field@.len()
    &&& h.file_comment_length == h.file_comment@.len()
    &&& decoded_name(name, h.is_utf8) == Some(h.file_name@)
    &&& h.is_utf8 == flags_say_utf8(h.general_purpose_bit_flag)
    &&& h.is_encrypted == flags_say_encrypted(h.general_purpose_bit_flag)
}

/// Whether two records say the same of their member, field by field.
pub open spec fn is_same_record(a: CDHeader, b: CDHeader) -> bool {
    &&& a.signature == b.signature
    &&& a.version_made_by == b.version_made_by
    &&& a.version_needed_to_extract == b.version_needed_to_extract
    &&& a.general_purpose_bit_flag == b.general_purpose_bit_flag
    &&& a.compression_method == b.compression_method
    &&& a.last_mod_file_time == b.last_mod_file_time
    &&& a.last_mod_file_date == b.last_mod_file_date
    &&& a.crc32 == b.crc32
    &&& a.compressed_size == b.compressed_size
    &&& a.uncompressed_size == b.uncompressed_size
    &&& a.file_name_length == b.file_name_length
    &&& a.extra_field_length == b.extra_field_length
    &&& a.file_comment_length == b.file_comment_length
    &&& a.disk_number_start == b.disk_number_start
    &&& a.internal_file_attributes == b.internal_file_attributes
    &&& a.external_file_attributes == b.external_file_attributes
    &&& a.relative_offset_of_local_header == b.relative_offset_of_local_header
    &&& a.file_name@ == b.file_name@
    &&& a.extra_field@ == b.extra_field@
    &&& a.file_comment@ == b.file_comment@
    &&& a.is_utf8 == b.is_utf8
    &&& a.is_encrypted == b.is_encrypted
}

/// The fields of a record written at `at` are read back from their
/// places.
proof fn lemma_record_fields(d: Seq<u8>, at: int, h: CDHeader, name: Seq<u8>)
    requires
        holds_at(d, at, record_bytes(h, name)),
    ensures
        record_bytes(h, name).len() == CD_HEADER_SIZE + name.len() + h.extra_field@.len()
            + h.file_comment@.len(),
        le32(d, at) == h.signature,
        le16(d, at + 4) == h.version_made_by,
        le16(d, at + 6) == h.version_needed_to_extract,
        le16(d, at + 8) == h.general_purpose_bit_flag,
        le16(d, at + 10) == h.compression_method,
        le16(d, at + 12) == h.last_mod_file_time,
        le16(d, at + 14) == h.last_mod_file_date,
        le32(d, at + 16) == h.crc32,
        le32(d, at + 20) == h.compressed_size,
        le32(d, at + 24) == h.uncompressed_size,
        le16(d, at + 28) == h.file_name_length,
        le16(d, at + 30) == h.extra_field_length,
        le16(d, at + 32) == h.file_comment_length,
        le16(d, at + 34) == h.disk_number_start,
        le16(d, at + 36) == h.internal_file_attributes,
        le32(d, at + 38) == h.external_file_attributes,
        le32(d, at + 42) == h.relative_offset_of_local_header,
        d.subrange(at + 46, at + 46 + name.len()) == name,
        d.subrange(at + 46 + name.len(), at + 46 + name.len() + h.extra_field@.len())
            == h.extra_field@,
        d.subrange(
            at + 46 + name.len() + h.extra_field@.len(),
            at + 46 + name.len() + h.extra_field@.len() + h.file_comment@.len(),
        ) == h.file_comment@,
{
    let b = record_bytes(h, name);
    assert(b.len() == 46 + name.len() + h.extra_field@.len() + h.file_comment@.len());
    lemma_u32_read_back(d, at, b, 0, h.signature);
    lemma_u16_read_back(d, at, b, 4, h.version_made_by);
    lemma_u16_read_back(d, at, b, 6, h.version_needed_to_extract);
    lemma_u16_read_back(d, at, b, 8, h.general_purpose_bit_flag);
    lemma_u16_read_back(d, at, b, 10, h.compression_method);
    lemma_u16_read_back(d, at, b, 12, h.last_mod_file_time);
    lemma_u16_read_back(d, at, b, 14, h.last_mod_file_date);
    lemma_u32_read_back(d, at, b, 16, h.crc32);
    lemma_u32_read_back(d, at, b, 20, h.compressed_size);
    lemma_u32_read_back(d, at, b, 24, h.uncompressed_size);
    lemma_u16_read_back(d, at, b, 28, h.file_name_length);
    lemma_u16_read_back(d, at, b, 30, h.extra_field_length);
    lemma_u16_read_back(d, at, b, 32, h.file_comment_length);
    lemma_u16_read_back(d, at, b, 34, h.disk_number_start);
    lemma_u16_read_back(d, at, b, 36, h.internal_file_attributes);
    lemma_u32_read_back(d, at, b, 38, h.external_file_attributes);
    lemma_u32_read_back(d, at, b, 42, h.relative_offset_of_local_header);
    lemma_run_read_back(d, at, b, 46, name);
    lemma_run_read_back(d, at, b, 46 + name.len() as int, h.extra_field@);
    lemma_run_read_back(d, at, b, 46 + name.len() + h.extra_field@.len() as int, h.file_comment@);
}

/// A well-formed record written at `at` is complete there, has the length
/// of what was written, and is the record that `at` spells out.
pub proof fn lemma_record_is_read_back(d: Seq<u8>, at: int, h: CDHeader, name: Seq<u8>)
    requires
        holds_at(d, at, record_bytes(h, name)),
        is_well_formed(h, name),
    ensures
        record_bytes(h, name).len() == record_size(d, at),
        record_status(d, at) is Complete,
        h.is_record_at(d, at),
{
    lemma_record_fields(d, at, h, name);
}

/// A central directory as it is written: its records end to end.
pub open spec fn directory_bytes(records: Seq<CDHeader>, names: Seq<Seq<u8>>) -> Seq<u8>
    decreases records.len(),
{
    if records.len() == 0 {
        Seq::empty()
    } else {
        directory_bytes(records.drop_last(), names.drop_last()) + record_bytes(
            records.last(),
            names.last(),
        )
    }
}

/// The first `k` records of a directory are written where the whole
/// directory starts.
proof fn lemma_directory_prefix(records: Seq<CDHeader>, names: Seq<Seq<u8>>, k: int)
    requires
        names.len() == records.len(),
        0 <= k <= records.len(),
    ensures
        holds_at(
            directory_bytes(records, names),
            0,
            directory_bytes(records.take(k), names.take(k)),
        ),
    decreases records.len() - k,
{
    if k == records.len() {
        assert(records.take(k) == records);
        assert(names.take(k) == names);
    } else {
        lemma_directory_prefix(records.drop_last(), names.drop_last(), k);
        assert(records.drop_last().take(k) == records.take(k));
        assert(names.drop_last().take(k) == names.take(k));
    }
}

/// The record with index `k` of a directory is written where the
/// records before it end.
proof fn lemma_record_in_place(
    records: Seq<CDHeader>,
    names: Seq<Seq<u8>>,
    after: Seq<u8>,
    k: int,
)
    requires
        names.len() == records.len(),
        0 <= k < records.len(),
    ensures
        holds_at(
            directory_bytes(records, names) + after,
            directory_bytes(records.take(k), names.take(k)).len() as int,
            record_bytes(records[k], names[k]),
        ),
        directory_bytes(records.take(k + 1), names.take(k + 1)).len() == directory_bytes(
            records.take(k),
            names.take(k),
        ).len() + record_bytes(records[k], names[k]).len(),
{
    let whole = directory_bytes(records, names);
    let d = whole + after;
    let head = directory_bytes(records.take(k), names.take(k));
    let written = record_bytes(records[k], names[k]);
    let both = directory_bytes(records.take(k + 1), names.take(k + 1));
    assert(records.take(k + 1).drop_last() == records.take(k));
    assert(names.take(k + 1).drop_last() == names.take(k));
    assert(both == head + written);
    lemma_directory_prefix(records, names, k + 1);
    assert forall|i: int| 0 <= i < written.len() implies d[head.len() + i] == written[i] by {
        assert(whole[0 + (head.len() + i)] == both[head.len() + i]);
    }
}

/// In a directory written record by record, each record is complete and
/// starts where the records before it end.
proof fn lemma_directory_records(
    records: Seq<CDHeader>,
    names: Seq<Seq<u8>>,
    after: Seq<u8>,
    k: int,
)
    requires
        names.len() == records.len(),
        forall|i: int| 0 <= i < records.len() ==> is_well_formed(#[trigger] records[i], names[i]),
        0 <= k <= records.len(),
    ensures
        record_start(directory_bytes(records, names) + after, k) == directory_bytes(
            records.take(k),
            names.take(k),
        ).len(),
        are_first_records(records.take(k), directory_bytes(records, names) + after),
    decreases k,
{
    let d = directory_bytes(records, names) + after;
    if k > 0 {
        lemma_directory_records(records, names, after, k - 1);
        let at = record_start(d, k - 1);
        lemma_record_in_place(records, names, after, k - 1);
        lemma_record_is_read_back(d, at, records[k - 1], names[k - 1]);
        assert(record_start(d, k) == at + record_size(d, at));
        assert forall|i: int| 0 <= i < k implies {
            &&& record_status(d, #[trigger] record_start(d, i)) is Complete
            &&& records.take(k)[i].is_record_at(d, record_start(d, i))
        } by {
            if i < k - 1 {
                assert(records.take(k - 1)[i] == records.take(k)[i]);
            }
        }
    }
}

/// A central directory of well-formed records is read back record by
/// record, in the order in which the records were written, however many
/// there are and whatever follows the last of them.
pub proof fn lemma_directory_is_read_back(
    records: Seq<CDHeader>,
    names: Seq<Seq<u8>>,
    after: Seq<u8>,
    r: Result<Vec<CDHeader>, ParseCDError>,
)
    requires
        names.len() == records.len(),
        forall|i: int| 0 <= i < records.len() ==> is_well_formed(#[trigger] records[i], names[i]),
        is_cd_outcome(directory_bytes(records, names) + after, records.len() as int, r),
    ensures
        r matches Ok(found) && {
            &&& found@.len() == records.len()
            &&& forall|i: int|
                0 <= i < records.len() ==> is_same_record(#[trigger] found@[i], records[i])
        },
{
    let d = directory_bytes(records, names) + after;
    lemma_directory_records(records, names, after, records.len() as int);
    match r {
        Ok(found) => {
            assert forall|i: int| 0 <= i < records.len() implies is_same_record(
                #[trigger] found@[i],
                records[i],
            ) by {
                let at = record_start(d, i);
                assert(found@[i].is_record_at(d, at));
                assert(records.take(records.len() as int)[i].is_record_at(d, at));
            }
        },
        Err(e) => {
            let k = choose|k: int| k < records.len() && is_first_failure(d, k, e.status());
            assert(records.take(records.len() as int)[k] == records[k]);
            assert(record_status(d, record_start(d, k)) is Complete);
        },
    }
}

/// The fields of a local file header that a writer chooses freely and a
/// reader passes over.
pub struct Unread {
    pub version_needed_to_extract: u16,
    pub last_mod_file_time: u16,
    pub last_mod_file_date: u16,
}

/// A local file header as it is written: the fixed fields, then the
/// bytes of the name and of the extra field.
pub open spec fn local_header_bytes(
    unread: Unread,
    flags: u16,
    method: u16,
    sizes: DataDescriptor,
    name: Seq<u8>,
    extra: Seq<u8>,
) -> Seq<u8> {
    u32_bytes(LFH_SIGNATURE) + u16_bytes(unread.version_needed_to_extract) + u16_bytes(flags)
        + u16_bytes(method) + u16_bytes(unread.last_mod_file_time) + u16_bytes(
        unread.last_mod_file_date,
    ) + u32_bytes(sizes.crc32) + u32_bytes(sizes.compressed_size) + u32_bytes(
        sizes.uncompressed_size,
    ) + u16_bytes(name.len() as u16) + u16_bytes(extra.len() as u16) + name + extra
}

/// A data descriptor as it is written.
pub open spec fn descriptor_bytes(sizes: DataDescriptor) -> Seq<u8> {
    u32_bytes(sizes.crc32) + u32_bytes(sizes.compressed_size) + u32_bytes(sizes.uncompressed_size)
}

/// Checksum and sizes as the record `cdh` states them.
pub open spec fn sizes_of(cdh: CDHeader) -> DataDescriptor {
    DataDescriptor {
        crc32: cdh.crc32,
        compressed_size: cdh.compressed_size,
        uncompressed_size: cdh.uncompressed_size,
    }
}

/// Whether a header written with `flags` and `name` names the member of
/// the record `cdh` and marks it encrypted as `cdh` does.
pub open spec fn is_header_for(cdh: CDHeader, flags: u16, name: Seq<u8>, extra: Seq<u8>) -> bool {
    &&& name.len() <= 0xFFFF
    &&& extra.len() <= 0xFFFF
    &&& decoded_name(name, flags_say_utf8(flags)) == Some(cdh.file_name@)
    &&& flags_say_encrypted(flags) == cdh.is_encrypted
}

/// A local file header written at the start of `d` is read back from
/// its places.
proof fn lemma_local_header_fields(
    d: Seq<u8>,
    unread: Unread,
    flags: u16,
    method: u16,
    sizes: DataDescriptor,
    name: Seq<u8>,
    extra: Seq<u8>,
)
    requires
        holds_at(d, 0, local_header_bytes(unread, flags, method, sizes, name, extra)),
        name.len() <= 0xFFFF,
        extra.len() <= 0xFFFF,
    ensures
        local_header_bytes(unread, flags, method, sizes, name, extra).len() == LFH_HEADER_SIZE
            + name.len() + extra.len(),
        has_signature(d, 0, LFH_SIGNATURE),
        local_flags(d) == flags,
        le16(d, 8) == method,
        header_sizes(d) == sizes,
        le16(d, 26) == name.len(),
        local_name(d) == name,
        payload_start(d) == LFH_HEADER_SIZE + name.len() + extra.len(),
{
    let b = local_header_bytes(unread, flags, method, sizes, name, extra);
    lemma_u32_read_back(d, 0, b, 0, LFH_SIGNATURE);
    lemma_u16_read_back(d, 0, b, 6, flags);
    lemma_u16_read_back(d, 0, b, 8, method);
    lemma_u32_read_back(d, 0, b, 14, sizes.crc32);
    lemma_u32_read_back(d, 0, b, 18, sizes.compressed_size);
    lemma_u32_read_back(d, 0, b, 22, sizes.uncompressed_size);
    lemma_u16_read_back(d, 0, b, 26, name.len() as u16);
    lemma_u16_read_back(d, 0, b, 28, extra.len() as u16);
    lemma_run_read_back(d, 0, b, 30, name);
}

/// Where `d` starts with a header for the record `cdh`, states the
/// record's checksum and sizes, and holds `stored` for the member's data,
/// extraction comes to unpacking `stored`.
proof fn lemma_extraction_of_parts(
    d: Seq<u8>,
    cdh: CDHeader,
    flags: u16,
    method: u16,
    name: Seq<u8>,
    extra: Seq<u8>,
    stored: Seq<u8>,
)
    requires
        is_header_for(cdh, flags, name, extra),
        !cdh.is_encrypted,
        stored.len() == cdh.compressed_size,
        has_signature(d, 0, LFH_SIGNATURE),
        local_flags(d) == flags,
        le16(d, 8) == method,
        le16(d, 26) == name.len(),
        local_name(d) == name,
        payload_start(d) + stored.len() <= d.len(),
        payload(d, stored.len() as int) == stored,
        stated_sizes(d) == sizes_of(cdh),
    ensures
        extraction(d, cdh) == unpacking(method, stored),
{
    assert(header_fault(d) is None);
    assert(agrees(d, cdh));
}

/// A member written as header and data is extracted as its data
/// unpacked by the header's method, whatever follows the data.
///
/// The header states the checksum and the sizes of the member's record
/// `cdh`, and `stored` has the compressed size that the record states.
pub proof fn lemma_member_is_extracted(
    cdh: CDHeader,
    unread: Unread,
    flags: u16,
    method: u16,
    name: Seq<u8>,
    extra: Seq<u8>,
    stored: Seq<u8>,
    after: Seq<u8>,
)
    requires
        is_header_for(cdh, flags, name, extra),
        !flags_say_deferred(flags),
        !cdh.is_encrypted,
        stored.len() == cdh.compressed_size,
    ensures
        extraction(
            local_header_bytes(unread, flags, method, sizes_of(cdh), name, extra) + stored + after,
            cdh,
        ) == unpacking(method, stored),
{
    let header = local_header_bytes(unread, flags, method, sizes_of(cdh), name, extra);
    let d = header + stored + after;
    assert(d == header + stored + after + Seq::<u8>::empty());
    lemma_parts_hold(header, stored, after, Seq::empty());
    lemma_local_header_fields(d, unread, flags, method, sizes_of(cdh), name, extra);
    lemma_run_read_back(d, header.len() as int, stored, 0, stored);
    lemma_extraction_of_parts(d, cdh, flags, method, name, extra, stored);
}

/// A data descriptor written last is read back from the end.
proof fn lemma_descriptor_fields(front: Seq<u8>, sizes: DataDescriptor)
    ensures
        trailing_sizes(front + descriptor_bytes(sizes)) == sizes,
{
    let descriptor = descriptor_bytes(sizes);
    let d = front + descriptor;
    let at = d.len() - 12;
    assert(holds_at(d, at, descriptor));
    lemma_u32_read_back(d, at, descriptor, 0, sizes.crc32);
    lemma_u32_read_back(d, at, descriptor, 4, sizes.compressed_size);
    lemma_u32_read_back(d, at, descriptor, 8, sizes.uncompressed_size);
}

/// A member whose header defers checksum and sizes is extracted as its
/// data unpacked by the header's method, provided the buffer ends with a
/// descriptor that states the checksum and the sizes of the member's
/// record `cdh`. What the header itself puts in their place is not
/// looked at, nor what lies between the data and the descriptor.
pub proof fn lemma_deferred_member_is_extracted(
    cdh: CDHeader,
    unread: Unread,
    flags: u16,
    method: u16,
    placeholders: DataDescriptor,
    name: Seq<u8>,
    extra: Seq<u8>,
    stored: Seq<u8>,
    between: Seq<u8>,
)
    requires
        is_header_for(cdh, flags, name, extra),
        flags_say_deferred(flags),
        !cdh.is_encrypted,
        stored.len() == cdh.compressed_size,
    ensures
        extraction(
            local_header_bytes(unread, flags, method, placeholders, name, extra) + stored
                + between + descriptor_bytes(sizes_of(cdh)),
            cdh,
        ) == unpacking(method, stored),
{
    let header = local_header_bytes(unread, flags, method, placeholders, name, extra);
    let descriptor = descriptor_bytes(sizes_of(cdh));
    let d = header + stored + between + descriptor;
    lemma_parts_hold(header, stored, between, descriptor);
    lemma_local_header_fields(d, unread, flags, method, placeholders, name, extra);
    lemma_run_read_back(d, header.len() as int, stored, 0, stored);
    lemma_descriptor_fields(header + stored + between, sizes_of(cdh));
    lemma_extraction_of_parts(d, cdh, flags, method, name, extra, stored);
}

/// A stored member is extracted as the very bytes that were written, and
/// as many as its record states for the compressed size.
pub proof fn lemma_stored_member_is_read_back(
    cdh: CDHeader,
    unread: Unread,
    flags: u16,
    name: Seq<u8>,
    extra: Seq<u8>,
    contents: Seq<u8>,
    after: Seq<u8>,
)
    requires
        is_header_for(cdh, flags, name, extra),
        !flags_say_deferred(flags),
        !cdh.is_encrypted,
        contents.len() == cdh.compressed_size,
    ensures
        extraction(
            local_header_bytes(
                unread,
                flags,
                COMPRESSION_METHOD_STORED,
                sizes_of(cdh),
                name,
                extra,
            ) + contents + after,
            cdh,
        ) == Ok::<Seq<u8>, LoadFault>(contents),
        cdh.uncompressed_size == cdh.compressed_size ==> contents.len() == cdh.uncompressed_size,
{
    lemma_member_is_extracted(
        cdh,
        unread,
        flags,
        COMPRESSION_METHOD_STORED,
        name,
        extra,
        contents,
        after,
    );
}

} // verus!
