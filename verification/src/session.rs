//! One archive, read piece by piece: first its closing record, then its
//! central directory, then any of its members.

use crate::central::{
    are_first_records, is_first_failure, parse_cd, record_start, CDHeader, ParseCDError,
    CD_SIGNATURE,
};
use crate::eocd::{closes, is_eocd_outcome, parse_eocd, ParseEOCDError, EOCD};
use crate::local::{extraction, load_file, LoadFault, LoadFileError};
use vstd::prelude::*;

verus! {

/// Value of the disk number that sends a reader to the ZIP64 records.
pub const ZIP64_SENTINEL: u16 = 0xFFFF;

/// A run of bytes of the archive.
#[derive(Clone, Copy, Debug)]
pub struct Range {
    pub offset: u32,
    pub size: u32,
}

/// Why an archive cannot be opened.
#[derive(Debug)]
pub enum OpenError {
    /// The closing record could not be read.
    EOCD(ParseEOCDError),
    /// The archive is spread over several disks.
    DiskSplit,
    /// The archive keeps its summary in ZIP64 records.
    Zip64,
}

/// Why the range of a member cannot be told.
#[derive(Debug)]
pub enum RangeError {
    /// No record of the directory has the name.
    EntryNotFound,
    /// The member is the last by offset, and the directory does not start
    /// behind the member's header.
    MisplacedEntry,
}

/// Why a member cannot be extracted.
#[derive(Debug)]
pub enum DataError {
    /// No record of the directory has the name.
    EntryNotFound,
    /// The member's bytes were refused.
    LoadFile(LoadFileError),
}

/// An open archive: its closing record and, once the central directory
/// has been parsed, the directory's records in their order.
pub struct LSZR {
    eocd: EOCD,
    entries: Vec<CDHeader>,
}

/// Whether `i` is the index of the first of `entries` that is called `name`.
pub open spec fn is_first_named(entries: Seq<CDHeader>, name: Seq<char>, i: int) -> bool {
    &&& 0 <= i < entries.len()
    &&& entries[i].file_name@ == name
    &&& forall|j: int| 0 <= j < i ==> entries[j].file_name@ != name
}

/// Whether none of `entries` is called `name`.
pub open spec fn is_unnamed(entries: Seq<CDHeader>, name: Seq<char>) -> bool {
    forall|j: int| 0 <= j < entries.len() ==> entries[j].file_name@ != name
}

/// Whether a member of `entries` has its header behind `start`.
pub open spec fn has_successor(entries: Seq<CDHeader>, start: u32) -> bool {
    exists|j: int|
        0 <= j < entries.len() && (#[trigger] entries[j]).relative_offset_of_local_header > start
}

/// Whether `end` is where the bytes of the member at `start` end: at the
/// nearest header behind `start`, or at the central directory where no
/// header lies behind `start`.
pub open spec fn is_extent_end(entries: Seq<CDHeader>, cd_offset: u32, start: u32, end: int) -> bool {
    if has_successor(entries, start) {
        &&& end > start
        &&& exists|j: int|
            0 <= j < entries.len() && (#[trigger] entries[j]).relative_offset_of_local_header
                == end
        &&& forall|j: int|
            0 <= j < entries.len() && (#[trigger] entries[j]).relative_offset_of_local_header
                > start ==> end <= entries[j].relative_offset_of_local_header
    } else {
        end == cd_offset
    }
}

/// At most one of the records is the first of its name.
pub proof fn lemma_first_named_is_unique(entries: Seq<CDHeader>, name: Seq<char>, i: int, j: int)
    requires
        is_first_named(entries, name, i),
        is_first_named(entries, name, j),
    ensures
        i == j,
{
}

/// The bytes of a member end at one place only.
pub proof fn lemma_extent_end_is_unique(
    entries: Seq<CDHeader>,
    cd_offset: u32,
    start: u32,
    end: int,
    other: int,
)
    requires
        is_extent_end(entries, cd_offset, start, end),
        is_extent_end(entries, cd_offset, start, other),
    ensures
        end == other,
{
}

/// Before the central directory has been parsed no name is known, so no
/// range is told and nothing is extracted.
pub proof fn lemma_empty_table_names_nothing(name: Seq<char>)
    ensures
        is_unnamed(Seq::<CDHeader>::empty(), name),
{
}

/// Finds where the bytes of the member at `start` end.
fn extent_end(entries: &Vec<CDHeader>, cd_offset: u32, start: u32) -> (end: u32)
    ensures
        is_extent_end(entries@, cd_offset, start, end as int),
{
    let mut end = cd_offset;
    let mut found = false;
    let mut j: usize = 0;
    while j < entries.len()
        invariant
            j <= entries@.len(),
            found == has_successor(entries@.take(j as int), start),
            is_extent_end(entries@.take(j as int), cd_offset, start, end as int),
        decreases entries@.len() - j,
    {
        let offset = entries[j].relative_offset_of_local_header;
        let ghost before = entries@.take(j as int);
        let ghost after = entries@.take(j + 1);
        assert(forall|k: int| 0 <= k < j ==> before[k] == after[k]);
        assert(after[j as int] == entries@[j as int]);
        if offset > start && (!found || offset < end) {
            end = offset;
            found = true;
        }
        j = j + 1;
    }
    assert(entries@.take(j as int) == entries@);
    end
}

impl LSZR {
    /// What holds of every open archive: it is on one disk, its table of
    /// records is either empty or as long as the closing record says, and
    /// every record of the table was read behind the signature of the
    /// central directory.
    #[verifier::type_invariant]
    pub closed spec fn well_formed(&self) -> bool {
        &&& self.eocd.number_of_this_disk == 0
        &&& self.eocd.number_of_disk_start_eocd == 0
        &&& (self.entries@.len() == 0 || self.entries@.len()
            == self.eocd.total_number_of_entries_in_cd)
        &&& forall|i: int|
            0 <= i < self.entries@.len() ==> (#[trigger] self.entries@[i]).signature
                == CD_SIGNATURE
    }

    /// The closing record of the archive.
    pub closed spec fn eocd(&self) -> EOCD {
        self.eocd
    }

    /// The records of the central directory, in the order in which they
    /// stand there; empty until the directory has been parsed.
    pub closed spec fn entries(&self) -> Seq<CDHeader> {
        self.entries@
    }

    /// The table of records is empty until the central directory has been
    /// parsed, and from then on has as many records as the closing record
    /// counts.
    pub proof fn lemma_table_is_empty_or_whole(self)
        requires
            self.well_formed(),
        ensures
            self.entries().len() == 0 || self.entries().len()
                == self.eocd().total_number_of_entries_in_cd,
            self.eocd().number_of_this_disk == 0,
            self.eocd().number_of_disk_start_eocd == 0,
            forall|i: int|
                0 <= i < self.entries().len() ==> (#[trigger] self.entries()[i]).signature
                    == CD_SIGNATURE,
    {
    }

    /// Opens an archive from its last bytes.
    ///
    /// `data` must reach back far enough to hold the whole closing record,
    /// and may not be longer than 32 bits can count. An archive that is
    /// spread over several disks, or that refers to ZIP64 records, is
    /// refused.
    pub fn new(data: Vec<u8>) -> (r: Result<LSZR, OpenError>)
        requires
            data@.len() <= u32::MAX,
        ensures
            match r {
                Ok(archive) => {
                    &&& archive.well_formed()
                    &&& closes(archive.eocd(), data@)
                    &&& archive.eocd().number_of_this_disk == 0
                    &&& archive.eocd().number_of_disk_start_eocd == 0
                    &&& archive.entries().len() == 0
                },
                Err(OpenError::EOCD(e)) => is_eocd_outcome(data@, Err(e)),
                Err(OpenError::Zip64) => exists|eocd: EOCD|
                    {
                        &&& closes(eocd, data@)
                        &&& eocd.number_of_this_disk == ZIP64_SENTINEL
                    },
                Err(OpenError::DiskSplit) => exists|eocd: EOCD|
                    {
                        &&& closes(eocd, data@)
                        &&& eocd.number_of_this_disk != ZIP64_SENTINEL
                        &&& (eocd.number_of_this_disk != 0 || eocd.number_of_disk_start_eocd != 0)
                    },
            },
    {
        let eocd = match parse_eocd(data.as_slice()) {
            Ok(eocd) => eocd,
            Err(e) => return Err(OpenError::EOCD(e)),
        };
        if eocd.number_of_this_disk == ZIP64_SENTINEL {
            return Err(OpenError::Zip64);
        }
        if eocd.number_of_this_disk != 0 || eocd.number_of_disk_start_eocd != 0 {
            return Err(OpenError::DiskSplit);
        }
        Ok(LSZR { eocd, entries: Vec::new() })
    }

    /// Parses the central directory and gives the names of its records in
    /// their order.
    ///
    /// `data` starts where the directory starts. As many records are read
    /// as the closing record counts. They replace whatever an earlier call
    /// has stored; a call that fails leaves the archive as it was.
    pub fn parse_cd(&mut self, data: Vec<u8>) -> (r: Result<Vec<String>, ParseCDError>)
        ensures
            final(self).well_formed(),
            final(self).eocd() == old(self).eocd(),
            match r {
                Ok(names) => {
                    let entries = final(self).entries();
                    &&& entries.len() == old(self).eocd().total_number_of_entries_in_cd
                    &&& are_first_records(entries, data@)
                    &&& names@.len() == entries.len()
                    &&& forall|i: int|
                        0 <= i < names@.len() ==> (#[trigger] names@[i])@ == entries[i].file_name@
                },
                Err(e) => {
                    &&& final(self).entries() == old(self).entries()
                    &&& exists|k: int|
                        k < old(self).eocd().total_number_of_entries_in_cd && is_first_failure(
                            data@,
                            k,
                            e.status(),
                        )
                },
            },
    {
        proof {
            use_type_invariant(&*self);
        }
        let count = self.eocd.total_number_of_entries_in_cd as usize;
        let entries = match parse_cd(data.as_slice(), count) {
            Ok(entries) => entries,
            Err(e) => return Err(e),
        };
        let mut names: Vec<String> = Vec::new();
        let mut i: usize = 0;
        while i < entries.len()
            invariant
                i <= entries@.len(),
                names@.len() == i,
                forall|k: int| 0 <= k < i ==> (#[trigger] names@[k])@ == entries@[k].file_name@,
            decreases entries@.len() - i,
        {
            names.push(entries[i].file_name.clone());
            i = i + 1;
        }
        assert forall|k: int| 0 <= k < entries@.len() implies (#[trigger] entries@[k]).signature
            == CD_SIGNATURE by {
            assert(entries@[k].is_record_at(data@, record_start(data@, k)));
        }
        self.entries = entries;
        Ok(names)
    }

    /// The index of the first record of the directory that is called
    /// `name`.
    fn find_index(&self, name: &String) -> (r: Option<usize>)
        ensures
            match r {
                Some(i) => is_first_named(self.entries(), name@, i as int),
                None => is_unnamed(self.entries(), name@),
            },
    {
        let mut i: usize = 0;
        while i < self.entries.len()
            invariant
                i <= self.entries@.len(),
                forall|j: int| 0 <= j < i ==> self.entries@[j].file_name@ != name@,
            decreases self.entries@.len() - i,
        {
            if self.entries[i].file_name == *name {
                return Some(i);
            }
            i = i + 1;
        }
        None
    }

    /// The first record of the directory that is called `name`.
    pub fn find_entry(&self, name: String) -> (r: Option<&CDHeader>)
        ensures
            match r {
                Some(entry) => exists|i: int|
                    is_first_named(self.entries(), name@, i) && *entry == self.entries()[i],
                None => is_unnamed(self.entries(), name@),
            },
    {
        match self.find_index(&name) {
            Some(i) => Some(&self.entries[i]),
            None => None,
        }
    }

    /// The bytes of the archive that hold the member called `name`.
    ///
    /// The range starts at the member's local file header. It is measured
    /// up to the nearest header behind it, or up to the central directory
    /// for the member that lies last, and its size is that distance less
    /// one. Of several members with one name, the first of the directory
    /// counts. A member that lies last and not before the central
    /// directory has no range.
    pub fn get_range(&mut self, name: String) -> (r: Result<Range, RangeError>)
        ensures
            *final(self) == *old(self),
            match r {
                Ok(range) => {
                    let entries = old(self).entries();
                    &&& exists|i: int|
                        {
                            &&& #[trigger] is_first_named(entries, name@, i)
                            &&& range.offset == entries[i].relative_offset_of_local_header
                        }
                    &&& is_extent_end(
                        entries,
                        old(self).eocd().cd_offset,
                        range.offset,
                        range.offset + range.size + 1,
                    )
                },
                Err(RangeError::EntryNotFound) => is_unnamed(old(self).entries(), name@),
                Err(RangeError::MisplacedEntry) => {
                    let entries = old(self).entries();
                    exists|i: int|
                        {
                            &&& #[trigger] is_first_named(entries, name@, i)
                            &&& !has_successor(entries, entries[i].relative_offset_of_local_header)
                            &&& old(self).eocd().cd_offset
                                <= entries[i].relative_offset_of_local_header
                        }
                },
            },
    {
        let i = match self.find_index(&name) {
            Some(i) => i,
            None => return Err(RangeError::EntryNotFound),
        };
        let start = self.entries[i].relative_offset_of_local_header;
        let end = extent_end(&self.entries, self.eocd.cd_offset, start);
        if end <= start {
            return Err(RangeError::MisplacedEntry);
        }
        Ok(Range { offset: start, size: end - start - 1 })
    }

    /// Extracts the member called `name` from `data`, the bytes of the
    /// archive from the member's local file header on.
    pub fn get_data(&mut self, name: String, data: Vec<u8>) -> (r: Result<Vec<u8>, DataError>)
        ensures
            *final(self) == *old(self),
            match r {
                Ok(contents) => exists|i: int|
                    {
                        &&& is_first_named(old(self).entries(), name@, i)
                        &&& extraction(data@, old(self).entries()[i]) == Ok::<Seq<u8>, LoadFault>(
                            contents@,
                        )
                    },
                Err(DataError::EntryNotFound) => is_unnamed(old(self).entries(), name@),
                Err(DataError::LoadFile(e)) => exists|i: int|
                    {
                        &&& is_first_named(old(self).entries(), name@, i)
                        &&& extraction(data@, old(self).entries()[i]) == Err::<Seq<u8>, LoadFault>(
                            e.fault(),
                        )
                    },
            },
    {
        let i = match self.find_index(&name) {
            Some(i) => i,
            None => return Err(DataError::EntryNotFound),
        };
        match load_file(data.as_slice(), &self.entries[i]) {
            Ok(contents) => Ok(contents),
            Err(e) => Err(DataError::LoadFile(e)),
        }
    }

    /// The bytes of the archive that hold the central directory.
    pub fn cd_range(&self) -> (r: Range)
        ensures
            r.offset == self.eocd().cd_offset,
            r.size == self.eocd().cd_size,
    {
        Range { offset: self.eocd.cd_offset, size: self.eocd.cd_size }
    }

    /// The bytes that hold the closing record, counted from the start of
    /// the buffer that the archive was opened from.
    pub fn eocd_range(&self) -> (r: Range)
        ensures
            r.offset == self.eocd().eocd_offset,
            r.size == self.eocd().eocd_size,
    {
        Range { offset: self.eocd.eocd_offset, size: self.eocd.eocd_size }
    }
}

} // verus!
