//! Records of the change journal of NTFS.

use crate::bytes::{
    joined, laid_at, le16, le32, le64, le_bytes, lemma_laid_within, lemma_le16_reads_back,
    lemma_le32_reads_back, lemma_le64_reads_back, lemma_parts_lie_in_place, place_of, push_bytes,
    read_le16, read_le32, read_le64, slice_to_vec,
};
use crate::clock::{filetime_text, format_ntfs_filetime};
use crate::i30::{
    decode_utf16_name, join_ntfs_path, lemma_stored_text_reads_back, ntfs_joined, plausible_name,
    stored_text, utf16_name, valid_file_name, DirectoryPath, DirectoryView,
};
use crate::text::{ascii_lower, eq_ignore_ascii_case, opt_view};
use crate::volume::DataRun;
use std::collections::HashMap;
use vstd::prelude::*;
use vstd::string::*;

verus! {

broadcast use vstd::std_specs::hash::group_hash_axioms;

pub const USN_REASON_FILE_DELETE: u32 = 0x200;

pub const USN_REASON_RENAME_OLD_NAME: u32 = 0x1000;

pub const USN_REASON_RENAME_NEW_NAME: u32 = 0x2000;

pub const USN_REASON_HARD_LINK_CHANGE: u32 = 0x10000;

pub const USN_REASON_CLOSE: u32 = 0x80000000;

/// How much of a raw journal is kept for the next window.
pub const USN_RAW_CARRY: usize = 4096;

/// A record of the journal.
#[derive(Debug)]
pub struct UsnRecordRaw {
    pub file_reference: u64,
    pub parent_reference: u64,
    pub timestamp: i64,
    pub reason: u32,
    pub name: String,
}

pub struct UsnRecordView {
    pub file_reference: u64,
    pub parent_reference: u64,
    pub timestamp: i64,
    pub reason: u32,
    pub name: Seq<char>,
}

impl View for UsnRecordRaw {
    type V = UsnRecordView;

    open spec fn view(&self) -> UsnRecordView {
        UsnRecordView {
            file_reference: self.file_reference,
            parent_reference: self.parent_reference,
            timestamp: self.timestamp,
            reason: self.reason,
            name: self.name@,
        }
    }
}

pub open spec fn usn_views(list: Seq<UsnRecordRaw>) -> Seq<UsnRecordView> {
    list.map_values(|r: UsnRecordRaw| r@)
}

// ---------------------------------------------------------------------------
// Records.

/// The record at the start of some bytes, and its length. Version 2 holds references of 8 bytes,
/// version 3 of 16.
pub open spec fn usn_record(bytes: Seq<u8>) -> Option<(UsnRecordView, int)> {
    let length = le32(bytes, 0);
    let major = le16(bytes, 4);
    let usn: int = if major == 2 {
        24
    } else {
        40
    };
    let name_length = le16(bytes, usn + 32);
    let name_offset = le16(bytes, usn + 34);
    if bytes.len() < 64 || (major != 2 && major != 3) || length < usn + 36 || length > bytes.len()
        || length % 8 != 0 {
        None
    } else if name_length == 0 || name_length % 2 != 0 || name_offset < usn + 36 || name_offset
        + name_length > length {
        None
    } else {
        match utf16_name(bytes.subrange(name_offset, name_offset + name_length)) {
            None => None,
            Some(name) => if !plausible_name(name) {
                None
            } else {
                Some(
                    (
                        UsnRecordView {
                            file_reference: le64(bytes, 8) as u64,
                            parent_reference: le64(
                                bytes,
                                if major == 2 {
                                    16
                                } else {
                                    24
                                },
                            ) as u64,
                            timestamp: (le64(bytes, usn + 8) as u64) as i64,
                            reason: le32(bytes, usn + 16) as u32,
                            name,
                        },
                        length,
                    ),
                )
            },
        }
    }
}

/// Reads the record at the start of some bytes.
pub fn parse_usn_record(bytes: &[u8]) -> (r: Option<(UsnRecordRaw, usize)>)
    ensures
        match usn_record(bytes@) {
            Some((record, length)) => r matches Some((u, n)) && u@ == record && n == length,
            None => r is None,
        },
{
    let n: usize = bytes.len();
    if n < 64 {
        return None;
    }
    let length: u32 = read_le32(bytes, 0);
    let major: u16 = read_le16(bytes, 4);
    if major != 2 && major != 3 {
        return None;
    }
    let usn: usize = if major == 2 {
        24
    } else {
        40
    };
    if (length as u64) < (usn + 36) as u64 || length as u64 > n as u64 || length % 8 != 0 {
        return None;
    }
    let length: usize = length as usize;
    let parent_at: usize = if major == 2 {
        16
    } else {
        24
    };
    let file_reference: u64 = read_le64(bytes, 8);
    let parent_reference: u64 = read_le64(bytes, parent_at);
    let timestamp: i64 = read_le64(bytes, usn + 8) as i64;
    let reason: u32 = read_le32(bytes, usn + 16);
    let name_length: usize = read_le16(bytes, usn + 32) as usize;
    let name_offset: usize = read_le16(bytes, usn + 34) as usize;
    if name_length == 0 || name_length % 2 != 0 || name_offset < usn + 36 || name_offset
        + name_length > length {
        return None;
    }
    match decode_utf16_name(bytes, name_offset, name_offset + name_length) {
        None => None,
        Some(name) => if valid_file_name(name.as_str()) {
            Some(
                (
                    UsnRecordRaw { file_reference, parent_reference, timestamp, reason, name },
                    length,
                ),
            )
        } else {
            None
        },
    }
}

/// The records that follow each other from the start of some bytes.
pub open spec fn usn_sequence(bytes: Seq<u8>) -> Seq<UsnRecordView>
    decreases bytes.len(),
{
    if bytes.len() < 8 {
        seq![]
    } else {
        match usn_record(bytes) {
            None => seq![],
            Some((record, length)) => seq![record] + usn_sequence(
                bytes.subrange(length, bytes.len() as int),
            ),
        }
    }
}

/// Reads the records that follow each other between two places.
pub fn parse_usn_record_sequence(bytes: &[u8], from: usize) -> (r: Vec<UsnRecordRaw>)
    requires
        from <= bytes@.len(),
    ensures
        usn_views(r@) == usn_sequence(bytes@.subrange(from as int, bytes@.len() as int)),
{
    let n: usize = bytes.len();
    let mut records: Vec<UsnRecordRaw> = Vec::new();
    let mut at: usize = from;
    let ghost all = usn_sequence(bytes@.subrange(from as int, n as int));
    assert(usn_views(records@) + all =~= all);
    while n - at >= 8
        invariant_except_break
            all == usn_views(records@) + usn_sequence(bytes@.subrange(at as int, n as int)),
        invariant
            n == bytes@.len(),
            at <= n,
        ensures
            all == usn_views(records@),
        decreases n - at,
    {
        let ghost had = usn_views(records@);
        let ghost rest = bytes@.subrange(at as int, n as int);
        assert(had + seq![] =~= had);
        let (record, length) = match parse_usn_record(vstd::slice::slice_subrange(bytes, at, n)) {
            Some(parsed) => parsed,
            None => {
                break;
            },
        };
        let ghost view = record@;
        records.push(record);
        proof {
            assert(usn_views(records@) =~= had + seq![view]);
            assert(rest.subrange(length as int, rest.len() as int) =~= bytes@.subrange(
                at + length,
                n as int,
            ));
            let more = usn_sequence(bytes@.subrange(at + length, n as int));
            assert(had + (seq![view] + more) =~= (had + seq![view]) + more);
        }
        at += length;
    }
    proof {
        assert(usn_views(records@) + seq![] =~= usn_views(records@));
    }
    records
}

/// The records that raw bytes still hold: every place divisible by eight is tried.
pub open spec fn raw_records(bytes: Seq<u8>, at: int) -> Seq<UsnRecordView>
    decreases bytes.len() - at,
{
    if at < 0 || at + 64 > bytes.len() {
        seq![]
    } else {
        match usn_record(bytes.subrange(at, bytes.len() as int)) {
            None => raw_records(bytes, at + 8),
            Some((record, length)) => seq![record] + raw_records(bytes, at + length),
        }
    }
}

/// Finds the records that raw bytes still hold.
pub fn scan_usn_records_in_raw_bytes(bytes: &[u8]) -> (r: Vec<UsnRecordRaw>)
    ensures
        usn_views(r@) == raw_records(bytes@, 0),
{
    let n: usize = bytes.len();
    let mut records: Vec<UsnRecordRaw> = Vec::new();
    let mut at: usize = 0;
    let ghost all = raw_records(bytes@, 0);
    assert(usn_views(records@) + all =~= all);
    while n - at >= 64
        invariant
            n == bytes@.len(),
            at <= n,
            all == usn_views(records@) + raw_records(bytes@, at as int),
        decreases n - at,
    {
        let ghost had = usn_views(records@);
        match parse_usn_record(vstd::slice::slice_subrange(bytes, at, n)) {
            Some((record, length)) => {
                let ghost view = record@;
                records.push(record);
                proof {
                    assert(usn_views(records@) =~= had + seq![view]);
                    let more = raw_records(bytes@, at + length);
                    assert(had + (seq![view] + more) =~= (had + seq![view]) + more);
                }
                at += length;
            },
            None => {
                at += 8;
            },
        }
    }
    assert(usn_views(records@) + seq![] =~= usn_views(records@));
    records
}

/// The last bytes, at most `n` of them.
pub open spec fn tail_bytes(bytes: Seq<u8>, n: int) -> Seq<u8> {
    bytes.subrange(
        if bytes.len() <= n {
            0
        } else {
            bytes.len() - n
        },
        bytes.len() as int,
    )
}

/// Reads the next window of a raw journal, in front of which the end of the last one stands.
pub fn read_usn_window(carry: Vec<u8>, chunk: &[u8]) -> (r: (Vec<UsnRecordRaw>, Vec<u8>))
    ensures
        usn_views(r.0@) == raw_records(carry@ + chunk@, 0),
        r.1@ == tail_bytes(carry@ + chunk@, USN_RAW_CARRY as int),
{
    let ghost before = carry@;
    let mut window = carry;
    push_bytes(&mut window, chunk);
    let records = scan_usn_records_in_raw_bytes(window.as_slice());
    let n: usize = window.len();
    let start: usize = if n <= USN_RAW_CARRY {
        0
    } else {
        n - USN_RAW_CARRY
    };
    (records, slice_to_vec(window.as_slice(), start, n))
}

// ---------------------------------------------------------------------------
// Evidence.

/// The paths of directories by file reference.
#[derive(Debug)]
pub struct DirectoryPaths {
    paths: HashMap<u64, DirectoryPath>,
}

impl View for DirectoryPaths {
    type V = Map<u64, DirectoryView>;

    closed spec fn view(&self) -> Map<u64, DirectoryView> {
        self.paths@.map_values(|d: DirectoryPath| d@)
    }
}

impl DirectoryPaths {
    pub fn new() -> (r: Self)
        ensures
            r@ == Map::<u64, DirectoryView>::empty(),
    {
        let r = DirectoryPaths { paths: HashMap::new() };
        assert(r@ =~= Map::<u64, DirectoryView>::empty());
        r
    }

    pub fn insert(&mut self, reference: u64, path: DirectoryPath)
        ensures
            final(self)@ == old(self)@.insert(reference, path@),
    {
        self.paths.insert(reference, path);
        assert(self@ =~= old(self)@.insert(reference, path@));
    }

    pub fn get(&self, reference: u64) -> (r: Option<&DirectoryPath>)
        ensures
            match r {
                Some(path) => self@.contains_key(reference) && self@[reference] == path@,
                None => !self@.contains_key(reference),
            },
    {
        self.paths.get(&reference)
    }

    pub fn len(&self) -> (r: usize)
        ensures
            r == self@.len(),
    {
        assert(self@.dom() =~= self.paths@.dom());
        self.paths.len()
    }
}

/// What the journal says of a file that was deleted or renamed.
#[derive(Debug)]
pub struct UsnEvidence {
    pub file_reference: u64,
    pub parent_reference: u64,
    pub name: String,
    pub reason: u32,
    pub timestamp: Option<String>,
    pub path: Option<String>,
}

pub struct UsnEvidenceView {
    pub file_reference: u64,
    pub parent_reference: u64,
    pub name: Seq<char>,
    pub reason: u32,
    pub timestamp: Option<Seq<char>>,
    pub path: Option<Seq<char>>,
}

impl View for UsnEvidence {
    type V = UsnEvidenceView;

    open spec fn view(&self) -> UsnEvidenceView {
        UsnEvidenceView {
            file_reference: self.file_reference,
            parent_reference: self.parent_reference,
            name: self.name@,
            reason: self.reason,
            timestamp: opt_view(self.timestamp),
            path: opt_view(self.path),
        }
    }
}

/// The text of a time in the journal; none for a time that was never set.
pub open spec fn journal_time(value: i64) -> Option<Seq<char>> {
    if value <= 0 {
        None
    } else {
        filetime_text(value as u64)
    }
}

pub fn format_filetime_i64(value: i64) -> (r: Option<String>)
    ensures
        opt_view(r) == journal_time(value),
{
    if value <= 0 {
        None
    } else {
        format_ntfs_filetime(value as u64)
    }
}

pub open spec fn tells_of_deletion(reason: u32) -> bool {
    reason & USN_REASON_FILE_DELETE != 0
}

/// A deletion or a change of name.
pub open spec fn is_relevant(reason: u32) -> bool {
    reason & (USN_REASON_FILE_DELETE | USN_REASON_RENAME_OLD_NAME | USN_REASON_RENAME_NEW_NAME) != 0
}

/// What a record says of a file, with the path of its directory.
pub open spec fn evidence_of(record: UsnRecordView, dirs: Map<u64, DirectoryView>) -> Option<
    UsnEvidenceView,
> {
    if !is_relevant(record.reason) {
        None
    } else {
        Some(
            UsnEvidenceView {
                file_reference: record.file_reference,
                parent_reference: record.parent_reference,
                name: record.name,
                reason: record.reason,
                timestamp: journal_time(record.timestamp),
                path: if dirs.contains_key(record.parent_reference) {
                    Some(ntfs_joined(dirs[record.parent_reference].path, record.name))
                } else {
                    None
                },
            },
        )
    }
}

pub fn usn_record_to_evidence(record: UsnRecordRaw, directory_paths: &DirectoryPaths) -> (r: Option<
    UsnEvidence,
>)
    ensures
        match evidence_of(record@, directory_paths@) {
            Some(evidence) => r matches Some(e) && e@ == evidence,
            None => r is None,
        },
{
    if record.reason & (USN_REASON_FILE_DELETE | USN_REASON_RENAME_OLD_NAME
        | USN_REASON_RENAME_NEW_NAME) == 0 {
        return None;
    }
    let path: Option<String> = match directory_paths.get(record.parent_reference) {
        Some(parent) => Some(join_ntfs_path(parent.path.as_str(), record.name.as_str())),
        None => None,
    };
    Some(
        UsnEvidence {
            file_reference: record.file_reference,
            parent_reference: record.parent_reference,
            name: record.name,
            reason: record.reason,
            timestamp: format_filetime_i64(record.timestamp),
            path,
        },
    )
}

// ---------------------------------------------------------------------------
// The journal file.

/// The name of an attribute.
pub open spec fn stored_attribute_name(bytes: Seq<u8>) -> Option<Seq<char>> {
    let length = 2 * bytes[9];
    let at = le16(bytes, 10);
    if bytes.len() < 16 || length == 0 || at + length > bytes.len() {
        None
    } else {
        utf16_name(bytes.subrange(at, at + length))
    }
}

pub fn attribute_name(attribute_data: &[u8]) -> (r: Option<String>)
    ensures
        opt_view(r) == stored_attribute_name(attribute_data@),
{
    let n: usize = attribute_data.len();
    if n < 16 {
        return None;
    }
    let length: usize = attribute_data[9] as usize * 2;
    let at: usize = read_le16(attribute_data, 10) as usize;
    if length == 0 || at + length > n {
        return None;
    }
    decode_utf16_name(attribute_data, at, at + length)
}

/// A data attribute of a file: its stored form, and its size and runs where it has some.
#[derive(Debug)]
pub struct StoredStream {
    pub attribute: Vec<u8>,
    pub runs: Option<(u64, Vec<DataRun>)>,
}

pub open spec fn is_journal_stream(stream: StoredStream) -> bool {
    stored_attribute_name(stream.attribute@) == Some("$J"@) && stream.runs is Some
}

/// The stream of a file that holds the journal: the last one named `$J`, where the file is the
/// journal file.
pub fn find_usn_journal_data_runs(file_name: &str, streams: &Vec<StoredStream>) -> (r: Option<
    usize,
>)
    ensures
        match r {
            Some(i) => {
                &&& ascii_lower(file_name@) == ascii_lower("$UsnJrnl"@)
                &&& i < streams@.len()
                &&& is_journal_stream(streams@[i as int])
                &&& forall|j: int|
                    i < j < streams@.len() ==> !is_journal_stream(#[trigger] streams@[j])
            },
            None => ascii_lower(file_name@) != ascii_lower("$UsnJrnl"@) || forall|j: int|
                0 <= j < streams@.len() ==> !is_journal_stream(#[trigger] streams@[j]),
        },
{
    if !eq_ignore_ascii_case(file_name, "$UsnJrnl") {
        return None;
    }
    let mut found: Option<usize> = None;
    let mut i: usize = 0;
    while i < streams.len()
        invariant
            i <= streams@.len(),
            match found {
                Some(k) => {
                    &&& k < i
                    &&& is_journal_stream(streams@[k as int])
                    &&& forall|j: int| k < j < i ==> !is_journal_stream(#[trigger] streams@[j])
                },
                None => forall|j: int| 0 <= j < i ==> !is_journal_stream(#[trigger] streams@[j]),
            },
        decreases streams@.len() - i,
    {
        let named: bool = match attribute_name(streams[i].attribute.as_slice()) {
            Some(name) => *name.as_str() == *"$J",
            None => false,
        };
        if named && streams[i].runs.is_some() {
            found = Some(i);
        }
        i += 1;
    }
    found
}

// ---------------------------------------------------------------------------
// Laws.

/// A record that tells of a deletion is always evidence.
pub proof fn lemma_deletions_are_evidence(record: UsnRecordView, dirs: Map<u64, DirectoryView>)
    ensures
        tells_of_deletion(record.reason) ==> evidence_of(record, dirs) is Some,
{
    let reason = record.reason;
    assert(reason & 0x200u32 != 0 ==> reason & (0x200u32 | 0x1000u32 | 0x2000u32) != 0)
        by (bit_vector);
}

/// A record of the journal as it is stored, in version 2 or 3. Version 3 has references of 128
/// bits, of which the lower half tells the file.
pub struct JournalFields {
    pub version: u16,
    pub minor: u16,
    pub file_reference: u64,
    pub file_reference_high: u64,
    pub parent_reference: u64,
    pub parent_reference_high: u64,
    pub usn: u64,
    pub timestamp: u64,
    pub reason: u32,
    pub source_info: u32,
    pub security_id: u32,
    pub attributes: u32,
    pub name: Seq<char>,
}

/// The references of a stored record.
pub open spec fn reference_parts(f: JournalFields) -> Seq<u8> {
    if f.version == 2 {
        le_bytes(f.file_reference as int, 8) + le_bytes(f.parent_reference as int, 8)
    } else {
        le_bytes(f.file_reference as int, 8) + le_bytes(f.file_reference_high as int, 8) + le_bytes(
            f.parent_reference as int,
            8,
        ) + le_bytes(f.parent_reference_high as int, 8)
    }
}

/// Where the name of a stored record begins.
pub open spec fn name_place(version: u16) -> int {
    if version == 2 {
        60
    } else {
        76
    }
}

/// The parts of a stored record, in their order; `rest` lies behind the name.
pub open spec fn journal_parts(f: JournalFields, rest: Seq<u8>) -> Seq<Seq<u8>> {
    let name = stored_text(f.name);
    seq![
        le_bytes(name_place(f.version) + name.len() as int + rest.len() as int, 4),
        le_bytes(f.version as int, 2),
        le_bytes(f.minor as int, 2),
        reference_parts(f),
        le_bytes(f.usn as int, 8),
        le_bytes(f.timestamp as int, 8),
        le_bytes(f.reason as int, 4),
        le_bytes(f.source_info as int, 4),
        le_bytes(f.security_id as int, 4),
        le_bytes(f.attributes as int, 4),
        le_bytes(name.len() as int, 2),
        le_bytes(name_place(f.version), 2),
        name,
        rest,
    ]
}

proof fn lemma_journal_places(f: JournalFields, rest: Seq<u8>)
    requires
        f.version == 2 || f.version == 3,
    ensures
        ({
            let s = joined(journal_parts(f, rest));
            let usn = name_place(f.version) - 36;
            let name = stored_text(f.name);
            &&& s.len() == name_place(f.version) + name.len() + rest.len()
            &&& laid_at(s, 0, le_bytes(s.len() as int, 4))
            &&& laid_at(s, 4, le_bytes(f.version as int, 2))
            &&& laid_at(s, 8, reference_parts(f))
            &&& laid_at(s, usn + 8, le_bytes(f.timestamp as int, 8))
            &&& laid_at(s, usn + 16, le_bytes(f.reason as int, 4))
            &&& laid_at(s, usn + 32, le_bytes(name.len() as int, 2))
            &&& laid_at(s, usn + 34, le_bytes(name_place(f.version), 2))
            &&& laid_at(s, name_place(f.version), name)
        }),
{
    let parts = journal_parts(f, rest);
    reveal_with_fuel(le_bytes, 9);
    reveal_with_fuel(place_of, 15);
    lemma_parts_lie_in_place(parts, 0);
    lemma_parts_lie_in_place(parts, 1);
    lemma_parts_lie_in_place(parts, 3);
    lemma_parts_lie_in_place(parts, 5);
    lemma_parts_lie_in_place(parts, 6);
    lemma_parts_lie_in_place(parts, 10);
    lemma_parts_lie_in_place(parts, 11);
    lemma_parts_lie_in_place(parts, 12);
}

proof fn lemma_reference_places(f: JournalFields)
    ensures
        ({
            let s = reference_parts(f);
            &&& laid_at(s, 0, le_bytes(f.file_reference as int, 8))
            &&& laid_at(
                s,
                if f.version == 2 {
                    8
                } else {
                    16
                },
                le_bytes(f.parent_reference as int, 8),
            )
        }),
{
    reveal_with_fuel(le_bytes, 9);
}

/// A record of the journal is read back: the file, its directory, the time, the reason and the
/// name, whatever its sequence number and its other fields are.
pub proof fn lemma_journal_record_reads_back(f: JournalFields, rest: Seq<u8>, behind: Seq<u8>)
    requires
        f.version == 2 || f.version == 3,
        plausible_name(f.name),
        stored_text(f.name).len() < 0x1_0000,
        rest.len() < 8,
        (name_place(f.version) + stored_text(f.name).len() + rest.len()) % 8 == 0,
    ensures
        usn_record(joined(journal_parts(f, rest)) + behind) matches Some((record, length)) && {
            &&& record.file_reference == f.file_reference
            &&& record.parent_reference == f.parent_reference
            &&& record.timestamp == if f.timestamp < 0x8000_0000_0000_0000 {
                f.timestamp as int
            } else {
                f.timestamp - 0x1_0000_0000_0000_0000
            }
            &&& record.reason == f.reason
            &&& record.name == f.name
            &&& length == name_place(f.version) + stored_text(f.name).len() + rest.len()
        },
{
    let own = joined(journal_parts(f, rest));
    let s = own + behind;
    let place = name_place(f.version);
    let usn = place - 36;
    let name = stored_text(f.name);
    lemma_journal_places(f, rest);
    lemma_reference_places(f);
    assert(laid_at(s, 0, own));
    lemma_laid_within(s, 0, own, 0, le_bytes(own.len() as int, 4));
    lemma_laid_within(s, 0, own, 4, le_bytes(f.version as int, 2));
    lemma_laid_within(s, 0, own, 8, reference_parts(f));
    lemma_laid_within(s, 8, reference_parts(f), 0, le_bytes(f.file_reference as int, 8));
    lemma_laid_within(
        s,
        8,
        reference_parts(f),
        if f.version == 2 {
            8
        } else {
            16
        },
        le_bytes(f.parent_reference as int, 8),
    );
    lemma_laid_within(s, 0, own, usn + 8, le_bytes(f.timestamp as int, 8));
    lemma_laid_within(s, 0, own, usn + 16, le_bytes(f.reason as int, 4));
    lemma_laid_within(s, 0, own, usn + 32, le_bytes(name.len() as int, 2));
    lemma_laid_within(s, 0, own, usn + 34, le_bytes(place, 2));
    lemma_laid_within(s, 0, own, place, name);
    lemma_le32_reads_back(s, 0, own.len() as int);
    lemma_le16_reads_back(s, 4, f.version as int);
    lemma_le64_reads_back(s, 8, f.file_reference as int);
    lemma_le64_reads_back(
        s,
        if f.version == 2 {
            16
        } else {
            24
        },
        f.parent_reference as int,
    );
    lemma_le64_reads_back(s, usn + 8, f.timestamp as int);
    lemma_le32_reads_back(s, usn + 16, f.reason as int);
    lemma_le16_reads_back(s, usn + 32, name.len() as int);
    lemma_le16_reads_back(s, usn + 34, place);
    lemma_stored_text_reads_back(f.name);
    assert(s.subrange(place, place + name.len()) =~= name);
    assert(name.len() > 0 && name.len() % 2 == 0) by {
        assert(crate::utf16::written_utf16(f.name).len() > 0);
    }
    let stamp = f.timestamp;
    assert(stamp < 0x8000_0000_0000_0000u64 ==> stamp as i64 == stamp) by (bit_vector);
    assert(stamp >= 0x8000_0000_0000_0000u64 ==> stamp as i64 == stamp - 0x1_0000_0000_0000_0000)
        by (bit_vector);
}

/// Evidence of the journal says when the change was noted, of which file, in which directory, and
/// under which name; a path is that name in the directory.
pub proof fn lemma_evidence_says_what_was_noted(
    record: UsnRecordView,
    dirs: Map<u64, DirectoryView>,
)
    requires
        record.reason & 0x3200u32 != 0,
    ensures
        evidence_of(record, dirs) matches Some(e) && {
            &&& e.file_reference == record.file_reference
            &&& e.parent_reference == record.parent_reference
            &&& e.name == record.name
            &&& e.reason == record.reason
            &&& record.timestamp > 0 ==> e.timestamp == filetime_text(record.timestamp as u64)
            &&& record.timestamp <= 0 ==> e.timestamp is None
            &&& !dirs.contains_key(record.parent_reference) ==> e.path is None
            &&& dirs.contains_key(record.parent_reference) ==> (e.path matches Some(path)
                && record.name.is_suffix_of(path) && dirs[record.parent_reference].path.is_prefix_of(
                path,
            ))
        },
{
    let reason = record.reason;
    assert(reason & 0x3200u32 != 0 ==> reason & (0x200u32 | 0x1000u32 | 0x2000u32) != 0)
        by (bit_vector);
    if dirs.contains_key(record.parent_reference) {
        let parent = dirs[record.parent_reference].path;
        let path = ntfs_joined(parent, record.name);
        assert(path.subrange(0, parent.len() as int) =~= parent);
        assert(path.subrange(path.len() - record.name.len(), path.len() as int) =~= record.name);
    }
}

/// Nothing but deletions and changes of names is evidence.
pub proof fn lemma_other_changes_are_no_evidence(
    record: UsnRecordView,
    dirs: Map<u64, DirectoryView>,
)
    requires
        record.reason & 0x3200u32 == 0,
    ensures
        evidence_of(record, dirs) is None,
{
    let reason = record.reason;
    assert(reason & 0x3200u32 == 0 ==> reason & (0x200u32 | 0x1000u32 | 0x2000u32) == 0)
        by (bit_vector);
}

/// Records that follow each other are all read, in their order.
pub proof fn lemma_journal_sequence_reads_on(f: JournalFields, rest: Seq<u8>, behind: Seq<u8>)
    requires
        f.version == 2 || f.version == 3,
        plausible_name(f.name),
        stored_text(f.name).len() < 0x1_0000,
        rest.len() < 8,
        (name_place(f.version) + stored_text(f.name).len() + rest.len()) % 8 == 0,
    ensures
        ({
            let all = usn_sequence(joined(journal_parts(f, rest)) + behind);
            let raw = raw_records(joined(journal_parts(f, rest)) + behind, 0);
            &&& all.len() > 0 && raw.len() > 0
            &&& all[0].name == f.name && all[0].file_reference == f.file_reference
            &&& raw[0] == all[0]
            &&& all.subrange(1, all.len() as int) == usn_sequence(behind)
        }),
{
    let own = joined(journal_parts(f, rest));
    let s = own + behind;
    lemma_journal_places(f, rest);
    lemma_journal_record_reads_back(f, rest, behind);
    let (record, length) = usn_record(s)->0;
    assert(length == own.len());
    assert(s.subrange(length, s.len() as int) =~= behind);
    assert(s.subrange(0, s.len() as int) =~= s);
    assert(s.len() >= 64);
    let all = usn_sequence(s);
    assert(all == seq![record] + usn_sequence(behind));
    assert(all.subrange(1, all.len() as int) =~= usn_sequence(behind));
    assert(raw_records(s, 0) == seq![record] + raw_records(s, length));
}

} // verus!
