//! The directory index of NTFS: names of files, also in the slack behind the last entry.

use crate::bytes::{
    joined, laid_at, le16, le32, le64, le_bytes, lemma_laid_within, lemma_le16_reads_back,
    lemma_le32_reads_back, lemma_le64_reads_back, lemma_parts_lie_in_place, matches_at, occurs_at, place_of, read_le16,
    read_le32, read_le64, slice_to_vec,
};
use crate::clock::{filetime_text, format_ntfs_filetime};
use crate::utf16::{decode_utf16, lemma_utf16_reads_back, utf16_text, written_utf16};
use crate::model::{PathConfidence, RssError};
use crate::ntfs_paths::{ntfs_reference_record_number, record_number};
use crate::text::{
    ascii_lower, concat2, concat3, ends_with_char, has_char, opt_view, owned, to_ascii_lowercase,
};
use vstd::prelude::*;
use vstd::string::*;

verus! {

pub const NTFS_ATTR_FILE_NAME: u32 = 0x30;

pub const INDEX_ROOT_HEADER_LEN: usize = 0x10;

pub const INDEX_NODE_HEADER_LEN: usize = 0x10;

pub const INDEX_ENTRY_HEADER_LEN: usize = 0x10;

pub const INDX_HEADER_LEN: usize = 0x18;

pub const SECTOR_SIZE: usize = 512;

pub const DEFAULT_INDEX_BUFFER_SIZE: u32 = 4096;

/// How much of an index is read at once.
pub const RAW_READ_WINDOW: u64 = 16777216;

// ---------------------------------------------------------------------------
// Names.

/// The UTF-16 code units of some bytes.
pub open spec fn units_of(bytes: Seq<u8>) -> Seq<u16> {
    Seq::new(bytes.len() / 2, |i: int| le16(bytes, 2 * i) as u16)
}

/// The text that some bytes hold in UTF-16.
pub open spec fn utf16_name(bytes: Seq<u8>) -> Option<Seq<char>> {
    if bytes.len() % 2 != 0 {
        None
    } else {
        utf16_text(units_of(bytes))
    }
}

/// Reads a name between two places.
pub fn decode_utf16_name(bytes: &[u8], from: usize, to: usize) -> (r: Option<String>)
    requires
        from <= to <= bytes@.len(),
    ensures
        opt_view(r) == utf16_name(bytes@.subrange(from as int, to as int)),
{
    let n: usize = to - from;
    if n % 2 != 0 {
        return None;
    }
    let ghost part = bytes@.subrange(from as int, to as int);
    let mut units: Vec<u16> = Vec::new();
    let mut i: usize = 0;
    while i < n / 2
        invariant
            i <= n / 2,
            n == to - from,
            to <= bytes@.len(),
            part == bytes@.subrange(from as int, to as int),
            units@.len() == i,
            forall|j: int| 0 <= j < i ==> #[trigger] units@[j] == le16(part, 2 * j) as u16,
        decreases n / 2 - i,
    {
        units.push(read_le16(bytes, from + 2 * i));
        i += 1;
    }
    assert(units@ =~= units_of(part));
    decode_utf16(units.as_slice())
}

/// A name that a file can have.
pub open spec fn plausible_name(name: Seq<char>) -> bool {
    name.len() > 0 && name != "."@ && name != ".."@ && !name.contains('\0') && !name.contains('/')
        && !name.contains('\\')
}

pub fn valid_file_name(name: &str) -> (r: bool)
    ensures
        r == plausible_name(name@),
{
    !name.is_empty() && *name != *"." && *name != *".." && !has_char(name, '\0') && !has_char(
        name,
        '/',
    ) && !has_char(name, '\\')
}

/// The path of a file in a directory.
pub open spec fn ntfs_joined(parent: Seq<char>, name: Seq<char>) -> Seq<char> {
    if parent.len() > 0 && parent.last() == '\\' {
        parent + name
    } else {
        parent + "\\"@ + name
    }
}

pub fn join_ntfs_path(parent: &str, name: &str) -> (r: String)
    ensures
        r@ == ntfs_joined(parent@, name@),
{
    if ends_with_char(parent, '\\') {
        concat2(parent, name)
    } else {
        concat3(parent, "\\", name)
    }
}

/// A directory whose path is known.
#[derive(Debug)]
pub struct DirectoryPath {
    pub path: String,
    pub confidence: PathConfidence,
}

pub struct DirectoryView {
    pub path: Seq<char>,
    pub confidence: PathConfidence,
}

impl View for DirectoryPath {
    type V = DirectoryView;

    open spec fn view(&self) -> DirectoryView {
        DirectoryView { path: self.path@, confidence: self.confidence }
    }
}

pub open spec fn dir_view(dir: Option<&DirectoryPath>) -> Option<DirectoryView> {
    match dir {
        Some(d) => Some(d@),
        None => None,
    }
}

/// An entry of a directory index.
#[derive(Debug)]
pub struct I30Entry {
    pub file_reference: u64,
    pub parent_reference: u64,
    pub name: String,
    pub path: Option<String>,
    pub path_confidence: PathConfidence,
    pub size: u64,
    pub from_slack: bool,
    pub created_at: Option<String>,
    pub modified_at: Option<String>,
    pub last_metadata_change_at: Option<String>,
}

pub struct I30View {
    pub file_reference: u64,
    pub parent_reference: u64,
    pub name: Seq<char>,
    pub path: Option<Seq<char>>,
    pub path_confidence: PathConfidence,
    pub size: u64,
    pub from_slack: bool,
    pub created_at: Option<Seq<char>>,
    pub modified_at: Option<Seq<char>>,
    pub last_metadata_change_at: Option<Seq<char>>,
}

impl View for I30Entry {
    type V = I30View;

    open spec fn view(&self) -> I30View {
        I30View {
            file_reference: self.file_reference,
            parent_reference: self.parent_reference,
            name: self.name@,
            path: opt_view(self.path),
            path_confidence: self.path_confidence,
            size: self.size,
            from_slack: self.from_slack,
            created_at: opt_view(self.created_at),
            modified_at: opt_view(self.modified_at),
            last_metadata_change_at: opt_view(self.last_metadata_change_at),
        }
    }
}

pub open spec fn i30_views(list: Seq<I30Entry>) -> Seq<I30View> {
    list.map_values(|e: I30Entry| e@)
}

// ---------------------------------------------------------------------------
// Entries.

/// What a stored file name says of a file.
pub open spec fn stored_name(
    file_reference: u64,
    stream: Seq<u8>,
    dir: Option<DirectoryView>,
    from_slack: bool,
) -> Option<I30View> {
    let n = stream[0x40] as int;
    if stream.len() < 0x42 || n == 0 || 0x42 + 2 * n > stream.len() || stream[0x41] > 3 {
        None
    } else {
        match utf16_name(stream.subrange(0x42, 0x42 + 2 * n)) {
            None => None,
            Some(name) => if !plausible_name(name) {
                None
            } else {
                Some(
                    I30View {
                        file_reference,
                        parent_reference: le64(stream, 0) as u64,
                        name,
                        path: match dir {
                            Some(d) => Some(ntfs_joined(d.path, name)),
                            None => None,
                        },
                        path_confidence: match dir {
                            Some(d) => d.confidence,
                            None => PathConfidence::Unknown,
                        },
                        size: le64(stream, 0x30) as u64,
                        from_slack,
                        created_at: filetime_text(le64(stream, 8) as u64),
                        modified_at: filetime_text(le64(stream, 16) as u64),
                        last_metadata_change_at: filetime_text(le64(stream, 24) as u64),
                    },
                )
            },
        }
    }
}

/// The number at a place of a part of some bytes.
fn read_in(bytes: &[u8], from: usize, to: usize, at: usize) -> (r: u64)
    requires
        from <= to <= bytes@.len(),
        at + 8 <= to - from,
    ensures
        r == le64(bytes@.subrange(from as int, to as int), at as int) as u64,
{
    read_le64(bytes, from + at)
}

pub fn parse_file_name_stream(
    file_reference: u64,
    bytes: &[u8],
    from: usize,
    to: usize,
    directory_path: Option<&DirectoryPath>,
    from_slack: bool,
) -> (r: Option<I30Entry>)
    requires
        from <= to <= bytes@.len(),
    ensures
        match stored_name(
            file_reference,
            bytes@.subrange(from as int, to as int),
            dir_view(directory_path),
            from_slack,
        ) {
            Some(entry) => r matches Some(e) && e@ == entry,
            None => r is None,
        },
{
    let ghost stream = bytes@.subrange(from as int, to as int);
    let n: usize = to - from;
    if n < 0x42 {
        return None;
    }
    let length: usize = bytes[from + 0x40] as usize;
    if length == 0 || 0x42 + length * 2 > n || bytes[from + 0x41] > 3 {
        return None;
    }
    assert(bytes@.subrange(from + 0x42, from + 0x42 + length * 2) =~= stream.subrange(
        0x42,
        0x42 + 2 * length,
    ));
    let name = match decode_utf16_name(bytes, from + 0x42, from + 0x42 + length * 2) {
        Some(name) => name,
        None => {
            return None;
        },
    };
    if !valid_file_name(name.as_str()) {
        return None;
    }
    let path: Option<String> = match directory_path {
        Some(d) => Some(join_ntfs_path(d.path.as_str(), name.as_str())),
        None => None,
    };
    let path_confidence: PathConfidence = match directory_path {
        Some(d) => d.confidence,
        None => PathConfidence::Unknown,
    };
    Some(
        I30Entry {
            file_reference,
            parent_reference: read_in(bytes, from, to, 0),
            name,
            path,
            path_confidence,
            size: read_in(bytes, from, to, 0x30),
            from_slack,
            created_at: format_ntfs_filetime(read_in(bytes, from, to, 8)),
            modified_at: format_ntfs_filetime(read_in(bytes, from, to, 16)),
            last_metadata_change_at: format_ntfs_filetime(read_in(bytes, from, to, 24)),
        },
    )
}

/// The flag of the entry that ends an index node.
pub open spec fn is_end_flag(flags: u16) -> bool {
    flags & 2 != 0
}

/// An entry in slack that is no coincidence: known flags, a record of a file, a directory and a
/// time.
pub open spec fn strong_entry(e: I30View, flags: u16) -> bool {
    &&& flags & !3u16 == 0
    &&& record_number(e.file_reference) >= 24
    &&& e.parent_reference != 0
    &&& record_number(e.parent_reference) != 0
    &&& e.created_at is Some || e.modified_at is Some || e.last_metadata_change_at is Some
}

pub fn strong_i30_slack_entry(entry: &I30Entry, flags: u16) -> (r: bool)
    ensures
        r == strong_entry(entry@, flags),
{
    flags & !3u16 == 0 && ntfs_reference_record_number(entry.file_reference) >= 24
        && entry.parent_reference != 0 && ntfs_reference_record_number(entry.parent_reference) != 0
        && (entry.created_at.is_some() || entry.modified_at.is_some()
        || entry.last_metadata_change_at.is_some())
}

/// The entry that ends an index node.
pub open spec fn end_entry(file_reference: u64, from_slack: bool) -> I30View {
    I30View {
        file_reference,
        parent_reference: 0,
        name: seq![],
        path: None,
        path_confidence: PathConfidence::Unknown,
        size: 0,
        from_slack,
        created_at: None,
        modified_at: None,
        last_metadata_change_at: None,
    }
}

/// The entry at a place of an index, its flags and its length.
pub open spec fn entry_at(
    bytes: Seq<u8>,
    at: int,
    dir: Option<DirectoryView>,
    from_slack: bool,
) -> Option<(I30View, u16, int)> {
    let file_reference = le64(bytes, at) as u64;
    let length = le16(bytes, at + 8);
    let stream_length = le16(bytes, at + 10);
    let flags = le16(bytes, at + 12) as u16;
    if at + 16 > bytes.len() {
        None
    } else if is_end_flag(flags) {
        Some((end_entry(file_reference, from_slack), flags, length))
    } else if length < 16 || length % 8 != 0 || at + length > bytes.len() || stream_length < 0x42
        || stream_length > length - 16 {
        None
    } else {
        match stored_name(
            file_reference,
            bytes.subrange(at + 16, at + 16 + stream_length),
            dir,
            from_slack,
        ) {
            None => None,
            Some(entry) => if from_slack && !strong_entry(entry, flags) {
                None
            } else {
                Some((entry, flags, length))
            },
        }
    }
}

pub fn parse_index_entry_at(
    bytes: &[u8],
    offset: usize,
    directory_path: Option<&DirectoryPath>,
    from_slack: bool,
) -> (r: Option<(I30Entry, u16, usize)>)
    ensures
        match entry_at(bytes@, offset as int, dir_view(directory_path), from_slack) {
            Some((entry, flags, length)) => r matches Some((e, f, n)) && e@ == entry && f == flags
                && n == length,
            None => r is None,
        },
{
    let n: usize = bytes.len();
    if n < 16 || offset > n - 16 {
        return None;
    }
    let file_reference: u64 = read_le64(bytes, offset);
    let length: usize = read_le16(bytes, offset + 8) as usize;
    let stream_length: usize = read_le16(bytes, offset + 10) as usize;
    let flags: u16 = read_le16(bytes, offset + 12);
    if flags & 2 != 0 {
        let entry = I30Entry {
            file_reference,
            parent_reference: 0,
            name: String::new(),
            path: None,
            path_confidence: PathConfidence::Unknown,
            size: 0,
            from_slack,
            created_at: None,
            modified_at: None,
            last_metadata_change_at: None,
        };
        assert(entry.name@ =~= seq![]);
        return Some((entry, flags, length));
    }
    if length < 16 || length % 8 != 0 || length > n - offset || stream_length < 0x42
        || stream_length > length - 16 {
        return None;
    }
    let entry = match parse_file_name_stream(
        file_reference,
        bytes,
        offset + 16,
        offset + 16 + stream_length,
        directory_path,
        from_slack,
    ) {
        Some(entry) => entry,
        None => {
            return None;
        },
    };
    if from_slack && !strong_i30_slack_entry(&entry, flags) {
        return None;
    }
    Some((entry, flags, length))
}

/// What tells two entries apart.
pub open spec fn entry_key(e: I30View) -> (u64, Seq<char>) {
    (e.file_reference, ascii_lower(e.name))
}

/// The keys of the entries that have been met.
struct SeenKeys {
    keys: Vec<(u64, String)>,
}

spec fn key_set(keys: Seq<(u64, String)>) -> Set<(u64, Seq<char>)> {
    Set::new(
        |k: (u64, Seq<char>)|
            exists|i: int|
                0 <= i < keys.len() && #[trigger] keys[i].0 == k.0 && keys[i].1@ == k.1,
    )
}

impl SeenKeys {
    fn new() -> (r: Self)
        ensures
            key_set(r.keys@) == Set::<(u64, Seq<char>)>::empty(),
    {
        let r = SeenKeys { keys: Vec::new() };
        assert(key_set(r.keys@) =~= Set::<(u64, Seq<char>)>::empty());
        r
    }

    /// Adds the key of an entry; whether it is new.
    fn insert(&mut self, entry: &I30Entry) -> (r: bool)
        ensures
            r == !key_set(old(self).keys@).contains(entry_key(entry@)),
            key_set(final(self).keys@) == key_set(old(self).keys@).insert(entry_key(entry@)),
    {
        let name = to_ascii_lowercase(entry.name.as_str());
        let mut i: usize = 0;
        while i < self.keys.len()
            invariant
                i <= self.keys@.len(),
                self.keys@ == old(self).keys@,
                name@ == ascii_lower(entry.name@),
                forall|j: int|
                    0 <= j < i ==> !((#[trigger] self.keys@[j]).0 == entry.file_reference
                        && self.keys@[j].1@ == name@),
            decreases self.keys@.len() - i,
        {
            if self.keys[i].0 == entry.file_reference && *self.keys[i].1.as_str()
                == *name.as_str() {
                proof {
                    let k = entry_key(entry@);
                    assert(self.keys@[i as int].0 == k.0 && self.keys@[i as int].1@ == k.1);
                    assert(key_set(self.keys@) =~= key_set(self.keys@).insert(k));
                }
                return false;
            }
            i += 1;
        }
        self.keys.push((entry.file_reference, name));
        proof {
            let k = entry_key(entry@);
            let before = old(self).keys@;
            let after = self.keys@;
            assert forall|x: (u64, Seq<char>)| key_set(after).contains(x) <==> key_set(
                before,
            ).insert(k).contains(x) by {
                if key_set(after).contains(x) {
                    let j = choose|j: int|
                        0 <= j < after.len() && #[trigger] after[j].0 == x.0 && after[j].1@ == x.1;
                    if j < before.len() {
                        assert(before[j].0 == x.0 && before[j].1@ == x.1);
                    }
                }
                if key_set(before).contains(x) {
                    let j = choose|j: int|
                        0 <= j < before.len() && #[trigger] before[j].0 == x.0 && before[j].1@
                            == x.1;
                    assert(after[j].0 == x.0 && after[j].1@ == x.1);
                }
                if x == k {
                    assert(after[before.len() as int].0 == x.0);
                }
            }
            assert(key_set(after) =~= key_set(before).insert(k));
        }
        true
    }
}

/// The entries of an index node from a place on. A node ends at its end entry, at an entry that
/// cannot be read, or at one that came before.
pub open spec fn node_entries(
    bytes: Seq<u8>,
    at: int,
    end: int,
    dir: Option<DirectoryView>,
    from_slack: bool,
    seen: Set<(u64, Seq<char>)>,
) -> Seq<I30View>
    decreases end - at,
{
    if at + 16 > end {
        seq![]
    } else {
        match entry_at(bytes, at, dir, from_slack) {
            None => seq![],
            Some((entry, flags, length)) => if seen.contains(entry_key(entry)) || is_end_flag(
                flags,
            ) {
                seq![]
            } else if length <= 0 || at + length > end {
                seq![entry]
            } else {
                seq![entry] + node_entries(
                    bytes,
                    at + length,
                    end,
                    dir,
                    from_slack,
                    seen.insert(entry_key(entry)),
                )
            },
        }
    }
}

/// The entries of the index node whose header stands at a place.
pub open spec fn node_at(
    bytes: Seq<u8>,
    header: int,
    dir: Option<DirectoryView>,
    from_slack: bool,
) -> Seq<I30View> {
    let end = header + le32(bytes, header + 4);
    if header + 16 > bytes.len() {
        seq![]
    } else {
        node_entries(
            bytes,
            header + le32(bytes, header),
            if end < bytes.len() {
                end
            } else {
                bytes.len() as int
            },
            dir,
            from_slack,
            Set::empty(),
        )
    }
}

pub fn parse_index_node(
    bytes: &[u8],
    node_header_offset: usize,
    directory_path: Option<&DirectoryPath>,
    from_slack: bool,
) -> (r: Vec<I30Entry>)
    ensures
        i30_views(r@) == node_at(
            bytes@,
            node_header_offset as int,
            dir_view(directory_path),
            from_slack,
        ),
{
    let ghost dir = dir_view(directory_path);
    let mut entries: Vec<I30Entry> = Vec::new();
    assert(i30_views(entries@) =~= seq![]);
    let n: usize = bytes.len();
    if n < 16 || node_header_offset > n - 16 {
        return entries;
    }
    let start: u128 = node_header_offset as u128 + read_le32(bytes, node_header_offset) as u128;
    let stop: u128 = node_header_offset as u128 + read_le32(
        bytes,
        node_header_offset + 4,
    ) as u128;
    let end: usize = if stop < n as u128 {
        stop as usize
    } else {
        n
    };
    let ghost all = node_entries(
        bytes@,
        start as int,
        end as int,
        dir,
        from_slack,
        Set::<(u64, Seq<char>)>::empty(),
    );
    if end < 16 || start > (end - 16) as u128 {
        return entries;
    }
    let mut cursor: usize = start as usize;
    let mut seen = SeenKeys::new();
    assert(i30_views(entries@) + all =~= all);
    while cursor <= end - 16
        invariant_except_break
            all == i30_views(entries@) + node_entries(
                bytes@,
                cursor as int,
                end as int,
                dir,
                from_slack,
                key_set(seen.keys@),
            ),
        invariant
            dir == dir_view(directory_path),
            16 <= end <= bytes@.len(),
            cursor <= end,
        ensures
            all == i30_views(entries@),
        decreases end - cursor,
    {
        let ghost had = i30_views(entries@);
        let ghost keys = key_set(seen.keys@);
        assert(had + seq![] =~= had);
        let (entry, flags, length) = match parse_index_entry_at(
            bytes,
            cursor,
            directory_path,
            from_slack,
        ) {
            Some(parsed) => parsed,
            None => {
                break;
            },
        };
        let fresh: bool = seen.insert(&entry);
        if !fresh {
            break;
        }
        if flags & 2 != 0 {
            break;
        }
        let ghost view = entry@;
        entries.push(entry);
        assert(i30_views(entries@) =~= had + seq![view]);
        if length == 0 || length > end - cursor {
            break;
        }
        cursor += length;
        proof {
            let rest = node_entries(
                bytes@,
                cursor as int,
                end as int,
                dir,
                from_slack,
                key_set(seen.keys@),
            );
            assert(had + (seq![view] + rest) =~= (had + seq![view]) + rest);
        }
    }
    entries
}

/// The size of the buffers of an index, where its root is one of file names.
pub open spec fn root_buffer_size(bytes: Seq<u8>) -> Option<u32> {
    if bytes.len() < 16 || le32(bytes, 0) != NTFS_ATTR_FILE_NAME {
        None
    } else {
        Some(le32(bytes, 8) as u32)
    }
}

pub fn parse_index_root_buffer_size(bytes: &[u8]) -> (r: Option<u32>)
    ensures
        r == root_buffer_size(bytes@),
{
    if bytes.len() < INDEX_ROOT_HEADER_LEN {
        return None;
    }
    if read_le32(bytes, 0) != NTFS_ATTR_FILE_NAME {
        return None;
    }
    Some(read_le32(bytes, 8))
}

/// The buffer size that an index root gives, at least one sector.
pub fn index_buffer_size_of(bytes: &[u8]) -> (r: u32)
    ensures
        r == match root_buffer_size(bytes@) {
            Some(n) => if n < 512 {
                512
            } else {
                n
            },
            None => DEFAULT_INDEX_BUFFER_SIZE,
        },
{
    match parse_index_root_buffer_size(bytes) {
        Some(n) => if n < 512 {
            512
        } else {
            n
        },
        None => DEFAULT_INDEX_BUFFER_SIZE,
    }
}

/// The entries of an index root.
pub open spec fn root_entries(bytes: Seq<u8>, dir: Option<DirectoryView>) -> Seq<I30View> {
    if bytes.len() < 32 || le32(bytes, 0) != NTFS_ATTR_FILE_NAME {
        seq![]
    } else {
        node_at(bytes, 16, dir, false)
    }
}

pub fn parse_index_root_entries(bytes: &[u8], directory_path: Option<&DirectoryPath>) -> (r: Vec<
    I30Entry,
>)
    ensures
        i30_views(r@) == root_entries(bytes@, dir_view(directory_path)),
{
    let none: Vec<I30Entry> = Vec::new();
    assert(i30_views(none@) =~= seq![]);
    if bytes.len() < INDEX_ROOT_HEADER_LEN + INDEX_NODE_HEADER_LEN {
        return none;
    }
    if read_le32(bytes, 0) != NTFS_ATTR_FILE_NAME {
        return none;
    }
    parse_index_node(bytes, INDEX_ROOT_HEADER_LEN, directory_path, false)
}

// ---------------------------------------------------------------------------
// Slack.

/// The next multiple of eight.
pub open spec fn aligned(value: int) -> int {
    (value + 7) / 8 * 8
}

pub fn align_to_8(value: usize) -> (r: usize)
    requires
        value <= usize::MAX - 7,
    ensures
        r == aligned(value as int),
{
    (value + 7) / 8 * 8
}

/// The entries that slack still holds, from a place on: every place divisible by eight is
/// tried.
pub open spec fn slack_entries(
    bytes: Seq<u8>,
    at: int,
    end: int,
    dir: Option<DirectoryView>,
    seen: Set<(u64, Seq<char>)>,
) -> Seq<I30View>
    decreases
            if at + 16 > end {
                0
            } else {
                end - at
            },
{
    if at + 16 > end {
        seq![]
    } else {
        match entry_at(bytes, at, dir, true) {
            Some((entry, flags, length)) => if !seen.contains(entry_key(entry)) {
                seq![entry] + slack_entries(
                    bytes,
                    at + if length < 8 {
                        8
                    } else {
                        length
                    },
                    end,
                    dir,
                    seen.insert(entry_key(entry)),
                )
            } else {
                slack_entries(bytes, at + 8, end, dir, seen)
            },
            None => slack_entries(bytes, at + 8, end, dir, seen),
        }
    }
}

/// Where the slack of an index buffer begins: behind the entries in use.
pub open spec fn slack_start(bytes: Seq<u8>) -> int {
    let used = INDX_HEADER_LEN + le32(bytes, INDX_HEADER_LEN + 4);
    let capped = if used < bytes.len() {
        used
    } else {
        bytes.len() as int
    };
    if capped < 40 {
        40
    } else {
        capped
    }
}

/// The entries in the slack of an index buffer.
pub open spec fn slack_of(bytes: Seq<u8>, dir: Option<DirectoryView>, size: int) -> Seq<I30View> {
    if bytes.len() < 40 {
        seq![]
    } else {
        slack_entries(
            bytes,
            aligned(slack_start(bytes)),
            if size < bytes.len() {
                size
            } else {
                bytes.len() as int
            },
            dir,
            Set::empty(),
        )
    }
}

pub fn scan_i30_slack(
    bytes: &[u8],
    directory_path: Option<&DirectoryPath>,
    index_buffer_size: usize,
) -> (r: Vec<I30Entry>)
    ensures
        i30_views(r@) == slack_of(bytes@, dir_view(directory_path), index_buffer_size as int),
{
    let ghost dir = dir_view(directory_path);
    let mut entries: Vec<I30Entry> = Vec::new();
    assert(i30_views(entries@) =~= seq![]);
    let n: usize = bytes.len();
    if n < 40 {
        return entries;
    }
    let used: u64 = 24 + read_le32(bytes, 28) as u64;
    let mut start: usize = if used < n as u64 {
        used as usize
    } else {
        n
    };
    if start < 40 {
        start = 40;
    }
    let end: usize = if index_buffer_size < n {
        index_buffer_size
    } else {
        n
    };
    let ghost all = slack_of(bytes@, dir, index_buffer_size as int);
    if end < 16 || start > end - 16 {
        return entries;
    }
    let mut cursor: usize = align_to_8(start);
    let mut seen = SeenKeys::new();
    assert(i30_views(entries@) + all =~= all);
    while cursor <= end - 16
        invariant
            dir == dir_view(directory_path),
            16 <= end <= bytes@.len(),
            all == i30_views(entries@) + slack_entries(
                bytes@,
                cursor as int,
                end as int,
                dir,
                key_set(seen.keys@),
            ),
        decreases
                if cursor <= end {
                    end - cursor
                } else {
                    0
                },
    {
        let ghost had = i30_views(entries@);
        let mut step: usize = 8;
        if let Some((entry, _flags, length)) = parse_index_entry_at(
            bytes,
            cursor,
            directory_path,
            true,
        ) {
            let ghost view = entry@;
            let ghost before = key_set(seen.keys@);
            let fresh: bool = seen.insert(&entry);
            if fresh {
                entries.push(entry);
                assert(i30_views(entries@) =~= had + seq![view]);
                if length > 8 {
                    step = length;
                }
                proof {
                    let rest = slack_entries(
                        bytes@,
                        cursor + step,
                        end as int,
                        dir,
                        key_set(seen.keys@),
                    );
                    assert(had + (seq![view] + rest) =~= (had + seq![view]) + rest);
                }
            } else {
                assert(key_set(seen.keys@) =~= before);
            }
        }
        cursor = cursor.saturating_add(step);
    }
    assert(i30_views(entries@) + seq![] =~= i30_views(entries@));
    entries
}

// ---------------------------------------------------------------------------
// Fixups.

/// The rest of a fixup from a sector on: the last two bytes of each sector have to be those of
/// the update sequence and give way to the saved ones.
pub open spec fn fixup_from(
    buffer: Seq<u8>,
    usa: int,
    check: (u8, u8),
    index: int,
    words: int,
) -> (Seq<u8>, bool)
    decreases words - index,
{
    let at = index * 512 - 2;
    if index >= words {
        (buffer, true)
    } else if buffer[at] != check.0 || buffer[at + 1] != check.1 {
        (buffer, false)
    } else {
        let first = buffer.update(at, buffer[usa + 2 * index]);
        let both = first.update(at + 1, first[usa + 2 * index + 1]);
        fixup_from(both, usa, check, index + 1, words)
    }
}

/// Why an index buffer cannot be fixed, before any sector is looked at.
pub open spec fn fixup_refusal(buffer: Seq<u8>) -> Option<Seq<char>> {
    let usa = le16(buffer, 4);
    let words = le16(buffer, 6);
    if buffer.len() < INDX_HEADER_LEN || !occurs_at(buffer, seq![0x49u8, 0x4e, 0x44, 0x58], 0) {
        Some("invalid INDX signature"@)
    } else if words < 2 {
        Some("invalid INDX update sequence length"@)
    } else if usa + 2 * words > buffer.len() {
        Some("INDX USA outside buffer"@)
    } else if words - 1 > buffer.len() / 512 {
        Some("INDX USA sector count mismatch"@)
    } else {
        None
    }
}

/// An index buffer after its fixup, and whether all its sectors were whole.
pub open spec fn fixed_up(buffer: Seq<u8>) -> (Seq<u8>, bool) {
    let usa = le16(buffer, 4);
    fixup_from(buffer, usa, (buffer[usa], buffer[usa + 1]), 1, le16(buffer, 6))
}

fn refuse(reason: &str) -> (r: Result<(), RssError>)
    ensures
        r matches Err(RssError::Message(m)) && m@ == reason@,
{
    Err(RssError::Message(owned(reason)))
}

/// Puts back the bytes that the update sequence of an index buffer has saved.
pub fn apply_indx_fixup(buffer: &mut Vec<u8>) -> (r: Result<(), RssError>)
    ensures
        match fixup_refusal(old(buffer)@) {
            Some(reason) => r matches Err(RssError::Message(m)) && m@ == reason && final(buffer)@
                == old(buffer)@,
            None => {
                &&& final(buffer)@ == fixed_up(old(buffer)@).0
                &&& if fixed_up(old(buffer)@).1 {
                    r is Ok
                } else {
                    r matches Err(RssError::Message(m)) && m@ == "INDX fixup mismatch"@
                }
            },
        },
{
    let n: usize = buffer.len();
    if n < INDX_HEADER_LEN || !matches_at(buffer.as_slice(), &[0x49, 0x4e, 0x44, 0x58], 0) {
        return refuse("invalid INDX signature");
    }
    let usa: usize = read_le16(buffer.as_slice(), 4) as usize;
    let words: usize = read_le16(buffer.as_slice(), 6) as usize;
    if words < 2 {
        return refuse("invalid INDX update sequence length");
    }
    if usa + words * 2 > n {
        return refuse("INDX USA outside buffer");
    }
    if words - 1 > n / SECTOR_SIZE {
        return refuse("INDX USA sector count mismatch");
    }
    let first: u8 = buffer[usa];
    let second: u8 = buffer[usa + 1];
    let ghost whole = fixed_up(buffer@);
    let mut index: usize = 1;
    while index < words
        invariant
            1 <= index <= words,
            buffer@.len() == n,
            usa + words * 2 <= n,
            words - 1 <= n / 512,
            whole == fixup_from(
                buffer@,
                usa as int,
                (first, second),
                index as int,
                words as int,
            ),
            whole == fixed_up(old(buffer)@),
            fixup_refusal(old(buffer)@) is None,
        decreases words - index,
    {
        let at: usize = index * SECTOR_SIZE - 2;
        assert(at + 2 <= n);
        if buffer[at] != first || buffer[at + 1] != second {
            return refuse("INDX fixup mismatch");
        }
        let saved: u8 = buffer[usa + index * 2];
        buffer.set(at, saved);
        let saved: u8 = buffer[usa + index * 2 + 1];
        buffer.set(at + 1, saved);
        index += 1;
    }
    Ok(())
}

// ---------------------------------------------------------------------------
// Index buffers on the volume.

/// How much of a run of index buffers is read next: whole buffers only.
pub open spec fn index_read(length: u64, consumed: u64, size: int) -> int {
    let left = length - consumed;
    let window = if left < RAW_READ_WINDOW {
        left
    } else {
        RAW_READ_WINDOW as int
    };
    if left < size {
        0
    } else {
        window - window % size
    }
}

/// How much of a run of index buffers is read next; nothing where no whole buffer is left.
pub fn next_index_read(length: u64, consumed: u64, index_buffer_size: u32) -> (r: usize)
    requires
        consumed <= length,
        index_buffer_size > 0,
    ensures
        r == index_read(length, consumed, index_buffer_size as int),
{
    let left: u64 = length - consumed;
    if left < index_buffer_size as u64 {
        return 0;
    }
    let window: u64 = if left < RAW_READ_WINDOW {
        left
    } else {
        RAW_READ_WINDOW
    };
    let size: u64 = index_buffer_size as u64;
    assert(window % size <= window) by (nonlinear_arith)
        requires
            size > 0,
    ;
    (window - window % size) as usize
}

/// The entries of one index buffer: those in use, then those in its slack. A buffer that cannot
/// be fixed has none.
pub open spec fn buffer_entries(buffer: Seq<u8>, dir: Option<DirectoryView>) -> Seq<I30View> {
    if fixup_refusal(buffer) is Some || !fixed_up(buffer).1 {
        seq![]
    } else {
        let fixed = fixed_up(buffer).0;
        node_at(fixed, 24, dir, false) + slack_of(fixed, dir, buffer.len() as int)
    }
}

/// The entries of the whole index buffers in some bytes.
pub open spec fn window_entries(bytes: Seq<u8>, size: int, dir: Option<DirectoryView>) -> Seq<
    I30View,
>
    decreases bytes.len(),
{
    if size <= 0 || bytes.len() < size {
        seq![]
    } else {
        buffer_entries(bytes.subrange(0, size), dir) + window_entries(
            bytes.subrange(size, bytes.len() as int),
            size,
            dir,
        )
    }
}

fn parse_index_buffer(buffer: Vec<u8>, directory_path: Option<&DirectoryPath>) -> (r: Vec<I30Entry>)
    ensures
        i30_views(r@) == buffer_entries(buffer@, dir_view(directory_path)),
{
    let ghost given = buffer@;
    let n: usize = buffer.len();
    let mut fixed = buffer;
    let none: Vec<I30Entry> = Vec::new();
    assert(i30_views(none@) =~= seq![]);
    match apply_indx_fixup(&mut fixed) {
        Err(_) => {
            return none;
        },
        Ok(_) => {},
    }
    proof {
        lemma_fixup_keeps_length(
            given,
            le16(given, 4),
            (given[le16(given, 4)], given[le16(given, 4) + 1]),
            1,
            le16(given, 6),
        );
    }
    let mut entries = parse_index_node(fixed.as_slice(), INDX_HEADER_LEN, directory_path, false);
    let mut slack = scan_i30_slack(fixed.as_slice(), directory_path, n);
    let ghost used = entries@;
    let ghost rest = slack@;
    entries.append(&mut slack);
    assert(i30_views(entries@) =~= i30_views(used) + i30_views(rest));
    entries
}

/// The entries of the index buffers that a read gave.
#[verifier::spinoff_prover]
#[verifier::rlimit(40)]
pub fn parse_index_window(
    bytes: &[u8],
    index_buffer_size: usize,
    directory_path: Option<&DirectoryPath>,
) -> (r: Vec<I30Entry>)
    requires
        index_buffer_size > 0,
    ensures
        i30_views(r@) == window_entries(
            bytes@,
            index_buffer_size as int,
            dir_view(directory_path),
        ),
{
    let ghost dir = dir_view(directory_path);
    let n: usize = bytes.len();
    let mut entries: Vec<I30Entry> = Vec::new();
    let mut at: usize = 0;
    let ghost all = window_entries(bytes@, index_buffer_size as int, dir);
    proof {
        assert(i30_views(entries@) + all =~= all);
        assert(bytes@.subrange(0, n as int) =~= bytes@);
    }
    while n - at >= index_buffer_size
        invariant
            index_buffer_size > 0,
            dir == dir_view(directory_path),
            n == bytes@.len(),
            at <= n,
            all == i30_views(entries@) + window_entries(
                bytes@.subrange(at as int, n as int),
                index_buffer_size as int,
                dir,
            ),
        decreases n - at,
    {
        let ghost had = i30_views(entries@);
        let ghost rest = bytes@.subrange(at as int, n as int);
        let mut found = parse_index_buffer(
            slice_to_vec(bytes, at, at + index_buffer_size),
            directory_path,
        );
        let ghost new = found@;
        let ghost before = entries@;
        entries.append(&mut found);
        proof {
            assert(i30_views(entries@) =~= i30_views(before) + i30_views(new));
            assert(rest.subrange(0, index_buffer_size as int) =~= bytes@.subrange(
                at as int,
                at + index_buffer_size,
            ));
            assert(rest.subrange(index_buffer_size as int, rest.len() as int) =~= bytes@.subrange(
                at + index_buffer_size,
                n as int,
            ));
            let more = window_entries(
                bytes@.subrange(at + index_buffer_size, n as int),
                index_buffer_size as int,
                dir,
            );
            assert(had + (i30_views(new) + more) =~= (had + i30_views(new)) + more);
        }
        at += index_buffer_size;
    }
    assert(i30_views(entries@) + seq![] =~= i30_views(entries@));
    entries
}

// ---------------------------------------------------------------------------
// Laws.

/// A fixup changes no length.
pub proof fn lemma_fixup_keeps_length(
    buffer: Seq<u8>,
    usa: int,
    check: (u8, u8),
    index: int,
    words: int,
)
    requires
        1 <= index,
        (words - 1) * 512 <= buffer.len(),
    ensures
        fixup_from(buffer, usa, check, index, words).0.len() == buffer.len(),
    decreases words - index,
{
    let at = index * 512 - 2;
    if index < words && buffer[at] == check.0 && buffer[at + 1] == check.1 {
        let first = buffer.update(at, buffer[usa + 2 * index]);
        let both = first.update(at + 1, first[usa + 2 * index + 1]);
        lemma_fixup_keeps_length(both, usa, check, index + 1, words);
    }
}

/// A fixup that succeeds puts the saved bytes at the end of each sector and changes nothing
/// else, where the saved bytes stand in front of the end of the first sector.
pub proof fn lemma_fixup_restores_sector_ends(
    buffer: Seq<u8>,
    usa: int,
    check: (u8, u8),
    index: int,
    words: int,
)
    requires
        1 <= index <= words,
        0 <= usa,
        usa + 2 * words <= 510,
        (words - 1) * 512 <= buffer.len(),
        fixup_from(buffer, usa, check, index, words).1,
    ensures
        ({
            let fixed = fixup_from(buffer, usa, check, index, words).0;
            &&& fixed.len() == buffer.len()
            &&& forall|k: int|
                index <= k < words ==> #[trigger] fixed[k * 512 - 2] == buffer[usa + 2 * k]
                    && fixed[k * 512 - 1] == buffer[usa + 2 * k + 1] && buffer[k * 512 - 2]
                    == check.0 && buffer[k * 512 - 1] == check.1
            &&& forall|j: int|
                0 <= j < buffer.len() && !(index <= (j + 2) / 512 < words && (j + 2) % 512 <= 1)
                    ==> #[trigger] fixed[j] == buffer[j]
        }),
    decreases words - index,
{
    let at = index * 512 - 2;
    if index < words {
        let first = buffer.update(at, buffer[usa + 2 * index]);
        let both = first.update(at + 1, first[usa + 2 * index + 1]);
        lemma_fixup_restores_sector_ends(both, usa, check, index + 1, words);
        let fixed = fixup_from(buffer, usa, check, index, words).0;
        assert(fixed == fixup_from(both, usa, check, index + 1, words).0);
        assert forall|k: int| index <= k < words implies #[trigger] fixed[k * 512 - 2] == buffer[usa
            + 2 * k] && fixed[k * 512 - 1] == buffer[usa + 2 * k + 1] && buffer[k * 512 - 2]
            == check.0 && buffer[k * 512 - 1] == check.1 by {
            if k == index {
                assert(fixed[at] == both[at]);
                assert(fixed[at + 1] == both[at + 1]);
            } else {
                assert(fixed[k * 512 - 2] == both[usa + 2 * k]);
                assert(both[k * 512 - 2] == check.0);
            }
        }
    }
}

/// A text as it is stored: its UTF-16 units, each with its low byte first.
pub open spec fn stored_text(text: Seq<char>) -> Seq<u8> {
    let units = written_utf16(text);
    Seq::new(
        2 * units.len(),
        |i: int|
            if i % 2 == 0 {
                (units[i / 2] % 256) as u8
            } else {
                (units[i / 2] / 256) as u8
            },
    )
}

/// A stored text is read back.
pub proof fn lemma_stored_text_reads_back(text: Seq<char>)
    ensures
        utf16_name(stored_text(text)) == Some(text),
{
    let units = written_utf16(text);
    let bytes = stored_text(text);
    assert(units_of(bytes) =~= units) by {
        assert forall|i: int| 0 <= i < units.len() implies #[trigger] units_of(bytes)[i]
            == units[i] by {
            assert(bytes[2 * i] == units[i] % 256 && bytes[2 * i + 1] == units[i] / 256);
        }
    }
    lemma_utf16_reads_back(text);
}

/// A file name as a directory index stores it, with times as ticks since 1601.
pub struct NameFields {
    pub parent_reference: u64,
    pub created: u64,
    pub modified: u64,
    pub metadata_changed: u64,
    pub accessed: u64,
    pub allocated_size: u64,
    pub size: u64,
    pub flags: u32,
    pub reparse: u32,
    pub namespace: u8,
    pub name: Seq<char>,
}

/// The parts of a stored file name, in their order.
pub open spec fn name_parts(f: NameFields) -> Seq<Seq<u8>> {
    seq![
        le_bytes(f.parent_reference as int, 8),
        le_bytes(f.created as int, 8),
        le_bytes(f.modified as int, 8),
        le_bytes(f.metadata_changed as int, 8),
        le_bytes(f.accessed as int, 8),
        le_bytes(f.allocated_size as int, 8),
        le_bytes(f.size as int, 8),
        le_bytes(f.flags as int, 4),
        le_bytes(f.reparse as int, 4),
        seq![(stored_text(f.name).len() / 2) as u8],
        seq![f.namespace],
        stored_text(f.name),
    ]
}

/// A file name whose stored form is readable: a name that a file can have, of 255 units at most,
/// in one of the four namespaces.
pub open spec fn readable_fields(f: NameFields) -> bool {
    plausible_name(f.name) && stored_text(f.name).len() <= 510 && f.namespace <= 3
}

proof fn lemma_name_places(f: NameFields)
    ensures
        ({
            let s = joined(name_parts(f));
            &&& laid_at(s, 0, le_bytes(f.parent_reference as int, 8))
            &&& laid_at(s, 8, le_bytes(f.created as int, 8))
            &&& laid_at(s, 16, le_bytes(f.modified as int, 8))
            &&& laid_at(s, 24, le_bytes(f.metadata_changed as int, 8))
            &&& laid_at(s, 48, le_bytes(f.size as int, 8))
            &&& laid_at(s, 0x40, seq![(stored_text(f.name).len() / 2) as u8])
            &&& laid_at(s, 0x41, seq![f.namespace])
            &&& laid_at(s, 0x42, stored_text(f.name))
            &&& s.len() == 0x42 + stored_text(f.name).len()
        }),
{
    let parts = name_parts(f);
    reveal_with_fuel(le_bytes, 9);
    reveal_with_fuel(place_of, 13);
    lemma_parts_lie_in_place(parts, 0);
    lemma_parts_lie_in_place(parts, 1);
    lemma_parts_lie_in_place(parts, 2);
    lemma_parts_lie_in_place(parts, 3);
    lemma_parts_lie_in_place(parts, 6);
    lemma_parts_lie_in_place(parts, 9);
    lemma_parts_lie_in_place(parts, 10);
    lemma_parts_lie_in_place(parts, 11);
}

/// A stored file name is read back: its directory, its name, its real size and its three times,
/// whatever its other fields hold.
pub proof fn lemma_file_name_reads_back(
    file_reference: u64,
    f: NameFields,
    dir: Option<DirectoryView>,
    from_slack: bool,
)
    requires
        readable_fields(f),
    ensures
        stored_name(file_reference, joined(name_parts(f)), dir, from_slack) matches Some(e) && {
            &&& e.file_reference == file_reference
            &&& e.parent_reference == f.parent_reference
            &&& e.name == f.name
            &&& e.size == f.size
            &&& e.created_at == filetime_text(f.created)
            &&& e.modified_at == filetime_text(f.modified)
            &&& e.last_metadata_change_at == filetime_text(f.metadata_changed)
            &&& e.from_slack == from_slack
            &&& dir is None ==> e.path is None && e.path_confidence == PathConfidence::Unknown
            &&& dir matches Some(d) ==> e.path == Some(ntfs_joined(d.path, f.name))
                && e.path_confidence == d.confidence
        },
{
    let s = joined(name_parts(f));
    let n = stored_text(f.name).len() as int;
    lemma_name_places(f);
    lemma_le64_reads_back(s, 0, f.parent_reference as int);
    lemma_le64_reads_back(s, 8, f.created as int);
    lemma_le64_reads_back(s, 16, f.modified as int);
    lemma_le64_reads_back(s, 24, f.metadata_changed as int);
    lemma_le64_reads_back(s, 48, f.size as int);
    lemma_stored_text_reads_back(f.name);
    assert(s[0x40] == seq![(n / 2) as u8][0]);
    assert(s[0x41] == seq![f.namespace][0]);
    assert(n > 0) by {
        assert(written_utf16(f.name).len() > 0);
    }
    assert(s.subrange(0x42, 0x42 + n) =~= stored_text(f.name));
}

/// An entry of a directory index: the file, its name, flags, and bytes behind the name.
pub open spec fn entry_parts(file_reference: u64, f: NameFields, flags: u16, rest: Seq<u8>) -> Seq<
    Seq<u8>,
> {
    let stream = joined(name_parts(f));
    seq![
        le_bytes(file_reference as int, 8),
        le_bytes(16 + stream.len() as int + rest.len() as int, 2),
        le_bytes(stream.len() as int, 2),
        le_bytes(flags as int, 2),
        seq![0u8, 0u8],
        stream,
        rest,
    ]
}

/// An entry of a directory index is read back from wherever it lies, and with its length.
pub proof fn lemma_index_entry_reads_back(
    bytes: Seq<u8>,
    at: int,
    file_reference: u64,
    f: NameFields,
    flags: u16,
    rest: Seq<u8>,
    dir: Option<DirectoryView>,
)
    requires
        readable_fields(f),
        flags & 2 == 0,
        rest.len() < 8,
        (16 + joined(name_parts(f)).len() + rest.len()) % 8 == 0,
        laid_at(bytes, at, joined(entry_parts(file_reference, f, flags, rest))),
    ensures
        entry_at(bytes, at, dir, false) matches Some((e, seen, length)) && {
            &&& e.file_reference == file_reference
            &&& e.parent_reference == f.parent_reference
            &&& e.name == f.name
            &&& e.size == f.size
            &&& e.created_at == filetime_text(f.created)
            &&& e.modified_at == filetime_text(f.modified)
            &&& e.last_metadata_change_at == filetime_text(f.metadata_changed)
            &&& !e.from_slack
            &&& seen == flags
            &&& length == 16 + joined(name_parts(f)).len() + rest.len()
        },
{
    let parts = entry_parts(file_reference, f, flags, rest);
    let whole = joined(parts);
    let stream = joined(name_parts(f));
    let total = 16 + stream.len() as int + rest.len() as int;
    lemma_name_places(f);
    lemma_entry_places(bytes, at, parts, stream, rest, file_reference, total, flags);
    lemma_le64_reads_back(bytes, at, file_reference as int);
    lemma_le16_reads_back(bytes, at + 8, total);
    lemma_le16_reads_back(bytes, at + 10, stream.len() as int);
    lemma_le16_reads_back(bytes, at + 12, flags as int);
    assert(bytes.subrange(at + 16, at + 16 + stream.len()) =~= stream);
    lemma_file_name_reads_back(file_reference, f, dir, false);
}

proof fn lemma_entry_places(
    bytes: Seq<u8>,
    at: int,
    parts: Seq<Seq<u8>>,
    stream: Seq<u8>,
    rest: Seq<u8>,
    file_reference: u64,
    total: int,
    flags: u16,
)
    requires
        laid_at(bytes, at, joined(parts)),
        total == 16 + stream.len() + rest.len(),
        parts == seq![
            le_bytes(file_reference as int, 8),
            le_bytes(total, 2),
            le_bytes(stream.len() as int, 2),
            le_bytes(flags as int, 2),
            seq![0u8, 0u8],
            stream,
            rest,
        ],
    ensures
        laid_at(bytes, at, le_bytes(file_reference as int, 8)),
        laid_at(bytes, at + 8, le_bytes(total, 2)),
        laid_at(bytes, at + 10, le_bytes(stream.len() as int, 2)),
        laid_at(bytes, at + 12, le_bytes(flags as int, 2)),
        laid_at(bytes, at + 16, stream),
        at + total <= bytes.len(),
{
    let whole = joined(parts);
    reveal_with_fuel(le_bytes, 9);
    reveal_with_fuel(place_of, 8);
    lemma_parts_lie_in_place(parts, 0);
    lemma_parts_lie_in_place(parts, 1);
    lemma_parts_lie_in_place(parts, 2);
    lemma_parts_lie_in_place(parts, 3);
    lemma_parts_lie_in_place(parts, 5);
    lemma_laid_within(bytes, at, whole, 0, parts[0]);
    lemma_laid_within(bytes, at, whole, 8, parts[1]);
    lemma_laid_within(bytes, at, whole, 10, parts[2]);
    lemma_laid_within(bytes, at, whole, 12, parts[3]);
    lemma_laid_within(bytes, at, whole, 16, parts[5]);
}

/// The first entry of an index node is listed first: it lies behind the node's header as far as
/// the first field of the header says, and in front of the end that the second one gives.
pub proof fn lemma_first_entry_is_listed(
    bytes: Seq<u8>,
    header: int,
    first: u32,
    used: u32,
    file_reference: u64,
    f: NameFields,
    flags: u16,
    rest: Seq<u8>,
    dir: Option<DirectoryView>,
)
    requires
        laid_at(bytes, header, le_bytes(first as int, 4)),
        laid_at(bytes, header + 4, le_bytes(used as int, 4)),
        header + 16 <= bytes.len(),
        readable_fields(f),
        flags & 2 == 0,
        rest.len() < 8,
        (16 + joined(name_parts(f)).len() + rest.len()) % 8 == 0,
        first + 16 + joined(name_parts(f)).len() + rest.len() <= used,
        laid_at(bytes, header + first, joined(entry_parts(file_reference, f, flags, rest))),
    ensures
        ({
            let listed = node_at(bytes, header, dir, false);
            &&& listed.len() > 0
            &&& listed[0].file_reference == file_reference
            &&& listed[0].parent_reference == f.parent_reference
            &&& listed[0].name == f.name
            &&& listed[0].size == f.size
            &&& !listed[0].from_slack
        }),
{
    lemma_le32_reads_back(bytes, header, first as int);
    lemma_le32_reads_back(bytes, header + 4, used as int);
    lemma_index_entry_reads_back(bytes, header + first, file_reference, f, flags, rest, dir);
    let parts = entry_parts(file_reference, f, flags, rest);
    let total = 16 + joined(name_parts(f)).len() as int + rest.len() as int;
    lemma_entry_places(
        bytes,
        header + first,
        parts,
        joined(name_parts(f)),
        rest,
        file_reference,
        total,
        flags,
    );
}

/// Only what can be no coincidence is taken from slack: a record number of a plain file, a
/// directory with a record, one of the two known flags at most, and a time.
pub proof fn lemma_slack_entries_are_strong(bytes: Seq<u8>, at: int, dir: Option<DirectoryView>)
    requires
        entry_at(bytes, at, dir, true) is Some,
        (entry_at(bytes, at, dir, true)->0).1 & 2 == 0,
    ensures
        ({
            let (e, flags, length) = entry_at(bytes, at, dir, true)->0;
            &&& e.from_slack
            &&& flags <= 1
            &&& e.file_reference % 0x1_0000_0000_0000 >= 24
            &&& e.parent_reference % 0x1_0000_0000_0000 != 0
            &&& e.created_at is Some || e.modified_at is Some || e.last_metadata_change_at is Some
            &&& length >= 16 + 0x42 && length % 8 == 0 && at + length <= bytes.len()
        }),
{
    let (e, flags, length) = entry_at(bytes, at, dir, true)->0;
    assert(flags & 2 == 0 && flags & !3u16 == 0 ==> flags <= 1) by (bit_vector);
    crate::ntfs_paths::lemma_record_number_is_low_part(e.file_reference);
    crate::ntfs_paths::lemma_record_number_is_low_part(e.parent_reference);
}

} // verus!
