//! What is inside an archive: its members, from the bytes of the archive.

use crate::bytes::{le16, le32, matches_at, occurs_at, read_le16, read_le32};
use crate::codec::decode_utf8;
use crate::kinds::{decode_utf8_lossy, kind_label, kind_name, utf8_lossy, zip_mark};
use crate::model::{ArchivePreviewEntry, ArchivePreviewEntryStatus, ArtifactKind, RssError};
use crate::numbers::{decimal, push_decimal};
use crate::text::{chars_of, concat2, opt_view, owned, views};
use std::io::Cursor;
use vstd::prelude::*;
use vstd::string::*;
use vstd::utf8::{encode_utf8, valid_utf8};
use zip::ZipArchive;

verus! {

/// What an archive entry says.
pub ghost struct MemberView {
    pub path: Seq<char>,
    pub kind: Option<Seq<char>>,
    pub size: Option<u64>,
    pub compressed_size: Option<u64>,
    pub status: ArchivePreviewEntryStatus,
    pub note: Option<Seq<char>>,
}

impl View for ArchivePreviewEntry {
    type V = MemberView;

    open spec fn view(&self) -> MemberView {
        MemberView {
            path: self.path@,
            kind: opt_view(self.kind),
            size: self.size,
            compressed_size: self.compressed_size,
            status: self.status,
            note: opt_view(self.note),
        }
    }
}

pub open spec fn member_views(entries: Seq<ArchivePreviewEntry>) -> Seq<MemberView> {
    entries.map_values(|e: ArchivePreviewEntry| e@)
}

/// The members of an archive, as far as they are listed.
#[derive(Debug)]
pub struct PreviewArchiveListing {
    pub entries: Vec<ArchivePreviewEntry>,
    pub total_entries: Option<usize>,
    pub truncated: bool,
}

/// What a listing says.
#[verifier::ext_equal]
pub ghost struct ListingView {
    pub entries: Seq<MemberView>,
    pub total_entries: Option<usize>,
    pub truncated: bool,
}

impl View for PreviewArchiveListing {
    type V = ListingView;

    open spec fn view(&self) -> ListingView {
        ListingView {
            entries: member_views(self.entries@),
            total_entries: self.total_entries,
            truncated: self.truncated,
        }
    }
}

/// A refused listing, or one that was made.
pub open spec fn listing_result(r: Result<PreviewArchiveListing, RssError>) -> Result<
    ListingView,
    Seq<char>,
> {
    match r {
        Ok(listing) => Ok(listing@),
        Err(RssError::Message(m)) => Err(m@),
    }
}

/// The first `max` of all members.
pub open spec fn first_members(members: Seq<MemberView>, max: int) -> ListingView {
    ListingView {
        entries: if members.len() <= max {
            members
        } else {
            members.subrange(0, max)
        },
        total_entries: Some(members.len() as usize),
        truncated: members.len() > max,
    }
}

// ---------------------------------------------------------------------------
// ZIP.

/// A reader over bytes in memory.
#[verifier::external_type_specification]
#[verifier::external_body]
#[verifier::reject_recursive_types(T)]
pub struct ExCursor<T>(std::io::Cursor<T>);

/// An opened ZIP archive.
#[verifier::external_type_specification]
#[verifier::external_body]
#[verifier::reject_recursive_types(R)]
pub struct ExZipArchive<R>(zip::ZipArchive<R>);

/// The members of an opened ZIP archive: the name, whether it is a folder, the size and the
/// compressed size; none for a member that cannot be opened.
pub uninterp spec fn zip_members(archive: ZipArchive<Cursor<Vec<u8>>>) -> Seq<
    Option<(Seq<char>, bool, u64, u64)>,
>;

/// The members of the ZIP archive that bytes hold; none where they hold no such archive.
pub uninterp spec fn zip_directory(bytes: Seq<u8>) -> Option<
    Seq<Option<(Seq<char>, bool, u64, u64)>>,
>;

/// `zip::ZipArchive::new`: opens the archive that the bytes hold, by its central directory.
#[verifier::external_body]
fn open_zip(bytes: &[u8]) -> (r: Option<ZipArchive<Cursor<Vec<u8>>>>)
    ensures
        match r {
            Some(archive) => zip_directory(bytes@) == Some(zip_members(archive)),
            None => zip_directory(bytes@) is None,
        },
{
    ZipArchive::new(Cursor::new(bytes.to_vec())).ok()
}

/// `zip::ZipArchive::len`: how many members the archive has.
#[verifier::external_body]
fn zip_len(archive: &ZipArchive<Cursor<Vec<u8>>>) -> (r: usize)
    ensures
        r == zip_members(*archive).len(),
{
    archive.len()
}

pub open spec fn zip_member_view(member: Option<(String, bool, u64, u64)>) -> Option<
    (Seq<char>, bool, u64, u64),
> {
    match member {
        Some(m) => Some((m.0@, m.1, m.2, m.3)),
        None => None,
    }
}

/// `zip::ZipArchive::by_index`: opens one member, and reads its name, whether it is a folder,
/// its size and its compressed size. The archive keeps its members.
#[verifier::external_body]
fn zip_member(archive: &mut ZipArchive<Cursor<Vec<u8>>>, index: usize) -> (r: Option<
    (String, bool, u64, u64),
>)
    requires
        index < zip_members(*old(archive)).len(),
    ensures
        zip_members(*final(archive)) == zip_members(*old(archive)),
        zip_member_view(r) == zip_members(*old(archive))[index as int],
{
    let file = archive.by_index(index).ok()?;
    Some((file.name().to_owned(), file.is_dir(), file.size(), file.compressed_size()))
}

/// A plain member of an archive.
pub open spec fn plain_member(
    path: Seq<char>,
    kind: Seq<char>,
    size: Option<u64>,
    compressed_size: Option<u64>,
) -> MemberView {
    MemberView {
        path,
        kind: Some(kind),
        size,
        compressed_size,
        status: ArchivePreviewEntryStatus::Intact,
        note: None,
    }
}

fn plain_entry(path: String, kind: &str, size: Option<u64>, compressed_size: Option<u64>) -> (r:
    ArchivePreviewEntry)
    ensures
        r@ == plain_member(path@, kind@, size, compressed_size),
{
    ArchivePreviewEntry {
        path,
        kind: Some(owned(kind)),
        size,
        compressed_size,
        status: ArchivePreviewEntryStatus::Intact,
        note: None,
    }
}

pub open spec fn folder_or_file(is_dir: bool) -> Seq<char> {
    if is_dir {
        "directory"@
    } else {
        "file"@
    }
}

fn folder_or_file_of(is_dir: bool) -> (r: &'static str)
    ensures
        r@ == folder_or_file(is_dir),
{
    if is_dir {
        "directory"
    } else {
        "file"
    }
}

pub open spec fn zip_entry(member: (Seq<char>, bool, u64, u64)) -> MemberView {
    plain_member(member.0, folder_or_file(member.1), Some(member.2), Some(member.3))
}

pub open spec fn zip_shown(members: Seq<Option<(Seq<char>, bool, u64, u64)>>, max: int) -> int {
    if members.len() <= max {
        members.len() as int
    } else {
        max
    }
}

/// The listing of a ZIP archive: none where the directory, or a member that is to be listed,
/// cannot be read.
pub open spec fn zip_listing(
    directory: Option<Seq<Option<(Seq<char>, bool, u64, u64)>>>,
    max: int,
) -> Option<ListingView> {
    match directory {
        Some(members) => {
            let n = zip_shown(members, max);
            if exists|i: int| 0 <= i < n && (#[trigger] members[i]) is None {
                None
            } else {
                Some(
                    ListingView {
                        entries: Seq::new(n as nat, |i: int| zip_entry(members[i]->0)),
                        total_entries: Some(members.len() as usize),
                        truncated: members.len() > n,
                    },
                )
            }
        },
        None => None,
    }
}

pub open spec fn listing_opt(r: Option<PreviewArchiveListing>) -> Option<ListingView> {
    match r {
        Some(listing) => Some(listing@),
        None => None,
    }
}

/// The listing of a ZIP archive with `total` members, of which the first are given.
pub fn list_zip_members(total: usize, members: Vec<Option<(String, bool, u64, u64)>>) -> (r:
    Option<PreviewArchiveListing>)
    ensures
        match r {
            Some(listing) => {
                &&& forall|i: int| 0 <= i < members@.len() ==> (#[trigger] members@[i]) is Some
                &&& listing@.entries == Seq::new(
                    members@.len(),
                    |i: int| zip_entry(zip_member_view(members@[i])->0),
                )
                &&& listing.total_entries == Some(total)
                &&& listing.truncated == (total > members@.len())
            },
            None => exists|i: int| 0 <= i < members@.len() && (#[trigger] members@[i]) is None,
        },
{
    let mut entries: Vec<ArchivePreviewEntry> = Vec::new();
    let count: usize = members.len();
    let mut i: usize = 0;
    while i < count
        invariant
            i <= count,
            count == members@.len(),
            entries@.len() == i,
            forall|k: int| 0 <= k < i ==> (#[trigger] members@[k]) is Some,
            forall|k: int|
                0 <= k < i ==> (#[trigger] entries@[k])@ == zip_entry(
                    zip_member_view(members@[k])->0,
                ),
        decreases count - i,
    {
        match &members[i] {
            Some(m) => {
                entries.push(
                    plain_entry(m.0.clone(), folder_or_file_of(m.1), Some(m.2), Some(m.3)),
                );
            },
            None => {
                return None;
            },
        }
        i += 1;
    }
    let listing = PreviewArchiveListing {
        truncated: total > count,
        total_entries: Some(total),
        entries,
    };
    assert(listing@.entries =~= Seq::new(
        members@.len(),
        |i: int| zip_entry(zip_member_view(members@[i])->0),
    ));
    Some(listing)
}

/// The first `max_entries` members of a ZIP archive.
pub fn list_zip_entries(bytes: &[u8], max_entries: usize) -> (r: Option<PreviewArchiveListing>)
    ensures
        listing_opt(r) == zip_listing(zip_directory(bytes@), max_entries as int),
{
    let mut archive = match open_zip(bytes) {
        Some(archive) => archive,
        None => {
            return None;
        },
    };
    let ghost members = zip_members(archive);
    let total: usize = zip_len(&archive);
    let count: usize = if total <= max_entries {
        total
    } else {
        max_entries
    };
    let mut opened: Vec<Option<(String, bool, u64, u64)>> = Vec::new();
    let mut i: usize = 0;
    while i < count
        invariant
            i <= count,
            count <= total,
            total == members.len(),
            zip_members(archive) == members,
            opened@.len() == i,
            forall|k: int| 0 <= k < i ==> zip_member_view(#[trigger] opened@[k]) == members[k],
        decreases count - i,
    {
        opened.push(zip_member(&mut archive, i));
        i += 1;
    }
    let ghost given = opened@;
    let listing = list_zip_members(total, opened);
    proof {
        match &listing {
            Some(found) => {
                assert forall|i: int| 0 <= i < count implies (#[trigger] members[i]) is Some by {
                    assert(given[i] is Some);
                }
                assert(found@.entries =~= Seq::new(count as nat, |i: int| zip_entry(members[i]->0)));
            },
            None => {
                let i = choose|i: int| 0 <= i < given.len() && (#[trigger] given[i]) is None;
                assert(members[i] is None);
            },
        }
    }
    listing
}

/// The marks of a local header, and the name and the sizes behind it.
pub open spec fn header_end(s: Seq<u8>, at: int) -> int {
    at + 30 + le16(s, at + 26) + le16(s, at + 28)
}

pub open spec fn header_name(s: Seq<u8>, at: int) -> Seq<char> {
    utf8_lossy(s.subrange(at + 30, at + 30 + le16(s, at + 26)))
}

pub open spec fn unless_zero(n: int) -> Option<u64> {
    if n > 0 {
        Some(n as u64)
    } else {
        None
    }
}

/// The member that a local header names.
pub open spec fn salvaged_member(s: Seq<u8>, at: int) -> MemberView {
    MemberView {
        path: header_name(s, at),
        kind: Some("file"@),
        size: unless_zero(le32(s, at + 22)),
        compressed_size: unless_zero(le32(s, at + 18)),
        status: if s[at + 6] & 0x08u8 != 0 {
            ArchivePreviewEntryStatus::Partial
        } else {
            ArchivePreviewEntryStatus::Damaged
        },
        note: Some("Recovered from a local ZIP header without a trusted central directory."@),
    }
}

/// The members that local headers name from a place on, and where the search ends: when
/// enough are found, at the end, or at a header that reaches behind the end.
pub open spec fn salvaged(s: Seq<u8>, at: int, max: int, found: Seq<MemberView>) -> (
    Seq<MemberView>,
    int,
)
    decreases s.len() - at,
{
    if at < 0 || at + 30 > s.len() || found.len() >= max {
        (found, at)
    } else if !occurs_at(s, zip_mark(), at) {
        salvaged(s, at + 1, max, found)
    } else if header_end(s, at) > s.len() {
        (found, at)
    } else if header_name(s, at).len() == 0 {
        salvaged(s, header_end(s, at), max, found)
    } else {
        salvaged(s, header_end(s, at), max, found.push(salvaged_member(s, at)))
    }
}

/// What local headers alone say of a ZIP archive.
pub open spec fn salvaged_listing(s: Seq<u8>, max: int) -> Result<ListingView, Seq<char>> {
    let end = salvaged(s, 0, max, seq![]);
    if end.0.len() == 0 {
        Err("No salvageable ZIP local headers were found"@)
    } else {
        Ok(
            ListingView {
                entries: end.0,
                total_entries: None,
                truncated: end.0.len() >= max && end.1 + 30 <= s.len(),
            },
        )
    }
}

fn salvage_member(bytes: &[u8], at: usize, name: String) -> (r: ArchivePreviewEntry)
    requires
        at + 30 <= bytes@.len(),
        name@ == header_name(bytes@, at as int),
    ensures
        r@ == salvaged_member(bytes@, at as int),
{
    let n: usize = bytes.len();
    assert(at + 30 <= n);
    let compressed: u32 = read_le32(bytes, at + 18);
    let size: u32 = read_le32(bytes, at + 22);
    ArchivePreviewEntry {
        path: name,
        kind: Some(owned("file")),
        size: if size > 0 {
            Some(size as u64)
        } else {
            None
        },
        compressed_size: if compressed > 0 {
            Some(compressed as u64)
        } else {
            None
        },
        status: if bytes[at + 6] & 0x08 != 0 {
            ArchivePreviewEntryStatus::Partial
        } else {
            ArchivePreviewEntryStatus::Damaged
        },
        note: Some(
            owned("Recovered from a local ZIP header without a trusted central directory."),
        ),
    }
}

/// The members of a ZIP archive whose directory is lost.
pub fn salvage_zip_local_headers(bytes: &[u8], max_entries: usize) -> (r: Result<
    PreviewArchiveListing,
    RssError,
>)
    ensures
        listing_result(r) == salvaged_listing(bytes@, max_entries as int),
{
    let mut entries: Vec<ArchivePreviewEntry> = Vec::new();
    let mut cursor: usize = 0;
    let n: usize = bytes.len();
    let ghost all = salvaged(bytes@, 0, max_entries as int, seq![]);
    assert(member_views(entries@) =~= seq![]);
    while n >= 30 && cursor <= n - 30 && entries.len() < max_entries
        invariant_except_break
            all == salvaged(bytes@, cursor as int, max_entries as int, member_views(entries@)),
        invariant
            n == bytes@.len(),
            cursor <= n,
        ensures
            all == (member_views(entries@), cursor as int),
            cursor <= n,
        decreases n - cursor,
    {
        if !matches_at(bytes, &[0x50, 0x4b, 0x03, 0x04], cursor) {
            assert(seq![0x50u8, 0x4b, 0x03, 0x04] =~= zip_mark());
            cursor += 1;
            continue;
        }
        assert(seq![0x50u8, 0x4b, 0x03, 0x04] =~= zip_mark());
        let name_length: usize = read_le16(bytes, cursor + 26) as usize;
        let extra_length: usize = read_le16(bytes, cursor + 28) as usize;
        let left: usize = n - cursor - 30;
        if left < name_length || left - name_length < extra_length {
            break;
        }
        let name = decode_utf8_lossy(
            vstd::slice::slice_subrange(bytes, cursor + 30, cursor + 30 + name_length),
        );
        if !name.as_str().is_empty() {
            let ghost before = member_views(entries@);
            let entry = salvage_member(bytes, cursor, name);
            entries.push(entry);
            assert(member_views(entries@) =~= before.push(entry@));
        }
        cursor = cursor + 30 + name_length + extra_length;
    }
    if entries.len() == 0 {
        return Err(RssError::Message(owned("No salvageable ZIP local headers were found")));
    }
    let truncated = entries.len() >= max_entries && n >= 30 && cursor <= n - 30;
    Ok(PreviewArchiveListing { total_entries: None, truncated, entries })
}

// ---------------------------------------------------------------------------
// TAR.

/// The members of the TAR archive that bytes hold: the bytes of the path, whether it is a
/// folder, and the size; none for a header that cannot be read, which is the last. None where
/// reading cannot start.
pub uninterp spec fn tar_members(bytes: Seq<u8>) -> Option<Seq<Option<(Seq<u8>, bool, u64)>>>;

pub open spec fn tar_member_view(member: Option<(Vec<u8>, bool, u64)>) -> Option<
    (Seq<u8>, bool, u64),
> {
    match member {
        Some(m) => Some((m.0@, m.1, m.2)),
        None => None,
    }
}

pub open spec fn tar_views(members: Seq<Option<(Vec<u8>, bool, u64)>>) -> Seq<
    Option<(Seq<u8>, bool, u64)>,
> {
    members.map_values(|m: Option<(Vec<u8>, bool, u64)>| tar_member_view(m))
}

pub open spec fn tar_view_opt(members: Option<Vec<Option<(Vec<u8>, bool, u64)>>>) -> Option<
    Seq<Option<(Seq<u8>, bool, u64)>>,
> {
    match members {
        Some(list) => Some(tar_views(list@)),
        None => None,
    }
}

/// `tar::Archive::entries`: the members of the archive in order, each with the bytes of its
/// path, whether it is a folder, and its size.
#[verifier::external_body]
fn read_tar(bytes: &[u8]) -> (r: Option<Vec<Option<(Vec<u8>, bool, u64)>>>)
    ensures
        tar_view_opt(r) == tar_members(bytes@),
{
    let mut archive = tar::Archive::new(Cursor::new(bytes));
    let entries = archive.entries().ok()?;
    let members = entries.map(|entry| {
        let e = entry.ok()?;
        Some((e.path_bytes().into_owned(), e.header().entry_type().is_dir(), e.size()))
    });
    Some(members.collect())
}

/// The path of the member with the given number: its text, else a made-up name.
pub open spec fn tar_path(path: Seq<u8>, number: int) -> Seq<char> {
    if valid_utf8(path) && path.len() > 0 {
        vstd::utf8::decode_utf8(path)
    } else {
        "entry-"@ + decimal(number as nat)
    }
}

pub open spec fn tar_entry(member: (Seq<u8>, bool, u64), number: int) -> MemberView {
    plain_member(tar_path(member.0, number), folder_or_file(member.1), Some(member.2), None)
}

/// The listing of a TAR archive.
pub open spec fn tar_listing(members: Option<Seq<Option<(Seq<u8>, bool, u64)>>>, max: int) -> Result<
    ListingView,
    Seq<char>,
> {
    match members {
        Some(list) => if exists|i: int| 0 <= i < list.len() && (#[trigger] list[i]) is None {
            Err("Failed to inspect TAR entry"@)
        } else {
            Ok(
                first_members(
                    Seq::new(list.len(), |i: int| tar_entry(list[i]->0, i + 1)),
                    max,
                ),
            )
        },
        None => Err("TAR headers could not be parsed cleanly"@),
    }
}

fn tar_path_of(path: &Vec<u8>, number: usize) -> (r: String)
    ensures
        r@ == tar_path(path@, number as int),
{
    if path.len() > 0 {
        if let Some(text) = decode_utf8(path.as_slice()) {
            proof {
                vstd::utf8::encode_utf8_decode_utf8(text@);
            }
            return text;
        }
    }
    let mut name = owned("entry-");
    push_decimal(&mut name, number as u64);
    name
}

/// The listing of a TAR archive, from all its members.
pub fn list_tar_members(list: &Vec<Option<(Vec<u8>, bool, u64)>>, max_entries: usize) -> (r: Result<
    PreviewArchiveListing,
    RssError,
>)
    ensures
        listing_result(r) == tar_listing(Some(tar_views(list@)), max_entries as int),
{
    let ghost members = tar_views(list@);
    let ghost shown = Seq::new(members.len(), |i: int| tar_entry(members[i]->0, i + 1));
    let total: usize = list.len();
    let mut entries: Vec<ArchivePreviewEntry> = Vec::new();
    let mut i: usize = 0;
    while i < total
        invariant
            i <= total,
            total == list@.len(),
            members == tar_views(list@),
            shown == Seq::new(members.len(), |i: int| tar_entry(members[i]->0, i + 1)),
            entries@.len() == if i <= max_entries {
                i
            } else {
                max_entries
            },
            forall|k: int| 0 <= k < i ==> (#[trigger] members[k]) is Some,
            forall|k: int| 0 <= k < entries@.len() ==> (#[trigger] entries@[k])@ == shown[k],
        decreases total - i,
    {
        assert(members[i as int] == tar_member_view(list@[i as int]));
        match &list[i] {
            None => {
                assert(members[i as int] is None);
                return Err(RssError::Message(owned("Failed to inspect TAR entry")));
            },
            Some(m) => {
                if entries.len() < max_entries {
                    let path = tar_path_of(&m.0, i + 1);
                    let entry = plain_entry(path, folder_or_file_of(m.1), Some(m.2), None);
                    assert(entry@ == shown[i as int]);
                    entries.push(entry);
                }
            },
        }
        i += 1;
    }
    let truncated = total > entries.len();
    let listing = PreviewArchiveListing { truncated, total_entries: Some(total), entries };
    assert(listing@.entries =~= first_members(shown, max_entries as int).entries);
    Ok(listing)
}

/// The first `max_entries` members of a TAR archive; all are counted.
pub fn list_tar_entries(bytes: &[u8], max_entries: usize) -> (r: Result<
    PreviewArchiveListing,
    RssError,
>)
    ensures
        listing_result(r) == tar_listing(tar_members(bytes@), max_entries as int),
{
    match read_tar(bytes) {
        Some(list) => list_tar_members(&list, max_entries),
        None => Err(RssError::Message(owned("TAR headers could not be parsed cleanly"))),
    }
}

// ---------------------------------------------------------------------------
// Compound files.

/// The objects of the compound file that bytes hold, the root first: the path with slashes,
/// whether it is a storage, whether it is a stream, and the length. None where the bytes hold
/// no compound file.
pub uninterp spec fn compound_members(bytes: Seq<u8>) -> Option<Seq<(Seq<char>, bool, bool, u64)>>;

pub open spec fn compound_view(member: (String, bool, bool, u64)) -> (Seq<char>, bool, bool, u64) {
    (member.0@, member.1, member.2, member.3)
}

pub open spec fn compound_views(members: Seq<(String, bool, bool, u64)>) -> Seq<
    (Seq<char>, bool, bool, u64),
> {
    members.map_values(|m: (String, bool, bool, u64)| compound_view(m))
}

pub open spec fn compound_view_opt(members: Option<Vec<(String, bool, bool, u64)>>) -> Option<
    Seq<(Seq<char>, bool, bool, u64)>,
> {
    match members {
        Some(list) => Some(compound_views(list@)),
        None => None,
    }
}

/// `cfb::CompoundFile::open` and `walk`: the objects of the compound file in preorder, each
/// with its path, written with slashes, whether it is a storage, whether it is a stream, and
/// its length.
#[verifier::external_body]
fn read_compound(bytes: &[u8]) -> (r: Option<Vec<(String, bool, bool, u64)>>)
    ensures
        compound_view_opt(r) == compound_members(bytes@),
{
    let file = cfb::CompoundFile::open(Cursor::new(bytes)).ok()?;
    let members = file.walk().map(|e| {
        let path = e.path().display().to_string().replace('\\', "/");
        (path, e.is_storage(), e.is_stream(), e.len())
    });
    Some(members.collect())
}

/// A path below the root as Windows writes it: the slash of the root, and backslashes between
/// names.
pub open spec fn compound_path(path: Seq<char>) -> Seq<char> {
    Seq::new(
        path.len(),
        |i: int|
            if i > 0 && path[i] == '/' {
                '\\'
            } else {
                path[i]
            },
    )
}

pub open spec fn compound_entry(member: (Seq<char>, bool, bool, u64)) -> MemberView {
    plain_member(
        compound_path(member.0),
        if member.1 {
            "storage"@
        } else {
            "stream"@
        },
        if member.2 {
            Some(member.3)
        } else {
            None
        },
        None,
    )
}

/// The listing of a compound file, without its root.
pub open spec fn compound_listing(
    members: Option<Seq<(Seq<char>, bool, bool, u64)>>,
    max: int,
) -> Result<ListingView, Seq<char>> {
    match members {
        Some(list) => Ok(
            first_members(
                Seq::new(
                    if list.len() == 0 {
                        0
                    } else {
                        (list.len() - 1) as nat
                    },
                    |i: int| compound_entry(list[i + 1]),
                ),
                max,
            ),
        ),
        None => Err("Compound-file directory could not be parsed"@),
    }
}

fn compound_path_of(path: &str) -> (r: String)
    ensures
        r@ == compound_path(path@),
{
    let chars = chars_of(path);
    let mut out: String = String::new();
    let mut i: usize = 0;
    while i < chars.len()
        invariant
            i <= chars@.len(),
            chars@ == path@,
            out@ == compound_path(path@).subrange(0, i as int),
        decreases chars@.len() - i,
    {
        if i > 0 && chars[i] == '/' {
            out.push('\\');
        } else {
            out.push(chars[i]);
        }
        assert(out@ =~= compound_path(path@).subrange(0, i + 1));
        i += 1;
    }
    assert(out@ =~= compound_path(path@));
    out
}

/// The listing of a compound file, from all its objects.
pub fn list_compound_members(list: &Vec<(String, bool, bool, u64)>, max_entries: usize) -> (r:
    PreviewArchiveListing)
    ensures
        compound_listing(Some(compound_views(list@)), max_entries as int) == Ok::<
            ListingView,
            Seq<char>,
        >(r@),
{
    let ghost members = compound_views(list@);
    let total: usize = if list.len() == 0 {
        0
    } else {
        list.len() - 1
    };
    let ghost shown = Seq::new(total as nat, |i: int| compound_entry(members[i + 1]));
    let count: usize = if total <= max_entries {
        total
    } else {
        max_entries
    };
    let mut entries: Vec<ArchivePreviewEntry> = Vec::new();
    let mut i: usize = 0;
    while i < count
        invariant
            i <= count <= total,
            total == if list@.len() == 0 {
                0
            } else {
                list@.len() - 1
            },
            members == compound_views(list@),
            shown == Seq::new(total as nat, |i: int| compound_entry(members[i + 1])),
            entries@.len() == i,
            forall|k: int| 0 <= k < entries@.len() ==> (#[trigger] entries@[k])@ == shown[k],
        decreases count - i,
    {
        let m = &list[i + 1];
        assert(members[i + 1] == compound_view(list@[i + 1]));
        let path = compound_path_of(m.0.as_str());
        let kind: &str = if m.1 {
            "storage"
        } else {
            "stream"
        };
        let size: Option<u64> = if m.2 {
            Some(m.3)
        } else {
            None
        };
        let entry = plain_entry(path, kind, size, None);
        assert(entry@ == shown[i as int]);
        entries.push(entry);
        i += 1;
    }
    let truncated = total > entries.len();
    let listing = PreviewArchiveListing { truncated, total_entries: Some(total), entries };
    assert(listing@.entries =~= first_members(shown, max_entries as int).entries);
    listing
}

/// The first `max_entries` objects of a compound file; all are counted.
pub fn list_cfb_entries(bytes: &[u8], max_entries: usize) -> (r: Result<
    PreviewArchiveListing,
    RssError,
>)
    ensures
        listing_result(r) == compound_listing(compound_members(bytes@), max_entries as int),
{
    match read_compound(bytes) {
        Some(list) => Ok(list_compound_members(&list, max_entries)),
        None => Err(RssError::Message(owned("Compound-file directory could not be parsed"))),
    }
}

// ---------------------------------------------------------------------------
// All kinds.

/// A listing with one line about the archive itself.
pub open spec fn summary_listing(
    name: Seq<char>,
    kind: ArtifactKind,
    size: u64,
    note: Seq<char>,
) -> ListingView {
    ListingView {
        entries: seq![
            MemberView {
                path: name,
                kind: Some(kind_label(kind)),
                size: Some(size),
                compressed_size: None,
                status: ArchivePreviewEntryStatus::Unsupported,
                note: Some(note),
            },
        ],
        total_entries: Some(1),
        truncated: false,
    }
}

pub fn build_archive_summary_listing(
    target_name: &str,
    kind: ArtifactKind,
    total_size: u64,
    note: &str,
) -> (r: PreviewArchiveListing)
    ensures
        r@ == summary_listing(target_name@, kind, total_size, note@),
{
    let entry = ArchivePreviewEntry {
        path: owned(target_name),
        kind: Some(owned(kind_name(kind))),
        size: Some(total_size),
        compressed_size: None,
        status: ArchivePreviewEntryStatus::Unsupported,
        note: Some(owned(note)),
    };
    let mut entries: Vec<ArchivePreviewEntry> = Vec::new();
    entries.push(entry);
    let listing = PreviewArchiveListing { entries, total_entries: Some(1), truncated: false };
    assert(listing@.entries =~= summary_listing(target_name@, kind, total_size, note@).entries);
    listing
}

/// How the members of a kind of archive are found.
pub enum ArchiveFamily {
    Zip,
    Compound,
    Tar,
    Container,
    Stream,
    Other,
}

pub open spec fn archive_family(kind: ArtifactKind) -> ArchiveFamily {
    match kind {
        ArtifactKind::Zip | ArtifactKind::Jar | ArtifactKind::Apk => ArchiveFamily::Zip,
        ArtifactKind::Msi | ArtifactKind::OleCompound => ArchiveFamily::Compound,
        ArtifactKind::Tar => ArchiveFamily::Tar,
        ArtifactKind::Cab
        | ArtifactKind::Rar
        | ArtifactKind::SevenZip
        | ArtifactKind::Iso => ArchiveFamily::Container,
        ArtifactKind::Gzip | ArtifactKind::Bzip2 | ArtifactKind::Xz => ArchiveFamily::Stream,
        _ => ArchiveFamily::Other,
    }
}

pub open spec fn container_note() -> Seq<char> {
    "Structured entry listing is not yet available for this archive family; header-aware summary only."@
}

pub open spec fn stream_note() -> Seq<char> {
    "Single-stream compressed payload detected; member listing is not yet available for this compression family."@
}

pub open spec fn salvage_warning() -> Seq<char> {
    "ZIP central directory could not be parsed cleanly; using local-header salvage."@
}

/// The listing of an archive.
pub open spec fn archive_listing(
    name: Seq<char>,
    kind: ArtifactKind,
    size: u64,
    bytes: Seq<u8>,
    max: int,
) -> Result<ListingView, Seq<char>> {
    match archive_family(kind) {
        ArchiveFamily::Zip => match zip_listing(zip_directory(bytes), max) {
            Some(listing) => Ok(listing),
            None => salvaged_listing(bytes, max),
        },
        ArchiveFamily::Compound => compound_listing(compound_members(bytes), max),
        ArchiveFamily::Tar => tar_listing(tar_members(bytes), max),
        ArchiveFamily::Container => Ok(summary_listing(name, kind, size, container_note())),
        ArchiveFamily::Stream => Ok(summary_listing(name, kind, size, stream_note())),
        ArchiveFamily::Other => Err("Archive preview is not available for "@ + kind_label(kind)),
    }
}

/// What listing an archive warns of: that a ZIP directory could not be read.
pub open spec fn archive_warnings(kind: ArtifactKind, bytes: Seq<u8>, max: int) -> Seq<Seq<char>> {
    if archive_family(kind) is Zip && zip_listing(zip_directory(bytes), max) is None {
        seq![salvage_warning()]
    } else {
        seq![]
    }
}

/// The listing of an archive, from its bytes.
pub fn build_archive_preview_from_bytes(
    target_name: &str,
    kind: ArtifactKind,
    total_size: u64,
    bytes: &[u8],
    max_entries: usize,
    warnings: &mut Vec<String>,
) -> (r: Result<PreviewArchiveListing, RssError>)
    ensures
        listing_result(r) == archive_listing(
            target_name@,
            kind,
            total_size,
            bytes@,
            max_entries as int,
        ),
        views(final(warnings)@) == views(old(warnings)@) + archive_warnings(
            kind,
            bytes@,
            max_entries as int,
        ),
{
    assert(views(warnings@) + seq![] =~= views(warnings@));
    match kind {
        ArtifactKind::Zip | ArtifactKind::Jar | ArtifactKind::Apk => {
            if let Some(listing) = list_zip_entries(bytes, max_entries) {
                return Ok(listing);
            }
            warnings.push(
                owned(
                    "ZIP central directory could not be parsed cleanly; using local-header salvage.",
                ),
            );
            assert(views(warnings@) =~= views(old(warnings)@) + seq![salvage_warning()]);
            salvage_zip_local_headers(bytes, max_entries)
        },
        ArtifactKind::Msi | ArtifactKind::OleCompound => list_cfb_entries(bytes, max_entries),
        ArtifactKind::Tar => list_tar_entries(bytes, max_entries),
        ArtifactKind::Cab
        | ArtifactKind::Rar
        | ArtifactKind::SevenZip
        | ArtifactKind::Iso => Ok(
            build_archive_summary_listing(
                target_name,
                kind,
                total_size,
                "Structured entry listing is not yet available for this archive family; header-aware summary only.",
            ),
        ),
        ArtifactKind::Gzip | ArtifactKind::Bzip2 | ArtifactKind::Xz => Ok(
            build_archive_summary_listing(
                target_name,
                kind,
                total_size,
                "Single-stream compressed payload detected; member listing is not yet available for this compression family.",
            ),
        ),
        _ => Err(
            RssError::Message(
                concat2("Archive preview is not available for ", kind_name(kind)),
            ),
        ),
    }
}

/// No listing shows more members than were asked for.
pub proof fn lemma_listings_are_bounded(
    name: Seq<char>,
    kind: ArtifactKind,
    size: u64,
    bytes: Seq<u8>,
    max: int,
)
    requires
        max >= 1,
    ensures
        match archive_listing(name, kind, size, bytes, max) {
            Ok(listing) => listing.entries.len() <= max,
            Err(_) => true,
        },
{
    lemma_salvaged_bounded(bytes, 0, max, seq![]);
}

proof fn lemma_salvaged_bounded(s: Seq<u8>, at: int, max: int, found: Seq<MemberView>)
    requires
        found.len() <= max,
    ensures
        salvaged(s, at, max, found).0.len() <= max,
    decreases s.len() - at,
{
    if at < 0 || at + 30 > s.len() || found.len() >= max {
    } else if !occurs_at(s, zip_mark(), at) {
        lemma_salvaged_bounded(s, at + 1, max, found);
    } else if header_end(s, at) > s.len() {
    } else if header_name(s, at).len() == 0 {
        lemma_salvaged_bounded(s, header_end(s, at), max, found);
    } else {
        lemma_salvaged_bounded(s, header_end(s, at), max, found.push(salvaged_member(s, at)));
    }
}

} // verus!
