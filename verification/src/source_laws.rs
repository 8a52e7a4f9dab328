//! What the sources of a machine show, told of what the system says of them.

use crate::model::{FileSystemKind, ScanSource, SourceKind};
use crate::numbers::decimal;
use crate::sort::{
    by_text, lemma_by_text, lemma_stable_sorted_keeps_items, stable_sorted, text_before,
};
use crate::sources::{
    before_zero, disk_source, drive_root, named_filesystem, shown_name, volume_source, wide_text,
    VolumeFacts,
};
use crate::text::{ascii_lower, lower_char, opt_view};
use vstd::prelude::*;
use vstd::string::*;

verus! {

/// `s` spells `word`, a word in small letters, in small or large letters.
pub open spec fn spells(s: Seq<char>, word: Seq<char>) -> bool {
    &&& s.len() == word.len()
    &&& forall|i: int|
        0 <= i < s.len() ==> #[trigger] s[i] == word[i] || ('a' <= word[i] <= 'z' && s[i] as int
            == word[i] as int - 32)
}

proof fn lemma_spelling(s: Seq<char>, word: Seq<char>)
    requires
        forall|i: int| 0 <= i < word.len() ==> !('A' <= #[trigger] word[i] <= 'Z'),
    ensures
        spells(s, word) <==> ascii_lower(s) == ascii_lower(word),
{
    assert(ascii_lower(word) =~= word);
    if spells(s, word) {
        assert forall|i: int| 0 <= i < s.len() implies ascii_lower(s)[i] == word[i] by {
            assert(s[i] == word[i] || s[i] as int == word[i] as int - 32);
        }
        assert(ascii_lower(s) =~= word);
    }
    if ascii_lower(s) == ascii_lower(word) {
        assert(s.len() == word.len());
        assert forall|i: int| 0 <= i < s.len() implies #[trigger] s[i] == word[i] || ('a' <= word[i]
            <= 'z' && s[i] as int == word[i] as int - 32) by {
            assert(ascii_lower(s)[i] == lower_char(s[i]));
            assert(!('A' <= word[i] <= 'Z'));
        }
    }
}

/// A file system is known by its name, in small or large letters, and by no other word.
pub proof fn lemma_filesystems_are_known_by_name(name: Seq<char>)
    ensures
        named_filesystem(name) == FileSystemKind::Ntfs <==> spells(name, "ntfs"@),
        named_filesystem(name) == FileSystemKind::Fat32 <==> spells(name, "fat32"@),
        named_filesystem(name) == FileSystemKind::ExFat <==> spells(name, "exfat"@),
        named_filesystem(name) == FileSystemKind::Unknown <==> !spells(name, "ntfs"@) && !spells(
            name,
            "fat32"@,
        ) && !spells(name, "exfat"@),
{
    reveal_strlit("ntfs");
    reveal_strlit("fat32");
    reveal_strlit("exfat");
    lemma_spelling(name, "ntfs"@);
    lemma_spelling(name, "fat32"@);
    lemma_spelling(name, "exfat"@);
    assert("ntfs"@.len() == 4 && "fat32"@.len() == 5 && "exfat"@.len() == 5);
    assert("fat32"@[0] == 'f' && "exfat"@[0] == 'e');
    assert(ascii_lower("ntfs"@).len() == 4);
    assert(ascii_lower("fat32"@)[0] == 'f');
    assert(ascii_lower("exfat"@)[0] == 'e');
}

/// A text in a buffer ends in front of its first zero, whatever stands behind it; without a zero
/// the whole buffer is text.
pub proof fn lemma_text_ends_at_its_zero(units: Seq<u16>, rest: Seq<u16>)
    requires
        forall|i: int| 0 <= i < units.len() ==> #[trigger] units[i] != 0,
    ensures
        before_zero(units + seq![0u16] + rest) == units,
        before_zero(units) == units,
        wide_text(units + seq![0u16] + rest) == wide_text(units),
    decreases units.len(),
{
    let whole = units + seq![0u16] + rest;
    if units.len() == 0 {
        assert(whole[0] == 0);
        assert(units =~= seq![]);
    } else {
        let tail = units.drop_first();
        assert forall|i: int| 0 <= i < tail.len() implies #[trigger] tail[i] != 0 by {
            assert(tail[i] == units[i + 1]);
        }
        lemma_text_ends_at_its_zero(tail, rest);
        assert(whole.drop_first() =~= tail + seq![0u16] + rest);
        assert(whole[0] == units[0]);
        assert(units[0] != 0);
        assert(units =~= seq![units[0]] + tail);
    }
}

/// What is said of a source is what its fields hold.
pub proof fn lemma_source_says_its_fields(s: ScanSource)
    ensures
        s@.id == s.id@,
        s@.kind == s.kind,
        s@.device_path == s.device_path@,
        s@.mount_point == opt_view(s.mount_point),
        s@.display_name == s.display_name@,
        s@.volume_label == opt_view(s.volume_label),
        s@.filesystem == s.filesystem,
        s@.volume_serial == s.volume_serial,
        s@.total_bytes == s.total_bytes,
        s@.free_bytes == s.free_bytes,
        s@.cluster_size == s.cluster_size,
        s@.is_system == s.is_system,
        s@.requires_elevation == s.requires_elevation,
{
}

/// A volume has the size, the free space and the serial number that the system tells, and
/// clusters of as many bytes as their sectors have together. Its paths begin with its letter.
pub proof fn lemma_volume_shows_what_the_system_says(
    facts: VolumeFacts,
    is_elevated: bool,
    system_root: Option<Seq<char>>,
)
    ensures
        ({
            let s = volume_source(facts, is_elevated, system_root);
            &&& s.kind == SourceKind::LogicalVolume
            &&& s.total_bytes == facts.total_bytes
            &&& s.free_bytes == facts.free_bytes
            &&& s.volume_serial == Some(facts.serial)
            &&& s.requires_elevation == is_elevated
            &&& s.cluster_size is None <==> facts.sectors_per_cluster == 0
                || facts.bytes_per_sector == 0
            &&& s.cluster_size matches Some(n) ==> n as int == facts.sectors_per_cluster as int
                * facts.bytes_per_sector as int
            &&& s.id.len() == 8 && s.id[7] == facts.letter
            &&& s.device_path.len() == 6 && s.device_path[4] == facts.letter
            &&& s.mount_point matches Some(root) && root.len() == 3 && root[0] == facts.letter
                && root[1] == ':' && root[2] == '\\'
        }),
{
    reveal_strlit("volume:");
    reveal_strlit("\\\\.\\");
    reveal_strlit(":");
    reveal_strlit(":\\");
    let (a, b) = (facts.sectors_per_cluster, facts.bytes_per_sector);
    assert(0 <= a * b <= 0xffff_ffff * 0xffff_ffff) by (nonlinear_arith)
        requires
            0 <= a <= 0xffff_ffff,
            0 <= b <= 0xffff_ffff,
    ;
    assert(a as int * b as int == a * b);
}

/// A volume is called by its root, by its label where it has one, and by its file system.
pub proof fn lemma_volume_is_called_by_its_label(
    facts: VolumeFacts,
    is_elevated: bool,
    system_root: Option<Seq<char>>,
)
    ensures
        ({
            let s = volume_source(facts, is_elevated, system_root);
            let label = wide_text(facts.volume_name@);
            let fs = wide_text(facts.filesystem_name@);
            let tail = seq![' ', '('] + fs + seq![')'];
            &&& s.filesystem == named_filesystem(fs)
            &&& label.len() == 0 ==> s.volume_label is None && s.display_name == s.mount_point->0
                + tail
            &&& label.len() > 0 ==> s.volume_label == Some(label) && s.display_name
                == s.mount_point->0 + seq![' '] + label + tail
        }),
{
    reveal_strlit(" (");
    reveal_strlit(")");
    reveal_strlit(" ");
    let s = volume_source(facts, is_elevated, system_root);
    let root = drive_root(facts.letter);
    let label = wide_text(facts.volume_name@);
    let fs = wide_text(facts.filesystem_name@);
    let tail = seq![' ', '('] + fs + seq![')'];
    assert(" ("@ =~= seq![' ', '(']);
    assert(")"@ =~= seq![')']);
    assert(" "@ =~= seq![' ']);
    if label.len() == 0 {
        assert(s.display_name =~= root + tail);
    } else {
        assert(s.display_name =~= root + seq![' '] + label + tail);
    }
}

/// The system volume is the one on whose drive the system root lies.
pub proof fn lemma_system_volume_holds_the_system(
    facts: VolumeFacts,
    is_elevated: bool,
    system_root: Option<Seq<char>>,
)
    ensures
        volume_source(facts, is_elevated, system_root).is_system <==> (system_root matches Some(p)
            && p.len() >= 3 && lower_char(p[0]) == lower_char(facts.letter) && p[1] == ':' && p[2]
            == '\\'),
{
    reveal_strlit(":\\");
    if let Some(p) = system_root {
        let root = ascii_lower(drive_root(facts.letter));
        let low = ascii_lower(p);
        assert(root.len() == 3);
        assert(root[0] == lower_char(facts.letter));
        assert(root[1] == ':');
        assert(root[2] == '\\');
        if p.len() >= 3 {
            assert(low[0] == lower_char(p[0]));
            assert(low[1] == lower_char(p[1]));
            assert(low[2] == lower_char(p[2]));
            if root.is_prefix_of(low) {
                assert(root[1] == low[1] && root[2] == low[2] && root[0] == low[0]);
            }
            if lower_char(p[0]) == lower_char(facts.letter) && p[1] == ':' && p[2] == '\\' {
                assert(root =~= low.subrange(0, 3));
            }
        }
    }
}

/// A disk has the size that the system tells, none where it tells no size; nothing of it is free
/// or mounted, and the first one holds the system.
pub proof fn lemma_disk_shows_what_the_system_says(index: u32, disk_size: i64, is_elevated: bool)
    ensures
        ({
            let s = disk_source(index, disk_size, is_elevated);
            &&& s.kind == SourceKind::PhysicalDisk
            &&& disk_size >= 0 ==> s.total_bytes as int == disk_size as int
            &&& disk_size < 0 ==> s.total_bytes == 0
            &&& s.free_bytes == 0
            &&& s.is_system <==> index == 0
            &&& s.requires_elevation == is_elevated
            &&& s.mount_point is None && s.volume_label is None && s.volume_serial is None
            &&& s.cluster_size is None
            &&& s.filesystem == FileSystemKind::Unknown
            &&& s.id == "disk:"@ + decimal(index as nat)
            &&& s.device_path == "\\\\.\\"@ + s.display_name
            &&& s.display_name == "PhysicalDrive"@ + decimal(index as nat)
        }),
{
    reveal_strlit("\\\\.\\");
    reveal_strlit("PhysicalDrive");
    reveal_strlit("\\\\.\\PhysicalDrive");
    assert("\\\\.\\PhysicalDrive"@ =~= "\\\\.\\"@ + "PhysicalDrive"@);
    let s = disk_source(index, disk_size, is_elevated);
    assert(s.device_path =~= "\\\\.\\"@ + s.display_name);
}

/// The sources are all volumes and all disks, and of two of them the one with the name that comes
/// first stands first.
pub proof fn lemma_sources_go_by_name(
    volumes: Seq<ScanSource>,
    disks: Seq<ScanSource>,
    r: Seq<ScanSource>,
    i: int,
    j: int,
)
    requires
        stable_sorted(volumes + disks, r, by_text(shown_name())),
        0 <= i < j < r.len(),
    ensures
        !text_before(r[j].display_name@, r[i].display_name@),
        r.len() == volumes.len() + disks.len(),
        volumes.contains(r[i]) || disks.contains(r[i]),
{
    lemma_by_text(shown_name());
    lemma_stable_sorted_keeps_items(volumes + disks, r, by_text(shown_name()));
    assert(!by_text(shown_name())(r[j], r[i]));
    assert((volumes + disks).contains(r[i]));
    let k = choose|k: int| 0 <= k < (volumes + disks).len() && (volumes + disks)[k] == r[i];
    if k < volumes.len() {
        assert(volumes[k] == r[i]);
    } else {
        assert(disks[k - volumes.len()] == r[i]);
    }
}

} // verus!
