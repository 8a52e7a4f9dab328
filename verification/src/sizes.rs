//! How long a file is, as far as its own structure tells.

use crate::bytes::{
    be16, be32, is_last_occurrence, le16, le32, le64, matches_at, occurs_at, read_be16, read_be32,
    read_le16, read_le32, read_le64, rfind, starts_with,
};
use crate::kinds::{
    cab_mark, find_pe_header, gif87_mark, gif89_mark, infer_zip_kind, marked, pdf_mark, pe_offset,
    png_mark, seven_zip_mark, zip_kind, zip_mark,
};
use crate::model::ArtifactKind;
use vstd::prelude::*;

verus! {

pub open spec fn max_of(a: int, b: int) -> int {
    if a < b {
        b
    } else {
        a
    }
}

pub open spec fn min_of(a: int, b: int) -> int {
    if a < b {
        a
    } else {
        b
    }
}

// ---------------------------------------------------------------------------
// PE images.

/// The end of the raw data of the furthest of the first `n` sections, at least `floor`.
pub open spec fn sections_end(s: Seq<u8>, table: int, n: int, floor: int) -> int
    decreases n,
{
    if n <= 0 {
        floor
    } else {
        let entry = table + 40 * (n - 1);
        max_of(sections_end(s, table, n - 1, floor), le32(s, entry + 20) + le32(s, entry + 16))
    }
}

/// The size of a PE image: the end of its furthest section, capped at 128 MiB.
pub open spec fn pe_size(s: Seq<u8>) -> Option<int> {
    match pe_offset(s) {
        None => None,
        Some(at) => {
            let n = le16(s, at + 6);
            let table = at + 24 + le16(s, at + 20);
            if n > 0 && table + 40 * n > s.len() {
                None
            } else {
                Some(min_of(sections_end(s, table, n, table), 0x800_0000))
            }
        },
    }
}

pub fn estimate_pe_size(bytes: &[u8]) -> (r: Option<u64>)
    ensures
        match r {
            Some(n) => pe_size(bytes@) == Some(n as int),
            None => pe_size(bytes@) is None,
        },
{
    let at: usize = match find_pe_header(bytes) {
        Some(at) => at,
        None => {
            return None;
        },
    };
    let n: usize = bytes.len();
    assert(at + 24 <= n);
    let count: u64 = read_le16(bytes, at + 6) as u64;
    let table: u64 = at as u64 + 24 + read_le16(bytes, at + 20) as u64;
    let mut end: u64 = table;
    let mut index: u64 = 0;
    while index < count
        invariant
            index <= count <= 0xffff,
            pe_offset(bytes@) == Some(at as int),
            at + 24 <= bytes@.len(),
            count == le16(bytes@, at + 6),
            table == at + 24 + le16(bytes@, at + 20),
            table <= u64::MAX / 2,
            end == sections_end(bytes@, table as int, index as int, table as int),
            index > 0 ==> table + 40 * index <= bytes@.len(),
        decreases count - index,
    {
        let start: u64 = table + 40 * index;
        if (bytes.len() as u64) < start + 40 {
            assert(table + 40 * count > bytes@.len());
            return None;
        }
        let raw_size: u64 = read_le32(bytes, start as usize + 16) as u64;
        let raw_start: u64 = read_le32(bytes, start as usize + 20) as u64;
        let section_end: u64 = raw_start + raw_size;
        if end < section_end {
            end = section_end;
        }
        index += 1;
        assert(start == table + 40 * (index - 1));
    }
    if end < 128 * 1024 * 1024 {
        Some(end)
    } else {
        Some(128 * 1024 * 1024)
    }
}

// ---------------------------------------------------------------------------
// ZIP archives.

/// The mark of the record that ends a ZIP archive.
pub open spec fn zip_end_mark() -> Seq<u8> {
    seq![0x50u8, 0x4b, 0x05, 0x06]
}

/// `end` is where a ZIP archive ends: behind the last end record and its comment.
pub open spec fn is_zip_end(s: Seq<u8>, end: int) -> bool {
    &&& s.len() >= 32
    &&& marked(s, zip_mark())
    &&& exists|at: int| #[trigger]
        is_last_occurrence(s, zip_end_mark(), at) && at + 22 <= s.len() && end == at + 22 + le16(
            s,
            at + 20,
        ) && end <= s.len()
}

/// An archive has one end at most.
pub proof fn lemma_zip_end_unique(s: Seq<u8>, a: int, b: int)
    requires
        is_zip_end(s, a),
        is_zip_end(s, b),
    ensures
        a == b,
{
    let i = choose|at: int| #[trigger]
        is_last_occurrence(s, zip_end_mark(), at) && at + 22 <= s.len() && a == at + 22 + le16(
            s,
            at + 20,
        ) && a <= s.len();
    let j = choose|at: int| #[trigger]
        is_last_occurrence(s, zip_end_mark(), at) && at + 22 <= s.len() && b == at + 22 + le16(
            s,
            at + 20,
        ) && b <= s.len();
    if i < j {
        assert(!occurs_at(s, zip_end_mark(), j));
    } else if j < i {
        assert(!occurs_at(s, zip_end_mark(), i));
    }
}

/// The size of a ZIP archive.
pub open spec fn zip_size(s: Seq<u8>) -> Option<int> {
    if exists|end: int| is_zip_end(s, end) {
        Some(choose|end: int| is_zip_end(s, end))
    } else {
        None
    }
}

pub fn estimate_zip_size(bytes: &[u8]) -> (r: Option<(u64, ArtifactKind)>)
    ensures
        match r {
            Some((end, kind)) => is_zip_end(bytes@, end as int) && zip_size(bytes@) == Some(
                end as int,
            ) && kind == zip_kind(bytes@),
            None => zip_size(bytes@) is None,
        },
{
    if bytes.len() < 32 || !starts_with(bytes, &[0x50, 0x4b, 0x03, 0x04]) {
        return None;
    }
    let at: usize = match rfind(bytes, &[0x50, 0x4b, 0x05, 0x06]) {
        Some(at) => at,
        None => {
            return None;
        },
    };
    proof {
        assert forall|other: int|
            #[trigger] is_last_occurrence(bytes@, zip_end_mark(), other) implies other == at by {
            if other > at {
                assert(!occurs_at(bytes@, zip_end_mark(), other));
            } else if other < at {
                assert(!occurs_at(bytes@, zip_end_mark(), at as int));
            }
        }
    }
    let n: usize = bytes.len();
    if n - at < 22 {
        return None;
    }
    let comment: usize = read_le16(bytes, at + 20) as usize;
    if n - at - 22 < comment {
        return None;
    }
    let end: usize = at + 22 + comment;
    proof {
        assert(is_last_occurrence(bytes@, zip_end_mark(), at as int));
        assert(is_zip_end(bytes@, end as int));
        lemma_zip_end_unique(bytes@, end as int, choose|e: int| is_zip_end(bytes@, e));
    }
    Some((end as u64, infer_zip_kind(bytes)))
}

// ---------------------------------------------------------------------------
// 7z and cabinet archives: the header holds the size.

/// The size that a 7z header announces.
pub open spec fn seven_zip_size(s: Seq<u8>) -> Option<int> {
    if s.len() < 32 || !marked(s, seven_zip_mark()) {
        None
    } else {
        Some(32 + le64(s, 12) + le64(s, 20))
    }
}

/// The size that a 7z header announces is one that 64 bits hold.
pub open spec fn seven_zip_size_fits(s: Seq<u8>) -> bool {
    seven_zip_size(s) matches Some(n) ==> n <= u64::MAX
}

pub fn estimate_7z_size(bytes: &[u8]) -> (r: Option<u64>)
    requires
        seven_zip_size_fits(bytes@),
    ensures
        match r {
            Some(n) => seven_zip_size(bytes@) == Some(n as int),
            None => seven_zip_size(bytes@) is None,
        },
{
    if bytes.len() < 32 || !starts_with(bytes, &[0x37, 0x7a, 0xbc, 0xaf, 0x27, 0x1c]) {
        return None;
    }
    let next_offset: u64 = read_le64(bytes, 12);
    let next_size: u64 = read_le64(bytes, 20);
    Some(32 + next_offset + next_size)
}

/// Whether the size that a 7z header announces is one that 64 bits hold.
pub fn seven_zip_header_fits(bytes: &[u8]) -> (r: bool)
    ensures
        r == seven_zip_size_fits(bytes@),
{
    if bytes.len() < 32 || !starts_with(bytes, &[0x37, 0x7a, 0xbc, 0xaf, 0x27, 0x1c]) {
        return true;
    }
    let next_offset: u64 = read_le64(bytes, 12);
    let next_size: u64 = read_le64(bytes, 20);
    next_offset <= u64::MAX - 32 && next_size <= u64::MAX - 32 - next_offset
}

/// The size that a cabinet header announces.
pub open spec fn cab_size(s: Seq<u8>) -> Option<int> {
    if s.len() < 16 || !marked(s, cab_mark()) {
        None
    } else {
        Some(le32(s, 8))
    }
}

pub fn estimate_cab_size(bytes: &[u8]) -> (r: Option<u64>)
    ensures
        match r {
            Some(n) => cab_size(bytes@) == Some(n as int),
            None => cab_size(bytes@) is None,
        },
{
    if bytes.len() < 16 || !starts_with(bytes, &[0x4d, 0x53, 0x43, 0x46]) {
        return None;
    }
    Some(read_le32(bytes, 8) as u64)
}

// ---------------------------------------------------------------------------
// RAR archives: a known last block ends them.

pub open spec fn rar5_mark() -> Seq<u8> {
    seq![0x52u8, 0x61, 0x72, 0x21, 0x1a, 0x07, 0x01, 0x00]
}

pub open spec fn rar4_mark() -> Seq<u8> {
    seq![0x52u8, 0x61, 0x72, 0x21, 0x1a, 0x07, 0x00]
}

pub open spec fn rar5_footer() -> Seq<u8> {
    seq![0x1du8, 0x77, 0x56, 0x51, 0x03, 0x05, 0x04, 0x00]
}

pub open spec fn rar4_footer() -> Seq<u8> {
    seq![0xc4u8, 0x3d, 0x7b, 0x00, 0x40, 0x07, 0x00]
}

/// The block that ends an archive with this mark.
pub open spec fn rar_footer(s: Seq<u8>) -> Option<Seq<u8>> {
    if marked(s, rar5_mark()) {
        Some(rar5_footer())
    } else if marked(s, rar4_mark()) {
        Some(rar4_footer())
    } else {
        None
    }
}

/// `end` is where a RAR archive ends: behind its last end block.
pub open spec fn is_rar_end(s: Seq<u8>, end: int) -> bool {
    match rar_footer(s) {
        Some(footer) => is_last_occurrence(s, footer, end - footer.len()),
        None => false,
    }
}

/// An archive has one end at most.
pub proof fn lemma_rar_end_unique(s: Seq<u8>, a: int, b: int)
    requires
        is_rar_end(s, a),
        is_rar_end(s, b),
    ensures
        a == b,
{
    let footer = rar_footer(s)->0;
    if a < b {
        assert(!occurs_at(s, footer, b - footer.len()));
    } else if b < a {
        assert(!occurs_at(s, footer, a - footer.len()));
    }
}

/// The size of a RAR archive whose end is marked.
pub open spec fn rar_size(s: Seq<u8>) -> Option<int> {
    if exists|end: int| is_rar_end(s, end) {
        Some(choose|end: int| is_rar_end(s, end))
    } else {
        None
    }
}

pub fn estimate_rar_size(bytes: &[u8]) -> (r: Option<(u64, bool)>)
    ensures
        match r {
            Some((end, exact)) => exact && is_rar_end(bytes@, end as int) && rar_size(bytes@)
                == Some(end as int),
            None => rar_size(bytes@) is None,
        },
{
    let n: usize = bytes.len();
    if starts_with(bytes, &[0x52, 0x61, 0x72, 0x21, 0x1a, 0x07, 0x01, 0x00]) {
        let footer: [u8; 8] = [0x1d, 0x77, 0x56, 0x51, 0x03, 0x05, 0x04, 0x00];
        return match rfind(bytes, &footer) {
            Some(at) => {
                proof {
                    assert(footer@ =~= rar5_footer());
                    assert(is_rar_end(bytes@, at + 8));
                    lemma_rar_end_unique(bytes@, at + 8, choose|e: int| is_rar_end(bytes@, e));
                }
                Some(((at + 8) as u64, true))
            },
            None => {
                assert(footer@ =~= rar5_footer());
                assert forall|end: int| !is_rar_end(bytes@, end) by {
                    assert(!occurs_at(bytes@, rar5_footer(), end - 8));
                }
                None
            },
        };
    }
    if starts_with(bytes, &[0x52, 0x61, 0x72, 0x21, 0x1a, 0x07, 0x00]) {
        let footer: [u8; 7] = [0xc4, 0x3d, 0x7b, 0x00, 0x40, 0x07, 0x00];
        return match rfind(bytes, &footer) {
            Some(at) => {
                proof {
                    assert(footer@ =~= rar4_footer());
                    assert(is_rar_end(bytes@, at + 7));
                    lemma_rar_end_unique(bytes@, at + 7, choose|e: int| is_rar_end(bytes@, e));
                }
                Some(((at + 7) as u64, true))
            },
            None => {
                assert(footer@ =~= rar4_footer());
                assert forall|end: int| !is_rar_end(bytes@, end) by {
                    assert(!occurs_at(bytes@, rar4_footer(), end - 7));
                }
                None
            },
        };
    }
    None
}

// ---------------------------------------------------------------------------
// PDF documents.

/// A byte that may follow the end mark of a document.
pub open spec fn pdf_filler(b: u8) -> bool {
    b == 0x0d || b == 0x0a || b == 0x20 || b == 0x09 || b == 0x1a
}

/// The mark `%%EOF`.
pub open spec fn pdf_end_mark() -> Seq<u8> {
    seq![0x25u8, 0x25, 0x45, 0x4f, 0x46]
}

/// `end` is where a PDF document ends: behind the last `%%EOF` and the filler after it.
pub open spec fn is_pdf_end(s: Seq<u8>, end: int) -> bool {
    &&& s.len() >= 8
    &&& marked(s, pdf_mark())
    &&& exists|at: int| #[trigger]
        is_last_occurrence(s, pdf_end_mark(), at) && at + 5 <= end <= s.len() && (forall|i: int|
            at + 5 <= i < end ==> pdf_filler(#[trigger] s[i])) && (end < s.len() ==> !pdf_filler(
            s[end],
        ))
}

/// The size of a PDF document.
pub open spec fn pdf_size(s: Seq<u8>) -> Option<int> {
    if exists|end: int| is_pdf_end(s, end) {
        Some(choose|end: int| is_pdf_end(s, end))
    } else {
        None
    }
}

pub fn estimate_pdf_size(bytes: &[u8]) -> (r: Option<u64>)
    ensures
        match r {
            Some(end) => is_pdf_end(bytes@, end as int) && pdf_size(bytes@) == Some(end as int),
            None => pdf_size(bytes@) is None,
        },
{
    if bytes.len() < 8 || !starts_with(bytes, &[0x25, 0x50, 0x44, 0x46, 0x2d]) {
        return None;
    }
    let at: usize = match rfind(bytes, &[0x25, 0x25, 0x45, 0x4f, 0x46]) {
        Some(at) => at,
        None => {
            return None;
        },
    };
    let n: usize = bytes.len();
    let mut end: usize = at + 5;
    while end < n && (bytes[end] == 0x0d || bytes[end] == 0x0a || bytes[end] == 0x20 || bytes[end]
        == 0x09 || bytes[end] == 0x1a)
        invariant
            n == bytes@.len(),
            at + 5 <= end <= n,
            forall|i: int| at + 5 <= i < end ==> pdf_filler(#[trigger] bytes@[i]),
        decreases n - end,
    {
        end += 1;
    }
    proof {
        assert(is_last_occurrence(bytes@, pdf_end_mark(), at as int));
        assert(is_pdf_end(bytes@, end as int));
        lemma_pdf_end_unique(bytes@, end as int, choose|e: int| is_pdf_end(bytes@, e));
    }
    Some(end as u64)
}

/// A document has one end at most.
pub proof fn lemma_pdf_end_unique(s: Seq<u8>, a: int, b: int)
    requires
        is_pdf_end(s, a),
        is_pdf_end(s, b),
    ensures
        a == b,
{
    let i = choose|at: int| #[trigger]
        is_last_occurrence(s, pdf_end_mark(), at) && at + 5 <= a <= s.len() && (forall|i: int|
            at + 5 <= i < a ==> pdf_filler(#[trigger] s[i])) && (a < s.len() ==> !pdf_filler(s[a]));
    let j = choose|at: int| #[trigger]
        is_last_occurrence(s, pdf_end_mark(), at) && at + 5 <= b <= s.len() && (forall|i: int|
            at + 5 <= i < b ==> pdf_filler(#[trigger] s[i])) && (b < s.len() ==> !pdf_filler(s[b]));
    if i < j {
        assert(!occurs_at(s, pdf_end_mark(), j));
    } else if j < i {
        assert(!occurs_at(s, pdf_end_mark(), i));
    }
    if a < b {
        assert(pdf_filler(s[a]));
    } else if b < a {
        assert(pdf_filler(s[b]));
    }
}

// ---------------------------------------------------------------------------
// PNG images: a chain of chunks from IHDR to IEND.

pub open spec fn is_letter(b: u8) -> bool {
    0x41 <= b <= 0x5a || 0x61 <= b <= 0x7a
}

pub open spec fn ihdr_mark() -> Seq<u8> {
    seq![0x49u8, 0x48, 0x44, 0x52]
}

pub open spec fn iend_mark() -> Seq<u8> {
    seq![0x49u8, 0x45, 0x4e, 0x44]
}

/// A chunk stands at `at`: its type is made of letters and its data lies in the file; a
/// header chunk has 13 bytes and a picture that is not empty.
pub open spec fn png_chunk_ok(s: Seq<u8>, at: int) -> bool {
    &&& at + 12 <= s.len()
    &&& is_letter(s[at + 4]) && is_letter(s[at + 5]) && is_letter(s[at + 6]) && is_letter(
        s[at + 7],
    )
    &&& at + 12 + be32(s, at) <= s.len()
    &&& occurs_at(s, ihdr_mark(), at + 4) ==> be32(s, at) == 13 && be32(s, at + 8) != 0 && be32(
        s,
        at + 12,
    ) != 0
}

/// The end of the image whose chunks go on at `at`.
pub open spec fn png_end(s: Seq<u8>, at: int, saw_header: bool) -> Option<int>
    decreases s.len() - at,
{
    if at < 0 || !png_chunk_ok(s, at) {
        None
    } else {
        let next = at + 12 + be32(s, at);
        let saw = saw_header || occurs_at(s, ihdr_mark(), at + 4);
        if occurs_at(s, iend_mark(), at + 4) {
            if saw {
                Some(next)
            } else {
                None
            }
        } else {
            png_end(s, next, saw)
        }
    }
}

/// The size of a PNG image.
pub open spec fn png_size(s: Seq<u8>) -> Option<int> {
    if marked(s, png_mark()) {
        png_end(s, 8, false)
    } else {
        None
    }
}

pub fn estimate_png_size(bytes: &[u8]) -> (r: Option<u64>)
    ensures
        match r {
            Some(n) => png_size(bytes@) == Some(n as int),
            None => png_size(bytes@) is None,
        },
{
    if !starts_with(bytes, &[0x89, 0x50, 0x4e, 0x47, 0x0d, 0x0a, 0x1a, 0x0a]) {
        return None;
    }
    let n: usize = bytes.len();
    let mut cursor: usize = 8;
    let mut saw_header: bool = false;
    while n - cursor >= 12
        invariant
            n == bytes@.len(),
            8 <= cursor <= n,
            marked(bytes@, png_mark()),
            png_size(bytes@) == png_end(bytes@, cursor as int, saw_header),
        decreases n - cursor,
    {
        let length: u64 = read_be32(bytes, cursor) as u64;
        let mut k: usize = 4;
        while k < 8
            invariant
                4 <= k <= 8,
                n == bytes@.len(),
                cursor + 12 <= n,
                marked(bytes@, png_mark()),
                png_size(bytes@) == png_end(bytes@, cursor as int, saw_header),
                forall|j: int| 4 <= j < k ==> is_letter(#[trigger] bytes@[cursor + j]),
            decreases 8 - k,
        {
            let b: u8 = bytes[cursor + k];
            if !((0x41 <= b && b <= 0x5a) || (0x61 <= b && b <= 0x7a)) {
                assert(!is_letter(bytes@[cursor + k]));
                return None;
            }
            k += 1;
        }
        assert(is_letter(bytes@[cursor + 4]) && is_letter(bytes@[cursor + 5]) && is_letter(
            bytes@[cursor + 6],
        ) && is_letter(bytes@[cursor + 7]));
        if ((n - cursor - 12) as u64) < length {
            return None;
        }
        if matches_at(bytes, &[0x49, 0x48, 0x44, 0x52], cursor + 4) {
            if length != 13 {
                return None;
            }
            let width: u32 = read_be32(bytes, cursor + 8);
            let height: u32 = read_be32(bytes, cursor + 12);
            if width == 0 || height == 0 {
                return None;
            }
            saw_header = true;
        }
        let is_end: bool = matches_at(bytes, &[0x49, 0x45, 0x4e, 0x44], cursor + 4);
        cursor = cursor + 12 + length as usize;
        if is_end {
            return if saw_header {
                Some(cursor as u64)
            } else {
                None
            };
        }
    }
    None
}

// ---------------------------------------------------------------------------
// JPEG images: a chain of marker segments up to the scan, then scan data up to EOI.

/// The first index from `at` on that does not hold 0xFF.
pub open spec fn skip_fill(s: Seq<u8>, at: int) -> int
    decreases s.len() - at,
{
    if 0 <= at < s.len() && s[at] == 0xff {
        skip_fill(s, at + 1)
    } else {
        at
    }
}

pub proof fn lemma_skip_fill(s: Seq<u8>, at: int)
    requires
        0 <= at <= s.len(),
    ensures
        at <= skip_fill(s, at) <= s.len(),
        at < s.len() && s[at] == 0xff ==> skip_fill(s, at) > at,
    decreases s.len() - at,
{
    if at < s.len() && s[at] == 0xff {
        lemma_skip_fill(s, at + 1);
    }
}

/// The end of the scan data that goes on at `at`: behind the first EOI marker that no
/// stuffed byte and no restart marker hides.
pub open spec fn jpeg_scan_end(s: Seq<u8>, at: int) -> Option<int>
    decreases s.len() - at,
{
    if at < 0 || at + 1 >= s.len() {
        None
    } else if s[at] != 0xff {
        jpeg_scan_end(s, at + 1)
    } else if s[at + 1] == 0x00 || 0xd0 <= s[at + 1] <= 0xd7 {
        jpeg_scan_end(s, at + 2)
    } else if s[at + 1] == 0xd9 {
        Some(at + 2)
    } else {
        jpeg_scan_end(s, at + 1)
    }
}

/// The end of the image whose markers go on at `at`.
pub open spec fn jpeg_end(s: Seq<u8>, at: int, saw_structure: bool) -> Option<int>
    decreases s.len() - at,
{
    if at < 0 || at + 1 >= s.len() || s[at] != 0xff {
        None
    } else {
        proof {
            lemma_skip_fill(s, at);
        }
        let m = skip_fill(s, at);
        if m >= s.len() {
            None
        } else if s[m] == 0xd8 {
            jpeg_end(s, m + 1, saw_structure)
        } else if s[m] == 0xd9 {
            if saw_structure {
                Some(m + 1)
            } else {
                None
            }
        } else if s[m] == 0xda {
            if saw_structure {
                jpeg_scan_end(s, m + 1)
            } else {
                None
            }
        } else if s[m] == 0x01 || 0xd0 <= s[m] <= 0xd7 {
            jpeg_end(s, m + 1, true)
        } else if m + 3 > s.len() || be16(s, m + 1) < 2 || m + 1 + be16(s, m + 1) > s.len() {
            None
        } else {
            jpeg_end(s, m + 1 + be16(s, m + 1), true)
        }
    }
}

/// The size of a JPEG image.
pub open spec fn jpeg_size(s: Seq<u8>) -> Option<int> {
    if s.len() < 4 || s[0] != 0xff || s[1] != 0xd8 || s[2] != 0xff {
        None
    } else {
        jpeg_end(s, 2, false)
    }
}

fn scan_jpeg_scan_data(bytes: &[u8], start: usize) -> (r: Option<usize>)
    requires
        start <= bytes@.len(),
    ensures
        match r {
            Some(end) => jpeg_scan_end(bytes@, start as int) == Some(end as int),
            None => jpeg_scan_end(bytes@, start as int) is None,
        },
{
    let n: usize = bytes.len();
    let mut cursor: usize = start;
    while cursor < n && n - cursor >= 2
        invariant
            n == bytes@.len(),
            start <= cursor <= n,
            jpeg_scan_end(bytes@, start as int) == jpeg_scan_end(bytes@, cursor as int),
        decreases n - cursor,
    {
        if bytes[cursor] != 0xff {
            cursor += 1;
            continue;
        }
        let b: u8 = bytes[cursor + 1];
        if b == 0x00 || (0xd0 <= b && b <= 0xd7) {
            cursor += 2;
        } else if b == 0xd9 {
            return Some(cursor + 2);
        } else {
            cursor += 1;
        }
    }
    None
}

pub fn estimate_jpeg_size(bytes: &[u8]) -> (r: Option<u64>)
    ensures
        match r {
            Some(n) => jpeg_size(bytes@) == Some(n as int),
            None => jpeg_size(bytes@) is None,
        },
{
    if bytes.len() < 4 || bytes[0] != 0xff || bytes[1] != 0xd8 || bytes[2] != 0xff {
        return None;
    }
    let n: usize = bytes.len();
    let mut cursor: usize = 2;
    let mut saw_structure: bool = false;
    while cursor < n && n - cursor >= 2
        invariant
            n == bytes@.len(),
            2 <= cursor <= n,
            jpeg_size(bytes@) == jpeg_end(bytes@, cursor as int, saw_structure),
        decreases n - cursor,
    {
        if bytes[cursor] != 0xff {
            return None;
        }
        let mut m: usize = cursor;
        proof {
            lemma_skip_fill(bytes@, cursor as int);
        }
        while m < n && bytes[m] == 0xff
            invariant
                n == bytes@.len(),
                cursor <= m <= n,
                skip_fill(bytes@, m as int) == skip_fill(bytes@, cursor as int),
            decreases n - m,
        {
            m += 1;
        }
        assert(m == skip_fill(bytes@, cursor as int));
        if m >= n {
            return None;
        }
        let marker: u8 = bytes[m];
        if marker == 0xd8 {
            cursor = m + 1;
            continue;
        }
        if marker == 0xd9 {
            return if saw_structure {
                Some((m + 1) as u64)
            } else {
                None
            };
        }
        if marker == 0xda {
            if !saw_structure {
                return None;
            }
            return match scan_jpeg_scan_data(bytes, m + 1) {
                Some(end) => Some(end as u64),
                None => None,
            };
        }
        if marker == 0x01 || (0xd0 <= marker && marker <= 0xd7) {
            saw_structure = true;
            cursor = m + 1;
            continue;
        }
        if n - m < 3 {
            return None;
        }
        let length: usize = read_be16(bytes, m + 1) as usize;
        if length < 2 || n - m - 1 < length {
            return None;
        }
        saw_structure = true;
        cursor = m + 1 + length;
    }
    None
}

// ---------------------------------------------------------------------------
// GIF images: a header, then extension and picture blocks up to the trailer.

/// The size of the colour table that a packed field announces.
pub open spec fn gif_table_size(packed: u8) -> int {
    if packed & 0x80u8 != 0 {
        3 * (1usize << ((packed & 0x07u8) + 1) as usize)
    } else {
        0
    }
}

fn gif_table_bytes(packed: u8) -> (r: usize)
    ensures
        r == gif_table_size(packed),
        r <= 768,
{
    if packed & 0x80 != 0 {
        assert(packed & 0x07u8 <= 7) by (bit_vector);
        let bits: usize = ((packed & 0x07) + 1) as usize;
        assert(1usize << bits <= 256) by (bit_vector)
            requires
                bits <= 8,
        ;
        3 * (1usize << bits)
    } else {
        0
    }
}

/// Where the sub-blocks that start at `at` end: behind the first empty one.
pub open spec fn gif_blocks_end(s: Seq<u8>, at: int) -> Option<int>
    decreases s.len() - at,
{
    if at < 0 || at >= s.len() {
        None
    } else if s[at] == 0 {
        Some(at + 1)
    } else if at + 1 + s[at] > s.len() {
        None
    } else {
        gif_blocks_end(s, at + 1 + s[at])
    }
}

proof fn lemma_gif_blocks_end(s: Seq<u8>, at: int)
    ensures
        gif_blocks_end(s, at) matches Some(end) ==> at < end <= s.len(),
    decreases s.len() - at,
{
    if 0 <= at < s.len() && s[at] != 0 && at + 1 + s[at] <= s.len() {
        lemma_gif_blocks_end(s, at + 1 + s[at]);
    }
}

/// Where the block that starts at `at` ends.
pub open spec fn gif_block_end(s: Seq<u8>, at: int) -> Option<int> {
    if s[at] == 0x21 {
        if at + 1 >= s.len() {
            None
        } else {
            gif_blocks_end(s, at + 2)
        }
    } else if s[at] == 0x2c {
        if at + 10 > s.len() {
            None
        } else {
            let data = at + 10 + gif_table_size(s[at + 9]);
            if data >= s.len() {
                None
            } else {
                gif_blocks_end(s, data + 1)
            }
        }
    } else {
        None
    }
}

/// The end of the image whose blocks go on at `at`.
pub open spec fn gif_end(s: Seq<u8>, at: int) -> Option<int>
    decreases s.len() - at,
{
    if at < 0 || at >= s.len() {
        None
    } else if s[at] == 0x3b {
        Some(at + 1)
    } else {
        proof {
            lemma_gif_block_end(s, at);
        }
        match gif_block_end(s, at) {
            Some(next) => gif_end(s, next),
            None => None,
        }
    }
}

pub proof fn lemma_gif_block_end(s: Seq<u8>, at: int)
    requires
        0 <= at < s.len(),
    ensures
        gif_block_end(s, at) matches Some(next) ==> at < next <= s.len(),
{
    lemma_gif_blocks_end(s, at + 2);
    if at + 10 <= s.len() {
        lemma_gif_table_size(s[at + 9]);
        lemma_gif_blocks_end(s, at + 10 + gif_table_size(s[at + 9]) + 1);
    }
}

proof fn lemma_gif_table_size(packed: u8)
    ensures
        0 <= gif_table_size(packed) <= 768,
{
    let bits: usize = ((packed & 0x07u8) + 1) as usize;
    assert(packed & 0x07u8 <= 7) by (bit_vector);
    assert(1usize << bits <= 256) by (bit_vector)
        requires
            bits <= 8,
    ;
}

/// The size of a GIF image.
pub open spec fn gif_size(s: Seq<u8>) -> Option<int> {
    if s.len() < 13 || !(marked(s, gif87_mark()) || marked(s, gif89_mark())) {
        None
    } else {
        gif_end(s, 13 + gif_table_size(s[10]))
    }
}

fn skip_gif_sub_blocks(bytes: &[u8], start: usize) -> (r: Option<usize>)
    ensures
        match r {
            Some(end) => gif_blocks_end(bytes@, start as int) == Some(end as int) && start < end
                <= bytes@.len(),
            None => gif_blocks_end(bytes@, start as int) is None,
        },
{
    let n: usize = bytes.len();
    let mut cursor: usize = start;
    while cursor < n
        invariant
            n == bytes@.len(),
            start <= cursor,
            gif_blocks_end(bytes@, start as int) == gif_blocks_end(bytes@, cursor as int),
        decreases n - cursor,
    {
        let block: usize = bytes[cursor] as usize;
        if block == 0 {
            return Some(cursor + 1);
        }
        if n - cursor - 1 < block {
            return None;
        }
        cursor = cursor + 1 + block;
    }
    None
}

pub fn estimate_gif_size(bytes: &[u8]) -> (r: Option<u64>)
    ensures
        match r {
            Some(n) => gif_size(bytes@) == Some(n as int),
            None => gif_size(bytes@) is None,
        },
{
    if bytes.len() < 13 || !(starts_with(bytes, &[0x47, 0x49, 0x46, 0x38, 0x37, 0x61])
        || starts_with(bytes, &[0x47, 0x49, 0x46, 0x38, 0x39, 0x61])) {
        return None;
    }
    let n: usize = bytes.len();
    let mut cursor: usize = 13 + gif_table_bytes(bytes[10]);
    while cursor < n
        invariant
            n == bytes@.len(),
            gif_size(bytes@) == gif_end(bytes@, cursor as int),
        decreases n - cursor,
    {
        let b: u8 = bytes[cursor];
        if b == 0x3b {
            return Some((cursor + 1) as u64);
        }
        let data: usize = if b == 0x21 {
            if n - cursor < 2 {
                return None;
            }
            cursor + 1
        } else if b == 0x2c {
            if n - cursor < 10 {
                return None;
            }
            let table: usize = gif_table_bytes(bytes[cursor + 9]);
            if n - cursor - 10 <= table {
                return None;
            }
            cursor + 10 + table
        } else {
            return None;
        };
        match skip_gif_sub_blocks(bytes, data + 1) {
            Some(next) => {
                cursor = next;
            },
            None => {
                return None;
            },
        }
    }
    None
}

} // verus!
