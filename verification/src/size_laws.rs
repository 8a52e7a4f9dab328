//! What the sizes of files mean, by the layouts of their formats: a file that is laid out as its
//! format says, with anything behind it, has the size that it was laid out with.

use crate::bytes::{
    be32, be_bytes, is_last_occurrence, laid_at, le_bytes, lemma_be16_reads_back,
    lemma_be32_reads_back, lemma_le16_reads_back, lemma_le32_reads_back, lemma_le64_reads_back,
    occurs_at,
};
use crate::kinds::pe_offset;
use crate::sizes::{
    cab_size, gif_block_end, gif_blocks_end, gif_end, gif_size, gif_table_size, ihdr_mark,
    iend_mark, is_letter, is_pdf_end, is_rar_end, is_zip_end, jpeg_end, jpeg_scan_end, jpeg_size,
    lemma_pdf_end_unique, lemma_rar_end_unique, lemma_zip_end_unique, pdf_end_mark, pdf_size,
    pe_size, png_chunk_ok, png_end, png_size, rar_footer, rar_size, sections_end, seven_zip_size,
    skip_fill, zip_end_mark, zip_size,
};
use vstd::prelude::*;

verus! {

/// A pattern that lies at a place occurs there.
proof fn lemma_laid_occurs(s: Seq<u8>, at: int, part: Seq<u8>)
    ensures
        laid_at(s, at, part) <==> occurs_at(s, part, at),
{
    if laid_at(s, at, part) {
        assert(s.subrange(at, at + part.len()) =~= part);
    }
    if occurs_at(s, part, at) {
        assert forall|k: int| 0 <= k < part.len() implies s[at + k] == #[trigger] part[k] by {
            assert(s.subrange(at, at + part.len())[k] == part[k]);
        }
    }
}

// ---------------------------------------------------------------------------
// PE images.

/// A section of an image: where its data lies in the file, and how much of it.
pub struct RawSection {
    pub raw_offset: u32,
    pub raw_size: u32,
}

/// An image with these sections: `MZ`, the place of the PE header at 0x3c, there `PE`, the number
/// of sections, the size of the optional header, and behind that a table of 40 bytes for each
/// section, with the size of its data at byte 16 and its place at byte 20.
pub open spec fn is_pe_layout(
    s: Seq<u8>,
    header: u32,
    optional: u16,
    sections: Seq<RawSection>,
) -> bool {
    &&& s.len() >= 0x40
    &&& laid_at(s, 0, seq![0x4du8, 0x5a])
    &&& laid_at(s, 0x3c, le_bytes(header as int, 4))
    &&& laid_at(s, header as int, seq![0x50u8, 0x45, 0, 0])
    &&& sections.len() <= 0xffff
    &&& laid_at(s, header + 6, le_bytes(sections.len() as int, 2))
    &&& laid_at(s, header + 20, le_bytes(optional as int, 2))
    &&& header + 24 + optional + 40 * sections.len() <= s.len()
    &&& forall|i: int|
        0 <= i < sections.len() ==> laid_at(
            s,
            header + 24 + optional + 40 * i + 16,
            le_bytes((#[trigger] sections[i]).raw_size as int, 4),
        ) && laid_at(
            s,
            header + 24 + optional + 40 * i + 20,
            le_bytes(sections[i].raw_offset as int, 4),
        )
}

proof fn lemma_sections_end(
    s: Seq<u8>,
    header: u32,
    optional: u16,
    sections: Seq<RawSection>,
    n: int,
)
    requires
        is_pe_layout(s, header, optional, sections),
        0 <= n <= sections.len(),
    ensures
        ({
            let table = header + 24 + optional;
            let end = sections_end(s, table, n, table);
            &&& end >= table
            &&& forall|i: int|
                0 <= i < n ==> end >= (#[trigger] sections[i]).raw_offset + sections[i].raw_size
            &&& end == table || exists|i: int|
                0 <= i < n && end == (#[trigger] sections[i]).raw_offset + sections[i].raw_size
        }),
    decreases n,
{
    if n > 0 {
        lemma_sections_end(s, header, optional, sections, n - 1);
        let table = header + 24 + optional;
        let entry = table + 40 * (n - 1);
        let last = sections[n - 1];
        lemma_le32_reads_back(s, entry + 16, last.raw_size as int);
        lemma_le32_reads_back(s, entry + 20, last.raw_offset as int);
        let before = sections_end(s, table, n - 1, table);
        let end = sections_end(s, table, n, table);
        if end == before && before != table {
            let i = choose|i: int|
                0 <= i < n - 1 && before == (#[trigger] sections[i]).raw_offset
                    + sections[i].raw_size;
            assert(end == sections[i].raw_offset + sections[i].raw_size);
        } else if end != before {
            assert(end == sections[n - 1].raw_offset + sections[n - 1].raw_size);
        }
    }
}

/// The size of an image is the end of the data of the section that ends last in the file, or the
/// start of the section table where that lies behind it; no image is taken to be larger than
/// 128 MiB. How large the sections are in memory plays no part.
pub proof fn lemma_pe_size_is_the_end_of_its_data(
    s: Seq<u8>,
    header: u32,
    optional: u16,
    sections: Seq<RawSection>,
)
    requires
        is_pe_layout(s, header, optional, sections),
    ensures
        pe_size(s) matches Some(n) && {
            &&& 0 <= n <= 0x800_0000
            &&& n < 0x800_0000 ==> n >= header + 24 + optional && forall|i: int|
                0 <= i < sections.len() ==> n >= (#[trigger] sections[i]).raw_offset
                    + sections[i].raw_size
            &&& n == 0x800_0000 || n == header + 24 + optional || exists|i: int|
                0 <= i < sections.len() && n == (#[trigger] sections[i]).raw_offset
                    + sections[i].raw_size
            &&& forall|i: int|
                0 <= i < sections.len() && (#[trigger] sections[i]).raw_offset
                    + sections[i].raw_size >= 0x800_0000 ==> n == 0x800_0000
            &&& header + 24 + optional < 0x800_0000 && (forall|i: int|
                0 <= i < sections.len() ==> (#[trigger] sections[i]).raw_offset
                    + sections[i].raw_size < 0x800_0000) ==> n < 0x800_0000
        },
{
    lemma_laid_occurs(s, 0, seq![0x4du8, 0x5a]);
    lemma_laid_occurs(s, header as int, seq![0x50u8, 0x45, 0, 0]);
    lemma_le32_reads_back(s, 0x3c, header as int);
    lemma_le16_reads_back(s, header + 6, sections.len() as int);
    lemma_le16_reads_back(s, header + 20, optional as int);
    lemma_sections_end(s, header, optional, sections, sections.len() as int);
    assert(pe_offset(s) == Some(header as int));
    let table = header + 24 + optional;
    let end = sections_end(s, table, sections.len() as int, table);
    if end != table {
        let i = choose|i: int|
            0 <= i < sections.len() && end == (#[trigger] sections[i]).raw_offset
                + sections[i].raw_size;
        assert(end == sections[i].raw_offset + sections[i].raw_size);
    }
}

// ---------------------------------------------------------------------------
// Archives.

/// A ZIP archive ends behind its last end record and the comment whose length that record gives
/// in its last two bytes.
pub proof fn lemma_zip_size_is_where_it_ends(s: Seq<u8>, end_record: int, comment: u16)
    requires
        s.len() >= 32,
        laid_at(s, 0, seq![0x50u8, 0x4b, 0x03, 0x04]),
        laid_at(s, end_record, seq![0x50u8, 0x4b, 0x05, 0x06]),
        forall|j: int| j > end_record ==> !laid_at(s, j, seq![0x50u8, 0x4b, 0x05, 0x06]),
        laid_at(s, end_record + 20, le_bytes(comment as int, 2)),
        end_record + 22 + comment <= s.len(),
    ensures
        zip_size(s) == Some(end_record + 22 + comment),
{
    let mark = seq![0x50u8, 0x4b, 0x05, 0x06];
    lemma_laid_occurs(s, 0, seq![0x50u8, 0x4b, 0x03, 0x04]);
    lemma_laid_occurs(s, end_record, mark);
    lemma_le16_reads_back(s, end_record + 20, comment as int);
    assert(is_last_occurrence(s, zip_end_mark(), end_record)) by {
        assert forall|j: int| j > end_record implies !occurs_at(s, zip_end_mark(), j) by {
            lemma_laid_occurs(s, j, mark);
        }
    }
    let end = end_record + 22 + comment;
    assert(is_zip_end(s, end));
    lemma_zip_end_unique(s, end, choose|e: int| is_zip_end(s, e));
}

/// A 7z archive ends behind its last header, whose place and size its first 32 bytes give.
pub proof fn lemma_seven_zip_size_is_where_it_ends(s: Seq<u8>, place: u64, size: u64)
    requires
        s.len() >= 32,
        laid_at(s, 0, seq![0x37u8, 0x7a, 0xbc, 0xaf, 0x27, 0x1c]),
        laid_at(s, 12, le_bytes(place as int, 8)),
        laid_at(s, 20, le_bytes(size as int, 8)),
    ensures
        seven_zip_size(s) == Some(32 + place + size),
{
    lemma_laid_occurs(s, 0, seq![0x37u8, 0x7a, 0xbc, 0xaf, 0x27, 0x1c]);
    lemma_le64_reads_back(s, 12, place as int);
    lemma_le64_reads_back(s, 20, size as int);
}

/// A cabinet has the size that stands at byte 8 of its header.
pub proof fn lemma_cab_size_is_in_its_header(s: Seq<u8>, size: u32)
    requires
        s.len() >= 16,
        laid_at(s, 0, seq![0x4du8, 0x53, 0x43, 0x46]),
        laid_at(s, 8, le_bytes(size as int, 4)),
    ensures
        cab_size(s) == Some(size as int),
{
    lemma_laid_occurs(s, 0, seq![0x4du8, 0x53, 0x43, 0x46]);
    lemma_le32_reads_back(s, 8, size as int);
}

/// A RAR archive ends behind the last of the blocks that end one, which its version tells.
pub proof fn lemma_rar_size_is_where_it_ends(s: Seq<u8>, at: int, fifth: bool)
    requires
        fifth ==> laid_at(s, 0, seq![0x52u8, 0x61, 0x72, 0x21, 0x1a, 0x07, 0x01, 0x00]) && laid_at(
            s,
            at,
            seq![0x1du8, 0x77, 0x56, 0x51, 0x03, 0x05, 0x04, 0x00],
        ) && forall|j: int|
            j > at ==> !laid_at(s, j, seq![0x1du8, 0x77, 0x56, 0x51, 0x03, 0x05, 0x04, 0x00]),
        !fifth ==> laid_at(s, 0, seq![0x52u8, 0x61, 0x72, 0x21, 0x1a, 0x07, 0x00]) && laid_at(
            s,
            at,
            seq![0xc4u8, 0x3d, 0x7b, 0x00, 0x40, 0x07, 0x00],
        ) && forall|j: int|
            j > at ==> !laid_at(s, j, seq![0xc4u8, 0x3d, 0x7b, 0x00, 0x40, 0x07, 0x00]),
    ensures
        rar_size(s) == Some(
            at + if fifth {
                8int
            } else {
                7int
            },
        ),
{
    let five = seq![0x52u8, 0x61, 0x72, 0x21, 0x1a, 0x07, 0x01, 0x00];
    let four = seq![0x52u8, 0x61, 0x72, 0x21, 0x1a, 0x07, 0x00];
    lemma_laid_occurs(s, 0, five);
    lemma_laid_occurs(s, 0, four);
    if !fifth {
        assert(s[0int + 6] == four[6]);
        assert(!laid_at(s, 0, five)) by {
            if laid_at(s, 0, five) {
                assert(s[0int + 6] == five[6]);
            }
        }
    }
    let footer = if fifth {
        seq![0x1du8, 0x77, 0x56, 0x51, 0x03, 0x05, 0x04, 0x00]
    } else {
        seq![0xc4u8, 0x3d, 0x7b, 0x00, 0x40, 0x07, 0x00]
    };
    assert(rar_footer(s) == Some(footer));
    lemma_laid_occurs(s, at, footer);
    assert forall|j: int| j > at implies !occurs_at(s, footer, j) by {
        lemma_laid_occurs(s, j, footer);
    }
    let end = at + footer.len();
    assert(is_last_occurrence(s, footer, end - footer.len()));
    assert(is_rar_end(s, end));
    lemma_rar_end_unique(s, end, choose|e: int| is_rar_end(s, e));
}

/// A PDF document ends behind its last `%%EOF` and the line ends, blanks, tabs and end-of-file
/// bytes that follow it.
pub proof fn lemma_pdf_size_is_where_it_ends(s: Seq<u8>, at: int, end: int)
    requires
        s.len() >= 8,
        laid_at(s, 0, seq![0x25u8, 0x50, 0x44, 0x46, 0x2d]),
        laid_at(s, at, seq![0x25u8, 0x25, 0x45, 0x4f, 0x46]),
        forall|j: int| j > at ==> !laid_at(s, j, seq![0x25u8, 0x25, 0x45, 0x4f, 0x46]),
        at + 5 <= end <= s.len(),
        forall|k: int|
            at + 5 <= k < end ==> #[trigger] s[k] == 13 || s[k] == 10 || s[k] == 32 || s[k] == 9
                || s[k] == 26,
        end < s.len() ==> s[end] != 13 && s[end] != 10 && s[end] != 32 && s[end] != 9 && s[end]
            != 26,
    ensures
        pdf_size(s) == Some(end),
{
    let mark = seq![0x25u8, 0x25, 0x45, 0x4f, 0x46];
    lemma_laid_occurs(s, 0, seq![0x25u8, 0x50, 0x44, 0x46, 0x2d]);
    lemma_laid_occurs(s, at, mark);
    assert forall|j: int| j > at implies !occurs_at(s, pdf_end_mark(), j) by {
        lemma_laid_occurs(s, j, mark);
    }
    assert(is_last_occurrence(s, pdf_end_mark(), at));
    assert(is_pdf_end(s, end));
    lemma_pdf_end_unique(s, end, choose|e: int| is_pdf_end(s, e));
}

// ---------------------------------------------------------------------------
// PNG images.

/// A chunk of an image: the four letters of its type, its data and its checksum.
pub struct PngChunk {
    pub kind: Seq<u8>,
    pub data: Seq<u8>,
    pub checksum: Seq<u8>,
}

pub open spec fn is_png_chunk(c: PngChunk) -> bool {
    &&& c.kind.len() == 4 && c.checksum.len() == 4
    &&& forall|k: int|
        0 <= k < 4 ==> 0x41 <= #[trigger] c.kind[k] <= 0x5a || 0x61 <= c.kind[k] <= 0x7a
    &&& c.data.len() < 0x1_0000_0000
}

/// The chunks lie one behind the other from `at` on, each as its length, its type, its data and
/// its checksum.
pub open spec fn png_chunks_at(s: Seq<u8>, at: int, chunks: Seq<PngChunk>) -> bool
    decreases chunks.len(),
{
    chunks.len() == 0 || {
        let c = chunks[0];
        &&& laid_at(s, at, be_bytes(c.data.len() as int, 4))
        &&& laid_at(s, at + 4, c.kind)
        &&& laid_at(s, at + 8, c.data)
        &&& laid_at(s, at + 8 + c.data.len(), c.checksum)
        &&& png_chunks_at(s, at + 12 + c.data.len(), chunks.drop_first())
    }
}

/// How many bytes chunks take.
pub open spec fn png_chunks_length(chunks: Seq<PngChunk>) -> int
    decreases chunks.len(),
{
    if chunks.len() == 0 {
        0
    } else {
        12 + chunks[0].data.len() + png_chunks_length(chunks.drop_first())
    }
}

proof fn lemma_png_chunk(s: Seq<u8>, at: int, c: PngChunk)
    requires
        0 <= at,
        is_png_chunk(c),
        laid_at(s, at, be_bytes(c.data.len() as int, 4)),
        laid_at(s, at + 4, c.kind),
        laid_at(s, at + 8, c.data),
        laid_at(s, at + 8 + c.data.len(), c.checksum),
    ensures
        be32(s, at) == c.data.len(),
        at + 12 + c.data.len() <= s.len(),
        is_letter(s[at + 4]) && is_letter(s[at + 5]) && is_letter(s[at + 6]) && is_letter(
            s[at + 7],
        ),
        occurs_at(s, ihdr_mark(), at + 4) <==> c.kind == seq![0x49u8, 0x48, 0x44, 0x52],
        occurs_at(s, iend_mark(), at + 4) <==> c.kind == seq![0x49u8, 0x45, 0x4e, 0x44],
{
    lemma_be32_reads_back(s, at, c.data.len() as int);
    assert(s[at + 4 + 0] == c.kind[0] && s[at + 4 + 1] == c.kind[1] && s[at + 4 + 2] == c.kind[2]
        && s[at + 4 + 3] == c.kind[3]);
    assert(s.subrange(at + 4, at + 8) =~= c.kind);
}

proof fn lemma_png_end(s: Seq<u8>, at: int, chunks: Seq<PngChunk>, saw: bool)
    requires
        0 <= at,
        chunks.len() > 0,
        png_chunks_at(s, at, chunks),
        forall|i: int| 0 <= i < chunks.len() ==> is_png_chunk(#[trigger] chunks[i]),
        saw,
        forall|i: int|
            0 <= i < chunks.len() ==> (#[trigger] chunks[i]).kind != seq![0x49u8, 0x48, 0x44, 0x52],
        forall|i: int|
            0 <= i < chunks.len() ==> ((#[trigger] chunks[i]).kind == seq![0x49u8, 0x45, 0x4e, 0x44]
                <==> i == chunks.len() - 1),
    ensures
        png_end(s, at, saw) == Some(at + png_chunks_length(chunks)),
    decreases chunks.len(),
{
    let c = chunks[0];
    let rest = chunks.drop_first();
    lemma_png_chunk(s, at, c);
    assert(png_chunk_ok(s, at));
    if chunks.len() > 1 {
        assert forall|i: int| 0 <= i < rest.len() implies is_png_chunk(#[trigger] rest[i])
            && rest[i].kind != seq![0x49u8, 0x48, 0x44, 0x52] && (rest[i].kind == seq![
            0x49u8,
            0x45,
            0x4e,
            0x44,
        ] <==> i == rest.len() - 1) by {
            assert(rest[i] == chunks[i + 1]);
        }
        lemma_png_end(s, at + 12 + c.data.len(), rest, saw);
    } else {
        assert(png_chunks_length(rest) == 0);
    }
}

/// A PNG image is as long as its signature and its chunks, from `IHDR` to `IEND`: what follows
/// does not count.
pub proof fn lemma_png_size_is_that_of_its_chunks(s: Seq<u8>, chunks: Seq<PngChunk>)
    requires
        laid_at(s, 0, seq![0x89u8, 0x50, 0x4e, 0x47, 0x0d, 0x0a, 0x1a, 0x0a]),
        png_chunks_at(s, 8, chunks),
        chunks.len() >= 2,
        forall|i: int| 0 <= i < chunks.len() ==> is_png_chunk(#[trigger] chunks[i]),
        forall|i: int|
            0 <= i < chunks.len() ==> ((#[trigger] chunks[i]).kind == seq![0x49u8, 0x48, 0x44, 0x52]
                <==> i == 0),
        forall|i: int|
            0 <= i < chunks.len() ==> ((#[trigger] chunks[i]).kind == seq![0x49u8, 0x45, 0x4e, 0x44]
                <==> i == chunks.len() - 1),
        chunks[0].data.len() == 13,
        exists|k: int| 0 <= k < 4 && #[trigger] chunks[0].data[k] != 0,
        exists|k: int| 4 <= k < 8 && #[trigger] chunks[0].data[k] != 0,
    ensures
        png_size(s) == Some(8 + png_chunks_length(chunks)),
{
    let c = chunks[0];
    let rest = chunks.drop_first();
    lemma_laid_occurs(s, 0, seq![0x89u8, 0x50, 0x4e, 0x47, 0x0d, 0x0a, 0x1a, 0x0a]);
    lemma_png_chunk(s, 8, c);
    assert(forall|k: int| 0 <= k < 13 ==> s[16int + k] == #[trigger] c.data[k]);
    assert(s[16int + 0] == c.data[0] && s[16int + 1] == c.data[1] && s[16int + 2] == c.data[2] && s[16int + 3]
        == c.data[3] && s[16int + 4] == c.data[4] && s[16int + 5] == c.data[5] && s[16int + 6] == c.data[6]
        && s[16int + 7] == c.data[7]);
    let w = choose|k: int| 0 <= k < 4 && #[trigger] chunks[0].data[k] != 0;
    let h = choose|k: int| 4 <= k < 8 && #[trigger] chunks[0].data[k] != 0;
    assert(be32(s, 16) != 0) by {
        assert(w == 0 || w == 1 || w == 2 || w == 3);
    }
    assert(be32(s, 20) != 0) by {
        assert(h == 4 || h == 5 || h == 6 || h == 7);
    }
    assert(png_chunk_ok(s, 8));
    assert forall|i: int| 0 <= i < rest.len() implies is_png_chunk(#[trigger] rest[i])
        && rest[i].kind != seq![0x49u8, 0x48, 0x44, 0x52] && (rest[i].kind == seq![
        0x49u8,
        0x45,
        0x4e,
        0x44,
    ] <==> i == rest.len() - 1) by {
        assert(rest[i] == chunks[i + 1]);
    }
    lemma_png_end(s, 20int + c.data.len(), rest, true);
}

// ---------------------------------------------------------------------------
// JPEG images.

/// A marker segment of an image: its marker and its data.
pub struct JpegSegment {
    pub marker: u8,
    pub data: Seq<u8>,
}

/// A segment with a length: no fill byte, no start, end or scan of an image, no restart.
pub open spec fn is_jpeg_segment(g: JpegSegment) -> bool {
    &&& g.marker != 0xff && g.marker != 0x01 && !(0xd0 <= g.marker <= 0xda)
    &&& g.data.len() + 2 < 0x1_0000
}

/// The segments lie one behind the other from `at` on, each as its marker, its length with that
/// of the length itself, and its data.
pub open spec fn jpeg_segments_at(s: Seq<u8>, at: int, segments: Seq<JpegSegment>) -> bool
    decreases segments.len(),
{
    segments.len() == 0 || {
        let g = segments[0];
        &&& laid_at(s, at, seq![0xffu8, g.marker])
        &&& laid_at(s, at + 2, be_bytes(2int + g.data.len(), 2))
        &&& laid_at(s, at + 4, g.data)
        &&& jpeg_segments_at(s, at + 4 + g.data.len(), segments.drop_first())
    }
}

/// How many bytes segments take.
pub open spec fn jpeg_segments_length(segments: Seq<JpegSegment>) -> int
    decreases segments.len(),
{
    if segments.len() == 0 {
        0
    } else {
        4 + segments[0].data.len() + jpeg_segments_length(segments.drop_first())
    }
}

/// Scan data in which every 0xff is a stuffed byte or a restart marker.
pub open spec fn is_scan_data(data: Seq<u8>) -> bool {
    forall|k: int|
        0 <= k < data.len() && #[trigger] data[k] == 0xff ==> k + 1 < data.len() && (data[k + 1]
            == 0 || 0xd0 <= data[k + 1] <= 0xd7)
}

proof fn lemma_jpeg_scan(s: Seq<u8>, at: int, data: Seq<u8>, k: int)
    requires
        laid_at(s, at, data),
        is_scan_data(data),
        0 <= k <= data.len(),
        k > 0 ==> data[k - 1] != 0xff,
        laid_at(s, at + data.len(), seq![0xffu8, 0xd9]),
    ensures
        jpeg_scan_end(s, at + k) == Some(at + data.len() + 2),
    decreases data.len() - k,
{
    if k == data.len() {
        let mark = seq![0xffu8, 0xd9];
        assert(s[at + data.len() + 0] == mark[0] && s[at + data.len() + 1] == mark[1]);
    } else {
        assert(s[at + k] == data[k]);
        if data[k] == 0xff {
            assert(s[at + (k + 1)] == data[k + 1]);
            lemma_jpeg_scan(s, at, data, k + 2);
        } else {
            lemma_jpeg_scan(s, at, data, k + 1);
        }
    }
}

proof fn lemma_jpeg_end(s: Seq<u8>, at: int, segments: Seq<JpegSegment>, data: Seq<u8>, saw: bool)
    requires
        0 <= at,
        jpeg_segments_at(s, at, segments),
        forall|i: int| 0 <= i < segments.len() ==> is_jpeg_segment(#[trigger] segments[i]),
        saw || segments.len() > 0,
        laid_at(s, at + jpeg_segments_length(segments), seq![0xffu8, 0xda]),
        laid_at(s, at + jpeg_segments_length(segments) + 2, data),
        is_scan_data(data),
        laid_at(s, at + jpeg_segments_length(segments) + 2 + data.len(), seq![0xffu8, 0xd9]),
    ensures
        jpeg_end(s, at, saw) == Some(at + jpeg_segments_length(segments) + 2 + data.len() + 2),
    decreases segments.len(),
{
    if segments.len() == 0 {
        let mark = seq![0xffu8, 0xda];
        assert(s[at + 0] == mark[0] && s[at + 1] == mark[1]);
        assert(skip_fill(s, at + 1) == at + 1);
        assert(skip_fill(s, at) == at + 1);
        lemma_jpeg_scan(s, at + 2, data, 0);
    } else {
        let g = segments[0];
        let rest = segments.drop_first();
        let mark = seq![0xffu8, g.marker];
        assert(s[at + 0] == mark[0] && s[at + 1] == mark[1]);
        assert(skip_fill(s, at + 1) == at + 1);
        assert(skip_fill(s, at) == at + 1);
        lemma_be16_reads_back(s, at + 2, 2int + g.data.len());
        assert forall|i: int| 0 <= i < rest.len() implies is_jpeg_segment(#[trigger] rest[i]) by {
            assert(rest[i] == segments[i + 1]);
        }
        let next = at + 4 + g.data.len();
        lemma_jpeg_end(s, next, rest, data, true);
    }
}

/// A JPEG image is as long as its segments, its scan and the marker that ends it: stuffed bytes
/// and restart markers in the scan do not end it, and what follows does not count.
pub proof fn lemma_jpeg_size_is_that_of_its_parts(
    s: Seq<u8>,
    segments: Seq<JpegSegment>,
    data: Seq<u8>,
)
    requires
        laid_at(s, 0, seq![0xffu8, 0xd8]),
        segments.len() > 0,
        jpeg_segments_at(s, 2, segments),
        forall|i: int| 0 <= i < segments.len() ==> is_jpeg_segment(#[trigger] segments[i]),
        laid_at(s, 2 + jpeg_segments_length(segments), seq![0xffu8, 0xda]),
        laid_at(s, 4 + jpeg_segments_length(segments), data),
        is_scan_data(data),
        laid_at(s, 4 + jpeg_segments_length(segments) + data.len(), seq![0xffu8, 0xd9]),
    ensures
        jpeg_size(s) == Some(2 + jpeg_segments_length(segments) + 2 + data.len() + 2),
{
    let start = seq![0xffu8, 0xd8];
    assert(s[0int + 0] == start[0] && s[0int + 1] == start[1]);
    let mark = seq![0xffu8, segments[0].marker];
    assert(s[2int + 0] == mark[0]);
    lemma_jpeg_end(s, 2, segments, data, false);
}

// ---------------------------------------------------------------------------
// GIF images.

/// Blocks of data lie from `at` on, each behind its length, and an empty one ends them.
pub open spec fn gif_data_at(s: Seq<u8>, at: int, blocks: Seq<Seq<u8>>) -> bool
    decreases blocks.len(),
{
    if blocks.len() == 0 {
        laid_at(s, at, seq![0u8])
    } else {
        &&& 1 <= blocks[0].len() <= 255
        &&& laid_at(s, at, seq![blocks[0].len() as u8])
        &&& laid_at(s, at + 1, blocks[0])
        &&& gif_data_at(s, at + 1 + blocks[0].len(), blocks.drop_first())
    }
}

/// How many bytes blocks of data take, with the empty one that ends them.
pub open spec fn gif_data_length(blocks: Seq<Seq<u8>>) -> int
    decreases blocks.len(),
{
    if blocks.len() == 0 {
        1
    } else {
        1 + blocks[0].len() + gif_data_length(blocks.drop_first())
    }
}

/// A block of an image: an extension with a label, or a picture with its place, its colours and
/// the size of its codes.
pub enum GifBlock {
    Extension { label: u8, data: Seq<Seq<u8>> },
    Picture { place: Seq<u8>, packed: u8, colours: Seq<u8>, code_size: u8, data: Seq<Seq<u8>> },
}

/// The colours that a packed field announces: three bytes for each of them, and twice as many
/// for each step of the lower three bits; none where the highest bit is not set.
pub open spec fn colours_length(packed: u8) -> int {
    if packed < 128 {
        0
    } else if packed % 8 == 0 {
        6
    } else if packed % 8 == 1 {
        12
    } else if packed % 8 == 2 {
        24
    } else if packed % 8 == 3 {
        48
    } else if packed % 8 == 4 {
        96
    } else if packed % 8 == 5 {
        192
    } else if packed % 8 == 6 {
        384
    } else {
        768
    }
}

proof fn lemma_colours_length(packed: u8)
    ensures
        gif_table_size(packed) == colours_length(packed),
{
    assert(packed & 0x80u8 != 0 <==> packed >= 128) by (bit_vector);
    assert(packed & 0x07u8 == packed % 8) by (bit_vector);
    assert(1usize << 1usize == 2 && 1usize << 2usize == 4 && 1usize << 3usize == 8 && 1usize
        << 4usize == 16 && 1usize << 5usize == 32 && 1usize << 6usize == 64 && 1usize << 7usize
        == 128 && 1usize << 8usize == 256) by (bit_vector);
}

pub open spec fn gif_block_at(s: Seq<u8>, at: int, b: GifBlock) -> bool {
    match b {
        GifBlock::Extension { label, data } => {
            &&& laid_at(s, at, seq![0x21u8, label])
            &&& gif_data_at(s, at + 2, data)
        },
        GifBlock::Picture { place, packed, colours, code_size, data } => {
            &&& place.len() == 8 && colours.len() == colours_length(packed)
            &&& laid_at(s, at, seq![0x2cu8])
            &&& laid_at(s, at + 1, place)
            &&& laid_at(s, at + 9, seq![packed])
            &&& laid_at(s, at + 10, colours)
            &&& laid_at(s, at + 10 + colours.len(), seq![code_size])
            &&& gif_data_at(s, at + 11 + colours.len(), data)
        },
    }
}

pub open spec fn gif_block_length(b: GifBlock) -> int {
    match b {
        GifBlock::Extension { label, data } => 2 + gif_data_length(data),
        GifBlock::Picture { place, packed, colours, code_size, data } => 11 + colours.len()
            + gif_data_length(data),
    }
}

/// The blocks lie one behind the other from `at` on.
pub open spec fn gif_blocks_at(s: Seq<u8>, at: int, blocks: Seq<GifBlock>) -> bool
    decreases blocks.len(),
{
    blocks.len() == 0 || gif_block_at(s, at, blocks[0]) && gif_blocks_at(
        s,
        at + gif_block_length(blocks[0]),
        blocks.drop_first(),
    )
}

pub open spec fn gif_blocks_length(blocks: Seq<GifBlock>) -> int
    decreases blocks.len(),
{
    if blocks.len() == 0 {
        0
    } else {
        gif_block_length(blocks[0]) + gif_blocks_length(blocks.drop_first())
    }
}

proof fn lemma_gif_data(s: Seq<u8>, at: int, blocks: Seq<Seq<u8>>)
    requires
        0 <= at,
        gif_data_at(s, at, blocks),
    ensures
        gif_blocks_end(s, at) == Some(at + gif_data_length(blocks)),
        gif_data_length(blocks) >= 1,
        at + gif_data_length(blocks) <= s.len(),
    decreases blocks.len(),
{
    if blocks.len() == 0 {
        assert(s[at + 0] == seq![0u8][0]);
    } else {
        assert(s[at + 0] == seq![blocks[0].len() as u8][0]);
        lemma_gif_data(s, at + 1 + blocks[0].len(), blocks.drop_first());
    }
}

proof fn lemma_gif_block(s: Seq<u8>, at: int, b: GifBlock)
    requires
        0 <= at,
        gif_block_at(s, at, b),
    ensures
        gif_block_end(s, at) == Some(at + gif_block_length(b)),
        at < s.len(),
        s[at] != 0x3b,
        gif_block_length(b) > 0,
{
    match b {
        GifBlock::Extension { label, data } => {
            let head = seq![0x21u8, label];
            assert(s[at + 0] == head[0]);
            lemma_gif_data(s, at + 2, data);
        },
        GifBlock::Picture { place, packed, colours, code_size, data } => {
            let mark = seq![0x2cu8];
            assert(s[at + 0] == mark[0]);
            assert(s[at + 9 + 0] == seq![packed][0]);
            lemma_colours_length(packed);
            lemma_gif_data(s, at + 11 + colours.len(), data);
        },
    }
}

proof fn lemma_gif_end(s: Seq<u8>, at: int, blocks: Seq<GifBlock>)
    requires
        0 <= at,
        gif_blocks_at(s, at, blocks),
        laid_at(s, at + gif_blocks_length(blocks), seq![0x3bu8]),
    ensures
        gif_end(s, at) == Some(at + gif_blocks_length(blocks) + 1),
    decreases blocks.len(),
{
    if blocks.len() == 0 {
        assert(s[at + 0] == seq![0x3bu8][0]);
    } else {
        lemma_gif_block(s, at, blocks[0]);
        lemma_gif_end(s, at + gif_block_length(blocks[0]), blocks.drop_first());
    }
}

/// A GIF image is as long as its header, its colours, its blocks and the byte that ends it: what
/// follows does not count.
pub proof fn lemma_gif_size_is_that_of_its_blocks(
    s: Seq<u8>,
    newer: bool,
    screen: Seq<u8>,
    packed: u8,
    rest: Seq<u8>,
    colours: Seq<u8>,
    blocks: Seq<GifBlock>,
)
    requires
        laid_at(
            s,
            0,
            if newer {
                seq![0x47u8, 0x49, 0x46, 0x38, 0x39, 0x61]
            } else {
                seq![0x47u8, 0x49, 0x46, 0x38, 0x37, 0x61]
            },
        ),
        screen.len() == 4 && laid_at(s, 6, screen),
        laid_at(s, 10, seq![packed]),
        rest.len() == 2 && laid_at(s, 11, rest),
        colours.len() == colours_length(packed) && laid_at(s, 13, colours),
        gif_blocks_at(s, 13int + colours.len(), blocks),
        laid_at(s, 13int + colours.len() + gif_blocks_length(blocks), seq![0x3bu8]),
    ensures
        gif_size(s) == Some(13int + colours.len() + gif_blocks_length(blocks) + 1),
{
    lemma_laid_occurs(s, 0, seq![0x47u8, 0x49, 0x46, 0x38, 0x39, 0x61]);
    lemma_laid_occurs(s, 0, seq![0x47u8, 0x49, 0x46, 0x38, 0x37, 0x61]);
    assert(s[10int + 0] == seq![packed][0]);
    lemma_colours_length(packed);
    lemma_gif_end(s, 13int + colours.len(), blocks);
}

/// Fill bytes in front of the end marker of a scan do not hide it.
pub proof fn lemma_fill_bytes_do_not_hide_the_end(s: Seq<u8>, at: int)
    requires
        0 <= at,
        at + 3 <= s.len(),
        s[at] == 0xff,
        s[at + 1] == 0xff,
        s[at + 2] == 0xd9,
    ensures
        jpeg_scan_end(s, at) == Some(at + 3),
{
    reveal_with_fuel(jpeg_scan_end, 3);
}

} // verus!
