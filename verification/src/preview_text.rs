//! Bytes as text and as rows of hexadecimal digits.

use crate::codec::{decode_text, encoded_text, guess_encoding, guessed_encoding};
use crate::model::HexPreviewRow;
use crate::numbers::{hex_string, hexadecimal, zero_padded};
use crate::text::{chars_of, count_if, joined, opt_view};
use vstd::prelude::*;
use vstd::string::*;

verus! {

// ---------------------------------------------------------------------------
// Text.

pub open spec fn is_nul() -> spec_fn(u8) -> bool {
    |b: u8| b == 0
}

pub open spec fn is_replacement() -> spec_fn(char) -> bool {
    |c: char| c == '\u{fffd}'
}

/// A control character.
pub open spec fn is_control(c: char) -> bool {
    (c as u32) < 0x20 || (0x7f <= c as u32 && (c as u32) < 0xa0)
}

/// A character that a text can show; line ends and tabs among them.
pub open spec fn is_shown() -> spec_fn(char) -> bool {
    |c: char| !is_control(c) || c == '\r' || c == '\n' || c == '\t'
}

pub open spec fn at_least_one(n: nat) -> int {
    if n == 0 {
        1
    } else {
        n as int
    }
}

/// The text of some bytes, given the encoding that was guessed, how sure the guess is, and
/// what the bytes decode to. No text where 8 in 100 bytes are zero and the encoding is not
/// one of two bytes each, where more than 2 in 100 characters could not be decoded, or where
/// the guess is unsure and fewer than 9 in 10 characters can be shown.
pub open spec fn excerpt(
    bytes: Seq<u8>,
    encoding: Seq<char>,
    confident: bool,
    decoded: Option<Seq<char>>,
) -> Option<Seq<char>> {
    if bytes.len() == 0 {
        Some(seq![])
    } else if 100 * count_if(bytes, is_nul()) >= 8 * bytes.len() && encoding != "UTF-16LE"@
        && encoding != "UTF-16BE"@ {
        None
    } else {
        match decoded {
            Some(text) => {
                let n = at_least_one(text.len());
                if 100 * count_if(text, is_replacement()) > 2 * n {
                    None
                } else if confident || 10 * count_if(text, is_shown()) >= 9 * n {
                    Some(text)
                } else {
                    None
                }
            },
            None => None,
        }
    }
}

/// The text of some bytes.
pub open spec fn text_of(bytes: Seq<u8>) -> Option<Seq<char>> {
    let guess = guessed_encoding(bytes);
    excerpt(bytes, guess.0, guess.1, encoded_text(bytes, guess.0))
}

fn count_zero_bytes(bytes: &[u8]) -> (r: usize)
    ensures
        r == count_if(bytes@, is_nul()),
        r <= bytes@.len(),
{
    let mut count: usize = 0;
    let mut i: usize = 0;
    assert(bytes@.subrange(0, 0) =~= seq![]);
    while i < bytes.len()
        invariant
            i <= bytes@.len(),
            count <= i,
            count == count_if(bytes@.subrange(0, i as int), is_nul()),
        decreases bytes@.len() - i,
    {
        assert(bytes@.subrange(0, i + 1).drop_last() =~= bytes@.subrange(0, i as int));
        if bytes[i] == 0 {
            count += 1;
        }
        i += 1;
    }
    assert(bytes@.subrange(0, i as int) =~= bytes@);
    count
}

/// How many characters could not be decoded, and how many can be shown.
fn count_characters(chars: &Vec<char>) -> (r: (usize, usize))
    ensures
        r.0 == count_if(chars@, is_replacement()),
        r.1 == count_if(chars@, is_shown()),
        r.0 <= chars@.len(),
        r.1 <= chars@.len(),
{
    let mut replaced: usize = 0;
    let mut shown: usize = 0;
    let mut i: usize = 0;
    assert(chars@.subrange(0, 0) =~= seq![]);
    while i < chars.len()
        invariant
            i <= chars@.len(),
            replaced <= i,
            shown <= i,
            replaced == count_if(chars@.subrange(0, i as int), is_replacement()),
            shown == count_if(chars@.subrange(0, i as int), is_shown()),
        decreases chars@.len() - i,
    {
        assert(chars@.subrange(0, i + 1).drop_last() =~= chars@.subrange(0, i as int));
        let c = chars[i];
        let code: u32 = c as u32;
        if c == '\u{fffd}' {
            replaced += 1;
        }
        if !(code < 0x20 || (0x7f <= code && code < 0xa0)) || c == '\r' || c == '\n' || c == '\t' {
            shown += 1;
        }
        i += 1;
    }
    assert(chars@.subrange(0, i as int) =~= chars@);
    (replaced, shown)
}

/// The text of some bytes, from the guessed encoding and what the bytes decode to.
pub fn text_excerpt(bytes: &[u8], encoding: &str, confident: bool, decoded: Option<String>) -> (r:
    Option<String>)
    ensures
        opt_view(r) == excerpt(bytes@, encoding@, confident, opt_view(decoded)),
{
    let n: usize = bytes.len();
    if n == 0 {
        let empty = String::new();
        assert(empty@ =~= seq![]);
        return Some(empty);
    }
    let zeros: usize = count_zero_bytes(bytes);
    if zeros as u128 * 100 >= n as u128 * 8 && *encoding != *"UTF-16LE" && *encoding
        != *"UTF-16BE" {
        return None;
    }
    match decoded {
        None => None,
        Some(text) => {
            let chars = chars_of(text.as_str());
            let (replaced, shown) = count_characters(&chars);
            let all: usize = if chars.len() == 0 {
                1
            } else {
                chars.len()
            };
            if replaced as u128 * 100 > all as u128 * 2 {
                return None;
            }
            if confident || shown as u128 * 10 >= all as u128 * 9 {
                Some(text)
            } else {
                None
            }
        },
    }
}

/// The text of some bytes, where they look like text.
pub fn decode_text_excerpt(bytes: &[u8]) -> (r: Option<String>)
    ensures
        opt_view(r) == text_of(bytes@),
{
    let (encoding, confident) = guess_encoding(bytes);
    let decoded = decode_text(bytes, encoding.as_str());
    text_excerpt(bytes, encoding.as_str(), confident, decoded)
}

// ---------------------------------------------------------------------------
// Hexadecimal rows.

/// What a row shows.
pub ghost struct HexRowView {
    pub offset: u64,
    pub hex: Seq<char>,
    pub ascii: Seq<char>,
}

impl View for HexPreviewRow {
    type V = HexRowView;

    open spec fn view(&self) -> HexRowView {
        HexRowView { offset: self.offset, hex: self.hex@, ascii: self.ascii@ }
    }
}

pub open spec fn hex_row_views(rows: Seq<HexPreviewRow>) -> Seq<HexRowView> {
    rows.map_values(|row: HexPreviewRow| row@)
}

/// Two upper-case hexadecimal digits.
pub open spec fn byte_digits(b: u8) -> Seq<char> {
    zero_padded(hexadecimal(b as nat, true), 2)
}

/// The character of a byte, or a dot where it is no printable ASCII character.
pub open spec fn byte_char(b: u8) -> char {
    if 0x20 <= b && b <= 0x7e {
        b as char
    } else {
        '.'
    }
}

/// Up to 16 bytes in one row.
pub open spec fn hex_row(offset: u64, chunk: Seq<u8>) -> HexRowView {
    HexRowView {
        offset,
        hex: joined(chunk.map_values(|b: u8| byte_digits(b)), " "@),
        ascii: chunk.map_values(|b: u8| byte_char(b)),
    }
}

pub open spec fn row_end(bytes: Seq<u8>, row: int) -> int {
    if 16 * (row + 1) <= bytes.len() {
        16 * (row + 1)
    } else {
        bytes.len() as int
    }
}

/// Bytes in rows of 16.
pub open spec fn hex_rows(base: u64, bytes: Seq<u8>) -> Seq<HexRowView> {
    Seq::new(
        ((bytes.len() + 15) / 16) as nat,
        |i: int| hex_row((base + 16 * i) as u64, bytes.subrange(16 * i, row_end(bytes, i))),
    )
}

fn build_hex_row(offset: u64, bytes: &[u8], from: usize, to: usize) -> (r: HexPreviewRow)
    requires
        from <= to <= bytes@.len(),
    ensures
        r@ == hex_row(offset, bytes@.subrange(from as int, to as int)),
{
    let ghost chunk = bytes@.subrange(from as int, to as int);
    let ghost digits = chunk.map_values(|b: u8| byte_digits(b));
    let mut hex: String = String::new();
    let mut ascii: String = String::new();
    let mut i: usize = from;
    assert(digits.subrange(0, 0) =~= seq![]);
    assert(hex@ =~= joined(digits.subrange(0, 0), " "@));
    while i < to
        invariant
            from <= i <= to <= bytes@.len(),
            chunk == bytes@.subrange(from as int, to as int),
            digits == chunk.map_values(|b: u8| byte_digits(b)),
            hex@ == joined(digits.subrange(0, i - from), " "@),
            ascii@ == chunk.map_values(|b: u8| byte_char(b)).subrange(0, i - from),
        decreases to - i,
    {
        let b: u8 = bytes[i];
        let ghost before = digits.subrange(0, i - from);
        let ghost after = digits.subrange(0, i + 1 - from);
        assert(after.drop_last() =~= before);
        assert(after.last() == byte_digits(b));
        if i > from {
            hex.append(" ");
        }
        let pair = hex_string(b as u64, true, 2);
        hex.append(pair.as_str());
        proof {
            if i == from {
                assert(before =~= seq![]);
                assert(hex@ =~= byte_digits(b));
                assert(joined(after, " "@) == after[0]);
            } else {
                assert(hex@ =~= joined(before, " "@) + " "@ + byte_digits(b));
            }
        }
        if 0x20 <= b && b <= 0x7e {
            ascii.push(b as char);
        } else {
            ascii.push('.');
        }
        assert(ascii@ =~= chunk.map_values(|b: u8| byte_char(b)).subrange(0, i + 1 - from));
        i += 1;
    }
    assert(digits.subrange(0, to - from) =~= digits);
    assert(chunk.map_values(|b: u8| byte_char(b)).subrange(0, to - from) =~= chunk.map_values(
        |b: u8| byte_char(b),
    ));
    HexPreviewRow { offset, hex, ascii }
}

/// Bytes that start at an offset, in rows of 16.
pub fn build_hex_rows(base_offset: u64, bytes: &[u8]) -> (r: Vec<HexPreviewRow>)
    requires
        base_offset + bytes@.len() <= u64::MAX,
    ensures
        hex_row_views(r@) == hex_rows(base_offset, bytes@),
{
    let mut rows: Vec<HexPreviewRow> = Vec::new();
    let n: usize = bytes.len();
    let mut at: usize = 0;
    let ghost all = hex_rows(base_offset, bytes@);
    while at < n
        invariant
            at <= n,
            n == bytes@.len(),
            base_offset + n <= u64::MAX,
            all == hex_rows(base_offset, bytes@),
            at == row_end(bytes@, rows@.len() - 1) || (rows@.len() == 0 && at == 0),
            at < n ==> at == 16 * rows@.len(),
            rows@.len() <= all.len(),
            forall|k: int| 0 <= k < rows@.len() ==> (#[trigger] rows@[k])@ == all[k],
        decreases n - at,
    {
        let end: usize = if n - at <= 16 {
            n
        } else {
            at + 16
        };
        let row = build_hex_row(base_offset + at as u64, bytes, at, end);
        assert(row@ == all[rows@.len() as int]);
        rows.push(row);
        at = end;
    }
    assert(rows@.len() == all.len());
    assert(hex_row_views(rows@) =~= all);
    rows
}

} // verus!
