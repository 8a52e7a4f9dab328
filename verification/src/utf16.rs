//! Text in UTF-16.

use crate::codec::char_from_u32;
use crate::text::opt_view;
use vstd::prelude::*;
use vstd::string::*;

verus! {

/// The first half of a pair that stands for one character.
pub open spec fn is_high(unit: u16) -> bool {
    0xd800 <= unit < 0xdc00
}

/// The second half of a pair that stands for one character.
pub open spec fn is_low(unit: u16) -> bool {
    0xdc00 <= unit < 0xe000
}

/// The character in front, if there is one, and how many units it takes; a half without the
/// other takes one and stands for no character.
pub open spec fn front_char(units: Seq<u16>) -> (Option<char>, int) {
    if is_high(units[0]) && units.len() > 1 && is_low(units[1]) {
        (
            Some((0x10000 + (units[0] - 0xd800) * 0x400 + (units[1] - 0xdc00)) as char),
            2,
        )
    } else if is_high(units[0]) || is_low(units[0]) {
        (None, 1)
    } else {
        (Some(units[0] as char), 1)
    }
}

/// The text that units stand for; `None` where a half has no partner.
pub open spec fn utf16_text(units: Seq<u16>) -> Option<Seq<char>>
    decreases units.len(),
{
    if units.len() == 0 {
        Some(seq![])
    } else {
        match front_char(units) {
            (Some(c), n) => match utf16_text(units.subrange(n, units.len() as int)) {
                Some(rest) => Some(seq![c] + rest),
                None => None,
            },
            (None, n) => None,
        }
    }
}

/// The text that units stand for, with the replacement character for each half without partner.
pub open spec fn utf16_lossy_text(units: Seq<u16>) -> Seq<char>
    decreases units.len(),
{
    if units.len() == 0 {
        seq![]
    } else {
        let front = front_char(units);
        seq![
            match front.0 {
                Some(c) => c,
                None => '\u{fffd}',
            },
        ] + utf16_lossy_text(units.subrange(front.1, units.len() as int))
    }
}

/// The character at a place, and how many units it takes.
fn char_at(units: &[u16], at: usize) -> (r: (Option<char>, usize))
    requires
        at < units@.len(),
    ensures
        r.0 == front_char(units@.subrange(at as int, units@.len() as int)).0,
        r.1 == front_char(units@.subrange(at as int, units@.len() as int)).1,
        1 <= r.1 <= 2,
        at + r.1 <= units@.len(),
{
    let n: usize = units.len();
    let unit: u32 = units[at] as u32;
    let ghost rest = units@.subrange(at as int, n as int);
    assert(rest[0] == units@[at as int]);
    if 0xd800 <= unit && unit < 0xdc00 && n - at > 1 {
        let low: u32 = units[at + 1] as u32;
        assert(rest[1] == units@[at + 1]);
        if 0xdc00 <= low && low < 0xe000 {
            let code: u32 = 0x10000 + (unit - 0xd800) * 0x400 + (low - 0xdc00);
            return (char_from_u32(code), 2);
        }
    }
    if 0xd800 <= unit && unit < 0xe000 {
        return (None, 1);
    }
    (char_from_u32(unit), 1)
}

/// Reads text; `None` where a half has no partner.
pub fn decode_utf16(units: &[u16]) -> (r: Option<String>)
    ensures
        opt_view(r) == utf16_text(units@),
{
    let n: usize = units.len();
    let mut out = String::new();
    let mut at: usize = 0;
    proof {
        assert(units@.subrange(0, n as int) =~= units@);
        assert(out@ =~= seq![]);
        if let Some(text) = utf16_text(units@) {
            assert(out@ + text =~= text);
        }
    }
    while at < n
        invariant
            n == units@.len(),
            at <= n,
            utf16_text(units@) == match utf16_text(units@.subrange(at as int, n as int)) {
                Some(rest) => Some(out@ + rest),
                None => None,
            },
        decreases n - at,
    {
        let ghost rest = units@.subrange(at as int, n as int);
        let (c, taken) = char_at(units, at);
        match c {
            Some(c) => {
                let ghost before = out@;
                out.push(c);
                proof {
                    assert(rest.subrange(taken as int, rest.len() as int) =~= units@.subrange(
                        at + taken,
                        n as int,
                    ));
                    if let Some(more) = utf16_text(units@.subrange(at + taken, n as int)) {
                        assert(before + (seq![c] + more) =~= before.push(c) + more);
                    }
                }
            },
            None => {
                return None;
            },
        }
        at = at + taken;
    }
    proof {
        assert(units@.subrange(n as int, n as int) =~= seq![]);
        assert(out@ + seq![] =~= out@);
    }
    Some(out)
}

/// Reads text, with the replacement character for each half without partner.
pub fn decode_utf16_lossy(units: &[u16]) -> (r: String)
    ensures
        r@ == utf16_lossy_text(units@),
{
    let n: usize = units.len();
    let mut out = String::new();
    let mut at: usize = 0;
    proof {
        assert(units@.subrange(0, n as int) =~= units@);
        assert(out@ + utf16_lossy_text(units@) =~= utf16_lossy_text(units@));
    }
    while at < n
        invariant
            n == units@.len(),
            at <= n,
            utf16_lossy_text(units@) == out@ + utf16_lossy_text(
                units@.subrange(at as int, n as int),
            ),
        decreases n - at,
    {
        let ghost rest = units@.subrange(at as int, n as int);
        let ghost before = out@;
        let (c, taken) = char_at(units, at);
        let shown: char = match c {
            Some(c) => c,
            None => '\u{fffd}',
        };
        out.push(shown);
        proof {
            assert(rest.subrange(taken as int, rest.len() as int) =~= units@.subrange(
                at + taken,
                n as int,
            ));
            let more = utf16_lossy_text(units@.subrange(at + taken, n as int));
            assert(before + (seq![shown] + more) =~= before.push(shown) + more);
        }
        at = at + taken;
    }
    proof {
        assert(units@.subrange(n as int, n as int) =~= seq![]);
        assert(out@ + seq![] =~= out@);
    }
    out
}

/// Where text can be read without loss, both ways to read it agree.
pub proof fn lemma_lossy_agrees(units: Seq<u16>)
    ensures
        utf16_text(units) matches Some(text) ==> utf16_lossy_text(units) == text,
    decreases units.len(),
{
    if units.len() > 0 {
        let n = front_char(units).1;
        lemma_lossy_agrees(units.subrange(n, units.len() as int));
    }
}

// ---------------------------------------------------------------------------
// Laws.

/// The units of a character: one, or a pair for a character above 0xffff.
pub open spec fn char_units(c: char) -> Seq<u16> {
    if (c as int) < 0x1_0000 {
        seq![(c as u32) as u16]
    } else {
        let above = c as int - 0x1_0000;
        seq![(0xd800 + above / 0x400) as u16, (0xdc00 + above % 0x400) as u16]
    }
}

/// A text in UTF-16.
pub open spec fn written_utf16(text: Seq<char>) -> Seq<u16>
    decreases text.len(),
{
    if text.len() == 0 {
        seq![]
    } else {
        char_units(text[0]) + written_utf16(text.drop_first())
    }
}

proof fn lemma_char_reads_back(c: char, rest: Seq<u16>)
    ensures
        front_char(char_units(c) + rest) == (Some(c), char_units(c).len() as int),
{
    let units = char_units(c) + rest;
    assert(c as u32 <= 0xd7ff || 0xe000 <= c as u32 <= 0x10ffff);
    if c as int >= 0x1_0000 {
        let above = c as int - 0x1_0000;
        assert(above == above / 0x400 * 0x400 + above % 0x400);
        assert(units[0] == 0xd800 + above / 0x400 && units[1] == 0xdc00 + above % 0x400);
        assert(0x10000 + (units[0] - 0xd800) * 0x400 + (units[1] - 0xdc00) == c as int);
    } else {
        assert(units[0] == c as u32);
    }
}

/// Every text is read back as it was written.
pub proof fn lemma_utf16_reads_back(text: Seq<char>)
    ensures
        utf16_text(written_utf16(text)) == Some(text),
        utf16_lossy_text(written_utf16(text)) == text,
    decreases text.len(),
{
    if text.len() > 0 {
        let c = text[0];
        let rest = text.drop_first();
        lemma_utf16_reads_back(rest);
        let units = written_utf16(text);
        let n = char_units(c).len() as int;
        lemma_char_reads_back(c, written_utf16(rest));
        assert(units.subrange(n, units.len() as int) =~= written_utf16(rest));
        assert(seq![c] + rest =~= text);
    }
}

} // verus!
