//! Fixed-width integers and byte patterns inside byte buffers.

use vstd::prelude::*;

verus! {

/// `pattern` stands in `s` at index `i`.
pub open spec fn occurs_at<T>(s: Seq<T>, pattern: Seq<T>, i: int) -> bool {
    &&& 0 <= i
    &&& i + pattern.len() <= s.len()
    &&& s.subrange(i, i + pattern.len()) == pattern
}

/// `pattern` stands somewhere in `s`.
pub open spec fn occurs_in<T>(s: Seq<T>, pattern: Seq<T>) -> bool {
    exists|i: int| occurs_at(s, pattern, i)
}

/// The last index at which `pattern` stands in `s`.
pub open spec fn is_last_occurrence<T>(s: Seq<T>, pattern: Seq<T>, i: int) -> bool {
    occurs_at(s, pattern, i) && forall|j: int| j > i ==> !occurs_at(s, pattern, j)
}

/// The number that two bytes encode, low byte first.
pub open spec fn le16(s: Seq<u8>, i: int) -> int {
    s[i] + 256 * s[i + 1]
}

/// The number that two bytes encode, high byte first.
pub open spec fn be16(s: Seq<u8>, i: int) -> int {
    256 * s[i] + s[i + 1]
}

/// The number that four bytes encode, low byte first.
pub open spec fn le32(s: Seq<u8>, i: int) -> int {
    le16(s, i) + 0x1_0000 * le16(s, i + 2)
}

/// The number that four bytes encode, high byte first.
pub open spec fn be32(s: Seq<u8>, i: int) -> int {
    0x1_0000 * be16(s, i) + be16(s, i + 2)
}

/// The number that eight bytes encode, low byte first.
pub open spec fn le64(s: Seq<u8>, i: int) -> int {
    le32(s, i) + 0x1_0000_0000 * le32(s, i + 4)
}

pub fn read_le16(bytes: &[u8], i: usize) -> (r: u16)
    requires
        i + 2 <= bytes@.len(),
    ensures
        r == le16(bytes@, i as int),
{
    bytes[i] as u16 + 256 * (bytes[i + 1] as u16)
}

pub fn read_be16(bytes: &[u8], i: usize) -> (r: u16)
    requires
        i + 2 <= bytes@.len(),
    ensures
        r == be16(bytes@, i as int),
{
    256 * (bytes[i] as u16) + bytes[i + 1] as u16
}

pub fn read_le32(bytes: &[u8], i: usize) -> (r: u32)
    requires
        i + 4 <= bytes@.len(),
    ensures
        r == le32(bytes@, i as int),
{
    let n: usize = bytes.len();
    assert(i + 4 <= n);
    read_le16(bytes, i) as u32 + 0x1_0000 * (read_le16(bytes, i + 2) as u32)
}

pub fn read_be32(bytes: &[u8], i: usize) -> (r: u32)
    requires
        i + 4 <= bytes@.len(),
    ensures
        r == be32(bytes@, i as int),
{
    let n: usize = bytes.len();
    assert(i + 4 <= n);
    0x1_0000 * (read_be16(bytes, i) as u32) + read_be16(bytes, i + 2) as u32
}

pub fn read_le64(bytes: &[u8], i: usize) -> (r: u64)
    requires
        i + 8 <= bytes@.len(),
    ensures
        r == le64(bytes@, i as int),
{
    let n: usize = bytes.len();
    assert(i + 4 <= n);
    read_le32(bytes, i) as u64 + 0x1_0000_0000 * (read_le32(bytes, i + 4) as u64)
}

/// Whether `pattern` stands in `bytes` at index `i`.
pub fn matches_at(bytes: &[u8], pattern: &[u8], i: usize) -> (r: bool)
    ensures
        r == occurs_at(bytes@, pattern@, i as int),
{
    if bytes.len() < pattern.len() || bytes.len() - pattern.len() < i {
        return false;
    }
    let n: usize = bytes.len();
    let mut k: usize = 0;
    while k < pattern.len()
        invariant
            n == bytes@.len(),
            k <= pattern@.len(),
            i + pattern@.len() <= bytes@.len(),
            forall|j: int| 0 <= j < k ==> bytes@[i + j] == pattern@[j],
        decreases pattern@.len() - k,
    {
        if bytes[i + k] != pattern[k] {
            assert(bytes@.subrange(i as int, i + pattern@.len())[k as int] != pattern@[k as int]);
            return false;
        }
        k += 1;
    }
    assert(bytes@.subrange(i as int, i + pattern@.len()) =~= pattern@);
    true
}

/// Whether `bytes` starts with `pattern`.
pub fn starts_with(bytes: &[u8], pattern: &[u8]) -> (r: bool)
    ensures
        r == occurs_at(bytes@, pattern@, 0),
{
    matches_at(bytes, pattern, 0)
}

/// The first index from `from` on at which `pattern` stands.
pub fn find_from(bytes: &[u8], pattern: &[u8], from: usize) -> (r: Option<usize>)
    ensures
        match r {
            Some(i) => from <= i && occurs_at(bytes@, pattern@, i as int) && forall|j: int|
                from <= j < i ==> !occurs_at(bytes@, pattern@, j),
            None => forall|j: int| from <= j ==> !occurs_at(bytes@, pattern@, j),
        },
{
    if bytes.len() < pattern.len() {
        return None;
    }
    let last: usize = bytes.len() - pattern.len();
    let mut i: usize = from;
    while i <= last
        invariant
            from <= i,
            last == bytes@.len() - pattern@.len(),
            forall|j: int| from <= j < i ==> !occurs_at(bytes@, pattern@, j),
        decreases last + 1 - i,
    {
        if matches_at(bytes, pattern, i) {
            return Some(i);
        }
        if i == last {
            return None;
        }
        i += 1;
    }
    None
}

/// Whether `pattern` stands somewhere in `bytes`.
pub fn contains(bytes: &[u8], pattern: &[u8]) -> (r: bool)
    ensures
        r == occurs_in(bytes@, pattern@),
{
    match find_from(bytes, pattern, 0) {
        Some(_) => true,
        None => {
            assert forall|j: int| !occurs_at(bytes@, pattern@, j) by {
                if j >= 0 {
                }
            }
            false
        },
    }
}

/// The last index at which `pattern` stands.
pub fn rfind(bytes: &[u8], pattern: &[u8]) -> (r: Option<usize>)
    ensures
        match r {
            Some(i) => is_last_occurrence(bytes@, pattern@, i as int),
            None => !occurs_in(bytes@, pattern@),
        },
{
    if bytes.len() < pattern.len() {
        return None;
    }
    let last: usize = bytes.len() - pattern.len();
    let mut i: usize = last;
    loop
        invariant
            i <= last,
            last == bytes@.len() - pattern@.len(),
            forall|j: int| j > i ==> !occurs_at(bytes@, pattern@, j),
        decreases i,
    {
        if matches_at(bytes, pattern, i) {
            return Some(i);
        }
        if i == 0 {
            return None;
        }
        i -= 1;
    }
}

/// A copy of `bytes[from..to]`.
pub fn slice_to_vec(bytes: &[u8], from: usize, to: usize) -> (r: Vec<u8>)
    requires
        from <= to <= bytes@.len(),
    ensures
        r@ == bytes@.subrange(from as int, to as int),
{
    let mut out: Vec<u8> = Vec::new();
    let mut i: usize = from;
    while i < to
        invariant
            from <= i <= to <= bytes@.len(),
            out@ == bytes@.subrange(from as int, i as int),
        decreases to - i,
    {
        out.push(bytes[i]);
        i += 1;
    }
    out
}

/// `n` zeros.
pub open spec fn zero_bytes(n: int) -> Seq<u8> {
    Seq::new(n as nat, |i: int| 0u8)
}

/// Adds `n` zeros at the end.
pub fn push_zeros(bytes: &mut Vec<u8>, n: usize)
    ensures
        final(bytes)@ == old(bytes)@ + zero_bytes(n as int),
{
    let mut k: usize = 0;
    assert(bytes@ =~= old(bytes)@ + zero_bytes(0));
    while k < n
        invariant
            k <= n,
            bytes@ =~= old(bytes)@ + zero_bytes(k as int),
        decreases n - k,
    {
        bytes.push(0);
        k += 1;
    }
}

/// Adds bytes at the end.
pub fn push_bytes(bytes: &mut Vec<u8>, more: &[u8])
    ensures
        final(bytes)@ == old(bytes)@ + more@,
{
    let mut k: usize = 0;
    assert(bytes@ =~= old(bytes)@ + more@.subrange(0, 0));
    while k < more.len()
        invariant
            k <= more@.len(),
            bytes@ =~= old(bytes)@ + more@.subrange(0, k as int),
        decreases more@.len() - k,
    {
        bytes.push(more[k]);
        k += 1;
    }
    assert(more@.subrange(0, k as int) =~= more@);
}

// ---------------------------------------------------------------------------
// Laws: numbers are read back as they were written.

/// A number in `k` bytes, low byte first.
pub open spec fn le_bytes(n: int, k: nat) -> Seq<u8>
    decreases k,
{
    if k == 0 {
        seq![]
    } else {
        seq![(n % 256) as u8] + le_bytes(n / 256, (k - 1) as nat)
    }
}

/// A number in `k` bytes, high byte first.
pub open spec fn be_bytes(n: int, k: nat) -> Seq<u8>
    decreases k,
{
    if k == 0 {
        seq![]
    } else {
        be_bytes(n / 256, (k - 1) as nat).push((n % 256) as u8)
    }
}

/// A part of a file lies at an offset.
pub open spec fn laid_at(s: Seq<u8>, at: int, part: Seq<u8>) -> bool {
    &&& 0 <= at
    &&& at + part.len() <= s.len()
    &&& forall|k: int| 0 <= k < part.len() ==> s[at + k] == #[trigger] part[k]
}

/// Eight bytes are the four lower ones, then the four higher ones.
proof fn lemma_le_halves(n: int)
    requires
        0 <= n,
    ensures
        le_bytes(n, 8).len() == 8,
        le_bytes(n, 8) == le_bytes(n, 4) + le_bytes(n / 0x1_0000_0000, 4),
{
    reveal_with_fuel(le_bytes, 5);
    let high = n / 256 / 256 / 256 / 256;
    assert(high == n / 0x1_0000_0000);
    assert(le_bytes(n, 8) =~= seq![(n % 256) as u8] + (seq![(n / 256 % 256) as u8] + (seq![
        (n / 256 / 256 % 256) as u8,
    ] + (seq![(n / 256 / 256 / 256 % 256) as u8] + le_bytes(high, 4)))));
    assert(le_bytes(n, 4) =~= seq![
        (n % 256) as u8,
        (n / 256 % 256) as u8,
        (n / 256 / 256 % 256) as u8,
        (n / 256 / 256 / 256 % 256) as u8,
    ]);
    assert(le_bytes(high, 4).len() == 4);
}

/// The bytes of a number, the lowest first.
proof fn lemma_le_bytes(n: int)
    requires
        0 <= n,
    ensures
        le_bytes(n, 2) == seq![(n % 256) as u8, (n / 256 % 256) as u8],
        le_bytes(n, 4) == seq![
            (n % 256) as u8,
            (n / 256 % 256) as u8,
            (n / 0x1_0000 % 256) as u8,
            (n / 0x100_0000 % 256) as u8,
        ],
{
    reveal_with_fuel(le_bytes, 5);
    assert(n / 256 / 256 == n / 0x1_0000 && n / 256 / 256 / 256 == n / 0x100_0000);
    assert(le_bytes(n, 2) =~= seq![(n % 256) as u8, (n / 256 % 256) as u8]);
    assert(le_bytes(n, 4) =~= seq![
        (n % 256) as u8,
        (n / 256 % 256) as u8,
        (n / 0x1_0000 % 256) as u8,
        (n / 0x100_0000 % 256) as u8,
    ]);
}

/// A number of 16 bits is read back from where it was written, low byte first.
pub proof fn lemma_le16_reads_back(s: Seq<u8>, at: int, n: int)
    requires
        0 <= n < 0x1_0000,
        laid_at(s, at, le_bytes(n, 2)),
    ensures
        le16(s, at) == n,
{
    lemma_le_bytes(n);
    let part = le_bytes(n, 2);
    assert(s[at + 0] == part[0] && s[at + 1] == part[1]);
    assert(n == n % 256 + 256 * (n / 256) && n / 256 % 256 == n / 256);
}

proof fn lemma_byte_weights(n: int)
    requires
        0 <= n,
    ensures
        n % 0x1_0000_0000 == n % 256 + 256 * (n / 256 % 256) + 0x1_0000 * (n / 0x1_0000 % 256)
            + 0x100_0000 * (n / 0x100_0000 % 256),
{
    let a = n / 256;
    let b = a / 256;
    let c = b / 256;
    let d = c / 256;
    assert(b == n / 0x1_0000);
    assert(c == n / 0x100_0000);
    assert(d == n / 0x1_0000_0000);
    assert(n == 256 * a + n % 256);
    assert(a == 256 * b + a % 256);
    assert(b == 256 * c + b % 256);
    assert(c == 256 * d + c % 256);
    assert(n == 0x1_0000_0000 * d + n % 0x1_0000_0000);
}

/// Four bytes hold the lower 32 bits of a number.
proof fn lemma_le32_low_bits(s: Seq<u8>, at: int, n: int)
    requires
        0 <= n,
        laid_at(s, at, le_bytes(n, 4)),
    ensures
        le32(s, at) == n % 0x1_0000_0000,
{
    lemma_le_bytes(n);
    let part = le_bytes(n, 4);
    assert(s[at + 0] == part[0] && s[at + 1] == part[1] && s[at + 2] == part[2] && s[at + 3]
        == part[3]);
    lemma_byte_weights(n);
}

/// A number of 32 bits is read back from where it was written, low byte first.
pub proof fn lemma_le32_reads_back(s: Seq<u8>, at: int, n: int)
    requires
        0 <= n < 0x1_0000_0000,
        laid_at(s, at, le_bytes(n, 4)),
    ensures
        le32(s, at) == n,
{
    lemma_le32_low_bits(s, at, n);
}

/// A number of 64 bits is read back from where it was written, low byte first.
pub proof fn lemma_le64_reads_back(s: Seq<u8>, at: int, n: int)
    requires
        0 <= n < 0x1_0000_0000_0000_0000,
        laid_at(s, at, le_bytes(n, 8)),
    ensures
        le64(s, at) == n,
{
    let high = n / 0x1_0000_0000;
    lemma_le_halves(n);
    lemma_le_bytes(n);
    lemma_le_bytes(high);
    let part = le_bytes(n, 8);
    assert forall|k: int| 0 <= k < 4 implies s[at + k] == #[trigger] le_bytes(n, 4)[k] by {
        assert(part[k] == le_bytes(n, 4)[k]);
    }
    assert forall|k: int| 0 <= k < 4 implies s[at + 4 + k] == #[trigger] le_bytes(high, 4)[k] by {
        assert(part[4 + k] == le_bytes(high, 4)[k]);
    }
    lemma_le32_low_bits(s, at, n);
    lemma_le32_low_bits(s, at + 4, high);
}

/// A number of 16 bits is read back from where it was written, high byte first.
pub proof fn lemma_be16_reads_back(s: Seq<u8>, at: int, n: int)
    requires
        0 <= n < 0x1_0000,
        laid_at(s, at, be_bytes(n, 2)),
    ensures
        be16(s, at) == n,
{
    reveal_with_fuel(be_bytes, 3);
    let part = be_bytes(n, 2);
    assert(part =~= seq![(n / 256 % 256) as u8, (n % 256) as u8]);
    assert(s[at + 0] == part[0] && s[at + 1] == part[1]);
    assert(n == n % 256 + 256 * (n / 256) && n / 256 % 256 == n / 256);
}

/// A number of 32 bits is read back from where it was written, high byte first.
pub proof fn lemma_be32_reads_back(s: Seq<u8>, at: int, n: int)
    requires
        0 <= n < 0x1_0000_0000,
        laid_at(s, at, be_bytes(n, 4)),
    ensures
        be32(s, at) == n,
{
    reveal_with_fuel(be_bytes, 5);
    let part = be_bytes(n, 4);
    assert(n / 256 / 256 == n / 0x1_0000 && n / 256 / 256 / 256 == n / 0x100_0000);
    assert(part =~= seq![
        (n / 0x100_0000 % 256) as u8,
        (n / 0x1_0000 % 256) as u8,
        (n / 256 % 256) as u8,
        (n % 256) as u8,
    ]);
    assert(s[at + 0] == part[0] && s[at + 1] == part[1] && s[at + 2] == part[2] && s[at + 3]
        == part[3]);
    assert(n == n % 256 + 256 * (n / 256 % 256) + 0x1_0000 * (n / 0x1_0000 % 256) + 0x100_0000 * (n
        / 0x100_0000) && n / 0x100_0000 % 256 == n / 0x100_0000);
}

/// The parts of a file, one behind the other.
pub open spec fn joined(parts: Seq<Seq<u8>>) -> Seq<u8>
    decreases parts.len(),
{
    if parts.len() == 0 {
        seq![]
    } else {
        joined(parts.drop_last()) + parts.last()
    }
}

/// Where part `i` of a file begins.
pub open spec fn place_of(parts: Seq<Seq<u8>>, i: int) -> int
    decreases i,
{
    if i <= 0 {
        0
    } else {
        place_of(parts, i - 1) + parts[i - 1].len()
    }
}

/// Each part lies where the parts in front of it end.
pub proof fn lemma_parts_lie_in_place(parts: Seq<Seq<u8>>, i: int)
    requires
        0 <= i < parts.len(),
    ensures
        laid_at(joined(parts), place_of(parts, i), parts[i]),
        place_of(parts, i + 1) <= joined(parts).len(),
        joined(parts).len() == place_of(parts, parts.len() as int),
    decreases parts.len(),
{
    let front = parts.drop_last();
    lemma_places_of_front(parts, i);
    lemma_places_of_front(parts, i + 1);
    if i < front.len() {
        lemma_parts_lie_in_place(front, i);
        lemma_places_of_front(parts, front.len() as int);
        assert(front[i] == parts[i]);
    } else {
        lemma_joined_length(front);
        lemma_places_of_front(parts, front.len() as int);
    }
}

proof fn lemma_places_of_front(parts: Seq<Seq<u8>>, i: int)
    requires
        parts.len() > 0,
    ensures
        0 <= place_of(parts, i),
        i < parts.len() ==> place_of(parts.drop_last(), i) == place_of(parts, i),
    decreases i,
{
    if i > 0 {
        lemma_places_of_front(parts, i - 1);
    }
}

proof fn lemma_joined_length(parts: Seq<Seq<u8>>)
    ensures
        joined(parts).len() == place_of(parts, parts.len() as int),
    decreases parts.len(),
{
    if parts.len() > 0 {
        lemma_joined_length(parts.drop_last());
        lemma_places_of_front(parts, parts.len() - 1);
    }
}

/// What lies in a part of a file lies in the file.
pub proof fn lemma_laid_within(s: Seq<u8>, at: int, part: Seq<u8>, inner: int, piece: Seq<u8>)
    requires
        laid_at(s, at, part),
        laid_at(part, inner, piece),
    ensures
        laid_at(s, at + inner, piece),
{
    assert forall|k: int| 0 <= k < piece.len() implies s[at + inner + k] == #[trigger] piece[k] by {
        assert(part[inner + k] == piece[k]);
        assert(s[at + (inner + k)] == part[inner + k]);
    }
}

} // verus!
