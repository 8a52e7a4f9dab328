//! Digests of content that comes in parts.

use crate::codec::sha256_text;
use sha2::Digest;
use vstd::prelude::*;

verus! {

/// A SHA-256 digest in progress: `sha2::Sha256`, an alias of a generic type that no declaration
/// fits.
#[verifier::external_body]
pub struct Sha256Feed {
    state: sha2::Sha256,
}

/// The bytes that a SHA-256 digest in progress has taken in.
pub uninterp spec fn sha256_fed(feed: Sha256Feed) -> Seq<u8>;

/// `sha2::Sha256::new`: nothing has been taken in.
#[verifier::external_body]
pub(crate) fn sha256_start() -> (r: Sha256Feed)
    ensures
        sha256_fed(r) == Seq::<u8>::empty(),
{
    Sha256Feed { state: sha2::Sha256::new() }
}

/// `sha2::Sha256::update`: the bytes come behind those taken in before.
#[verifier::external_body]
pub(crate) fn sha256_update(feed: &mut Sha256Feed, bytes: &[u8])
    ensures
        sha256_fed(*final(feed)) == sha256_fed(*old(feed)) + bytes@,
{
    feed.state.update(bytes);
}

/// `sha2::Sha256::finalize`, in lower-case hexadecimal: the same as the digest of all the bytes
/// at once.
#[verifier::external_body]
pub(crate) fn sha256_finish(feed: Sha256Feed) -> (r: String)
    ensures
        r@ == sha256_text(sha256_fed(feed)),
{
    format!("{:x}", feed.state.finalize())
}

/// A BLAKE3 digest in progress.
#[verifier::external_type_specification]
#[verifier::external_body]
pub struct ExBlake3Hasher(blake3::Hasher);

/// The bytes that a BLAKE3 digest in progress has taken in.
pub uninterp spec fn blake3_fed(hasher: blake3::Hasher) -> Seq<u8>;

/// What BLAKE3 makes of bytes, in lower-case hexadecimal.
pub uninterp spec fn blake3_text(bytes: Seq<u8>) -> Seq<char>;

/// `blake3::Hasher::new`: nothing has been taken in.
#[verifier::external_body]
pub(crate) fn blake3_start() -> (r: blake3::Hasher)
    ensures
        blake3_fed(r) == Seq::<u8>::empty(),
{
    blake3::Hasher::new()
}

/// `blake3::Hasher::update`: the bytes come behind those taken in before.
#[verifier::external_body]
pub(crate) fn blake3_update(hasher: &mut blake3::Hasher, bytes: &[u8])
    ensures
        blake3_fed(*final(hasher)) == blake3_fed(*old(hasher)) + bytes@,
{
    hasher.update(bytes);
}

/// `blake3::Hasher::finalize` and `blake3::Hash::to_hex`: the digest of all the bytes taken in,
/// in lower-case hexadecimal.
#[verifier::external_body]
pub(crate) fn blake3_finish(hasher: blake3::Hasher) -> (r: String)
    ensures
        r@ == blake3_text(blake3_fed(hasher)),
{
    hasher.finalize().to_hex().to_string()
}

} // verus!
