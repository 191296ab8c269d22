//! SHA-256 digests and their hexadecimal spelling.

use vstd::prelude::*;
use sha2::Digest;

verus! {

/// The SHA-256 digest of a byte sequence.
pub uninterp spec fn sha256_digest(data: Seq<u8>) -> Seq<u8>;

pub open spec fn hex_digit_lower(d: int) -> char {
    if d < 10 {
        (48 + d) as char
    } else {
        (97 + d - 10) as char
    }
}

/// Two lower-case hex digits for every byte, high nibble first.
pub open spec fn hex_lower(b: Seq<u8>) -> Seq<char>
    decreases b.len(),
{
    if b.len() == 0 {
        Seq::empty()
    } else {
        hex_lower(b.drop_last()) + seq![hex_digit_lower(b.last() as int / 16), hex_digit_lower(b.last() as int % 16)]
    }
}

/// `sha2::Sha256::digest`: the SHA-256 digest of `data`, named `sha256_digest`;
/// a digest is 32 bytes long.
#[verifier::external_body]
pub(crate) fn sha256(data: &[u8]) -> (r: Vec<u8>)
    ensures
        r@ == sha256_digest(data@),
        r@.len() == 32,
{
    sha2::Sha256::digest(data).to_vec()
}

/// `hex::encode`: two lower-case hexadecimal digits per byte.
#[verifier::external_body]
pub(crate) fn hex_encode(data: &[u8]) -> (r: String)
    ensures
        r@ == hex_lower(data@),
{
    hex::encode(data)
}

/// A SHA-256 computation fed piece by piece. It holds a `sha2::Sha256`; Verus
/// does not take a declaration of that type (an alias of a generic wrapper over
/// several more outside types), so the struct is opaque and what it has been fed
/// is named by `streamed_bytes`.
#[verifier::external_body]
pub struct Sha256Stream {
    inner: sha2::Sha256,
}

/// The bytes fed to a stream so far.
pub uninterp spec fn streamed_bytes(s: Sha256Stream) -> Seq<u8>;

/// `sha2::Sha256::new`: a computation fed nothing yet.
#[verifier::external_body]
fn sha256_stream_new() -> (r: Sha256Stream)
    ensures
        streamed_bytes(r) == Seq::<u8>::empty(),
{
    Sha256Stream { inner: sha2::Sha256::new() }
}

/// `sha2::Digest::update`: feeds `chunk` after what was fed before.
#[verifier::external_body]
fn sha256_stream_update(s: &mut Sha256Stream, chunk: &[u8])
    ensures
        streamed_bytes(*final(s)) == streamed_bytes(*old(s)) + chunk@,
{
    s.inner.update(chunk)
}

/// `sha2::Digest::finalize`: the SHA-256 digest of everything fed, 32 bytes.
#[verifier::external_body]
fn sha256_stream_finalize(s: Sha256Stream) -> (r: Vec<u8>)
    ensures
        r@ == sha256_digest(streamed_bytes(s)),
        r@.len() == 32,
{
    s.inner.finalize().to_vec()
}

impl Sha256Stream {
    /// A digest computation that has been fed nothing.
    pub fn new() -> (r: Sha256Stream)
        ensures
            streamed_bytes(r) == Seq::<u8>::empty(),
    {
        sha256_stream_new()
    }

    /// Feeds the next piece of the data.
    pub fn feed(&mut self, chunk: &[u8])
        ensures
            streamed_bytes(*final(self)) == streamed_bytes(*old(self)) + chunk@,
    {
        sha256_stream_update(self, chunk)
    }

    /// The digest of all the data fed, in lower-case hexadecimal (64 characters).
    pub fn hex_digest(self) -> (r: String)
        ensures
            r@ == hex_lower(sha256_digest(streamed_bytes(self))),
            r@.len() == 64,
    {
        let d = sha256_stream_finalize(self);
        proof {
            lemma_hex_lower_len(d@);
        }
        hex_encode(&d)
    }
}

pub proof fn lemma_hex_lower_len(b: Seq<u8>)
    ensures
        hex_lower(b).len() == 2 * b.len(),
    decreases b.len(),
{
    if b.len() > 0 {
        lemma_hex_lower_len(b.drop_last());
    }
}

} // verus!
