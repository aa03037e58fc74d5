//! SHA-256 digests of downloaded bytes, computed by the `sha2` crate.
use vstd::prelude::*;

verus! {

/// The SHA-256 digest of a byte sequence, as `sha2::Sha256` computes it.
pub uninterp spec fn sha256_digest(bytes: Seq<u8>) -> Seq<u8>;

/// A running `sha2::Sha256` hash. `sha2::Sha256` is an alias of a generic
/// wrapper whose parameters Verus does not take as a declared outside type, so
/// the hasher is held here, hidden from Verus.
#[verifier::external_body]
pub struct Sha256State {
    inner: sha2::Sha256,
}

/// The bytes fed to a running hash so far.
pub uninterp spec fn sha256_fed(h: Sha256State) -> Seq<u8>;

/// `sha2::Sha256::new`: a hash fed nothing yet.
#[verifier::external_body]
pub fn sha256_start() -> (h: Sha256State)
    ensures
        sha256_fed(h) == Seq::<u8>::empty(),
{
    Sha256State { inner: <sha2::Sha256 as sha2::Digest>::new() }
}

/// `sha2::Digest::update`: the chunk is fed after what came before.
#[verifier::external_body]
pub fn sha256_feed(h: &mut Sha256State, chunk: &[u8])
    ensures
        sha256_fed(*final(h)) == sha256_fed(*old(h)) + chunk@,
{
    sha2::Digest::update(&mut h.inner, chunk);
}

/// `sha2::Digest::finalize`: the digest of all bytes fed, 32 bytes long.
#[verifier::external_body]
pub fn sha256_finish(h: Sha256State) -> (r: Vec<u8>)
    ensures
        r@ == sha256_digest(sha256_fed(h)),
        r@.len() == 32,
{
    sha2::Digest::finalize(h.inner).to_vec()
}

} // verus!
