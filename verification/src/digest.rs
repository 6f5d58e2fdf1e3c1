//! SHA-256 through the `sha2` crate.

use vstd::prelude::*;

verus! {

/// The SHA-256 digest of `data` (32 bytes); a function of `data` alone.
pub uninterp spec fn sha256(data: Seq<u8>) -> Seq<u8>;

/// The bytes fed to a hasher so far.
pub uninterp spec fn absorbed(h: Sha256Hasher) -> Seq<u8>;

/// A running SHA-256 computation (`sha2::Sha256`). Its type is a generic
/// alias that Verus cannot declare, so it is held opaquely here; what it
/// has absorbed is named by `absorbed`.
#[verifier::external_body]
pub struct Sha256Hasher {
    inner: sha2::Sha256,
}

impl Sha256Hasher {
    /// `Sha256::new`: a hasher that has absorbed nothing.
    #[verifier::external_body]
    pub(crate) fn new() -> (res: Sha256Hasher)
        ensures
            absorbed(res) == Seq::<u8>::empty(),
    {
        Sha256Hasher { inner: <sha2::Sha256 as sha2::Digest>::new() }
    }

    /// `Digest::update`: absorbs `data` after what came before.
    #[verifier::external_body]
    pub(crate) fn update(&mut self, data: &[u8])
        ensures
            absorbed(*final(self)) == absorbed(*old(self)) + data@,
    {
        sha2::Digest::update(&mut self.inner, data);
    }

    /// `Digest::finalize`: the digest of all absorbed bytes. Stated: it is
    /// `sha256` of them and 32 bytes long; the hash function itself is left
    /// to the outside crate.
    #[verifier::external_body]
    pub(crate) fn finalize(self) -> (res: Vec<u8>)
        ensures
            res@ == sha256(absorbed(self)),
            res@.len() == 32,
    {
        sha2::Digest::finalize(self.inner).to_vec()
    }
}

/// The SHA-256 digest of a stream of bytes fed in pieces, with the bytes
/// fed so far.
pub struct StreamDigest {
    hasher: Sha256Hasher,
    fed: Ghost<Seq<u8>>,
}

impl StreamDigest {
    pub closed spec fn wf(&self) -> bool {
        absorbed(self.hasher) == self.fed@
    }

    /// The bytes fed so far.
    pub closed spec fn fed(&self) -> Seq<u8> {
        self.fed@
    }

    /// Nothing fed yet.
    pub fn new() -> (res: StreamDigest)
        ensures
            res.wf(),
            res.fed() == Seq::<u8>::empty(),
    {
        StreamDigest { hasher: Sha256Hasher::new(), fed: Ghost(Seq::empty()) }
    }

    /// Feeds the next piece.
    pub fn feed(&mut self, piece: &[u8])
        requires
            old(self).wf(),
        ensures
            final(self).wf(),
            final(self).fed() == old(self).fed() + piece@,
    {
        self.hasher.update(piece);
        self.fed = Ghost(self.fed@ + piece@);
    }

    /// The digest of everything fed.
    pub fn finish(self) -> (res: Vec<u8>)
        requires
            self.wf(),
        ensures
            res@ == sha256(self.fed()),
            res@.len() == 32,
    {
        self.hasher.finalize()
    }
}

} // verus!
