//! Image download checks: which checksum a `SHA256SUMS` listing gives for
//! the compressed image, and whether the downloaded bytes match it.

use vstd::prelude::*;

use crate::oci::concat;
use crate::text;
use crate::digest::{sha256, StreamDigest};
use crate::disk::opt_view;
use crate::verify::{hex_lower, to_hex_lower};

verus! {

/// Errors of a download.
#[derive(Debug, Clone)]
pub enum Error {
    RequestFailed(String),
    NoContentLength,
    IoFailed(String),
    ChecksumMismatch { expected: String, actual: String },
}

impl Error {
    /// The text shown for the error.
    pub fn message(&self) -> (res: String)
        ensures
            res@ == (match self {
                Error::RequestFailed(s) => "Request failed: "@ + s@,
                Error::NoContentLength => "Server did not report content length"@,
                Error::IoFailed(s) => "I/O error: "@ + s@,
                Error::ChecksumMismatch { expected, actual } => "Checksum mismatch: expected "@
                    + expected@ + ", got "@ + actual@,
            }),
    {
        match self {
            Error::RequestFailed(s) => concat("Request failed: ", s.as_str()),
            Error::NoContentLength => String::from_str("Server did not report content length"),
            Error::IoFailed(s) => concat("I/O error: ", s.as_str()),
            Error::ChecksumMismatch { expected, actual } => {
                let mut m = concat("Checksum mismatch: expected ", expected.as_str());
                m.append(", got ");
                m.append(actual.as_str());
                m
            },
        }
    }
}

/// The checksum listed for the first line naming a `.img.xz` file: the
/// line's first whitespace-separated field.
pub open spec fn image_checksum(ls: Seq<Seq<char>>) -> Option<Seq<char>>
    decreases ls.len(),
{
    if ls.len() == 0 {
        None
    } else if ".img.xz"@.is_suffix_of(ls[0]) {
        text::first_token(ls[0])
    } else {
        image_checksum(ls.drop_first())
    }
}

proof fn lemma_image_checksum_skip(ls: Seq<Seq<char>>, i: int)
    requires
        0 <= i <= ls.len(),
        forall|j: int| 0 <= j < i ==> !".img.xz"@.is_suffix_of(#[trigger] ls[j]),
    ensures
        image_checksum(ls) == image_checksum(ls.skip(i)),
    decreases i,
{
    if i > 0 {
        let t = ls.drop_first();
        assert forall|j: int| 0 <= j < i - 1 implies !".img.xz"@.is_suffix_of(#[trigger] t[j]) by {
            assert(t[j] == ls[j + 1]);
        }
        assert(!".img.xz"@.is_suffix_of(ls[0]));
        lemma_image_checksum_skip(t, i - 1);
        assert(t.skip(i - 1) =~= ls.skip(i));
    } else {
        assert(ls.skip(0) =~= ls);
    }
}

/// The expected checksum of the image, from the text of a `SHA256SUMS` file.
pub fn parse_checksum(text: &str) -> (res: Option<String>)
    ensures
        match res {
            Some(h) => image_checksum(text::lines(text@)) == Some(h@),
            None => image_checksum(text::lines(text@)).is_none(),
        },
{
    let v = text::chars_of(text);
    let ranges = text::line_ranges(&v);
    let ghost ls = text::lines(v@);
    let mut i: usize = 0;
    while i < ranges.len()
        invariant
            i <= ranges@.len(),
            ls == text::lines(v@),
            v@ == text@,
            ranges@.len() == ls.len(),
            forall|j: int|
                0 <= j < ranges@.len() ==> {
                    &&& (#[trigger] ranges@[j]).0 <= ranges@[j].1 <= v@.len()
                    &&& v@.subrange(ranges@[j].0 as int, ranges@[j].1 as int) == ls[j]
                },
            forall|j: int| 0 <= j < i ==> !".img.xz"@.is_suffix_of(#[trigger] ls[j]),
        decreases ranges@.len() - i,
    {
        let (a, b) = ranges[i];
        if text::has_suffix_at(&v, a, b, ".img.xz") {
            proof {
                lemma_image_checksum_skip(ls, i as int);
                assert(ls.skip(i as int)[0] == ls[i as int]);
                assert(ls[i as int] == v@.subrange(a as int, b as int));
                assert(image_checksum(ls.skip(i as int)) == text::first_token(ls[i as int]));
            }
            return match text::first_token_at(&v, a, b) {
                Some((x, y)) => Some(text::string_from(&v, x, y)),
                None => None,
            };
        }
        i = i + 1;
    }
    proof {
        lemma_image_checksum_skip(ls, i as int);
        assert(ls.skip(i as int).len() == 0);
    }
    None
}

/// Compares the digest of the downloaded image with the expected checksum,
/// if there is one, ignoring ASCII case.
pub fn check_checksum(expected: Option<String>, digest: &[u8]) -> (res: Result<(), Error>)
    ensures
        match expected {
            None => res is Ok,
            Some(e) => if text::eq_ignore_ascii_case(hex_lower(digest@), e@) {
                res is Ok
            } else {
                res matches Err(Error::ChecksumMismatch { expected: x, actual: a }) && x@ == e@
                    && a@ == hex_lower(digest@)
            },
        },
{
    match expected {
        None => Ok(()),
        Some(e) => {
            let actual = to_hex_lower(digest);
            if text::str_eq_ignore_ascii_case(actual.as_str(), e.as_str()) {
                Ok(())
            } else {
                Err(Error::ChecksumMismatch { expected: e, actual })
            }
        },
    }
}

/// An image being downloaded: the size the server announced, the checksum
/// it must have (if one was listed), what arrived so far and its digest.
pub struct ImageDownload {
    pub digest: StreamDigest,
    pub downloaded: u64,
    pub total: u64,
    pub expected: Option<String>,
}

impl ImageDownload {
    pub open spec fn wf(&self) -> bool {
        self.digest.wf() && self.downloaded == self.digest.fed().len()
    }

    /// The bytes received so far.
    pub open spec fn received(&self) -> Seq<u8> {
        self.digest.fed()
    }

    /// Starts a download whose response announced `content_length` bytes;
    /// a response without a length is refused.
    pub fn start(content_length: Option<u64>, expected: Option<String>) -> (res: Result<
        ImageDownload,
        Error,
    >)
        ensures
            match content_length {
                None => res matches Err(Error::NoContentLength),
                Some(t) => res matches Ok(d) && d.wf() && d.total == t && d.downloaded == 0
                    && d.received() == Seq::<u8>::empty() && opt_view(d.expected) == opt_view(
                    expected,
                ),
            },
    {
        match content_length {
            None => Err(Error::NoContentLength),
            Some(total) => Ok(ImageDownload { digest: StreamDigest::new(), downloaded: 0, total, expected }),
        }
    }

    /// Takes in the next piece of the image.
    pub fn receive(&mut self, piece: &[u8])
        requires
            old(self).wf(),
            old(self).downloaded + piece@.len() <= u64::MAX,
        ensures
            final(self).wf(),
            final(self).received() == old(self).received() + piece@,
            final(self).downloaded == old(self).downloaded + piece@.len(),
            final(self).total == old(self).total,
            final(self).expected == old(self).expected,
    {
        self.digest.feed(piece);
        self.downloaded = self.downloaded + piece.len() as u64;
    }

    /// Once everything arrived: checks the digest of the image against the
    /// listed checksum, ignoring ASCII case; passes where none was listed.
    pub fn finish(self) -> (res: Result<(), Error>)
        requires
            self.wf(),
        ensures
            match self.expected {
                None => res is Ok,
                Some(e) => if text::eq_ignore_ascii_case(hex_lower(sha256(self.received())), e@) {
                    res is Ok
                } else {
                    res matches Err(Error::ChecksumMismatch { expected: x, actual: a }) && x@ == e@
                        && a@ == hex_lower(sha256(self.received()))
                },
            },
    {
        let expected = self.expected;
        let digest = self.digest.finish();
        check_checksum(expected, digest.as_slice())
    }
}

} // verus!
