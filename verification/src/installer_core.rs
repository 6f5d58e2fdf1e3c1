//! Registry access shared by installer front ends: errors, and which layer
//! of a release holds the disk image.

use vstd::prelude::*;

use crate::oci::{concat, title_ends_with, ImageManifest, LayerDescriptor};

verus! {

/// Errors of listing, fetching and pulling release images.
#[derive(Debug)]
pub enum Error {
    Parse(String),
    Fetch(String),
    Io(String),
    NoImageLayer,
    UnexpectedManifestType,
}

impl Error {
    /// The text shown for the error.
    pub fn message(&self) -> (res: String)
        ensures
            res@ == (match self {
                Error::Parse(s) => "Failed to parse reference: "@ + s@,
                Error::Fetch(s) => "Registry error: "@ + s@,
                Error::Io(s) => "I/O error: "@ + s@,
                Error::NoImageLayer => "Manifest has no .img layer"@,
                Error::UnexpectedManifestType => "Expected image manifest, got image index"@,
            }),
    {
        match self {
            Error::Parse(s) => concat("Failed to parse reference: ", s.as_str()),
            Error::Fetch(s) => concat("Registry error: ", s.as_str()),
            Error::Io(s) => concat("I/O error: ", s.as_str()),
            Error::NoImageLayer => String::from_str("Manifest has no .img layer"),
            Error::UnexpectedManifestType => String::from_str(
                "Expected image manifest, got image index",
            ),
        }
    }
}

/// The layer holding the disk image: the first whose title ends with
/// `.img`.
pub fn image_layer(manifest: &ImageManifest) -> (res: Result<&LayerDescriptor, Error>)
    ensures
        match res {
            Ok(l) => exists|i: int|
                0 <= i < manifest.layers@.len() && manifest.layers@[i] == *l && title_ends_with(
                    *l,
                    ".img"@,
                ) && forall|j: int|
                    0 <= j < i ==> !title_ends_with(#[trigger] manifest.layers@[j], ".img"@),
            Err(e) => e is NoImageLayer && forall|j: int|
                0 <= j < manifest.layers@.len() ==> !title_ends_with(
                    #[trigger] manifest.layers@[j],
                    ".img"@,
                ),
        },
{
    match crate::oci::find_layer_by_suffix(manifest, ".img") {
        Some(l) => Ok(l),
        None => Err(Error::NoImageLayer),
    }
}

/// A manifest as the registry answers: an image manifest, or an index of
/// manifests for several platforms.
pub enum ManifestKind {
    Image(ImageManifest),
    ImageIndex,
}

/// The image manifest, refusing an index.
pub fn expect_image(manifest: ManifestKind) -> (res: Result<ImageManifest, Error>)
    ensures
        match manifest {
            ManifestKind::Image(m) => res == Ok::<ImageManifest, Error>(m),
            ManifestKind::ImageIndex => res matches Err(Error::UnexpectedManifestType),
        },
{
    match manifest {
        ManifestKind::Image(m) => Ok(m),
        ManifestKind::ImageIndex => Err(Error::UnexpectedManifestType),
    }
}

} // verus!
