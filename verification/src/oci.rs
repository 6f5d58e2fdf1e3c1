//! Registry references, image manifests and the errors of registry
//! operations.

use vstd::prelude::*;

use crate::text;

verus! {

/// Errors of registry operations and of checking what was pulled.
#[derive(Debug)]
pub enum Error {
    Parse(String),
    Fetch(String),
    Io(String),
    NoImageLayer,
    UnexpectedManifestType,
    MissingAnnotation(String),
    ChecksumMismatch(String),
    MissingSha256Sums,
    Verify(String),
    Other(String),
}

/// `a` followed by `b`.
pub fn concat(a: &str, b: &str) -> (res: String)
    ensures
        res@ == a@ + b@,
{
    let mut out = String::from_str(a);
    out.append(b);
    out
}

impl Error {
    /// The text shown for the error.
    pub fn message(&self) -> (res: String)
        ensures
            res@ == (match self {
                Error::Parse(s) => "Failed to parse reference: "@ + s@,
                Error::Fetch(s) => "Registry error: "@ + s@,
                Error::Io(s) => "I/O error: "@ + s@,
                Error::NoImageLayer => "Manifest has no .img layer"@,
                Error::UnexpectedManifestType => "Expected image manifest, got image index"@,
                Error::MissingAnnotation(s) => "Manifest missing "@ + s@ + " annotation"@,
                Error::ChecksumMismatch(s) => "Checksum mismatch for "@ + s@,
                Error::MissingSha256Sums => "SHA256SUMS file is missing"@,
                Error::Verify(s) => "Signature verification failed: "@ + s@,
                Error::Other(s) => s@,
            }),
    {
        match self {
            Error::Parse(s) => concat("Failed to parse reference: ", s.as_str()),
            Error::Fetch(s) => concat("Registry error: ", s.as_str()),
            Error::Io(s) => concat("I/O error: ", s.as_str()),
            Error::NoImageLayer => String::from_str("Manifest has no .img layer"),
            Error::UnexpectedManifestType => String::from_str(
                "Expected image manifest, got image index",
            ),
            Error::MissingAnnotation(s) => {
                let mut out = concat("Manifest missing ", s.as_str());
                out.append(" annotation");
                out
            },
            Error::ChecksumMismatch(s) => concat("Checksum mismatch for ", s.as_str()),
            Error::MissingSha256Sums => String::from_str("SHA256SUMS file is missing"),
            Error::Verify(s) => concat("Signature verification failed: ", s.as_str()),
            Error::Other(s) => String::from_str(s.as_str()),
        }
    }
}

pub const TITLE_ANNOTATION: &'static str = "org.opencontainers.image.title";

pub const VERSION_ANNOTATION: &'static str = "org.opencontainers.image.version";

pub const CREATED_ANNOTATION: &'static str = "org.opencontainers.image.created";

/// One layer (blob) of an image, as a manifest lists it.
#[derive(Clone, Debug)]
pub struct LayerDescriptor {
    pub media_type: String,
    pub digest: String,
    pub size: i64,
    pub urls: Option<Vec<String>>,
    pub annotations: Option<Vec<(String, String)>>,
}

/// An OCI image manifest: what this crate reads of one.
#[derive(Clone, Debug)]
pub struct ImageManifest {
    pub layers: Vec<LayerDescriptor>,
    pub annotations: Option<Vec<(String, String)>>,
}

/// Annotation pairs by the characters of their keys and values.
pub open spec fn pairs_view(v: Seq<(String, String)>) -> Seq<(Seq<char>, Seq<char>)> {
    v.map_values(|p: (String, String)| (p.0@, p.1@))
}

/// The value annotated under `key`: the first pair with that key (a
/// manifest's annotations hold each key once).
pub open spec fn lookup(pairs: Seq<(Seq<char>, Seq<char>)>, key: Seq<char>) -> Option<Seq<char>>
    decreases pairs.len(),
{
    if pairs.len() == 0 {
        None
    } else if pairs[0].0 == key {
        Some(pairs[0].1)
    } else {
        lookup(pairs.drop_first(), key)
    }
}

/// The annotation `key` of an optional annotation map.
pub open spec fn annotation(a: Option<Vec<(String, String)>>, key: Seq<char>) -> Option<Seq<char>> {
    match a {
        Some(v) => lookup(pairs_view(v@), key),
        None => None,
    }
}

proof fn lemma_lookup_skip(pairs: Seq<(Seq<char>, Seq<char>)>, key: Seq<char>, i: int)
    requires
        0 <= i <= pairs.len(),
        forall|j: int| 0 <= j < i ==> (#[trigger] pairs[j]).0 != key,
    ensures
        lookup(pairs, key) == lookup(pairs.skip(i), key),
    decreases i,
{
    if i > 0 {
        let t = pairs.drop_first();
        assert forall|j: int| 0 <= j < i - 1 implies (#[trigger] t[j]).0 != key by {
            assert(t[j] == pairs[j + 1]);
        }
        lemma_lookup_skip(t, key, i - 1);
        assert(t.skip(i - 1) =~= pairs.skip(i));
    } else {
        assert(pairs.skip(0) =~= pairs);
    }
}

/// The value under `key`, if any.
pub fn annotation_value<'a>(a: &'a Option<Vec<(String, String)>>, key: &str) -> (res: Option<&'a String>)
    ensures
        match res {
            Some(v) => annotation(*a, key@) == Some(v@),
            None => annotation(*a, key@).is_none(),
        },
{
    match a {
        None => None,
        Some(v) => {
            let ghost pv = pairs_view(v@);
            let mut i: usize = 0;
            while i < v.len()
                invariant
                    i <= v@.len(),
                    pv == pairs_view(v@),
                    annotation(*a, key@) == lookup(pv, key@),
                    forall|j: int| 0 <= j < i ==> (#[trigger] pv[j]).0 != key@,
                decreases v@.len() - i,
            {
                if text::str_eq(v[i].0.as_str(), key) {
                    proof {
                        lemma_lookup_skip(pv, key@, i as int);
                        assert(pv[i as int] == (v@[i as int].0@, v@[i as int].1@));
                        assert(pv.skip(i as int)[0] == pv[i as int]);
                        assert(pv[i as int].0 == key@);
                        assert(lookup(pv.skip(i as int), key@) == Some(v@[i as int].1@));
                    }
                    return Some(&v[i].1);
                }
                i = i + 1;
            }
            proof {
                lemma_lookup_skip(pv, key@, i as int);
                assert(pv.skip(i as int).len() == 0);
            }
            None
        },
    }
}

/// The release version a manifest is annotated with.
pub fn extract_version(manifest: &ImageManifest) -> (res: Result<String, Error>)
    ensures
        match res {
            Ok(v) => annotation(manifest.annotations, VERSION_ANNOTATION@) == Some(v@),
            Err(e) => annotation(manifest.annotations, VERSION_ANNOTATION@).is_none() && (match e {
                Error::MissingAnnotation(k) => k@ == VERSION_ANNOTATION@,
                _ => false,
            }),
        },
{
    match annotation_value(&manifest.annotations, VERSION_ANNOTATION) {
        Some(v) => Ok(v.clone()),
        None => Err(Error::MissingAnnotation(String::from_str(VERSION_ANNOTATION))),
    }
}

/// The creation time a manifest is annotated with, if any.
pub fn extract_created(manifest: &ImageManifest) -> (res: Option<String>)
    ensures
        match res {
            Some(v) => annotation(manifest.annotations, CREATED_ANNOTATION@) == Some(v@),
            None => annotation(manifest.annotations, CREATED_ANNOTATION@).is_none(),
        },
{
    match annotation_value(&manifest.annotations, CREATED_ANNOTATION) {
        Some(v) => Some(v.clone()),
        None => None,
    }
}

/// The layer's title ends with `suffix`.
pub open spec fn title_ends_with(layer: LayerDescriptor, suffix: Seq<char>) -> bool {
    match annotation(layer.annotations, TITLE_ANNOTATION@) {
        Some(t) => suffix.is_suffix_of(t),
        None => false,
    }
}

/// The first layer whose title annotation ends with `suffix`.
pub fn find_layer_by_suffix<'a>(manifest: &'a ImageManifest, suffix: &str) -> (res: Option<
    &'a LayerDescriptor,
>)
    ensures
        match res {
            Some(l) => exists|i: int|
                0 <= i < manifest.layers@.len() && manifest.layers@[i] == *l && title_ends_with(
                    *l,
                    suffix@,
                ) && forall|j: int|
                    0 <= j < i ==> !title_ends_with(#[trigger] manifest.layers@[j], suffix@),
            None => forall|j: int|
                0 <= j < manifest.layers@.len() ==> !title_ends_with(
                    #[trigger] manifest.layers@[j],
                    suffix@,
                ),
        },
{
    let mut i: usize = 0;
    while i < manifest.layers.len()
        invariant
            i <= manifest.layers@.len(),
            forall|j: int|
                0 <= j < i ==> !title_ends_with(#[trigger] manifest.layers@[j], suffix@),
        decreases manifest.layers@.len() - i,
    {
        let layer = &manifest.layers[i];
        let hit = match annotation_value(&layer.annotations, TITLE_ANNOTATION) {
            Some(t) => text::str_ends_with(t.as_str(), suffix),
            None => false,
        };
        if hit {
            return Some(layer);
        }
        i = i + 1;
    }
    None
}

#[verifier::external_type_specification]
#[verifier::external_body]
pub struct ExReference(oci_client::Reference);

/// Why `oci_client::Reference::from_str` refuses `s` (the error's text), or
/// `None` where it accepts it; a function of `s` alone.
pub uninterp spec fn reference_error(s: Seq<char>) -> Option<Seq<char>>;

/// `oci_client::Reference::from_str`. Stated: it succeeds exactly where
/// `reference_error` is `None`, and fails with that text otherwise; which
/// references are accepted is left to the outside crate.
#[verifier::external_body]
fn parse_reference_text(s: &str) -> (res: Result<oci_client::Reference, String>)
    ensures
        match res {
            Ok(_) => reference_error(s@).is_none(),
            Err(m) => reference_error(s@) == Some(m@),
        },
{
    s.parse::<oci_client::Reference>().map_err(|e: oci_client::ParseError| e.to_string())
}

/// A registry reference, as `oci_client` reads it.
pub fn parse_reference(text: &str) -> (res: Result<oci_client::Reference, Error>)
    ensures
        match res {
            Ok(_) => reference_error(text@).is_none(),
            Err(Error::Parse(m)) => reference_error(text@) == Some(m@),
            Err(_) => false,
        },
{
    match parse_reference_text(text) {
        Ok(r) => Ok(r),
        Err(m) => Err(Error::Parse(m)),
    }
}

/// The reference `registry:tag`.
pub fn parse_ref(registry: &str, tag: &str) -> (res: Result<oci_client::Reference, Error>)
    ensures
        match res {
            Ok(_) => reference_error(registry@ + ":"@ + tag@).is_none(),
            Err(Error::Parse(m)) => reference_error(registry@ + ":"@ + tag@) == Some(m@),
            Err(_) => false,
        },
{
    let mut full = concat(registry, ":");
    full.append(tag);
    parse_reference(full.as_str())
}

} // verus!
