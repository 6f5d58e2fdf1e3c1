//! Offline, key-based cosign signature verification.
//!
//! Only fetching the signature object needs the network (done by the
//! caller); the sigstore trust root and transparency log are not
//! consulted.

use vstd::prelude::*;

use crate::oci::{concat, Error};
use crate::text;

verus! {

#[verifier::external_type_specification]
#[verifier::external_body]
pub struct ExOciReference(sigstore::registry::OciReference);

#[verifier::external_type_specification]
pub struct ExSignatureLayer(sigstore::cosign::SignatureLayer);

#[verifier::external_type_specification]
#[verifier::external_body]
pub struct ExSimpleSigning(sigstore::cosign::payload::SimpleSigning);

#[verifier::external_type_specification]
#[verifier::external_body]
pub struct ExCertificateSignature(sigstore::cosign::signature_layers::CertificateSignature);

#[verifier::external_type_specification]
#[verifier::external_body]
pub struct ExBundle(sigstore::cosign::bundle::Bundle);

/// Why `sigstore`'s `OciReference::from_str` refuses `s` (the error's
/// text), or `None` where it accepts it; a function of `s` alone.
pub uninterp spec fn oci_reference_error(s: Seq<char>) -> Option<Seq<char>>;

/// `OciReference::from_str`. Stated: it succeeds exactly where
/// `oci_reference_error` is `None`, else fails with that text; which
/// references are valid is left to the outside crate.
#[verifier::external_body]
fn parse_oci_reference(s: &str) -> (res: Result<sigstore::registry::OciReference, String>)
    ensures
        match res {
            Ok(_) => oci_reference_error(s@).is_none(),
            Err(m) => oci_reference_error(s@) == Some(m@),
        },
{
    s.parse::<sigstore::registry::OciReference>().map_err(|e| e.to_string())
}

/// Why `PublicKeyVerifier::try_from` refuses the PEM bytes `pem` (the
/// error's text), or `None` where it accepts them; a function of `pem` alone.
pub uninterp spec fn public_key_error(pem: Seq<u8>) -> Option<Seq<char>>;

/// `PublicKeyVerifier::try_from`, keeping only its error. Stated: the
/// error is `public_key_error` of the bytes; which keys parse is left to
/// the outside crate.
#[verifier::external_body]
fn key_error(pem: &[u8]) -> (res: Option<String>)
    ensures
        match res {
            Some(m) => public_key_error(pem@) == Some(m@),
            None => public_key_error(pem@).is_none(),
        },
{
    sigstore::cosign::verification_constraint::PublicKeyVerifier::try_from(pem).err().map(
        |e| e.to_string(),
    )
}

/// Whether `signature` (base64, as cosign stores it) is a valid signature
/// of `payload` by the public key in the PEM bytes `pem`; a function of the
/// three alone (`SignatureLayer::is_signed_by_key`).
pub uninterp spec fn signed_by_key(pem: Seq<u8>, signature: Seq<char>, payload: Seq<u8>) -> bool;

/// A layer carries a signature of its payload by the key `pem`.
pub open spec fn layer_signed(layer: sigstore::cosign::SignatureLayer, pem: Seq<u8>) -> bool {
    layer.signature matches Some(s) && signed_by_key(pem, s@, layer.raw_data@)
}

/// At least one of the layers is signed by the key `pem`.
pub open spec fn some_layer_signed(layers: Seq<sigstore::cosign::SignatureLayer>, pem: Seq<u8>) -> bool {
    exists|i: int| 0 <= i < layers.len() && layer_signed(#[trigger] layers[i], pem)
}

/// `sigstore::cosign::verify_constraints` with a `PublicKeyVerifier` of
/// `pem` as the only constraint. Stated: it passes exactly when some layer's
/// signature verifies over that layer's `raw_data` with the key (what
/// `PublicKeyVerifier::verify` checks); the signature check itself is named
/// `signed_by_key`, and the error's text is left to the outside crate.
#[verifier::external_body]
fn verify_signed_by(
    layers: &[sigstore::cosign::SignatureLayer],
    pem: &[u8],
) -> (res: Result<(), String>)
    requires
        public_key_error(pem@).is_none(),
    ensures
        match res {
            Ok(_) => exists|i: int|
                0 <= i < layers@.len() && ((#[trigger] layers@[i]).signature matches Some(s)
                    && signed_by_key(pem@, s@, layers@[i].raw_data@)),
            Err(_) => forall|i: int|
                0 <= i < layers@.len() ==> !((#[trigger] layers@[i]).signature matches Some(s)
                    && signed_by_key(pem@, s@, layers@[i].raw_data@)),
        },
{
    let verifier = match sigstore::cosign::verification_constraint::PublicKeyVerifier::try_from(pem) {
        Ok(v) => v,
        Err(e) => return Err(e.to_string()),
    };
    let constraints: [Box<dyn sigstore::cosign::verification_constraint::VerificationConstraint>;
        1] = [Box::new(verifier)];
    sigstore::cosign::verify_constraints(layers, constraints.iter()).map_err(|e| e.to_string())
}

/// The reference text for a tag or a `sha256:` digest: `registry@digest`
/// for a digest (it pins the image), `registry:tag` otherwise.
pub open spec fn reference_text(registry: Seq<char>, reference_or_digest: Seq<char>) -> Seq<char> {
    if "sha256:"@.is_prefix_of(reference_or_digest) {
        registry + "@"@ + reference_or_digest
    } else {
        registry + ":"@ + reference_or_digest
    }
}

/// The reference to an image, by tag or by `sha256:` digest.
pub fn build_reference(registry: &str, reference_or_digest: &str) -> (res: Result<
    sigstore::registry::OciReference,
    Error,
>)
    ensures
        match res {
            Ok(_) => oci_reference_error(reference_text(registry@, reference_or_digest@)).is_none(),
            Err(Error::Parse(m)) => oci_reference_error(
                reference_text(registry@, reference_or_digest@),
            ) == Some(m@),
            Err(_) => false,
        },
{
    let mut full = if text::str_starts_with(reference_or_digest, "sha256:") {
        concat(registry, "@")
    } else {
        concat(registry, ":")
    };
    full.append(reference_or_digest);
    match parse_oci_reference(full.as_str()) {
        Ok(r) => Ok(r),
        Err(m) => Err(Error::Parse(m)),
    }
}

/// Checks signature layers against a PEM public key, without network
/// access: passes when at least one layer was signed by the key.
pub fn verify_layers_with_pubkey(
    layers: &[sigstore::cosign::SignatureLayer],
    public_key_pem: &[u8],
) -> (res: Result<(), Error>)
    ensures
        match public_key_error(public_key_pem@) {
            Some(m) => res matches Err(Error::Verify(e)) && e@ == m,
            None => res is Ok <==> some_layer_signed(layers@, public_key_pem@),
        },
        res matches Err(e) ==> e is Verify,
{
    match key_error(public_key_pem) {
        Some(m) => Err(Error::Verify(m)),
        None => match verify_signed_by(layers, public_key_pem) {
            Ok(()) => Ok(()),
            Err(m) => Err(Error::Verify(m)),
        },
    }
}

} // verus!
