use caustic::cosign::{build_reference, verify_layers_with_pubkey};
use caustic::oci::Error;
use sigstore::cosign::constraint::{Constraint, PrivateKeySigner};
use sigstore::cosign::SignatureLayer;
use sigstore::crypto::SigningScheme;
use sigstore::registry::OciReference;

const DIGEST: &str = "sha256:0123456789abcdef0123456789abcdef0123456789abcdef0123456789abcdef";

fn mint_signed_layer() -> (SignatureLayer, Vec<u8>) {
    let image_ref: OciReference = "ghcr.io/test/repo".parse().expect("valid reference");
    let mut layer = SignatureLayer::new_unsigned(&image_ref, DIGEST).expect("create unsigned layer");
    let signer = SigningScheme::ECDSA_P256_SHA256_ASN1
        .create_signer()
        .expect("create signer");
    let public_key_pem = signer
        .to_sigstore_keypair()
        .expect("keypair")
        .public_key_to_pem()
        .expect("public key pem")
        .into_bytes();
    let signer = PrivateKeySigner::new_with_signer(signer);
    assert!(signer.add_constraint(&mut layer).expect("sign layer"), "constraint applied");
    (layer, public_key_pem)
}

#[test]
fn build_reference_uses_tag_form_for_tag() {
    let reference = build_reference("ghcr.io/acme/img", "1.2.3").expect("valid reference");
    assert_eq!(reference.registry(), "ghcr.io");
    assert_eq!(reference.repository(), "acme/img");
    assert_eq!(reference.tag().unwrap(), "1.2.3");
    assert!(reference.digest().is_none());
}

#[test]
fn build_reference_uses_digest_form_for_digest() {
    let digest = format!("sha256:{}", "0".repeat(64));
    let reference = build_reference("ghcr.io/acme/img", &digest).expect("valid reference");
    assert_eq!(reference.repository(), "acme/img");
    assert_eq!(reference.digest().unwrap(), &digest);
    assert!(reference.tag().is_none());
}

#[test]
fn build_reference_rejects_malformed_reference() {
    assert!(matches!(build_reference("ghcr.io/Acme/IMG!", "1.0"), Err(Error::Parse(_))));
}

#[test]
fn verify_accepts_matching_key() {
    let (layer, public_key_pem) = mint_signed_layer();
    verify_layers_with_pubkey(&[layer], &public_key_pem).expect("verification passes");
}

#[test]
fn verify_rejects_wrong_key() {
    let (layer, _) = mint_signed_layer();
    let other = SigningScheme::ECDSA_P256_SHA256_ASN1
        .create_signer()
        .expect("create signer");
    let wrong_pem = other
        .to_sigstore_keypair()
        .expect("keypair")
        .public_key_to_pem()
        .expect("public key pem")
        .into_bytes();
    let err = verify_layers_with_pubkey(&[layer], &wrong_pem).unwrap_err();
    assert!(matches!(err, Error::Verify(_)));
}

#[test]
fn verify_rejects_tampered_payload() {
    let (mut layer, public_key_pem) = mint_signed_layer();
    layer.raw_data = b"tampered payload".to_vec();
    let err = verify_layers_with_pubkey(&[layer], &public_key_pem).unwrap_err();
    assert!(matches!(err, Error::Verify(_)));
}

#[test]
fn verify_rejects_empty_layer_list() {
    let (_, public_key_pem) = mint_signed_layer();
    let err = verify_layers_with_pubkey(&[], &public_key_pem).unwrap_err();
    assert!(matches!(err, Error::Verify(_)));
}

#[test]
fn verify_rejects_invalid_public_key() {
    let (layer, _) = mint_signed_layer();
    let err = verify_layers_with_pubkey(&[layer], b"not a key").unwrap_err();
    assert!(matches!(err, Error::Verify(_)));
}
