use mls_protospec::ciphersuites::{
    get_aead_from_suite, get_hash_from_suite, get_hpke_aead_from_suite, get_hpke_kdf_from_suite,
    get_kdf_from_suite, get_kem_from_suite, get_signature_from_suite, AeadMode, Ciphersuite,
    CiphersuiteError, DigestMode, HmacMode, HpkeAeadMode, HpkeKdfMode, KemMode, Name,
    SignatureMode,
};
use mls_protospec::credentials::{BasicCredential, Credential};
use mls_protospec::encode_util::{encode_length, encode_slice, encode_u32_slice, LenType};
use mls_protospec::extensions::{encode_extensions, Extension};
use mls_protospec::key_package::{KeyPackage, KeyPackageError, ProtocolVersion};
use mls_protospec::proposal::{Proposal, ProposalMessage, ProposalType};
use mls_protospec::traits::Encode;
use mls_protospec::tree::tree_hash::{LeafNodeHashInput, ParentNode, ParentNodeHashInput};

#[test]
fn test_ciphersuite() {
    assert_eq!(Ciphersuite::try_from(1).unwrap(), Ciphersuite::default());
}

#[test]
fn the_registry_has_six_suites() {
    let names = [
        Name::MLS10_128_DHKEMX25519_AES128GCM_SHA256_Ed25519,
        Name::MLS10_128_DHKEMP256_AES128GCM_SHA256_P256,
        Name::MLS10_128_DHKEMX25519_CHACHA20POLY1305_SHA256_Ed25519,
        Name::MLS10_256_DHKEMX448_AES256GCM_SHA512_Ed448,
        Name::MLS10_256_DHKEMP521_AES256GCM_SHA512_P521,
        Name::MLS10_256_DHKEMX448_CHACHA20POLY1305_SHA512_Ed448,
    ];
    for (i, name) in names.iter().enumerate() {
        let id = (i + 1) as u16;
        assert_eq!(name.id(), id);
        assert_eq!(u16::from(name), id);
        assert_eq!(Name::from_id(id), Some(*name));
        let suite = Ciphersuite::try_from(id).unwrap();
        assert_eq!(suite, Ciphersuite::new(*name));
        assert_eq!(suite, Ciphersuite::from(*name));
        assert_eq!(suite.get_name(), name);
        assert_eq!(suite.encode(), vec![0, id as u8]);
    }
    assert_eq!(Ciphersuite::try_from(0), Err(CiphersuiteError::UnsupportedCiphersuite));
    assert_eq!(Ciphersuite::try_from(7), Err(CiphersuiteError::UnsupportedCiphersuite));
    assert_eq!(Ciphersuite::try_from(0xffff), Err(CiphersuiteError::UnsupportedCiphersuite));
    assert_eq!(Name::from_id(0), None);
}

#[test]
fn the_algorithms_of_the_suites() {
    let s1 = Name::MLS10_128_DHKEMX25519_AES128GCM_SHA256_Ed25519;
    let s2 = Name::MLS10_128_DHKEMP256_AES128GCM_SHA256_P256;
    let s3 = Name::MLS10_128_DHKEMX25519_CHACHA20POLY1305_SHA256_Ed25519;
    let s4 = Name::MLS10_256_DHKEMX448_AES256GCM_SHA512_Ed448;
    let s5 = Name::MLS10_256_DHKEMP521_AES256GCM_SHA512_P521;
    let s6 = Name::MLS10_256_DHKEMX448_CHACHA20POLY1305_SHA512_Ed448;

    assert_eq!(get_hash_from_suite(&s1), DigestMode::Sha256);
    assert_eq!(get_hash_from_suite(&s3), DigestMode::Sha256);
    assert_eq!(get_hash_from_suite(&s4), DigestMode::Sha512);
    assert_eq!(get_hash_from_suite(&s6), DigestMode::Sha512);
    assert_eq!(DigestMode::Sha256.digest_size(), 32);
    assert_eq!(DigestMode::Sha512.digest_size(), 64);

    assert_eq!(get_kdf_from_suite(&s2), HmacMode::Sha256);
    assert_eq!(get_kdf_from_suite(&s5), HmacMode::Sha512);
    assert_eq!(HmacMode::Sha256.tag_size(), 32);
    assert_eq!(HmacMode::Sha512.tag_size(), 64);

    assert_eq!(get_aead_from_suite(&s1), AeadMode::Aes128Gcm);
    assert_eq!(get_aead_from_suite(&s2), AeadMode::Aes128Gcm);
    assert_eq!(get_aead_from_suite(&s3), AeadMode::Chacha20Poly1305);
    assert_eq!(get_aead_from_suite(&s4), AeadMode::Aes256Gcm);
    assert_eq!(get_aead_from_suite(&s5), AeadMode::Aes256Gcm);
    assert_eq!(get_aead_from_suite(&s6), AeadMode::Chacha20Poly1305);

    assert_eq!(get_signature_from_suite(&s1), SignatureMode::Ed25519);
    assert_eq!(get_signature_from_suite(&s2), SignatureMode::P256);
    assert_eq!(get_signature_from_suite(&s3), SignatureMode::Ed25519);
    assert_eq!(get_signature_from_suite(&s4), SignatureMode::Ed448);
    assert_eq!(get_signature_from_suite(&s5), SignatureMode::P521);
    assert_eq!(get_signature_from_suite(&s6), SignatureMode::Ed448);

    assert_eq!(get_kem_from_suite(&s1), KemMode::DhKem25519);
    assert_eq!(get_kem_from_suite(&s2), KemMode::DhKemP256);
    assert_eq!(get_kem_from_suite(&s3), KemMode::DhKem25519);
    assert_eq!(get_kem_from_suite(&s4), KemMode::DhKem448);
    assert_eq!(get_kem_from_suite(&s5), KemMode::DhKemP521);
    assert_eq!(get_kem_from_suite(&s6), KemMode::DhKem448);

    assert_eq!(get_hpke_aead_from_suite(&s1), HpkeAeadMode::AesGcm128);
    assert_eq!(get_hpke_aead_from_suite(&s3), HpkeAeadMode::ChaCha20Poly1305);
    assert_eq!(get_hpke_aead_from_suite(&s5), HpkeAeadMode::AesGcm256);
    assert_eq!(get_hpke_aead_from_suite(&s6), HpkeAeadMode::ChaCha20Poly1305);
    assert_eq!(get_hpke_kdf_from_suite(&s1), HpkeKdfMode::HkdfSha256);
    assert_eq!(get_hpke_kdf_from_suite(&s4), HpkeKdfMode::HkdfSha512);
}

#[test]
fn integers_are_big_endian() {
    assert_eq!(0xabu8.encode(), vec![0xab]);
    assert_eq!(0x0102u16.encode(), vec![1, 2]);
    assert_eq!(0x01020304u32.encode(), vec![1, 2, 3, 4]);
    assert_eq!(0x0102030405060708u64.encode(), vec![1, 2, 3, 4, 5, 6, 7, 8]);
    assert_eq!(0u32.encode(), vec![0, 0, 0, 0]);
    assert_eq!(u64::MAX.encode(), vec![0xff; 8]);
}

#[test]
fn lengths_in_every_width() {
    let mut out = vec![0xee];
    encode_length(LenType::L8, 5, &mut out);
    assert_eq!(out, vec![0xee, 5]);
    encode_length(LenType::L16, 0x1234, &mut out);
    assert_eq!(out, vec![0xee, 5, 0x12, 0x34]);
    let mut out = Vec::new();
    encode_length(LenType::L32, 0x01020304, &mut out);
    assert_eq!(out, vec![1, 2, 3, 4]);
    let mut out = Vec::new();
    encode_length(LenType::L64, 258, &mut out);
    assert_eq!(out, vec![0, 0, 0, 0, 0, 0, 1, 2]);
    // a length that does not fit loses its high bytes
    let mut out = Vec::new();
    encode_length(LenType::L8, 0x1ff, &mut out);
    assert_eq!(out, vec![0xff]);
    let mut out = Vec::new();
    encode_length(LenType::L16, 0x12345, &mut out);
    assert_eq!(out, vec![0x23, 0x45]);
}

#[test]
fn slices_behind_their_lengths() {
    let mut out = Vec::new();
    encode_slice(LenType::L16, &[7, 8, 9], &mut out);
    assert_eq!(out, vec![0, 3, 7, 8, 9]);
    encode_slice(LenType::L8, &[], &mut out);
    assert_eq!(out, vec![0, 3, 7, 8, 9, 0]);

    let mut out = Vec::new();
    encode_u32_slice(LenType::L32, &[1, 0x01020304], &mut out);
    // the number of items, not of bytes
    assert_eq!(out, vec![0, 0, 0, 2, 0, 0, 0, 1, 1, 2, 3, 4]);
    let mut out = vec![1];
    encode_u32_slice(LenType::L8, &[], &mut out);
    assert_eq!(out, vec![1, 0]);
}

#[test]
fn options_have_a_tag_byte() {
    assert_eq!(Some(0x0102u16).encode(), vec![1, 1, 2]);
    assert_eq!(None::<u16>.encode(), vec![0]);
    assert_eq!(Some(Some(5u8)).encode(), vec![1, 1, 5]);
}

#[test]
fn extensions_and_their_list() {
    let a = Extension::new(0x0102, vec![9, 8]);
    let b = Extension::new(3, vec![]);
    assert_eq!(a.encode(), vec![1, 2, 0, 2, 9, 8]);
    assert_eq!(b.encode(), vec![0, 3, 0, 0]);
    assert_eq!(a.clone().encode(), a.encode());
    assert_eq!(
        encode_extensions(&[a, b]),
        vec![0, 0, 0, 10, 1, 2, 0, 2, 9, 8, 0, 3, 0, 0]
    );
    assert_eq!(encode_extensions(&[]), vec![0, 0, 0, 0]);
}

#[test]
fn credentials_leave_the_private_key_out() {
    let basic = BasicCredential::new(vec![1, 2], vec![3], vec![4, 5, 6]);
    assert_eq!(basic.encode(), vec![0, 2, 1, 2, 0, 1, 3]);
    let credential = Credential::new(0x0105, basic);
    assert_eq!(credential.encode(), vec![1, 5, 0, 2, 1, 2, 0, 1, 3]);

    let c = BasicCredential::ed25519(vec![7; 3], vec![8; 2]);
    assert_eq!(c.identity, vec![8; 2]);
    assert_eq!(c.public_key, vec![8; 2]);
    assert_eq!(c.private_key, vec![7; 3]);
}

struct Signer;

impl mls_protospec::credentials::CredentialTrait for Signer {
    fn sign(&self, data: &[u8]) -> Vec<u8> {
        let mut sig = vec![0x51];
        sig.extend_from_slice(data);
        sig
    }

    fn verify(&self, data: &[u8], signature: &[u8]) -> bool {
        signature.len() == data.len() + 1 && signature[0] == 0x51 && &signature[1..] == data
    }
}

#[test]
fn key_packages() {
    let credential = Credential::new(1, BasicCredential::new(vec![1], vec![2], vec![3]));
    let suite = Ciphersuite::new(Name::MLS10_128_DHKEMP256_AES128GCM_SHA256_P256);
    let mut kp = KeyPackage::from_key_pair(
        ProtocolVersion::default(),
        suite,
        Box::new(credential),
        (vec![0x55, 0x66], vec![0xaa, 0xbb, 0xcc]),
    );
    assert_eq!(kp.public_hpke_init_key, vec![0xaa, 0xbb, 0xcc]);
    assert_eq!(kp.private_hpke_init_key, vec![0x55, 0x66]);
    assert!(kp.extensions.is_empty());
    assert!(kp.signature.is_empty());
    let bare: Vec<u8> = vec![
        1, // the version
        0, 2, // the ciphersuite
        0xaa, 0xbb, 0xcc, // the public key as it is
        0, 1, 0, 1, 1, 0, 1, 2, // the credential
        0, 0, 0, 0, // no extensions
    ];
    assert_eq!(kp.to_bytes(), bare);
    assert_eq!(kp.encode(), bare);

    kp.add_extension(Extension::new(1, vec![7]));
    kp.add_extensions(&[Extension::new(2, vec![]), Extension::new(3, vec![8, 9])]);
    assert_eq!(kp.extensions.len(), 3);
    let mut with: Vec<u8> = bare[..bare.len() - 4].to_vec();
    with.extend_from_slice(&[0, 0, 0, 15, 0, 1, 0, 1, 7, 0, 2, 0, 0, 0, 3, 0, 2, 8, 9]);
    assert_eq!(kp.to_bytes(), with);

    assert!(!kp.verify(&Signer));
    kp.sign(&Signer);
    let mut sig = vec![0x51];
    sig.extend_from_slice(&with);
    assert_eq!(kp.signature, sig);
    // the signature is no part of what is signed
    assert_eq!(kp.to_bytes(), with);
    assert!(kp.verify(&Signer));
    kp.set_signature(vec![1, 2, 3]);
    assert_eq!(kp.signature, vec![1, 2, 3]);
    assert!(!kp.verify(&Signer));

    assert_eq!(ProtocolVersion::Reserved.byte(), 0);
    assert_eq!(ProtocolVersion::Mls10.byte(), 1);
}

#[test]
fn hash_inputs() {
    let leaf = LeafNodeHashInput::new(0x0a0b0c0d, None);
    assert_eq!(leaf.encode(), vec![0x0a, 0x0b, 0x0c, 0x0d, 0]);

    let key = [1u8, 2, 3];
    let unmerged = [4u32, 6];
    let parent_hash = [9u8; 5];
    let record = ParentNode::new(&key, &unmerged, &parent_hash);
    assert_eq!(
        record.encode(),
        vec![0, 3, 1, 2, 3, 0, 0, 0, 2, 0, 0, 0, 4, 0, 0, 0, 6]
    );
    let input = ParentNodeHashInput::new(5, Some(record), vec![0x11, 0x12], vec![0x21]);
    assert_eq!(
        input.encode(),
        vec![0, 0, 0, 5, 1, 0, 3, 1, 2, 3, 0, 0, 0, 2, 0, 0, 0, 4, 0, 0, 0, 6, 0x11, 0x12, 0x21]
    );
    let input = ParentNodeHashInput::new(5, None, vec![0x11, 0x12], vec![0x21]);
    assert_eq!(input.encode(), vec![0, 0, 0, 5, 0, 0x11, 0x12, 0x21]);
}

#[test]
fn proposals_are_filed_under_their_kind() {
    let p = Proposal::remove(4);
    assert_eq!(p.proposal_type, ProposalType::Remove);
    assert!(matches!(p.msg, ProposalMessage::Remove(ref r) if r.removed == 4));
    let credential = Credential::new(1, BasicCredential::new(vec![1], vec![2], vec![3]));
    let kp = KeyPackage::from_key_pair(
        ProtocolVersion::Mls10,
        Ciphersuite::default(),
        Box::new(credential),
        (vec![1], vec![2]),
    );
    let bytes = kp.to_bytes();
    let p = Proposal::add(kp);
    assert_eq!(p.proposal_type, ProposalType::Add);
    assert!(matches!(p.msg, ProposalMessage::Add(ref a) if a.key_package.to_bytes() == bytes));
    assert_eq!(ProposalType::Invalid.byte(), 0);
    assert_eq!(ProposalType::Add.byte(), 1);
    assert_eq!(ProposalType::Update.byte(), 2);
    assert_eq!(ProposalType::Remove.byte(), 3);
}

#[test]
fn key_packages_get_a_fresh_key_pair() {
    let credential = || Box::new(Credential::new(1, BasicCredential::new(vec![1], vec![2], vec![3])));
    let suite = Ciphersuite::new(Name::MLS10_128_DHKEMX25519_AES128GCM_SHA256_Ed25519);
    let a = KeyPackage::new(ProtocolVersion::Mls10, suite, credential()).unwrap();
    let b = KeyPackage::new(ProtocolVersion::Mls10, suite, credential()).unwrap();
    assert_eq!(a.version, ProtocolVersion::Mls10);
    assert_eq!(a.cipher_suite, suite);
    assert_eq!(a.credential.credential_type, 1);
    assert!(a.extensions.is_empty());
    assert!(a.signature.is_empty());
    // an X25519 key pair, and another one each time
    assert_eq!(a.public_hpke_init_key.len(), 32);
    assert_eq!(a.private_hpke_init_key.len(), 32);
    assert_ne!(a.public_hpke_init_key, a.private_hpke_init_key);
    assert_ne!(a.private_hpke_init_key, b.private_hpke_init_key);
    assert_ne!(a.public_hpke_init_key, b.public_hpke_init_key);

    let suite = Ciphersuite::new(Name::MLS10_128_DHKEMP256_AES128GCM_SHA256_P256);
    let c = KeyPackage::new(ProtocolVersion::Mls10, suite, credential()).unwrap();
    // an uncompressed point of P-256
    assert_eq!(c.public_hpke_init_key.len(), 65);
    assert_eq!(c.public_hpke_init_key[0], 4);
    assert_eq!(c.private_hpke_init_key.len(), 32);

    let suite = Ciphersuite::new(Name::MLS10_128_DHKEMX25519_CHACHA20POLY1305_SHA256_Ed25519);
    assert!(KeyPackage::new(ProtocolVersion::Mls10, suite, credential()).is_ok());
}

#[test]
fn key_packages_of_a_kem_that_is_not_there() {
    let credential = Box::new(Credential::new(1, BasicCredential::new(vec![1], vec![2], vec![3])));
    let suite = Ciphersuite::new(Name::MLS10_256_DHKEMX448_AES256GCM_SHA512_Ed448);
    assert_eq!(
        KeyPackage::new(ProtocolVersion::Mls10, suite, credential).err(),
        Some(KeyPackageError::KeyGenerationFailed)
    );
}

#[test]
fn the_code_points_of_hpke() {
    assert_eq!(KemMode::DhKemP256.hpke_id(), 0x0010);
    assert_eq!(KemMode::DhKemP521.hpke_id(), 0x0012);
    assert_eq!(KemMode::DhKem25519.hpke_id(), 0x0020);
    assert_eq!(KemMode::DhKem448.hpke_id(), 0x0021);
    assert_eq!(HpkeKdfMode::HkdfSha256.hpke_id(), 1);
    assert_eq!(HpkeKdfMode::HkdfSha512.hpke_id(), 3);
    assert_eq!(HpkeAeadMode::AesGcm128.hpke_id(), 1);
    assert_eq!(HpkeAeadMode::AesGcm256.hpke_id(), 2);
    assert_eq!(HpkeAeadMode::ChaCha20Poly1305.hpke_id(), 3);
}
