//! Key packages: what a member publishes so that others can add it to a group.
use crate::ciphersuites::Ciphersuite;
use crate::credentials::{
    spec_signed_by, spec_verified_by, Credential, CredentialTrait, CredentialView,
};
use crate::encode_util::extend_bytes;
use crate::extensions::{
    encode_extensions, spec_encode_extensions, spec_extension_views, Extension, ExtensionView,
};
use crate::traits::Encode;
use hpke_rs::hpke_types::{AeadAlgorithm, KdfAlgorithm, KemAlgorithm};
use hpke_rs::libcrux::HpkeLibcrux;
use hpke_rs::{Hpke, HpkeError, Mode};
use vstd::prelude::*;

verus! {

/// The KEMs of `hpke_rs`. Nothing is known of a value here.
#[verifier::external_type_specification]
#[verifier::external_body]
pub struct ExKemAlgorithm(KemAlgorithm);

/// The KDFs of `hpke_rs`. Nothing is known of a value here.
#[verifier::external_type_specification]
#[verifier::external_body]
pub struct ExKdfAlgorithm(KdfAlgorithm);

/// The AEADs of `hpke_rs`. Nothing is known of a value here.
#[verifier::external_type_specification]
#[verifier::external_body]
pub struct ExAeadAlgorithm(AeadAlgorithm);

/// The errors of `hpke_rs`. Nothing is known of a value here.
#[verifier::external_type_specification]
#[verifier::external_body]
pub struct ExHpkeError(HpkeError);

/// `KemAlgorithm::try_from` on a code point: the KEM of `hpke_rs` with that
/// code point. It has one for each of the four code points that the KEMs of
/// the ciphersuites have; of the others nothing is said.
#[verifier::external_body]
fn kem_algorithm(id: u16) -> (kem: Option<KemAlgorithm>)
    ensures
        id == 0x0010 || id == 0x0012 || id == 0x0020 || id == 0x0021 ==> kem.is_some(),
{
    KemAlgorithm::try_from(id).ok()
}

/// `KdfAlgorithm::try_from` on a code point: the KDF of `hpke_rs` with that
/// code point. It has one for the code points of HKDF with SHA-256 and with
/// SHA-512; of the others nothing is said.
#[verifier::external_body]
fn kdf_algorithm(id: u16) -> (kdf: Option<KdfAlgorithm>)
    ensures
        id == 0x0001 || id == 0x0003 ==> kdf.is_some(),
{
    KdfAlgorithm::try_from(id).ok()
}

/// `AeadAlgorithm::try_from` on a code point: the AEAD of `hpke_rs` with that
/// code point. It has one for each of the code points 1, 2 and 3; of the others
/// nothing is said.
#[verifier::external_body]
fn aead_algorithm(id: u16) -> (aead: Option<AeadAlgorithm>)
    ensures
        1 <= id <= 3 ==> aead.is_some(),
{
    AeadAlgorithm::try_from(id).ok()
}

/// `Hpke::try_new` in base mode with the libcrux provider, then
/// `generate_key_pair` on it: a fresh key pair for the KEM, private key first,
/// or the error of either call. The keys are random, and which KEMs the
/// provider has is its own matter: nothing is promised of the result.
#[verifier::external_body]
fn hpke_key_gen(kem: KemAlgorithm, kdf: KdfAlgorithm, aead: AeadAlgorithm) -> Result<
    (Vec<u8>, Vec<u8>),
    HpkeError,
> {
    let mut hpke = Hpke::<HpkeLibcrux>::try_new(Mode::Base, kem, kdf, aead)?;
    let (sk, pk) = hpke.generate_key_pair()?.into_keys();
    Ok((sk.as_slice().to_vec(), pk.as_slice().to_vec()))
}

/// Whether the key generation of `hpke_rs`, asked for a key pair for the KEM,
/// the KDF and the AEAD that it has for the code points of the algorithms of
/// `suite`, came back with `outcome`: a key pair, private key first, or none
/// where it returned an error.
pub closed spec fn spec_key_gen_outcome(
    suite: Ciphersuite,
    outcome: Option<(Seq<u8>, Seq<u8>)>,
) -> bool {
    exists|
        kem: KemAlgorithm,
        kdf: KdfAlgorithm,
        aead: AeadAlgorithm,
        generated: Result<(Vec<u8>, Vec<u8>), HpkeError>,
    |
        {
            &&& #[trigger] call_ensures(kem_algorithm, (suite.kem.spec_hpke_id(),), Some(kem))
            &&& #[trigger] call_ensures(
                kdf_algorithm,
                (suite.hpke_kdf.spec_hpke_id(),),
                Some(kdf),
            )
            &&& #[trigger] call_ensures(
                aead_algorithm,
                (suite.hpke_aead.spec_hpke_id(),),
                Some(aead),
            )
            &&& #[trigger] call_ensures(hpke_key_gen, (kem, kdf, aead), generated)
            &&& outcome == spec_key_pair(generated)
        }
}

/// The key pair that a key generation returned, if it returned one.
pub open spec fn spec_key_pair(generated: Result<(Vec<u8>, Vec<u8>), HpkeError>) -> Option<
    (Seq<u8>, Seq<u8>),
> {
    match generated {
        Ok(pair) => Some((pair.0@, pair.1@)),
        Err(_) => None,
    }
}

/// Why there is no key package.
#[derive(Debug, Copy, Clone, PartialEq, Eq, Structural)]
pub enum KeyPackageError {
    /// No HPKE key pair could be generated.
    KeyGenerationFailed,
}

/// The version of the protocol that a key package is for.
#[derive(Debug, Copy, Clone, PartialEq, Eq, Structural)]
pub enum ProtocolVersion {
    Reserved,
    Mls10,
}

impl ProtocolVersion {
    /// The version as a byte.
    pub open spec fn spec_byte(self) -> u8 {
        match self {
            ProtocolVersion::Reserved => 0,
            ProtocolVersion::Mls10 => 1,
        }
    }

    /// The version as a byte.
    pub fn byte(&self) -> (b: u8)
        ensures
            b == self.spec_byte(),
    {
        match self {
            ProtocolVersion::Reserved => 0,
            ProtocolVersion::Mls10 => 1,
        }
    }
}

impl Default for ProtocolVersion {
    fn default() -> (v: Self)
        ensures
            v == ProtocolVersion::Mls10,
    {
        ProtocolVersion::Mls10
    }
}

/// A member's HPKE init key with its credential, its extensions and a
/// signature over all of these.
#[derive(Debug)]
pub struct KeyPackage {
    pub version: ProtocolVersion,
    pub cipher_suite: Ciphersuite,
    pub public_hpke_init_key: Vec<u8>,
    pub private_hpke_init_key: Vec<u8>,
    pub credential: Box<Credential>,
    pub extensions: Vec<Extension>,
    pub signature: Vec<u8>,
}

/// What a key package holds.
pub struct KeyPackageView {
    pub version: ProtocolVersion,
    pub cipher_suite: Ciphersuite,
    pub public_hpke_init_key: Seq<u8>,
    pub private_hpke_init_key: Seq<u8>,
    pub credential: CredentialView,
    pub extensions: Seq<ExtensionView>,
    pub signature: Seq<u8>,
}

impl View for KeyPackage {
    type V = KeyPackageView;

    open spec fn view(&self) -> KeyPackageView {
        KeyPackageView {
            version: self.version,
            cipher_suite: self.cipher_suite,
            public_hpke_init_key: self.public_hpke_init_key@,
            private_hpke_init_key: self.private_hpke_init_key@,
            credential: self.credential@,
            extensions: spec_extension_views(self.extensions@),
            signature: self.signature@,
        }
    }
}

impl KeyPackageView {
    /// The bytes that are signed and that stand for the key package in a hash
    /// input: the version, the ciphersuite, the public init key as it is, the
    /// credential and the extensions. The private key and the signature are no
    /// part of them.
    pub open spec fn spec_to_bytes(self) -> Seq<u8> {
        seq![self.version.spec_byte()] + self.cipher_suite.spec_encode()
            + self.public_hpke_init_key + self.credential.spec_encode() + spec_encode_extensions(
            self.extensions,
        )
    }
}

impl KeyPackage {
    /// A key package without extensions and without a signature, around a
    /// fresh HPKE key pair for the KEM of the ciphersuite: the one that the key
    /// generation returned. `KeyGenerationFailed` where it returned none.
    pub fn new(
        version: ProtocolVersion,
        cipher_suite: Ciphersuite,
        credential: Box<Credential>,
    ) -> (r: Result<Self, KeyPackageError>)
        ensures
            r matches Ok(kp) ==> kp@ == (KeyPackageView {
                version,
                cipher_suite,
                public_hpke_init_key: kp@.public_hpke_init_key,
                private_hpke_init_key: kp@.private_hpke_init_key,
                credential: credential@,
                extensions: Seq::empty(),
                signature: Seq::empty(),
            }) && spec_key_gen_outcome(
                cipher_suite,
                Some((kp@.private_hpke_init_key, kp@.public_hpke_init_key)),
            ),
            r matches Err(e) ==> e == KeyPackageError::KeyGenerationFailed && spec_key_gen_outcome(
                cipher_suite,
                None,
            ),
    {
        let kem = kem_algorithm(cipher_suite.kem.hpke_id());
        let kdf = kdf_algorithm(cipher_suite.hpke_kdf.hpke_id());
        let aead = aead_algorithm(cipher_suite.hpke_aead.hpke_id());
        assert(call_ensures(kem_algorithm, (cipher_suite.kem.spec_hpke_id(),), kem));
        assert(call_ensures(kdf_algorithm, (cipher_suite.hpke_kdf.spec_hpke_id(),), kdf));
        assert(call_ensures(aead_algorithm, (cipher_suite.hpke_aead.spec_hpke_id(),), aead));
        match (kem, kdf, aead) {
            (Some(k), Some(d), Some(a)) => {
                let generated = hpke_key_gen(k, d, a);
                assert(call_ensures(hpke_key_gen, (k, d, a), generated));
                assert(spec_key_gen_outcome(cipher_suite, spec_key_pair(generated)));
                match generated {
                    Ok(key_pair) => Ok(
                        Self::from_key_pair(version, cipher_suite, credential, key_pair),
                    ),
                    Err(_) => Err(KeyPackageError::KeyGenerationFailed),
                }
            },
            // every algorithm of a ciphersuite has a code point that `hpke_rs` knows
            _ => Err(KeyPackageError::KeyGenerationFailed),
        }
    }

    /// A key package without extensions and without a signature, around the
    /// HPKE key pair `key_pair`, private key first.
    pub fn from_key_pair(
        version: ProtocolVersion,
        cipher_suite: Ciphersuite,
        credential: Box<Credential>,
        key_pair: (Vec<u8>, Vec<u8>),
    ) -> (kp: Self)
        ensures
            kp@ == (KeyPackageView {
                version,
                cipher_suite,
                public_hpke_init_key: key_pair.1@,
                private_hpke_init_key: key_pair.0@,
                credential: credential@,
                extensions: Seq::empty(),
                signature: Seq::empty(),
            }),
    {
        let (sk, pk) = key_pair;
        let kp = Self {
            version,
            cipher_suite,
            public_hpke_init_key: pk,
            private_hpke_init_key: sk,
            credential,
            extensions: Vec::new(),
            signature: Vec::new(),
        };
        assert(kp@.extensions =~= Seq::empty());
        kp
    }

    /// Adds `extension` behind the extensions of the key package.
    pub fn add_extension(&mut self, extension: Extension)
        ensures
            final(self)@ == (KeyPackageView {
                extensions: old(self)@.extensions.push(extension@),
                ..old(self)@
            }),
    {
        self.extensions.push(extension);
        assert(self@.extensions =~= old(self)@.extensions.push(extension@));
    }

    /// Adds `extensions`, in their order, behind the extensions of the key package.
    pub fn add_extensions(&mut self, extensions: &[Extension])
        ensures
            final(self)@ == (KeyPackageView {
                extensions: old(self)@.extensions + spec_extension_views(extensions@),
                ..old(self)@
            }),
    {
        let mut i: usize = 0;
        while i < extensions.len()
            invariant
                i <= extensions@.len(),
                self@ == (KeyPackageView {
                    extensions: old(self)@.extensions + spec_extension_views(
                        extensions@.subrange(0, i as int),
                    ),
                    ..old(self)@
                }),
            decreases extensions@.len() - i,
        {
            let ghost before = self@.extensions;
            let extension = extensions[i].clone();
            self.extensions.push(extension);
            i += 1;
            proof {
                let done = spec_extension_views(extensions@.subrange(0, i as int));
                assert(self@.extensions =~= before.push(extension@));
                assert(done =~= spec_extension_views(extensions@.subrange(0, i - 1)).push(
                    extension@,
                ));
                assert(self@.extensions =~= old(self)@.extensions + done);
            }
        }
        assert(extensions@.subrange(0, i as int) =~= extensions@);
    }

    /// The bytes that a signature over the key package covers.
    pub fn to_bytes(&self) -> (out: Vec<u8>)
        ensures
            out@ == self@.spec_to_bytes(),
    {
        let mut out = Vec::new();
        out.push(self.version.byte());
        let mut suite = self.cipher_suite.encode();
        out.append(&mut suite);
        extend_bytes(&mut out, self.public_hpke_init_key.as_slice());
        let mut credential = self.credential.encode();
        out.append(&mut credential);
        let mut extensions = encode_extensions(self.extensions.as_slice());
        out.append(&mut extensions);
        assert(out@ =~= self@.spec_to_bytes());
        out
    }

    /// Puts `signature` in the place of the key package's signature.
    pub fn set_signature(&mut self, signature: Vec<u8>)
        ensures
            final(self)@ == (KeyPackageView { signature: signature@, ..old(self)@ }),
    {
        self.signature = signature;
    }

    /// Has `credential` sign the bytes of the key package, and keeps the
    /// signature that it returns. Nothing else of the key package changes.
    pub fn sign<C: CredentialTrait>(&mut self, credential: &C)
        ensures
            final(self)@ == (KeyPackageView {
                signature: final(self)@.signature,
                ..old(self)@
            }),
            spec_signed_by(credential, old(self)@.spec_to_bytes(), final(self)@.signature),
    {
        let bytes = self.to_bytes();
        let data = bytes.as_slice();
        let sig = credential.sign(data);
        assert(call_ensures(C::sign, (credential, data), sig));
        self.set_signature(sig);
    }

    /// Asks `credential` whether the signature of the key package is a
    /// signature over its bytes, and returns the answer.
    pub fn verify<C: CredentialTrait>(&self, credential: &C) -> (valid: bool)
        ensures
            spec_verified_by(credential, self@.spec_to_bytes(), self@.signature, valid),
    {
        let bytes = self.to_bytes();
        let data = bytes.as_slice();
        let signature = self.signature.as_slice();
        let valid = credential.verify(data, signature);
        assert(call_ensures(C::verify, (credential, data, signature), valid));
        valid
    }
}

impl Encode for KeyPackage {
    open spec fn spec_encode(&self) -> Seq<u8> {
        self@.spec_to_bytes()
    }

    fn encode(&self) -> (out: Vec<u8>) {
        self.to_bytes()
    }
}

} // verus!
