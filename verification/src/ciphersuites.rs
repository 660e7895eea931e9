//! The registry of ciphersuites: each names one combination of hash, KEM,
//! AEAD, signature and KDF algorithms, and goes over the wire as 16 bits.
use crate::encode_util::spec_be_bytes;
use crate::traits::Encode;
use vstd::prelude::*;
use vstd::std_specs::convert::{FromSpecImpl, TryFromSpecImpl};

verus! {

/// The hash function of a ciphersuite.
#[derive(Debug, Clone, Copy, PartialEq, Eq, Structural)]
pub enum DigestMode {
    Sha256,
    Sha512,
}

/// The hash function under the HMAC and HKDF of a ciphersuite.
#[derive(Debug, Clone, Copy, PartialEq, Eq, Structural)]
pub enum HmacMode {
    Sha256,
    Sha512,
}

/// The AEAD of a ciphersuite.
#[derive(Debug, Clone, Copy, PartialEq, Eq, Structural)]
pub enum AeadMode {
    Aes128Gcm,
    Aes256Gcm,
    Chacha20Poly1305,
}

/// The signature scheme of a ciphersuite.
#[derive(Debug, Clone, Copy, PartialEq, Eq, Structural)]
pub enum SignatureMode {
    Ed25519,
    P256,
    Ed448,
    P521,
}

/// The KEM that HPKE runs with.
#[derive(Debug, Clone, Copy, PartialEq, Eq, Structural)]
pub enum KemMode {
    DhKem25519,
    DhKemP256,
    DhKem448,
    DhKemP521,
}

/// The KDF that HPKE runs with.
#[derive(Debug, Clone, Copy, PartialEq, Eq, Structural)]
pub enum HpkeKdfMode {
    HkdfSha256,
    HkdfSha512,
}

/// The AEAD that HPKE runs with.
#[derive(Debug, Clone, Copy, PartialEq, Eq, Structural)]
pub enum HpkeAeadMode {
    AesGcm128,
    AesGcm256,
    ChaCha20Poly1305,
}

/// Why a ciphersuite could not be had.
#[derive(Debug, Clone, Copy, PartialEq, Eq, Structural)]
pub enum CiphersuiteError {
    /// The identifier is not in the registry.
    UnsupportedCiphersuite,
}

/// The ciphersuites of the registry.
#[allow(non_camel_case_types)]
#[derive(Debug, Clone, Copy, PartialEq, Eq, Structural)]
pub enum Name {
    MLS10_128_DHKEMX25519_AES128GCM_SHA256_Ed25519,
    MLS10_128_DHKEMP256_AES128GCM_SHA256_P256,
    MLS10_128_DHKEMX25519_CHACHA20POLY1305_SHA256_Ed25519,
    MLS10_256_DHKEMX448_AES256GCM_SHA512_Ed448,
    MLS10_256_DHKEMP521_AES256GCM_SHA512_P521,
    MLS10_256_DHKEMX448_CHACHA20POLY1305_SHA512_Ed448,
}

impl Name {
    /// The identifier of the suite on the wire.
    pub open spec fn spec_id(self) -> u16 {
        match self {
            Name::MLS10_128_DHKEMX25519_AES128GCM_SHA256_Ed25519 => 0x0001,
            Name::MLS10_128_DHKEMP256_AES128GCM_SHA256_P256 => 0x0002,
            Name::MLS10_128_DHKEMX25519_CHACHA20POLY1305_SHA256_Ed25519 => 0x0003,
            Name::MLS10_256_DHKEMX448_AES256GCM_SHA512_Ed448 => 0x0004,
            Name::MLS10_256_DHKEMP521_AES256GCM_SHA512_P521 => 0x0005,
            Name::MLS10_256_DHKEMX448_CHACHA20POLY1305_SHA512_Ed448 => 0x0006,
        }
    }

    /// Whether the suite aims at 256 bits of security, and not at 128.
    pub open spec fn spec_is_256(self) -> bool {
        self.spec_id() >= 4
    }

    /// The suite with the identifier `v`, if the registry has one.
    pub open spec fn spec_from_id(v: u16) -> Option<Name> {
        if v == 1 {
            Some(Name::MLS10_128_DHKEMX25519_AES128GCM_SHA256_Ed25519)
        } else if v == 2 {
            Some(Name::MLS10_128_DHKEMP256_AES128GCM_SHA256_P256)
        } else if v == 3 {
            Some(Name::MLS10_128_DHKEMX25519_CHACHA20POLY1305_SHA256_Ed25519)
        } else if v == 4 {
            Some(Name::MLS10_256_DHKEMX448_AES256GCM_SHA512_Ed448)
        } else if v == 5 {
            Some(Name::MLS10_256_DHKEMP521_AES256GCM_SHA512_P521)
        } else if v == 6 {
            Some(Name::MLS10_256_DHKEMX448_CHACHA20POLY1305_SHA512_Ed448)
        } else {
            None
        }
    }

    /// The identifier of the suite on the wire.
    pub fn id(&self) -> (v: u16)
        ensures
            v == self.spec_id(),
            1 <= v <= 6,
    {
        match self {
            Name::MLS10_128_DHKEMX25519_AES128GCM_SHA256_Ed25519 => 0x0001,
            Name::MLS10_128_DHKEMP256_AES128GCM_SHA256_P256 => 0x0002,
            Name::MLS10_128_DHKEMX25519_CHACHA20POLY1305_SHA256_Ed25519 => 0x0003,
            Name::MLS10_256_DHKEMX448_AES256GCM_SHA512_Ed448 => 0x0004,
            Name::MLS10_256_DHKEMP521_AES256GCM_SHA512_P521 => 0x0005,
            Name::MLS10_256_DHKEMX448_CHACHA20POLY1305_SHA512_Ed448 => 0x0006,
        }
    }

    /// The suite with the identifier `v`; none for an identifier that the
    /// registry does not hold.
    pub fn from_id(v: u16) -> (name: Option<Name>)
        ensures
            name == Name::spec_from_id(v),
            name matches Some(n) ==> n.spec_id() == v,
            name.is_some() <==> 1 <= v <= 6,
    {
        match v {
            0x0001 => Some(Name::MLS10_128_DHKEMX25519_AES128GCM_SHA256_Ed25519),
            0x0002 => Some(Name::MLS10_128_DHKEMP256_AES128GCM_SHA256_P256),
            0x0003 => Some(Name::MLS10_128_DHKEMX25519_CHACHA20POLY1305_SHA256_Ed25519),
            0x0004 => Some(Name::MLS10_256_DHKEMX448_AES256GCM_SHA512_Ed448),
            0x0005 => Some(Name::MLS10_256_DHKEMP521_AES256GCM_SHA512_P521),
            0x0006 => Some(Name::MLS10_256_DHKEMX448_CHACHA20POLY1305_SHA512_Ed448),
            _ => None,
        }
    }
}

/// The hash function of a suite: SHA-256 at 128 bits, SHA-512 at 256.
pub open spec fn spec_hash_of(name: Name) -> DigestMode {
    if name.spec_is_256() {
        DigestMode::Sha512
    } else {
        DigestMode::Sha256
    }
}

/// The AEAD of a suite.
pub open spec fn spec_aead_of(name: Name) -> AeadMode {
    if name.spec_id() == 3 || name.spec_id() == 6 {
        AeadMode::Chacha20Poly1305
    } else if name.spec_is_256() {
        AeadMode::Aes256Gcm
    } else {
        AeadMode::Aes128Gcm
    }
}

/// The signature scheme of a suite.
pub open spec fn spec_signature_of(name: Name) -> SignatureMode {
    if name.spec_id() == 2 {
        SignatureMode::P256
    } else if name.spec_id() == 5 {
        SignatureMode::P521
    } else if name.spec_is_256() {
        SignatureMode::Ed448
    } else {
        SignatureMode::Ed25519
    }
}

/// The KEM of a suite.
pub open spec fn spec_kem_of(name: Name) -> KemMode {
    if name.spec_id() == 2 {
        KemMode::DhKemP256
    } else if name.spec_id() == 5 {
        KemMode::DhKemP521
    } else if name.spec_is_256() {
        KemMode::DhKem448
    } else {
        KemMode::DhKem25519
    }
}

/// The hash function under the KDF of a suite.
pub open spec fn spec_kdf_of(name: Name) -> HmacMode {
    if name.spec_is_256() {
        HmacMode::Sha512
    } else {
        HmacMode::Sha256
    }
}

/// The AEAD that HPKE runs with in a suite.
pub open spec fn spec_hpke_aead_of(name: Name) -> HpkeAeadMode {
    match spec_aead_of(name) {
        AeadMode::Aes128Gcm => HpkeAeadMode::AesGcm128,
        AeadMode::Aes256Gcm => HpkeAeadMode::AesGcm256,
        AeadMode::Chacha20Poly1305 => HpkeAeadMode::ChaCha20Poly1305,
    }
}

/// The KDF that HPKE runs with in a suite.
pub open spec fn spec_hpke_kdf_of(name: Name) -> HpkeKdfMode {
    match spec_kdf_of(name) {
        HmacMode::Sha256 => HpkeKdfMode::HkdfSha256,
        HmacMode::Sha512 => HpkeKdfMode::HkdfSha512,
    }
}

/// The ciphersuite that `name` stands for.
pub open spec fn spec_ciphersuite(name: Name) -> Ciphersuite {
    Ciphersuite {
        name,
        hash: spec_hash_of(name),
        kem: spec_kem_of(name),
        kdf: spec_kdf_of(name),
        hpke_kdf: spec_hpke_kdf_of(name),
        hpke_aead: spec_hpke_aead_of(name),
        aead: spec_aead_of(name),
        signature: spec_signature_of(name),
    }
}

/// The hash function of the suite `name`.
pub fn get_hash_from_suite(name: &Name) -> (mode: DigestMode)
    ensures
        mode == spec_hash_of(*name),
{
    match name {
        Name::MLS10_128_DHKEMX25519_AES128GCM_SHA256_Ed25519 => DigestMode::Sha256,
        Name::MLS10_128_DHKEMP256_AES128GCM_SHA256_P256 => DigestMode::Sha256,
        Name::MLS10_128_DHKEMX25519_CHACHA20POLY1305_SHA256_Ed25519 => DigestMode::Sha256,
        Name::MLS10_256_DHKEMX448_AES256GCM_SHA512_Ed448 => DigestMode::Sha512,
        Name::MLS10_256_DHKEMP521_AES256GCM_SHA512_P521 => DigestMode::Sha512,
        Name::MLS10_256_DHKEMX448_CHACHA20POLY1305_SHA512_Ed448 => DigestMode::Sha512,
    }
}

/// The AEAD of the suite `name`.
pub fn get_aead_from_suite(name: &Name) -> (mode: AeadMode)
    ensures
        mode == spec_aead_of(*name),
{
    match name {
        Name::MLS10_128_DHKEMX25519_AES128GCM_SHA256_Ed25519 => AeadMode::Aes128Gcm,
        Name::MLS10_128_DHKEMP256_AES128GCM_SHA256_P256 => AeadMode::Aes128Gcm,
        Name::MLS10_128_DHKEMX25519_CHACHA20POLY1305_SHA256_Ed25519 => AeadMode::Chacha20Poly1305,
        Name::MLS10_256_DHKEMX448_AES256GCM_SHA512_Ed448 => AeadMode::Aes256Gcm,
        Name::MLS10_256_DHKEMP521_AES256GCM_SHA512_P521 => AeadMode::Aes256Gcm,
        Name::MLS10_256_DHKEMX448_CHACHA20POLY1305_SHA512_Ed448 => AeadMode::Chacha20Poly1305,
    }
}

/// The signature scheme of the suite `name`.
pub fn get_signature_from_suite(name: &Name) -> (mode: SignatureMode)
    ensures
        mode == spec_signature_of(*name),
{
    match name {
        Name::MLS10_128_DHKEMX25519_AES128GCM_SHA256_Ed25519 => SignatureMode::Ed25519,
        Name::MLS10_128_DHKEMP256_AES128GCM_SHA256_P256 => SignatureMode::P256,
        Name::MLS10_128_DHKEMX25519_CHACHA20POLY1305_SHA256_Ed25519 => SignatureMode::Ed25519,
        Name::MLS10_256_DHKEMX448_AES256GCM_SHA512_Ed448 => SignatureMode::Ed448,
        Name::MLS10_256_DHKEMP521_AES256GCM_SHA512_P521 => SignatureMode::P521,
        Name::MLS10_256_DHKEMX448_CHACHA20POLY1305_SHA512_Ed448 => SignatureMode::Ed448,
    }
}

/// The KEM of the suite `name`.
pub fn get_kem_from_suite(name: &Name) -> (mode: KemMode)
    ensures
        mode == spec_kem_of(*name),
{
    match name {
        Name::MLS10_128_DHKEMX25519_AES128GCM_SHA256_Ed25519 => KemMode::DhKem25519,
        Name::MLS10_128_DHKEMP256_AES128GCM_SHA256_P256 => KemMode::DhKemP256,
        Name::MLS10_128_DHKEMX25519_CHACHA20POLY1305_SHA256_Ed25519 => KemMode::DhKem25519,
        Name::MLS10_256_DHKEMX448_AES256GCM_SHA512_Ed448 => KemMode::DhKem448,
        Name::MLS10_256_DHKEMP521_AES256GCM_SHA512_P521 => KemMode::DhKemP521,
        Name::MLS10_256_DHKEMX448_CHACHA20POLY1305_SHA512_Ed448 => KemMode::DhKem448,
    }
}

/// The hash function under the KDF of the suite `name`.
pub fn get_kdf_from_suite(name: &Name) -> (mode: HmacMode)
    ensures
        mode == spec_kdf_of(*name),
{
    match name {
        Name::MLS10_128_DHKEMX25519_AES128GCM_SHA256_Ed25519
        | Name::MLS10_128_DHKEMP256_AES128GCM_SHA256_P256
        | Name::MLS10_128_DHKEMX25519_CHACHA20POLY1305_SHA256_Ed25519 => HmacMode::Sha256,
        Name::MLS10_256_DHKEMX448_AES256GCM_SHA512_Ed448
        | Name::MLS10_256_DHKEMP521_AES256GCM_SHA512_P521
        | Name::MLS10_256_DHKEMX448_CHACHA20POLY1305_SHA512_Ed448 => HmacMode::Sha512,
    }
}

/// The AEAD that HPKE runs with in the suite `name`.
pub fn get_hpke_aead_from_suite(name: &Name) -> (mode: HpkeAeadMode)
    ensures
        mode == spec_hpke_aead_of(*name),
{
    match name {
        Name::MLS10_128_DHKEMX25519_AES128GCM_SHA256_Ed25519 => HpkeAeadMode::AesGcm128,
        Name::MLS10_128_DHKEMP256_AES128GCM_SHA256_P256 => HpkeAeadMode::AesGcm128,
        Name::MLS10_128_DHKEMX25519_CHACHA20POLY1305_SHA256_Ed25519 => {
            HpkeAeadMode::ChaCha20Poly1305
        },
        Name::MLS10_256_DHKEMX448_AES256GCM_SHA512_Ed448 => HpkeAeadMode::AesGcm256,
        Name::MLS10_256_DHKEMP521_AES256GCM_SHA512_P521 => HpkeAeadMode::AesGcm256,
        Name::MLS10_256_DHKEMX448_CHACHA20POLY1305_SHA512_Ed448 => {
            HpkeAeadMode::ChaCha20Poly1305
        },
    }
}

/// The KDF that HPKE runs with in the suite `name`.
pub fn get_hpke_kdf_from_suite(name: &Name) -> (mode: HpkeKdfMode)
    ensures
        mode == spec_hpke_kdf_of(*name),
{
    match name {
        Name::MLS10_128_DHKEMX25519_AES128GCM_SHA256_Ed25519 => HpkeKdfMode::HkdfSha256,
        Name::MLS10_128_DHKEMP256_AES128GCM_SHA256_P256 => HpkeKdfMode::HkdfSha256,
        Name::MLS10_128_DHKEMX25519_CHACHA20POLY1305_SHA256_Ed25519 => HpkeKdfMode::HkdfSha256,
        Name::MLS10_256_DHKEMX448_AES256GCM_SHA512_Ed448 => HpkeKdfMode::HkdfSha512,
        Name::MLS10_256_DHKEMP521_AES256GCM_SHA512_P521 => HpkeKdfMode::HkdfSha512,
        Name::MLS10_256_DHKEMX448_CHACHA20POLY1305_SHA512_Ed448 => HpkeKdfMode::HkdfSha512,
    }
}

impl DigestMode {
    /// The number of bytes of a digest.
    pub open spec fn spec_digest_size(self) -> nat {
        match self {
            DigestMode::Sha256 => 32,
            DigestMode::Sha512 => 64,
        }
    }

    /// The number of bytes of a digest.
    pub fn digest_size(&self) -> (n: usize)
        ensures
            n == self.spec_digest_size(),
    {
        match self {
            DigestMode::Sha256 => 32,
            DigestMode::Sha512 => 64,
        }
    }
}

impl KemMode {
    /// The code point of the KEM in HPKE.
    pub open spec fn spec_hpke_id(self) -> u16 {
        match self {
            KemMode::DhKemP256 => 0x0010,
            KemMode::DhKemP521 => 0x0012,
            KemMode::DhKem25519 => 0x0020,
            KemMode::DhKem448 => 0x0021,
        }
    }

    /// The code point of the KEM in HPKE.
    pub fn hpke_id(&self) -> (id: u16)
        ensures
            id == self.spec_hpke_id(),
    {
        match self {
            KemMode::DhKemP256 => 0x0010,
            KemMode::DhKemP521 => 0x0012,
            KemMode::DhKem25519 => 0x0020,
            KemMode::DhKem448 => 0x0021,
        }
    }
}

impl HpkeKdfMode {
    /// The code point of the KDF in HPKE.
    pub open spec fn spec_hpke_id(self) -> u16 {
        match self {
            HpkeKdfMode::HkdfSha256 => 0x0001,
            HpkeKdfMode::HkdfSha512 => 0x0003,
        }
    }

    /// The code point of the KDF in HPKE.
    pub fn hpke_id(&self) -> (id: u16)
        ensures
            id == self.spec_hpke_id(),
    {
        match self {
            HpkeKdfMode::HkdfSha256 => 0x0001,
            HpkeKdfMode::HkdfSha512 => 0x0003,
        }
    }
}

impl HpkeAeadMode {
    /// The code point of the AEAD in HPKE.
    pub open spec fn spec_hpke_id(self) -> u16 {
        match self {
            HpkeAeadMode::AesGcm128 => 0x0001,
            HpkeAeadMode::AesGcm256 => 0x0002,
            HpkeAeadMode::ChaCha20Poly1305 => 0x0003,
        }
    }

    /// The code point of the AEAD in HPKE.
    pub fn hpke_id(&self) -> (id: u16)
        ensures
            id == self.spec_hpke_id(),
    {
        match self {
            HpkeAeadMode::AesGcm128 => 0x0001,
            HpkeAeadMode::AesGcm256 => 0x0002,
            HpkeAeadMode::ChaCha20Poly1305 => 0x0003,
        }
    }
}

impl HmacMode {
    /// The number of bytes of a tag, which an extracted key has too.
    pub open spec fn spec_tag_size(self) -> nat {
        match self {
            HmacMode::Sha256 => 32,
            HmacMode::Sha512 => 64,
        }
    }

    /// The number of bytes of a tag, which an extracted key has too.
    pub fn tag_size(&self) -> (n: usize)
        ensures
            n == self.spec_tag_size(),
    {
        match self {
            HmacMode::Sha256 => 32,
            HmacMode::Sha512 => 64,
        }
    }
}

/// One combination of algorithms, under its name.
#[derive(Debug, Clone, Copy, PartialEq, Eq, Structural)]
pub struct Ciphersuite {
    pub name: Name,
    pub hash: DigestMode,
    pub kem: KemMode,
    pub kdf: HmacMode,
    pub hpke_kdf: HpkeKdfMode,
    pub hpke_aead: HpkeAeadMode,
    pub aead: AeadMode,
    pub signature: SignatureMode,
}

impl Ciphersuite {
    /// Whether the algorithms are those that the name stands for.
    pub open spec fn wf(&self) -> bool {
        *self == spec_ciphersuite(self.name)
    }

    /// The ciphersuite that `name` stands for.
    pub fn new(name: Name) -> (suite: Self)
        ensures
            suite == spec_ciphersuite(name),
    {
        Self {
            name: name,
            hash: get_hash_from_suite(&name),
            kem: get_kem_from_suite(&name),
            kdf: get_kdf_from_suite(&name),
            hpke_kdf: get_hpke_kdf_from_suite(&name),
            hpke_aead: get_hpke_aead_from_suite(&name),
            aead: get_aead_from_suite(&name),
            signature: get_signature_from_suite(&name),
        }
    }

    /// The name of the ciphersuite.
    pub fn get_name(&self) -> (name: &Name)
        ensures
            *name == self.name,
    {
        &self.name
    }
}

impl Encode for Ciphersuite {
    open spec fn spec_encode(&self) -> Seq<u8> {
        spec_be_bytes(self.name.spec_id() as nat, 2)
    }

    fn encode(&self) -> (out: Vec<u8>) {
        self.name.id().encode()
    }
}

/// The default ciphersuite is the only mandatory one.
impl Default for Ciphersuite {
    fn default() -> (suite: Self)
        ensures
            suite == spec_ciphersuite(Name::MLS10_128_DHKEMX25519_AES128GCM_SHA256_Ed25519),
    {
        Self::new(Name::MLS10_128_DHKEMX25519_AES128GCM_SHA256_Ed25519)
    }
}

impl From<&Name> for u16 {
    fn from(s: &Name) -> (v: u16) {
        s.id()
    }
}

impl FromSpecImpl<&Name> for u16 {
    open spec fn obeys_from_spec() -> bool {
        true
    }

    open spec fn from_spec(s: &Name) -> u16 {
        s.spec_id()
    }
}

impl TryFrom<u16> for Ciphersuite {
    type Error = CiphersuiteError;

    fn try_from(v: u16) -> (suite: Result<Self, CiphersuiteError>) {
        match Name::from_id(v) {
            Some(name) => Ok(Self::new(name)),
            None => Err(CiphersuiteError::UnsupportedCiphersuite),
        }
    }
}

impl TryFromSpecImpl<u16> for Ciphersuite {
    open spec fn obeys_try_from_spec() -> bool {
        true
    }

    open spec fn try_from_spec(v: u16) -> Result<Self, CiphersuiteError> {
        match Name::spec_from_id(v) {
            Some(name) => Ok(spec_ciphersuite(name)),
            None => Err(CiphersuiteError::UnsupportedCiphersuite),
        }
    }
}

impl From<Name> for Ciphersuite {
    fn from(v: Name) -> (suite: Self) {
        Self::new(v)
    }
}

impl FromSpecImpl<Name> for Ciphersuite {
    open spec fn obeys_from_spec() -> bool {
        true
    }

    open spec fn from_spec(v: Name) -> Self {
        spec_ciphersuite(v)
    }
}

} // verus!
