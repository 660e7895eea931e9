//! Credentials: who a member is, and the key that its signatures verify under.
use crate::encode_util::{encode_slice, spec_be_bytes, spec_encode_slice, LenType};
use crate::traits::Encode;
use vstd::prelude::*;

verus! {

/// The number of a kind of credential.
pub type CredentialType = u16;

/// What a credential can do besides being encoded: sign, and verify a
/// signature. The signature scheme is the implementor's, and so is what it
/// returns: nothing is promised of either method.
pub trait CredentialTrait {
    fn sign(&self, data: &[u8]) -> Vec<u8>;

    fn verify(&self, data: &[u8], signature: &[u8]) -> bool;
}

/// Whether `signature` is what `credential` returned when it was asked to
/// sign `data`.
pub open spec fn spec_signed_by<C: CredentialTrait>(
    credential: &C,
    data: Seq<u8>,
    signature: Seq<u8>,
) -> bool {
    exists|d: &[u8], s: Vec<u8>|
        d@ == data && s@ == signature && #[trigger] call_ensures(C::sign, (credential, d), s)
}

/// Whether `valid` is what `credential` returned when it was asked whether
/// `signature` is a signature over `data`.
pub open spec fn spec_verified_by<C: CredentialTrait>(
    credential: &C,
    data: Seq<u8>,
    signature: Seq<u8>,
    valid: bool,
) -> bool {
    exists|d: &[u8], s: &[u8]|
        d@ == data && s@ == signature && #[trigger] call_ensures(
            C::verify,
            (credential, d, s),
            valid,
        )
}

/// An identity with its signature key pair.
#[derive(Debug)]
pub struct BasicCredential {
    pub identity: Vec<u8>,
    pub public_key: Vec<u8>,
    pub private_key: Vec<u8>,
}

/// What a basic credential holds.
pub struct BasicCredentialView {
    pub identity: Seq<u8>,
    pub public_key: Seq<u8>,
    pub private_key: Seq<u8>,
}

impl View for BasicCredential {
    type V = BasicCredentialView;

    open spec fn view(&self) -> BasicCredentialView {
        BasicCredentialView {
            identity: self.identity@,
            public_key: self.public_key@,
            private_key: self.private_key@,
        }
    }
}

impl BasicCredentialView {
    /// The identity and the public key, each behind a 16-bit length. The
    /// private key is no part of the encoding.
    pub open spec fn spec_encode(self) -> Seq<u8> {
        spec_encode_slice(LenType::L16, self.identity) + spec_encode_slice(
            LenType::L16,
            self.public_key,
        )
    }
}

impl BasicCredential {
    /// The credential of `identity` with its key pair.
    pub fn new(identity: Vec<u8>, public_key: Vec<u8>, private_key: Vec<u8>) -> (c: Self)
        ensures
            c@ == (BasicCredentialView {
                identity: identity@,
                public_key: public_key@,
                private_key: private_key@,
            }),
    {
        BasicCredential { identity, public_key, private_key }
    }

    /// The credential of an Ed25519 key pair: the public key is the identity.
    pub fn ed25519(sk: Vec<u8>, pk: Vec<u8>) -> (c: Self)
        ensures
            c@ == (BasicCredentialView { identity: pk@, public_key: pk@, private_key: sk@ }),
    {
        let identity = pk.clone();
        assert(identity@ =~= pk@);
        BasicCredential { identity, public_key: pk, private_key: sk }
    }
}

impl Encode for BasicCredential {
    open spec fn spec_encode(&self) -> Seq<u8> {
        self@.spec_encode()
    }

    fn encode(&self) -> (out: Vec<u8>) {
        let mut out = Vec::new();
        encode_slice(LenType::L16, self.identity.as_slice(), &mut out);
        encode_slice(LenType::L16, self.public_key.as_slice(), &mut out);
        assert(out@ =~= self@.spec_encode());
        out
    }
}

/// A credential under the number of its kind.
#[derive(Debug)]
pub struct Credential {
    pub credential_type: CredentialType,
    pub credential: BasicCredential,
}

/// What a credential holds.
pub struct CredentialView {
    pub credential_type: CredentialType,
    pub credential: BasicCredentialView,
}

impl View for Credential {
    type V = CredentialView;

    open spec fn view(&self) -> CredentialView {
        CredentialView { credential_type: self.credential_type, credential: self.credential@ }
    }
}

impl CredentialView {
    /// The kind in two bytes, then the credential itself.
    pub open spec fn spec_encode(self) -> Seq<u8> {
        spec_be_bytes(self.credential_type as nat, 2) + self.credential.spec_encode()
    }
}

impl Credential {
    /// The credential `credential`, filed under the kind `credential_type`.
    pub fn new(credential_type: CredentialType, credential: BasicCredential) -> (c: Self)
        ensures
            c@ == (CredentialView { credential_type, credential: credential@ }),
    {
        Credential { credential_type, credential }
    }
}

impl Encode for Credential {
    open spec fn spec_encode(&self) -> Seq<u8> {
        self@.spec_encode()
    }

    fn encode(&self) -> (out: Vec<u8>) {
        let mut out = self.credential_type.encode();
        let mut bytes = self.credential.encode();
        out.append(&mut bytes);
        out
    }
}

} // verus!
