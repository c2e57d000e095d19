//! Message signing.
//!
//! The signer trait is implemented by the node's key holders; the test
//! signer holds its key pair in memory. A signature is modeled as the
//! signer's identity over the exact message bytes.

use vstd::prelude::*;

use crate::error::Error;
use crate::keys::{PublicKey, SecretKey};

verus! {

/// A signature over a message: the signing identity and the signed bytes.
#[derive(Clone, Debug, PartialEq, Eq)]
pub struct Signature {
    /// The identity of the key that signed.
    pub signer_id: u64,
    /// The bytes that were signed.
    pub message: Vec<u8>,
}

/// Signs `message` with `secret_key`, attesting `public_key`.
pub fn sign(message: &Vec<u8>, secret_key: &SecretKey, public_key: &PublicKey) -> (r: Signature)
    ensures
        r.signer_id == public_key.id,
        r.message@ == message@,
{
    let bytes = crate::assoc::copy_vec(message);
    Signature { signer_id: public_key.id, message: bytes }
}

/// Why creating a finality signature failed.
#[derive(Clone, Copy, Debug, PartialEq, Eq, Structural)]
pub enum FinalitySignatureError {
    /// The signer failed to produce the signature.
    SignerError(Error),
}

/// A party that can attest messages with its signing key.
pub trait Signer {
    /// The identity the signer attests with.
    spec fn spec_public_signing_key(&self) -> PublicKey;

    /// Returns the public key the signer attests with.
    fn public_signing_key(&self) -> (r: PublicKey)
        ensures
            r == self.spec_public_signing_key(),
    ;

    /// Signs the given message bytes: any signature produced carries the
    /// signer's identity over exactly the given bytes.
    fn sign_bytes(&self, message: &Vec<u8>) -> (r: Result<Signature, Error>)
        ensures
            (r matches Ok(signature) ==> signature.signer_id
                == self.spec_public_signing_key().id && signature.message@ == message@),
    ;
}

/// An in-memory signer holding its own key pair.
pub struct TestSigner {
    /// The public half of the key pair.
    pub public_key: PublicKey,
    /// The secret half of the key pair.
    pub secret_key: SecretKey,
}

impl TestSigner {
    /// Builds a signer from a secret key; the public key is derived.
    pub fn new(secret_key: SecretKey) -> (r: TestSigner)
        ensures
            r.secret_key == secret_key,
            r.public_key == secret_key.public_key(),
    {
        let public_key = secret_key.to_public_key();
        TestSigner { public_key, secret_key }
    }
}

impl Signer for TestSigner {
    /// The held public key.
    open spec fn spec_public_signing_key(&self) -> PublicKey {
        self.public_key
    }

    /// Returns the public half of the key pair.
    fn public_signing_key(&self) -> (r: PublicKey) {
        self.public_key
    }

    /// Signs the message with the held key pair; never fails.
    fn sign_bytes(&self, message: &Vec<u8>) -> (r: Result<Signature, Error>)
        ensures
            r is Ok,
    {
        Ok(sign(message, &self.secret_key, &self.public_key))
    }
}

} // verus!
