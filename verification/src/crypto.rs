//! Public keys, kept in their serialized protocol form.
//!
//! The core never interprets key material; it only checks, before an action
//! is appended, that supplied bytes deserialize to a recognized key encoding.
//! That check is delegated to `near_crypto`.

use vstd::prelude::*;

use borsh::BorshDeserialize;

use crate::errors::HostError;

verus! {

/// True of byte sequences that `near_crypto` accepts as a serialized public
/// key: one scheme tag byte followed by that scheme's raw key material, with
/// nothing trailing.  Tag 0 is ED25519 (32 bytes), tag 1 is SECP256K1 (64
/// bytes), tag 2 is ML-DSA-65 (1952 bytes).
pub open spec fn is_valid_key_encoding(bytes: Seq<u8>) -> bool {
    ||| bytes.len() == 33 && bytes[0] == 0u8
    ||| bytes.len() == 65 && bytes[0] == 1u8
    ||| bytes.len() == 1953 && bytes[0] == 2u8
}

/// Relies on `near_crypto::PublicKey::try_from_slice` (borsh): it succeeds
/// exactly when the slice is one known scheme tag byte followed by that
/// scheme's fixed-length raw key bytes and nothing else.
#[verifier::external_body]
fn key_encoding_parses(bytes: &Vec<u8>) -> (r: bool)
    ensures
        r == is_valid_key_encoding(bytes@),
{
    <near_crypto::PublicKey as BorshDeserialize>::try_from_slice(bytes.as_slice()).is_ok()
}

/// A validated public key, held as its serialized form.
#[derive(Debug, PartialEq, Eq, Hash)]
pub struct PublicKey {
    bytes: Vec<u8>,
}

impl View for PublicKey {
    type V = Seq<u8>;

    closed spec fn view(&self) -> Seq<u8> {
        self.bytes@
    }
}

impl Clone for PublicKey {
    fn clone(&self) -> (other: Self)
        ensures
            other@ == self@,
    {
        let mut bytes: Vec<u8> = Vec::new();
        let mut i: usize = 0;
        while i < self.bytes.len()
            invariant
                i <= self.bytes.len(),
                bytes@ == self.bytes@.take(i as int),
            decreases self.bytes.len() - i,
        {
            bytes.push(self.bytes[i]);
            i = i + 1;
            proof {
                assert(bytes@ =~= self.bytes@.take(i as int));
            }
        }
        proof {
            assert(bytes@ =~= self.bytes@);
        }
        PublicKey { bytes }
    }
}

impl PublicKey {
    /// Every reachable key holds a recognized encoding.
    pub open spec fn wf(&self) -> bool {
        is_valid_key_encoding(self@)
    }

    /// Validates and wraps serialized key bytes; the only constructor.
    pub fn from_bytes(bytes: Vec<u8>) -> (r: Result<PublicKey, HostError>)
        ensures
            r is Ok <==> is_valid_key_encoding(bytes@),
            r is Ok ==> r->Ok_0@ == bytes@ && r->Ok_0.wf(),
            r is Err ==> r->Err_0 == HostError::InvalidPublicKey,
    {
        if key_encoding_parses(&bytes) {
            Ok(PublicKey { bytes })
        } else {
            Err(HostError::InvalidPublicKey)
        }
    }

    /// The serialized form.
    pub fn as_bytes(&self) -> (r: &Vec<u8>)
        ensures
            r@ == self@,
    {
        &self.bytes
    }
}

} // verus!
