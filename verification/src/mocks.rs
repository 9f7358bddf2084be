//! Mock keys, signatures, and contexts, useful for testing callers of the
//! storage layer without real cryptography.

use vstd::prelude::*;
use vstd::slice::slice_to_vec;
use crate::db::{sha256_hash, sha256_of};

verus! {

/// An account address: opaque bytes supplied by the module layer.
#[derive(Debug, PartialEq, Eq)]
pub struct Address {
    pub addr: Vec<u8>,
}

impl Address {
    pub open spec fn view(&self) -> Seq<u8> {
        self.addr@
    }

    pub fn new(addr: Vec<u8>) -> (r: Address)
        ensures
            r@ == addr@,
    {
        Address { addr }
    }

    pub fn as_bytes(&self) -> (r: &Vec<u8>)
        ensures
            r@ == self@,
    {
        &self.addr
    }
}

/// Why a signature check failed.
#[derive(Debug, PartialEq, Eq, Structural)]
pub enum SigVerificationError {
    BadSignature,
}

/// Mock for a public key, useful for testing.
#[derive(Debug, PartialEq, Eq)]
pub struct MockPublicKey {
    pub pub_key: Vec<u8>,
}

impl MockPublicKey {
    pub open spec fn view(&self) -> Seq<u8> {
        self.pub_key@
    }

    pub fn new(pub_key: Vec<u8>) -> (r: MockPublicKey)
        ensures
            r@ == pub_key@,
    {
        MockPublicKey { pub_key }
    }

    /// A mock signature: it carries no actual signature bytes.
    pub fn sign(&self, _msg: [u8; 32]) -> (r: MockSignature)
        ensures
            r.msg_sig@ =~= Seq::<u8>::empty(),
    {
        MockSignature { msg_sig: Vec::new() }
    }

    /// The address derived from this key: the digest of its bytes.
    pub fn to_address(&self) -> (r: Address)
        ensures
            r@ == sha256_of(self@),
    {
        let digest = sha256_hash(&self.pub_key);
        Address::new(slice_to_vec(digest.as_slice()))
    }
}

/// Mock for a signature, useful for testing.
#[derive(Debug, PartialEq, Eq)]
pub struct MockSignature {
    pub msg_sig: Vec<u8>,
}

impl MockSignature {
    /// The mock check accepts every signature.
    pub fn verify(&self, _pub_key: &MockPublicKey, _msg_hash: [u8; 32]) -> (r: Result<
        (),
        SigVerificationError,
    >)
        ensures
            r is Ok,
    {
        Ok(())
    }
}

/// Mock execution context for the data-rich (native) side.
#[derive(Debug, PartialEq, Eq)]
pub struct MockContext {
    pub sender: Address,
}

impl MockContext {
    pub fn sender(&self) -> (r: &Address)
        ensures
            r@ == self.sender@,
    {
        &self.sender
    }

    pub fn new(sender: Address) -> (r: MockContext)
        ensures
            r.sender@ == sender@,
    {
        MockContext { sender }
    }
}

/// Mock execution context for the witness-driven (replay) side.
#[derive(Debug, PartialEq, Eq)]
pub struct ZkMockContext {
    pub sender: Address,
}

impl ZkMockContext {
    pub fn sender(&self) -> (r: &Address)
        ensures
            r@ == self.sender@,
    {
        &self.sender
    }

    pub fn new(sender: Address) -> (r: ZkMockContext)
        ensures
            r.sender@ == sender@,
    {
        ZkMockContext { sender }
    }
}

} // verus!
