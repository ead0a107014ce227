//! Post-quantum cryptography at the kernel boundary: operations are
//! validated here and carried out by the user-space crypto service.

use vstd::prelude::*;

verus! {

/// Post-quantum crypto operations.
#[derive(Clone, Copy, PartialEq, Eq, Structural, Debug)]
pub enum PQCOperation {
    KeyGen,
    Sign,
    Verify,
    KeyExchange,
    HardwareAccel,
}

/// The outcome of an operation as the kernel reports it.
pub struct PQCOperationResult {
    pub success: bool,
    pub data: Option<Vec<u8>>,
    pub error: u32,
}

/// Why a crypto request failed.
#[derive(Clone, Copy, PartialEq, Eq, Structural, Debug)]
pub enum CryptoError {
    InvalidOperation,
    InvalidKey,
    EnclaveError,
    OperationNotSupported,
}

/// Why signing or verifying failed.
#[derive(Clone, Copy, PartialEq, Eq, Structural, Debug)]
pub enum SignatureError {
    InvalidSignature,
    NotSupported,
    KeyNotFound,
}

/// Length of a signature, in bytes.
pub const SIGNATURE_LEN: usize = 64;

/// The kernel's crypto system-call interface.
pub struct PQCSyscall;

impl PQCSyscall {
    /// Accepts a valid operation; its result comes from user space, so the
    /// kernel reports no success and no data of its own.
    pub fn handle_operation(operation: PQCOperation, input: &[u8]) -> (r: PQCOperationResult)
        ensures
            !r.success,
            r.data is None,
            r.error == 0,
    {
        match operation {
            PQCOperation::KeyGen | PQCOperation::Sign | PQCOperation::Verify
            | PQCOperation::KeyExchange => PQCOperationResult { success: false, data: None, error: 0 },
            PQCOperation::HardwareAccel => PQCOperationResult { success: false, data: None, error: 0 },
        }
    }

    /// Storing keys in an enclave needs hardware support that is not
    /// present: always an enclave error.
    pub fn store_key_in_enclave(key_id: u64, key_data: &[u8]) -> (r: Result<(), CryptoError>)
        ensures
            r == Err::<(), CryptoError>(CryptoError::EnclaveError),
    {
        Err(CryptoError::EnclaveError)
    }

    /// Retrieving keys from an enclave needs hardware support that is not
    /// present: always an enclave error.
    pub fn retrieve_key_from_enclave(key_id: u64) -> (r: Result<Vec<u8>, CryptoError>)
        ensures
            r is Err && r->Err_0 == CryptoError::EnclaveError,
    {
        Err(CryptoError::EnclaveError)
    }
}

/// Signing is done by the user-space service, which the kernel cannot reach
/// yet: always not supported.
pub fn sign(data: &[u8]) -> (r: Result<Vec<u8>, SignatureError>)
    ensures
        r is Err && r->Err_0 == SignatureError::NotSupported,
{
    Err(SignatureError::NotSupported)
}

/// A signature of the wrong length is rejected; any other is left to the
/// user-space service, which the kernel cannot reach yet.
pub fn verify(data: &[u8], signature: &[u8]) -> (r: Result<bool, SignatureError>)
    ensures
        r == if signature@.len() != SIGNATURE_LEN {
            Ok::<bool, SignatureError>(false)
        } else {
            Err(SignatureError::NotSupported)
        },
{
    if signature.len() != SIGNATURE_LEN {
        return Ok(false);
    }
    Err(SignatureError::NotSupported)
}

} // verus!
