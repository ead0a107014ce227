//! One interface over trusted execution environments. Only SGX has a
//! driver; SEV, SEV-SNP and TDX are recognised and refused.

use vstd::prelude::*;
use crate::drivers::sgx::{SgxDriver, SgxError, verify_attestation_report, LAUNCH_TOKEN_LEN};

verus! {

/// Kind of enclave technology.
#[derive(Clone, Copy, PartialEq, Eq, Structural, Debug)]
pub enum EnclaveType {
    Sgx,
    Sev,
    SevSnp,
    Tdx,
    NoEnclave,
}

/// Attestation of an enclave.
pub struct EnclaveAttestation {
    pub enclave_type: EnclaveType,
    pub enclave_id: u64,
    pub measurement: Vec<u8>,
    pub certificate: Vec<u8>,
    pub signature: Vec<u8>,
    pub report: Vec<u8>,
}

/// The enclave driver.
#[derive(Clone, Copy, PartialEq, Eq, Structural, Debug)]
pub struct EnclaveDriver {
    pub enclave_type: EnclaveType,
    pub initialized: bool,
}

/// Why an enclave operation failed.
#[derive(Clone, Copy, PartialEq, Eq, Structural, Debug)]
pub enum EnclaveError {
    NotAvailable,
    NotSupported,
    NotImplemented,
    CreationFailed,
    InitializationFailed,
    AttestationFailed,
    VerificationFailed,
}

/// The enclave technology present: SGX when its driver is up, else none.
pub fn detect_enclave_type(sgx_available: bool) -> (t: EnclaveType)
    ensures
        t == if sgx_available {
            EnclaveType::Sgx
        } else {
            EnclaveType::NoEnclave
        },
{
    if sgx_available {
        EnclaveType::Sgx
    } else {
        EnclaveType::NoEnclave
    }
}

/// A driver for `enclave_type`, unless there is no enclave technology.
pub fn init(enclave_type: EnclaveType) -> (r: Option<EnclaveDriver>)
    ensures
        r == if enclave_type == EnclaveType::NoEnclave {
            None
        } else {
            Some(EnclaveDriver { enclave_type, initialized: true })
        },
{
    if enclave_type != EnclaveType::NoEnclave {
        Some(EnclaveDriver { enclave_type, initialized: true })
    } else {
        None
    }
}

/// The error for technologies without a driver, if `t` is one.
pub open spec fn unsupported(t: EnclaveType) -> Option<EnclaveError> {
    match t {
        EnclaveType::Sev | EnclaveType::SevSnp | EnclaveType::Tdx => Some(
            EnclaveError::NotImplemented,
        ),
        EnclaveType::NoEnclave => Some(EnclaveError::NotAvailable),
        EnclaveType::Sgx => None,
    }
}

/// Creates an enclave through the SGX driver; any SGX failure is a
/// creation failure.
pub fn create_enclave(
    driver: Option<EnclaveDriver>,
    sgx: &mut Option<SgxDriver>,
    base_address: u64,
    size: u64,
    attributes: u64,
    measurement: Vec<u8>,
) -> (r: Result<u64, EnclaveError>)
    requires
        (*old(sgx)) is Some ==> (*old(sgx))->0.next_id() < u64::MAX,
    ensures
        driver is None ==> r == Err::<u64, EnclaveError>(EnclaveError::NotAvailable),
        driver matches Some(d) ==> unsupported(d.enclave_type) is Some ==> r == Err::<
            u64,
            EnclaveError,
        >(unsupported(d.enclave_type)->0),
        driver matches Some(d) ==> d.enclave_type == EnclaveType::Sgx ==> r == match *old(sgx) {
            None => Err::<u64, EnclaveError>(EnclaveError::CreationFailed),
            Some(s) => if s.feature_set().sgx1 {
                Ok(s.next_id())
            } else {
                Err(EnclaveError::CreationFailed)
            },
        },
{
    let d = match driver {
        None => {
            return Err(EnclaveError::NotAvailable);
        },
        Some(d) => d,
    };
    match d.enclave_type {
        EnclaveType::Sgx => match sgx {
            Some(s) => match s.create_enclave(base_address, size, attributes, measurement) {
                Ok(id) => Ok(id),
                Err(_) => Err(EnclaveError::CreationFailed),
            },
            None => Err(EnclaveError::CreationFailed),
        },
        EnclaveType::Sev | EnclaveType::SevSnp | EnclaveType::Tdx => Err(
            EnclaveError::NotImplemented,
        ),
        EnclaveType::NoEnclave => Err(EnclaveError::NotAvailable),
    }
}

/// Initializes an enclave through the SGX driver; `Ok(true)` asks the
/// caller to run EINIT.
pub fn initialize_enclave(
    driver: Option<EnclaveDriver>,
    sgx: &mut Option<SgxDriver>,
    enclave_id: u64,
    launch_token: Option<&[u8]>,
) -> (r: Result<bool, EnclaveError>)
    ensures
        driver is None ==> r == Err::<bool, EnclaveError>(EnclaveError::NotAvailable),
        driver matches Some(d) ==> unsupported(d.enclave_type) is Some ==> r == Err::<
            bool,
            EnclaveError,
        >(unsupported(d.enclave_type)->0),
        driver matches Some(d) ==> d.enclave_type == EnclaveType::Sgx ==> r == match *old(sgx) {
            None => Err::<bool, EnclaveError>(EnclaveError::InitializationFailed),
            Some(s) => if s.enclaves().contains_key(enclave_id) {
                Ok(
                    match launch_token {
                        Some(t) => t@.len() >= LAUNCH_TOKEN_LEN,
                        None => true,
                    },
                )
            } else {
                Err(EnclaveError::InitializationFailed)
            },
        },
{
    let d = match driver {
        None => {
            return Err(EnclaveError::NotAvailable);
        },
        Some(d) => d,
    };
    match d.enclave_type {
        EnclaveType::Sgx => match sgx {
            Some(s) => match s.initialize_enclave(enclave_id, launch_token) {
                Ok(run) => Ok(run),
                Err(_) => Err(EnclaveError::InitializationFailed),
            },
            None => Err(EnclaveError::InitializationFailed),
        },
        EnclaveType::Sev | EnclaveType::SevSnp | EnclaveType::Tdx => Err(
            EnclaveError::NotImplemented,
        ),
        EnclaveType::NoEnclave => Err(EnclaveError::NotAvailable),
    }
}

/// Attests enclave `enclave_id` for `report_data` through the SGX driver:
/// the report, and its first 32 bytes as the measurement.
pub fn generate_attestation(
    driver: Option<EnclaveDriver>,
    sgx: Option<&SgxDriver>,
    enclave_id: u64,
    report_data: &[u8],
) -> (r: Result<EnclaveAttestation, EnclaveError>)
    requires
        sgx matches Some(s) ==> (s.enclaves().contains_key(enclave_id) ==> s.enclaves()[enclave_id].measurement@.len()
            <= 320),
    ensures
        driver is None ==> r is Err && r->Err_0 == EnclaveError::NotAvailable,
        driver matches Some(d) ==> unsupported(d.enclave_type) is Some ==> r is Err && r->Err_0
            == unsupported(d.enclave_type)->0,
        driver matches Some(d) ==> d.enclave_type == EnclaveType::Sgx ==> match sgx {
            None => r is Err && r->Err_0 == EnclaveError::AttestationFailed,
            Some(s) => if s.enclaves().contains_key(enclave_id) && s.enclaves()[enclave_id].initialized {
                r is Ok && {
                    let a = r->Ok_0;
                    &&& a.enclave_type == EnclaveType::Sgx
                    &&& a.enclave_id == enclave_id
                    &&& a.report@ == crate::drivers::sgx::report_bytes(
                        s.enclaves()[enclave_id].measurement@,
                        s.enclaves()[enclave_id].attributes,
                        report_data@,
                    )
                    &&& a.measurement@ == a.report@.subrange(0, 32)
                    &&& a.certificate@ == Seq::<u8>::empty()
                    &&& a.signature@ == Seq::<u8>::empty()
                }
            } else {
                r is Err && r->Err_0 == EnclaveError::AttestationFailed
            },
        },
{
    let d = match driver {
        None => {
            return Err(EnclaveError::NotAvailable);
        },
        Some(d) => d,
    };
    match d.enclave_type {
        EnclaveType::Sgx => {
            let s = match sgx {
                Some(s) => s,
                None => {
                    return Err(EnclaveError::AttestationFailed);
                },
            };
            let report = match s.generate_attestation_report(enclave_id, report_data) {
                Ok(rep) => rep,
                Err(_) => {
                    return Err(EnclaveError::AttestationFailed);
                },
            };
            let mut measurement: Vec<u8> = Vec::new();
            let mut i: usize = 0;
            while i < 32
                invariant
                    i <= 32,
                    report@.len() == 432,
                    measurement@ == report@.subrange(0, i as int),
                decreases 32 - i,
            {
                measurement.push(report[i]);
                i = i + 1;
            }
            Ok(
                EnclaveAttestation {
                    enclave_type: EnclaveType::Sgx,
                    enclave_id,
                    measurement,
                    certificate: Vec::new(),
                    signature: Vec::new(),
                    report,
                },
            )
        },
        EnclaveType::Sev | EnclaveType::SevSnp | EnclaveType::Tdx => Err(
            EnclaveError::NotImplemented,
        ),
        EnclaveType::NoEnclave => Err(EnclaveError::NotAvailable),
    }
}

/// Checks an attestation against the expected measurement: SGX reports are
/// compared; other technologies never verify.
pub fn verify_attestation(attestation: &EnclaveAttestation, expected_measurement: &[u8]) -> (r: Result<
    bool,
    EnclaveError,
>)
    ensures
        r == Ok::<bool, EnclaveError>(
            attestation.enclave_type == EnclaveType::Sgx && attestation.report@.len() >= 32
                && attestation.report@.subrange(0, 32) == expected_measurement@,
        ),
{
    match attestation.enclave_type {
        EnclaveType::Sgx => match verify_attestation_report(
            attestation.report.as_slice(),
            expected_measurement,
        ) {
            Ok(b) => Ok(b),
            Err(_) => Err(EnclaveError::VerificationFailed),
        },
        _ => Ok(false),
    }
}

/// Whether an initialized enclave driver is present.
pub open spec fn is_available_spec(driver: Option<EnclaveDriver>) -> bool {
    match driver {
        Some(d) => d.initialized,
        None => false,
    }
}

/// Whether an initialized enclave driver is present.
pub fn is_available(driver: Option<EnclaveDriver>) -> (r: bool)
    ensures
        r == is_available_spec(driver),
{
    match driver {
        Some(d) => d.initialized,
        None => false,
    }
}

/// The enclave technology in use, or none.
pub fn get_enclave_type(driver: Option<EnclaveDriver>) -> (t: EnclaveType)
    ensures
        t == match driver {
            Some(d) => d.enclave_type,
            None => EnclaveType::NoEnclave,
        },
{
    match driver {
        Some(d) => d.enclave_type,
        None => EnclaveType::NoEnclave,
    }
}

} // verus!
