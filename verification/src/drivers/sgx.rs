//! Intel SGX: feature detection, enclave bookkeeping, measurement input
//! and attestation reports. The enclave instructions themselves and the
//! hash of the measurement are performed by the caller.

use vstd::prelude::*;
use std::collections::BTreeMap;

verus! {

broadcast use vstd::std_specs::btree::group_btree_axioms;

/// Length of an attestation report, in bytes.
pub const REPORT_LEN: usize = 432;

/// Length of a launch token, in bytes.
pub const LAUNCH_TOKEN_LEN: usize = 304;

/// SGX features of the processor.
#[derive(Clone, Copy, PartialEq, Eq, Structural, Debug)]
pub struct SgxFeatures {
    pub sgx1: bool,
    pub sgx2: bool,
    pub flc: bool,
    pub lepubkeyhash: bool,
}

/// An enclave.
pub struct SgxEnclave {
    pub enclave_id: u64,
    pub base_address: u64,
    pub size: u64,
    pub measurement: Vec<u8>,
    pub attributes: u64,
    pub initialized: bool,
}

/// Why an SGX operation failed.
#[derive(Clone, Copy, PartialEq, Eq, Structural, Debug)]
pub enum SgxError {
    NotAvailable,
    NotSupported,
    EnclaveNotFound,
    EnclaveNotInitialized,
    AllocationFailed,
    InitializationFailed,
}

/// The SGX features reported by CPUID: SGX1 when leaf 7 is there and bit 2
/// of its EBX is set.
pub fn detect_sgx_features(has_leaf7: bool, leaf7_ebx: u32) -> (f: SgxFeatures)
    ensures
        f == (SgxFeatures {
            sgx1: has_leaf7 && leaf7_ebx & 4 != 0,
            sgx2: false,
            flc: false,
            lepubkeyhash: false,
        }),
{
    SgxFeatures {
        sgx1: has_leaf7 && (leaf7_ebx & 4u32) != 0,
        sgx2: false,
        flc: false,
        lepubkeyhash: false,
    }
}

/// The little-endian bytes of a `u64`.
pub open spec fn le64(v: u64) -> Seq<u8> {
    Seq::new(8, |i: int| ((v as int / pow256(i)) % 256) as u8)
}

/// 256 to the power `i`.
pub open spec fn pow256(i: int) -> int
    decreases i,
{
    if i <= 0 {
        1
    } else {
        256 * pow256(i - 1)
    }
}

/// Number of 4 KiB pages that cover `size` bytes.
pub open spec fn page_count(size: u64) -> int {
    size / 4096 + if size % 4096 > 0 {
        1int
    } else {
        0int
    }
}

/// The bytes hashed into an enclave's measurement: the address of each of
/// its pages, in order, little endian.
pub open spec fn measurement_input(base: u64, n: int) -> Seq<u8>
    decreases n,
{
    if n <= 0 {
        Seq::empty()
    } else {
        measurement_input(base, n - 1) + le64((base + (n - 1) * 4096) as u64)
    }
}

fn push_le64(v: &mut Vec<u8>, x: u64)
    ensures
        final(v)@ == old(v)@ + le64(x),
{
    let mut y = x;
    let mut i: usize = 0;
    while i < 8
        invariant
            i <= 8,
            v@.len() == old(v)@.len() + i,
            v@.subrange(0, old(v)@.len() as int) == old(v)@,
            forall|k: int| 0 <= k < i ==> v@[old(v)@.len() + k] == le64(x)[k],
            y == x as int / pow256(i as int),
        decreases 8 - i,
    {
        proof {
            assert(pow256(i as int + 1) == 256 * pow256(i as int));
            assert(pow256(i as int) > 0) by {
                lemma_pow256_positive(i as int);
            }
            vstd::arithmetic::div_mod::lemma_div_denominator(
                x as int,
                pow256(i as int),
                256,
            );
        }
        v.push((y % 256) as u8);
        y = y / 256;
        i = i + 1;
    }
    assert(v@ =~= old(v)@ + le64(x));
}

proof fn lemma_pow256_positive(i: int)
    ensures
        pow256(i) > 0,
    decreases i,
{
    if i > 0 {
        lemma_pow256_positive(i - 1);
    }
}

/// The bytes to hash for the measurement of an enclave at `base` of `size`
/// bytes.
pub fn measurement_data(base: u64, size: u64) -> (d: Vec<u8>)
    requires
        base + page_count(size) * 4096 <= u64::MAX,
    ensures
        d@ == measurement_input(base, page_count(size)),
{
    let pages: u64 = size / 4096 + if size % 4096 > 0 {
        1
    } else {
        0
    };
    let mut d: Vec<u8> = Vec::new();
    let mut k: u64 = 0;
    while k < pages
        invariant
            k <= pages,
            pages == page_count(size),
            base + pages * 4096 <= u64::MAX,
            d@ == measurement_input(base, k as int),
        decreases pages - k,
    {
        proof {
            assert(base + k * 4096 <= base + pages * 4096) by (nonlinear_arith)
                requires
                    k <= pages,
            ;
        }
        push_le64(&mut d, base + k * 4096);
        k = k + 1;
    }
    d
}

/// The report of an enclave with `measurement` and `attributes` for
/// `report_data`: the measurement, 32 zero bytes for the signer, the
/// attributes in 16 bytes, the report data cut or padded to 64 bytes, and
/// zeros up to 432 bytes.
pub open spec fn report_bytes(measurement: Seq<u8>, attributes: u64, report_data: Seq<u8>) -> Seq<
    u8,
> {
    let data = if report_data.len() > 64 {
        report_data.subrange(0, 64)
    } else {
        report_data
    };
    let head = measurement + Seq::new(32, |i: int| 0u8) + le64(attributes) + Seq::new(
        8,
        |i: int| 0u8,
    ) + data + Seq::new((64 - data.len()) as nat, |i: int| 0u8);
    head + Seq::new((REPORT_LEN - head.len()) as nat, |i: int| 0u8)
}

fn push_zeros(v: &mut Vec<u8>, n: usize)
    ensures
        final(v)@ == old(v)@ + Seq::new(n as nat, |i: int| 0u8),
{
    let mut i: usize = 0;
    while i < n
        invariant
            i <= n,
            v@ == old(v)@ + Seq::new(i as nat, |k: int| 0u8),
        decreases n - i,
    {
        v.push(0);
        i = i + 1;
        assert(v@ =~= old(v)@ + Seq::new(i as nat, |k: int| 0u8));
    }
}

/// The SGX driver: features, enclaves and the next enclave identifier.
pub struct SgxDriver {
    features: SgxFeatures,
    enclaves: BTreeMap<u64, SgxEnclave>,
    next_enclave_id: u64,
}

impl SgxDriver {
    /// The processor's SGX features.
    pub closed spec fn feature_set(&self) -> SgxFeatures {
        self.features
    }

    /// The enclaves by identifier.
    pub closed spec fn enclaves(&self) -> Map<u64, SgxEnclave> {
        self.enclaves@
    }

    /// The identifier of the next enclave.
    pub closed spec fn next_id(&self) -> u64 {
        self.next_enclave_id
    }

    /// A driver when the processor has SGX1 or SGX2.
    pub fn init(features: SgxFeatures) -> (r: Option<SgxDriver>)
        ensures
            r is Some <==> (features.sgx1 || features.sgx2),
            r matches Some(d) ==> d.feature_set() == features && d.enclaves() == Map::<
                u64,
                SgxEnclave,
            >::empty() && d.next_id() == 1,
    {
        if features.sgx1 || features.sgx2 {
            Some(SgxDriver { features, enclaves: BTreeMap::new(), next_enclave_id: 1 })
        } else {
            None
        }
    }

    /// The processor's SGX features.
    pub fn features(&self) -> (f: SgxFeatures)
        ensures
            f == self.feature_set(),
    {
        self.features
    }

    /// Records a new enclave at `base_address` of `size` bytes with its
    /// `measurement`, not yet initialized; refused without SGX1.
    pub fn create_enclave(
        &mut self,
        base_address: u64,
        size: u64,
        attributes: u64,
        measurement: Vec<u8>,
    ) -> (r: Result<u64, SgxError>)
        requires
            old(self).next_id() < u64::MAX,
        ensures
            final(self).feature_set() == old(self).feature_set(),
            !old(self).feature_set().sgx1 ==> r == Err::<u64, SgxError>(SgxError::NotSupported)
                && final(self).enclaves() == old(self).enclaves() && final(self).next_id() == old(
                self,
            ).next_id(),
            old(self).feature_set().sgx1 ==> {
                let id = old(self).next_id();
                &&& r == Ok::<u64, SgxError>(id)
                &&& final(self).next_id() == id + 1
                &&& final(self).enclaves().dom() == old(self).enclaves().dom().insert(id)
                &&& forall|k: u64|
                    k != id && old(self).enclaves().contains_key(k) ==> final(self).enclaves()[k]
                        == old(self).enclaves()[k]
                &&& final(self).enclaves()[id].enclave_id == id
                &&& final(self).enclaves()[id].base_address == base_address
                &&& final(self).enclaves()[id].size == size
                &&& final(self).enclaves()[id].measurement@ == measurement@
                &&& final(self).enclaves()[id].attributes == attributes
                &&& !final(self).enclaves()[id].initialized
            },
    {
        if !self.features.sgx1 {
            return Err(SgxError::NotSupported);
        }
        let enclave_id = self.next_enclave_id;
        self.next_enclave_id = enclave_id + 1;
        self.enclaves.insert(
            enclave_id,
            SgxEnclave {
                enclave_id,
                base_address,
                size,
                measurement,
                attributes,
                initialized: false,
            },
        );
        Ok(enclave_id)
    }

    /// Initializes enclave `enclave_id`: with no launch token, or with one
    /// of at least 304 bytes, the enclave is initialized and `Ok(true)`
    /// asks the caller to run EINIT; a shorter token changes nothing.
    pub fn initialize_enclave(&mut self, enclave_id: u64, launch_token: Option<&[u8]>) -> (r: Result<
        bool,
        SgxError,
    >)
        ensures
            final(self).feature_set() == old(self).feature_set(),
            final(self).next_id() == old(self).next_id(),
            final(self).enclaves().dom() == old(self).enclaves().dom(),
            !old(self).enclaves().contains_key(enclave_id) ==> r == Err::<bool, SgxError>(
                SgxError::EnclaveNotFound,
            ),
            old(self).enclaves().contains_key(enclave_id) ==> {
                let run = match launch_token {
                    Some(t) => t@.len() >= LAUNCH_TOKEN_LEN,
                    None => true,
                };
                let before = old(self).enclaves()[enclave_id];
                let after = final(self).enclaves()[enclave_id];
                &&& r == Ok::<bool, SgxError>(run)
                &&& after.initialized == (before.initialized || run)
                &&& after.enclave_id == before.enclave_id
                &&& after.base_address == before.base_address
                &&& after.size == before.size
                &&& after.measurement@ == before.measurement@
                &&& after.attributes == before.attributes
            },
            forall|k: u64|
                k != enclave_id && old(self).enclaves().contains_key(k) ==> final(self).enclaves()[k]
                    == old(self).enclaves()[k],
    {
        match self.enclaves.remove(&enclave_id) {
            Some(mut e) => {
                let run = match launch_token {
                    Some(t) => t.len() >= LAUNCH_TOKEN_LEN,
                    None => true,
                };
                if run {
                    e.initialized = true;
                }
                self.enclaves.insert(enclave_id, e);
                proof {
                    assert(self.enclaves@.dom() =~= old(self).enclaves@.dom());
                }
                Ok(run)
            },
            None => Err(SgxError::EnclaveNotFound),
        }
    }

    /// The attestation report of an initialized enclave for `report_data`.
    pub fn generate_attestation_report(&self, enclave_id: u64, report_data: &[u8]) -> (r: Result<
        Vec<u8>,
        SgxError,
    >)
        requires
            self.enclaves().contains_key(enclave_id) ==> self.enclaves()[enclave_id].measurement@.len()
                <= 320,
        ensures
            !self.enclaves().contains_key(enclave_id) ==> r is Err && r->Err_0
                == SgxError::EnclaveNotFound,
            self.enclaves().contains_key(enclave_id) && !self.enclaves()[enclave_id].initialized
                ==> r is Err && r->Err_0 == SgxError::EnclaveNotInitialized,
            self.enclaves().contains_key(enclave_id) && self.enclaves()[enclave_id].initialized
                ==> r is Ok && r->Ok_0@ == report_bytes(
                self.enclaves()[enclave_id].measurement@,
                self.enclaves()[enclave_id].attributes,
                report_data@,
            ),
    {
        let e = match self.enclaves.get(&enclave_id) {
            Some(e) => e,
            None => {
                return Err(SgxError::EnclaveNotFound);
            },
        };
        if !e.initialized {
            return Err(SgxError::EnclaveNotInitialized);
        }
        let mut report: Vec<u8> = Vec::new();
        let mut i: usize = 0;
        while i < e.measurement.len()
            invariant
                i <= e.measurement@.len(),
                report@ == e.measurement@.subrange(0, i as int),
            decreases e.measurement.len() - i,
        {
            report.push(e.measurement[i]);
            i = i + 1;
        }
        push_zeros(&mut report, 32);
        push_le64(&mut report, e.attributes);
        push_zeros(&mut report, 8);
        let n: usize = if report_data.len() > 64 {
            64
        } else {
            report_data.len()
        };
        let ghost data = if report_data@.len() > 64 {
            report_data@.subrange(0, 64)
        } else {
            report_data@
        };
        let ghost before_data = report@;
        let mut j: usize = 0;
        while j < n
            invariant
                j <= n <= report_data@.len(),
                n <= 64,
                data == report_data@.subrange(0, n as int),
                report@ == before_data + report_data@.subrange(0, j as int),
            decreases n - j,
        {
            proof {
                assert(before_data + report_data@.subrange(0, j as int + 1) =~= (before_data
                    + report_data@.subrange(0, j as int)).push(report_data@[j as int]));
            }
            report.push(report_data[j]);
            j = j + 1;
        }
        if n < 64 {
            push_zeros(&mut report, 64 - n);
        } else {
            proof {
                assert(Seq::new((64 - n) as nat, |i: int| 0u8) =~= Seq::<u8>::empty());
                assert(report@ =~= report@ + Seq::new((64 - n) as nat, |i: int| 0u8));
            }
        }
        let ghost head = report@;
        let fill = REPORT_LEN - report.len();
        push_zeros(&mut report, fill);
        proof {
            assert(head =~= e.measurement@ + Seq::new(32, |i: int| 0u8) + le64(e.attributes)
                + Seq::new(8, |i: int| 0u8) + data + Seq::new((64 - data.len()) as nat, |i: int| 0u8));
        }
        Ok(report)
    }
}

/// Whether a report carries `expected` as its measurement: its first 32
/// bytes are exactly `expected`. Reports shorter than 32 bytes do not.
pub fn verify_attestation_report(report: &[u8], expected_measurement: &[u8]) -> (r: Result<
    bool,
    SgxError,
>)
    ensures
        r == Ok::<bool, SgxError>(
            report@.len() >= 32 && report@.subrange(0, 32) == expected_measurement@,
        ),
{
    if report.len() < 32 {
        return Ok(false);
    }
    if expected_measurement.len() != 32 {
        proof {
            assert(report@.subrange(0, 32).len() != expected_measurement@.len());
        }
        return Ok(false);
    }
    let mut i: usize = 0;
    while i < 32
        invariant
            i <= 32,
            report@.len() >= 32,
            expected_measurement@.len() == 32,
            forall|k: int| 0 <= k < i ==> report@[k] == expected_measurement@[k],
        decreases 32 - i,
    {
        if report[i] != expected_measurement[i] {
            proof {
                assert(report@.subrange(0, 32)[i as int] != expected_measurement@[i as int]);
            }
            return Ok(false);
        }
        i = i + 1;
    }
    proof {
        assert(report@.subrange(0, 32) =~= expected_measurement@);
    }
    Ok(true)
}

/// Whether the SGX driver is set up.
pub fn is_available(driver: Option<&SgxDriver>) -> (r: bool)
    ensures
        r == driver is Some,
{
    driver.is_some()
}

} // verus!
