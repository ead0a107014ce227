//! Attestation evidence: a TPM quote over the platform registers, an
//! enclave attestation, and a signature over both.

use vstd::prelude::*;
use crate::crypto::{sign, verify as verify_signature};
use crate::drivers::enclave::{self as enclave, EnclaveDriver, EnclaveType};
use crate::drivers::sgx::SgxDriver;
use crate::drivers::tpm::{
    self as tpm, bytes_result, pcr_reply, quote_command, quote_reply, read_pcr_command, unusable, TpmDevice,
    TpmError,
};

verus! {

/// Number of platform configuration registers read.
pub const PCR_COUNT: u8 = 24;

/// A TPM quote.
pub struct TpmQuote {
    pub pcr_values: Vec<u8>,
    pub signature: Vec<u8>,
    pub nonce: Vec<u8>,
}

/// An enclave attestation as carried in evidence.
pub struct EnclaveAttestation {
    pub enclave_id: u64,
    pub measurement: Vec<u8>,
    pub certificate: Vec<u8>,
    pub signature: Vec<u8>,
}

/// Attestation evidence.
pub struct AttestationEvidence {
    pub tpm_quote: Option<TpmQuote>,
    pub enclave_attestation: Option<EnclaveAttestation>,
    pub pcr_values: Vec<u8>,
    pub signature: Vec<u8>,
}

/// A quote as plain sequences: register values, signature, nonce.
pub type QuoteView = (Seq<u8>, Seq<u8>, Seq<u8>);

/// Sixty-four zero bytes, the signature of a quote the TPM did not sign.
pub open spec fn unsigned() -> Seq<u8> {
    Seq::new(64, |i: int| 0u8)
}

/// The little-endian `u16` at `i`.
pub open spec fn u16_at(b: Seq<u8>, i: int) -> int {
    b[i] + b[i + 1] * 256
}

/// The quote built from the register values read, the TPM's answer to the
/// quote command, and the nonce. Without register values there is none. A
/// long enough answer gives the register digest at bytes 10 to 41 and, when
/// complete, the signature whose length is at byte 50 and whose bytes start
/// at 52; a missing signature is 64 zero bytes.
pub open spec fn quote_of(pcrs: Seq<u8>, answer: Result<Seq<u8>, TpmError>, nonce: Seq<u8>) -> Option<
    QuoteView,
> {
    if pcrs.len() == 0 {
        None
    } else {
        match answer {
            Err(_) => Some((pcrs, unsigned(), nonce)),
            Ok(r) => if r.len() < 42 {
                Some((pcrs, unsigned(), nonce))
            } else {
                let digest = r.subrange(10, 42);
                if r.len() > 52 && r.len() >= 52 + u16_at(r, 50) {
                    Some((digest, r.subrange(52, 52 + u16_at(r, 50)), nonce))
                } else {
                    Some((digest, unsigned(), nonce))
                }
            },
        }
    }
}

/// A quote's sequences.
pub open spec fn quote_view(q: TpmQuote) -> QuoteView {
    (q.pcr_values@, q.signature@, q.nonce@)
}

fn zeros(n: usize) -> (v: Vec<u8>)
    ensures
        v@ == Seq::new(n as nat, |i: int| 0u8),
{
    let mut v: Vec<u8> = Vec::new();
    let mut i: usize = 0;
    while i < n
        invariant
            i <= n,
            v@ == Seq::new(i as nat, |k: int| 0u8),
        decreases n - i,
    {
        v.push(0);
        i = i + 1;
        assert(v@ =~= Seq::new(i as nat, |k: int| 0u8));
    }
    v
}

fn copy_range(src: &Vec<u8>, from: usize, to: usize) -> (v: Vec<u8>)
    requires
        from <= to <= src@.len(),
    ensures
        v@ == src@.subrange(from as int, to as int),
{
    let mut v: Vec<u8> = Vec::new();
    let mut i: usize = from;
    while i < to
        invariant
            from <= i <= to <= src@.len(),
            v@ == src@.subrange(from as int, i as int),
        decreases to - i,
    {
        v.push(src[i]);
        i = i + 1;
    }
    v
}

fn append(dst: &mut Vec<u8>, src: &Vec<u8>)
    ensures
        final(dst)@ == old(dst)@ + src@,
{
    let mut i: usize = 0;
    while i < src.len()
        invariant
            i <= src@.len(),
            dst@ == old(dst)@ + src@.subrange(0, i as int),
        decreases src.len() - i,
    {
        proof {
            assert(old(dst)@ + src@.subrange(0, i as int + 1) =~= (old(dst)@ + src@.subrange(
                0,
                i as int,
            )).push(src@[i as int]));
        }
        dst.push(src[i]);
        i = i + 1;
    }
    assert(src@.subrange(0, src@.len() as int) =~= src@);
}

/// Builds the quote from the register values read, the TPM's answer to the
/// quote command, and the nonce.
pub fn tpm_quote_from(pcr_values: Vec<u8>, answer: Result<Vec<u8>, TpmError>, nonce: Vec<u8>) -> (q:
    Option<TpmQuote>)
    ensures
        match (q, quote_of(pcr_values@, bytes_result(answer), nonce@)) {
            (Some(a), Some(b)) => quote_view(a) == b,
            (None, None) => true,
            _ => false,
        },
{
    if pcr_values.len() == 0 {
        return None;
    }
    match answer {
        Err(_) => Some(TpmQuote { pcr_values, signature: zeros(64), nonce }),
        Ok(r) => {
            if r.len() < 42 {
                return Some(TpmQuote { pcr_values, signature: zeros(64), nonce });
            }
            let digest = copy_range(&r, 10, 42);
            if r.len() > 52 {
                let sig_size = r[50] as usize + r[51] as usize * 256;
                if r.len() - 52 >= sig_size {
                    let signature = copy_range(&r, 52, 52 + sig_size);
                    return Some(TpmQuote { pcr_values: digest, signature, nonce });
                }
            }
            Some(TpmQuote { pcr_values: digest, signature: zeros(64), nonce })
        },
    }
}

/// Whether `r` is a possible outcome of reading register `i` of `device`
/// through `transport`: the error that makes the device unusable, or the
/// reply to a response the transport may give to the read command.
pub open spec fn pcr_read_by<F: Fn(TpmDevice, &[u8]) -> Result<Vec<u8>, TpmError>>(
    transport: F,
    device: Option<TpmDevice>,
    i: u8,
    r: Result<Seq<u8>, TpmError>,
) -> bool {
    match unusable(device) {
        Some(e) => r == Err::<Seq<u8>, TpmError>(e),
        None => exists|c: &[u8], resp: Result<Vec<u8>, TpmError>|
            #![auto]
            c@ == read_pcr_command(i) && call_ensures(transport, (device->0, c), resp) && r == pcr_reply(
                bytes_result(resp),
            ),
    }
}

/// Whether `r` is a possible answer of `device` to the quote command with
/// `nonce`, sent through `transport`.
pub open spec fn quote_by<F: Fn(TpmDevice, &[u8]) -> Result<Vec<u8>, TpmError>>(
    transport: F,
    device: Option<TpmDevice>,
    nonce: Seq<u8>,
    r: Result<Seq<u8>, TpmError>,
) -> bool {
    match unusable(device) {
        Some(e) => r == Err::<Seq<u8>, TpmError>(e),
        None => exists|c: &[u8], resp: Result<Vec<u8>, TpmError>|
            #![auto]
            c@ == quote_command(nonce) && call_ensures(transport, (device->0, c), resp) && r == quote_reply(
                bytes_result(resp),
            ),
    }
}

/// The values of the registers that were read, in order.
pub open spec fn read_values(outs: Seq<Result<Seq<u8>, TpmError>>) -> Seq<u8>
    decreases outs.len(),
{
    if outs.len() == 0 {
        Seq::empty()
    } else {
        read_values(outs.drop_last()) + match outs.last() {
            Ok(v) => v,
            Err(_) => Seq::empty(),
        }
    }
}

/// A quote, if any, as plain values.
pub open spec fn quote_option_view(q: Option<TpmQuote>) -> Option<QuoteView> {
    match q {
        Some(x) => Some(quote_view(x)),
        None => None,
    }
}

/// The nonce a quote is asked with: the caller's, or 32 zero bytes.
pub open spec fn quote_nonce_of(nonce: Option<Vec<u8>>) -> Seq<u8> {
    match nonce {
        Some(n) => n@,
        None => Seq::new(32, |i: int| 0u8),
    }
}

/// Whether `q` is a possible outcome of asking `device` for a quote with
/// `nonce` through `transport`: none without a started TPM; otherwise, from
/// some possible outcomes of reading the 24 registers, none when no
/// register could be read (and the quote command is not sent), else the
/// quote built from the values read and some possible answer to the quote
/// command.
pub open spec fn quote_outcome<F: Fn(TpmDevice, &[u8]) -> Result<Vec<u8>, TpmError>>(
    transport: F,
    device: Option<TpmDevice>,
    nonce: Seq<u8>,
    q: Option<TpmQuote>,
) -> bool {
    &&& !tpm::is_available_spec(device) ==> q is None
    &&& tpm::is_available_spec(device) ==> exists|outs: Seq<Result<Seq<u8>, TpmError>>|
        #![trigger read_values(outs)]
        {
            &&& outs.len() == PCR_COUNT
            &&& forall|j: int| 0 <= j < PCR_COUNT ==> pcr_read_by(transport, device, j as u8, #[trigger] outs[j])
            &&& read_values(outs).len() == 0 ==> q is None
            &&& read_values(outs).len() > 0 ==> exists|answer: Result<Seq<u8>, TpmError>|
                #![trigger quote_by(transport, device, nonce, answer)]
                quote_by(transport, device, nonce, answer) && quote_option_view(q) == quote_of(
                    read_values(outs),
                    answer,
                    nonce,
                )
        }
}

/// Whether `r` is what attesting the default enclave gives: an attestation
/// exactly when the driver is started for SGX and enclave 1 is
/// initialized, with the first 32 bytes of its report over 64 zero bytes
/// as the measurement.
pub open spec fn enclave_outcome(
    driver: Option<EnclaveDriver>,
    sgx: Option<&SgxDriver>,
    r: Option<EnclaveAttestation>,
) -> bool {
    &&& r is Some <==> ({
        &&& enclave::is_available_spec(driver)
        &&& driver->0.enclave_type == EnclaveType::Sgx
        &&& sgx matches Some(s) && s.enclaves().contains_key(1) && s.enclaves()[1].initialized
    })
    &&& r matches Some(a) ==> {
        let e = sgx->0.enclaves()[1];
        &&& a.enclave_id == 1
        &&& a.measurement@ == crate::drivers::sgx::report_bytes(
            e.measurement@,
            e.attributes,
            Seq::new(64, |i: int| 0u8),
        ).subrange(0, 32)
        &&& a.certificate@ == Seq::<u8>::empty()
        &&& a.signature@ == Seq::<u8>::empty()
    }
}

/// The bytes a piece of evidence is signed over: the quote's register
/// values and signature, the enclave measurement, and the register values.
pub open spec fn evidence_bytes(
    quote: Option<(Seq<u8>, Seq<u8>)>,
    measurement: Option<Seq<u8>>,
    pcrs: Seq<u8>,
) -> Seq<u8> {
    (match quote {
        Some((p, s)) => p + s,
        None => Seq::empty(),
    }) + (match measurement {
        Some(m) => m,
        None => Seq::empty(),
    }) + pcrs
}

/// The bytes `evidence` is signed over.
pub open spec fn signed_bytes(
    tpm_quote: Option<TpmQuote>,
    enclave_attestation: Option<EnclaveAttestation>,
    pcrs: Seq<u8>,
) -> Seq<u8> {
    evidence_bytes(
        match tpm_quote {
            Some(q) => Some((q.pcr_values@, q.signature@)),
            None => None,
        },
        match enclave_attestation {
            Some(e) => Some(e.measurement@),
            None => None,
        },
        pcrs,
    )
}

fn evidence_data(
    tpm_quote: &Option<TpmQuote>,
    enclave_attestation: &Option<EnclaveAttestation>,
    pcr_values: &Vec<u8>,
) -> (d: Vec<u8>)
    ensures
        d@ == signed_bytes(*tpm_quote, *enclave_attestation, pcr_values@),
{
    let mut d: Vec<u8> = Vec::new();
    match tpm_quote {
        Some(q) => {
            append(&mut d, &q.pcr_values);
            append(&mut d, &q.signature);
        },
        None => {},
    }
    match enclave_attestation {
        Some(e) => {
            append(&mut d, &e.measurement);
        },
        None => {},
    }
    append(&mut d, pcr_values);
    proof {
        assert(d@ =~= signed_bytes(*tpm_quote, *enclave_attestation, pcr_values@));
    }
    d
}

/// Produces and checks attestation evidence.
pub struct AttestationManager;

impl AttestationManager {
    pub fn new() -> (m: Self) {
        AttestationManager
    }

    /// Reads the 24 registers and asks the TPM for a quote over them with
    /// `nonce` (32 zero bytes without one), through `transport`. Without a
    /// started TPM, or when no register could be read, there is no quote.
    pub fn generate_tpm_quote<F: Fn(TpmDevice, &[u8]) -> Result<Vec<u8>, TpmError>>(
        &self,
        nonce: Option<Vec<u8>>,
        device: Option<TpmDevice>,
        transport: &F,
    ) -> (q: Option<TpmQuote>)
        requires
            forall|d: TpmDevice, c: &[u8]| call_requires(*transport, (d, c)),
        ensures
            quote_outcome(*transport, device, quote_nonce_of(nonce), q),
    {
        if !tpm::is_available(device) {
            return None;
        }
        let ghost nonce_seq = quote_nonce_of(nonce);
        let mut pcr_values: Vec<u8> = Vec::new();
        let ghost mut outs: Seq<Result<Seq<u8>, TpmError>> = Seq::empty();
        let mut pcr_index: u8 = 0;
        while pcr_index < PCR_COUNT
            invariant
                pcr_index <= PCR_COUNT,
                forall|d: TpmDevice, c: &[u8]| call_requires(*transport, (d, c)),
                outs.len() == pcr_index,
                forall|j: int| 0 <= j < pcr_index ==> pcr_read_by(*transport, device, j as u8, #[trigger] outs[j]),
                pcr_values@ == read_values(outs),
            decreases PCR_COUNT - pcr_index,
        {
            let r = tpm::read_pcr(device, pcr_index, transport);
            let ghost out = bytes_result(r);
            proof {
                assert(pcr_read_by(*transport, device, pcr_index, out));
            }
            match r {
                Ok(value) => {
                    append(&mut pcr_values, &value);
                },
                Err(_) => {},
            }
            proof {
                let old_outs = outs;
                outs = outs.push(out);
                assert(outs.drop_last() =~= old_outs);
                assert forall|j: int| 0 <= j < pcr_index + 1 implies pcr_read_by(
                    *transport,
                    device,
                    j as u8,
                    #[trigger] outs[j],
                ) by {
                    if j < pcr_index {
                        assert(outs[j] == old_outs[j]);
                    }
                }
            }
            pcr_index = pcr_index + 1;
        }
        if pcr_values.len() == 0 {
            return None;
        }
        let nonce_data = match nonce {
            Some(n) => n,
            None => zeros(32),
        };
        let answer = tpm::generate_quote(device, nonce_data.as_slice(), transport);
        let ghost ans = bytes_result(answer);
        proof {
            assert(nonce_data@ == nonce_seq);
            assert(quote_by(*transport, device, nonce_seq, ans));
        }
        let q = tpm_quote_from(pcr_values, answer, nonce_data);
        proof {
            assert(quote_option_view(q) == quote_of(read_values(outs), ans, nonce_seq));
        }
        q
    }

    /// Attests the default enclave (identifier 1) with 64 zero bytes of
    /// report data; none when enclaves are unavailable or attestation fails.
    pub fn generate_enclave_attestation(
        &self,
        driver: Option<EnclaveDriver>,
        sgx: Option<&SgxDriver>,
    ) -> (r: Option<EnclaveAttestation>)
        requires
            sgx matches Some(s) ==> (s.enclaves().contains_key(1) ==> s.enclaves()[1].measurement@.len()
                <= 320),
        ensures
            enclave_outcome(driver, sgx, r),
    {
        if !enclave::is_available(driver) {
            return None;
        }
        let report_data = zeros(64);
        match enclave::generate_attestation(driver, sgx, 1, report_data.as_slice()) {
            Ok(a) => Some(
                EnclaveAttestation {
                    enclave_id: a.enclave_id,
                    measurement: a.measurement,
                    certificate: a.certificate,
                    signature: a.signature,
                },
            ),
            Err(_) => None,
        }
    }

    /// Gathers a quote and an enclave attestation and signs them; the
    /// evidence's register values are the quote's. The signing service is
    /// not reachable from the kernel, so the signature stays empty.
    pub fn generate_evidence<F: Fn(TpmDevice, &[u8]) -> Result<Vec<u8>, TpmError>>(
        &mut self,
        nonce: Option<Vec<u8>>,
        device: Option<TpmDevice>,
        transport: &F,
        enclave_driver: Option<EnclaveDriver>,
        sgx: Option<&SgxDriver>,
    ) -> (e: AttestationEvidence)
        requires
            forall|d: TpmDevice, c: &[u8]| call_requires(*transport, (d, c)),
            sgx matches Some(s) ==> (s.enclaves().contains_key(1) ==> s.enclaves()[1].measurement@.len()
                <= 320),
        ensures
            e.pcr_values@ == match e.tpm_quote {
                Some(q) => q.pcr_values@,
                None => Seq::<u8>::empty(),
            },
            e.signature@ == Seq::<u8>::empty(),
            quote_outcome(*transport, device, quote_nonce_of(nonce), e.tpm_quote),
            enclave_outcome(enclave_driver, sgx, e.enclave_attestation),
    {
        let tpm_quote = self.generate_tpm_quote(nonce, device, transport);
        let enclave_attestation = self.generate_enclave_attestation(enclave_driver, sgx);
        let pcr_values = match &tpm_quote {
            Some(q) => copy_range(&q.pcr_values, 0, q.pcr_values.len()),
            None => Vec::new(),
        };
        let data = evidence_data(&tpm_quote, &enclave_attestation, &pcr_values);
        let signature = match sign(data.as_slice()) {
            Ok(s) => s,
            Err(_) => Vec::new(),
        };
        AttestationEvidence { tpm_quote, enclave_attestation, pcr_values, signature }
    }

    /// Checks evidence: its signature over the signed bytes, then that the
    /// quote and the enclave attestation are not empty. The kernel cannot
    /// verify signatures on its own, so no evidence passes.
    pub fn verify(&self, evidence: &AttestationEvidence) -> (r: bool)
        ensures
            !r,
    {
        let data = evidence_data(
            &evidence.tpm_quote,
            &evidence.enclave_attestation,
            &evidence.pcr_values,
        );
        let ok = match verify_signature(data.as_slice(), evidence.signature.as_slice()) {
            Ok(b) => b,
            Err(_) => false,
        };
        if !ok {
            return false;
        }
        match &evidence.tpm_quote {
            Some(q) => {
                if q.pcr_values.len() == 0 || q.signature.len() == 0 {
                    return false;
                }
            },
            None => {},
        }
        match &evidence.enclave_attestation {
            Some(e) => {
                if e.measurement.len() == 0 || e.certificate.len() == 0 || e.signature.len() == 0 {
                    return false;
                }
            },
            None => {},
        }
        true
    }
}

} // verus!
