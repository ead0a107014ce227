//! TPM 2.0 driver logic: the ACPI TPM2 table, command encoding and
//! response decoding. The bytes travel to the chip through a transport that
//! the caller supplies.

use vstd::prelude::*;

verus! {

/// How the TPM is reached.
#[derive(Clone, Copy, PartialEq, Eq, Structural, Debug)]
pub enum TpmInterface {
    CRB,
    FIFO,
    MMIO,
    Absent,
}

/// TPM response codes.
#[derive(Clone, Copy, PartialEq, Eq, Structural, Debug)]
pub enum TpmResponseCode {
    Success,
    BadTag,
    BadSize,
    BadParameter,
    NotAvailable,
}

impl TpmResponseCode {
    /// The numeric code.
    pub fn code(&self) -> (c: u32)
        ensures
            c == match *self {
                TpmResponseCode::Success => 0u32,
                TpmResponseCode::BadTag => 0x1Eu32,
                TpmResponseCode::BadSize => 0x1Du32,
                TpmResponseCode::BadParameter => 0x03u32,
                TpmResponseCode::NotAvailable => 0x97u32,
            },
    {
        match self {
            TpmResponseCode::Success => 0,
            TpmResponseCode::BadTag => 0x1E,
            TpmResponseCode::BadSize => 0x1D,
            TpmResponseCode::BadParameter => 0x03,
            TpmResponseCode::NotAvailable => 0x97,
        }
    }
}

/// Why a TPM operation failed.
#[derive(Clone, Copy, PartialEq, Eq, Structural, Debug)]
pub enum TpmError {
    NotAvailable,
    NotInitialized,
    Timeout,
    CommandFailed,
    InvalidResponse,
    InitializationFailed,
    NotImplemented,
}

/// TPM2_Startup.
pub const TPM_CC_STARTUP: u32 = 0x144;

/// TPM2_PCR_Read.
pub const TPM_CC_READ_PCR: u32 = 0x17E;

/// TPM2_Quote.
pub const TPM_CC_QUOTE: u32 = 0x16E;

/// The little-endian bytes of a `u16`.
pub open spec fn le16(v: u16) -> Seq<u8> {
    seq![(v % 0x100) as u8, (v / 0x100) as u8]
}

/// The little-endian bytes of a `u32`.
pub open spec fn le32(v: u32) -> Seq<u8> {
    seq![
        (v % 0x100) as u8,
        ((v / 0x100) % 0x100) as u8,
        ((v / 0x1_0000) % 0x100) as u8,
        (v / 0x100_0000) as u8,
    ]
}

/// The little-endian `u32` at `i`.
pub open spec fn u32_at(b: Seq<u8>, i: int) -> u32 {
    (b[i] + b[i + 1] * 0x100 + b[i + 2] * 0x1_0000 + b[i + 3] * 0x100_0000) as u32
}

/// The little-endian `u64` at `i`.
pub open spec fn u64_at(b: Seq<u8>, i: int) -> u64 {
    (u32_at(b, i) + u32_at(b, i + 4) * 0x1_0000_0000) as u64
}

/// The TPM2_Startup(CLEAR) command.
pub open spec fn startup_command() -> Seq<u8> {
    le16(0x8001) + le32(12) + le32(TPM_CC_STARTUP) + le16(0)
}

/// The PCR read command for `pcr`; its size field holds the command's
/// length, 13 bytes.
pub open spec fn read_pcr_command(pcr: u8) -> Seq<u8> {
    le16(0x8001) + le32(13) + le32(TPM_CC_READ_PCR) + seq![pcr] + le16(0)
}

/// The nonce as it goes into a quote: at most its first 32 bytes.
pub open spec fn quote_nonce(nonce: Seq<u8>) -> Seq<u8> {
    nonce.subrange(0, if nonce.len() < 32 {
        nonce.len() as int
    } else {
        32
    })
}

/// The first 35 bytes of a quote command whose size field is `size` and
/// whose nonce has `n` bytes: tag, size, command code, platform hierarchy
/// handle, password session with empty authorization, and a selection of
/// all 24 PCRs of the SHA-256 bank.
pub open spec fn quote_header(size: u32, n: u16) -> Seq<u8> {
    le16(0x8002) + le32(size) + seq![
        0x6Eu8, 0x01u8, 0x00u8, 0x00u8,
        0x07u8, 0x00u8, 0x00u8, 0x40u8,
        0x09u8, 0x00u8, 0x00u8, 0x40u8,
        0x00u8, 0x00u8, 0x00u8, 0x00u8,
        0x01u8, 0x00u8, 0x00u8, 0x00u8,
        0x00u8, 0x0Bu8, 0x00u8, 0x03u8,
        0xFFu8, 0xFFu8, 0xFFu8,
    ] + le16(n)
}

/// The quote command over all 24 SHA-256 PCRs with `nonce`; its size field
/// holds the command's length.
pub open spec fn quote_command(nonce: Seq<u8>) -> Seq<u8> {
    let n = quote_nonce(nonce);
    quote_header((35 + n.len()) as u32, n.len() as u16) + n
}

/// The response code of a TPM response: bytes 6 to 9, or 0 for a response
/// too short to hold one.
pub open spec fn response_code(r: Seq<u8>) -> u32 {
    if r.len() >= 10 {
        u32_at(r, 6)
    } else {
        0
    }
}

fn push_le16(v: &mut Vec<u8>, x: u16)
    ensures
        final(v)@ == old(v)@ + le16(x),
{
    v.push((x % 0x100) as u8);
    v.push((x / 0x100) as u8);
    assert(final(v)@ =~= old(v)@ + le16(x));
}

fn push_le32(v: &mut Vec<u8>, x: u32)
    ensures
        final(v)@ == old(v)@ + le32(x),
{
    v.push((x % 0x100) as u8);
    v.push(((x / 0x100) % 0x100) as u8);
    v.push(((x / 0x1_0000) % 0x100) as u8);
    v.push((x / 0x100_0000) as u8);
    assert(final(v)@ =~= old(v)@ + le32(x));
}

/// Builds the TPM2_Startup(CLEAR) command.
pub fn build_startup_command() -> (cmd: Vec<u8>)
    ensures
        cmd@ == startup_command(),
{
    let mut cmd: Vec<u8> = Vec::new();
    push_le16(&mut cmd, 0x8001);
    push_le32(&mut cmd, 12);
    push_le32(&mut cmd, TPM_CC_STARTUP);
    push_le16(&mut cmd, 0);
    assert(cmd@ =~= startup_command());
    cmd
}

/// Builds the command that reads PCR `pcr`.
pub fn build_read_pcr_command(pcr: u8) -> (cmd: Vec<u8>)
    ensures
        cmd@ == read_pcr_command(pcr),
{
    let mut cmd: Vec<u8> = Vec::new();
    push_le16(&mut cmd, 0x8001);
    push_le32(&mut cmd, 13);
    push_le32(&mut cmd, TPM_CC_READ_PCR);
    cmd.push(pcr);
    push_le16(&mut cmd, 0);
    assert(cmd@ =~= read_pcr_command(pcr));
    cmd
}

/// Builds the quote command for `nonce`.
pub fn build_quote_command(nonce: &[u8]) -> (cmd: Vec<u8>)
    ensures
        cmd@ == quote_command(nonce@),
{
    let n: usize = if nonce.len() < 32 {
        nonce.len()
    } else {
        32
    };
    let mut cmd: Vec<u8> = Vec::new();
    push_le16(&mut cmd, 0x8002);
    push_le32(&mut cmd, 0);
    push_le32(&mut cmd, TPM_CC_QUOTE);
    push_le32(&mut cmd, 0x40000007);
    push_le32(&mut cmd, 0x40000009);
    push_le32(&mut cmd, 0);
    push_le32(&mut cmd, 1);
    cmd.push(0);
    push_le16(&mut cmd, 0x0B);
    cmd.push(3);
    cmd.push(0xFF);
    cmd.push(0xFF);
    cmd.push(0xFF);
    push_le16(&mut cmd, n as u16);
    assert(cmd@ =~= quote_header(0, n as u16));
    let mut i: usize = 0;
    while i < n
        invariant
            i <= n <= nonce@.len(),
            n <= 32,
            cmd@.len() == 35 + i,
            cmd@ == quote_header(0, n as u16) + nonce@.subrange(0, i as int),
        decreases n - i,
    {
        proof {
            assert(quote_header(0, n as u16) + nonce@.subrange(0, i as int + 1) =~= (quote_header(
                0,
                n as u16,
            ) + nonce@.subrange(0, i as int)).push(nonce@[i as int]));
        }
        cmd.push(nonce[i]);
        i = i + 1;
    }
    let size = (35 + n) as u32;
    let ghost before = cmd@;
    cmd.set(2, (size % 0x100) as u8);
    cmd.set(3, ((size / 0x100) % 0x100) as u8);
    cmd.set(4, ((size / 0x1_0000) % 0x100) as u8);
    cmd.set(5, (size / 0x100_0000) as u8);
    proof {
        assert(quote_nonce(nonce@) =~= nonce@.subrange(0, n as int));
        assert(cmd@ =~= quote_header(size, n as u16) + nonce@.subrange(0, n as int));
    }
    cmd
}

/// The response code of `response`.
pub fn parse_response_code(response: &[u8]) -> (c: u32)
    ensures
        c == response_code(response@),
{
    if response.len() >= 10 {
        response[6] as u32 + response[7] as u32 * 0x100 + response[8] as u32 * 0x1_0000
            + response[9] as u32 * 0x100_0000
    } else {
        0
    }
}

/// The interface a TPM2 table's start method selects.
pub open spec fn interface_of(start_method: u32) -> TpmInterface {
    if start_method == 6 {
        TpmInterface::CRB
    } else if start_method == 7 {
        TpmInterface::FIFO
    } else {
        TpmInterface::MMIO
    }
}

/// Calls `x86_64::PhysAddr::new`, which panics when a bit from 52 up is set
/// and otherwise keeps the address unchanged, then reads it back.
#[verifier::external_body]
fn physical_address(addr: u64) -> (r: u64)
    requires
        addr < 0x10_0000_0000_0000,
    ensures
        r == addr,
{
    x86_64::PhysAddr::new(addr).as_u64()
}

/// A TPM as found in the ACPI TPM2 table.
#[derive(Clone, Copy, PartialEq, Eq, Structural, Debug)]
pub struct TpmDevice {
    pub interface: TpmInterface,
    pub base_address: u64,
    pub locality: u8,
    pub initialized: bool,
}

/// Whether the ACPI TPM2 table `t` describes a device: its length field is at
/// least 52 and the table holds the control address and start method.
pub open spec fn tpm2_table_usable(t: Seq<u8>) -> bool {
    t.len() >= 48 && u32_at(t, 4) >= 52
}

/// The device described by the ACPI TPM2 table `table`, not yet started: the
/// control address at byte 36 and the interface from the start method at
/// byte 44. A table whose length field is below 52 describes none.
pub fn parse_tpm2_table(table: &[u8]) -> (r: Option<TpmDevice>)
    requires
        table@.len() >= 8,
        tpm2_table_usable(table@) ==> u64_at(table@, 36) < 0x10_0000_0000_0000,
    ensures
        r == if tpm2_table_usable(table@) {
            Some(
                TpmDevice {
                    interface: interface_of(u32_at(table@, 44)),
                    base_address: u64_at(table@, 36),
                    locality: 0,
                    initialized: false,
                },
            )
        } else {
            None
        },
{
    let length = table[4] as u32 + table[5] as u32 * 0x100 + table[6] as u32 * 0x1_0000
        + table[7] as u32 * 0x100_0000;
    if table.len() < 48 || length < 52 {
        return None;
    }
    let lo = table[36] as u64 + table[37] as u64 * 0x100 + table[38] as u64 * 0x1_0000
        + table[39] as u64 * 0x100_0000;
    let hi = table[40] as u64 + table[41] as u64 * 0x100 + table[42] as u64 * 0x1_0000
        + table[43] as u64 * 0x100_0000;
    let control_address = lo + hi * 0x1_0000_0000;
    let start_method = table[44] as u32 + table[45] as u32 * 0x100 + table[46] as u32 * 0x1_0000
        + table[47] as u32 * 0x100_0000;
    let interface = if start_method == 6 {
        TpmInterface::CRB
    } else if start_method == 7 {
        TpmInterface::FIFO
    } else {
        TpmInterface::MMIO
    };
    Some(
        TpmDevice {
            interface,
            base_address: physical_address(control_address),
            locality: 0,
            initialized: false,
        },
    )
}

/// A result's bytes as a sequence.
pub open spec fn bytes_result(r: Result<Vec<u8>, TpmError>) -> Result<Seq<u8>, TpmError> {
    match r {
        Ok(v) => Ok(v@),
        Err(e) => Err(e),
    }
}

/// What a PCR read yields from the TPM's response: the 32 bytes from byte
/// 10 of a successful response. A response without a complete 10-byte
/// header is invalid.
pub open spec fn pcr_reply(resp: Result<Seq<u8>, TpmError>) -> Result<Seq<u8>, TpmError> {
    match resp {
        Err(e) => Err(e),
        Ok(r) => if r.len() < 10 {
            Err(TpmError::InvalidResponse)
        } else if response_code(r) != 0 {
            Err(TpmError::CommandFailed)
        } else if r.len() >= 42 {
            Ok(r.subrange(10, 42))
        } else {
            Err(TpmError::InvalidResponse)
        },
    }
}

/// What a quote yields from the TPM's response: the whole successful
/// response. A response without a complete 10-byte header is invalid.
pub open spec fn quote_reply(resp: Result<Seq<u8>, TpmError>) -> Result<Seq<u8>, TpmError> {
    match resp {
        Err(e) => Err(e),
        Ok(r) => if r.len() < 10 {
            Err(TpmError::InvalidResponse)
        } else if response_code(r) != 0 {
            Err(TpmError::CommandFailed)
        } else {
            Ok(r)
        },
    }
}

/// Why a command cannot be sent to `device`, if it cannot.
pub open spec fn unusable(device: Option<TpmDevice>) -> Option<TpmError> {
    match device {
        None => Some(TpmError::NotAvailable),
        Some(d) => if !d.initialized {
            Some(TpmError::NotInitialized)
        } else if d.interface == TpmInterface::Absent {
            Some(TpmError::NotAvailable)
        } else {
            None
        },
    }
}

/// Decodes the response to a PCR read.
pub fn finish_read_pcr(response: Result<Vec<u8>, TpmError>) -> (r: Result<Vec<u8>, TpmError>)
    ensures
        bytes_result(r) == pcr_reply(bytes_result(response)),
{
    match response {
        Err(e) => Err(e),
        Ok(resp) => {
            if resp.len() < 10 {
                return Err(TpmError::InvalidResponse);
            }
            if parse_response_code(resp.as_slice()) != 0 {
                return Err(TpmError::CommandFailed);
            }
            if resp.len() >= 42 {
                let mut out: Vec<u8> = Vec::new();
                let mut i: usize = 10;
                while i < 42
                    invariant
                        10 <= i <= 42,
                        resp@.len() >= 42,
                        out@ == resp@.subrange(10, i as int),
                    decreases 42 - i,
                {
                    out.push(resp[i]);
                    i = i + 1;
                }
                Ok(out)
            } else {
                Err(TpmError::InvalidResponse)
            }
        },
    }
}

/// Decodes the response to a quote.
pub fn finish_generate_quote(response: Result<Vec<u8>, TpmError>) -> (r: Result<Vec<u8>, TpmError>)
    ensures
        bytes_result(r) == quote_reply(bytes_result(response)),
{
    match response {
        Err(e) => Err(e),
        Ok(resp) => {
            if resp.len() < 10 {
                Err(TpmError::InvalidResponse)
            } else if parse_response_code(resp.as_slice()) != 0 {
                Err(TpmError::CommandFailed)
            } else {
                Ok(resp)
            }
        },
    }
}

/// Reads PCR `pcr_index` of `device`, sending the command through
/// `transport`, which stands for the interface's register protocol.
pub fn read_pcr<F: Fn(TpmDevice, &[u8]) -> Result<Vec<u8>, TpmError>>(
    device: Option<TpmDevice>,
    pcr_index: u8,
    transport: &F,
) -> (r: Result<Vec<u8>, TpmError>)
    requires
        forall|d: TpmDevice, c: &[u8]| call_requires(*transport, (d, c)),
    ensures
        unusable(device) matches Some(e) ==> r == Err::<Vec<u8>, TpmError>(e),
        unusable(device) is None ==> exists|c: &[u8], resp: Result<Vec<u8>, TpmError>|
            #![auto]
            c@ == read_pcr_command(pcr_index) && call_ensures(*transport, (device->0, c), resp)
                && bytes_result(r) == pcr_reply(bytes_result(resp)),
{
    let tpm = match device {
        None => {
            return Err(TpmError::NotAvailable);
        },
        Some(d) => d,
    };
    if !tpm.initialized {
        return Err(TpmError::NotInitialized);
    }
    if tpm.interface == TpmInterface::Absent {
        return Err(TpmError::NotAvailable);
    }
    let cmd = build_read_pcr_command(pcr_index);
    let response = transport(tpm, cmd.as_slice());
    finish_read_pcr(response)
}

/// Asks `device` for a quote over all PCRs with `nonce`, sending the
/// command through `transport`.
pub fn generate_quote<F: Fn(TpmDevice, &[u8]) -> Result<Vec<u8>, TpmError>>(
    device: Option<TpmDevice>,
    nonce: &[u8],
    transport: &F,
) -> (r: Result<Vec<u8>, TpmError>)
    requires
        forall|d: TpmDevice, c: &[u8]| call_requires(*transport, (d, c)),
    ensures
        unusable(device) matches Some(e) ==> r == Err::<Vec<u8>, TpmError>(e),
        unusable(device) is None ==> exists|c: &[u8], resp: Result<Vec<u8>, TpmError>|
            #![auto]
            c@ == quote_command(nonce@) && call_ensures(*transport, (device->0, c), resp)
                && bytes_result(r) == quote_reply(bytes_result(resp)),
{
    let tpm = match device {
        None => {
            return Err(TpmError::NotAvailable);
        },
        Some(d) => d,
    };
    if !tpm.initialized {
        return Err(TpmError::NotInitialized);
    }
    if tpm.interface == TpmInterface::Absent {
        return Err(TpmError::NotAvailable);
    }
    let cmd = build_quote_command(nonce);
    let response = transport(tpm, cmd.as_slice());
    finish_generate_quote(response)
}

/// What the TPM2_Startup response makes of `tpm`: a successful response
/// with a complete header marks it initialized; an error, a short response
/// or a failure code leaves it as it was.
pub open spec fn startup_outcome(tpm: TpmDevice, resp: Result<Seq<u8>, TpmError>) -> TpmDevice {
    match resp {
        Ok(r) => if r.len() >= 10 && response_code(r) == 0 {
            TpmDevice { initialized: true, ..tpm }
        } else {
            tpm
        },
        Err(_) => tpm,
    }
}

/// Applies the TPM's answer to TPM2_Startup to `tpm`.
pub fn finish_initialize_tpm(tpm: TpmDevice, response: Result<Vec<u8>, TpmError>) -> (r: TpmDevice)
    ensures
        r == startup_outcome(tpm, bytes_result(response)),
{
    match response {
        Ok(resp) => {
            if resp.len() >= 10 && parse_response_code(resp.as_slice()) == 0 {
                TpmDevice { initialized: true, ..tpm }
            } else {
                tpm
            }
        },
        Err(_) => tpm,
    }
}

/// Starts the TPM with TPM2_Startup(CLEAR) through `transport`; it counts
/// as initialized when the response reports success. A TPM without an
/// interface is returned as it is, and nothing is sent.
pub fn initialize_tpm<F: Fn(TpmDevice, &[u8]) -> Result<Vec<u8>, TpmError>>(
    tpm: TpmDevice,
    transport: &F,
) -> (r: TpmDevice)
    requires
        forall|d: TpmDevice, c: &[u8]| call_requires(*transport, (d, c)),
    ensures
        tpm.interface == TpmInterface::Absent ==> r == tpm,
        tpm.interface != TpmInterface::Absent ==> exists|
            c: &[u8],
            resp: Result<Vec<u8>, TpmError>,
        |
            #![auto]
            c@ == startup_command() && call_ensures(*transport, (tpm, c), resp) && r
                == startup_outcome(tpm, bytes_result(resp)),
{
    if tpm.interface == TpmInterface::Absent {
        return tpm;
    }
    let cmd = build_startup_command();
    let response = transport(tpm, cmd.as_slice());
    finish_initialize_tpm(tpm, response)
}

/// Whether a started TPM is present.
pub open spec fn is_available_spec(device: Option<TpmDevice>) -> bool {
    match device {
        Some(d) => d.initialized,
        None => false,
    }
}

/// Whether a started TPM is present.
pub fn is_available(device: Option<TpmDevice>) -> (r: bool)
    ensures
        r == is_available_spec(device),
{
    match device {
        Some(d) => d.initialized,
        None => false,
    }
}

} // verus!
