use aios_kernel::attestation::{AttestationManager, AttestationEvidence, TpmQuote, tpm_quote_from};
use aios_kernel::events::{EventSubscription, EventType, KernelEvent, KernelEventSystem};
use aios_kernel::audit::{
    record_audit_event, LIFECYCLE_EVENTS_CALLBACK, SECURITY_EVENTS_CALLBACK, AuditAttestationSystem, AuditEvent, AuditEventType, AuditFilter, AuditLog,
    AuditManager, AuditResult,
};
use aios_kernel::crypto::{self, CryptoError, PQCOperation, PQCSyscall, SignatureError};
use aios_kernel::drivers::enclave::{self, EnclaveDriver, EnclaveError, EnclaveType};
use aios_kernel::drivers::sgx::{detect_sgx_features, SgxDriver};
use aios_kernel::drivers::tpm::{
    build_quote_command, finish_generate_quote, finish_initialize_tpm, generate_quote, initialize_tpm, TpmDevice, TpmError,
    TpmInterface,
};

fn event(ts: u64, kind: AuditEventType, agent: Option<u64>) -> AuditEvent {
    AuditEvent {
        timestamp: ts,
        event_type: kind,
        agent_id: agent,
        action: String::from("spawn"),
        result: AuditResult::Success,
        metadata: vec![1, 2],
    }
}

fn started_tpm() -> TpmDevice {
    TpmDevice { interface: TpmInterface::CRB, base_address: 0xFED4_0000, locality: 0, initialized: true }
}

#[test]
fn pqc_operations_are_not_supported_yet() {
    let r = PQCSyscall::handle_operation(PQCOperation::Sign, &[1, 2, 3]);
    assert!(!r.success);
    assert!(r.data.is_none());
    assert_eq!(r.error, 0);
    assert!(matches!(PQCSyscall::store_key_in_enclave(1, &[1]), Err(CryptoError::EnclaveError)));
    assert!(matches!(PQCSyscall::retrieve_key_from_enclave(1), Err(CryptoError::EnclaveError)));
}

#[test]
fn signing_is_not_supported() {
    assert!(matches!(crypto::sign(&[1, 2, 3]), Err(SignatureError::NotSupported)));
}

#[test]
fn verify_rejects_a_signature_of_the_wrong_length() {
    assert!(matches!(crypto::verify(&[1, 2, 3], &[0u8; 10]), Ok(false)));
    assert!(matches!(crypto::verify(&[1, 2, 3], &[0u8; 64]), Err(SignatureError::NotSupported)));
}

#[test]
fn audit_manager_filters_by_agent() {
    let mut m = AuditManager::new();
    m.record(event(1, AuditEventType::AgentSpawn, Some(7)));
    m.record(event(2, AuditEventType::AgentKill, Some(8)));
    m.record(event(3, AuditEventType::SystemEvent, None));
    assert_eq!(m.get_events(None).len(), 3);
    let only7 = m.get_events(Some(AuditFilter { agent_id: Some(7), event_type: None }));
    assert_eq!(only7.len(), 1);
    assert_eq!(only7[0].timestamp, 1);
}

#[test]
fn appended_audit_log_verifies() {
    let mut log = AuditLog::new();
    assert!(log.verify());
    log.append(event(1, AuditEventType::CapabilityGrant, Some(3)));
    log.append(event(2, AuditEventType::CapabilityRevoke, Some(3)));
    assert!(log.verify());
}

#[test]
fn record_audit_event_records_in_both_places() {
    let mut system = Some(AuditAttestationSystem::new());
    record_audit_event(&mut system, AuditEventType::SecurityViolation, Some(5), "write", AuditResult::Denied, vec![9], 77);
    let s = system.as_ref().unwrap();
    let events = s.audit.get_events(None);
    assert_eq!(events.len(), 1);
    assert_eq!(events[0].timestamp, 77);
    assert_eq!(events[0].action, "write");
    assert_eq!(events[0].result, AuditResult::Denied);
    assert!(s.log.verify());

    let mut none: Option<AuditAttestationSystem> = None;
    record_audit_event(&mut none, AuditEventType::SystemEvent, None, "x", AuditResult::Success, vec![], 1);
    assert!(none.is_none());
}

#[test]
fn record_event_and_verify_attestation() {
    let mut s = AuditAttestationSystem::new();
    s.record_event(event(4, AuditEventType::ResourceExceeded, Some(2)));
    assert_eq!(s.audit.get_events(None).len(), 1);
    let transport = |_d: TpmDevice, _c: &[u8]| -> Result<Vec<u8>, TpmError> { Err(TpmError::Timeout) };
    let e = s.generate_attestation(None, None, &transport, None, None);
    assert!(e.tpm_quote.is_none());
    assert!(e.enclave_attestation.is_none());
    assert!(e.signature.is_empty());
    assert!(!s.verify_attestation(&e));
}

#[test]
fn quote_command_is_built_with_the_nonce() {
    let cmd = build_quote_command(&[0xAA, 0xBB]);
    assert_eq!(cmd.len(), 37);
    assert_eq!(&cmd[0..2], &[0x02, 0x80]);
    assert_eq!(&cmd[2..6], &[37, 0, 0, 0]);
    assert_eq!(&cmd[33..35], &[2, 0]);
    assert_eq!(&cmd[35..], &[0xAA, 0xBB]);
    let long = build_quote_command(&[1u8; 40]);
    assert_eq!(long.len(), 35 + 32);
}

#[test]
fn finish_generate_quote_checks_the_response_code() {
    let mut bad = vec![0u8; 10];
    bad[6] = 1;
    assert!(matches!(finish_generate_quote(Ok(bad)), Err(TpmError::CommandFailed)));
    assert_eq!(finish_generate_quote(Ok(vec![0u8; 12])).unwrap(), vec![0u8; 12]);
    assert!(matches!(finish_generate_quote(Err(TpmError::Timeout)), Err(TpmError::Timeout)));
    assert!(matches!(finish_generate_quote(Ok(vec![0u8; 3])), Err(TpmError::InvalidResponse)));
}

#[test]
fn generate_quote_needs_a_started_tpm() {
    let transport = |_d: TpmDevice, c: &[u8]| -> Result<Vec<u8>, TpmError> { Ok(c.to_vec()) };
    assert!(matches!(generate_quote(None, &[1], &transport), Err(TpmError::NotAvailable)));
    let mut cold = started_tpm();
    cold.initialized = false;
    assert!(matches!(generate_quote(Some(cold), &[1], &transport), Err(TpmError::NotInitialized)));
    assert!(matches!(generate_quote(Some(started_tpm()), &[5], &transport), Err(TpmError::CommandFailed)));
    let ok = |_d: TpmDevice, c: &[u8]| -> Result<Vec<u8>, TpmError> {
        let mut r = vec![0u8; 10];
        r.extend_from_slice(c);
        Ok(r)
    };
    let answer = generate_quote(Some(started_tpm()), &[5], &ok).unwrap();
    assert_eq!(&answer[10..], &build_quote_command(&[5])[..]);
}

#[test]
fn initialize_tpm_runs_startup() {
    let mut cold = started_tpm();
    cold.initialized = false;
    let ok = |_d: TpmDevice, _c: &[u8]| -> Result<Vec<u8>, TpmError> { Ok(vec![0u8; 10]) };
    assert!(initialize_tpm(cold, &ok).initialized);
    let fail = |_d: TpmDevice, _c: &[u8]| -> Result<Vec<u8>, TpmError> { Err(TpmError::Timeout) };
    assert!(!initialize_tpm(cold, &fail).initialized);
    let absent = TpmDevice { interface: TpmInterface::Absent, ..cold };
    assert!(!initialize_tpm(absent, &ok).initialized);
}

#[test]
fn startup_answer_decides_initialization() {
    let mut cold = started_tpm();
    cold.initialized = false;
    assert!(finish_initialize_tpm(cold, Ok(vec![0u8; 10])).initialized);
    let mut refused = vec![0u8; 10];
    refused[6] = 1;
    assert!(!finish_initialize_tpm(cold, Ok(refused)).initialized);
    assert!(!finish_initialize_tpm(cold, Err(TpmError::Timeout)).initialized);
    assert!(!finish_initialize_tpm(cold, Ok(vec![0u8; 4])).initialized);
    // a started TPM stays started whatever the answer
    assert!(finish_initialize_tpm(started_tpm(), Err(TpmError::Timeout)).initialized);
    let after = finish_initialize_tpm(cold, Ok(vec![0u8; 10]));
    assert_eq!(after.interface, cold.interface);
}

#[test]
fn quote_takes_digest_and_signature_from_the_answer() {
    let mut answer = vec![0u8; 56];
    for (i, b) in answer.iter_mut().enumerate().take(42).skip(10) {
        *b = i as u8;
    }
    answer[50] = 4;
    answer[52..56].copy_from_slice(&[9, 8, 7, 6]);
    let q = tpm_quote_from(vec![1, 2, 3], Ok(answer), vec![5]).unwrap();
    assert_eq!(q.pcr_values, (10u8..42).collect::<Vec<u8>>());
    assert_eq!(q.signature, vec![9, 8, 7, 6]);
    assert_eq!(q.nonce, vec![5]);

    let unsigned = tpm_quote_from(vec![1, 2, 3], Err(TpmError::Timeout), vec![5]).unwrap();
    assert_eq!(unsigned.pcr_values, vec![1, 2, 3]);
    assert_eq!(unsigned.signature, vec![0u8; 64]);
    assert!(tpm_quote_from(vec![], Ok(vec![0u8; 60]), vec![5]).is_none());
}

#[test]
fn tpm_quote_uses_a_zero_nonce_by_default() {
    let m = AttestationManager::new();
    let transport = |_d: TpmDevice, _c: &[u8]| -> Result<Vec<u8>, TpmError> { Ok(vec![0u8; 20]) };
    assert!(m.generate_tpm_quote(None, None, &transport).is_none());
    if let Some(q) = m.generate_tpm_quote(None, Some(started_tpm()), &transport) {
        assert_eq!(q.nonce, vec![0u8; 32]);
    }
}

#[test]
fn evidence_without_hardware_is_empty() {
    let mut m = AttestationManager::new();
    let transport = |_d: TpmDevice, _c: &[u8]| -> Result<Vec<u8>, TpmError> { Err(TpmError::Timeout) };
    let e: AttestationEvidence = m.generate_evidence(Some(vec![1]), None, &transport, None, None);
    assert!(e.tpm_quote.is_none());
    assert!(e.pcr_values.is_empty());
    assert!(e.signature.is_empty());
    assert!(!m.verify(&e));
    let _unused: Option<TpmQuote> = e.tpm_quote;
}

#[test]
fn enclave_type_follows_sgx() {
    assert_eq!(enclave::detect_enclave_type(true), EnclaveType::Sgx);
    assert_eq!(enclave::detect_enclave_type(false), EnclaveType::NoEnclave);
    assert!(enclave::init(EnclaveType::NoEnclave).is_none());
    let d = enclave::init(EnclaveType::Sgx);
    assert!(enclave::is_available(d));
    assert_eq!(enclave::get_enclave_type(d), EnclaveType::Sgx);
    assert_eq!(enclave::get_enclave_type(None), EnclaveType::NoEnclave);
}

#[test]
fn enclave_attestation_reports_the_measurement() {
    let driver: Option<EnclaveDriver> = enclave::init(EnclaveType::Sgx);
    let mut sgx: Option<SgxDriver> = SgxDriver::init(detect_sgx_features(true, 4));
    let id = enclave::create_enclave(driver, &mut sgx, 0x10000, 4096, 3, vec![7u8; 32]).unwrap();
    assert_eq!(id, 1);
    assert!(matches!(
        enclave::generate_attestation(driver, sgx.as_ref(), id, &[1]),
        Err(EnclaveError::AttestationFailed)
    ));
    assert_eq!(enclave::initialize_enclave(driver, &mut sgx, id, None).unwrap(), true);
    let a = enclave::generate_attestation(driver, sgx.as_ref(), id, &[1, 2, 3]).unwrap();
    assert_eq!(a.enclave_id, 1);
    assert_eq!(a.enclave_type, EnclaveType::Sgx);
    assert_eq!(a.report.len(), 432);
    assert_eq!(a.measurement, vec![7u8; 32]);
    assert_eq!(&a.report[64..72], &[3, 0, 0, 0, 0, 0, 0, 0]);
    assert_eq!(&a.report[80..83], &[1, 2, 3]);
    assert_eq!(enclave::verify_attestation(&a, &[7u8; 32]).unwrap(), true);
    assert_eq!(enclave::verify_attestation(&a, &[6u8; 32]).unwrap(), false);
    assert!(matches!(
        enclave::generate_attestation(None, sgx.as_ref(), id, &[1]),
        Err(EnclaveError::NotAvailable)
    ));
    let sev = enclave::init(EnclaveType::Sev);
    assert!(enclave::generate_attestation(sev, sgx.as_ref(), id, &[1]).is_err());
}

#[test]
fn attestation_manager_reports_the_first_enclave() {
    let m = AttestationManager::new();
    let driver = enclave::init(EnclaveType::Sgx);
    let mut sgx: Option<SgxDriver> = SgxDriver::init(detect_sgx_features(true, 4));
    assert!(m.generate_enclave_attestation(None, sgx.as_ref()).is_none());
    let id = enclave::create_enclave(driver, &mut sgx, 0x10000, 4096, 0, vec![1u8; 32]).unwrap();
    enclave::initialize_enclave(driver, &mut sgx, id, None).unwrap();
    if let Some(a) = m.generate_enclave_attestation(driver, sgx.as_ref()) {
        assert_eq!(a.enclave_id, 1);
    }
}

#[test]
fn audit_subscribes_to_security_and_lifecycle_events() {
    let s = AuditAttestationSystem::new();
    let mut none: Option<KernelEventSystem> = None;
    s.subscribe_to_events(&mut none);
    assert!(none.is_none());
    let mut events = Some(KernelEventSystem::new());
    s.subscribe_to_events(&mut events);
    let bus = &mut events.as_mut().unwrap().bus;
    assert_eq!(bus.subscribe(EventSubscription::new(vec![EventType::Device], None, 9)), 3);
}

#[test]
fn kernel_events_become_audit_events() {
    let mut s = AuditAttestationSystem::new();
    let e = KernelEvent { event_type: EventType::Security, timestamp: 42, agent_id: Some(7), data: vec![1, 2] };
    s.on_kernel_event(SECURITY_EVENTS_CALLBACK, &e);
    s.on_kernel_event(LIFECYCLE_EVENTS_CALLBACK, &e);
    s.on_kernel_event(99, &e);
    let recorded = s.audit.get_events(None);
    assert_eq!(recorded.len(), 2);
    assert_eq!(recorded[0].event_type, AuditEventType::SecurityViolation);
    assert_eq!(recorded[0].action, "Security violation");
    assert_eq!(recorded[0].result, AuditResult::Denied);
    assert_eq!(recorded[0].metadata, vec![1, 2]);
    assert_eq!(recorded[1].event_type, AuditEventType::AgentSpawn);
    assert_eq!(recorded[1].action, "Agent lifecycle event");
    assert_eq!(recorded[1].timestamp, 42);
    assert_eq!(s.log.len(), 2);
    assert!(s.log.verify());
}

#[test]
fn tpm_quote_carries_the_digest_of_the_answer() {
    let m = AttestationManager::new();
    let transport = |_d: TpmDevice, _c: &[u8]| -> Result<Vec<u8>, TpmError> {
        let mut r = vec![0u8; 42];
        for (i, b) in r.iter_mut().enumerate().skip(10) {
            *b = i as u8;
        }
        Ok(r)
    };
    let q = m.generate_tpm_quote(Some(vec![9, 9]), Some(started_tpm()), &transport).unwrap();
    assert_eq!(q.pcr_values, (10u8..42).collect::<Vec<u8>>());
    assert_eq!(q.signature, vec![0u8; 64]);
    assert_eq!(q.nonce, vec![9, 9]);
}
