use flat_attention::research_nonlocal::{HistoryBudgetPolicy, HistoryMode, NonlocalAttentionConfig};
use flat_attention::research_nonlocal_evidence::{
    BenchmarkProtocol, NonlocalEvidenceError, NonlocalEvidenceManifest,
    ResearchEvidenceDisposition, ResearchEvidenceScope, RuntimeDeviceFingerprint,
};

fn device() -> RuntimeDeviceFingerprint {
    RuntimeDeviceFingerprint {
        name: "Mesa llvmpipe".into(),
        backend: "Vulkan".into(),
        driver: "Mesa".into(),
        driver_info: "software adapter".into(),
        vendor: 0x10005,
        device: 0,
    }
}

fn correctness_record() -> NonlocalEvidenceManifest {
    NonlocalEvidenceManifest {
        commit_sha: "0123456789abcdef0123456789abcdef01234567".into(),
        evidence_id: "nonlocal-wgpu-oracle-parity".into(),
        statement: "WGPU candidate agrees with the scalar oracle within the declared tolerance"
            .into(),
        config: NonlocalAttentionConfig::default(),
        scope: ResearchEvidenceScope::Correctness,
        disposition: ResearchEvidenceDisposition::Supports,
        device: Some(device()),
        benchmark_protocol: None,
    }
}

const DEVICE_RECORD: &str =
    "name=Mesa llvmpipe;backend=Vulkan;driver=Mesa;driver_info=software adapter;vendor=65541;device=0";

fn canonical(record: &NonlocalEvidenceManifest, protocol_accepted: bool) -> Result<String, NonlocalEvidenceError> {
    record.canonical_json(protocol_accepted, DEVICE_RECORD, fnv1a64(DEVICE_RECORD.as_bytes()))
}

fn fnv1a64(bytes: &[u8]) -> u64 {
    let mut hash = 0xcbf2_9ce4_8422_2325_u64;
    for &byte in bytes {
        hash ^= u64::from(byte);
        hash = hash.wrapping_mul(0x0000_0100_0000_01b3);
    }
    hash
}

#[test]
fn config_fingerprint_changes_with_declared_history_rule() {
    let reference = correctness_record();
    let mut approximation = reference.clone();
    approximation.config.history_mode = HistoryMode::Window { max_tokens: 32 };
    assert_ne!(
        reference.config_fingerprint(),
        approximation.config_fingerprint()
    );
    assert!(approximation.config_record().contains("history=window:32"));
}

#[test]
fn performance_evidence_requires_device_and_protocol() {
    let mut record = correctness_record();
    record.scope = ResearchEvidenceScope::Performance;
    record.device = None;
    assert_eq!(
        record.validate(true),
        Err(NonlocalEvidenceError::MissingPerformanceDevice)
    );

    record.device = Some(device());
    assert_eq!(
        record.validate(true),
        Err(NonlocalEvidenceError::MissingPerformanceProtocol)
    );

    record.benchmark_protocol = Some(BenchmarkProtocol {
        warmups: 3,
        iterations: 30,
    });
    assert_eq!(record.validate(true), Ok(()));
    let json = canonical(&record, true).unwrap();
    assert!(json.contains("\"benchmark_protocol\":{\"warmups\":3,\"iterations\":30}"));
}

#[test]
fn invalid_protocol_fails_closed() {
    let mut record = correctness_record();
    record.benchmark_protocol = Some(BenchmarkProtocol {
        warmups: 0,
        iterations: 30,
    });
    assert_eq!(
        record.validate(false),
        Err(NonlocalEvidenceError::InvalidBenchmarkProtocol)
    );
}

#[test]
fn scalar_correctness_evidence_may_be_device_independent() {
    let mut record = correctness_record();
    record.device = None;
    assert_eq!(record.validate(true), Ok(()));
    assert!(canonical(&record, true).unwrap().contains("\"device\":null"));
}

#[test]
fn malformed_provenance_fails_closed() {
    let mut record = correctness_record();
    record.commit_sha = "main".into();
    assert_eq!(
        record.validate(true),
        Err(NonlocalEvidenceError::InvalidCommitSha)
    );

    let mut record = correctness_record();
    record.statement = "   ".into();
    assert_eq!(
        record.validate(true),
        Err(NonlocalEvidenceError::EmptyField("statement"))
    );

    let mut record = correctness_record();
    record.config.history_mode = HistoryMode::Window { max_tokens: 0 };
    assert_eq!(
        record.validate(true),
        Err(NonlocalEvidenceError::InvalidNonlocalConfig)
    );
}

#[test]
fn config_record_is_canonical_and_fingerprint_recomputes_from_it() {
    let mut record = correctness_record();
    assert_eq!(
        record.config_record(),
        "history=complete;schedule=every_token;weighting=identity;budget=unlimited"
    );
    assert_eq!(
        record.config_fingerprint(),
        fnv1a64(record.config_record().as_bytes())
    );
    record.config.history_budget_policy = HistoryBudgetPolicy::RejectAbove {
        max_retained_tokens: 1024,
    };
    assert_eq!(
        record.config_record(),
        "history=complete;schedule=every_token;weighting=identity;budget=reject_above:1024"
    );
}

#[test]
fn blank_text_and_device_fields_fail_closed() {
    let mut record = correctness_record();
    record.evidence_id = "\t\u{a0}\u{3000}".into();
    assert_eq!(
        record.validate(true),
        Err(NonlocalEvidenceError::EmptyField("evidence_id"))
    );

    let mut record = correctness_record();
    record.commit_sha = "0123456789ABCDEF0123456789abcdef0123456g".into();
    assert_eq!(
        record.validate(true),
        Err(NonlocalEvidenceError::InvalidCommitSha)
    );
    record.commit_sha = "0123456789ABCDEF0123456789abcdef01234567".into();
    assert_eq!(record.validate(true), Ok(()));

    let mut record = correctness_record();
    record.device = Some(RuntimeDeviceFingerprint {
        backend: " ".into(),
        ..device()
    });
    assert_eq!(
        record.validate(true),
        Err(NonlocalEvidenceError::EmptyDeviceField("backend"))
    );
}

#[test]
fn canonical_record_is_bit_reproducible() {
    let first = correctness_record();
    let second = first.clone();
    assert_eq!(canonical(&first, true).unwrap(), canonical(&second, true).unwrap());
    let fingerprint = fnv1a64(DEVICE_RECORD.as_bytes());
    assert_eq!(
        first.record_checksum(true, DEVICE_RECORD, fingerprint).unwrap(),
        second.record_checksum(true, DEVICE_RECORD, fingerprint).unwrap()
    );
    let json = canonical(&first, true).unwrap();
    assert!(json.contains("\"scope\":\"correctness\""));
    assert!(
        json.contains("\"semantic\":{\"name\":\"nonlocal-history-softmax\",\"revision\":1}")
    );
    assert!(json.contains("\"canonical_record\":\"name=Mesa llvmpipe;backend=Vulkan"));
}

#[test]
fn negative_result_is_retained_explicitly() {
    let mut record = correctness_record();
    record.disposition = ResearchEvidenceDisposition::Rejects;
    record.statement = "window-32 preserves the complete-history result".into();
    let json = canonical(&record, true).unwrap();
    assert!(json.contains("\"disposition\":\"rejects\""));
    assert!(json.contains("window-32 preserves the complete-history result"));
}

#[test]
fn performance_scope_remains_distinct_from_correctness() {
    let mut record = correctness_record();
    record.scope = ResearchEvidenceScope::Performance;
    record.statement = "candidate median latency is lower under the recorded protocol".into();
    record.benchmark_protocol = Some(BenchmarkProtocol {
        warmups: 5,
        iterations: 15,
    });
    let json = canonical(&record, true).unwrap();
    assert!(json.contains("\"scope\":\"performance\""));
    assert!(!json.contains("\"scope\":\"correctness\""));
}

#[test]
fn canonical_json_escapes_text_and_carries_its_checksum() {
    let mut record = correctness_record();
    record.device = None;
    record.statement = "a \"quoted\"\tclaim\u{1}".into();
    let json = canonical(&record, true).unwrap();
    assert!(json.contains("\"statement\":\"a \\\"quoted\\\"\\tclaim\\u0001\""));
    let checksum = record.record_checksum(true, "", 0).unwrap();
    assert_eq!(checksum.len(), 16);
    let core_end = json.find(",\"record_checksum\"").unwrap();
    let core = format!("{}}}", &json[..core_end]);
    assert_eq!(checksum, format!("{:016x}", fnv1a64(core.as_bytes())));
    assert!(json.ends_with(&format!(
        ",\"record_checksum\":{{\"algorithm\":\"fnv1a64\",\"value\":\"{checksum}\"}}}}"
    )));
    assert_eq!(canonical(&record, false), Ok(json.clone()));
    record.commit_sha = "main".into();
    assert_eq!(canonical(&record, true), Err(NonlocalEvidenceError::InvalidCommitSha));
}
