//! Evidence records for the nonlocal attention research semantic.
//!
//! A record states what was evaluated, against which exact source revision and
//! configuration, and (when applicable) on which device and protocol.
//! Correctness and performance evidence are separate scopes: a faster
//! measurement is never read as a correctness proof.
use crate::canonical_text::{decimal, digit_char, digit_text, hex16, push_decimal, push_hex16, push_text};
use crate::fingerprint::{fnv1a64, fnv1a64_spec};
use crate::research_nonlocal::{
    config_rule, NONLOCAL_ATTENTION_SEMANTIC_NAME, NONLOCAL_ATTENTION_SEMANTIC_REVISION, HistoryBudgetPolicy, HistoryMode, HistorySchedule, HistoryWeighting,
    NonlocalAttentionConfig,
};
use vstd::prelude::*;
use vstd::std_specs::iter::IteratorSpec;
use vstd::utf8::encode_utf8;

verus! {

/// Version of the nonlocal research-evidence schema.
pub const NONLOCAL_EVIDENCE_SCHEMA_VERSION: u16 = 1;

/// What kind of claim one evidence record may address.
#[derive(Debug, Clone, Copy, PartialEq, Eq, Structural, Hash)]
pub enum ResearchEvidenceScope {
    /// Numerical/semantic correctness evidence.
    Correctness,
    /// Latency, throughput, memory, or other performance evidence.
    Performance,
}

/// Outcome of evaluating the stated claim.
#[derive(Debug, Clone, Copy, PartialEq, Eq, Structural, Hash)]
pub enum ResearchEvidenceDisposition {
    /// The evidence supports the claim under the recorded conditions.
    Supports,
    /// The evidence rejects the claim under the recorded conditions.
    Rejects,
    /// The evidence does not resolve the claim.
    Inconclusive,
}

/// Identity of the device that executed an evidence-producing run.
#[derive(Debug, Clone, PartialEq, Eq)]
pub struct RuntimeDeviceFingerprint {
    pub name: String,
    pub backend: String,
    pub driver: String,
    pub driver_info: String,
    pub vendor: u32,
    pub device: u32,
}

/// Bounded benchmark protocol of a timed run.
#[derive(Debug, Clone, Copy, PartialEq, Eq, Hash)]
pub struct BenchmarkProtocol {
    pub warmups: u32,
    pub iterations: u32,
}

/// Reproducible evidence record for the nonlocal history semantic.
#[derive(Debug, Clone, PartialEq, Eq)]
pub struct NonlocalEvidenceManifest {
    /// Exact 40-hex source revision evaluated by the run.
    pub commit_sha: String,
    /// Stable identifier of the evidence-producing test, benchmark, or study.
    pub evidence_id: String,
    /// Non-empty claim/result statement whose outcome is recorded.
    pub statement: String,
    /// Exact structured-history configuration evaluated by the run.
    pub config: NonlocalAttentionConfig,
    pub scope: ResearchEvidenceScope,
    pub disposition: ResearchEvidenceDisposition,
    /// Executing device; performance evidence requires it.
    pub device: Option<RuntimeDeviceFingerprint>,
    /// Benchmark protocol; performance evidence requires it.
    pub benchmark_protocol: Option<BenchmarkProtocol>,
}

/// Validation failures of an evidence record.
#[derive(Debug, Clone, Copy, PartialEq, Eq)]
#[non_exhaustive]
pub enum NonlocalEvidenceError {
    /// `commit_sha` was not exactly 40 hexadecimal digits.
    InvalidCommitSha,
    /// A required text field was empty or whitespace-only.
    EmptyField(&'static str),
    /// The embedded nonlocal configuration failed its own validation.
    InvalidNonlocalConfig,
    /// Performance evidence did not identify the measured device.
    MissingPerformanceDevice,
    /// Performance evidence did not retain its benchmark protocol.
    MissingPerformanceProtocol,
    /// A supplied benchmark protocol failed its bounded-work validation.
    InvalidBenchmarkProtocol,
    /// A supplied device field was empty or whitespace-only.
    EmptyDeviceField(&'static str),
}

/// ASCII hexadecimal digit, either case.
pub open spec fn is_hex_digit_byte(b: u8) -> bool {
    (48 <= b <= 57) || (65 <= b <= 70) || (97 <= b <= 102)
}

/// Exactly 40 hexadecimal digits.
pub open spec fn commit_sha_ok(bytes: Seq<u8>) -> bool {
    bytes.len() == 40 && forall|i: int| 0 <= i < 40 ==> is_hex_digit_byte(#[trigger] bytes[i])
}

/// The Unicode `White_Space` characters.
pub open spec fn is_white_space(c: char) -> bool {
    let u = c as u32;
    (9 <= u <= 13) || u == 32 || u == 133 || u == 160 || u == 5760 || (8192 <= u <= 8202)
        || u == 8232 || u == 8233 || u == 8239 || u == 8287 || u == 12288
}

/// Empty or made of white space only.
pub open spec fn is_blank(s: Seq<char>) -> bool {
    forall|i: int| 0 <= i < s.len() ==> is_white_space(#[trigger] s[i])
}

/// The first blank field of a device record, in `name`, `backend`, `driver`
/// order.
pub open spec fn device_field_rule(device: RuntimeDeviceFingerprint) -> Result<(), NonlocalEvidenceError> {
    if is_blank(device.name@) {
        Err(NonlocalEvidenceError::EmptyDeviceField("name"))
    } else if is_blank(device.backend@) {
        Err(NonlocalEvidenceError::EmptyDeviceField("backend"))
    } else if is_blank(device.driver@) {
        Err(NonlocalEvidenceError::EmptyDeviceField("driver"))
    } else {
        Ok(())
    }
}

/// Whether a record may be retained, first failure first. `protocol_accepted`
/// is the outcome of the supplied benchmark protocol's own validation; it is
/// consulted only when a protocol is present.
pub open spec fn evidence_rule(m: NonlocalEvidenceManifest, protocol_accepted: bool) -> Result<
    (),
    NonlocalEvidenceError,
> {
    if !commit_sha_ok(encode_utf8(m.commit_sha@)) {
        Err(NonlocalEvidenceError::InvalidCommitSha)
    } else if is_blank(m.evidence_id@) {
        Err(NonlocalEvidenceError::EmptyField("evidence_id"))
    } else if is_blank(m.statement@) {
        Err(NonlocalEvidenceError::EmptyField("statement"))
    } else if config_rule(m.config) is Err {
        Err(NonlocalEvidenceError::InvalidNonlocalConfig)
    } else if m.benchmark_protocol is Some && !protocol_accepted {
        Err(NonlocalEvidenceError::InvalidBenchmarkProtocol)
    } else if m.scope == ResearchEvidenceScope::Performance && m.device is None {
        Err(NonlocalEvidenceError::MissingPerformanceDevice)
    } else if m.scope == ResearchEvidenceScope::Performance && m.benchmark_protocol is None {
        Err(NonlocalEvidenceError::MissingPerformanceProtocol)
    } else {
        match m.device {
            Some(device) => device_field_rule(device),
            None => Ok(()),
        }
    }
}

/// Canonical name of a history mode.
pub open spec fn history_mode_text(mode: HistoryMode) -> Seq<char> {
    match mode {
        HistoryMode::Complete => "complete"@,
        HistoryMode::Window { max_tokens } => "window:"@ + decimal(max_tokens as nat),
    }
}

/// Canonical name of a history schedule.
pub open spec fn schedule_text(schedule: HistorySchedule) -> Seq<char> {
    match schedule {
        HistorySchedule::EveryToken => "every_token"@,
    }
}

/// Canonical name of a history weighting.
pub open spec fn weighting_text(weighting: HistoryWeighting) -> Seq<char> {
    match weighting {
        HistoryWeighting::Identity => "identity"@,
    }
}

/// Canonical name of a budget policy.
pub open spec fn budget_text(policy: HistoryBudgetPolicy) -> Seq<char> {
    match policy {
        HistoryBudgetPolicy::Unlimited => "unlimited"@,
        HistoryBudgetPolicy::RejectAbove { max_retained_tokens } => "reject_above:"@ + decimal(
            max_retained_tokens as nat,
        ),
    }
}

/// `history=..;schedule=..;weighting=..;budget=..` of a configuration.
pub open spec fn config_record_text(config: NonlocalAttentionConfig) -> Seq<char> {
    "history="@ + history_mode_text(config.history_mode) + ";schedule="@ + schedule_text(
        config.history_schedule,
    ) + ";weighting="@ + weighting_text(config.history_weighting) + ";budget="@ + budget_text(
        config.history_budget_policy,
    )
}

/// Whether `c` is a Unicode `White_Space` character.
fn white_space(c: char) -> (r: bool)
    ensures
        r == is_white_space(c),
{
    let u = c as u32;
    (9 <= u && u <= 13) || u == 32 || u == 133 || u == 160 || u == 5760 || (8192 <= u && u
        <= 8202) || u == 8232 || u == 8233 || u == 8239 || u == 8287 || u == 12288
}

/// Whether `s` is empty or white space only, as `s.trim().is_empty()`.
fn blank(s: &str) -> (r: bool)
    ensures
        r == is_blank(s@),
{
    broadcast use vstd::string::group_string_axioms;

    let ghost all = s@;
    let mut chars = s.chars();
    assert(chars.remaining() == all);
    let ghost mut seen: int = 0;
    loop
        invariant
            all == s@,
            0 <= seen <= all.len(),
            chars.remaining() == all.skip(seen),
            forall|i: int| 0 <= i < seen ==> is_white_space(#[trigger] all[i]),
        decreases all.len() - seen,
    {
        let next = chars.next();
        match next {
            None => {
                assert(all.skip(seen).len() == 0);
                return true;
            },
            Some(c) => {
                assert(c == all[seen]);
                if !white_space(c) {
                    return false;
                }
                proof {
                    assert(all.skip(seen).drop_first() =~= all.skip(seen + 1));
                    seen = seen + 1;
                }
            },
        }
    }
}

fn validate_device(device: &RuntimeDeviceFingerprint) -> (r: Result<(), NonlocalEvidenceError>)
    ensures
        r == device_field_rule(*device),
{
    if blank(device.name.as_str()) {
        return Err(NonlocalEvidenceError::EmptyDeviceField("name"));
    }
    if blank(device.backend.as_str()) {
        return Err(NonlocalEvidenceError::EmptyDeviceField("backend"));
    }
    if blank(device.driver.as_str()) {
        return Err(NonlocalEvidenceError::EmptyDeviceField("driver"));
    }
    Ok(())
}

impl NonlocalEvidenceManifest {
    /// Validate provenance and semantic invariants before a record is
    /// retained. `protocol_accepted` is the outcome of the supplied benchmark
    /// protocol's own bounded-work validation.
    pub fn validate(&self, protocol_accepted: bool) -> (r: Result<(), NonlocalEvidenceError>)
        ensures
            r == evidence_rule(*self, protocol_accepted),
    {
        let sha = self.commit_sha.as_str().as_bytes();
        if sha.len() != 40 {
            return Err(NonlocalEvidenceError::InvalidCommitSha);
        }
        let mut i: usize = 0;
        while i < 40
            invariant
                sha@.len() == 40,
                sha@ == encode_utf8(self.commit_sha@),
                0 <= i <= 40,
                forall|j: int| 0 <= j < i ==> is_hex_digit_byte(#[trigger] sha@[j]),
            decreases 40 - i,
        {
            let b = sha[i];
            if !((48 <= b && b <= 57) || (65 <= b && b <= 70) || (97 <= b && b <= 102)) {
                assert(!is_hex_digit_byte(sha@[i as int]));
                return Err(NonlocalEvidenceError::InvalidCommitSha);
            }
            i = i + 1;
        }
        if blank(self.evidence_id.as_str()) {
            return Err(NonlocalEvidenceError::EmptyField("evidence_id"));
        }
        if blank(self.statement.as_str()) {
            return Err(NonlocalEvidenceError::EmptyField("statement"));
        }
        if self.config.validate().is_err() {
            return Err(NonlocalEvidenceError::InvalidNonlocalConfig);
        }
        if self.benchmark_protocol.is_some() && !protocol_accepted {
            return Err(NonlocalEvidenceError::InvalidBenchmarkProtocol);
        }
        let performance = match self.scope {
            ResearchEvidenceScope::Performance => true,
            ResearchEvidenceScope::Correctness => false,
        };
        if performance && self.device.is_none() {
            return Err(NonlocalEvidenceError::MissingPerformanceDevice);
        }
        if performance && self.benchmark_protocol.is_none() {
            return Err(NonlocalEvidenceError::MissingPerformanceProtocol);
        }
        match &self.device {
            Some(device) => validate_device(device),
            None => Ok(()),
        }
    }

    /// Canonical record of the embedded configuration. It is stored beside
    /// its fingerprint so the fingerprint can always be recomputed from it.
    pub fn config_record(&self) -> (r: String)
        ensures
            r@ == config_record_text(self.config),
    {
        let mut out = String::new();
        push_text(&mut out, "history=");
        match self.config.history_mode {
            HistoryMode::Complete => push_text(&mut out, "complete"),
            HistoryMode::Window { max_tokens } => {
                push_text(&mut out, "window:");
                push_decimal(&mut out, max_tokens as u64);
            },
        }
        push_text(&mut out, ";schedule=");
        match self.config.history_schedule {
            HistorySchedule::EveryToken => push_text(&mut out, "every_token"),
        }
        push_text(&mut out, ";weighting=");
        match self.config.history_weighting {
            HistoryWeighting::Identity => push_text(&mut out, "identity"),
        }
        push_text(&mut out, ";budget=");
        match self.config.history_budget_policy {
            HistoryBudgetPolicy::Unlimited => push_text(&mut out, "unlimited"),
            HistoryBudgetPolicy::RejectAbove { max_retained_tokens } => {
                push_text(&mut out, "reject_above:");
                push_decimal(&mut out, max_retained_tokens as u64);
            },
        }
        proof {
            assert(out@ =~= config_record_text(self.config));
        }
        out
    }

    /// FNV-1a-64 of the UTF-8 bytes of [`Self::config_record`]: for joining
    /// and deduplication, not authentication.
    pub fn config_fingerprint(&self) -> (r: u64)
        ensures
            r == fnv1a64_spec(encode_utf8(config_record_text(self.config))),
    {
        let record = self.config_record();
        fnv1a64(record.as_str().as_bytes())
    }
}

/// JSON text of one character inside a string literal: quote, backslash and
/// the control characters are escaped, every other character stands as is.
pub open spec fn json_escape(c: char) -> Seq<char> {
    if c == '"' {
        "\\\""@
    } else if c == '\\' {
        "\\\\"@
    } else if c == '\n' {
        "\\n"@
    } else if c == '\r' {
        "\\r"@
    } else if c == '\t' {
        "\\t"@
    } else if (c as u32) <= 31 {
        "\\u00"@ + seq![digit_char((c as u32 / 16) as int), digit_char((c as u32 % 16) as int)]
    } else {
        seq![c]
    }
}

/// The escaped characters of `s`, in order.
pub open spec fn json_escaped(s: Seq<char>) -> Seq<char>
    decreases s.len(),
{
    if s.len() == 0 {
        Seq::empty()
    } else {
        json_escaped(s.drop_last()) + json_escape(s.last())
    }
}

/// `s` as a quoted JSON string.
pub open spec fn json_string_text(s: Seq<char>) -> Seq<char> {
    "\""@ + json_escaped(s) + "\""@
}

fn push_escaped_char(out: &mut String, s: &str, i: usize)
    requires
        i < s@.len() <= usize::MAX,
    ensures
        final(out)@ == old(out)@ + json_escape(s@[i as int]),
{
    let c = s.get_char(i);
    if c == '"' {
        push_text(out, "\\\"");
    } else if c == '\\' {
        push_text(out, "\\\\");
    } else if c == '\n' {
        push_text(out, "\\n");
    } else if c == '\r' {
        push_text(out, "\\r");
    } else if c == '\t' {
        push_text(out, "\\t");
    } else if (c as u32) <= 31 {
        let ghost before = out@;
        push_text(out, "\\u00");
        let code = c as u32;
        out.append(digit_text((code / 16) as u64));
        out.append(digit_text((code % 16) as u64));
        proof {
            assert(out@ =~= before + json_escape(c));
        }
    } else {
        let ghost before = out@;
        out.append(s.substring_char(i, i + 1));
        proof {
            assert(s@.subrange(i as int, i + 1) =~= seq![c]);
            assert(out@ =~= before + json_escape(c));
        }
    }
}

/// Append `s` as a quoted JSON string.
pub fn push_json_string(out: &mut String, s: &str)
    ensures
        final(out)@ == old(out)@ + json_string_text(s@),
{
    let ghost start = out@;
    push_text(out, "\"");
    let n = s.unicode_len();
    let mut i: usize = 0;
    while i < n
        invariant
            n == s@.len(),
            i <= n,
            out@ == start + "\""@ + json_escaped(s@.take(i as int)),
        decreases n - i,
    {
        push_escaped_char(out, s, i);
        proof {
            assert(s@.take(i + 1).drop_last() =~= s@.take(i as int));
            assert(out@ =~= start + "\""@ + json_escaped(s@.take(i + 1)));
        }
        i = i + 1;
    }
    push_text(out, "\"");
    proof {
        assert(s@.take(n as int) =~= s@);
        assert(out@ =~= start + json_string_text(s@));
    }
}

/// Canonical name of an evidence scope.
pub open spec fn scope_text(scope: ResearchEvidenceScope) -> Seq<char> {
    match scope {
        ResearchEvidenceScope::Correctness => "correctness"@,
        ResearchEvidenceScope::Performance => "performance"@,
    }
}

/// Canonical name of an evidence disposition.
pub open spec fn disposition_text(disposition: ResearchEvidenceDisposition) -> Seq<char> {
    match disposition {
        ResearchEvidenceDisposition::Supports => "supports"@,
        ResearchEvidenceDisposition::Rejects => "rejects"@,
        ResearchEvidenceDisposition::Inconclusive => "inconclusive"@,
    }
}

/// JSON object of a configuration's four canonical names.
pub open spec fn config_json_text(config: NonlocalAttentionConfig) -> Seq<char> {
    "{\"history_mode\":"@ + json_string_text(history_mode_text(config.history_mode))
        + ",\"history_schedule\":"@ + json_string_text(schedule_text(config.history_schedule))
        + ",\"history_weighting\":"@ + json_string_text(weighting_text(config.history_weighting))
        + ",\"history_budget_policy\":"@ + json_string_text(
        budget_text(config.history_budget_policy),
    ) + "}"@
}

/// Text fields of a device's JSON object, from its opening brace.
pub open spec fn device_fields_text(d: RuntimeDeviceFingerprint) -> Seq<char> {
    "{\"name\":"@ + json_string_text(d.name@) + ",\"backend\":"@ + json_string_text(d.backend@)
        + ",\"driver\":"@ + json_string_text(d.driver@) + ",\"driver_info\":"@ + json_string_text(
        d.driver_info@,
    )
}

/// Numeric identity, canonical record and fingerprint of a device's JSON
/// object, through its closing brace.
pub open spec fn device_identity_text(
    d: RuntimeDeviceFingerprint,
    device_record: Seq<char>,
    device_fingerprint: u64,
) -> Seq<char> {
    ",\"vendor\":"@ + decimal(d.vendor as nat) + ",\"device\":"@ + decimal(d.device as nat)
        + ",\"canonical_record\":"@ + json_string_text(device_record) + ",\"fingerprint\":\""@
        + hex16(device_fingerprint) + "\"}"@
}

/// JSON of the executing device, with its canonical record and fingerprint,
/// or `null`.
pub open spec fn device_json_text(
    device: Option<RuntimeDeviceFingerprint>,
    device_record: Seq<char>,
    device_fingerprint: u64,
) -> Seq<char> {
    match device {
        None => "null"@,
        Some(d) => device_fields_text(d) + device_identity_text(d, device_record, device_fingerprint),
    }
}

/// JSON of the benchmark protocol, or `null`.
pub open spec fn protocol_json_text(protocol: Option<BenchmarkProtocol>) -> Seq<char> {
    match protocol {
        None => "null"@,
        Some(p) => "{\"warmups\":"@ + decimal(p.warmups as nat) + ",\"iterations\":"@ + decimal(
            p.iterations as nat,
        ) + "}"@,
    }
}

/// Provenance fields of the canonical JSON object, from its opening brace
/// through the configuration.
pub open spec fn core_head_text(m: NonlocalEvidenceManifest) -> Seq<char> {
    "{\"schema_version\":"@ + decimal(NONLOCAL_EVIDENCE_SCHEMA_VERSION as nat) + ",\"commit_sha\":"@
        + json_string_text(m.commit_sha@) + ",\"evidence_id\":"@ + json_string_text(m.evidence_id@)
        + ",\"semantic\":{\"name\":"@ + json_string_text(NONLOCAL_ATTENTION_SEMANTIC_NAME@)
        + ",\"revision\":"@ + decimal(NONLOCAL_ATTENTION_SEMANTIC_REVISION as nat) + "},\"config\":"@
        + config_json_text(m.config)
}

/// The configuration record and its fingerprint in the canonical JSON object.
pub open spec fn core_record_text(m: NonlocalEvidenceManifest) -> Seq<char> {
    ",\"config_record\":"@ + json_string_text(config_record_text(m.config))
        + ",\"config_fingerprint\":\""@ + hex16(
        fnv1a64_spec(encode_utf8(config_record_text(m.config))),
    ) + "\""@
}

/// Claim, device and protocol fields of the canonical JSON object.
pub open spec fn core_tail_text(
    m: NonlocalEvidenceManifest,
    device_record: Seq<char>,
    device_fingerprint: u64,
) -> Seq<char> {
    ",\"scope\":"@ + json_string_text(scope_text(m.scope)) + ",\"disposition\":"@ + json_string_text(
        disposition_text(m.disposition),
    ) + ",\"statement\":"@ + json_string_text(m.statement@) + ",\"device\":"@ + device_json_text(
        m.device,
        device_record,
        device_fingerprint,
    ) + ",\"benchmark_protocol\":"@ + protocol_json_text(m.benchmark_protocol)
}

/// The record's canonical JSON object without its closing brace; field order
/// is part of the schema.
pub open spec fn core_body_text(
    m: NonlocalEvidenceManifest,
    device_record: Seq<char>,
    device_fingerprint: u64,
) -> Seq<char> {
    core_head_text(m) + core_record_text(m) + core_tail_text(m, device_record, device_fingerprint)
}

/// The record's canonical JSON object, over which its checksum is taken.
pub open spec fn core_json_text(
    m: NonlocalEvidenceManifest,
    device_record: Seq<char>,
    device_fingerprint: u64,
) -> Seq<char> {
    core_body_text(m, device_record, device_fingerprint) + "}"@
}

/// FNV-1a-64 of the UTF-8 bytes of the core JSON.
pub open spec fn record_checksum_value(
    m: NonlocalEvidenceManifest,
    device_record: Seq<char>,
    device_fingerprint: u64,
) -> u64 {
    fnv1a64_spec(encode_utf8(core_json_text(m, device_record, device_fingerprint)))
}

/// The canonical JSON payload: the core object with its checksum record
/// appended as its last field.
pub open spec fn canonical_json_text(
    m: NonlocalEvidenceManifest,
    device_record: Seq<char>,
    device_fingerprint: u64,
) -> Seq<char> {
    core_body_text(m, device_record, device_fingerprint)
        + ",\"record_checksum\":{\"algorithm\":\"fnv1a64\",\"value\":\""@ + hex16(
        record_checksum_value(m, device_record, device_fingerprint),
    ) + "\"}}"@
}

fn push_config_json(out: &mut String, config: NonlocalAttentionConfig)
    ensures
        final(out)@ == old(out)@ + config_json_text(config),
{
    let ghost start = out@;
    let mut mode = String::new();
    match config.history_mode {
        HistoryMode::Complete => push_text(&mut mode, "complete"),
        HistoryMode::Window { max_tokens } => {
            push_text(&mut mode, "window:");
            push_decimal(&mut mode, max_tokens as u64);
        },
    }
    let mut budget = String::new();
    match config.history_budget_policy {
        HistoryBudgetPolicy::Unlimited => push_text(&mut budget, "unlimited"),
        HistoryBudgetPolicy::RejectAbove { max_retained_tokens } => {
            push_text(&mut budget, "reject_above:");
            push_decimal(&mut budget, max_retained_tokens as u64);
        },
    }
    assert(mode@ =~= history_mode_text(config.history_mode));
    assert(budget@ =~= budget_text(config.history_budget_policy));
    let schedule: &str = match config.history_schedule {
        HistorySchedule::EveryToken => "every_token",
    };
    let weighting: &str = match config.history_weighting {
        HistoryWeighting::Identity => "identity",
    };
    push_text(out, "{\"history_mode\":");
    push_json_string(out, mode.as_str());
    push_text(out, ",\"history_schedule\":");
    push_json_string(out, schedule);
    push_text(out, ",\"history_weighting\":");
    push_json_string(out, weighting);
    push_text(out, ",\"history_budget_policy\":");
    push_json_string(out, budget.as_str());
    push_text(out, "}");
    proof {
        assert(out@ =~= start + config_json_text(config));
    }
}

fn push_device_fields(out: &mut String, d: &RuntimeDeviceFingerprint)
    ensures
        final(out)@ == old(out)@ + device_fields_text(*d),
{
    let ghost start = out@;
    push_text(out, "{\"name\":");
    push_json_string(out, d.name.as_str());
    push_text(out, ",\"backend\":");
    push_json_string(out, d.backend.as_str());
    push_text(out, ",\"driver\":");
    push_json_string(out, d.driver.as_str());
    push_text(out, ",\"driver_info\":");
    push_json_string(out, d.driver_info.as_str());
    proof {
        assert(out@ =~= start + device_fields_text(*d));
    }
}

fn push_device_identity(
    out: &mut String,
    d: &RuntimeDeviceFingerprint,
    device_record: &str,
    device_fingerprint: u64,
)
    ensures
        final(out)@ == old(out)@ + device_identity_text(*d, device_record@, device_fingerprint),
{
    let ghost start = out@;
    push_text(out, ",\"vendor\":");
    push_decimal(out, d.vendor as u64);
    push_text(out, ",\"device\":");
    push_decimal(out, d.device as u64);
    push_text(out, ",\"canonical_record\":");
    push_json_string(out, device_record);
    push_text(out, ",\"fingerprint\":\"");
    push_hex16(out, device_fingerprint);
    push_text(out, "\"}");
    proof {
        assert(out@ =~= start + device_identity_text(*d, device_record@, device_fingerprint));
    }
}

fn push_device_json(
    out: &mut String,
    device: &Option<RuntimeDeviceFingerprint>,
    device_record: &str,
    device_fingerprint: u64,
)
    ensures
        final(out)@ == old(out)@ + device_json_text(*device, device_record@, device_fingerprint),
{
    match device {
        None => push_text(out, "null"),
        Some(d) => {
            let ghost start = out@;
            push_device_fields(out, d);
            push_device_identity(out, d, device_record, device_fingerprint);
            proof {
                assert(out@ =~= start + device_json_text(*device, device_record@, device_fingerprint));
            }
        },
    }
}

fn push_protocol_json(out: &mut String, protocol: Option<BenchmarkProtocol>)
    ensures
        final(out)@ == old(out)@ + protocol_json_text(protocol),
{
    match protocol {
        None => push_text(out, "null"),
        Some(p) => {
            let ghost start = out@;
            push_text(out, "{\"warmups\":");
            push_decimal(out, p.warmups as u64);
            push_text(out, ",\"iterations\":");
            push_decimal(out, p.iterations as u64);
            push_text(out, "}");
            proof {
                assert(out@ =~= start + protocol_json_text(protocol));
            }
        },
    }
}

impl NonlocalEvidenceManifest {
    fn push_core_head(&self, out: &mut String)
        ensures
            final(out)@ == old(out)@ + core_head_text(*self),
    {
        let ghost start = out@;
        push_text(out, "{\"schema_version\":");
        push_decimal(out, NONLOCAL_EVIDENCE_SCHEMA_VERSION as u64);
        push_text(out, ",\"commit_sha\":");
        push_json_string(out, self.commit_sha.as_str());
        push_text(out, ",\"evidence_id\":");
        push_json_string(out, self.evidence_id.as_str());
        push_text(out, ",\"semantic\":{\"name\":");
        push_json_string(out, NONLOCAL_ATTENTION_SEMANTIC_NAME);
        push_text(out, ",\"revision\":");
        push_decimal(out, NONLOCAL_ATTENTION_SEMANTIC_REVISION as u64);
        push_text(out, "},\"config\":");
        push_config_json(out, self.config);
        proof {
            assert(out@ =~= start + core_head_text(*self));
        }
    }

    fn push_core_record(&self, out: &mut String)
        ensures
            final(out)@ == old(out)@ + core_record_text(*self),
    {
        let ghost start = out@;
        let record = self.config_record();
        let fingerprint = self.config_fingerprint();
        push_text(out, ",\"config_record\":");
        push_json_string(out, record.as_str());
        push_text(out, ",\"config_fingerprint\":\"");
        push_hex16(out, fingerprint);
        push_text(out, "\"");
        proof {
            assert(out@ =~= start + core_record_text(*self));
        }
    }

    fn push_core_tail(&self, out: &mut String, device_record: &str, device_fingerprint: u64)
        ensures
            final(out)@ == old(out)@ + core_tail_text(*self, device_record@, device_fingerprint),
    {
        let ghost start = out@;
        let scope: &str = match self.scope {
            ResearchEvidenceScope::Correctness => "correctness",
            ResearchEvidenceScope::Performance => "performance",
        };
        let disposition: &str = match self.disposition {
            ResearchEvidenceDisposition::Supports => "supports",
            ResearchEvidenceDisposition::Rejects => "rejects",
            ResearchEvidenceDisposition::Inconclusive => "inconclusive",
        };
        push_text(out, ",\"scope\":");
        push_json_string(out, scope);
        push_text(out, ",\"disposition\":");
        push_json_string(out, disposition);
        push_text(out, ",\"statement\":");
        push_json_string(out, self.statement.as_str());
        push_text(out, ",\"device\":");
        push_device_json(out, &self.device, device_record, device_fingerprint);
        push_text(out, ",\"benchmark_protocol\":");
        push_protocol_json(out, self.benchmark_protocol);
        proof {
            assert(out@ =~= start + core_tail_text(*self, device_record@, device_fingerprint));
        }
    }

    fn push_core_body(&self, out: &mut String, device_record: &str, device_fingerprint: u64)
        ensures
            final(out)@ == old(out)@ + core_body_text(*self, device_record@, device_fingerprint),
    {
        let ghost start = out@;
        self.push_core_head(out);
        self.push_core_record(out);
        self.push_core_tail(out, device_record, device_fingerprint);
        proof {
            assert(out@ =~= start + core_body_text(*self, device_record@, device_fingerprint));
        }
    }

    /// Canonical JSON payload of a record that validates; field order is part
    /// of the schema. The executing device's canonical record and fingerprint
    /// are supplied by the caller and embedded when a device is present.
    pub fn canonical_json(
        &self,
        protocol_accepted: bool,
        device_record: &str,
        device_fingerprint: u64,
    ) -> (r: Result<String, NonlocalEvidenceError>)
        ensures
            match r {
                Ok(json) => evidence_rule(*self, protocol_accepted) is Ok && json@
                    == canonical_json_text(*self, device_record@, device_fingerprint),
                Err(e) => evidence_rule(*self, protocol_accepted) == Err::<(), NonlocalEvidenceError>(
                    e,
                ),
            },
    {
        self.validate(protocol_accepted)?;
        let checksum = self.core_checksum(device_record, device_fingerprint);
        let mut out = String::new();
        self.push_core_body(&mut out, device_record, device_fingerprint);
        push_text(&mut out, ",\"record_checksum\":{\"algorithm\":\"fnv1a64\",\"value\":\"");
        push_hex16(&mut out, checksum);
        push_text(&mut out, "\"}}");
        proof {
            assert(out@ =~= canonical_json_text(*self, device_record@, device_fingerprint));
        }
        Ok(out)
    }

    /// The record checksum, as 16 lowercase hexadecimal digits, of a record
    /// that validates: FNV-1a-64 over the canonical JSON without its checksum
    /// field.
    pub fn record_checksum(
        &self,
        protocol_accepted: bool,
        device_record: &str,
        device_fingerprint: u64,
    ) -> (r: Result<String, NonlocalEvidenceError>)
        ensures
            match r {
                Ok(text) => evidence_rule(*self, protocol_accepted) is Ok && text@ == hex16(
                    record_checksum_value(*self, device_record@, device_fingerprint),
                ),
                Err(e) => evidence_rule(*self, protocol_accepted) == Err::<(), NonlocalEvidenceError>(
                    e,
                ),
            },
    {
        self.validate(protocol_accepted)?;
        let checksum = self.core_checksum(device_record, device_fingerprint);
        let mut out = String::new();
        push_hex16(&mut out, checksum);
        proof {
            assert(out@ =~= hex16(record_checksum_value(*self, device_record@, device_fingerprint)));
        }
        Ok(out)
    }

    fn core_checksum(&self, device_record: &str, device_fingerprint: u64) -> (r: u64)
        ensures
            r == record_checksum_value(*self, device_record@, device_fingerprint),
    {
        let mut core = String::new();
        self.push_core_body(&mut core, device_record, device_fingerprint);
        push_text(&mut core, "}");
        proof {
            assert(core@ =~= core_json_text(*self, device_record@, device_fingerprint));
        }
        fnv1a64(core.as_str().as_bytes())
    }
}

/// The configuration record and fingerprint are functions of the
/// configuration alone: records with equal configurations have equal
/// configuration records, and so equal fingerprints.
pub proof fn lemma_config_fingerprint_follows_config(a: NonlocalEvidenceManifest, b: NonlocalEvidenceManifest)
    requires
        a.config == b.config,
    ensures
        config_record_text(a.config) == config_record_text(b.config),
        fnv1a64_spec(encode_utf8(config_record_text(a.config))) == fnv1a64_spec(
            encode_utf8(config_record_text(b.config)),
        ),
{
}

} // verus!
