//! Text renderings of management-plane integrity events for enterprise SIEM platforms:
//! Microsoft Sentinel CEF, RFC 5424 syslog with structured data (SD-ID `dfim@48577`) and the
//! Elastic Common Schema (ECS 8.11) as compact JSON with its keys in sorted order.
//!
//! Records are built as UTF-8 bytes. An event's time is carried as seconds and nanoseconds
//! since the Unix epoch.
use vstd::prelude::*;
use vstd::string::StringSliceAdditionalSpecFns;
use vstd::utf8::encode_utf8;
use crate::codec::{bytes_eq_at, extend_bytes};
use crate::text::{
    decimal, json_escaped, push_decimal, push_json_escaped, push_str, replace_char, replace_text, replaced_char,
    replaced_text,
};

verus! {

/// Output formats of the SIEM connectors.
#[derive(Clone, Copy, Debug, PartialEq, Eq, Structural)]
pub enum SiemFormat {
    SplunkHec,
    ElasticEcs,
    SentinelCef,
    Rfc5424Syslog,
    Ndjson,
}

/// Media type of a format's records.
pub open spec fn content_type_text(f: SiemFormat) -> Seq<char> {
    match f {
        SiemFormat::SplunkHec | SiemFormat::ElasticEcs => "application/json"@,
        SiemFormat::SentinelCef | SiemFormat::Rfc5424Syslog => "text/plain"@,
        SiemFormat::Ndjson => "application/x-ndjson"@,
    }
}

impl SiemFormat {
    /// Media type of this format's records.
    pub fn content_type(self) -> (s: &'static str)
        ensures
            s@ == content_type_text(self),
    {
        match self {
            SiemFormat::SplunkHec | SiemFormat::ElasticEcs => "application/json",
            SiemFormat::SentinelCef | SiemFormat::Rfc5424Syslog => "text/plain",
            SiemFormat::Ndjson => "application/x-ndjson",
        }
    }
}

/// An integrity event of the management plane.
pub struct DfimSiemEvent {
    pub event_id: String,
    pub event_type: String,
    /// `critical`, `high`, `medium`, `low` or `info`.
    pub severity: String,
    pub asset_id: String,
    pub message: String,
    pub host_name: String,
    /// Seconds since the Unix epoch.
    pub timestamp_secs: i64,
    /// Nanoseconds within the second.
    pub timestamp_nanos: u32,
    pub outcome: String,
    pub merkle_root: Option<String>,
    pub tampered_blocks: Option<u32>,
    pub fec_corrected: Option<u32>,
    pub rollback_counter: Option<u64>,
    pub attestation_verified: Option<bool>,
    pub enforcement_action: Option<String>,
}

/// UTF-8 bytes of a text.
pub open spec fn utf8(s: Seq<char>) -> Seq<u8> {
    encode_utf8(s)
}

/// The Unicode uppercase mapping of a text, as `str::to_uppercase` computes it.
pub uninterp spec fn uppercase_of(s: Seq<char>) -> Seq<char>;

/// The time text `YYYY-MM-DDTHH:MM:SS.mmmZ` that chrono formats for an epoch time, `None`
/// when chrono cannot represent that time.
pub uninterp spec fn syslog_time_text(secs: i64, nanos: u32) -> Option<Seq<char>>;

/// Trusted: `str::to_uppercase`; the contract names its result as the uppercase mapping of
/// the argument and claims nothing more of it.
#[verifier::external_body]
fn to_uppercase(s: &str) -> (r: String)
    ensures
        r@ == uppercase_of(s@),
{
    s.to_uppercase()
}

/// Trusted: `chrono::DateTime::<Utc>::from_timestamp` followed by `format` with
/// `%Y-%m-%dT%H:%M:%S%.3fZ`; the contract names the text as a function of the two numbers,
/// `None` exactly when `from_timestamp` gives `None`.
#[verifier::external_body]
fn syslog_timestamp(secs: i64, nanos: u32) -> (r: Option<String>)
    ensures
        match r {
            Some(t) => syslog_time_text(secs, nanos) == Some(t@),
            None => syslog_time_text(secs, nanos) is None,
        },
{
    match chrono::DateTime::<chrono::Utc>::from_timestamp(secs, nanos) {
        Some(dt) => Some(dt.format("%Y-%m-%dT%H:%M:%S%.3fZ").to_string()),
        None => None,
    }
}

/// Whether a text is exactly the literal `lit`.
fn is_text(s: &str, lit: &str) -> (r: bool)
    ensures
        r == (s.spec_bytes() == lit.spec_bytes()),
{
    let a = s.as_bytes();
    let b = lit.as_bytes();
    if a.len() != b.len() {
        return false;
    }
    let r = bytes_eq_at(a, 0, b);
    assert(a@.subrange(0, b@.len() as int) =~= a@);
    r
}

/// Sentinel severity of a severity name.
pub open spec fn cef_severity(sev: Seq<u8>) -> u32 {
    if sev == utf8("critical"@) {
        10
    } else if sev == utf8("high"@) {
        8
    } else if sev == utf8("medium"@) {
        5
    } else if sev == utf8("low"@) {
        3
    } else {
        1
    }
}

/// Syslog severity of a severity name.
pub open spec fn syslog_severity(sev: Seq<u8>) -> u32 {
    if sev == utf8("critical"@) {
        2
    } else if sev == utf8("high"@) {
        4
    } else if sev == utf8("medium"@) {
        5
    } else if sev == utf8("low"@) {
        6
    } else {
        7
    }
}

/// Sentinel severity (10, 8, 5, 3, or 1 for anything else).
pub fn cef_severity_of(severity: &str) -> (n: u32)
    ensures
        n == cef_severity(severity.spec_bytes()),
{
    if is_text(severity, "critical") {
        10
    } else if is_text(severity, "high") {
        8
    } else if is_text(severity, "medium") {
        5
    } else if is_text(severity, "low") {
        3
    } else {
        1
    }
}

/// Syslog severity (2, 4, 5, 6, or 7 for anything else).
pub fn syslog_severity_of(severity: &str) -> (n: u32)
    ensures
        n == syslog_severity(severity.spec_bytes()),
{
    if is_text(severity, "critical") {
        2
    } else if is_text(severity, "high") {
        4
    } else if is_text(severity, "medium") {
        5
    } else if is_text(severity, "low") {
        6
    } else {
        7
    }
}

/// An asset identifier without its `sha256:` prefix, when it has one.
pub open spec fn file_hash(asset_id: Seq<u8>) -> Seq<u8> {
    let p = utf8("sha256:"@);
    if asset_id.len() >= p.len() && asset_id.subrange(0, p.len() as int) == p {
        asset_id.subrange(p.len() as int, asset_id.len() as int)
    } else {
        asset_id
    }
}

fn push_file_hash(out: &mut Vec<u8>, asset_id: &str)
    ensures
        final(out)@ == old(out)@ + file_hash(asset_id.spec_bytes()),
{
    let a = asset_id.as_bytes();
    let p = "sha256:".as_bytes();
    if a.len() >= p.len() && bytes_eq_at(a, 0, p) {
        let mut i: usize = p.len();
        let ghost start = out@;
        while i < a.len()
            invariant
                p@.len() <= i <= a@.len(),
                out@ == start + a@.subrange(p@.len() as int, i as int),
            decreases a@.len() - i,
        {
            out.push(a[i]);
            i += 1;
            assert(out@ =~= start + a@.subrange(p@.len() as int, i as int));
        }
    } else {
        extend_bytes(out, a);
    }
}

/// Decimal text of a signed integer.
pub open spec fn signed_decimal(x: int) -> Seq<u8> {
    if x < 0 {
        seq![45u8] + decimal((-x) as nat)
    } else {
        decimal(x as nat)
    }
}

fn push_signed_decimal(out: &mut Vec<u8>, x: i64)
    requires
        x > i64::MIN,
    ensures
        final(out)@ == old(out)@ + signed_decimal(x as int),
{
    if x < 0 {
        out.push(45u8);
        push_decimal(out, (-x) as u64);
    } else {
        push_decimal(out, x as u64);
    }
    assert(final(out)@ =~= old(out)@ + signed_decimal(x as int));
}

/// Milliseconds since the epoch of an event, as `DateTime::timestamp_millis` computes them.
pub open spec fn timestamp_millis(e: DfimSiemEvent) -> int {
    e.timestamp_secs * 1000 + e.timestamp_nanos / 1_000_000
}

/// The event's time fits the range of the calendar library (far inside it, in fact).
pub open spec fn timestamp_in_range(e: DfimSiemEvent) -> bool {
    -9_000_000_000_000_000 <= e.timestamp_secs * 1000 <= 9_000_000_000_000_000
}

/// The text of an optional string field, or `default` when absent.
pub open spec fn text_or(v: Option<String>, default: Seq<char>) -> Seq<u8> {
    match v {
        Some(s) => utf8(s@),
        None => utf8(default),
    }
}

/// Decimal text of an optional count, 0 when absent.
pub open spec fn count_or_zero(v: Option<u32>) -> Seq<u8> {
    match v {
        Some(n) => decimal(n as nat),
        None => decimal(0),
    }
}

/// The Sentinel CEF record of an event.
pub open spec fn cef_record(e: DfimSiemEvent) -> Seq<u8> {
    utf8("CEF:0|DFIM|Firmware Integrity Matrix|0.1.0|"@) + utf8(uppercase_of(replaced_char(e.event_type@, '.', "_"@)))
        + utf8("|"@) + utf8(e.message@) + utf8("|"@) + decimal(cef_severity(utf8(e.severity@)) as nat)
        + utf8("|src=0.0.0.0 shost="@) + utf8(e.host_name@) + utf8(" fileHash="@) + file_hash(utf8(e.asset_id@))
        + utf8(" cs1="@) + text_or(e.enforcement_action, "block"@)
        + utf8(".cs1Label=EnforcementAction cs2=NIST-800-193.cs2Label=ComplianceStandard cn1="@)
        + count_or_zero(e.tampered_blocks) + utf8(".cn1Label=TamperedBlockCount cn2="@) + count_or_zero(
        e.fec_corrected,
    ) + utf8(".cn2Label=FecCorrectedCount start="@) + signed_decimal(timestamp_millis(e)) + utf8(" externalId="@)
        + utf8(e.event_id@) + utf8(" msg="@) + utf8(
        replaced_char(replaced_char(e.message@, '\\', "\\\\"@), '=', "\\="@),
    )
}

fn push_text_or(out: &mut Vec<u8>, v: &Option<String>, default: &str)
    ensures
        final(out)@ == old(out)@ + text_or(*v, default@),
{
    match v {
        Some(s) => push_str(out, s.as_str()),
        None => push_str(out, default),
    }
}

fn push_count_or_zero(out: &mut Vec<u8>, v: Option<u32>)
    ensures
        final(out)@ == old(out)@ + count_or_zero(v),
{
    match v {
        Some(n) => push_decimal(out, n as u64),
        None => push_decimal(out, 0),
    }
}

/// Sentinel CEF connector.
pub struct SentinelCefSerializer;

impl SentinelCefSerializer {
    /// Format of this connector's records.
    pub fn format(&self) -> (f: SiemFormat)
        ensures
            f == SiemFormat::SentinelCef,
    {
        SiemFormat::SentinelCef
    }

    /// The CEF record of an event.
    #[verifier::spinoff_prover]
    pub fn serialize(&self, event: &DfimSiemEvent) -> (out: Vec<u8>)
        requires
            timestamp_in_range(*event),
        ensures
            out@ == cef_record(*event),
    {
        let mut out: Vec<u8> = Vec::new();
        push_str(&mut out, "CEF:0|DFIM|Firmware Integrity Matrix|0.1.0|");
        let kind = replace_char(event.event_type.as_str(), '.', "_");
        let upper = to_uppercase(kind.as_str());
        push_str(&mut out, upper.as_str());
        push_str(&mut out, "|");
        push_str(&mut out, event.message.as_str());
        push_str(&mut out, "|");
        push_decimal(&mut out, cef_severity_of(event.severity.as_str()) as u64);
        push_str(&mut out, "|src=0.0.0.0 shost=");
        push_str(&mut out, event.host_name.as_str());
        push_str(&mut out, " fileHash=");
        push_file_hash(&mut out, event.asset_id.as_str());
        push_str(&mut out, " cs1=");
        push_text_or(&mut out, &event.enforcement_action, "block");
        push_str(&mut out, ".cs1Label=EnforcementAction cs2=NIST-800-193.cs2Label=ComplianceStandard cn1=");
        push_count_or_zero(&mut out, event.tampered_blocks);
        push_str(&mut out, ".cn1Label=TamperedBlockCount cn2=");
        push_count_or_zero(&mut out, event.fec_corrected);
        push_str(&mut out, ".cn2Label=FecCorrectedCount start=");
        let millis: i64 = event.timestamp_secs * 1000 + (event.timestamp_nanos / 1_000_000) as i64;
        push_signed_decimal(&mut out, millis);
        push_str(&mut out, " externalId=");
        push_str(&mut out, event.event_id.as_str());
        push_str(&mut out, " msg=");
        let escaped_backslash = replace_char(event.message.as_str(), '\\', "\\\\");
        let escaped = replace_char(escaped_backslash.as_str(), '=', "\\=");
        push_str(&mut out, escaped.as_str());
        out
    }
}

/// `true` or `false`, as `bool` displays.
pub open spec fn bool_text(b: bool) -> Seq<u8> {
    if b {
        utf8("true"@)
    } else {
        utf8("false"@)
    }
}

/// Decimal text of an optional 64-bit counter, 0 when absent.
pub open spec fn counter_or_zero(v: Option<u64>) -> Seq<u8> {
    match v {
        Some(n) => decimal(n as nat),
        None => decimal(0),
    }
}

/// The RFC 5424 record of an event whose time reads `time`: priority 134 plus the syslog
/// severity, the structured data element `dfim@48577`, then the message.
pub open spec fn syslog_record(e: DfimSiemEvent, time: Seq<char>) -> Seq<u8> {
    utf8("<"@) + decimal((134 + syslog_severity(utf8(e.severity@))) as nat) + utf8(">1 "@) + utf8(time)
        + utf8(" "@) + utf8(e.host_name@) + utf8(" dfim-integrity 12345 ALERT ["@)
        + utf8("dfim@48577 event_type=\""@) + utf8(e.event_type@) + utf8("\" severity=\""@) + utf8(e.severity@)
        + utf8("\" asset_id=\""@) + utf8(e.asset_id@) + utf8("\" merkle_root=\""@) + text_or(e.merkle_root, "-"@)
        + utf8("\" tampered_blocks=\""@) + count_or_zero(e.tampered_blocks) + utf8("\" fec_corrected=\""@)
        + count_or_zero(e.fec_corrected) + utf8("\" rollback_counter=\""@) + counter_or_zero(e.rollback_counter)
        + utf8("\" attestation_verified=\""@) + bool_text(
        match e.attestation_verified {
            Some(b) => b,
            None => false,
        },
    ) + utf8("\"] "@) + utf8(e.message@)
}

/// RFC 5424 syslog connector.
pub struct Rfc5424SyslogSerializer;

impl Rfc5424SyslogSerializer {
    /// Format of this connector's records.
    pub fn format(&self) -> (f: SiemFormat)
        ensures
            f == SiemFormat::Rfc5424Syslog,
    {
        SiemFormat::Rfc5424Syslog
    }

    /// The syslog record of an event; `None` when the calendar library cannot represent the
    /// event's time.
    #[verifier::spinoff_prover]
    pub fn serialize(&self, event: &DfimSiemEvent) -> (out: Option<Vec<u8>>)
        ensures
            match syslog_time_text(event.timestamp_secs, event.timestamp_nanos) {
                Some(t) => out matches Some(o) && o@ == syslog_record(*event, t),
                None => out is None,
            },
    {
        let time = match syslog_timestamp(event.timestamp_secs, event.timestamp_nanos) {
            Some(t) => t,
            None => return None,
        };
        let mut out: Vec<u8> = Vec::new();
        push_str(&mut out, "<");
        push_decimal(&mut out, 134 + syslog_severity_of(event.severity.as_str()) as u64);
        push_str(&mut out, ">1 ");
        push_str(&mut out, time.as_str());
        push_str(&mut out, " ");
        push_str(&mut out, event.host_name.as_str());
        push_str(&mut out, " dfim-integrity 12345 ALERT [");
        push_str(&mut out, "dfim@48577 event_type=\"");
        push_str(&mut out, event.event_type.as_str());
        push_str(&mut out, "\" severity=\"");
        push_str(&mut out, event.severity.as_str());
        push_str(&mut out, "\" asset_id=\"");
        push_str(&mut out, event.asset_id.as_str());
        push_str(&mut out, "\" merkle_root=\"");
        push_text_or(&mut out, &event.merkle_root, "-");
        push_str(&mut out, "\" tampered_blocks=\"");
        push_count_or_zero(&mut out, event.tampered_blocks);
        push_str(&mut out, "\" fec_corrected=\"");
        push_count_or_zero(&mut out, event.fec_corrected);
        push_str(&mut out, "\" rollback_counter=\"");
        match event.rollback_counter {
            Some(n) => push_decimal(&mut out, n),
            None => push_decimal(&mut out, 0),
        }
        push_str(&mut out, "\" attestation_verified=\"");
        let verified = match event.attestation_verified {
            Some(b) => b,
            None => false,
        };
        if verified {
            push_str(&mut out, "true");
        } else {
            push_str(&mut out, "false");
        }
        push_str(&mut out, "\"] ");
        push_str(&mut out, event.message.as_str());
        Some(out)
    }
}

/// The RFC 3339 text that `DateTime::to_rfc3339` gives for an epoch time, `None` when chrono
/// cannot represent that time.
pub uninterp spec fn rfc3339_text(secs: i64, nanos: u32) -> Option<Seq<char>>;

/// Trusted: `chrono::DateTime::<Utc>::from_timestamp` followed by `to_rfc3339`; the contract
/// names the text as a function of the two numbers, `None` exactly when `from_timestamp` gives
/// `None`.
#[verifier::external_body]
fn rfc3339_timestamp(secs: i64, nanos: u32) -> (r: Option<String>)
    ensures
        match r {
            Some(t) => rfc3339_text(secs, nanos) == Some(t@),
            None => rfc3339_text(secs, nanos) is None,
        },
{
    match chrono::DateTime::<chrono::Utc>::from_timestamp(secs, nanos) {
        Some(dt) => Some(dt.to_rfc3339()),
        None => None,
    }
}

/// ECS severity of a severity name.
pub open spec fn ecs_severity(sev: Seq<u8>) -> u32 {
    if sev == utf8("critical"@) {
        9
    } else if sev == utf8("high"@) {
        7
    } else if sev == utf8("medium"@) {
        5
    } else if sev == utf8("low"@) {
        3
    } else {
        1
    }
}

/// ECS severity (9, 7, 5, 3, or 1 for anything else).
pub fn ecs_severity_of(severity: &str) -> (n: u32)
    ensures
        n == ecs_severity(severity.spec_bytes()),
{
    if is_text(severity, "critical") {
        9
    } else if is_text(severity, "high") {
        7
    } else if is_text(severity, "medium") {
        5
    } else if is_text(severity, "low") {
        3
    } else {
        1
    }
}

/// A JSON string holding the bytes `s`.
pub open spec fn json_string(s: Seq<u8>) -> Seq<u8> {
    utf8("\""@) + json_escaped(s, true) + utf8("\""@)
}

/// A JSON string or `null`.
pub open spec fn json_opt_string(v: Option<String>) -> Seq<u8> {
    match v {
        Some(s) => json_string(utf8(s@)),
        None => utf8("null"@),
    }
}

/// A JSON count or `null`.
pub open spec fn json_opt_u32(v: Option<u32>) -> Seq<u8> {
    match v {
        Some(n) => decimal(n as nat),
        None => utf8("null"@),
    }
}

/// A JSON counter or `null`.
pub open spec fn json_opt_u64(v: Option<u64>) -> Seq<u8> {
    match v {
        Some(n) => decimal(n as nat),
        None => utf8("null"@),
    }
}

/// A JSON boolean or `null`.
pub open spec fn json_opt_bool(v: Option<bool>) -> Seq<u8> {
    match v {
        Some(b) => bool_text(b),
        None => utf8("null"@),
    }
}

/// The ECS action of an event type: every `dfim.` removed, then every `.` turned into `_`.
pub open spec fn ecs_action(event_type: Seq<char>) -> Seq<char> {
    replaced_char(replaced_text(event_type, "dfim."@, Seq::empty()), '.', "_"@)
}

/// The `dfim` object of an ECS document.
pub open spec fn ecs_dfim_object(e: DfimSiemEvent) -> Seq<u8> {
    utf8("{\"attestation_verified\":"@) + json_opt_bool(e.attestation_verified) + utf8(",\"enforcement_action\":"@)
        + json_opt_string(e.enforcement_action) + utf8(",\"event_id\":"@) + json_string(utf8(e.event_id@))
        + utf8(",\"fec_corrected\":"@) + json_opt_u32(e.fec_corrected) + utf8(",\"merkle_root\":"@)
        + json_opt_string(e.merkle_root) + utf8(",\"rollback_counter\":"@) + json_opt_u64(e.rollback_counter)
        + utf8(",\"tampered_blocks\":"@) + json_opt_u32(e.tampered_blocks) + utf8("}"@)
}

/// The `event` object of an ECS document.
pub open spec fn ecs_event_object(e: DfimSiemEvent) -> Seq<u8> {
    utf8("{\"action\":"@) + json_string(utf8(ecs_action(e.event_type@))) + utf8(
        ",\"category\":\"intrusion_detection\",\"kind\":\"alert\",\"outcome\":"@,
    ) + json_string(utf8(e.outcome@)) + utf8(",\"severity\":"@) + decimal(ecs_severity(utf8(e.severity@)) as nat)
        + utf8(",\"type\":\"change\"}"@)
}

/// The `file` object of an ECS document: the asset's hash and its integrity status.
pub open spec fn ecs_file_object(e: DfimSiemEvent) -> Seq<u8> {
    utf8("{\"hash\":{\"sha256\":"@) + json_string(file_hash(utf8(e.asset_id@))) + utf8(
        "},\"integrity\":{\"policy\":\"dfim-protected-scope\",\"status\":"@,
    ) + json_string(
        if utf8(e.outcome@) == utf8("success"@) {
            utf8("verified"@)
        } else {
            utf8("tampered"@)
        },
    ) + utf8("}}"@)
}

/// The ECS document of an event whose time reads `time`, compact, keys in sorted order.
pub open spec fn ecs_record(e: DfimSiemEvent, time: Seq<char>) -> Seq<u8> {
    utf8("{\"@timestamp\":"@) + json_string(utf8(time)) + utf8(",\"dfim\":"@) + ecs_dfim_object(e) + utf8(
        ",\"ecs\":{\"version\":\"8.11.0\"},\"event\":"@,
    ) + ecs_event_object(e) + utf8(",\"file\":"@) + ecs_file_object(e) + utf8(",\"host\":{\"name\":"@)
        + json_string(utf8(e.host_name@)) + utf8("},\"message\":"@) + json_string(utf8(e.message@)) + utf8("}"@)
}

fn push_json_string(out: &mut Vec<u8>, s: &str)
    ensures
        final(out)@ == old(out)@ + json_string(s.spec_bytes()),
{
    push_str(out, "\"");
    push_json_escaped(out, s.as_bytes(), true);
    push_str(out, "\"");
    assert(final(out)@ =~= old(out)@ + json_string(s.spec_bytes()));
}

fn push_json_opt_string(out: &mut Vec<u8>, v: &Option<String>)
    ensures
        final(out)@ == old(out)@ + json_opt_string(*v),
{
    match v {
        Some(s) => push_json_string(out, s.as_str()),
        None => push_str(out, "null"),
    }
}

fn push_json_opt_u32(out: &mut Vec<u8>, v: Option<u32>)
    ensures
        final(out)@ == old(out)@ + json_opt_u32(v),
{
    match v {
        Some(n) => push_decimal(out, n as u64),
        None => push_str(out, "null"),
    }
}

fn push_json_opt_u64(out: &mut Vec<u8>, v: Option<u64>)
    ensures
        final(out)@ == old(out)@ + json_opt_u64(v),
{
    match v {
        Some(n) => push_decimal(out, n),
        None => push_str(out, "null"),
    }
}

fn push_json_opt_bool(out: &mut Vec<u8>, v: Option<bool>)
    ensures
        final(out)@ == old(out)@ + json_opt_bool(v),
{
    match v {
        Some(true) => push_str(out, "true"),
        Some(false) => push_str(out, "false"),
        None => push_str(out, "null"),
    }
}

fn push_json_file_hash(out: &mut Vec<u8>, asset_id: &str)
    ensures
        final(out)@ == old(out)@ + json_string(file_hash(asset_id.spec_bytes())),
{
    let a = asset_id.as_bytes();
    let p = "sha256:".as_bytes();
    push_str(out, "\"");
    if a.len() >= p.len() && bytes_eq_at(a, 0, p) {
        push_json_escaped(out, &a[p.len()..a.len()], true);
    } else {
        push_json_escaped(out, a, true);
    }
    push_str(out, "\"");
    assert(final(out)@ =~= old(out)@ + json_string(file_hash(asset_id.spec_bytes())));
}

#[verifier::spinoff_prover]
#[verifier::rlimit(30)]
fn push_ecs_dfim_object(out: &mut Vec<u8>, event: &DfimSiemEvent)
    ensures
        final(out)@ == old(out)@ + ecs_dfim_object(*event),
{
    let ghost start = out@;
    push_str(out, "{\"attestation_verified\":");
    push_json_opt_bool(out, event.attestation_verified);
    push_str(out, ",\"enforcement_action\":");
    push_json_opt_string(out, &event.enforcement_action);
    push_str(out, ",\"event_id\":");
    push_json_string(out, event.event_id.as_str());
    push_str(out, ",\"fec_corrected\":");
    push_json_opt_u32(out, event.fec_corrected);
    push_str(out, ",\"merkle_root\":");
    push_json_opt_string(out, &event.merkle_root);
    push_str(out, ",\"rollback_counter\":");
    push_json_opt_u64(out, event.rollback_counter);
    push_str(out, ",\"tampered_blocks\":");
    push_json_opt_u32(out, event.tampered_blocks);
    push_str(out, "}");
    assert(out@ =~= start + ecs_dfim_object(*event));
}

#[verifier::spinoff_prover]
#[verifier::rlimit(30)]
fn push_ecs_event_object(out: &mut Vec<u8>, event: &DfimSiemEvent)
    ensures
        final(out)@ == old(out)@ + ecs_event_object(*event),
{
    let ghost start = out@;
    push_str(out, "{\"action\":");
    proof {
        reveal_strlit("dfim.");
        reveal_strlit("");
    }
    let without_prefix = replace_text(event.event_type.as_str(), "dfim.", "");
    let action = replace_char(without_prefix.as_str(), '.', "_");
    assert(""@ =~= Seq::<char>::empty());
    assert(action@ == ecs_action(event.event_type@));
    push_json_string(out, action.as_str());
    push_str(out, ",\"category\":\"intrusion_detection\",\"kind\":\"alert\",\"outcome\":");
    push_json_string(out, event.outcome.as_str());
    push_str(out, ",\"severity\":");
    push_decimal(out, ecs_severity_of(event.severity.as_str()) as u64);
    push_str(out, ",\"type\":\"change\"}");
    assert(out@ =~= start + ecs_event_object(*event));
}

#[verifier::spinoff_prover]
#[verifier::rlimit(30)]
fn push_ecs_file_object(out: &mut Vec<u8>, event: &DfimSiemEvent)
    ensures
        final(out)@ == old(out)@ + ecs_file_object(*event),
{
    let ghost start = out@;
    push_str(out, "{\"hash\":{\"sha256\":");
    push_json_file_hash(out, event.asset_id.as_str());
    push_str(out, "},\"integrity\":{\"policy\":\"dfim-protected-scope\",\"status\":");
    if is_text(event.outcome.as_str(), "success") {
        push_json_string(out, "verified");
    } else {
        push_json_string(out, "tampered");
    }
    push_str(out, "}}");
    assert(out@ =~= start + ecs_file_object(*event));
}

/// Elastic Common Schema connector.
pub struct ElasticEcsSerializer;

impl ElasticEcsSerializer {
    /// Format of this connector's records.
    pub fn format(&self) -> (f: SiemFormat)
        ensures
            f == SiemFormat::ElasticEcs,
    {
        SiemFormat::ElasticEcs
    }

    /// The ECS document of an event; `None` when the calendar library cannot represent the
    /// event's time.
    #[verifier::spinoff_prover]
    pub fn serialize(&self, event: &DfimSiemEvent) -> (out: Option<Vec<u8>>)
        ensures
            match rfc3339_text(event.timestamp_secs, event.timestamp_nanos) {
                Some(t) => out matches Some(o) && o@ == ecs_record(*event, t),
                None => out is None,
            },
    {
        let time = match rfc3339_timestamp(event.timestamp_secs, event.timestamp_nanos) {
            Some(t) => t,
            None => return None,
        };
        let mut out: Vec<u8> = Vec::new();
        push_str(&mut out, "{\"@timestamp\":");
        push_json_string(&mut out, time.as_str());
        push_str(&mut out, ",\"dfim\":");
        push_ecs_dfim_object(&mut out, event);
        push_str(&mut out, ",\"ecs\":{\"version\":\"8.11.0\"},\"event\":");
        push_ecs_event_object(&mut out, event);
        push_str(&mut out, ",\"file\":");
        push_ecs_file_object(&mut out, event);
        push_str(&mut out, ",\"host\":{\"name\":");
        push_json_string(&mut out, event.host_name.as_str());
        push_str(&mut out, "},\"message\":");
        push_json_string(&mut out, event.message.as_str());
        push_str(&mut out, "}");
        Some(out)
    }
}

} // verus!
