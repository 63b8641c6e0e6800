use vstd::prelude::*;
use vstd::string::*;
use vstd::utf8::{encode_utf8, is_ascii_chars, is_ascii_chars_encode_utf8};

use solverforge::{CandidateTraceExternalDigest, QualifiedCandidateTraceRunProvenance};

use crate::api::telemetry::hex_encoding;
use crate::text::{concat2, decimal_digits, decimal_string, lower_hex_char};

verus! {

#[verifier::external_type_specification]
#[verifier::external_body]
pub struct ExCandidateTraceExternalDigest(CandidateTraceExternalDigest);

#[verifier::external_type_specification]
#[verifier::external_body]
pub struct ExQualifiedCandidateTraceRunProvenance(QualifiedCandidateTraceRunProvenance);

/// One constraint's line of a score analysis.
#[derive(Debug)]
pub struct ConstraintAnalysisDto {
    pub name: String,
    pub weight: String,
    pub score: String,
    pub match_count: usize,
}

/// A score analysis: the total and each constraint's part.
#[derive(Debug)]
pub struct AnalyzeResponse {
    pub score: String,
    pub constraints: Vec<ConstraintAnalysisDto>,
}

/// The analysis of one retained snapshot of a job.
#[derive(Debug)]
pub struct JobAnalysisDto {
    pub id: String,
    pub job_id: String,
    pub snapshot_revision: u64,
    pub lifecycle_state: &'static str,
    pub terminal_reason: Option<&'static str>,
    pub analysis: AnalyzeResponse,
}

/// The SHA-256 digests and producer that attest a qualified run's input,
/// digests as 64 hexadecimal characters each.
#[derive(Debug)]
pub struct QualifiedCandidateTraceProvenanceDto {
    pub schema_digest_sha256: String,
    pub instance_digest_sha256: String,
    pub initial_state_digest_sha256: String,
    pub core_tree_digest_sha256: String,
    pub build_digest_sha256: String,
    pub producer: String,
}

/// Where a retained job stands.
#[derive(Debug, Clone, Copy, PartialEq, Eq, Structural)]
pub enum LifecycleState {
    Solving,
    PauseRequested,
    Paused,
    Completed,
    Cancelled,
    Failed,
}

/// Why a job stopped.
#[derive(Debug, Clone, Copy, PartialEq, Eq, Structural)]
pub enum TerminalReason {
    Completed,
    TerminatedByConfig,
    Cancelled,
    Failed,
}

pub open spec fn lifecycle_label(state: LifecycleState) -> Seq<char> {
    match state {
        LifecycleState::Solving => "SOLVING"@,
        LifecycleState::PauseRequested => "PAUSE_REQUESTED"@,
        LifecycleState::Paused => "PAUSED"@,
        LifecycleState::Completed => "COMPLETED"@,
        LifecycleState::Cancelled => "CANCELLED"@,
        LifecycleState::Failed => "FAILED"@,
    }
}

pub fn lifecycle_state_label(state: LifecycleState) -> (label: &'static str)
    ensures
        label@ == lifecycle_label(state),
{
    match state {
        LifecycleState::Solving => "SOLVING",
        LifecycleState::PauseRequested => "PAUSE_REQUESTED",
        LifecycleState::Paused => "PAUSED",
        LifecycleState::Completed => "COMPLETED",
        LifecycleState::Cancelled => "CANCELLED",
        LifecycleState::Failed => "FAILED",
    }
}

pub open spec fn terminal_label(reason: TerminalReason) -> Seq<char> {
    match reason {
        TerminalReason::Completed => "completed"@,
        TerminalReason::TerminatedByConfig => "terminated_by_config"@,
        TerminalReason::Cancelled => "cancelled"@,
        TerminalReason::Failed => "failed"@,
    }
}

pub fn terminal_reason_label(reason: TerminalReason) -> (label: &'static str)
    ensures
        label@ == terminal_label(reason),
{
    match reason {
        TerminalReason::Completed => "completed",
        TerminalReason::TerminatedByConfig => "terminated_by_config",
        TerminalReason::Cancelled => "cancelled",
        TerminalReason::Failed => "failed",
    }
}

pub fn optional_terminal_reason_label(reason: Option<TerminalReason>) -> (label: Option<&'static str>)
    ensures
        match reason {
            Some(r) => label matches Some(l) && l@ == terminal_label(r),
            None => label is None,
        },
{
    match reason {
        Some(r) => Some(terminal_reason_label(r)),
        None => None,
    }
}

impl JobAnalysisDto {
    /// The analysis of job `job_id` at a snapshot revision; both id fields
    /// carry the job number in decimal.
    pub fn from_snapshot_analysis(
        job_id: usize,
        snapshot_revision: u64,
        lifecycle_state: LifecycleState,
        terminal_reason: Option<TerminalReason>,
        analysis: AnalyzeResponse,
    ) -> (dto: Self)
        ensures
            dto.id@ == decimal_digits(job_id as nat),
            dto.job_id@ == decimal_digits(job_id as nat),
            dto.snapshot_revision == snapshot_revision,
            dto.lifecycle_state@ == lifecycle_label(lifecycle_state),
            match terminal_reason {
                Some(r) => dto.terminal_reason matches Some(l) && l@ == terminal_label(r),
                None => dto.terminal_reason is None,
            },
            dto.analysis == analysis,
    {
        JobAnalysisDto {
            id: decimal_string(job_id),
            job_id: decimal_string(job_id),
            snapshot_revision,
            lifecycle_state: lifecycle_state_label(lifecycle_state),
            terminal_reason: optional_terminal_reason_label(terminal_reason),
            analysis,
        }
    }
}

/// The value of an ASCII hexadecimal digit (either case).
pub open spec fn hex_value(b: u8) -> Option<u8> {
    if 48 <= b <= 57 {
        Some((b - 48) as u8)
    } else if 97 <= b <= 102 {
        Some((b - 87) as u8)
    } else if 65 <= b <= 70 {
        Some((b - 55) as u8)
    } else {
        None
    }
}

pub fn hex_nibble(value: u8) -> (nibble: Option<u8>)
    ensures
        nibble == hex_value(value),
        nibble matches Some(n) ==> n < 16,
{
    if 48 <= value && value <= 57 {
        Some(value - 48)
    } else if 97 <= value && value <= 102 {
        Some(value - 87)
    } else if 65 <= value && value <= 70 {
        Some(value - 55)
    } else {
        None
    }
}

pub open spec fn all_hex(bytes: Seq<u8>) -> bool {
    forall|i: int| 0 <= i < bytes.len() ==> (#[trigger] hex_value(bytes[i])) is Some
}

/// The byte each pair of hexadecimal digits stands for.
pub open spec fn decode_hex_pairs(bytes: Seq<u8>) -> Seq<u8> {
    Seq::new(
        (bytes.len() / 2) as nat,
        |k: int| (hex_value(bytes[2 * k])->0 * 16 + hex_value(bytes[2 * k + 1])->0) as u8,
    )
}

/// What a SHA-256 digest written as text decodes to: 64 hexadecimal
/// characters give 32 bytes; otherwise the error names the field.
pub open spec fn sha256_outcome(name: Seq<char>, text: Seq<u8>) -> Result<Seq<u8>, Seq<char>> {
    if text.len() != 64 {
        Err(name + " must contain exactly 64 hexadecimal characters"@)
    } else if all_hex(text) {
        Ok(decode_hex_pairs(text))
    } else {
        Err(name + " must be hexadecimal"@)
    }
}

/// Decodes a SHA-256 digest written as 64 hexadecimal characters (either
/// case) into its 32 bytes.
pub fn sha256_bytes(name: &str, value: &str) -> (r: Result<Vec<u8>, String>)
    ensures
        match r {
            Ok(bytes) => sha256_outcome(name@, value.spec_bytes()) == Ok::<Seq<u8>, Seq<char>>(bytes@),
            Err(message) => sha256_outcome(name@, value.spec_bytes()) == Err::<Seq<u8>, Seq<char>>(message@),
        },
{
    let text = value.as_bytes();
    let ghost t = value.spec_bytes();
    if text.len() != 64 {
        return Err(concat2(name, " must contain exactly 64 hexadecimal characters"));
    }
    let mut out: Vec<u8> = Vec::new();
    let mut index: usize = 0;
    while index < 32
        invariant
            text@ == t,
            t == value.spec_bytes(),
            t.len() == 64,
            index <= 32,
            forall|i: int| 0 <= i < 2 * index ==> (#[trigger] hex_value(t[i])) is Some,
            out@ =~= decode_hex_pairs(t.take(2 * index as int)),
        decreases 32 - index,
    {
        let high = match hex_nibble(text[2 * index]) {
            Some(n) => n,
            None => {
                assert(!all_hex(t)) by {
                    assert(hex_value(t[2 * index as int]) is None);
                }
                return Err(concat2(name, " must be hexadecimal"));
            },
        };
        let low = match hex_nibble(text[2 * index + 1]) {
            Some(n) => n,
            None => {
                assert(!all_hex(t)) by {
                    assert(hex_value(t[2 * index as int + 1]) is None);
                }
                return Err(concat2(name, " must be hexadecimal"));
            },
        };
        out.push(high * 16 + low);
        index = index + 1;
        assert(out@ =~= decode_hex_pairs(t.take(2 * index as int)));
    }
    assert(t.take(64) =~= t);
    Ok(out)
}

/// The Unicode `White_Space` property, as `str::trim` uses it.
pub open spec fn is_white_space(c: char) -> bool {
    let u = c as u32;
    ||| 9 <= u <= 13
    ||| u == 32
    ||| u == 0x85
    ||| u == 0xA0
    ||| u == 0x1680
    ||| 0x2000 <= u <= 0x200A
    ||| u == 0x2028
    ||| u == 0x2029
    ||| u == 0x202F
    ||| u == 0x205F
    ||| u == 0x3000
}

/// Empty once surrounding white space is trimmed.
pub open spec fn is_blank(s: Seq<char>) -> bool {
    forall|i: int| 0 <= i < s.len() ==> is_white_space(#[trigger] s[i])
}

/// The digest value solverforge's `CandidateTraceExternalDigest::sha256`
/// builds from 32 bytes.
pub uninterp spec fn sha256_digest_of(bytes: Seq<u8>) -> CandidateTraceExternalDigest;

/// The run provenance solverforge's
/// `QualifiedCandidateTraceRunProvenance::externally_attested` builds from
/// the five digests, in its parameter order, and the producer.
pub uninterp spec fn attested_provenance(
    schema: CandidateTraceExternalDigest,
    instance: CandidateTraceExternalDigest,
    initial_state: CandidateTraceExternalDigest,
    core_tree: CandidateTraceExternalDigest,
    build: CandidateTraceExternalDigest,
    producer: Seq<char>,
) -> QualifiedCandidateTraceRunProvenance;

/// `CandidateTraceExternalDigest::sha256` of solverforge, from the 32 bytes:
/// the digest depends on those bytes alone.
#[verifier::external_body]
fn external_sha256_digest(bytes: &Vec<u8>) -> (digest: CandidateTraceExternalDigest)
    requires
        bytes@.len() == 32,
    ensures
        digest == sha256_digest_of(bytes@),
{
    let mut array = [0u8; 32];
    array.copy_from_slice(bytes.as_slice());
    CandidateTraceExternalDigest::sha256(array)
}

/// `QualifiedCandidateTraceRunProvenance::externally_attested` of
/// solverforge: it refuses a producer that trims to nothing, with the
/// message of `EmptyExternalProducer`, and accepts any other; what it
/// accepts depends on the five digests and the producer alone.
#[verifier::external_body]
fn attest_externally(
    schema: CandidateTraceExternalDigest,
    instance: CandidateTraceExternalDigest,
    initial_state: CandidateTraceExternalDigest,
    core_tree: CandidateTraceExternalDigest,
    build: CandidateTraceExternalDigest,
    producer: String,
) -> (r: Result<QualifiedCandidateTraceRunProvenance, String>)
    ensures
        r is Err <==> is_blank(producer@),
        r matches Err(message) ==> message@ == "qualified candidate-trace producer must not be empty"@,
        r matches Ok(p) ==> p == attested_provenance(schema, instance, initial_state, core_tree, build, producer@),
{
    match QualifiedCandidateTraceRunProvenance::externally_attested(
        schema,
        instance,
        initial_state,
        core_tree,
        build,
        producer,
    ) {
        Ok(provenance) => Ok(provenance),
        Err(error) => Err(error.to_string()),
    }
}

/// Decodes a named SHA-256 digest field into solverforge's digest type.
pub fn parse_sha256(name: &str, value: &str) -> (r: Result<CandidateTraceExternalDigest, String>)
    ensures
        match r {
            Ok(d) => sha256_outcome(name@, value.spec_bytes()) is Ok && d == sha256_digest_of(
                sha256_outcome(name@, value.spec_bytes())->Ok_0,
            ),
            Err(message) => sha256_outcome(name@, value.spec_bytes()) == Err::<Seq<u8>, Seq<char>>(message@),
        },
{
    match sha256_bytes(name, value) {
        Ok(bytes) => Ok(external_sha256_digest(&bytes)),
        Err(message) => Err(message),
    }
}

/// `bytes_hex` writes each byte as two lower-case hexadecimal digits, high
/// nibble first.
pub proof fn lemma_hex_encoding_shape(bytes: Seq<u8>)
    ensures
        hex_encoding(bytes).len() == 2 * bytes.len(),
        forall|k: int|
            0 <= k < bytes.len() ==> #[trigger] hex_encoding(bytes)[2 * k] == lower_hex_char(
                (bytes[k] / 16) as int,
            ) && hex_encoding(bytes)[2 * k + 1] == lower_hex_char((bytes[k] % 16) as int),
    decreases bytes.len(),
{
    if bytes.len() > 0 {
        let init = bytes.drop_last();
        lemma_hex_encoding_shape(init);
        assert forall|k: int| 0 <= k < bytes.len() implies #[trigger] hex_encoding(bytes)[2 * k] == lower_hex_char(
            (bytes[k] / 16) as int,
        ) && hex_encoding(bytes)[2 * k + 1] == lower_hex_char((bytes[k] % 16) as int) by {
            if k < init.len() {
                assert(init[k] == bytes[k]);
                assert(hex_encoding(init)[2 * k] == lower_hex_char((init[k] / 16) as int));
            }
        }
    }
}

proof fn lemma_hex_char_value(n: int)
    requires
        0 <= n < 16,
    ensures
        '\0' <= lower_hex_char(n) <= '\u{7f}',
        hex_value(lower_hex_char(n) as u8) == Some(n as u8),
{
}

/// Text bytes with ASCII lower-case letters raised to upper case.
pub open spec fn ascii_uppercase(text: Seq<u8>) -> Seq<u8> {
    text.map_values(|b: u8| if 97 <= b <= 122 { (b - 32) as u8 } else { b })
}

/// A digest written out by `bytes_hex` decodes back to the same 32 bytes,
/// and so does the same text in upper case: the two hexadecimal codecs are
/// inverse, whatever the case of the letters.
pub proof fn lemma_sha256_hex_round_trip(name: Seq<char>, digest: Seq<u8>)
    requires
        digest.len() == 32,
    ensures
        sha256_outcome(name, encode_utf8(hex_encoding(digest))) == Ok::<Seq<u8>, Seq<char>>(digest),
        sha256_outcome(name, ascii_uppercase(encode_utf8(hex_encoding(digest)))) == Ok::<
            Seq<u8>,
            Seq<char>,
        >(digest),
{
    let chars = hex_encoding(digest);
    lemma_hex_encoding_shape(digest);
    assert forall|i: int| 0 <= i < chars.len() implies '\0' <= #[trigger] chars[i] <= '\u{7f}' by {
        let k = i / 2;
        assert(i == 2 * k || i == 2 * k + 1);
        assert(chars[2 * k] == lower_hex_char((digest[k] / 16) as int));
        lemma_hex_char_value((digest[k] / 16) as int);
        lemma_hex_char_value((digest[k] % 16) as int);
    }
    assert(is_ascii_chars(chars));
    is_ascii_chars_encode_utf8(chars);
    let text = encode_utf8(chars);
    assert(text.len() == 64);
    assert forall|i: int| 0 <= i < text.len() implies (#[trigger] hex_value(text[i])) is Some by {
        let k = i / 2;
        assert(i == 2 * k || i == 2 * k + 1);
        assert(chars[2 * k] == lower_hex_char((digest[k] / 16) as int));
        assert(text[i] == chars[i] as u8);
        lemma_hex_char_value((digest[k] / 16) as int);
        lemma_hex_char_value((digest[k] % 16) as int);
    }
    assert(decode_hex_pairs(text) =~= digest) by {
        assert forall|k: int| 0 <= k < 32 implies #[trigger] decode_hex_pairs(text)[k] == digest[k] by {
            assert(chars[2 * k] == lower_hex_char((digest[k] / 16) as int));
            assert(text[2 * k] == chars[2 * k] as u8);
            assert(text[2 * k + 1] == chars[2 * k + 1] as u8);
            lemma_hex_char_value((digest[k] / 16) as int);
            lemma_hex_char_value((digest[k] % 16) as int);
        }
    }
    let upper = ascii_uppercase(text);
    assert(upper.len() == 64);
    assert forall|i: int| 0 <= i < 64 implies #[trigger] hex_value(upper[i]) == hex_value(text[i]) by {
        let k = i / 2;
        assert(i == 2 * k || i == 2 * k + 1);
        assert(text[i] == chars[i] as u8);
        lemma_hex_char_value((digest[k] / 16) as int);
        lemma_hex_char_value((digest[k] % 16) as int);
    }
    assert(decode_hex_pairs(upper) =~= digest) by {
        assert forall|k: int| 0 <= k < 32 implies #[trigger] decode_hex_pairs(upper)[k] == digest[k] by {
            assert(hex_value(upper[2 * k]) == hex_value(text[2 * k]));
            assert(hex_value(upper[2 * k + 1]) == hex_value(text[2 * k + 1]));
            assert(decode_hex_pairs(text)[k] == digest[k]);
        }
    }
    assert forall|i: int| 0 <= i < upper.len() implies (#[trigger] hex_value(upper[i])) is Some by {
        assert(hex_value(upper[i]) == hex_value(text[i]));
    }
}

/// What a digest field's text decodes to.
pub open spec fn digest_outcome(name: Seq<char>, text: Seq<char>) -> Result<Seq<u8>, Seq<char>> {
    sha256_outcome(name, encode_utf8(text))
}

impl QualifiedCandidateTraceProvenanceDto {
    /// The first problem with the attestation, checking the digests in field
    /// order and then the producer; `None` when it is acceptable.
    pub open spec fn attestation_error(&self) -> Option<Seq<char>> {
        let schema = digest_outcome("schemaDigestSha256"@, self.schema_digest_sha256@);
        let instance = digest_outcome("instanceDigestSha256"@, self.instance_digest_sha256@);
        let initial = digest_outcome("initialStateDigestSha256"@, self.initial_state_digest_sha256@);
        let core = digest_outcome("coreTreeDigestSha256"@, self.core_tree_digest_sha256@);
        let build = digest_outcome("buildDigestSha256"@, self.build_digest_sha256@);
        if schema is Err {
            Some(schema->Err_0)
        } else if instance is Err {
            Some(instance->Err_0)
        } else if initial is Err {
            Some(initial->Err_0)
        } else if core is Err {
            Some(core->Err_0)
        } else if build is Err {
            Some(build->Err_0)
        } else if is_blank(self.producer@) {
            Some("qualified candidate-trace producer must not be empty"@)
        } else {
            None
        }
    }

    /// The provenance attested from the five decoded digests, in field
    /// order, and the producer.
    pub open spec fn attested(&self) -> QualifiedCandidateTraceRunProvenance {
        attested_provenance(
            sha256_digest_of(digest_outcome("schemaDigestSha256"@, self.schema_digest_sha256@)->Ok_0),
            sha256_digest_of(digest_outcome("instanceDigestSha256"@, self.instance_digest_sha256@)->Ok_0),
            sha256_digest_of(
                digest_outcome("initialStateDigestSha256"@, self.initial_state_digest_sha256@)->Ok_0,
            ),
            sha256_digest_of(digest_outcome("coreTreeDigestSha256"@, self.core_tree_digest_sha256@)->Ok_0),
            sha256_digest_of(digest_outcome("buildDigestSha256"@, self.build_digest_sha256@)->Ok_0),
            self.producer@,
        )
    }

    /// Decodes the five digests and attests the run through solverforge.
    pub fn to_runtime(&self) -> (r: Result<QualifiedCandidateTraceRunProvenance, String>)
        ensures
            match r {
                Ok(p) => self.attestation_error() is None && p == self.attested(),
                Err(message) => self.attestation_error() == Some(message@),
            },
    {
        let schema = parse_sha256("schemaDigestSha256", self.schema_digest_sha256.as_str())?;
        let instance = parse_sha256("instanceDigestSha256", self.instance_digest_sha256.as_str())?;
        let initial_state = parse_sha256(
            "initialStateDigestSha256",
            self.initial_state_digest_sha256.as_str(),
        )?;
        let core_tree = parse_sha256("coreTreeDigestSha256", self.core_tree_digest_sha256.as_str())?;
        let build = parse_sha256("buildDigestSha256", self.build_digest_sha256.as_str())?;
        attest_externally(schema, instance, initial_state, core_tree, build, self.producer.clone())
    }
}

} // verus!
