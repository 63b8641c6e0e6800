use vstd::prelude::*;

use crate::text::{lower_hex_char, lower_hex_digit, push_char};

verus! {

#[derive(Debug)]
pub struct SelectorTelemetryDto {
    pub selector_index: usize,
    pub selector_label: String,
    pub moves_generated: u64,
    pub moves_evaluated: u64,
    pub moves_accepted: u64,
    pub moves_applied: u64,
    pub moves_not_doable: u64,
    pub moves_acceptor_rejected: u64,
    pub moves_forager_ignored: u64,
    pub moves_hard_improving: u64,
    pub moves_hard_neutral: u64,
    pub moves_hard_worse: u64,
    pub conflict_repair_provider_generated: u64,
    pub conflict_repair_duplicate_filtered: u64,
    pub conflict_repair_illegal_filtered: u64,
    pub conflict_repair_not_doable_filtered: u64,
    pub conflict_repair_hard_improving: u64,
    pub conflict_repair_exposed: u64,
    pub generation_ms: u64,
    pub evaluation_ms: u64,
}

#[derive(Debug)]
pub struct PhaseTelemetryDto {
    pub phase_index: usize,
    pub phase_type: String,
    pub elapsed_ms: u64,
    pub step_count: u64,
    pub moves_generated: u64,
    pub moves_evaluated: u64,
    pub moves_accepted: u64,
    pub moves_applied: u64,
    pub moves_score_improving: u64,
    pub moves_applied_improving: u64,
    pub score_calculations: u64,
    pub generation_ms: u64,
    pub evaluation_ms: u64,
}

/// A 128-bit trace digest as two 16-digit lower-case hexadecimal halves.
#[derive(Debug)]
pub struct CandidateTraceDigestDto {
    pub first_hex: String,
    pub second_hex: String,
}

#[derive(Debug)]
pub struct CandidateTracePhaseAttributeDto {
    pub key: String,
    pub value: String,
}

#[derive(Debug)]
pub struct CandidateTracePhasePlanDto {
    pub kind: String,
    pub attributes: Vec<CandidateTracePhaseAttributeDto>,
    pub opaque: bool,
    pub children: Vec<CandidateTracePhasePlanDto>,
}

#[derive(Debug)]
pub struct CandidateTraceExecutionPolicyDto {
    pub kind: String,
    pub attributes: Vec<CandidateTracePhaseAttributeDto>,
    pub opaque: bool,
}

#[derive(Debug)]
pub struct CandidateTraceInputProvenanceDto {
    pub schema_digest_sha256: String,
    pub instance_digest_sha256: String,
    pub initial_state_digest_sha256: String,
    pub core_tree_digest_sha256: Option<String>,
    pub build_digest_sha256: Option<String>,
    pub attestation_producer: String,
}

#[derive(Debug)]
pub struct CandidateTraceHeaderDto {
    pub format_version: u32,
    pub configured_input: String,
    pub configured_input_digest: CandidateTraceDigestDto,
    pub execution_policy: CandidateTraceExecutionPolicyDto,
    pub execution_policy_digest: CandidateTraceDigestDto,
    pub execution_policy_complete: bool,
    pub input_provenance: Option<CandidateTraceInputProvenanceDto>,
    pub input_provenance_digest: Option<CandidateTraceDigestDto>,
    pub qualified_run_provenance: Option<CandidateTraceInputProvenanceDto>,
    pub resolved_phase_plan: CandidateTracePhasePlanDto,
    pub resolved_phase_plan_digest: CandidateTraceDigestDto,
    pub resolved_phase_plan_complete: bool,
}

#[derive(Debug)]
pub struct CandidateTraceProvenanceStatusDto {
    pub execution_policy_complete: bool,
    pub resolved_phase_plan_complete: bool,
    pub input_provenance: &'static str,
    pub qualification: &'static str,
}

#[derive(Debug)]
pub struct CandidateTraceConstructionTargetDto {
    pub descriptor_index: usize,
    pub entity_index: usize,
}

#[derive(Debug)]
pub enum CandidateTraceCoordinateDto {
    Unsigned { value: u64 },
    Absent,
    Text { value: String },
    Bytes { value_hex: String },
}

#[derive(Debug)]
pub enum CandidateTraceIdentityDto {
    Operation {
        descriptor_index: usize,
        variable_name: Option<String>,
        operation: String,
        components: Vec<CandidateTraceCoordinateDto>,
    },
    Composite { operation: String, children: Vec<CandidateTraceIdentityDto> },
}

#[derive(Debug)]
pub struct CandidatePullTelemetryDto {
    pub ordinal: u64,
    pub source: &'static str,
    pub phase_index: usize,
    pub phase_type: String,
    pub step_index: u64,
    pub selector_index: Option<usize>,
    pub candidate_index: usize,
    pub construction_target: Option<CandidateTraceConstructionTargetDto>,
    pub identity: Option<CandidateTraceIdentityDto>,
    pub dispositions: Vec<&'static str>,
}

#[derive(Debug)]
pub struct CandidateTraceDto {
    pub header: CandidateTraceHeaderDto,
    pub max_entries: usize,
    pub total_pulls: u64,
    pub pulls: Vec<CandidatePullTelemetryDto>,
    pub truncated: bool,
    pub prefix_digest: CandidateTraceDigestDto,
    pub unencoded_identity_count: u64,
    pub complete: bool,
    pub complete_execution_provenance: bool,
    pub provenance_status: CandidateTraceProvenanceStatusDto,
}

/// Where a candidate pulled during solving came from.
#[derive(Debug, Clone, Copy, PartialEq, Eq, Structural)]
pub enum TraceSource {
    Construction,
    LocalSearch,
    VariableNeighborhoodDescent,
    KOpt,
    ListRoundRobinConstruction,
    ListCheapestInsertionTrial,
    ListRegretInsertionTrial,
    ListClarkeWrightSavings,
    ListClarkeWrightMerge,
    ListClarkeWrightCompletionInsertion,
    ListKOptReconnection,
    ListRegretOwnerAppend,
}

/// What happened to a pulled candidate.
#[derive(Debug, Clone, Copy, PartialEq, Eq, Structural)]
pub enum TraceDisposition {
    InterruptedBeforeEvaluation,
    Evaluated,
    NotDoable,
    RejectedByHardImprovement,
    RejectedByScoreImprovement,
    AcceptorRejected,
    ForagerIgnored,
    Selected,
    Applied,
}

/// Whether the run's input provenance was supplied.
#[derive(Debug, Clone, Copy, PartialEq, Eq, Structural)]
pub enum InputProvenanceStatus {
    Absent,
    ExternallyAttested,
}

/// Whether the run was qualified.
#[derive(Debug, Clone, Copy, PartialEq, Eq, Structural)]
pub enum QualificationStatus {
    NotRequested,
    Qualified,
}

pub open spec fn source_label(source: TraceSource) -> Seq<char> {
    match source {
        TraceSource::Construction => "construction"@,
        TraceSource::LocalSearch => "local_search"@,
        TraceSource::VariableNeighborhoodDescent => "variable_neighborhood_descent"@,
        TraceSource::KOpt => "k_opt"@,
        TraceSource::ListRoundRobinConstruction => "list_round_robin_construction"@,
        TraceSource::ListCheapestInsertionTrial => "list_cheapest_insertion_trial"@,
        TraceSource::ListRegretInsertionTrial => "list_regret_insertion_trial"@,
        TraceSource::ListClarkeWrightSavings => "list_clarke_wright_savings"@,
        TraceSource::ListClarkeWrightMerge => "list_clarke_wright_merge"@,
        TraceSource::ListClarkeWrightCompletionInsertion => "list_clarke_wright_completion_insertion"@,
        TraceSource::ListKOptReconnection => "list_k_opt_reconnection"@,
        TraceSource::ListRegretOwnerAppend => "list_regret_owner_append"@,
    }
}

pub fn candidate_trace_source_label(source: TraceSource) -> (label: &'static str)
    ensures
        label@ == source_label(source),
{
    match source {
        TraceSource::Construction => "construction",
        TraceSource::LocalSearch => "local_search",
        TraceSource::VariableNeighborhoodDescent => "variable_neighborhood_descent",
        TraceSource::KOpt => "k_opt",
        TraceSource::ListRoundRobinConstruction => "list_round_robin_construction",
        TraceSource::ListCheapestInsertionTrial => "list_cheapest_insertion_trial",
        TraceSource::ListRegretInsertionTrial => "list_regret_insertion_trial",
        TraceSource::ListClarkeWrightSavings => "list_clarke_wright_savings",
        TraceSource::ListClarkeWrightMerge => "list_clarke_wright_merge",
        TraceSource::ListClarkeWrightCompletionInsertion => "list_clarke_wright_completion_insertion",
        TraceSource::ListKOptReconnection => "list_k_opt_reconnection",
        TraceSource::ListRegretOwnerAppend => "list_regret_owner_append",
    }
}

pub open spec fn disposition_label(disposition: TraceDisposition) -> Seq<char> {
    match disposition {
        TraceDisposition::InterruptedBeforeEvaluation => "interrupted_before_evaluation"@,
        TraceDisposition::Evaluated => "evaluated"@,
        TraceDisposition::NotDoable => "not_doable"@,
        TraceDisposition::RejectedByHardImprovement => "rejected_by_hard_improvement"@,
        TraceDisposition::RejectedByScoreImprovement => "rejected_by_score_improvement"@,
        TraceDisposition::AcceptorRejected => "acceptor_rejected"@,
        TraceDisposition::ForagerIgnored => "forager_ignored"@,
        TraceDisposition::Selected => "selected"@,
        TraceDisposition::Applied => "applied"@,
    }
}

pub fn candidate_trace_disposition_label(disposition: TraceDisposition) -> (label: &'static str)
    ensures
        label@ == disposition_label(disposition),
{
    match disposition {
        TraceDisposition::InterruptedBeforeEvaluation => "interrupted_before_evaluation",
        TraceDisposition::Evaluated => "evaluated",
        TraceDisposition::NotDoable => "not_doable",
        TraceDisposition::RejectedByHardImprovement => "rejected_by_hard_improvement",
        TraceDisposition::RejectedByScoreImprovement => "rejected_by_score_improvement",
        TraceDisposition::AcceptorRejected => "acceptor_rejected",
        TraceDisposition::ForagerIgnored => "forager_ignored",
        TraceDisposition::Selected => "selected",
        TraceDisposition::Applied => "applied",
    }
}

pub fn input_provenance_status_label(status: InputProvenanceStatus) -> (label: &'static str)
    ensures
        label@ == match status {
            InputProvenanceStatus::Absent => "absent"@,
            InputProvenanceStatus::ExternallyAttested => "externally_attested"@,
        },
{
    match status {
        InputProvenanceStatus::Absent => "absent",
        InputProvenanceStatus::ExternallyAttested => "externally_attested",
    }
}

pub fn qualification_status_label(status: QualificationStatus) -> (label: &'static str)
    ensures
        label@ == match status {
            QualificationStatus::NotRequested => "not_requested"@,
            QualificationStatus::Qualified => "qualified"@,
        },
{
    match status {
        QualificationStatus::NotRequested => "not_requested",
        QualificationStatus::Qualified => "qualified",
    }
}

/// Lower-case hexadecimal of a byte sequence: two digits per byte, high
/// nibble first.
pub open spec fn hex_encoding(bytes: Seq<u8>) -> Seq<char>
    decreases bytes.len(),
{
    if bytes.len() == 0 {
        Seq::empty()
    } else {
        hex_encoding(bytes.drop_last()).push(lower_hex_char((bytes.last() / 16) as int)).push(
            lower_hex_char((bytes.last() % 16) as int),
        )
    }
}

/// Lower-case hexadecimal of `bytes`.
pub fn bytes_hex(bytes: &[u8]) -> (out: String)
    ensures
        out@ == hex_encoding(bytes@),
{
    let mut out = String::new();
    let mut i: usize = 0;
    while i < bytes.len()
        invariant
            i <= bytes@.len(),
            out@ == hex_encoding(bytes@.take(i as int)),
        decreases bytes@.len() - i,
    {
        let byte = bytes[i];
        push_char(&mut out, lower_hex_digit(byte / 16));
        push_char(&mut out, lower_hex_digit(byte % 16));
        proof {
            assert(bytes@.take(i as int + 1).drop_last() =~= bytes@.take(i as int));
            assert(bytes@.take(i as int + 1).last() == byte);
        }
        i = i + 1;
    }
    assert(bytes@.take(bytes@.len() as int) =~= bytes@);
    out
}

/// The `n` lowest hexadecimal digits of `v`, most significant first.
pub open spec fn hex_digits(v: nat, n: nat) -> Seq<char>
    decreases n,
{
    if n == 0 {
        Seq::empty()
    } else {
        hex_digits(v / 16, (n - 1) as nat).push(lower_hex_char((v % 16) as int))
    }
}

fn push_hex_digits(out: &mut String, v: u64, n: u64)
    ensures
        final(out)@ == old(out)@ + hex_digits(v as nat, n as nat),
    decreases n,
{
    if n == 0 {
        assert(old(out)@ + hex_digits(v as nat, 0) =~= old(out)@);
        return;
    }
    push_hex_digits(out, v / 16, n - 1);
    push_char(out, lower_hex_digit((v % 16) as u8));
    assert(old(out)@ + hex_digits(v as nat, n as nat) =~= old(out)@ + hex_digits(
        (v / 16) as nat,
        (n - 1) as nat,
    ) + seq![lower_hex_char((v % 16) as int)]);
}

/// A 64-bit value as 16 lower-case hexadecimal digits, zero padded.
pub fn hex_u64(value: u64) -> (out: String)
    ensures
        out@ == hex_digits(value as nat, 16),
{
    let mut out = String::new();
    push_hex_digits(&mut out, value, 16);
    assert(out@ =~= hex_digits(value as nat, 16));
    out
}

impl CandidateTraceDigestDto {
    /// The two halves of a trace digest, each as 16 hexadecimal digits.
    pub fn from_halves(first: u64, second: u64) -> (dto: Self)
        ensures
            dto.first_hex@ == hex_digits(first as nat, 16),
            dto.second_hex@ == hex_digits(second as nat, 16),
    {
        CandidateTraceDigestDto { first_hex: hex_u64(first), second_hex: hex_u64(second) }
    }
}

/// Whole milliseconds of a duration given in nanoseconds, capped at
/// `u64::MAX`.
pub fn duration_to_millis(elapsed_nanos: u128) -> (millis: u64)
    ensures
        millis == if (elapsed_nanos as int) / 1_000_000 <= u64::MAX {
            (elapsed_nanos as int) / 1_000_000
        } else {
            u64::MAX as int
        },
{
    let millis = elapsed_nanos / 1_000_000;
    if millis <= u64::MAX as u128 {
        millis as u64
    } else {
        u64::MAX
    }
}

/// Whole units per second for `count` units over a duration given in
/// nanoseconds; zero for an empty duration, capped at `u64::MAX`.
pub fn whole_units_per_second(count: u64, elapsed_nanos: u128) -> (rate: u64)
    ensures
        elapsed_nanos == 0 ==> rate == 0,
        elapsed_nanos > 0 ==> rate == if (count as int) * 1_000_000_000 / (elapsed_nanos as int) <= u64::MAX {
            (count as int) * 1_000_000_000 / (elapsed_nanos as int)
        } else {
            u64::MAX as int
        },
{
    if elapsed_nanos == 0 {
        0
    } else {
        assert(count * 1_000_000_000 <= u64::MAX * 1_000_000_000) by (nonlinear_arith);
        let scaled: u128 = (count as u128) * 1_000_000_000;
        let per_second = scaled / elapsed_nanos;
        if per_second <= u64::MAX as u128 {
            per_second as u64
        } else {
            u64::MAX
        }
    }
}

} // verus!
