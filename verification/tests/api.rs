use jev_team_calendar::api::dto::{
    hex_nibble, lifecycle_state_label, parse_sha256, sha256_bytes, terminal_reason_label, AnalyzeResponse,
    JobAnalysisDto, LifecycleState, QualifiedCandidateTraceProvenanceDto, TerminalReason,
};
use jev_team_calendar::api::routes::{
    demo_data_catalog, parse_job_id, status_from_solver_error, SolverErrorKind,
};
use jev_team_calendar::api::sse::{event_is_not_newer, event_sequence_from_json, sequence_is_not_newer};
use jev_team_calendar::api::telemetry::{
    bytes_hex, candidate_trace_disposition_label, candidate_trace_source_label,
    duration_to_millis, hex_u64, input_provenance_status_label, qualification_status_label,
    whole_units_per_second, CandidateTraceDigestDto, InputProvenanceStatus, QualificationStatus,
    TraceDisposition, TraceSource,
};
use jev_team_calendar::solver::service::{
    bootstrap_event_type, bootstrap_snapshot_event_type, carries_solution, event_type,
    status_or_snapshot_score, SolverEventKind,
};
use jev_team_calendar::text::decimal_string;

const DIGEST: &str = "00ff10a5b0c1d2e3f405162738495a6b7c8d9eafbfc0d1e2f30415263748596a";

#[test]
fn hex_nibbles_accept_both_cases() {
    assert_eq!(hex_nibble(b'0'), Some(0));
    assert_eq!(hex_nibble(b'9'), Some(9));
    assert_eq!(hex_nibble(b'a'), Some(10));
    assert_eq!(hex_nibble(b'F'), Some(15));
    assert_eq!(hex_nibble(b'g'), None);
    assert_eq!(hex_nibble(b' '), None);
}

#[test]
fn bytes_hex_is_lower_case_two_digits_per_byte() {
    assert_eq!(bytes_hex(&[0x00, 0xff, 0x10, 0xa5]), "00ff10a5");
    assert_eq!(bytes_hex(&[]), "");
}

#[test]
fn sha256_text_round_trips_through_bytes_hex() {
    let bytes = sha256_bytes("schemaDigestSha256", DIGEST).unwrap();
    assert_eq!(bytes.len(), 32);
    assert_eq!(bytes[1], 0xff);
    assert_eq!(bytes_hex(&bytes), DIGEST);
    let upper = DIGEST.to_uppercase();
    assert_eq!(sha256_bytes("x", &upper).unwrap(), bytes);
}

#[test]
fn sha256_errors_name_the_field() {
    assert_eq!(
        sha256_bytes("schemaDigestSha256", "abc").unwrap_err(),
        "schemaDigestSha256 must contain exactly 64 hexadecimal characters"
    );
    let bad = format!("{}zz", &DIGEST[..62]);
    assert_eq!(
        sha256_bytes("buildDigestSha256", &bad).unwrap_err(),
        "buildDigestSha256 must be hexadecimal"
    );
}

fn provenance(producer: &str) -> QualifiedCandidateTraceProvenanceDto {
    QualifiedCandidateTraceProvenanceDto {
        schema_digest_sha256: DIGEST.to_string(),
        instance_digest_sha256: DIGEST.to_string(),
        initial_state_digest_sha256: DIGEST.to_string(),
        core_tree_digest_sha256: DIGEST.to_string(),
        build_digest_sha256: DIGEST.to_string(),
        producer: producer.to_string(),
    }
}

#[test]
fn qualified_provenance_needs_digests_and_a_producer() {
    assert!(provenance("ci-pipeline").to_runtime().is_ok());
    assert_eq!(
        provenance("  \t").to_runtime().err().unwrap(),
        "qualified candidate-trace producer must not be empty"
    );
    let mut bad = provenance("ci");
    bad.initial_state_digest_sha256 = "short".to_string();
    assert_eq!(
        bad.to_runtime().err().unwrap(),
        "initialStateDigestSha256 must contain exactly 64 hexadecimal characters"
    );
}

#[test]
fn job_ids_are_decimal_and_read_back() {
    assert_eq!(decimal_string(0), "0");
    assert_eq!(decimal_string(4071), "4071");
    assert_eq!(parse_job_id("4071"), Some(4071));
    assert_eq!(parse_job_id("+12"), Some(12));
    assert_eq!(parse_job_id(""), None);
    assert_eq!(parse_job_id("+"), None);
    assert_eq!(parse_job_id("-1"), None);
    assert_eq!(parse_job_id("12a"), None);
    assert_eq!(parse_job_id("99999999999999999999999"), None);
    assert_eq!(parse_job_id(&decimal_string(usize::MAX)), Some(usize::MAX));
}

#[test]
fn solver_errors_map_to_http_statuses() {
    assert_eq!(status_from_solver_error(SolverErrorKind::NoFreeJobSlots), 503);
    assert_eq!(status_from_solver_error(SolverErrorKind::JobNotFound), 404);
    assert_eq!(status_from_solver_error(SolverErrorKind::InvalidStateTransition), 409);
    assert_eq!(status_from_solver_error(SolverErrorKind::NoSnapshotAvailable), 409);
    assert_eq!(status_from_solver_error(SolverErrorKind::SnapshotNotFound), 404);
}

#[test]
fn catalog_lists_the_default_and_every_project() {
    let catalog = demo_data_catalog();
    assert_eq!(catalog.default_id, "platform-reliability");
    assert_eq!(catalog.available_ids, vec!["platform-reliability", "product-launch"]);
}

#[test]
fn lifecycle_and_terminal_labels() {
    assert_eq!(lifecycle_state_label(LifecycleState::Solving), "SOLVING");
    assert_eq!(lifecycle_state_label(LifecycleState::PauseRequested), "PAUSE_REQUESTED");
    assert_eq!(lifecycle_state_label(LifecycleState::Failed), "FAILED");
    assert_eq!(terminal_reason_label(TerminalReason::TerminatedByConfig), "terminated_by_config");
    let dto = JobAnalysisDto::from_snapshot_analysis(
        7,
        3,
        LifecycleState::Completed,
        Some(TerminalReason::Completed),
        AnalyzeResponse { score: "0hard/-5soft".to_string(), constraints: Vec::new() },
    );
    assert_eq!(dto.id, "7");
    assert_eq!(dto.job_id, "7");
    assert_eq!(dto.lifecycle_state, "COMPLETED");
    assert_eq!(dto.terminal_reason, Some("completed"));
}

#[test]
fn trace_labels() {
    assert_eq!(candidate_trace_source_label(TraceSource::KOpt), "k_opt");
    assert_eq!(
        candidate_trace_source_label(TraceSource::ListClarkeWrightCompletionInsertion),
        "list_clarke_wright_completion_insertion"
    );
    assert_eq!(candidate_trace_disposition_label(TraceDisposition::ForagerIgnored), "forager_ignored");
    assert_eq!(input_provenance_status_label(InputProvenanceStatus::ExternallyAttested), "externally_attested");
    assert_eq!(qualification_status_label(QualificationStatus::NotRequested), "not_requested");
}

#[test]
fn digests_print_as_sixteen_hex_digits() {
    assert_eq!(hex_u64(0), "0000000000000000");
    assert_eq!(hex_u64(0xdead_beef), "00000000deadbeef");
    assert_eq!(hex_u64(u64::MAX), "ffffffffffffffff");
    let dto = CandidateTraceDigestDto::from_halves(1, 0xabc);
    assert_eq!(dto.first_hex, "0000000000000001");
    assert_eq!(dto.second_hex, "0000000000000abc");
}

#[test]
fn durations_and_rates() {
    assert_eq!(duration_to_millis(2_500_000), 2);
    assert_eq!(duration_to_millis(u128::MAX), u64::MAX);
    assert_eq!(whole_units_per_second(10, 0), 0);
    assert_eq!(whole_units_per_second(10, 2_000_000_000), 5);
    assert_eq!(whole_units_per_second(3, 1_000), 3_000_000);
    assert_eq!(whole_units_per_second(u64::MAX, 1), u64::MAX);
}

#[test]
fn stale_events_are_skipped_after_the_bootstrap() {
    assert_eq!(event_sequence_from_json(r#"{"eventSequence": 7}"#), Some(7));
    assert_eq!(event_sequence_from_json("not json"), None);
    assert!(event_is_not_newer(r#"{"eventSequence": 5}"#, Some(5)));
    assert!(!event_is_not_newer(r#"{"eventSequence": 6}"#, Some(5)));
    assert!(!event_is_not_newer(r#"{"eventSequence": 1}"#, None));
    assert!(!event_is_not_newer(r#"{"other": 1}"#, Some(5)));
    assert!(sequence_is_not_newer(Some(2), Some(3)));
    assert!(!sequence_is_not_newer(None, Some(3)));
}

#[test]
fn lifecycle_event_types() {
    assert_eq!(event_type(SolverEventKind::BestSolution), "best_solution");
    assert_eq!(event_type(SolverEventKind::Resumed), "resumed");
    assert!(carries_solution(SolverEventKind::Completed));
    assert!(!carries_solution(SolverEventKind::Failed));
    assert_eq!(bootstrap_event_type(LifecycleState::Solving), "progress");
    assert_eq!(bootstrap_snapshot_event_type(LifecycleState::Solving), "best_solution");
    assert_eq!(bootstrap_snapshot_event_type(LifecycleState::Paused), "paused");
}

#[test]
fn parsed_digest_holds_the_decoded_bytes_in_either_case() {
    let bytes = sha256_bytes("x", DIGEST).unwrap();
    let digest = parse_sha256("x", DIGEST).unwrap();
    assert_eq!(digest.bytes.to_vec(), bytes);
    let upper = parse_sha256("x", &DIGEST.to_uppercase()).unwrap();
    assert_eq!(upper, digest);
    assert_eq!(
        parse_sha256("coreTreeDigestSha256", "zz").unwrap_err(),
        "coreTreeDigestSha256 must contain exactly 64 hexadecimal characters"
    );
}

#[test]
fn attested_provenance_keeps_each_digest_in_its_field() {
    let other = "11".repeat(32);
    let mut dto = provenance("ci-pipeline");
    dto.instance_digest_sha256 = other.clone();
    let attested = dto.to_runtime().unwrap();
    let input = attested.input_provenance();
    assert_eq!(input.schema_digest, parse_sha256("s", DIGEST).unwrap());
    assert_eq!(input.instance_digest, parse_sha256("i", &other).unwrap());
    assert_eq!(input.initial_state_digest, parse_sha256("s", DIGEST).unwrap());
}

#[test]
fn snapshot_events_prefer_the_status_score() {
    assert_eq!(status_or_snapshot_score(Some(3), Some(5)), Some(3));
    assert_eq!(status_or_snapshot_score(None, Some(5)), Some(5));
    assert_eq!(status_or_snapshot_score::<i32>(None, None), None);
}
