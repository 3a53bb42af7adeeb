use tradex::protocol::{
    DataSourceEntry, DataSourceProbeKind, DataSourceStatus, ResearchFocus, ScreenerOperation,
    ScreenerOperator, ScreenerRequest, ScreenerResultState,
};
use tradex::screener::{has_word, screen, screen_checked};

const FIXTURE_TIMESTAMP: &str = "2026-09-14T00:00:00Z";

fn request(operation: ScreenerOperation) -> ScreenerRequest {
    ScreenerRequest {
        workspace_id: "ws".into(),
        operation,
        natural_language: "US large-cap technology stocks with revenue growth above 15%, positive estimate revisions, and RSI below 70".into(),
        focus: Some(ResearchFocus::Equity),
        filter_spec: None,
        rank_spec: None,
        revision: None,
        limit: Some(10),
    }
}

fn source(id: &str, status: DataSourceStatus) -> DataSourceEntry {
    DataSourceEntry {
        source_id: id.into(),
        provider: "Provider".into(),
        capabilities: vec!["fundamentals".into()],
        coverage: "US".into(),
        latency: "daily".into(),
        entitlement: "licensed".into(),
        retention: "30 days".into(),
        redistribution: "none".into(),
        commercial_use: "review".into(),
        jurisdictions: "US".into(),
        official_url: "https://example.test".into(),
        terms_url: "https://example.test/terms".into(),
        reviewed_at: "2026-09-01T00:00:00Z".into(),
        checked_at: None,
        observed_at: None,
        probe_kind: DataSourceProbeKind::PublicMetadata,
        status,
        configured: true,
        verified_at: None,
        availability_reason: "reviewed".into(),
    }
}

#[test]
fn parse_is_deterministic_and_bounded() {
    let parsed = screen(
        &request(ScreenerOperation::Parse),
        &[],
        FIXTURE_TIMESTAMP,
        false,
    )
    .unwrap();
    assert_eq!(parsed.state, ScreenerResultState::Parsed);
    assert_eq!(parsed.filter_spec.as_ref().unwrap().predicates.len(), 3);
    assert_eq!(
        parsed.revision,
        screen(
            &request(ScreenerOperation::Parse),
            &[],
            FIXTURE_TIMESTAMP,
            false
        )
        .unwrap()
        .revision
    );
}

#[test]
fn fixture_run_filters_and_ranks_candidates() {
    let parsed = screen(
        &request(ScreenerOperation::Parse),
        &[],
        FIXTURE_TIMESTAMP,
        true,
    )
    .unwrap();
    let mut run = request(ScreenerOperation::Run);
    run.filter_spec = parsed.filter_spec;
    run.rank_spec = parsed.rank_spec;
    run.revision = parsed.revision;
    let result = screen(&run, &[], FIXTURE_TIMESTAMP, true).unwrap();
    assert_eq!(result.state, ScreenerResultState::Completed);
    assert_eq!(
        result
            .candidates
            .iter()
            .map(|row| row.symbol.as_str())
            .collect::<Vec<_>>(),
        vec!["MSFT", "AAPL"]
    );
}

#[test]
fn run_rejects_stale_revision_and_blocks_external_sources() {
    let parsed = screen(
        &request(ScreenerOperation::Parse),
        &[],
        FIXTURE_TIMESTAMP,
        false,
    )
    .unwrap();
    let mut run = request(ScreenerOperation::Run);
    run.filter_spec = parsed.filter_spec;
    run.rank_spec = parsed.rank_spec;
    run.revision = Some("sha256:stale".into());
    assert_eq!(
        screen(&run, &[], FIXTURE_TIMESTAMP, false)
            .unwrap_err()
            .code,
        "SCREENER_REVISION_STALE"
    );
    run.revision = parsed.revision;
    assert_eq!(
        screen(&run, &[], FIXTURE_TIMESTAMP, false).unwrap().state,
        ScreenerResultState::BlockedExternal
    );
}

#[test]
fn unsupported_language_is_explicit() {
    let mut request = request(ScreenerOperation::Parse);
    request.natural_language = "find unusual companies".into();
    let parsed = screen(&request, &[], FIXTURE_TIMESTAMP, false).unwrap();
    assert_eq!(parsed.state, ScreenerResultState::Failed);
    assert!(
        parsed
            .limitations
            .iter()
            .any(|value| value.contains("SCREENER_FILTER_UNSUPPORTED"))
    );
    request.natural_language = "Find stocks with P/E below 20.".into();
    let field_failure = screen(&request, &[], FIXTURE_TIMESTAMP, false).unwrap();
    assert!(
        field_failure
            .availability_reason
            .contains("Unsupported filter field")
    );
    request.natural_language =
        "Find US stocks with RSI below 70 and EV/EBITDA below 10.".into();
    let conjunction_failure = screen(&request, &[], FIXTURE_TIMESTAMP, false).unwrap();
    assert_eq!(conjunction_failure.state, ScreenerResultState::Failed);
    assert!(
        conjunction_failure
            .availability_reason
            .contains("Unsupported filter field")
    );
    request.natural_language =
        "Find stocks with RSI below 70 and price change above 0%.".into();
    let split_conditions = screen(&request, &[], FIXTURE_TIMESTAMP, false).unwrap();
    assert_eq!(split_conditions.state, ScreenerResultState::Parsed);
    let predicates = split_conditions.filter_spec.unwrap().predicates;
    assert_eq!(predicates.len(), 2);
    assert_eq!(predicates[0].operator, ScreenerOperator::LessThan);
    assert_eq!(predicates[1].operator, ScreenerOperator::GreaterThan);
    request.natural_language =
        "Find stocks with price change above 0%, rank by momentum.".into();
    let filter_and_rank = screen(&request, &[], FIXTURE_TIMESTAMP, false).unwrap();
    assert_eq!(filter_and_rank.state, ScreenerResultState::Parsed);
    request.natural_language =
        "Find stocks with revenue growth above 15% and revenue growth below 50%.".into();
    let repeated_field = screen(&request, &[], FIXTURE_TIMESTAMP, false).unwrap();
    assert_eq!(repeated_field.state, ScreenerResultState::Failed);
    assert!(repeated_field.availability_reason.contains("Multiple"));
    request.natural_language = "Find stocks with RSI below 70, RSI above 30.".into();
    let comma_repeated_field = screen(&request, &[], FIXTURE_TIMESTAMP, false).unwrap();
    assert_eq!(comma_repeated_field.state, ScreenerResultState::Failed);
    assert!(
        comma_repeated_field
            .availability_reason
            .contains("Multiple")
    );
    request.natural_language = "RSI fewer than 70".into();
    let fewer = screen(&request, &[], FIXTURE_TIMESTAMP, false).unwrap();
    assert_eq!(
        fewer.filter_spec.unwrap().predicates[0].operator,
        ScreenerOperator::LessThan
    );
    request.natural_language = "RSI around 70".into();
    let around = screen(&request, &[], FIXTURE_TIMESTAMP, false).unwrap();
    assert!(around.availability_reason.contains("Unsupported operator"));
    request.natural_language = "RSI <= 70".into();
    let less_or_equal = screen(&request, &[], FIXTURE_TIMESTAMP, false).unwrap();
    assert_eq!(
        less_or_equal.filter_spec.unwrap().predicates[0].operator,
        ScreenerOperator::LessOrEqual
    );
    request.natural_language = "RSI near 70".into();
    let near = screen(&request, &[], FIXTURE_TIMESTAMP, false).unwrap();
    assert!(near.availability_reason.contains("Unsupported operator"));
    request.natural_language = "Find small-cap technology stocks with RSI below 70.".into();
    let small_cap = screen(&request, &[], FIXTURE_TIMESTAMP, false).unwrap();
    assert_eq!(small_cap.state, ScreenerResultState::Failed);
    assert!(
        small_cap
            .availability_reason
            .contains("Unsupported universe")
    );
    request.natural_language = "Find European technology stocks with RSI below 70.".into();
    let european = screen(&request, &[], FIXTURE_TIMESTAMP, false).unwrap();
    assert_eq!(european.state, ScreenerResultState::Failed);
    assert!(
        european
            .availability_reason
            .contains("Unsupported universe")
    );
    for universe in [
        "Find biotech stocks with RSI below 70.",
        "Find biotechnology stocks with RSI below 70.",
        "Find health-care stocks with RSI below 70.",
        "Find semiconductor stocks with RSI below 70.",
        "Find semiconductors stocks with RSI below 70.",
        "Find software stocks with RSI below 70.",
        "Find Japanese stocks with RSI below 70.",
    ] {
        request.natural_language = universe.into();
        let unsupported = screen(&request, &[], FIXTURE_TIMESTAMP, false).unwrap();
        assert_eq!(unsupported.state, ScreenerResultState::Failed);
        assert!(
            unsupported
                .availability_reason
                .contains("Unsupported universe")
        );
    }
    request.natural_language = "Find stocks with RSI below 70, rank by valuation.".into();
    let valuation = screen(&request, &[], FIXTURE_TIMESTAMP, false).unwrap();
    assert_eq!(valuation.state, ScreenerResultState::Failed);
    assert!(
        valuation
            .availability_reason
            .contains("Unsupported rank field")
    );
    request.natural_language =
        "Find stocks with RSI below 70, rank by quality randomly.".into();
    let random_direction = screen(&request, &[], FIXTURE_TIMESTAMP, false).unwrap();
    assert_eq!(random_direction.state, ScreenerResultState::Failed);
    assert!(
        random_direction
            .availability_reason
            .contains("Unsupported rank direction")
    );
    request.natural_language =
        "Find stocks with RSI below 70, rank by quality backwards.".into();
    let backwards_direction = screen(&request, &[], FIXTURE_TIMESTAMP, false).unwrap();
    assert_eq!(backwards_direction.state, ScreenerResultState::Failed);
    assert!(
        backwards_direction
            .availability_reason
            .contains("Unsupported rank direction")
    );
    request.natural_language = "Find stocks with RSI below 70, top 10.5.".into();
    let malformed_limit = screen(&request, &[], FIXTURE_TIMESTAMP, false).unwrap();
    assert_eq!(malformed_limit.state, ScreenerResultState::Failed);
    assert!(
        malformed_limit
            .availability_reason
            .contains("Invalid screener limit")
    );
    request.natural_language = "Find stocks with RSI below 70, top 100.".into();
    let over_limit = screen(&request, &[], FIXTURE_TIMESTAMP, false).unwrap();
    assert_eq!(over_limit.state, ScreenerResultState::Failed);
    assert!(
        over_limit
            .availability_reason
            .contains("outside the supported range")
    );
}

#[test]
fn run_cannot_bypass_failed_parse() {
    let mut run = request(ScreenerOperation::Run);
    run.natural_language = "find unusual companies".into();
    let parsed = screen(&run, &[], FIXTURE_TIMESTAMP, true).unwrap();
    run.filter_spec = parsed.filter_spec;
    run.rank_spec = parsed.rank_spec;
    run.revision = parsed.revision;
    let result = screen(&run, &[], FIXTURE_TIMESTAMP, true).unwrap();
    assert_eq!(result.state, ScreenerResultState::Failed);
    assert!(result.candidates.is_empty());
}

#[test]
fn parsed_thresholds_and_conditions_are_exact() {
    let parsed = screen(&request(ScreenerOperation::Parse), &[], FIXTURE_TIMESTAMP, false).unwrap();
    let predicates = parsed.filter_spec.as_ref().unwrap().predicates.clone();
    assert_eq!(predicates[0].threshold, "0.15");
    assert_eq!(predicates[0].operator, ScreenerOperator::GreaterThan);
    assert_eq!(predicates[1].threshold, "0");
    assert_eq!(predicates[2].threshold, "70");
    assert_eq!(predicates[2].operator, ScreenerOperator::LessThan);
    assert_eq!(
        parsed.applied_conditions,
        vec![
            "Universe: UsLargeCapTechnology".to_string(),
            "RevenueGrowth GreaterThan 0.15".to_string(),
            "EstimateRevision GreaterThan 0".to_string(),
            "Rsi LessThan 70".to_string(),
            "Rank: RevisionStrength Desc".to_string(),
            "Limit: 10".to_string(),
        ]
    );
    let revision = parsed.revision.unwrap();
    assert!(revision.starts_with("sha256:"));
    assert_eq!(revision.len(), 71);
    assert_eq!(parsed.received_timestamp, FIXTURE_TIMESTAMP);
}

#[test]
fn default_percentage_threshold_moves_the_point() {
    let mut req = request(ScreenerOperation::Parse);
    req.natural_language = "Find stocks with revenue growth".into();
    let parsed = screen(&req, &[], FIXTURE_TIMESTAMP, false).unwrap();
    assert_eq!(parsed.state, ScreenerResultState::Parsed);
    assert_eq!(parsed.filter_spec.unwrap().predicates[0].threshold, "0.0015");
    req.natural_language = "Find stocks with RSI below 45.5%".into();
    let rsi = screen(&req, &[], FIXTURE_TIMESTAMP, false).unwrap();
    assert_eq!(rsi.filter_spec.unwrap().predicates[0].threshold, "0.455");
}

#[test]
fn missing_threshold_and_bare_numbers_are_reported() {
    let mut req = request(ScreenerOperation::Parse);
    req.natural_language = "Find stocks with RSI below".into();
    let missing = screen(&req, &[], FIXTURE_TIMESTAMP, false).unwrap();
    assert_eq!(missing.availability_reason, "Missing threshold for Rsi.");
    assert_eq!(missing.limitations, vec!["SCREENER_FILTER_UNSUPPORTED: Missing threshold for Rsi.".to_string()]);
    req.natural_language = "Find stocks with RSI 70".into();
    let bare = screen(&req, &[], FIXTURE_TIMESTAMP, false).unwrap();
    assert_eq!(bare.availability_reason, "Unsupported operator for Rsi.");
    req.natural_language = "Find stocks with RSI below 70, top 0".into();
    let zero = screen(&req, &[], FIXTURE_TIMESTAMP, false).unwrap();
    assert_eq!(zero.availability_reason, "Screener limit 0 is outside the supported range 1–50.");
    req.natural_language = "Find stocks with RSI below 70, top".into();
    let no_limit = screen(&req, &[], FIXTURE_TIMESTAMP, false).unwrap();
    assert_eq!(no_limit.state, ScreenerResultState::Parsed);
    assert_eq!(no_limit.applied_conditions.last().unwrap(), "Limit: 10");
    req.natural_language = "Find pink stocks with RSI below 70".into();
    let qualifier = screen(&req, &[], FIXTURE_TIMESTAMP, false).unwrap();
    assert_eq!(qualifier.availability_reason, "Unsupported universe qualifier: pink.");
}

#[test]
fn blocked_run_names_the_missing_sources() {
    let parsed = screen(&request(ScreenerOperation::Parse), &[], FIXTURE_TIMESTAMP, false).unwrap();
    let mut run = request(ScreenerOperation::Run);
    run.filter_spec = parsed.filter_spec;
    run.rank_spec = parsed.rank_spec;
    run.revision = parsed.revision;
    let blocked = screen(&run, &[], "2026-09-20T00:00:00Z", false).unwrap();
    assert_eq!(blocked.source_ids, vec!["OD-001".to_string(), "OD-003".to_string()]);
    assert_eq!(
        blocked.availability_reason,
        "Required source(s) unavailable or unverified: OD-001, OD-003."
    );
    assert_eq!(blocked.received_timestamp, "2026-09-20T00:00:00Z");
    let sources = vec![
        source("OD-001", DataSourceStatus::Available),
        source("OD-003", DataSourceStatus::Unverified),
    ];
    let partly = screen(&run, &sources, FIXTURE_TIMESTAMP, false).unwrap();
    assert_eq!(
        partly.availability_reason,
        "Required source(s) unavailable or unverified: OD-003."
    );
    let sources = vec![
        source("OD-001", DataSourceStatus::Available),
        source("OD-003", DataSourceStatus::Available),
    ];
    let none_missing = screen(&run, &sources, FIXTURE_TIMESTAMP, false).unwrap();
    assert_eq!(
        none_missing.availability_reason,
        "Provider screener adapters are not configured; no network request was made."
    );
}

#[test]
fn fixture_run_respects_the_text_limit_and_direction() {
    let mut req = request(ScreenerOperation::Parse);
    req.limit = None;
    req.natural_language = "Find crypto spot assets with RSI below 70, rank by momentum ascending, top 1".into();
    let parsed = screen(&req, &[], FIXTURE_TIMESTAMP, true).unwrap();
    assert_eq!(parsed.state, ScreenerResultState::Parsed);
    let mut run = req.clone();
    run.operation = ScreenerOperation::Run;
    run.filter_spec = parsed.filter_spec;
    run.rank_spec = parsed.rank_spec;
    run.revision = parsed.revision;
    let result = screen(&run, &[], FIXTURE_TIMESTAMP, true).unwrap();
    assert_eq!(result.candidate_count, 1);
    assert_eq!(result.candidates[0].symbol, "ETH/USDT");
    assert_eq!(result.candidates[0].rank, 1);
    assert_eq!(result.candidates[0].features.len(), 5);
    assert_eq!(result.received_timestamp, FIXTURE_TIMESTAMP);
    assert_eq!(result.fixture_label.as_deref(), Some("SYNTHETIC_SCREENER_FIXTURE"));
}

#[test]
fn invalid_requests_are_refused() {
    let mut req = request(ScreenerOperation::Parse);
    req.workspace_id = "   ".into();
    assert_eq!(screen(&req, &[], FIXTURE_TIMESTAMP, false).unwrap_err().code, "IPC_PAYLOAD_INVALID");
    let mut req = request(ScreenerOperation::Parse);
    req.limit = Some(51);
    assert_eq!(screen(&req, &[], FIXTURE_TIMESTAMP, false).unwrap_err().code, "IPC_PAYLOAD_INVALID");
    let mut req = request(ScreenerOperation::Parse);
    req.natural_language = "Find stocks with RSI below 1-2".into();
    assert_eq!(screen(&req, &[], FIXTURE_TIMESTAMP, false).unwrap_err().code, "IPC_PAYLOAD_INVALID");
    let mut req = request(ScreenerOperation::Run);
    req.natural_language = "Find stocks with RSI below 70".into();
    assert_eq!(screen(&req, &[], FIXTURE_TIMESTAMP, false).unwrap_err().code, "IPC_PAYLOAD_INVALID");
}

#[test]
fn a_cut_inside_a_character_is_reported_as_none() {
    let mut req = request(ScreenerOperation::Parse);
    req.natural_language = format!("rsi below 70 {}é", "a".repeat(82));
    assert!(screen_checked(&req, &[], FIXTURE_TIMESTAMP, false).is_none());
    let ok = screen_checked(&request(ScreenerOperation::Parse), &[], FIXTURE_TIMESTAMP, false);
    assert_eq!(ok.unwrap().unwrap().state, ScreenerResultState::Parsed);
}

#[test]
fn whole_words_need_separators() {
    let text: Vec<char> = "tech-heavy technology".chars().collect();
    assert!(has_word(&text, "tech"));
    assert!(has_word(&text, "technology"));
    assert!(!has_word(&text, "heav"));
    let text: Vec<char> = "biotechnology".chars().collect();
    assert!(!has_word(&text, "tech"));
}

#[test]
fn fixture_runs_echo_the_request_and_keep_rank_order() {
    for text in [
        "Find stocks with RSI below 100, rank by momentum descending",
        "Find stocks with RSI below 100, rank by momentum ascending",
    ] {
        let mut req = request(ScreenerOperation::Parse);
        req.natural_language = text.into();
        let parsed = screen(&req, &[], FIXTURE_TIMESTAMP, true).unwrap();
        let mut run = request(ScreenerOperation::Run);
        run.natural_language = text.into();
        run.filter_spec = parsed.filter_spec.clone();
        run.rank_spec = parsed.rank_spec.clone();
        run.revision = parsed.revision.clone();
        let result = screen(&run, &[], FIXTURE_TIMESTAMP, true).unwrap();
        assert_eq!(result.revision, parsed.revision);
        assert_eq!(result.filter_spec, parsed.filter_spec);
        assert_eq!(result.rank_spec, parsed.rank_spec);
        assert_eq!(result.candidate_count as usize, result.candidates.len());
        assert!(!result.candidates.is_empty());
        let momentum: Vec<f64> = result
            .candidates
            .iter()
            .map(|c| {
                c.features
                    .iter()
                    .find(|f| f.field == tradex::protocol::ScreenerFeatureField::Momentum)
                    .unwrap()
                    .value
                    .parse::<f64>()
                    .unwrap()
            })
            .collect();
        for (i, c) in result.candidates.iter().enumerate() {
            assert_eq!(c.rank as usize, i + 1);
        }
        for pair in momentum.windows(2) {
            if text.ends_with("descending") {
                assert!(pair[0] >= pair[1]);
            } else {
                assert!(pair[0] <= pair[1]);
            }
        }
    }
}
