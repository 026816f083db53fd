use wallet_check::db::DbClient;
use wallet_check::models::AIPredictionResponse;
use wallet_check::pipeline::{
    begin_check, begin_check_at, complete_check, complete_check_at, prediction_request,
    CheckError, PredictionOutcome,
};
use wallet_check::subnet::get_subnet_stats;

const ETH: &str = "0xabcdef0123456789abcdef0123456789abcdef01";

fn low_verdict() -> PredictionOutcome {
    PredictionOutcome::Verdict(AIPredictionResponse {
        risk_level: "Low".to_string(),
        reason: "clean history".to_string(),
        ipc_specific_flags: None,
    })
}

#[test]
fn plain_address_end_to_end() {
    let mut db = DbClient::new();
    let pending = begin_check_at(&mut db, ETH, 1000).unwrap();
    assert_eq!(pending.address, ETH);
    assert_eq!(pending.subnet_id, None);

    let payload = prediction_request(&pending);
    assert_eq!(payload.address, ETH);
    assert_eq!(payload.subnet_id, None);

    let response = complete_check_at(&mut db, pending, low_verdict(), 2000).unwrap();
    assert_eq!(response.address, ETH);
    assert_eq!(response.subnet_id, None);
    assert_eq!(response.timestamp, 2000);
    assert_eq!(response.risk_level, "Low");
    assert_eq!(response.reason, "clean history");
    assert_eq!(response.ipc_specific_flags, None);

    let recent = db.get_recent_checks(1);
    assert_eq!(recent.len(), 1);
    assert_eq!(recent[0].risk_level.as_deref(), Some("Low"));
    assert_eq!(recent[0].reason.as_deref(), Some("clean history"));
    assert_eq!(recent[0].ipc_specific_flags, None);
}

#[test]
fn composite_address_records_subnet_and_stats_are_stable() {
    let mut db = DbClient::new();
    let composite = format!("subnet42/{}", ETH);
    let pending = begin_check_at(&mut db, &composite, 1000).unwrap();
    assert_eq!(pending.subnet_id.as_deref(), Some("subnet42"));

    complete_check_at(&mut db, pending, low_verdict(), 2000).unwrap();
    let recent = db.get_recent_checks(1);
    assert_eq!(recent[0].address, composite);
    assert_eq!(recent[0].subnet_id.as_deref(), Some("subnet42"));

    let first = get_subnet_stats("subnet42");
    let second = get_subnet_stats("subnet42");
    assert_eq!(first.total_addresses, second.total_addresses);
    assert_eq!(first.active_validators, second.active_validators);
    assert_eq!(first.cross_subnet_txs, second.cross_subnet_txs);
    assert_eq!(first.risk_score, second.risk_score);
}

#[test]
fn invalid_address_answers_400_and_writes_nothing() {
    let mut db = DbClient::new();
    let outcome = begin_check_at(&mut db, "not-an-address", 1000);
    match outcome {
        Err(e) => {
            assert!(matches!(e, CheckError::InvalidAddress));
            assert_eq!(e.status_code(), 400);
        },
        Ok(_) => panic!("invalid address accepted"),
    }
    assert_eq!(db.record_count(), 0);
}

#[test]
fn rejected_service_answers_500_and_leaves_one_pending_orphan() {
    let mut db = DbClient::new();
    let pending = begin_check_at(&mut db, ETH, 1000).unwrap();
    let outcome = complete_check_at(&mut db, pending, PredictionOutcome::ServiceRejected, 2000);
    match outcome {
        Err(e) => {
            assert!(matches!(e, CheckError::ServiceRejected));
            assert_eq!(e.status_code(), 500);
        },
        Ok(_) => panic!("rejected service answered a verdict"),
    }
    assert_eq!(db.record_count(), 1);
    let recent = db.get_recent_checks(1);
    assert_eq!(recent[0].address, ETH);
    assert_eq!(recent[0].risk_level, None);
    assert_eq!(recent[0].reason, None);
    assert_eq!(recent[0].ipc_specific_flags, None);
}

#[test]
fn unreachable_and_malformed_are_distinct_server_faults() {
    let mut db = DbClient::new();
    let pending = begin_check_at(&mut db, ETH, 1000).unwrap();
    let err = complete_check_at(&mut db, pending, PredictionOutcome::ServiceUnreachable, 2000)
        .unwrap_err();
    assert!(matches!(err, CheckError::ServiceUnreachable));
    assert_eq!(err.status_code(), 500);

    let pending = begin_check_at(&mut db, ETH, 3000).unwrap();
    let err = complete_check_at(&mut db, pending, PredictionOutcome::MalformedResponse, 4000)
        .unwrap_err();
    assert!(matches!(err, CheckError::MalformedResponse));
    assert_eq!(err.status_code(), 500);

    // both checks stayed pending
    assert_eq!(db.record_count(), 2);
    for record in db.get_recent_checks(10) {
        assert_eq!(record.risk_level, None);
    }
}

#[test]
fn empty_flag_list_from_service_renders_absent_in_store() {
    let mut db = DbClient::new();
    let pending = begin_check_at(&mut db, ETH, 1000).unwrap();
    let verdict = PredictionOutcome::Verdict(AIPredictionResponse {
        risk_level: "Medium".to_string(),
        reason: "thin history".to_string(),
        ipc_specific_flags: Some(vec![]),
    });
    complete_check_at(&mut db, pending, verdict, 2000).unwrap();
    let recent = db.get_recent_checks(1);
    assert_eq!(recent[0].risk_level.as_deref(), Some("Medium"));
    assert_eq!(recent[0].ipc_specific_flags, None);
}

#[test]
fn clock_stamped_pipeline_works_end_to_end() {
    let mut db = DbClient::new();
    let pending = begin_check(&mut db, ETH).unwrap();
    let response = complete_check(&mut db, pending, low_verdict()).unwrap();
    assert_eq!(response.address, ETH);
    assert_eq!(response.risk_level, "Low");
    assert_eq!(db.record_count(), 1);
    let recent = db.get_recent_checks(1);
    assert_eq!(recent[0].risk_level.as_deref(), Some("Low"));
}

#[test]
fn status_codes_by_error_kind() {
    assert_eq!(CheckError::InvalidAddress.status_code(), 400);
    assert_eq!(CheckError::StoreFault.status_code(), 500);
    assert_eq!(CheckError::ServiceUnreachable.status_code(), 500);
    assert_eq!(CheckError::ServiceRejected.status_code(), 500);
    assert_eq!(CheckError::MalformedResponse.status_code(), 500);
}
