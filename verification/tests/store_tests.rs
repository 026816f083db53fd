use wallet_check::db::{DbClient, DEFAULT_RECENT_LIMIT};
use wallet_check::models::WalletCheck;

const ETH: &str = "0xabcdef0123456789abcdef0123456789abcdef01";

#[test]
fn create_then_reconcile_reflects_verdict() {
    let mut db = DbClient::new();
    let record = WalletCheck::new_at(ETH.to_string(), None, 100);
    db.insert_wallet_check(record).unwrap();
    db.update_wallet_check(ETH, "Low", "clean history", Some(vec!["flag-a".to_string()]))
        .unwrap();

    let recent = db.get_recent_checks(1);
    assert_eq!(recent.len(), 1);
    assert_eq!(recent[0].address, ETH);
    assert_eq!(recent[0].risk_level.as_deref(), Some("Low"));
    assert_eq!(recent[0].reason.as_deref(), Some("clean history"));
    assert_eq!(recent[0].ipc_specific_flags, Some(vec!["flag-a".to_string()]));
    assert_eq!(recent[0].timestamp, 100);
    assert!(recent[0].id.is_some());
}

#[test]
fn empty_flag_list_renders_absent() {
    let mut db = DbClient::new();
    db.insert_wallet_check(WalletCheck::new_at(ETH.to_string(), None, 100)).unwrap();
    db.update_wallet_check(ETH, "Low", "clean history", Some(vec![])).unwrap();

    let recent = db.get_recent_checks(1);
    assert_eq!(recent[0].risk_level.as_deref(), Some("Low"));
    assert_eq!(recent[0].ipc_specific_flags, None);
}

#[test]
fn reconcile_without_flags_keeps_stored_flags() {
    let mut db = DbClient::new();
    db.insert_wallet_check(WalletCheck::new_at(ETH.to_string(), None, 100)).unwrap();
    db.update_wallet_check(ETH, "Low", "clean history", Some(vec!["flag-a".to_string()]))
        .unwrap();
    // a second reconcile of the same record without a flag list: the verdict
    // fields change, the stored flags are not modified
    db.update_wallet_check(ETH, "High", "new evidence", None).unwrap();

    let recent = db.get_recent_checks(1);
    assert_eq!(recent[0].risk_level.as_deref(), Some("High"));
    assert_eq!(recent[0].reason.as_deref(), Some("new evidence"));
    assert_eq!(recent[0].ipc_specific_flags, Some(vec!["flag-a".to_string()]));
}

#[test]
fn given_empty_flag_list_clears_stored_flags_to_absent() {
    let mut db = DbClient::new();
    let record = WalletCheck {
        id: None,
        address: ETH.to_string(),
        subnet_id: None,
        timestamp: 100,
        risk_level: None,
        reason: None,
        ipc_specific_flags: Some(vec!["flag-a".to_string()]),
    };
    db.insert_wallet_check(record).unwrap();
    // an explicitly given empty list is a given value: normalized to absent
    db.update_wallet_check(ETH, "Low", "clean history", Some(vec![])).unwrap();

    let recent = db.get_recent_checks(1);
    assert_eq!(recent[0].risk_level.as_deref(), Some("Low"));
    assert_eq!(recent[0].ipc_specific_flags, None);
}

#[test]
fn reconcile_with_no_match_is_a_no_op() {
    let mut db = DbClient::new();
    let outcome = db.update_wallet_check(ETH, "Low", "clean history", None);
    assert!(outcome.is_ok());
    assert_eq!(db.record_count(), 0);

    db.insert_wallet_check(WalletCheck::new_at("other".to_string(), None, 5)).unwrap();
    db.update_wallet_check(ETH, "Low", "clean history", None).unwrap();
    let recent = db.get_recent_checks(10);
    assert_eq!(recent.len(), 1);
    assert_eq!(recent[0].risk_level, None);
    assert_eq!(recent[0].reason, None);
}

#[test]
fn reconcile_picks_most_recent_record_for_address() {
    let mut db = DbClient::new();
    db.insert_wallet_check(WalletCheck::new_at(ETH.to_string(), None, 100)).unwrap();
    db.insert_wallet_check(WalletCheck::new_at(ETH.to_string(), None, 200)).unwrap();
    db.update_wallet_check(ETH, "High", "sanctioned counterparty", None).unwrap();

    let recent = db.get_recent_checks(2);
    assert_eq!(recent.len(), 2);
    // most recent first: the newer record carries the verdict
    assert_eq!(recent[0].timestamp, 200);
    assert_eq!(recent[0].risk_level.as_deref(), Some("High"));
    // the older record stays pending
    assert_eq!(recent[1].timestamp, 100);
    assert_eq!(recent[1].risk_level, None);
}

#[test]
fn recent_checks_ordered_descending_and_truncated() {
    let mut db = DbClient::new();
    db.insert_wallet_check(WalletCheck::new_at("a".to_string(), None, 1)).unwrap();
    db.insert_wallet_check(WalletCheck::new_at("b".to_string(), None, 3)).unwrap();
    db.insert_wallet_check(WalletCheck::new_at("c".to_string(), None, 2)).unwrap();

    let recent = db.get_recent_checks(2);
    assert_eq!(recent.len(), 2);
    assert_eq!(recent[0].address, "b");
    assert_eq!(recent[1].address, "c");

    let all = db.get_recent_checks(10);
    assert_eq!(all.len(), 3);
    assert_eq!(all[2].address, "a");

    assert_eq!(db.get_recent_checks(0).len(), 0);
    assert_eq!(db.get_recent_checks(-3).len(), 0);
    assert_eq!(db.get_recent_checks(DEFAULT_RECENT_LIMIT).len(), 3);
}

#[test]
fn insertion_keeps_timestamp_order_with_ties_by_arrival() {
    let mut db = DbClient::new();
    db.insert_wallet_check(WalletCheck::new_at("late".to_string(), None, 200)).unwrap();
    db.insert_wallet_check(WalletCheck::new_at("early".to_string(), None, 100)).unwrap();
    db.insert_wallet_check(WalletCheck::new_at("tie-one".to_string(), None, 200)).unwrap();

    let all = db.get_recent_checks(10);
    assert_eq!(all.len(), 3);
    // descending by timestamp; of the tied pair the later-inserted comes first
    assert_eq!(all[0].address, "tie-one");
    assert_eq!(all[1].address, "late");
    assert_eq!(all[2].address, "early");
}
