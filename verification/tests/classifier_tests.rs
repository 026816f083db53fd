use wallet_check::ipc::{
    classify, extract_eth_address, extract_subnet_id, is_valid_ipc_address, Classification,
};

const ETH: &str = "0xabcdef0123456789abcdef0123456789abcdef01";

#[test]
fn accepts_valid_plain_address() {
    assert!(is_valid_ipc_address(ETH));
}

#[test]
fn accepts_valid_composite_address() {
    let composite = format!("subnet42/{}", ETH);
    assert!(is_valid_ipc_address(&composite));
}

#[test]
fn accepts_uppercase_hex() {
    assert!(is_valid_ipc_address("0xABCDEF0123456789ABCDEF0123456789ABCDEF01"));
}

#[test]
fn rejects_malformed_strings() {
    assert!(!is_valid_ipc_address(""));
    assert!(!is_valid_ipc_address("not-an-address"));
    // wrong length: 39 hex digits
    assert!(!is_valid_ipc_address("0xabcdef0123456789abcdef0123456789abcdef0"));
    // wrong length: 41 hex digits
    assert!(!is_valid_ipc_address("0xabcdef0123456789abcdef0123456789abcdef012"));
    // missing prefix marker
    assert!(!is_valid_ipc_address("00abcdef0123456789abcdef0123456789abcdef01"));
    // non-hex character
    assert!(!is_valid_ipc_address("0xabcdef0123456789abcdef0123456789abcdefg1"));
}

#[test]
fn rejects_malformed_separators() {
    // empty subnet identifier
    assert!(!is_valid_ipc_address(&format!("/{}", ETH)));
    // separator inside the subnet identifier
    assert!(!is_valid_ipc_address(&format!("a/b/{}", ETH)));
    // wrong separator character
    assert!(!is_valid_ipc_address(&format!("subnet42|{}", ETH)));
    // separator but invalid bare part
    assert!(!is_valid_ipc_address("subnet42/0xabcdef0123456789abcdef0123456789abcdefg1"));
}

#[test]
fn classify_plain_round_trips_bare_identifier() {
    match classify(ETH) {
        Classification::Plain { eth_address } => assert_eq!(eth_address, ETH),
        _ => panic!("plain address misclassified"),
    }
}

#[test]
fn classify_composite_round_trips_both_parts() {
    let composite = format!("subnet42/{}", ETH);
    match classify(&composite) {
        Classification::Composite { subnet_id, eth_address } => {
            assert_eq!(subnet_id, "subnet42");
            assert_eq!(eth_address, ETH);
        },
        _ => panic!("composite address misclassified"),
    }
}

#[test]
fn classify_invalid_is_invalid() {
    assert!(matches!(classify("not-an-address"), Classification::Invalid));
    assert!(matches!(classify(""), Classification::Invalid));
}

#[test]
fn extract_subnet_id_only_on_composite() {
    assert_eq!(extract_subnet_id(ETH), None);
    assert_eq!(
        extract_subnet_id(&format!("subnet42/{}", ETH)),
        Some("subnet42".to_string())
    );
    assert_eq!(extract_subnet_id("not-an-address"), None);
}

#[test]
fn extract_eth_address_on_both_valid_forms() {
    assert_eq!(extract_eth_address(ETH), Some(ETH.to_string()));
    assert_eq!(
        extract_eth_address(&format!("subnet42/{}", ETH)),
        Some(ETH.to_string())
    );
    assert_eq!(extract_eth_address("not-an-address"), None);
}
