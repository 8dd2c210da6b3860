//! Tests of the account selection and request-data helpers.

use descrambler::accounts::{
    common_data_hashmap, make_amap_client, select_single_account, u64_to_decimal, AMAPIError,
    AMConfig, AccountRecord, Implementations, SJConfig, SJConstants, SJMode,
};

fn records(ids: &[&str]) -> Vec<AccountRecord> {
    ids.iter().map(|id| AccountRecord { id: (*id).to_string() }).collect()
}

fn constants() -> SJConstants {
    SJConstants {
        device_id: "4".to_string(),
        app_ver: "35".to_string(),
        lib_version: "9".to_string(),
        data_app_id: "app_id".to_string(),
        data_version_code: "version_code".to_string(),
        vm_app_id: "1".to_string(),
        sj_app_id: "3".to_string(),
    }
}

#[test]
fn requested_account_wins() {
    let configs = records(&["aa", "bb", "cc"]);
    let id = "bb".to_string();
    assert_eq!(select_single_account(Some(&id), &configs, None), Some(1));
}

#[test]
fn missing_request_falls_back_to_pick() {
    let configs = records(&["aa", "bb", "cc"]);
    let id = "zz".to_string();
    let pick = "cc".to_string();
    assert_eq!(select_single_account(Some(&id), &configs, Some(&pick)), Some(2));
}

#[test]
fn no_accounts_gives_nothing() {
    assert_eq!(select_single_account(None, &records(&[]), None), None);
}

#[test]
fn single_account_is_taken_without_asking() {
    assert_eq!(select_single_account(None, &records(&["only"]), None), Some(0));
}

#[test]
fn several_accounts_follow_the_pick() {
    let configs = records(&["aa", "bb"]);
    let pick = "aa".to_string();
    assert_eq!(select_single_account(None, &configs, Some(&pick)), Some(0));
    assert_eq!(select_single_account(None, &configs, None), None);
}

#[test]
fn decimal_rendering() {
    assert_eq!(u64_to_decimal(0), "0");
    assert_eq!(u64_to_decimal(7), "7");
    assert_eq!(u64_to_decimal(1234567890), "1234567890");
    assert_eq!(u64_to_decimal(u64::MAX), "18446744073709551615");
}

#[test]
fn amap_client_wraps_the_config() {
    let config = AMConfig {
        token: "123".to_string(),
        identifier: "abcxyz".to_string(),
        session_v2: "xyz987abc".to_string(),
    };
    let client = make_amap_client(&config);
    assert_eq!(client.config.token, "123");
    assert_eq!(client.config.identifier, "abcxyz");
    assert_eq!(client.config.session_v2, "xyz987abc");
}

#[test]
fn amap_error_message() {
    let err = AMAPIError { message: "no session".to_string() };
    assert_eq!(err.to_message(), "An error occurred: no session");
}

#[test]
fn implementations_are_distinct() {
    assert!(Implementations::Kmkc != Implementations::Musq);
}

#[test]
fn common_data_with_session() {
    let config = SJConfig {
        user_id: 123,
        token: "jwt".to_string(),
        instance: "inst".to_string(),
    };
    let fresh = "unused".to_string();
    let data = common_data_hashmap(&constants(), &SJMode::VM, Some(&config), &fresh);
    let expected: Vec<(String, String)> = vec![
        ("trust_user_jwt".to_string(), "jwt".to_string()),
        ("user_id".to_string(), "123".to_string()),
        ("instance_id".to_string(), "inst".to_string()),
        ("device_token".to_string(), "inst".to_string()),
        ("device_id".to_string(), "4".to_string()),
        ("version".to_string(), "9".to_string()),
        ("app_id".to_string(), "1".to_string()),
        ("version_code".to_string(), "35".to_string()),
    ];
    assert_eq!(data, expected);
}

#[test]
fn common_data_without_session_uses_fresh_instance() {
    let fresh = "fresh-token".to_string();
    let data = common_data_hashmap(&constants(), &SJMode::SJ, None, &fresh);
    let expected: Vec<(String, String)> = vec![
        ("instance_id".to_string(), "fresh-token".to_string()),
        ("device_id".to_string(), "4".to_string()),
        ("version".to_string(), "9".to_string()),
        ("app_id".to_string(), "3".to_string()),
        ("version_code".to_string(), "35".to_string()),
    ];
    assert_eq!(data, expected);
}
