use piapi::config::{load_app_config, ConfigError};
use piapi::gate::{auth_checker, AuthDecision};
use piapi::record::{LoadError, PiApiToken};
use piapi::startup::{refresh_kv_apikeys, StartupError, StoreFailure};

fn some(x: &str) -> Option<String> {
    Some(x.to_string())
}

#[test]
fn zero_rows_start_with_empty_cache() {
    let cache = refresh_kv_apikeys(Ok(vec![])).unwrap();
    assert!(cache.is_empty());
    assert_eq!(cache.len(), 0);
    assert!(matches!(auth_checker(&cache, some("abc123")), AuthDecision::Rejected(_)));
}

#[test]
fn unreachable_store_is_fatal() {
    let e = refresh_kv_apikeys(Err(StoreFailure::Unreachable)).err().unwrap();
    assert_eq!(e, StartupError::StoreUnreachable);
    assert_eq!(e.exit_code(), 6);
}

#[test]
fn failed_query_is_fatal() {
    let e = refresh_kv_apikeys(Err(StoreFailure::QueryFailed)).err().unwrap();
    assert_eq!(e, StartupError::QueryFailed);
    assert_eq!(e.exit_code(), 7);
}

#[test]
fn undecodable_row_is_fatal() {
    let rows = vec![PiApiToken { id: 1, userid: 2, keyval: vec![0xff], secretval: vec![], permlevel: 0, rate_limited: 0 }];
    let e = refresh_kv_apikeys(Ok(rows)).err().unwrap();
    assert_eq!(e, StartupError::Decode(LoadError::KeyNotUtf8(0)));
    assert_eq!(e.exit_code(), 7);
}

#[test]
fn rows_load_into_ready_cache() {
    let rows = vec![PiApiToken { id: 1, userid: 2, keyval: b"abc123".to_vec(), secretval: b"s".to_vec(), permlevel: 0, rate_limited: 0 }];
    let cache = refresh_kv_apikeys(Ok(rows)).unwrap();
    assert!(matches!(auth_checker(&cache, some("abc123")), AuthDecision::Authorized(_)));
}

#[test]
fn config_requires_every_setting() {
    let cfg = load_app_config(some("h"), some("3306"), some("db"), some("u"), some("p")).unwrap();
    assert_eq!(cfg.db_host, "h");
    assert_eq!(cfg.db_password, "p");
    assert_eq!(load_app_config(None, some("3306"), some("db"), some("u"), some("p")).err(), Some(ConfigError::MissingHost));
    assert_eq!(load_app_config(some("h"), some(""), some("db"), some("u"), some("p")).err(), Some(ConfigError::MissingPort));
    assert_eq!(load_app_config(some("h"), some("3306"), None, None, None).err(), Some(ConfigError::MissingName));
    assert_eq!(load_app_config(some("h"), some("3306"), some("db"), None, some("p")).err(), Some(ConfigError::MissingUser));
    assert_eq!(load_app_config(some("h"), some("3306"), some("db"), some("u"), Some(String::new())).err(), Some(ConfigError::MissingPassword));
}

#[test]
fn config_exit_codes() {
    assert_eq!(ConfigError::MissingHost.exit_code(), 1);
    assert_eq!(ConfigError::MissingPort.exit_code(), 2);
    assert_eq!(ConfigError::MissingName.exit_code(), 3);
    assert_eq!(ConfigError::MissingUser.exit_code(), 4);
    assert_eq!(ConfigError::MissingPassword.exit_code(), 5);
    assert_eq!(StartupError::Config(ConfigError::MissingUser).exit_code(), 4);
}

#[test]
fn connection_url_layout() {
    let cfg = load_app_config(some("db.local"), some("3306"), some("piapi"), some("admin"), some("pw")).unwrap();
    assert_eq!(cfg.connection_url(), "mysql://admin:pw@db.local:3306/piapi");
}
