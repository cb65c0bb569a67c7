use ica_registry::errors::Error;
use ica_registry::query;
use ica_registry::registry::Registry;

#[test]
fn fresh_registry_has_no_config() {
    let reg = Registry::new();
    assert_eq!(query::config(&reg).unwrap_err(), Error::NotFound);
}

#[test]
fn config_load_after_init_returns_saved_record() {
    let mut reg = Registry::new();
    reg.init_config(42, &"transfer-module".to_string(), 600).unwrap();
    let c = query::config(&reg).unwrap();
    assert_eq!(c.account_code_id, 42);
    assert_eq!(c.transfer, "transfer-module");
    assert_eq!(c.default_timeout_secs, 600);
}

#[test]
fn denom_trace_not_found_before_save() {
    let reg = Registry::new();
    let err = query::denom_trace(&reg, "uibc".to_string()).unwrap_err();
    assert_eq!(err, Error::NotFound);
}

#[test]
fn denom_trace_load_after_save_returns_saved_value() {
    let mut reg = Registry::new();
    reg.save_denom_trace(&"uibc".to_string(), &"transfer/channel-7/uatom".to_string())
        .unwrap();
    let resp = query::denom_trace(&reg, "uibc".to_string()).unwrap();
    assert_eq!(resp.denom, "uibc");
    assert_eq!(resp.trace, "transfer/channel-7/uatom");
}

#[test]
fn denom_trace_save_overwrites() {
    let mut reg = Registry::new();
    reg.save_denom_trace(&"d".to_string(), &"old-trace".to_string()).unwrap();
    reg.save_denom_trace(&"d".to_string(), &"new-trace".to_string()).unwrap();
    let resp = query::denom_trace(&reg, "d".to_string()).unwrap();
    assert_eq!(resp.trace, "new-trace");
}

#[test]
fn active_channel_not_found_before_save() {
    let reg = Registry::new();
    let err = query::active_channel(&reg, "connection-0".to_string()).unwrap_err();
    assert_eq!(err, Error::NotFound);
}

#[test]
fn active_channel_load_after_save_returns_saved_value() {
    let mut reg = Registry::new();
    reg.save_active_channel(&"connection-0".to_string(), &"channel-3".to_string())
        .unwrap();
    let resp = query::active_channel(&reg, "connection-0".to_string()).unwrap();
    assert_eq!(resp.connection_id, "connection-0");
    assert_eq!(resp.channel_id, "channel-3");
}

#[test]
fn active_channel_overwrite_supersedes_stale_entry() {
    let mut reg = Registry::new();
    reg.save_active_channel(&"connection-0".to_string(), &"channel-3".to_string())
        .unwrap();
    reg.save_active_channel(&"connection-0".to_string(), &"channel-9".to_string())
        .unwrap();
    let resp = query::active_channel(&reg, "connection-0".to_string()).unwrap();
    assert_eq!(resp.channel_id, "channel-9");
}

#[test]
fn account_not_found_before_save() {
    let reg = Registry::new();
    let err = query::account(&reg, "connection-0".to_string(), "alice".to_string())
        .unwrap_err();
    assert_eq!(err, Error::NotFound);
}

#[test]
fn account_load_after_save_returns_saved_value() {
    let mut reg = Registry::new();
    reg.save_account(
        &"connection-0".to_string(),
        &"alice".to_string(),
        &"osmo1accountaddr".to_string(),
    )
    .unwrap();
    let resp = query::account(&reg, "connection-0".to_string(), "alice".to_string()).unwrap();
    assert_eq!(resp.connection_id, "connection-0");
    assert_eq!(resp.controller, "alice");
    assert_eq!(resp.address, "osmo1accountaddr");
}

#[test]
fn account_is_keyed_by_both_components() {
    let mut reg = Registry::new();
    reg.save_account(
        &"connection-0".to_string(),
        &"alice".to_string(),
        &"addr-a".to_string(),
    )
    .unwrap();
    let err = query::account(&reg, "connection-0".to_string(), "bob".to_string()).unwrap_err();
    assert_eq!(err, Error::NotFound);
    let err = query::account(&reg, "connection-1".to_string(), "alice".to_string()).unwrap_err();
    assert_eq!(err, Error::NotFound);
}

#[test]
fn nul_in_connection_id_is_invalid_input() {
    let mut reg = Registry::new();
    let nul_conn = "conn\u{0}ection".to_string();
    let err = reg
        .save_account(&nul_conn, &"alice".to_string(), &"addr".to_string())
        .unwrap_err();
    assert_eq!(err, Error::InvalidInput);
    let err = query::account(&reg, nul_conn.clone(), "alice".to_string()).unwrap_err();
    assert_eq!(err, Error::InvalidInput);
    let err = query::accounts(&reg, Some((nul_conn, "alice".to_string())), None).unwrap_err();
    assert_eq!(err, Error::InvalidInput);
}

#[test]
fn long_connection_id_is_accepted() {
    let mut reg = Registry::new();
    let long_conn = "c".repeat(70_000);
    reg.save_account(&long_conn, &"alice".to_string(), &"addr-long".to_string())
        .unwrap();
    let resp = query::account(&reg, long_conn, "alice".to_string()).unwrap();
    assert_eq!(resp.address, "addr-long");
}

#[test]
fn nul_in_controller_is_accepted() {
    let mut reg = Registry::new();
    let nul_ctrl = "ali\u{0}ce".to_string();
    reg.save_account(&"connection-0".to_string(), &nul_ctrl, &"addr-n".to_string())
        .unwrap();
    let resp = query::account(&reg, "connection-0".to_string(), nul_ctrl).unwrap();
    assert_eq!(resp.address, "addr-n");
}

#[test]
fn registries_do_not_interfere() {
    let mut reg = Registry::new();
    reg.save_denom_trace(&"k".to_string(), &"trace-v".to_string()).unwrap();
    reg.save_active_channel(&"k".to_string(), &"channel-v".to_string()).unwrap();
    reg.save_account(&"k".to_string(), &"k".to_string(), &"account-v".to_string())
        .unwrap();
    reg.init_config(7, &"k".to_string(), 9).unwrap();
    assert_eq!(query::denom_trace(&reg, "k".to_string()).unwrap().trace, "trace-v");
    assert_eq!(
        query::active_channel(&reg, "k".to_string()).unwrap().channel_id,
        "channel-v"
    );
    assert_eq!(
        query::account(&reg, "k".to_string(), "k".to_string()).unwrap().address,
        "account-v"
    );
    assert_eq!(query::config(&reg).unwrap().account_code_id, 7);
}

#[test]
fn config_save_is_an_upsert() {
    let mut reg = Registry::new();
    reg.init_config(1, &"t1".to_string(), 10).unwrap();
    reg.init_config(2, &"t2".to_string(), 20).unwrap();
    let c = query::config(&reg).unwrap();
    assert_eq!(c.account_code_id, 2);
    assert_eq!(c.transfer, "t2");
    assert_eq!(c.default_timeout_secs, 20);
}
