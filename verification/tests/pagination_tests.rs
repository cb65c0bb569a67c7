use ica_registry::query;
use ica_registry::registry::Registry;

fn traces_registry(keys: &[&str]) -> Registry {
    let mut reg = Registry::new();
    for k in keys {
        reg.save_denom_trace(&k.to_string(), &format!("trace-{k}")).unwrap();
    }
    reg
}

fn trace_keys(reg: &Registry, start_after: Option<&str>, limit: Option<u32>) -> Vec<String> {
    query::denom_traces(reg, start_after.map(|s| s.to_string()), limit)
        .unwrap()
        .into_iter()
        .map(|e| e.denom)
        .collect()
}

#[test]
fn paginate_all_from_start() {
    let reg = traces_registry(&["d", "b", "a", "c"]);
    assert_eq!(trace_keys(&reg, None, None), vec!["a", "b", "c", "d"]);
}

#[test]
fn paginate_starts_strictly_after_cursor() {
    let reg = traces_registry(&["a", "b", "c", "d"]);
    assert_eq!(trace_keys(&reg, Some("b"), None), vec!["c", "d"]);
}

#[test]
fn paginate_cursor_need_not_exist() {
    let reg = traces_registry(&["a", "b", "d"]);
    assert_eq!(trace_keys(&reg, Some("c"), None), vec!["d"]);
}

#[test]
fn paginate_applies_limit() {
    let reg = traces_registry(&["a", "b", "c", "d"]);
    assert_eq!(trace_keys(&reg, Some("b"), Some(1)), vec!["c"]);
}

#[test]
fn paginate_limit_zero_returns_empty_page() {
    let reg = traces_registry(&["a", "b", "c", "d"]);
    assert_eq!(trace_keys(&reg, None, Some(0)), Vec::<String>::new());
}

#[test]
fn paginate_carries_values_with_keys() {
    let reg = traces_registry(&["b", "a"]);
    let page = query::denom_traces(&reg, None, None).unwrap();
    assert_eq!(page[0].denom, "a");
    assert_eq!(page[0].trace, "trace-a");
    assert_eq!(page[1].denom, "b");
    assert_eq!(page[1].trace, "trace-b");
}

#[test]
fn paginate_default_cap_is_thirty() {
    let mut reg = Registry::new();
    for i in 0..35 {
        let key = format!("k{i:02}");
        reg.save_denom_trace(&key, &"t".to_string()).unwrap();
    }
    let page = query::denom_traces(&reg, None, None).unwrap();
    assert_eq!(page.len(), 30);
    assert_eq!(page[0].denom, "k00");
    assert_eq!(page[29].denom, "k29");
}

#[test]
fn paginate_next_page_continues_after_last_key() {
    let reg = traces_registry(&["a", "b", "c", "d", "e"]);
    let first = trace_keys(&reg, None, Some(2));
    assert_eq!(first, vec!["a", "b"]);
    let second = trace_keys(&reg, Some(first.last().unwrap()), Some(2));
    assert_eq!(second, vec!["c", "d"]);
    let third = trace_keys(&reg, Some(second.last().unwrap()), Some(2));
    assert_eq!(third, vec!["e"]);
}

#[test]
fn active_channels_paginate_in_key_order() {
    let mut reg = Registry::new();
    reg.save_active_channel(&"connection-2".to_string(), &"channel-b".to_string())
        .unwrap();
    reg.save_active_channel(&"connection-0".to_string(), &"channel-a".to_string())
        .unwrap();
    let page = query::active_channels(&reg, None, None).unwrap();
    assert_eq!(page.len(), 2);
    assert_eq!(page[0].connection_id, "connection-0");
    assert_eq!(page[0].channel_id, "channel-a");
    assert_eq!(page[1].connection_id, "connection-2");
    assert_eq!(page[1].channel_id, "channel-b");
}

#[test]
fn accounts_paginate_by_connection_then_controller() {
    let mut reg = Registry::new();
    reg.save_account(&"conn2".to_string(), &"alice".to_string(), &"a3".to_string())
        .unwrap();
    reg.save_account(&"conn1".to_string(), &"bob".to_string(), &"a2".to_string())
        .unwrap();
    reg.save_account(&"conn1".to_string(), &"alice".to_string(), &"a1".to_string())
        .unwrap();
    let page = query::accounts(&reg, None, None).unwrap();
    let keys: Vec<(String, String)> = page
        .iter()
        .map(|e| (e.connection_id.clone(), e.controller.clone()))
        .collect();
    assert_eq!(
        keys,
        vec![
            ("conn1".to_string(), "alice".to_string()),
            ("conn1".to_string(), "bob".to_string()),
            ("conn2".to_string(), "alice".to_string()),
        ]
    );
    assert_eq!(page[0].address, "a1");
}

#[test]
fn accounts_order_ignores_connection_id_length() {
    let mut reg = Registry::new();
    reg.save_account(&"b".to_string(), &"x".to_string(), &"addr-b".to_string())
        .unwrap();
    reg.save_account(&"ab".to_string(), &"x".to_string(), &"addr-ab".to_string())
        .unwrap();
    let page = query::accounts(&reg, None, None).unwrap();
    assert_eq!(page.len(), 2);
    assert_eq!(page[0].connection_id, "ab");
    assert_eq!(page[0].address, "addr-ab");
    assert_eq!(page[1].connection_id, "b");
    assert_eq!(page[1].address, "addr-b");
}

#[test]
fn accounts_paginate_with_composite_cursor() {
    let mut reg = Registry::new();
    reg.save_account(&"conn1".to_string(), &"alice".to_string(), &"a1".to_string())
        .unwrap();
    reg.save_account(&"conn1".to_string(), &"bob".to_string(), &"a2".to_string())
        .unwrap();
    reg.save_account(&"conn2".to_string(), &"alice".to_string(), &"a3".to_string())
        .unwrap();
    let page = query::accounts(
        &reg,
        Some(("conn1".to_string(), "alice".to_string())),
        None,
    )
    .unwrap();
    assert_eq!(page.len(), 2);
    assert_eq!(page[0].connection_id, "conn1");
    assert_eq!(page[0].controller, "bob");
    assert_eq!(page[1].connection_id, "conn2");
    assert_eq!(page[1].controller, "alice");
}

#[test]
fn accounts_paginate_applies_limit() {
    let mut reg = Registry::new();
    reg.save_account(&"conn1".to_string(), &"alice".to_string(), &"a1".to_string())
        .unwrap();
    reg.save_account(&"conn1".to_string(), &"bob".to_string(), &"a2".to_string())
        .unwrap();
    let page = query::accounts(&reg, None, Some(1)).unwrap();
    assert_eq!(page.len(), 1);
    assert_eq!(page[0].controller, "alice");
}

#[test]
fn paginate_empty_registry_returns_empty_page() {
    let reg = Registry::new();
    assert!(query::denom_traces(&reg, None, None).unwrap().is_empty());
    assert!(query::active_channels(&reg, None, None).unwrap().is_empty());
    assert!(query::accounts(&reg, None, None).unwrap().is_empty());
}
