use workorder::config::Config;
use workorder::store::{ApprovalStore, ConsumeResult};

fn sample_config(title: &str) -> Config {
    Config {
        access_key_id: "AKID".to_string(),
        access_key_secret: "testsecret".to_string(),
        endpoint: "workorder.aliyuncs.com".to_string(),
        api_version: "2021-06-10".to_string(),
        product_id: 0,
        category_id: 0,
        ticket_title: title.to_string(),
        ticket_description: "desc".to_string(),
        cron_expression: "0 0 9 * * *".to_string(),
        speed_threshold_centi_mbps: 2000,
        feishu_webhook_url: None,
        callback_url: Some("https://example.com/ticket".to_string()),
        callback_port: 9876,
        callback_secret: None,
        telegram_bot_token: None,
        telegram_chat_id: None,
        auto_submit: false,
    }
}

#[test]
fn unknown_token_yields_nothing() {
    let mut store = ApprovalStore::new();
    assert!(matches!(
        store.consume("unknown-token"),
        ConsumeResult::UnknownToken
    ));
}

#[test]
fn consume_returns_snapshot_exactly_once() {
    let mut store = ApprovalStore::new();
    let token = store.register(sample_config("incident one"));
    match store.consume(token.as_str()) {
        ConsumeResult::Approved(cfg) => assert_eq!(cfg.ticket_title, "incident one"),
        _ => panic!("first consume must return the snapshot"),
    }
    assert!(matches!(
        store.consume(token.as_str()),
        ConsumeResult::AlreadyUsed
    ));
    assert!(matches!(
        store.consume(token.as_str()),
        ConsumeResult::AlreadyUsed
    ));
}

#[test]
fn tokens_are_distinct_and_opaque() {
    let mut store = ApprovalStore::new();
    let t1 = store.register(sample_config("a"));
    let t2 = store.register(sample_config("b"));
    assert_eq!(t1.len(), 36);
    assert_eq!(t2.len(), 36);
    assert_ne!(t1, t2);
    assert_eq!(store.len(), 2);
}

#[test]
fn entries_are_independent() {
    let mut store = ApprovalStore::new();
    let t1 = store.register(sample_config("a"));
    let t2 = store.register(sample_config("b"));
    match store.consume(t2.as_str()) {
        ConsumeResult::Approved(cfg) => assert_eq!(cfg.ticket_title, "b"),
        _ => panic!("expected the snapshot of the second entry"),
    }
    // Consuming one token leaves the other pending.
    match store.consume(t1.as_str()) {
        ConsumeResult::Approved(cfg) => assert_eq!(cfg.ticket_title, "a"),
        _ => panic!("expected the snapshot of the first entry"),
    }
}

#[test]
fn snapshot_is_isolated_from_later_changes() {
    let mut store = ApprovalStore::new();
    let mut live = sample_config("original title");
    let token = store.register(live.snapshot());
    live.ticket_title = "changed later".to_string();
    match store.consume(token.as_str()) {
        ConsumeResult::Approved(cfg) => assert_eq!(cfg.ticket_title, "original title"),
        _ => panic!("expected the snapshot"),
    }
}
