use workorder::config::Config;
use workorder::server::{
    approve_page, check_page, failure_page, submit_failure_message, submit_success_message,
    success_page, ApproveOutcome, CallbackServer, CheckOutcome, TriggerGate,
};

fn sample_config() -> Config {
    Config {
        access_key_id: "AKID".to_string(),
        access_key_secret: "testsecret".to_string(),
        endpoint: "workorder.aliyuncs.com".to_string(),
        api_version: "2021-06-10".to_string(),
        product_id: 7,
        category_id: 9,
        ticket_title: "title".to_string(),
        ticket_description: "desc".to_string(),
        cron_expression: "0 0 9 * * *".to_string(),
        speed_threshold_centi_mbps: 2000,
        feishu_webhook_url: None,
        callback_url: Some("https://example.com/ticket".to_string()),
        callback_port: 9876,
        callback_secret: None,
        telegram_bot_token: None,
        telegram_chat_id: None,
        auto_submit: false,
    }
}

#[test]
fn trigger_slot_is_single_flight() {
    let mut gate = TriggerGate::new();
    assert!(gate.try_admit());
    assert!(!gate.try_admit());
    assert!(!gate.try_admit());
    gate.complete();
    assert!(gate.try_admit());
}

#[test]
fn check_is_busy_while_processing() {
    let mut server = CallbackServer::new(None);
    assert!(matches!(server.handle_check(None), CheckOutcome::Admitted));
    assert!(matches!(server.handle_check(None), CheckOutcome::Busy));
    server.complete_check();
    assert!(matches!(server.handle_check(None), CheckOutcome::Admitted));
}

#[test]
fn check_requires_the_configured_secret() {
    let mut server = CallbackServer::new(Some("s3cret".to_string()));
    assert!(matches!(server.handle_check(None), CheckOutcome::AuthFailed));
    let wrong = "nope".to_string();
    assert!(matches!(
        server.handle_check(Some(&wrong)),
        CheckOutcome::AuthFailed
    ));
    let right = "s3cret".to_string();
    assert!(matches!(
        server.handle_check(Some(&right)),
        CheckOutcome::Admitted
    ));
}

#[test]
fn approve_validates_secret_and_token() {
    let mut server = CallbackServer::new(Some("s3cret".to_string()));
    let right = "s3cret".to_string();
    assert!(matches!(
        server.handle_approve(None, None),
        ApproveOutcome::AuthFailed
    ));
    assert!(matches!(
        server.handle_approve(None, Some(&right)),
        ApproveOutcome::MissingToken
    ));
    let bogus = "no-such-token".to_string();
    assert!(matches!(
        server.handle_approve(Some(&bogus), Some(&right)),
        ApproveOutcome::InvalidToken
    ));
}

#[test]
fn approve_consumes_exactly_once() {
    let mut server = CallbackServer::new(None);
    let token = server.add_pending(sample_config());
    match server.handle_approve(Some(&token), None) {
        ApproveOutcome::Approved(cfg) => assert_eq!(cfg.ticket_title, "title"),
        _ => panic!("first approve must return the snapshot"),
    }
    assert!(matches!(
        server.handle_approve(Some(&token), None),
        ApproveOutcome::AlreadySubmitted
    ));
}

#[test]
fn approve_url_embeds_token_and_secret() {
    let url = CallbackServer::approve_url(
        "https://example.com:9876/ticket/",
        "tok-123",
        &Some("s3cret".to_string()),
    );
    assert_eq!(
        url,
        "https://example.com:9876/ticket/approve?token=tok-123&secret=s3cret"
    );
    assert!(url.contains("tok-123"));
    let open = CallbackServer::approve_url("https://example.com", "tok-123", &None);
    assert_eq!(open, "https://example.com/approve?token=tok-123");
}

#[test]
fn registered_token_appears_in_its_approval_link() {
    let mut server = CallbackServer::new(None);
    let token = server.add_pending(sample_config());
    let url = CallbackServer::approve_url("https://example.com/ticket", token.as_str(), &None);
    assert!(url.contains(token.as_str()));
}

#[test]
fn check_url_variants() {
    assert_eq!(
        CallbackServer::check_url("https://example.com/", &Some("k".to_string())),
        "https://example.com/check?secret=k"
    );
    assert_eq!(
        CallbackServer::check_url("https://example.com", &None),
        "https://example.com/check"
    );
}

#[test]
fn pages_render_each_outcome() {
    assert_eq!(check_page(&CheckOutcome::AuthFailed), "<h2>❌ 鉴权失败</h2>");
    assert_eq!(
        check_page(&CheckOutcome::Admitted),
        "<h2>✅ 已触发检测，结果将发送到通知渠道</h2>"
    );
    assert_eq!(
        check_page(&CheckOutcome::Busy),
        "<h2>⏳ 已有任务在执行中，请稍后再试</h2>"
    );
    assert_eq!(
        approve_page(&ApproveOutcome::MissingToken),
        "<h2>缺少 token 参数</h2>"
    );
    assert_eq!(
        approve_page(&ApproveOutcome::InvalidToken),
        "<h2>❌ 无效的 token</h2>"
    );
    assert_eq!(
        approve_page(&ApproveOutcome::AlreadySubmitted),
        "<h2>✅ 该工单已提交过，请勿重复操作</h2>"
    );
    assert_eq!(
        submit_success_message("T123"),
        "工单提交成功，工单号: T123"
    );
    assert_eq!(submit_failure_message("boom"), "工单提交失败: boom");
    assert_eq!(success_page("ok"), "<h2>✅ ok</h2>");
    assert_eq!(failure_page("no"), "<h2>❌ no</h2>");
}
