use workorder::config::Config;
use workorder::incident::{
    auto_failed_message, auto_submitted_message, decide_incident, incident_snapshot,
    manual_message, measure_failed_message, normal_message, speed_two_decimals, threshold_str,
    IncidentAction, Measurement,
};
use workorder::templates::{build_description, random_description, random_title, title_at, TITLE_COUNT};

fn sample_config(auto_submit: bool, callback: Option<&str>) -> Config {
    Config {
        access_key_id: "AKID".to_string(),
        access_key_secret: "testsecret".to_string(),
        endpoint: "workorder.aliyuncs.com".to_string(),
        api_version: "2021-06-10".to_string(),
        product_id: 0,
        category_id: 0,
        ticket_title: "t".to_string(),
        ticket_description: "d".to_string(),
        cron_expression: "0 0 9 * * *".to_string(),
        speed_threshold_centi_mbps: 2000,
        feishu_webhook_url: Some("https://open.feishu.cn/hook".to_string()),
        callback_url: callback.map(|s| s.to_string()),
        callback_port: 9876,
        callback_secret: None,
        telegram_bot_token: None,
        telegram_chat_id: None,
        auto_submit,
    }
}

#[test]
fn decide_incident_covers_every_branch() {
    // At or above threshold: normal.
    assert!(matches!(
        decide_incident(&Measurement::Completed(2000), 2000, false, true),
        IncidentAction::ReportNormal
    ));
    assert!(matches!(
        decide_incident(&Measurement::Completed(2500), 2000, true, true),
        IncidentAction::ReportNormal
    ));
    // Below threshold, auto-submit on: file at once.
    assert!(matches!(
        decide_incident(&Measurement::Completed(1999), 2000, true, true),
        IncidentAction::AutoSubmit
    ));
    // Below threshold, approval-gated with a callback URL: register.
    assert!(matches!(
        decide_incident(&Measurement::Completed(1000), 2000, false, true),
        IncidentAction::RegisterForApproval
    ));
    // Below threshold without a callback URL: manual instruction.
    assert!(matches!(
        decide_incident(&Measurement::Completed(1000), 2000, false, false),
        IncidentAction::ReportManual
    ));
    // Failed measurement: report only.
    assert!(matches!(
        decide_incident(&Measurement::Failed, 2000, true, true),
        IncidentAction::ReportFailure
    ));
}

#[test]
fn incident_snapshot_keeps_everything_but_the_ticket_text() {
    let cfg = sample_config(false, Some("https://example.com/ticket"));
    let snap = incident_snapshot(&cfg, 1034);
    assert_eq!(snap.access_key_id, cfg.access_key_id);
    assert_eq!(snap.endpoint, cfg.endpoint);
    assert_eq!(snap.callback_url, cfg.callback_url);
    assert_eq!(snap.speed_threshold_centi_mbps, cfg.speed_threshold_centi_mbps);
    assert_eq!(snap.auto_submit, cfg.auto_submit);
    // The title comes from the pool.
    let mut in_pool = false;
    let mut i = 0;
    while i < TITLE_COUNT {
        if title_at(i) == snap.ticket_title {
            in_pool = true;
        }
        i += 1;
    }
    assert!(in_pool, "title not from the pool: {}", snap.ticket_title);
    // The description embeds the measured speed.
    assert!(snap.ticket_description.contains("Mbps"));
    assert!(
        snap.ticket_description.contains("10.3") || snap.ticket_description.contains("10"),
        "speed missing: {}",
        snap.ticket_description
    );
}

#[test]
fn description_is_exact_for_chosen_positions() {
    let d = build_description(0, 7, 7, false, 1034);
    assert_eq!(
        d,
        "您好，香港轻量应用服务器的带宽应该是30Mbps，但我实际测试下来只有10.3Mbps。请问这个是什么情况？能帮忙看看吗？"
    );
    let rounded = build_description(3, 5, 0, true, 1250);
    assert_eq!(
        rounded,
        "我发现我的香港轻量应用服务器带宽有问题。购买的是30Mbps，但测速只有13Mbps。请问是被限速了吗？能否帮忙检查处理一下？谢谢！"
    );
}

#[test]
fn speed_rendering_rounds_half_up_and_carries() {
    // One decimal digit, with the carry at .96 and above.
    assert_eq!(build_description(3, 7, 7, false, 1296), {
        let mut s = String::from("香港轻量应用服务器的带宽应该是30Mbps，但我实际测试下来只有");
        s.push_str("13.0");
        s.push_str("Mbps。请问这个是什么情况？能帮忙看看吗？");
        s
    });
    assert_eq!(speed_two_decimals(1234), "12.34");
    assert_eq!(speed_two_decimals(5), "0.05");
    assert_eq!(speed_two_decimals(2000), "20.00");
    assert_eq!(threshold_str(2000), "20");
    assert_eq!(threshold_str(2050), "20.5");
    assert_eq!(threshold_str(2005), "20.05");
}

#[test]
fn random_templates_stay_in_their_pools() {
    let t = random_title();
    let mut in_pool = false;
    let mut i = 0;
    while i < TITLE_COUNT {
        if title_at(i) == t {
            in_pool = true;
        }
        i += 1;
    }
    assert!(in_pool, "title not from the pool: {t}");
    let d = random_description(1850);
    assert!(d.contains("Mbps"));
    assert!(d.contains("18.5") || d.contains("19") || d.contains("18"));
}

#[test]
fn notification_texts_are_exact() {
    assert_eq!(
        normal_message(2534, 2000),
        "✅ 测速正常: 25.34 Mbps（阈值: 20 Mbps）"
    );
    assert_eq!(
        auto_submitted_message(1034, 2000, "T-1"),
        "⚠️ 带宽限速告警\n下载速度: 10.34 Mbps（阈值: 20 Mbps）\n✅ 已自动提交工单: T-1"
    );
    assert_eq!(
        auto_failed_message(1034, 2000, "boom"),
        "⚠️ 带宽限速告警\n下载速度: 10.34 Mbps（阈值: 20 Mbps）\n❌ 自动提交工单失败: boom"
    );
    assert_eq!(
        manual_message(1034, 2050),
        "⚠️ 带宽限速告警\n下载速度: 10.34 Mbps（阈值: 20.5 Mbps）\n未配置 callback_url，请手动提交工单"
    );
    assert_eq!(
        measure_failed_message("timeout"),
        "测速失败: timeout\n保险起见请手动检查带宽情况"
    );
}
