//! The incident orchestrator's decision: given one throughput sample and the
//! configuration, whether to report a normal result, file the ticket at once,
//! register it for approval, ask for manual action, or report a measurement
//! failure. The caller performs the chosen action (network, notifications)
//! and never decides anything itself.

use crate::config::Config;
use crate::templates;
use crate::text::{decimal_string, spec_decimal_chars};
use vstd::prelude::*;
use vstd::string::StringExecFns;

verus! {

/// One bandwidth measurement: the throughput in hundredths of a megabit per
/// second, or a failure.
pub enum Measurement {
    Completed(u64),
    Failed,
}

/// What to do about one incident.
pub enum IncidentAction {
    /// The sample is at or above the threshold: report a normal result.
    ReportNormal,
    /// Below threshold with auto-submit enabled: file the ticket at once.
    AutoSubmit,
    /// Below threshold, approval-gated, callback URL configured: register a
    /// pending approval and emit the approval link.
    RegisterForApproval,
    /// Below threshold with no callback URL: report, ask for manual action.
    ReportManual,
    /// The measurement failed: report the failure, take no ticket action.
    ReportFailure,
}

/// Decides one incident, exactly as the workflow prescribes.
pub fn decide_incident(
    m: &Measurement,
    speed_threshold_centi_mbps: u64,
    auto_submit: bool,
    has_callback_url: bool,
) -> (r: IncidentAction)
    ensures
        m is Failed ==> r is ReportFailure,
        (m matches Measurement::Completed(s) && s >= speed_threshold_centi_mbps) ==> r
            is ReportNormal,
        (m matches Measurement::Completed(s) && s < speed_threshold_centi_mbps && auto_submit)
            ==> r is AutoSubmit,
        (m matches Measurement::Completed(s) && s < speed_threshold_centi_mbps && !auto_submit
            && has_callback_url) ==> r is RegisterForApproval,
        (m matches Measurement::Completed(s) && s < speed_threshold_centi_mbps && !auto_submit
            && !has_callback_url) ==> r is ReportManual,
{
    match m {
        Measurement::Failed => IncidentAction::ReportFailure,
        Measurement::Completed(s) => {
            if *s >= speed_threshold_centi_mbps {
                IncidentAction::ReportNormal
            } else if auto_submit {
                IncidentAction::AutoSubmit
            } else if has_callback_url {
                IncidentAction::RegisterForApproval
            } else {
                IncidentAction::ReportManual
            }
        },
    }
}

/// Whether two configurations agree on everything but the ticket title and
/// description.
pub open spec fn spec_same_but_ticket(a: Config, b: Config) -> bool {
    &&& a.access_key_id == b.access_key_id
    &&& a.access_key_secret == b.access_key_secret
    &&& a.endpoint == b.endpoint
    &&& a.api_version == b.api_version
    &&& a.product_id == b.product_id
    &&& a.category_id == b.category_id
    &&& a.cron_expression == b.cron_expression
    &&& a.speed_threshold_centi_mbps == b.speed_threshold_centi_mbps
    &&& a.feishu_webhook_url == b.feishu_webhook_url
    &&& a.callback_url == b.callback_url
    &&& a.callback_port == b.callback_port
    &&& a.callback_secret == b.callback_secret
    &&& a.telegram_bot_token == b.telegram_bot_token
    &&& a.telegram_chat_id == b.telegram_chat_id
    &&& a.auto_submit == b.auto_submit
}

/// The configuration for one below-threshold incident: an identical copy,
/// except that the ticket title and description are freshly drawn from the
/// template pools, seeded with the measured speed.
pub fn incident_snapshot(config: &Config, speed_centi_mbps: u64) -> (r: Config)
    requires
        speed_centi_mbps + 50 <= u64::MAX,
    ensures
        spec_same_but_ticket(r, *config),
        exists|i: int| 0 <= i < templates::TITLE_COUNT && r.ticket_title@ == templates::spec_title(i),
        exists|g: int, b: int, e: int, rounded: bool|
            0 <= g < templates::GREETING_COUNT && 0 <= b < templates::BODY_COUNT && 0 <= e
                < templates::ENDING_COUNT && r.ticket_description@ == templates::spec_description(
                g,
                b,
                e,
                rounded,
                speed_centi_mbps,
            ),
{
    let mut cfg = config.snapshot();
    cfg.ticket_title = templates::random_title();
    cfg.ticket_description = templates::random_description(speed_centi_mbps);
    cfg
}

// ---------------------------------------------------------------------------
// Notification texts
// ---------------------------------------------------------------------------

/// A speed in hundredths, rendered with two decimal digits.
pub open spec fn spec_speed_two_decimals(centi: u64) -> Seq<char> {
    spec_decimal_chars((centi / 100) as nat) + "."@ + (if centi % 100 < 10 {
        "0"@ + spec_decimal_chars((centi % 100) as nat)
    } else {
        spec_decimal_chars((centi % 100) as nat)
    })
}

/// A threshold in hundredths, rendered like a plain number: no trailing
/// zero decimals.
pub open spec fn spec_threshold_str(centi: u64) -> Seq<char> {
    if centi % 100 == 0 {
        spec_decimal_chars((centi / 100) as nat)
    } else if centi % 10 == 0 {
        spec_decimal_chars((centi / 100) as nat) + "."@ + spec_decimal_chars(
            ((centi % 100) / 10) as nat,
        )
    } else {
        spec_speed_two_decimals(centi)
    }
}

/// The speed rendered with two decimal digits.
pub fn speed_two_decimals(centi: u64) -> (r: String)
    ensures
        r@ == spec_speed_two_decimals(centi),
{
    let mut out = decimal_string(centi / 100);
    out.append(".");
    if centi % 100 < 10 {
        out.append("0");
    }
    let frac = decimal_string(centi % 100);
    out.append(frac.as_str());
    out
}

/// The threshold rendered without trailing zero decimals.
pub fn threshold_str(centi: u64) -> (r: String)
    ensures
        r@ == spec_threshold_str(centi),
{
    if centi % 100 == 0 {
        decimal_string(centi / 100)
    } else if centi % 10 == 0 {
        let mut out = decimal_string(centi / 100);
        out.append(".");
        let tenth = decimal_string((centi % 100) / 10);
        out.append(tenth.as_str());
        out
    } else {
        speed_two_decimals(centi)
    }
}

/// The alert header shared by the below-threshold notifications.
pub open spec fn spec_alert_header(speed: u64, threshold: u64) -> Seq<char> {
    "⚠️ 带宽限速告警\n下载速度: "@ + spec_speed_two_decimals(speed) + " Mbps（阈值: "@
        + spec_threshold_str(threshold) + " Mbps）\n"@
}

fn alert_header(speed: u64, threshold: u64) -> (r: String)
    ensures
        r@ == spec_alert_header(speed, threshold),
{
    let mut out = String::from_str("⚠️ 带宽限速告警\n下载速度: ");
    let s = speed_two_decimals(speed);
    out.append(s.as_str());
    out.append(" Mbps（阈值: ");
    let t = threshold_str(threshold);
    out.append(t.as_str());
    out.append(" Mbps）\n");
    out
}

/// The notification for a normal sample.
pub fn normal_message(speed: u64, threshold: u64) -> (r: String)
    ensures
        r@ == "✅ 测速正常: "@ + spec_speed_two_decimals(speed) + " Mbps（阈值: "@ + spec_threshold_str(
            threshold,
        ) + " Mbps）"@,
{
    let mut out = String::from_str("✅ 测速正常: ");
    let s = speed_two_decimals(speed);
    out.append(s.as_str());
    out.append(" Mbps（阈值: ");
    let t = threshold_str(threshold);
    out.append(t.as_str());
    out.append(" Mbps）");
    out
}

/// The notification after an automatic submission succeeded.
pub fn auto_submitted_message(speed: u64, threshold: u64, ticket_id: &str) -> (r: String)
    ensures
        r@ == spec_alert_header(speed, threshold) + "✅ 已自动提交工单: "@ + ticket_id@,
{
    let mut out = alert_header(speed, threshold);
    out.append("✅ 已自动提交工单: ");
    out.append(ticket_id);
    out
}

/// The notification after an automatic submission failed.
pub fn auto_failed_message(speed: u64, threshold: u64, error: &str) -> (r: String)
    ensures
        r@ == spec_alert_header(speed, threshold) + "❌ 自动提交工单失败: "@ + error@,
{
    let mut out = alert_header(speed, threshold);
    out.append("❌ 自动提交工单失败: ");
    out.append(error);
    out
}

/// The notification when no callback URL is configured: act manually.
pub fn manual_message(speed: u64, threshold: u64) -> (r: String)
    ensures
        r@ == spec_alert_header(speed, threshold) + "未配置 callback_url，请手动提交工单"@,
{
    let mut out = alert_header(speed, threshold);
    out.append("未配置 callback_url，请手动提交工单");
    out
}

/// The notification for a failed measurement.
pub fn measure_failed_message(error: &str) -> (r: String)
    ensures
        r@ == "测速失败: "@ + error@ + "\n保险起见请手动检查带宽情况"@,
{
    let mut out = String::from_str("测速失败: ");
    out.append(error);
    out.append("\n保险起见请手动检查带宽情况");
    out
}

} // verus!
