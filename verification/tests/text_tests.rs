use workorder::config::{Config, ConfigError, EnvConfig, FileConfig};
use workorder::speedtest::{extract_attr, parse_server_list};
use workorder::text::{contains_str, contains_str_folded, decimal_string, find_str, str_eq};

#[test]
fn find_and_contains_work_at_character_level() {
    assert_eq!(find_str("hello world", "world"), Some(6));
    assert_eq!(find_str("hello", "hello"), Some(0));
    assert_eq!(find_str("hello", ""), Some(0));
    assert_eq!(find_str("hello", "x"), None);
    assert_eq!(find_str("带宽限速带宽", "宽"), Some(1));
    assert!(contains_str("网络带宽问题", "带宽"));
    assert!(!contains_str("其他", "带宽"));
    assert!(contains_str_folded("Simple APPLICATION Server", "simple application"));
    assert!(!contains_str_folded("Simple App", "simple application"));
    assert!(str_eq("abc", "abc"));
    assert!(!str_eq("abc", "abd"));
}

#[test]
fn decimal_rendering_is_exact() {
    assert_eq!(decimal_string(0), "0");
    assert_eq!(decimal_string(7), "7");
    assert_eq!(decimal_string(1234), "1234");
    assert_eq!(decimal_string(18446744073709551615), "18446744073709551615");
}

#[test]
fn extract_attr_reads_quoted_values() {
    let element = "<server url=\"http://a/upload.php\" lat=\"22.3\" lon=\"114.2\" name=\"HK\"/>";
    assert_eq!(extract_attr(element, "url").as_deref(), Some("http://a/upload.php"));
    assert_eq!(extract_attr(element, "lat").as_deref(), Some("22.3"));
    assert_eq!(extract_attr(element, "name").as_deref(), Some("HK"));
    assert_eq!(extract_attr(element, "sponsor"), None);
    assert_eq!(extract_attr("lat=22.3", "lat"), None);
}

#[test]
fn parse_server_list_keeps_complete_entries() {
    let text = "<settings>\n<server url=\"http://a/upload.php\" lat=\"22.3\" lon=\"114.2\" name=\"HK\" sponsor=\"S1\"/>\n<server url=\"http://broken\" lat=\"1.0\"/>\n<server url=\"http://b/upload.php\" lat=\"1.35\" lon=\"103.8\"></server>\n</settings>";
    let servers = parse_server_list(text);
    assert_eq!(servers.len(), 2);
    assert_eq!(servers[0].url, "http://a/upload.php");
    assert_eq!(servers[0].name, "HK");
    assert_eq!(servers[0].sponsor, "S1");
    assert_eq!(servers[0].lat, "22.3");
    assert_eq!(servers[0].lon, "114.2");
    assert_eq!(servers[1].url, "http://b/upload.php");
    assert_eq!(servers[1].name, "");
}

#[test]
fn parse_server_list_without_elements_is_empty() {
    assert_eq!(parse_server_list("").len(), 0);
    assert_eq!(parse_server_list("<settings></settings>").len(), 0);
}

fn empty_env() -> EnvConfig {
    EnvConfig {
        access_key_id: None,
        access_key_secret: None,
        product_id: None,
        category_id: None,
        ticket_title: None,
        ticket_description: None,
        cron_expression: None,
        speed_threshold_centi_mbps: None,
        feishu_webhook_url: None,
        callback_url: None,
        callback_port: None,
        callback_secret: None,
        telegram_bot_token: None,
        telegram_chat_id: None,
        auto_submit: None,
    }
}

fn empty_file() -> FileConfig {
    FileConfig {
        access_key_id: None,
        access_key_secret: None,
        product_id: None,
        category_id: None,
        ticket_title: None,
        ticket_description: None,
        cron_expression: None,
        speed_threshold_centi_mbps: None,
        feishu_webhook_url: None,
        callback_url: None,
        callback_port: None,
        callback_secret: None,
        telegram_bot_token: None,
        telegram_chat_id: None,
        auto_submit: None,
    }
}

#[test]
fn config_requires_the_credentials() {
    match Config::from_sources(empty_env(), empty_file()) {
        Err(e @ ConfigError::MissingAccessKeyId) => {
            assert!(e.message().contains("access_key_id"));
        }
        _ => panic!("a missing key identifier must fail first"),
    }
    let mut env = empty_env();
    env.access_key_id = Some("AKID".to_string());
    match Config::from_sources(env, empty_file()) {
        Err(e @ ConfigError::MissingAccessKeySecret) => {
            assert!(e.message().contains("access_key_secret"));
        }
        _ => panic!("a missing secret must fail"),
    }
}

#[test]
fn config_defaults_fill_the_gaps() {
    let mut file = empty_file();
    file.access_key_id = Some("AKID".to_string());
    file.access_key_secret = Some("testsecret".to_string());
    let cfg = Config::from_sources(empty_env(), file).unwrap();
    assert_eq!(cfg.endpoint, "workorder.aliyuncs.com");
    assert_eq!(cfg.api_version, "2021-06-10");
    assert_eq!(cfg.product_id, 0);
    assert_eq!(cfg.category_id, 0);
    assert_eq!(cfg.cron_expression, "0 0 9 * * *");
    assert_eq!(cfg.speed_threshold_centi_mbps, 2000);
    assert_eq!(cfg.callback_port, 9876);
    assert!(!cfg.auto_submit);
    assert_eq!(cfg.callback_url, None);
    assert_eq!(
        cfg.ticket_title,
        "香港轻量应用服务器带宽被限速，请帮忙检查解除"
    );
}

#[test]
fn config_environment_wins_over_file() {
    let mut env = empty_env();
    env.access_key_id = Some("ENV-AKID".to_string());
    env.access_key_secret = Some("env-secret".to_string());
    env.product_id = Some(11);
    env.auto_submit = Some("1".to_string());
    let mut file = empty_file();
    file.access_key_id = Some("FILE-AKID".to_string());
    file.access_key_secret = Some("file-secret".to_string());
    file.product_id = Some(22);
    file.category_id = Some(33);
    file.auto_submit = Some(false);
    let cfg = Config::from_sources(env, file).unwrap();
    assert_eq!(cfg.access_key_id, "ENV-AKID");
    assert_eq!(cfg.access_key_secret, "env-secret");
    assert_eq!(cfg.product_id, 11);
    assert_eq!(cfg.category_id, 33);
    assert!(cfg.auto_submit);
}

#[test]
fn config_auto_submit_reads_true_and_one_only() {
    for (raw, expected) in [("true", true), ("1", true), ("0", false), ("yes", false)] {
        let mut env = empty_env();
        env.access_key_id = Some("AKID".to_string());
        env.access_key_secret = Some("testsecret".to_string());
        env.auto_submit = Some(raw.to_string());
        let cfg = Config::from_sources(env, empty_file()).unwrap();
        assert_eq!(cfg.auto_submit, expected, "for input {raw}");
    }
    // A file value stands when no variable is set.
    let mut env = empty_env();
    env.access_key_id = Some("AKID".to_string());
    env.access_key_secret = Some("testsecret".to_string());
    let mut file = empty_file();
    file.auto_submit = Some(true);
    let cfg = Config::from_sources(env, file).unwrap();
    assert!(cfg.auto_submit);
}
