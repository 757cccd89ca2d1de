//! The application configuration: the merge of environment overrides, file
//! values and built-in defaults. Reading the environment and the file is I/O
//! and stays outside the library; the precedence and the defaults are decided
//! here, exactly.

use vstd::prelude::*;
use vstd::string::StringExecFns;

verus! {

/// The optional values read from the configuration file.
pub struct FileConfig {
    pub access_key_id: Option<String>,
    pub access_key_secret: Option<String>,
    pub product_id: Option<u64>,
    pub category_id: Option<u64>,
    pub ticket_title: Option<String>,
    pub ticket_description: Option<String>,
    pub cron_expression: Option<String>,
    pub speed_threshold_centi_mbps: Option<u64>,
    pub feishu_webhook_url: Option<String>,
    pub callback_url: Option<String>,
    pub callback_port: Option<u16>,
    pub callback_secret: Option<String>,
    pub telegram_bot_token: Option<String>,
    pub telegram_chat_id: Option<i64>,
    pub auto_submit: Option<bool>,
}

/// The optional values read from the environment. Numeric variables arrive
/// already parsed; the auto-submit flag arrives as the raw variable text,
/// since its reading (`true` or `1`) is this module's rule.
pub struct EnvConfig {
    pub access_key_id: Option<String>,
    pub access_key_secret: Option<String>,
    pub product_id: Option<u64>,
    pub category_id: Option<u64>,
    pub ticket_title: Option<String>,
    pub ticket_description: Option<String>,
    pub cron_expression: Option<String>,
    pub speed_threshold_centi_mbps: Option<u64>,
    pub feishu_webhook_url: Option<String>,
    pub callback_url: Option<String>,
    pub callback_port: Option<u16>,
    pub callback_secret: Option<String>,
    pub telegram_bot_token: Option<String>,
    pub telegram_chat_id: Option<i64>,
    pub auto_submit: Option<String>,
}

/// Why the configuration could not be assembled.
#[derive(Debug)]
pub enum ConfigError {
    MissingAccessKeyId,
    MissingAccessKeySecret,
}

impl ConfigError {
    /// Renders the error for the operator.
    pub fn message(&self) -> (r: String)
        ensures
            (*self is MissingAccessKeyId ==> r@
                == "缺少 access_key_id，请在 config.json 或环境变量 ALIYUN_ACCESS_KEY_ID 中设置"@),
            (*self is MissingAccessKeySecret ==> r@
                == "缺少 access_key_secret，请在 config.json 或环境变量 ALIYUN_ACCESS_KEY_SECRET 中设置"@),
    {
        match self {
            ConfigError::MissingAccessKeyId => String::from_str(
                "缺少 access_key_id，请在 config.json 或环境变量 ALIYUN_ACCESS_KEY_ID 中设置",
            ),
            ConfigError::MissingAccessKeySecret => String::from_str(
                "缺少 access_key_secret，请在 config.json 或环境变量 ALIYUN_ACCESS_KEY_SECRET 中设置",
            ),
        }
    }
}

/// The finished, immutable configuration the core consumes. The speed
/// threshold is held in hundredths of a megabit per second.
#[derive(Clone)]
pub struct Config {
    pub access_key_id: String,
    pub access_key_secret: String,
    pub endpoint: String,
    pub api_version: String,
    pub product_id: u64,
    pub category_id: u64,
    pub ticket_title: String,
    pub ticket_description: String,
    pub cron_expression: String,
    pub speed_threshold_centi_mbps: u64,
    /// Group-chat webhook for notifications.
    pub feishu_webhook_url: Option<String>,
    /// Public base URL of the callback service.
    pub callback_url: Option<String>,
    /// Port the callback service listens on.
    pub callback_port: u16,
    /// Shared secret gating the callback actions, when configured.
    pub callback_secret: Option<String>,
    pub telegram_bot_token: Option<String>,
    pub telegram_chat_id: Option<i64>,
    /// Whether a below-threshold incident files a ticket without approval.
    pub auto_submit: bool,
}

/// The environment value when present, else the file value.
pub open spec fn spec_first_of<T>(env: Option<T>, file: Option<T>) -> Option<T> {
    match env {
        Some(v) => Some(v),
        None => file,
    }
}

/// Whether the raw auto-submit variable reads as enabled.
pub open spec fn spec_auto_submit(env: Option<String>, file: Option<bool>) -> bool {
    match env {
        Some(v) => v@ == "true"@ || v@ == "1"@,
        None => match file {
            Some(b) => b,
            None => false,
        },
    }
}

fn first_of_string(env: Option<String>, file: Option<String>) -> (r: Option<String>)
    ensures
        r == spec_first_of(env, file),
{
    match env {
        Some(v) => Some(v),
        None => file,
    }
}

fn first_of_u64(env: Option<u64>, file: Option<u64>, default: u64) -> (r: u64)
    ensures
        r == (match spec_first_of(env, file) {
            Some(v) => v,
            None => default,
        }),
{
    match env {
        Some(v) => v,
        None => match file {
            Some(v) => v,
            None => default,
        },
    }
}

fn first_of_string_default(env: Option<String>, file: Option<String>, default: &str) -> (r: String)
    ensures
        r@ == (match spec_first_of(env, file) {
            Some(v) => v@,
            None => default@,
        }),
{
    match env {
        Some(v) => v,
        None => match file {
            Some(v) => v,
            None => String::from_str(default),
        },
    }
}

impl Config {
    /// Assembles the configuration: an environment value wins over a file
    /// value, and a built-in default stands where both are absent. The two
    /// credentials have no default; a missing one is the error, the key
    /// identifier checked first.
    pub fn from_sources(env: EnvConfig, file: FileConfig) -> (r: Result<Config, ConfigError>)
        ensures
            (r is Ok) <==> ((env.access_key_id is Some || file.access_key_id is Some)
                && (env.access_key_secret is Some || file.access_key_secret is Some)),
            (env.access_key_id is None && file.access_key_id is None) ==> r == Err::<
                Config,
                ConfigError,
            >(ConfigError::MissingAccessKeyId),
            ((env.access_key_id is Some || file.access_key_id is Some)
                && env.access_key_secret is None && file.access_key_secret is None) ==> r == Err::<
                Config,
                ConfigError,
            >(ConfigError::MissingAccessKeySecret),
            r matches Ok(c) ==> {
                &&& Some(c.access_key_id) == spec_first_of(env.access_key_id, file.access_key_id)
                &&& Some(c.access_key_secret) == spec_first_of(
                    env.access_key_secret,
                    file.access_key_secret,
                )
                &&& c.endpoint@ == "workorder.aliyuncs.com"@
                &&& c.api_version@ == "2021-06-10"@
                &&& c.product_id == (match spec_first_of(env.product_id, file.product_id) {
                    Some(v) => v,
                    None => 0u64,
                })
                &&& c.category_id == (match spec_first_of(env.category_id, file.category_id) {
                    Some(v) => v,
                    None => 0u64,
                })
                &&& c.ticket_title@ == (match spec_first_of(env.ticket_title, file.ticket_title) {
                    Some(v) => v@,
                    None => "香港轻量应用服务器带宽被限速，请帮忙检查解除"@,
                })
                &&& c.ticket_description@ == (match spec_first_of(
                    env.ticket_description,
                    file.ticket_description,
                ) {
                    Some(v) => v@,
                    None =>
                    "您好，我购买的香港轻量应用服务器带宽为30Mbps，但目前实际带宽被限制在约10Mbps左右。请帮忙检查服务器是否存在带宽限速情况，如果存在限速请帮忙解除，恢复到购买时承诺的30Mbps带宽。谢谢！"@,
                })
                &&& c.cron_expression@ == (match spec_first_of(
                    env.cron_expression,
                    file.cron_expression,
                ) {
                    Some(v) => v@,
                    None => "0 0 9 * * *"@,
                })
                &&& c.speed_threshold_centi_mbps == (match spec_first_of(
                    env.speed_threshold_centi_mbps,
                    file.speed_threshold_centi_mbps,
                ) {
                    Some(v) => v,
                    None => 2000u64,
                })
                &&& c.feishu_webhook_url == spec_first_of(
                    env.feishu_webhook_url,
                    file.feishu_webhook_url,
                )
                &&& c.callback_url == spec_first_of(env.callback_url, file.callback_url)
                &&& c.callback_port == (match spec_first_of(env.callback_port, file.callback_port) {
                    Some(v) => v,
                    None => 9876u16,
                })
                &&& c.callback_secret == spec_first_of(env.callback_secret, file.callback_secret)
                &&& c.telegram_bot_token == spec_first_of(
                    env.telegram_bot_token,
                    file.telegram_bot_token,
                )
                &&& c.telegram_chat_id == spec_first_of(env.telegram_chat_id, file.telegram_chat_id)
                &&& c.auto_submit == spec_auto_submit(env.auto_submit, file.auto_submit)
            },
    {
        let access_key_id = match first_of_string(env.access_key_id, file.access_key_id) {
            Some(v) => v,
            None => {
                return Err(ConfigError::MissingAccessKeyId);
            },
        };
        let access_key_secret = match first_of_string(
            env.access_key_secret,
            file.access_key_secret,
        ) {
            Some(v) => v,
            None => {
                return Err(ConfigError::MissingAccessKeySecret);
            },
        };
        let auto_submit = match env.auto_submit {
            Some(v) => crate::text::str_eq(v.as_str(), "true") || crate::text::str_eq(
                v.as_str(),
                "1",
            ),
            None => match file.auto_submit {
                Some(b) => b,
                None => false,
            },
        };
        Ok(
            Config {
                access_key_id,
                access_key_secret,
                endpoint: String::from_str("workorder.aliyuncs.com"),
                api_version: String::from_str("2021-06-10"),
                product_id: first_of_u64(env.product_id, file.product_id, 0),
                category_id: first_of_u64(env.category_id, file.category_id, 0),
                ticket_title: first_of_string_default(
                    env.ticket_title,
                    file.ticket_title,
                    "香港轻量应用服务器带宽被限速，请帮忙检查解除",
                ),
                ticket_description: first_of_string_default(
                    env.ticket_description,
                    file.ticket_description,
                    "您好，我购买的香港轻量应用服务器带宽为30Mbps，但目前实际带宽被限制在约10Mbps左右。请帮忙检查服务器是否存在带宽限速情况，如果存在限速请帮忙解除，恢复到购买时承诺的30Mbps带宽。谢谢！",
                ),
                cron_expression: first_of_string_default(
                    env.cron_expression,
                    file.cron_expression,
                    "0 0 9 * * *",
                ),
                speed_threshold_centi_mbps: first_of_u64(
                    env.speed_threshold_centi_mbps,
                    file.speed_threshold_centi_mbps,
                    2000,
                ),
                feishu_webhook_url: first_of_string(
                    env.feishu_webhook_url,
                    file.feishu_webhook_url,
                ),
                callback_url: first_of_string(env.callback_url, file.callback_url),
                callback_port: match env.callback_port {
                    Some(v) => v,
                    None => match file.callback_port {
                        Some(v) => v,
                        None => 9876,
                    },
                },
                callback_secret: first_of_string(env.callback_secret, file.callback_secret),
                telegram_bot_token: first_of_string(
                    env.telegram_bot_token,
                    file.telegram_bot_token,
                ),
                telegram_chat_id: match env.telegram_chat_id {
                    Some(v) => Some(v),
                    None => file.telegram_chat_id,
                },
                auto_submit,
            },
        )
    }

    /// An identical copy, for the approval snapshot: later changes to the
    /// live configuration cannot affect it.
    pub fn snapshot(&self) -> (r: Config)
        ensures
            r == *self,
    {
        Config {
            access_key_id: self.access_key_id.clone(),
            access_key_secret: self.access_key_secret.clone(),
            endpoint: self.endpoint.clone(),
            api_version: self.api_version.clone(),
            product_id: self.product_id,
            category_id: self.category_id,
            ticket_title: self.ticket_title.clone(),
            ticket_description: self.ticket_description.clone(),
            cron_expression: self.cron_expression.clone(),
            speed_threshold_centi_mbps: self.speed_threshold_centi_mbps,
            feishu_webhook_url: clone_opt_string(&self.feishu_webhook_url),
            callback_url: clone_opt_string(&self.callback_url),
            callback_port: self.callback_port,
            callback_secret: clone_opt_string(&self.callback_secret),
            telegram_bot_token: clone_opt_string(&self.telegram_bot_token),
            telegram_chat_id: self.telegram_chat_id,
            auto_submit: self.auto_submit,
        }
    }
}

/// An identical copy of an optional string.
pub fn clone_opt_string(v: &Option<String>) -> (r: Option<String>)
    ensures
        r == *v,
{
    match v {
        Some(s) => Some(s.clone()),
        None => None,
    }
}

} // verus!
