//! Runtime configuration.

use vstd::prelude::*;
use vstd::string::*;
use crate::models::DEFAULT_MAX_FILE_BYTES;
use crate::numbers;
use crate::text;

verus! {

/// Runtime configuration loaded from environment variables.
#[derive(Debug)]
pub struct Config {
    /// Telegram bot token.
    pub telegram_bot_token: Option<String>,
    /// Telegram webhook secret token.
    pub telegram_webhook_secret: Option<String>,
    /// Comma-separated admin Telegram user ids.
    pub admin_user_ids: Vec<i64>,
    /// GitHub repository URL shown in `/help`.
    pub github_url: String,
    /// AWS region for Lambda, DynamoDB, and CloudWatch.
    pub aws_region: String,
    /// Lambda function name used by scripts and admin stats.
    pub lambda_function_name: String,
    /// DynamoDB table name for preferences.
    pub dynamodb_table: Option<String>,
    /// If true, DynamoDB preferences are disabled.
    pub stateless_mode: bool,
    /// Maximum Telegram-returnable file size.
    pub max_file_bytes: u64,
    /// Commons User-Agent.
    pub user_agent: String,
    /// Commons API endpoint.
    pub commons_api_url: String,
    /// Optional SSM SecureString parameter containing a Pywikibot LWP cookie jar.
    pub commons_auth_cookie_ssm_parameter: Option<String>,
    /// Enables the authenticated Lambda test endpoint for CI.
    pub enable_test_endpoint: bool,
}

/// Names of the environment variables that configuration is loaded from.
pub const CONFIG_VARIABLES: [&'static str; 15] = [
    "PROJECT_NAME",
    "AWS_REGION",
    "AWS_DEFAULT_REGION",
    "MAX_FILE_MB",
    "TELEGRAM_BOT_TOKEN",
    "TELEGRAM_WEBHOOK_SECRET",
    "ADMIN_TELEGRAM_USER_IDS",
    "GITHUB_URL",
    "LAMBDA_FUNCTION_NAME",
    "DYNAMODB_TABLE",
    "STATELESS_MODE",
    "COMMONS_USER_AGENT",
    "COMMONS_API_URL",
    "COMMONS_AUTH_COOKIE_SSM_PARAMETER",
    "ENABLE_TEST_ENDPOINT",
];

/// The value of a variable: the last one that is set.
pub open spec fn value_of(vars: Seq<(String, String)>, name: Seq<char>) -> Option<Seq<char>>
    decreases vars.len(),
{
    if vars.len() == 0 {
        None
    } else if vars.last().0@ == name {
        Some(vars.last().1@)
    } else {
        value_of(vars.drop_last(), name)
    }
}

/// Looks a variable up.
fn lookup(vars: &Vec<(String, String)>, name: &str) -> (r: Option<String>)
    ensures
        text::opt_text(r) == value_of(vars@, name@),
{
    let mut n: usize = vars.len();
    assert(vars@.take(vars.len() as int) =~= vars@);
    while n > 0
        invariant
            n <= vars.len(),
            value_of(vars@, name@) == value_of(vars@.take(n as int), name@),
        decreases n,
    {
        proof {
            assert(vars@.take(n as int).drop_last() =~= vars@.take(n - 1));
            assert(vars@.take(n as int).last() == vars@[n - 1]);
        }
        n -= 1;
        if text::same(vars[n].0.as_str(), name) {
            return Some(vars[n].1.clone());
        }
    }
    None
}

/// A value, or a default where there is none.
pub open spec fn or_default(value: Option<Seq<char>>, default: Seq<char>) -> Seq<char> {
    match value {
        Some(v) => v,
        None => default,
    }
}

/// Looks a variable up and gives a default where it is not set.
fn lookup_or(vars: &Vec<(String, String)>, name: &str, default: &str) -> (r: String)
    ensures
        r@ == or_default(value_of(vars@, name@), default@),
{
    match lookup(vars, name) {
        Some(v) => v,
        None => default.to_owned(),
    }
}

/// True of the values that switch a setting on.
pub open spec fn switched_on(value: Option<Seq<char>>) -> bool {
    match value {
        Some(v) => v == "1"@ || v == "true"@ || v == "TRUE"@ || v == "yes"@,
        None => false,
    }
}

/// Returns true when a setting is switched on.
fn is_on(vars: &Vec<(String, String)>, name: &str) -> (r: bool)
    ensures
        r == switched_on(value_of(vars@, name@)),
{
    match lookup(vars, name) {
        Some(v) => text::same(v.as_str(), "1") || text::same(v.as_str(), "true") || text::same(
            v.as_str(),
            "TRUE",
        ) || text::same(v.as_str(), "yes"),
        None => false,
    }
}

/// The ids in a list of texts; texts that are none are left out.
pub open spec fn ids_in(list: Seq<Seq<char>>) -> Seq<i64>
    decreases list.len(),
{
    if list.len() == 0 {
        seq![]
    } else {
        match numbers::signed_value(text::trimmed(list.last()), i64::MAX as nat) {
            Some(n) => ids_in(list.drop_last()).push(n as i64),
            None => ids_in(list.drop_last()),
        }
    }
}

/// The ids of a comma-separated list.
pub open spec fn admin_ids(value: Seq<char>) -> Seq<i64> {
    ids_in(text::parts(value, ','))
}

/// Parses comma-separated Telegram numeric user ids.
pub fn parse_admin_ids(value: &str) -> (r: Vec<i64>)
    ensures
        r@ == admin_ids(value@),
{
    let list = text::split(value, ',');
    let ghost all = text::texts(list@);
    let mut out: Vec<i64> = Vec::new();
    let mut i: usize = 0;
    assert(all.take(0) =~= seq![]);
    while i < list.len()
        invariant
            i <= list.len(),
            all == text::texts(list@),
            out@ == ids_in(all.take(i as int)),
        decreases list.len() - i,
    {
        proof {
            assert(all.take(i + 1).drop_last() =~= all.take(i as int));
            assert(all.take(i + 1).last() == list@[i as int]@);
        }
        if let Some(id) = numbers::parse_signed(text::trim(list[i].as_str()).as_str(), i64::MAX) {
            out.push(id);
        }
        i += 1;
    }
    assert(all.take(list.len() as int) =~= all);
    out
}

/// The maximum file size that a number of megabytes sets.
pub open spec fn max_bytes(value: Option<Seq<char>>) -> nat {
    match value {
        Some(v) => match numbers::unsigned_value(v, u64::MAX as nat) {
            Some(mb) => mb * (1024 * 1024),
            None => DEFAULT_MAX_FILE_BYTES as nat,
        },
        None => DEFAULT_MAX_FILE_BYTES as nat,
    }
}

/// A text, unless it is empty.
pub open spec fn non_empty(value: Option<Seq<char>>) -> Option<Seq<char>> {
    match value {
        Some(v) => if v.len() > 0 {
            Some(v)
        } else {
            None
        },
        None => None,
    }
}

/// A text, unless it is blank.
pub open spec fn non_blank(value: Option<Seq<char>>) -> Option<Seq<char>> {
    match value {
        Some(v) => if text::trimmed(v).len() > 0 {
            Some(v)
        } else {
            None
        },
        None => None,
    }
}

impl Config {
    /// Builds configuration from the values of environment variables. The maximum file size must
    /// fit in 64 bits.
    pub fn from_env_lookup(vars: &Vec<(String, String)>) -> (r: Self)
        requires
            max_bytes(value_of(vars@, "MAX_FILE_MB"@)) <= u64::MAX,
        ensures
            text::opt_text(r.telegram_bot_token) == value_of(vars@, "TELEGRAM_BOT_TOKEN"@),
            text::opt_text(r.telegram_webhook_secret) == value_of(
                vars@,
                "TELEGRAM_WEBHOOK_SECRET"@,
            ),
            r.admin_user_ids@ == admin_ids(
                or_default(value_of(vars@, "ADMIN_TELEGRAM_USER_IDS"@), ""@),
            ),
            r.github_url@ == or_default(
                value_of(vars@, "GITHUB_URL"@),
                "https://github.com/vitaly-zdanevich/bot_telegram_wikimedia_commons"@,
            ),
            r.aws_region@ == or_default(
                value_of(vars@, "AWS_REGION"@),
                or_default(value_of(vars@, "AWS_DEFAULT_REGION"@), "us-east-1"@),
            ),
            r.lambda_function_name@ == or_default(
                value_of(vars@, "LAMBDA_FUNCTION_NAME"@),
                or_default(value_of(vars@, "PROJECT_NAME"@), "telegram-wikimedia-commons-bot"@),
            ),
            text::opt_text(r.dynamodb_table) == non_empty(value_of(vars@, "DYNAMODB_TABLE"@)),
            r.stateless_mode == switched_on(value_of(vars@, "STATELESS_MODE"@)),
            r.max_file_bytes == max_bytes(value_of(vars@, "MAX_FILE_MB"@)),
            r.user_agent@ == or_default(
                value_of(vars@, "COMMONS_USER_AGENT"@),
                "telegram-wikimedia-commons-bot/0.1 (https://github.com/vitaly-zdanevich/bot_telegram_wikimedia_commons)"@,
            ),
            r.commons_api_url@ == or_default(
                value_of(vars@, "COMMONS_API_URL"@),
                "https://commons.wikimedia.org/w/api.php"@,
            ),
            text::opt_text(r.commons_auth_cookie_ssm_parameter) == non_blank(
                value_of(vars@, "COMMONS_AUTH_COOKIE_SSM_PARAMETER"@),
            ),
            r.enable_test_endpoint == switched_on(value_of(vars@, "ENABLE_TEST_ENDPOINT"@)),
    {
        let project_name = lookup_or(vars, "PROJECT_NAME", "telegram-wikimedia-commons-bot");
        let default_region = lookup_or(vars, "AWS_DEFAULT_REGION", "us-east-1");
        let megabytes: Option<u64> = match lookup(vars, "MAX_FILE_MB") {
            Some(v) => numbers::parse_unsigned(v.as_str(), u64::MAX),
            None => None,
        };
        let max_file_bytes: u64 = match megabytes {
            Some(mb) => mb * (1024 * 1024),
            None => DEFAULT_MAX_FILE_BYTES,
        };
        let dynamodb_table: Option<String> = match lookup(vars, "DYNAMODB_TABLE") {
            Some(v) => if v.as_str().unicode_len() > 0 {
                Some(v)
            } else {
                None
            },
            None => None,
        };
        let parameter: Option<String> = match lookup(vars, "COMMONS_AUTH_COOKIE_SSM_PARAMETER") {
            Some(v) => if text::blank(v.as_str()) {
                None
            } else {
                Some(v)
            },
            None => None,
        };
        Config {
            telegram_bot_token: lookup(vars, "TELEGRAM_BOT_TOKEN"),
            telegram_webhook_secret: lookup(vars, "TELEGRAM_WEBHOOK_SECRET"),
            admin_user_ids: parse_admin_ids(
                lookup_or(vars, "ADMIN_TELEGRAM_USER_IDS", "").as_str(),
            ),
            github_url: lookup_or(
                vars,
                "GITHUB_URL",
                "https://github.com/vitaly-zdanevich/bot_telegram_wikimedia_commons",
            ),
            aws_region: lookup_or(vars, "AWS_REGION", default_region.as_str()),
            lambda_function_name: lookup_or(vars, "LAMBDA_FUNCTION_NAME", project_name.as_str()),
            dynamodb_table,
            stateless_mode: is_on(vars, "STATELESS_MODE"),
            max_file_bytes,
            user_agent: lookup_or(
                vars,
                "COMMONS_USER_AGENT",
                "telegram-wikimedia-commons-bot/0.1 (https://github.com/vitaly-zdanevich/bot_telegram_wikimedia_commons)",
            ),
            commons_api_url: lookup_or(
                vars,
                "COMMONS_API_URL",
                "https://commons.wikimedia.org/w/api.php",
            ),
            commons_auth_cookie_ssm_parameter: parameter,
            enable_test_endpoint: is_on(vars, "ENABLE_TEST_ENDPOINT"),
        }
    }

    /// Returns true when the maximum file size that the variables set fits in 64 bits.
    pub fn max_file_size_fits(vars: &Vec<(String, String)>) -> (r: bool)
        ensures
            r == (max_bytes(value_of(vars@, "MAX_FILE_MB"@)) <= u64::MAX),
    {
        match lookup(vars, "MAX_FILE_MB") {
            Some(v) => match numbers::parse_unsigned(v.as_str(), u64::MAX) {
                Some(mb) => {
                    assert(mb * 1024 * 1024 == mb * 0x10_0000);
                    mb <= 0xFFF_FFFF_FFFF
                },
                None => true,
            },
            None => true,
        }
    }

    /// Returns true if a Telegram user id belongs to an administrator.
    pub fn is_admin(&self, user_id: i64) -> (r: bool)
        ensures
            r == self.admin_user_ids@.contains(user_id),
    {
        let mut i: usize = 0;
        while i < self.admin_user_ids.len()
            invariant
                i <= self.admin_user_ids.len(),
                forall|k: int| 0 <= k < i ==> self.admin_user_ids@[k] != user_id,
            decreases self.admin_user_ids.len() - i,
        {
            if self.admin_user_ids[i] == user_id {
                return true;
            }
            i += 1;
        }
        false
    }
}

} // verus!
