//! Runtime configuration.

use commons_bot::config::{Config, parse_admin_ids};
use commons_bot::models::DEFAULT_MAX_FILE_BYTES;

fn config_from_pairs(pairs: &[(&str, &str)]) -> Config {
    let values = pairs
        .iter()
        .map(|(key, value)| ((*key).to_string(), (*value).to_string()))
        .collect::<Vec<_>>();
    assert!(Config::max_file_size_fits(&values));
    Config::from_env_lookup(&values)
}

#[test]
fn parses_admin_ids() {
    assert_eq!(parse_admin_ids("1, 2, bad,3"), vec![1, 2, 3]);
}

#[test]
fn loads_defaults_when_environment_is_absent() {
    let config = config_from_pairs(&[]);

    assert_eq!(config.telegram_bot_token, None);
    assert_eq!(config.telegram_webhook_secret, None);
    assert!(config.admin_user_ids.is_empty());
    assert_eq!(
        config.github_url,
        "https://github.com/vitaly-zdanevich/bot_telegram_wikimedia_commons"
    );
    assert_eq!(config.aws_region, "us-east-1");
    assert_eq!(
        config.lambda_function_name,
        "telegram-wikimedia-commons-bot"
    );
    assert_eq!(config.dynamodb_table, None);
    assert!(!config.stateless_mode);
    assert_eq!(config.max_file_bytes, DEFAULT_MAX_FILE_BYTES);
    assert_eq!(
        config.commons_api_url,
        "https://commons.wikimedia.org/w/api.php"
    );
    assert_eq!(config.commons_auth_cookie_ssm_parameter, None);
    assert!(!config.enable_test_endpoint);
}

#[test]
fn loads_explicit_environment_values() {
    let config = config_from_pairs(&[
        ("TELEGRAM_BOT_TOKEN", "token"),
        ("TELEGRAM_WEBHOOK_SECRET", "secret"),
        ("ADMIN_TELEGRAM_USER_IDS", "42,bad,7"),
        ("GITHUB_URL", "https://example.test/repo"),
        ("AWS_REGION", "eu-central-1"),
        ("PROJECT_NAME", "project-default"),
        ("LAMBDA_FUNCTION_NAME", "lambda-name"),
        ("DYNAMODB_TABLE", "preferences"),
        ("STATELESS_MODE", "true"),
        ("MAX_FILE_MB", "3"),
        ("COMMONS_USER_AGENT", "custom-agent"),
        ("COMMONS_API_URL", "https://commons.example.test/api.php"),
        ("COMMONS_AUTH_COOKIE_SSM_PARAMETER", "/commons/cookies"),
        ("ENABLE_TEST_ENDPOINT", "yes"),
    ]);

    assert_eq!(config.telegram_bot_token.as_deref(), Some("token"));
    assert_eq!(config.telegram_webhook_secret.as_deref(), Some("secret"));
    assert_eq!(config.admin_user_ids, vec![42, 7]);
    assert_eq!(config.github_url, "https://example.test/repo");
    assert_eq!(config.aws_region, "eu-central-1");
    assert_eq!(config.lambda_function_name, "lambda-name");
    assert_eq!(config.dynamodb_table.as_deref(), Some("preferences"));
    assert!(config.stateless_mode);
    assert_eq!(config.max_file_bytes, 3 * 1024 * 1024);
    assert_eq!(config.user_agent, "custom-agent");
    assert_eq!(
        config.commons_api_url,
        "https://commons.example.test/api.php"
    );
    assert_eq!(
        config.commons_auth_cookie_ssm_parameter.as_deref(),
        Some("/commons/cookies")
    );
    assert!(config.enable_test_endpoint);
}

#[test]
fn falls_back_to_aws_default_region_and_project_lambda_name() {
    let config = config_from_pairs(&[
        ("AWS_DEFAULT_REGION", "us-west-2"),
        ("PROJECT_NAME", "project-name"),
        ("DYNAMODB_TABLE", ""),
        ("COMMONS_AUTH_COOKIE_SSM_PARAMETER", " "),
        ("STATELESS_MODE", "0"),
        ("ENABLE_TEST_ENDPOINT", "false"),
    ]);

    assert_eq!(config.aws_region, "us-west-2");
    assert_eq!(config.lambda_function_name, "project-name");
    assert_eq!(config.dynamodb_table, None);
    assert_eq!(config.commons_auth_cookie_ssm_parameter, None);
    assert!(!config.stateless_mode);
    assert!(!config.enable_test_endpoint);
}

#[test]
fn checks_admin_ids_from_config() {
    let config = config_from_pairs(&[("ADMIN_TELEGRAM_USER_IDS", "42,7")]);

    assert!(config.is_admin(42));
    assert!(config.is_admin(7));
    assert!(!config.is_admin(8));
}

#[test]
fn a_file_size_beyond_the_range_does_not_fit() {
    let vars = vec![("MAX_FILE_MB".to_string(), "18446744073709551615".to_string())];
    assert!(!Config::max_file_size_fits(&vars));
    let vars = vec![("MAX_FILE_MB".to_string(), "17592186044415".to_string())];
    assert!(Config::max_file_size_fits(&vars));
    assert_eq!(
        Config::from_env_lookup(&vars).max_file_bytes,
        17_592_186_044_415 * 1024 * 1024
    );
    let config = config_from_pairs(&[("MAX_FILE_MB", "many")]);
    assert_eq!(config.max_file_bytes, DEFAULT_MAX_FILE_BYTES);
}

#[test]
fn unreadable_admin_ids_are_skipped() {
    assert_eq!(parse_admin_ids("1,x, 2 ,,9223372036854775808,-3"), vec![1, 2, -3]);
    assert!(parse_admin_ids("").is_empty());
}
