use goji::config::{
    create_auth_header, identity_endpoint, normalize_url, JiraConfig, JiraConfigManager, Timestamp,
};
use goji::environment::{EnvironmentInfo, SecurityLevel, StorageBackend};
use goji::error::JiraError;
use goji::storage::SecureStorage;
use goji::text::{has_prefix, is_blank, trim_text};

fn config(url: &str, email: &str, token: &str) -> JiraConfig {
    JiraConfig {
        url: url.to_string(),
        email: email.to_string(),
        token: token.to_string(),
        created_at: Timestamp { secs: 1_700_000_000, nanos: 0 },
        last_used: None,
    }
}

fn manager() -> JiraConfigManager {
    let env = EnvironmentInfo {
        is_wsl: true,
        is_wsl2: true,
        has_keyring: false,
        has_desktop_environment: false,
        storage_backend: StorageBackend::EncryptedFile,
        security_level: SecurityLevel::Medium,
    };
    let (storage, _) = SecureStorage::new(env, &None, &None).unwrap();
    JiraConfigManager::new(storage)
}

fn invalid(reason: &str) -> JiraError {
    JiraError::InvalidConfig(reason.to_string())
}

#[test]
fn valid_bundle_passes() {
    assert_eq!(config("https://x.atlassian.net", "a@b.c", "tok").validate(), Ok(()));
}

#[test]
fn url_must_be_https() {
    let msg = "URL deve começar com https://";
    assert_eq!(config("http://x.net", "a@b.c", "t").validate(), Err(invalid(msg)));
    assert_eq!(config("", "a@b.c", "t").validate(), Err(invalid(msg)));
    assert_eq!(config("   ", "a@b.c", "t").validate(), Err(invalid(msg)));
    assert_eq!(config(" https://x.net", "a@b.c", "t").validate(), Err(invalid(msg)));
}

#[test]
fn email_must_have_at_sign() {
    let msg = "Email deve ser válido";
    assert_eq!(config("https://x", "ab.c", "t").validate(), Err(invalid(msg)));
    assert_eq!(config("https://x", " \t", "t").validate(), Err(invalid(msg)));
}

#[test]
fn token_must_not_be_blank() {
    let msg = "Token não pode estar vazio";
    assert_eq!(config("https://x", "a@b", "").validate(), Err(invalid(msg)));
    assert_eq!(config("https://x", "a@b", " \n ").validate(), Err(invalid(msg)));
}

#[test]
fn url_reason_comes_first() {
    assert_eq!(
        config("ftp://x", "nobody", "").validate(),
        Err(invalid("URL deve começar com https://"))
    );
}

#[test]
fn invalid_bundle_yields_nothing_to_write() {
    let m = manager();
    let r = m.save_config(&config("http://x", "a@b.c", "t"), "{}");
    assert_eq!(r.unwrap_err(), invalid("URL deve começar com https://"));
    let r = m.save_config(&config("https://x", "abc", "t"), "{}");
    assert_eq!(r.unwrap_err(), invalid("Email deve ser válido"));
    let r = m.save_config(&config("https://x", "a@b.c", ""), "{}");
    assert_eq!(r.unwrap_err(), invalid("Token não pode estar vazio"));
}

#[test]
fn valid_bundle_is_sealed_and_reopened() {
    let m = manager();
    let text = r#"{"url":"https://x","email":"a@b.c","token":"t","created_at":"2023-11-14T22:13:20Z","last_used":null}"#;
    let e = m.save_config(&config("https://x", "a@b.c", "t"), text).unwrap();
    assert_eq!(m.secure_storage.retrieve(&Some(e)).unwrap(), Some(text.to_string()));
    assert_eq!(m.get_environment_info().storage_backend, StorageBackend::EncryptedFile);
}

#[test]
fn auth_header_is_basic_base64() {
    assert_eq!(create_auth_header(&config("https://x", "a@b.c", "t")), "Basic YUBiLmM6dA==");
    assert_eq!(
        create_auth_header(&config("https://x", "user@example.com", "tok123")),
        "Basic dXNlckBleGFtcGxlLmNvbTp0b2sxMjM="
    );
}

#[test]
fn identity_endpoint_path() {
    assert_eq!(identity_endpoint("https://x.atlassian.net"), "https://x.atlassian.net/rest/api/3/myself");
}

#[test]
fn touched_sets_last_used_only() {
    let c = config("https://x", "a@b.c", "t");
    let now = Timestamp { secs: 1_800_000_000, nanos: 5 };
    let t = c.clone().touched(now);
    assert_eq!(t.last_used, Some(now));
    assert_eq!(t.created_at, c.created_at);
    assert_eq!(t.url, c.url);
    assert_eq!(t.token, c.token);
}

#[test]
fn text_helpers() {
    assert_eq!(trim_text("  ab c\t\n"), "ab c");
    assert_eq!(trim_text("\u{3000}x\u{a0}"), "x");
    assert_eq!(trim_text("   "), "");
    assert!(is_blank(""));
    assert!(is_blank(" \u{2003} "));
    assert!(!is_blank(" a "));
    assert!(has_prefix("https://a", "https://"));
    assert!(!has_prefix("http", "https://"));
    assert!(has_prefix("abc", ""));
}

#[test]
fn url_loses_trailing_slashes() {
    assert_eq!(normalize_url("https://x.atlassian.net/"), "https://x.atlassian.net");
    assert_eq!(normalize_url("https://x.atlassian.net///"), "https://x.atlassian.net");
    assert_eq!(normalize_url("https://x.net/a"), "https://x.net/a");
    assert_eq!(normalize_url("///"), "");
    assert_eq!(normalize_url(""), "");
}

#[test]
fn masked_hides_token_only() {
    let c = config("https://x", "a@b.c", "secret-token");
    let m = c.clone().masked();
    assert_eq!(m.token, "••••••••••••••••");
    assert_eq!(m.url, c.url);
    assert_eq!(m.email, c.email);
    assert_eq!(m.created_at, c.created_at);
    assert_eq!(m.last_used, c.last_used);
}
