use jsscli::accounts::{
    account_rows, check_password, default_retries, default_timeout, default_user_agent,
    plan_account_add, register_account, secret_entry_name, show_account, switch_active, Account,
    AccountStore, AuthModeSer,
};
use jsscli::cli::AuthModeKind;
use jsscli::error::CliError;
use jsscli::settings::Settings;
use jsscli::strmap::StrMap;

fn account(name: &str, url: &str, mode: AuthModeSer) -> Account {
    Account {
        name: name.to_string(),
        base_url: url.to_string(),
        mode,
        expected_sitename: None,
        required_roles: Vec::new(),
        timeout_secs: default_timeout(),
        max_retries: default_retries(),
        user_agent: default_user_agent(),
        insecure_ssl: false,
    }
}

fn session(email: &str) -> AuthModeSer {
    AuthModeSer::Session { email: email.to_string() }
}

fn usage_message(e: CliError) -> String {
    match e {
        CliError::Usage(m) => m,
        _ => panic!("expected a usage error"),
    }
}

#[test]
fn strmap_keeps_keys_in_byte_order_and_last_write_wins() {
    let mut m: StrMap<String> = StrMap::new();
    m.insert("zeta".to_string(), "1".to_string());
    m.insert("Alpha".to_string(), "2".to_string());
    m.insert("beta".to_string(), "3".to_string());
    m.insert("zeta".to_string(), "4".to_string());
    assert_eq!(m.len(), 3);
    let pairs: Vec<(String, String)> =
        m.pairs().into_iter().map(|(k, v)| (k.clone(), v.clone())).collect();
    assert_eq!(
        pairs,
        vec![
            ("Alpha".to_string(), "2".to_string()),
            ("beta".to_string(), "3".to_string()),
            ("zeta".to_string(), "4".to_string())
        ]
    );
    assert_eq!(m.get("zeta"), Some(&"4".to_string()));
    assert_eq!(m.remove("beta"), Some("3".to_string()));
    assert_eq!(m.remove("beta"), None);
    assert!(!m.contains_key("beta"));
    assert_eq!(m.len(), 2);
}

#[test]
fn strmap_orders_non_ascii_keys_by_bytes() {
    let mut m: StrMap<u32> = StrMap::new();
    m.insert("é".to_string(), 1);
    m.insert("z".to_string(), 2);
    m.insert("".to_string(), 3);
    let keys: Vec<String> = m.pairs().into_iter().map(|(k, _)| k.clone()).collect();
    assert_eq!(keys, vec!["".to_string(), "z".to_string(), "é".to_string()]);
}

#[test]
fn settings_read_after_write() {
    let mut s = Settings::new();
    assert!(s.set("active_account", "prod").is_ok());
    assert!(s.set("editor", "vim").is_ok());
    assert_eq!(s.get("active_account"), Some("prod".to_string()));
    assert_eq!(s.get("editor"), Some("vim".to_string()));
    assert_eq!(s.get("missing"), None);
    assert!(s.set("editor", "nano").is_ok());
    assert_eq!(s.get("editor"), Some("nano".to_string()));
    assert_eq!(s.active_account, Some("prod".to_string()));
}

#[test]
fn settings_list_pairs_starts_with_active_account() {
    let mut s = Settings::new();
    s.set("b", "2").unwrap();
    s.set("a", "1").unwrap();
    assert_eq!(
        s.list_pairs(),
        vec![
            ("active_account".to_string(), "".to_string()),
            ("a".to_string(), "1".to_string()),
            ("b".to_string(), "2".to_string())
        ]
    );
}

#[test]
fn settings_resolve_active_prefers_profile() {
    let mut s = Settings::new();
    match s.resolve_active(None) {
        Err(CliError::Config(m)) => {
            assert_eq!(m, "No active account. Run `jsscli account use <name>`.")
        }
        _ => panic!("expected a configuration error"),
    }
    s.active_account = Some("prod".to_string());
    assert_eq!(s.resolve_active(None).ok(), Some("prod".to_string()));
    assert_eq!(s.resolve_active(Some("dev")).ok(), Some("dev".to_string()));
}

#[test]
fn settings_get_required_reports_missing_key() {
    let s = Settings::default();
    match s.get_required("editor") {
        Err(CliError::Config(m)) => assert_eq!(m, "Key `editor` not found"),
        _ => panic!("expected a configuration error"),
    }
}

#[test]
fn settings_clear_active_only_for_that_account() {
    let mut s = Settings::new();
    s.active_account = Some("prod".to_string());
    assert!(!s.clear_active_if("dev"));
    assert_eq!(s.active_account, Some("prod".to_string()));
    assert!(s.clear_active_if("prod"));
    assert_eq!(s.active_account, None);
}

#[test]
fn account_defaults() {
    assert_eq!(default_timeout(), 30);
    assert_eq!(default_retries(), 3);
    assert_eq!(default_user_agent(), "jsscli/0.3");
    match AuthModeSer::default() {
        AuthModeSer::Session { email } => assert_eq!(email, ""),
        _ => panic!("default mode is session"),
    }
}

#[test]
fn masked_summary_of_session_account() {
    let mut a = account("prod", "https://erp.example.com", session("me@example.com"));
    a.expected_sitename = Some("erp".to_string());
    a.timeout_secs = 120;
    let s = a.masked_summary();
    let want: Vec<(String, String)> = vec![
        ("name", "prod"),
        ("base_url", "https://erp.example.com"),
        ("expected_sitename", "erp"),
        ("timeout_secs", "120"),
        ("max_retries", "3"),
        ("insecure_ssl", "false"),
        ("mode", "session"),
        ("email", "me@example.com"),
        ("password", "******** (in keyring)"),
    ]
    .into_iter()
    .map(|(k, v)| (k.to_string(), v.to_string()))
    .collect();
    assert_eq!(s, want);
}

#[test]
fn masked_summary_of_token_account() {
    let mut a = account("ci", "https://x", AuthModeSer::Token { api_key: "key1".to_string() });
    a.insecure_ssl = true;
    a.max_retries = 0;
    a.timeout_secs = u64::MAX;
    let s = a.masked_summary();
    assert_eq!(s[2], ("expected_sitename".to_string(), "".to_string()));
    assert_eq!(s[3], ("timeout_secs".to_string(), "18446744073709551615".to_string()));
    assert_eq!(s[4], ("max_retries".to_string(), "0".to_string()));
    assert_eq!(s[5], ("insecure_ssl".to_string(), "true".to_string()));
    assert_eq!(s[6], ("mode".to_string(), "token".to_string()));
    assert_eq!(s[7], ("api_key".to_string(), "key1".to_string()));
    assert_eq!(s[8], ("api_secret".to_string(), "******** (in keyring)".to_string()));
}

#[test]
fn store_upsert_get_remove() {
    let mut store = AccountStore::new();
    store.upsert(account("prod", "https://a", session("a@x")));
    store.upsert(account("dev", "https://b", session("b@x")));
    assert_eq!(store.get("prod").ok().map(|a| a.base_url.clone()), Some("https://a".to_string()));
    store.upsert(account("prod", "https://c", session("c@x")));
    assert_eq!(store.get("prod").ok().map(|a| a.base_url.clone()), Some("https://c".to_string()));
    let names: Vec<String> = store.list().into_iter().map(|a| a.name.clone()).collect();
    assert_eq!(names, vec!["dev".to_string(), "prod".to_string()]);
    assert!(store.remove("dev").is_ok());
    match store.remove("dev") {
        Err(CliError::AccountNotFound(n)) => assert_eq!(n, "dev"),
        _ => panic!("expected AccountNotFound"),
    }
    match store.get("nope") {
        Err(CliError::AccountNotFound(n)) => assert_eq!(n, "nope"),
        _ => panic!("expected AccountNotFound"),
    }
}

#[test]
fn add_requires_url_then_mode_arguments() {
    let e = plan_account_add(None, AuthModeKind::Session, None, None, None, None).err().unwrap();
    assert_eq!(usage_message(e), "--url is required");
    let url = Some("https://x".to_string());
    let e = plan_account_add(url.clone(), AuthModeKind::Session, None, None, None, None).err().unwrap();
    assert_eq!(usage_message(e), "--email is required for session mode");
    let e = plan_account_add(url.clone(), AuthModeKind::Session, Some(String::new()), None, None, None)
        .err()
        .unwrap();
    assert_eq!(usage_message(e), "Email must not be empty");
    let e = plan_account_add(url.clone(), AuthModeKind::Token, None, None, None, None).err().unwrap();
    assert_eq!(usage_message(e), "--api-key is required for token mode");
    let e = plan_account_add(url.clone(), AuthModeKind::Token, None, None, Some(String::new()), None)
        .err()
        .unwrap();
    assert_eq!(usage_message(e), "API Key must not be empty");
    let e = plan_account_add(url.clone(), AuthModeKind::Token, None, None, Some("k".to_string()), None)
        .err()
        .unwrap();
    assert_eq!(usage_message(e), "--api-secret is required for token mode");
    let e = plan_account_add(
        url.clone(),
        AuthModeKind::Token,
        None,
        None,
        Some("k".to_string()),
        Some(String::new()),
    )
    .err()
    .unwrap();
    assert_eq!(usage_message(e), "API Secret must not be empty");
}

#[test]
fn add_plans_secret_or_prompt() {
    let url = Some("https://x".to_string());
    let p = plan_account_add(url.clone(), AuthModeKind::Session, Some("a@b".to_string()), None, None, None)
        .ok()
        .unwrap();
    assert_eq!(p.url, "https://x");
    assert!(p.secret.is_none());
    assert_eq!(p.mode.secret_type(), "password");
    let p = plan_account_add(
        url.clone(),
        AuthModeKind::Session,
        Some("a@b".to_string()),
        Some(String::new()),
        None,
        None,
    )
    .ok()
    .unwrap();
    assert!(p.secret.is_none());
    let p = plan_account_add(
        url.clone(),
        AuthModeKind::Session,
        Some("a@b".to_string()),
        Some("pw".to_string()),
        None,
        None,
    )
    .ok()
    .unwrap();
    assert_eq!(p.secret, Some("pw".to_string()));
    let p = plan_account_add(
        url,
        AuthModeKind::Token,
        Some("ignored".to_string()),
        None,
        Some("k".to_string()),
        Some("s".to_string()),
    )
    .ok()
    .unwrap();
    assert_eq!(p.secret, Some("s".to_string()));
    assert_eq!(p.mode.kind_name(), "token");
    assert_eq!(p.mode.secret_type(), "api_secret");
}

#[test]
fn password_must_not_be_empty() {
    assert_eq!(check_password("x".to_string()).ok(), Some("x".to_string()));
    assert_eq!(usage_message(check_password(String::new()).err().unwrap()), "Password must not be empty");
}

#[test]
fn register_refuses_existing_name() {
    let mut store = AccountStore::new();
    let r = register_account(&mut store, "prod".to_string(), "https://a".to_string(), session("a@x"), None);
    assert!(r.is_ok());
    let a = store.get("prod").ok().unwrap();
    assert_eq!(a.timeout_secs, 30);
    assert_eq!(a.max_retries, 3);
    assert_eq!(a.user_agent, "jsscli/0.3");
    assert!(!a.insecure_ssl);
    let r = register_account(&mut store, "prod".to_string(), "https://b".to_string(), session("b@x"), None);
    assert_eq!(usage_message(r.err().unwrap()), "Account `prod` already exists. Remove it first.");
    assert_eq!(store.get("prod").ok().unwrap().base_url, "https://a");
}

#[test]
fn rows_mark_the_active_account() {
    let mut store = AccountStore::new();
    let mut a = account("prod", "https://a", session("a@x"));
    a.expected_sitename = Some("site".to_string());
    store.upsert(a);
    store.upsert(account("ci", "https://b", AuthModeSer::Token { api_key: "k".to_string() }));
    let rows = account_rows(&store, &Some("prod".to_string()));
    assert_eq!(rows.len(), 2);
    assert_eq!(rows[0].name, "ci");
    assert!(!rows[0].active);
    assert_eq!(rows[0].mode, "token");
    assert_eq!(rows[0].sitename, "");
    assert_eq!(rows[1].name, "prod");
    assert!(rows[1].active);
    assert_eq!(rows[1].mode, "session");
    assert_eq!(rows[1].sitename, "site");
    assert!(account_rows(&store, &None).iter().all(|r| !r.active));
}

#[test]
fn switch_and_show_accounts() {
    let mut store = AccountStore::new();
    store.upsert(account("prod", "https://a", session("a@x")));
    let mut s = Settings::new();
    match switch_active(&mut s, &store, "dev") {
        Err(CliError::AccountNotFound(n)) => assert_eq!(n, "dev"),
        _ => panic!("expected AccountNotFound"),
    }
    assert_eq!(s.active_account, None);
    match show_account(&store, &s, None) {
        Err(CliError::AccountNotFound(n)) => assert_eq!(n, ""),
        _ => panic!("expected AccountNotFound"),
    }
    assert!(switch_active(&mut s, &store, "prod").is_ok());
    assert_eq!(s.active_account, Some("prod".to_string()));
    let shown = show_account(&store, &s, None).ok().unwrap();
    assert_eq!(shown[0], ("name".to_string(), "prod".to_string()));
    let named = show_account(&store, &s, Some("prod".to_string())).ok().unwrap();
    assert_eq!(named, shown);
}

#[test]
fn keyring_entry_names() {
    assert_eq!(secret_entry_name("prod", "password"), "prod-password");
    assert_eq!(secret_entry_name("ci", "api_secret"), "ci-api_secret");
}
