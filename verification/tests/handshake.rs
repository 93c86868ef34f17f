use spautofy::authorize::{auth, callback, done, index, CallbackAbort, DoneOutcome};
use spautofy::config::{SpautofyConfig, SpautofyConfigFile};

fn test_config() -> SpautofyConfig {
    let file = SpautofyConfigFile {
        address: None,
        port: None,
        client_id: "abc".to_string(),
        client_secret: "xyz".to_string(),
    };
    SpautofyConfig::from_file(file)
}

#[test]
fn index_routes_by_captured_code() {
    let mut config = test_config();
    assert_eq!(index(&config), "/auth");
    config.user_auth_code = Some("C1".to_string());
    assert_eq!(index(&config), "/done");
}

#[test]
fn redirect_uri_is_derived_from_defaults() {
    let config = test_config();
    assert_eq!(config.redirect_url(), "http://127.0.0.1:3000/callback");
}

#[test]
fn auth_url_encodes_every_parameter() {
    let mut config = test_config();
    config.random_state = "S1".to_string();
    let url = config.auth_request();
    let expected = "https://accounts.spotify.com/authorize?client_id=abc\
&response_type=code\
&redirect_uri=http%3A%2F%2F127.0.0.1%3A3000%2Fcallback\
&scope=user-top-read+playlist-read-private+playlist-modify-private\
&show_dialog=true&state=S1";
    assert_eq!(url, expected);
}

#[test]
fn auth_issues_a_fresh_thirty_char_token() {
    let mut config = test_config();
    let url = auth(&mut config);
    assert_eq!(config.random_state.len(), 30);
    assert!(config.random_state.chars().all(|c| c.is_ascii_alphanumeric()));
    assert!(url.ends_with(&format!("&state={}", config.random_state)));
    let first = config.random_state.clone();
    auth(&mut config);
    assert_ne!(first, config.random_state);
}

#[test]
fn callback_state_mismatch_aborts_without_storing() {
    let mut config = test_config();
    config.random_state = "S2".to_string();
    let r = callback(&mut config, "S1".to_string(), Some("C1".to_string()), None);
    assert!(matches!(r, Err(CallbackAbort::StateMismatch)));
    assert!(config.user_auth_code.is_none());
}

#[test]
fn callback_without_issued_token_aborts() {
    let mut config = test_config();
    let r = callback(&mut config, "".to_string(), Some("C1".to_string()), None);
    assert!(matches!(r, Err(CallbackAbort::StateMismatch)));
    assert!(config.user_auth_code.is_none());
}

#[test]
fn callback_provider_error_aborts_without_storing() {
    let mut config = test_config();
    config.random_state = "S1".to_string();
    let r = callback(
        &mut config,
        "S1".to_string(),
        None,
        Some("access_denied".to_string()),
    );
    match r {
        Err(CallbackAbort::ProviderDenied(e)) => assert_eq!(e, "access_denied"),
        _ => panic!("expected the provider's error to abort the handshake"),
    }
    assert!(config.user_auth_code.is_none());
}

#[test]
fn callback_with_neither_code_nor_error_aborts() {
    let mut config = test_config();
    config.random_state = "S1".to_string();
    let r = callback(&mut config, "S1".to_string(), None, None);
    assert!(matches!(r, Err(CallbackAbort::MissingCode)));
    assert!(config.user_auth_code.is_none());
}

#[test]
fn callback_with_matching_state_stores_the_code() {
    let mut config = test_config();
    config.random_state = "S1".to_string();
    let r = callback(&mut config, "S1".to_string(), Some("C1".to_string()), None);
    assert_eq!(r.unwrap(), "/done");
    assert_eq!(config.user_auth_code.as_deref(), Some("C1"));
}

#[test]
fn done_before_a_code_redirects_to_auth() {
    let config = test_config();
    assert!(matches!(done(&config), DoneOutcome::RedirectToAuth));
}

#[test]
fn done_persists_and_a_fresh_run_starts_over() {
    let mut config = test_config();
    config.random_state = "S1".to_string();
    let r = callback(&mut config, "S1".to_string(), Some("C1".to_string()), None);
    assert_eq!(r.unwrap(), "/done");
    let text = match done(&config) {
        DoneOutcome::Complete(text) => text,
        DoneOutcome::RedirectToAuth => panic!("a captured code must complete the handshake"),
    };
    assert_eq!(
        text,
        "{\"address\":\"127.0.0.1\",\"port\":3000,\"client_id\":\"abc\",\"client_secret\":\"xyz\"}"
    );
    let reloaded = SpautofyConfigFile::parse(&text).unwrap();
    let fresh = SpautofyConfig::from_file(reloaded);
    assert!(fresh.user_auth_code.is_none());
    assert_eq!(index(&fresh), "/auth");
}
