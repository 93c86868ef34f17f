use spautofy::actions::{
    playlist_create_body, playlist_name, playlist_tracks_body, todays_playlist_name, TimeRange,
};
use spautofy::authorize::{
    interpret_token_response, parse_token_response, token_request_decision, Access,
    AuthorizeError, TokenDecision,
};
use spautofy::config::{SpautofyConfig, SpautofyConfigFile};
use spautofy::user_info::{get_user_access, parse_user_response};

fn test_config(code: Option<&str>) -> SpautofyConfig {
    let file = SpautofyConfigFile {
        address: None,
        port: None,
        client_id: "abc".to_string(),
        client_secret: "xyz".to_string(),
    };
    let mut config = SpautofyConfig::from_file(file);
    config.user_auth_code = code.map(|c| c.to_string());
    config
}

fn test_access(received_at: u64, expires_in: u64) -> Access {
    Access {
        access_token: "AT".to_string(),
        scope: "user-top-read".to_string(),
        expires_in,
        refresh_token: "RT".to_string(),
        received_at,
    }
}

#[test]
fn exchange_without_a_code_fails() {
    let config = test_config(None);
    let d = token_request_decision(&config, None, 0);
    match d {
        TokenDecision::Failed(e) => {
            assert!(matches!(e, AuthorizeError::NoUserAuthCode));
            assert_eq!(e.message(), "Have not received user authorization yet.");
        },
        _ => panic!("a missing code must fail the token step"),
    }
}

#[test]
fn valid_token_is_reused_without_a_request() {
    let config = test_config(Some("C1"));
    let access = test_access(1000, 3600);
    let d = token_request_decision(&config, Some(access), 1000 + 3600);
    match d {
        TokenDecision::UseExisting(a) => assert_eq!(a.access_token, "AT"),
        _ => panic!("a non-expired token set must be a pure read"),
    }
}

#[test]
fn expired_token_leads_to_a_refresh_request() {
    let config = test_config(Some("C1"));
    let access = test_access(1000, 3600);
    let d = token_request_decision(&config, Some(access), 1000 + 3601);
    match d {
        TokenDecision::RequestTokens(body) => {
            assert_eq!(body, "grant_type=refresh_token&refresh_token=RT");
        },
        _ => panic!("an expired token set must be refreshed"),
    }
}

#[test]
fn first_exchange_posts_the_code() {
    let config = test_config(Some("C1"));
    let d = token_request_decision(&config, None, 0);
    match d {
        TokenDecision::RequestTokens(body) => {
            assert_eq!(
                body,
                "grant_type=authorization_code&code=C1\
&redirect_uri=http%3A%2F%2F127.0.0.1%3A3000%2Fcallback"
            );
        },
        _ => panic!("without a token set the code must be exchanged"),
    }
}

#[test]
fn token_response_sets_the_receipt_time() {
    let body = "{\"access_token\":\"AT\",\"token_type\":\"Bearer\",\
\"scope\":\"user-top-read\",\"expires_in\":3600,\"refresh_token\":\"RT\"}";
    let access = parse_token_response(body, 1000).unwrap();
    assert_eq!(access.access_token, "AT");
    assert_eq!(access.scope, "user-top-read");
    assert_eq!(access.expires_in, 3600);
    assert_eq!(access.refresh_token, "RT");
    assert_eq!(access.received_at, 1000);
    assert!(!access.is_expired(1000));
    assert!(!access.is_expired(1000 + 3600));
    assert!(access.is_expired(1000 + 3601));
}

#[test]
fn pretty_printed_token_response_parses() {
    let body = "{\n  \"access_token\": \"AT\",\n  \"token_type\": \"Bearer\",\n  \
\"scope\": \"user-top-read\",\n  \"expires_in\": 3600,\n  \"refresh_token\": \"RT\"\n}";
    let access = parse_token_response(body, 5).unwrap();
    assert_eq!(access.access_token, "AT");
    assert_eq!(access.scope, "user-top-read");
    assert_eq!(access.expires_in, 3600);
    assert_eq!(access.refresh_token, "RT");
    assert_eq!(access.received_at, 5);
}

#[test]
fn rejected_exchange_surfaces_as_expired_code() {
    let body = "{\"error\":\"invalid_grant\",\"error_description\":\"Invalid authorization code\"}";
    let parsed = parse_token_response(body, 1000);
    assert!(parsed.is_none());
    let r = interpret_token_response(parsed);
    match r {
        Err(e) => {
            assert!(matches!(e, AuthorizeError::ExpiredUserCode));
            assert_eq!(e.message(), "User code has expired.");
        },
        Ok(_) => panic!("a provider rejection must surface as an expired code"),
    }
}

#[test]
fn token_response_missing_a_field_is_rejected() {
    let body = "{\"access_token\":\"AT\",\"scope\":\"s\",\"expires_in\":3600}";
    assert!(parse_token_response(body, 0).is_none());
    let body = "{\"access_token\":\"AT\",\"scope\":\"s\",\
\"expires_in\":\"soon\",\"refresh_token\":\"RT\"}";
    assert!(parse_token_response(body, 0).is_none());
}

#[test]
fn transport_failures_wrap_the_underlying_error() {
    let err = reqwest::Client::new()
        .get("ht tp://not a url")
        .build()
        .unwrap_err();
    let wrapped = AuthorizeError::from(err);
    assert!(matches!(wrapped, AuthorizeError::RequestError(_)));
    assert_eq!(wrapped.message(), "Request error.");
}

#[test]
fn bearer_header_carries_the_token() {
    let access = test_access(0, 60);
    assert_eq!(access.bearer_header(), "Bearer AT");
}

#[test]
fn authorize_attaches_the_bearer_header() {
    let access = test_access(0, 60);
    let builder = reqwest::Client::new().get("https://api.spotify.com/v1/me");
    let request = access.authorize(builder).build().unwrap();
    let header = request.headers().get("authorization").unwrap();
    assert_eq!(header.to_str().unwrap(), "Bearer AT");
}

#[test]
fn who_am_i_resolves_the_session() {
    let user = parse_user_response("{\"display_name\":\"Alice\",\"id\":\"u1\"}").unwrap();
    assert_eq!(user.display_name, "Alice");
    assert_eq!(user.id, "u1");
    let ua = get_user_access(test_access(0, 60), Some(user)).unwrap();
    assert_eq!(ua.user.id, "u1");
    assert_eq!(ua.access.access_token, "AT");
}

#[test]
fn real_shaped_identity_answer_resolves() {
    let body = "{\n  \"country\": \"US\",\n  \"display_name\": \"Alice\",\n  \
\"explicit_content\": {\"filter_enabled\": false, \"filter_locked\": false},\n  \
\"external_urls\": {\"spotify\": \"https://open.spotify.com/user/u1\"},\n  \
\"followers\": {\"href\": null, \"total\": 0},\n  \
\"images\": [{\"url\": \"https://i.scdn.co/image/x\", \"height\": 64, \"width\": 64}],\n  \
\"id\": \"u1\",\n  \"product\": \"premium\"\n}";
    let user = parse_user_response(body).unwrap();
    assert_eq!(user.display_name, "Alice");
    assert_eq!(user.id, "u1");
}

#[test]
fn unresolved_identity_is_an_error() {
    assert!(parse_user_response("{\"id\":\"u1\"}").is_none());
    let r = get_user_access(test_access(0, 60), None);
    match r {
        Err(e) => assert_eq!(e.message(), "Unknown error."),
        Ok(_) => panic!("a missing user must be an error"),
    }
}

#[test]
fn playlist_names_carry_range_and_date() {
    assert_eq!(
        playlist_name(TimeRange::ShortTerm, 2024, 3, 7),
        "Spautofy short_term Top Tracks 07-03-2024"
    );
    assert_eq!(
        playlist_name(TimeRange::MediumTerm, 2024, 12, 31),
        "Spautofy medium_term Top Tracks 31-12-2024"
    );
    let today = todays_playlist_name(TimeRange::LongTerm);
    assert!(today.starts_with("Spautofy long_term Top Tracks "));
}

#[test]
fn playlist_bodies_are_rendered_exactly() {
    assert_eq!(
        playlist_create_body("My List", false, None, false),
        "{\"name\":\"My List\",\"public\":false,\"description\":\"\",\"collaborative\":false}"
    );
    assert_eq!(
        playlist_create_body("A \"B\"", true, Some("desc"), true),
        "{\"name\":\"A \\\"B\\\"\",\"public\":true,\"description\":\"desc\",\"collaborative\":true}"
    );
    let uris = vec!["spotify:track:1".to_string(), "spotify:track:2".to_string()];
    assert_eq!(
        playlist_tracks_body(&uris),
        "{\"uris\":[\"spotify:track:1\",\"spotify:track:2\"]}"
    );
    let none: Vec<String> = vec![];
    assert_eq!(playlist_tracks_body(&none), "{\"uris\":[]}");
}
