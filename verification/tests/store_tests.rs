use spautofy::config::{BindAddress, SpautofyConfig, SpautofyConfigFile};
use spautofy::store::parse_ipv4;
use spautofy::u16_to_decimal;

#[test]
fn serialize_then_parse_reconstructs_the_file() {
    let file = SpautofyConfigFile {
        address: Some(BindAddress { o1: 10, o2: 0, o3: 0, o4: 7 }),
        port: Some(8080),
        client_id: "abc".to_string(),
        client_secret: "xyz".to_string(),
    };
    let text = file.serialize();
    assert_eq!(
        text,
        "{\"address\":\"10.0.0.7\",\"port\":8080,\"client_id\":\"abc\",\"client_secret\":\"xyz\"}"
    );
    let back = SpautofyConfigFile::parse(&text).unwrap();
    assert_eq!(back.address, Some(BindAddress { o1: 10, o2: 0, o3: 0, o4: 7 }));
    assert_eq!(back.port, Some(8080));
    assert_eq!(back.client_id, "abc");
    assert_eq!(back.client_secret, "xyz");
}

#[test]
fn roundtrip_escapes_quotes_and_backslashes() {
    let file = SpautofyConfigFile {
        address: None,
        port: None,
        client_id: "a\"b\\c".to_string(),
        client_secret: "plain".to_string(),
    };
    let text = file.serialize();
    let back = SpautofyConfigFile::parse(&text).unwrap();
    assert_eq!(back.client_id, "a\"b\\c");
    assert_eq!(back.client_secret, "plain");
    assert_eq!(back.address, None);
    assert_eq!(back.port, None);
}

#[test]
fn omitted_fields_reload_with_defaults() {
    let text = "{\"client_id\":\"abc\",\"client_secret\":\"xyz\"}";
    let file = SpautofyConfigFile::parse(text).unwrap();
    assert_eq!(file.address, None);
    assert_eq!(file.port, None);
    let config = SpautofyConfig::from_file(file);
    assert_eq!(config.address, BindAddress { o1: 127, o2: 0, o3: 0, o4: 1 });
    assert_eq!(config.port, 3000);
    assert_eq!(config.redirect_url(), "http://127.0.0.1:3000/callback");
}

#[test]
fn members_are_found_in_any_order() {
    let text = "{\"client_secret\":\"xyz\",\"port\":4000,\"client_id\":\"abc\"}";
    let file = SpautofyConfigFile::parse(text).unwrap();
    assert_eq!(file.port, Some(4000));
    assert_eq!(file.client_id, "abc");
    assert_eq!(file.client_secret, "xyz");
}

#[test]
fn unknown_members_are_ignored() {
    let text = "{\"note\":\"keep\",\"client_id\":\"abc\",\"client_secret\":\"xyz\"}";
    let file = SpautofyConfigFile::parse(text).unwrap();
    assert_eq!(file.client_id, "abc");
}

#[test]
fn missing_credentials_are_rejected() {
    assert!(SpautofyConfigFile::parse("{\"client_id\":\"abc\"}").is_none());
    assert!(SpautofyConfigFile::parse("{\"client_secret\":\"xyz\"}").is_none());
    assert!(SpautofyConfigFile::parse("{}").is_none());
}

#[test]
fn malformed_texts_are_rejected() {
    assert!(SpautofyConfigFile::parse("").is_none());
    assert!(SpautofyConfigFile::parse("not json").is_none());
    assert!(SpautofyConfigFile::parse("{\"client_id\":\"abc\"").is_none());
    assert!(
        SpautofyConfigFile::parse("{\"client_id\":\"abc\",\"client_secret\":\"xyz\"}trailing")
            .is_none()
    );
    assert!(SpautofyConfigFile::parse("{\"client_id\":1,\"client_secret\":\"xyz\"}").is_none());
    assert!(
        SpautofyConfigFile::parse(
            "{\"port\":\"3000\",\"client_id\":\"abc\",\"client_secret\":\"xyz\"}"
        )
        .is_none()
    );
    assert!(
        SpautofyConfigFile::parse(
            "{\"port\":70000,\"client_id\":\"abc\",\"client_secret\":\"xyz\"}"
        )
        .is_none()
    );
    assert!(
        SpautofyConfigFile::parse(
            "{\"address\":\"127.0.0\",\"client_id\":\"abc\",\"client_secret\":\"xyz\"}"
        )
        .is_none()
    );
}

#[test]
fn dotted_quads_parse_exactly() {
    assert_eq!(
        parse_ipv4("192.168.0.1"),
        Some(BindAddress { o1: 192, o2: 168, o3: 0, o4: 1 })
    );
    assert_eq!(parse_ipv4("0.0.0.0"), Some(BindAddress { o1: 0, o2: 0, o3: 0, o4: 0 }));
    assert_eq!(parse_ipv4("256.0.0.1"), None);
    assert_eq!(parse_ipv4("1.2.3"), None);
    assert_eq!(parse_ipv4("1.2.3.4.5"), None);
    assert_eq!(parse_ipv4("1.2.3.x"), None);
    assert_eq!(parse_ipv4(""), None);
}

#[test]
fn whitespace_and_pretty_printed_files_load() {
    let text = "{ \"client_id\":\"a\",\"client_secret\":\"b\"}";
    let file = SpautofyConfigFile::parse(text).unwrap();
    assert_eq!(file.client_id, "a");
    assert_eq!(file.client_secret, "b");
    let pretty = "{\n  \"address\": \"10.0.0.7\",\n  \"port\": 8080,\n  \
\"client_id\": \"abc\",\n  \"client_secret\": \"xyz\"\n}\n";
    let file = SpautofyConfigFile::parse(pretty).unwrap();
    assert_eq!(file.address, Some(BindAddress { o1: 10, o2: 0, o3: 0, o4: 7 }));
    assert_eq!(file.port, Some(8080));
    assert_eq!(file.client_id, "abc");
    assert_eq!(file.client_secret, "xyz");
}

#[test]
fn unknown_members_of_any_shape_are_ignored() {
    let text = "{\"note\":{\"a\":[1,2,{\"b\":\"c,}\"}]},\"flag\":true,\
\"ratio\":-1.5e3,\"empty\":null,\"big\":99999999999999999999999,\
\"frac\":1.25,\"client_id\":\"abc\",\"client_secret\":\"xyz\"}";
    let file = SpautofyConfigFile::parse(text).unwrap();
    assert_eq!(file.client_id, "abc");
    assert_eq!(file.client_secret, "xyz");
    assert_eq!(file.address, None);
    assert_eq!(file.port, None);
}

#[test]
fn simple_string_escapes_are_decoded() {
    let text = "{\"client_id\":\"a\\/b\\n\\tc\",\"client_secret\":\"x\\\"y\"}";
    let file = SpautofyConfigFile::parse(text).unwrap();
    assert_eq!(file.client_id, "a/b\n\tc");
    assert_eq!(file.client_secret, "x\"y");
    let bad = "{\"client_id\":\"a\\u0041\",\"client_secret\":\"x\"}";
    assert!(SpautofyConfigFile::parse(bad).is_none());
}

#[test]
fn duplicate_keys_take_the_last_occurrence() {
    let text = "{\"client_id\":\"old\",\"client_id\":\"new\",\"client_secret\":\"xyz\"}";
    let file = SpautofyConfigFile::parse(text).unwrap();
    assert_eq!(file.client_id, "new");
}

#[test]
fn a_required_member_of_the_wrong_shape_is_rejected() {
    assert!(
        SpautofyConfigFile::parse("{\"client_id\":{\"x\":1},\"client_secret\":\"xyz\"}")
            .is_none()
    );
    assert!(
        SpautofyConfigFile::parse(
            "{\"client_id\":\"abc\",\"client_secret\":\"xyz\",\"port\":true}"
        )
        .is_none()
    );
}

#[test]
fn decimal_rendering_is_exact() {
    assert_eq!(u16_to_decimal(0), "0");
    assert_eq!(u16_to_decimal(3000), "3000");
    assert_eq!(u16_to_decimal(65535), "65535");
}
