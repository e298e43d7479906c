use ss_uri::padding::remove_unsafe_padding;
use ss_uri::{Host, Method, MethodParseError, SSConfig, SSParseError};

const TOKENS: [&str; 19] = [
    "rc4-md5",
    "aes-128-gcm",
    "aes-192-gcm",
    "aes-256-gcm",
    "aes-128-cfb",
    "aes-192-cfb",
    "aes-256-cfb",
    "aes-128-ctr",
    "aes-192-ctr",
    "aes-256-ctr",
    "camellia-128-cfb",
    "camellia-192-cfb",
    "camellia-256-cfb",
    "bf-cfb",
    "chacha20-ietf-poly1305",
    "salsa20",
    "chacha20",
    "chacha20-ietf",
    "xchacha20-ietf-poly1305",
];

fn sample(method: Method, host: &str, password: &str, tag: Option<&str>) -> SSConfig {
    SSConfig {
        host: Host::parse(host).unwrap(),
        port: 8388,
        method,
        password: password.to_string(),
        tag: tag.map(str::to_string),
        extra: None,
    }
}

#[test]
fn every_token_parses_to_the_method_that_writes_it() {
    for token in TOKENS {
        let method = Method::parse(token).unwrap();
        assert_eq!(method.as_str(), token);
        let again: Method = token.parse().unwrap();
        assert_eq!(again, method);
        let third: Method = token.to_string().try_into().unwrap();
        assert_eq!(third, method);
    }
}

#[test]
fn the_tokens_name_nineteen_different_methods() {
    for (i, a) in TOKENS.iter().enumerate() {
        for (j, b) in TOKENS.iter().enumerate() {
            assert_eq!(Method::parse(a) == Method::parse(b), i == j);
        }
    }
}

#[test]
fn no_other_text_is_a_method() {
    for text in [
        "",
        " ",
        "AES-128-GCM",
        " aes-128-gcm",
        "aes-128-gcm ",
        "aes_128_gcm",
        "aes-128",
        "aes-128-gcmm",
        "xchacha20-ietf-poly130",
        "rc4",
        "none",
    ] {
        assert_eq!(Method::parse(text), Err(MethodParseError::UnknownMethod));
    }
}

#[test]
fn structured_uri_round_trips() {
    for config in [
        sample(Method::Chacha20IetfPoly1305, "192.168.100.1", "test", Some("Foo Bar")),
        sample(Method::Chacha20IetfPoly1305, "example.com", "pass:word with spaces", None),
        sample(Method::Aes128Gcm, "[2001:db8::1]", "小洞不补大洞吃苦", Some("标签 #1")),
        sample(Method::Xchacha20IetfPoly130, "10.0.0.1", "", Some("a&b=c")),
    ] {
        let text = config.to_sip002();
        assert_eq!(SSConfig::parse_sip002(&text), Ok(config.clone()));
        assert_eq!(SSConfig::parse(&text), Ok(config));
    }
}

#[test]
fn legacy_uri_round_trips() {
    for config in [
        sample(Method::Chacha20IetfPoly1305, "192.168.100.1", "test", Some("Foo Bar")),
        sample(Method::Chacha20IetfPoly1305, "example.com", "p@ss:w0rd", None),
        sample(Method::BfCfb, "[2001:db8::1]", "小洞不补大洞吃苦", Some("标签 #1")),
    ] {
        let text = config.to_legacy_base64_encoded();
        assert_eq!(SSConfig::parse_legacy_base64(&text), Ok(config));
    }
}

#[test]
fn a_base64_text_with_a_slash_is_not_read_as_it_was_written() {
    // The base64 text of `aes-128-gcm:???` ends in `/`, where a URI has the
    // start of its path.
    let config = sample(Method::Aes128Gcm, "192.168.100.1", "???", None);
    let text = config.to_sip002();
    assert_eq!(text, "ss://YWVzLTEyOC1nY206Pz8/@192.168.100.1:8388/");
    assert_eq!(SSConfig::parse_sip002(&text), Err(SSParseError::InvalidPort));

    let config = sample(Method::BfCfb, "192.168.100.1", "???", None);
    let text = config.to_legacy_base64_encoded();
    assert_eq!(text, "ss://YmYtY2ZiOj8/P0AxOTIuMTY4LjEwMC4xOjgzODg");
    assert_eq!(SSConfig::parse_legacy_base64(&text), Err(SSParseError::InvalidUrl));
}

#[test]
fn metadata_and_an_empty_tag_are_not_read_as_they_were_written() {
    let mut extra = ss_uri::Extra::new();
    extra.insert("foo".to_string(), "1".to_string());
    let mut config = sample(Method::Aes128Gcm, "192.168.100.1", "test", None);
    config.extra = Some(extra);
    let text = config.to_sip002();
    assert_eq!(text, "ss://YWVzLTEyOC1nY206dGVzdA@192.168.100.1:8388/foo=1");
    assert_eq!(SSConfig::parse_sip002(&text).unwrap().extra, None);

    let config = sample(Method::Aes128Gcm, "192.168.100.1", "test", Some(""));
    let text = config.to_sip002();
    assert_eq!(SSConfig::parse_sip002(&text).unwrap().tag, None);
}

#[test]
fn padding_in_front_of_the_at_sign_changes_nothing() {
    let plain = SSConfig::parse_sip002("ss://YWVzLTEyOC1nY206dGVzdA@192.168.100.1:8888#Foo%20Bar");
    let one = SSConfig::parse_sip002("ss://YWVzLTEyOC1nY206dGVzdA=@192.168.100.1:8888#Foo%20Bar");
    let two = SSConfig::parse_sip002("ss://YWVzLTEyOC1nY206dGVzdA==@192.168.100.1:8888#Foo%20Bar");
    assert!(plain.is_ok());
    assert_eq!(one, plain);
    assert_eq!(two, plain);

    let plain = SSConfig::parse_sip002("ss://YWVzLTEyOC1nY206cGE6c3M6d2Q@example.com:443");
    let padded = SSConfig::parse_sip002("ss://YWVzLTEyOC1nY206cGE6c3M6d2Q=@example.com:443");
    assert!(plain.is_ok());
    assert_eq!(padded, plain);
}

#[test]
fn padding_is_removed_only_next_to_an_at_sign() {
    assert_eq!(remove_unsafe_padding("ss://abc==@host:1#tag"), "ss://abc@host:1#tag");
    assert_eq!(remove_unsafe_padding("ss://abc=@host:1#tag"), "ss://abc@host:1#tag");
    assert_eq!(remove_unsafe_padding("ss://abc@host:1/?a=#tag="), "ss://abc@host:1/?a=#tag=");
    assert_eq!(remove_unsafe_padding("=a=b=="), "=a=b==");
    assert_eq!(remove_unsafe_padding("=a==@=b="), "a@b");
    assert_eq!(remove_unsafe_padding("a=@b=@c"), "a@b@c");
    assert_eq!(remove_unsafe_padding("=@"), "@");
    assert_eq!(remove_unsafe_padding("=@=@"), "@@");
    assert_eq!(remove_unsafe_padding("x=@=@y"), "x@@y");
    assert_eq!(remove_unsafe_padding(""), "");
    assert_eq!(remove_unsafe_padding("é=@ü"), "é@ü");
}

#[test]
fn a_uri_of_the_older_form_falls_back_to_the_older_parser() {
    for input in [
        "ss://YmYtY2ZiOnRlc3RAMTkyLjE2OC4xMDAuMTo4ODg4#Foo Bar",
        "ss://Y2hhY2hhMjAtaWV0Zi1wb2x5MTMwNTpwYXNzdzByZEAxOTIuMTY4LjEwMC4xOjgw",
    ] {
        assert!(SSConfig::parse_sip002(input).is_err());
        let legacy = SSConfig::parse_legacy_base64(input);
        assert!(legacy.is_ok());
        assert_eq!(SSConfig::parse(input), legacy);
    }
}

#[test]
fn a_uri_of_the_structured_form_is_parsed_by_the_structured_parser() {
    let input = "ss://YWVzLTEyOC1nY206dGVzdA@192.168.100.1:8888#Foo%20Bar";
    let structured = SSConfig::parse_sip002(input);
    assert!(structured.is_ok());
    assert_eq!(SSConfig::parse(input), structured);
}

#[test]
fn a_text_that_neither_form_accepts_gets_the_error_of_the_structured_form() {
    // No port: the structured form misses the port, the older form finds
    // no base64 text that splits into fields.
    let input = "ss://YWVzLTEyOC1nY206dGVzdA@192.168.100.1";
    assert_eq!(SSConfig::parse_sip002(input), Err(SSParseError::InvalidPort));
    assert_eq!(SSConfig::parse_legacy_base64(input), Err(SSParseError::InvalidUrl));
    assert_eq!(SSConfig::parse(input), Err(SSParseError::InvalidPort));

    // An unknown method in the structured form.
    let input = "ss://bm9wZTp0ZXN0@192.168.100.1:8888";
    assert_eq!(SSConfig::parse_sip002(input), Err(SSParseError::InvalidMethod));
    assert!(SSConfig::parse_legacy_base64(input).is_err());
    assert_eq!(SSConfig::parse(input), Err(SSParseError::InvalidMethod));

    // Another scheme.
    let input = "http://YWVzLTEyOC1nY206dGVzdA@192.168.100.1:8888";
    assert_eq!(SSConfig::parse_sip002(input), Err(SSParseError::InvalidProtocol));
    assert_eq!(SSConfig::parse_legacy_base64(input), Err(SSParseError::InvalidProtocol));
    assert_eq!(SSConfig::parse(input), Err(SSParseError::InvalidProtocol));
}
