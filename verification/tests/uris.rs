use ss_uri::{Host, Method, SSConfig};

#[test]
fn should_parse_a_valid_sip002() {
    let config =
        SSConfig::parse("ss://YWVzLTEyOC1nY206dGVzdA@192.168.100.1:8888#Foo%20Bar").unwrap();

    assert_eq!((config.method), ("aes-128-gcm").try_into().unwrap());
    assert_eq!((config.password), ("test"));
    assert_eq!((config.host), Host::parse("192.168.100.1").unwrap());
    assert_eq!((config.port), (8888));
    assert_eq!((config.tag), Some("Foo Bar".into()));
}

#[test]
fn should_parse_a_valid_legacy_shadowsocks_uri() {
    let input = "ss://YmYtY2ZiOnRlc3RAMTkyLjE2OC4xMDAuMTo4ODg4#Foo Bar";
    let config = SSConfig::parse(input).unwrap();

    assert_eq!(config.method, Method::BfCfb);
    assert_eq!(config.password, "test");
    assert_eq!(config.host, Host::parse("192.168.100.1").unwrap());
    assert_eq!(config.port, 8888);
    assert_eq!(config.tag, Some("Foo Bar".to_string()));
    assert_eq!(config.extra, None);
}

#[test]
fn can_serialize_a_sip002_uri() {
    let config = SSConfig {
        host: Host::parse("192.168.100.1").unwrap(),
        port: 8888,
        method: Method::Aes128Gcm,
        password: "test".to_string(),
        tag: Some("Foo Bar".to_string()),
        extra: None,
    };
    assert_eq!(
        config.to_sip002(),
        "ss://YWVzLTEyOC1nY206dGVzdA@192.168.100.1:8888/#Foo%20Bar"
    );
}

#[test]
fn can_serialize_a_sip002_uri_with_a_non_latin_password() {
    let config = SSConfig {
        host: Host::parse("192.168.100.1").unwrap(),
        port: "8888".parse().unwrap(),
        method: "aes-128-gcm".parse().unwrap(),
        password: "小洞不补大洞吃苦".into(),
        tag: Some("Foo Bar".into()),
        extra: None,
    };
    assert_eq!(
        config.to_sip002(),
        "ss://YWVzLTEyOC1nY2065bCP5rSe5LiN6KGl5aSn5rSe5ZCD6Ium@192.168.100.1:8888/#Foo%20Bar"
    )
}

#[test]
fn can_serialize_a_sip002_uri_with_ipv6_host() {
    let config = SSConfig {
        host: Host::parse("[2001:0:ce49:7601:e866:efff:62c3:fffe]").unwrap(),
        port: "8888".parse().unwrap(),
        method: "aes-128-gcm".parse().unwrap(),
        password: "test".into(),
        tag: Some("Foo Bar".into()),
        extra: None,
    };

    assert_eq!(
        config.to_sip002(),
        "ss://YWVzLTEyOC1nY206dGVzdA@[2001:0:ce49:7601:e866:efff:62c3:fffe]:8888/#Foo%20Bar"
    );
}

#[test]
fn can_serialize_a_legacy_base64_uri() {
    let config = SSConfig {
        host: Host::parse("192.168.100.1").unwrap(),
        port: 8888,
        method: Method::BfCfb,
        password: "test".to_string(),
        tag: Some("Foo Bar".to_string()),
        extra: None,
    };
    assert_eq!(
        config.to_legacy_base64_encoded(),
        "ss://YmYtY2ZiOnRlc3RAMTkyLjE2OC4xMDAuMTo4ODg4#Foo%20Bar"
    );
}

#[test]
fn can_serialize_a_legacy_base64_uri_with_a_non_latin_password() {
    let config = SSConfig {
        host: Host::parse("192.168.100.1").unwrap(),
        port: "8888".parse().unwrap(),
        method: "bf-cfb".parse().unwrap(),
        password: "小洞不补大洞吃苦".into(),
        tag: Some("Foo Bar".into()),
        extra: None,
    };
    assert_eq!(
        config.to_legacy_base64_encoded(),
        "ss://YmYtY2ZiOuWwj+a0nuS4jeihpeWkp+a0nuWQg+iLpkAxOTIuMTY4LjEwMC4xOjg4ODg#Foo%20Bar"
    )
}

#[test]
fn can_parse_a_valid_sip002_uri_with_ipv4_host() {
    let input = "ss://YWVzLTEyOC1nY206dGVzdA@192.168.100.1:8888#Foo%20Bar";
    let config = SSConfig::parse_sip002(input).unwrap();

    assert_eq!((config.method), ("aes-128-gcm").try_into().unwrap());
    assert_eq!((config.password), ("test"));
    assert_eq!((config.host), Host::parse("192.168.100.1").unwrap());
    assert_eq!((config.port), (8888));
    assert_eq!((config.tag), Some("Foo Bar".into()));
}

#[test]
fn can_parse_a_sip002_uri_with_non_uri_safe_base64_padding() {
    let input = "ss://YWVzLTEyOC1nY206dGVzdA==@192.168.100.1:8888#Foo%20Bar";
    let config = SSConfig::parse_sip002(input).unwrap();

    assert_eq!((config.method), ("aes-128-gcm").try_into().unwrap());
    assert_eq!((config.password), ("test"));
    assert_eq!((config.host), Host::parse("192.168.100.1").unwrap());
    assert_eq!((config.port), (8888));
    assert_eq!((config.tag), Some("Foo Bar".into()));
}

#[test]
fn can_parse_a_valid_sip002_uri_with_ipv6_host() {
    let input = "ss://YWVzLTEyOC1nY206dGVzdA@[2001:0:ce49:7601:e866:efff:62c3:fffe]:8888";
    let config = SSConfig::parse_sip002(input).unwrap();

    assert_eq!((config.method), ("aes-128-gcm").try_into().unwrap());
    assert_eq!((config.password), ("test"));
    assert_eq!(
        (config.host),
        Host::parse("[2001:0:ce49:7601:e866:efff:62c3:fffe]").unwrap()
    );
    assert_eq!((config.port), (8888));
}

#[test]
fn can_parse_a_valid_sip002_uri_with_a_compressed_ipv6_host() {
    let input = "ss://YWVzLTEyOC1nY206dGVzdA@[2001::fffe]:8888";
    let config = SSConfig::parse_sip002(input).unwrap();

    assert_eq!((config.method), ("aes-128-gcm").try_into().unwrap());
    assert_eq!((config.password), ("test"));
    assert_eq!(
        (config.host),
        Host::parse("[2001:0:0:0:0:0:0:fffe]").unwrap()
    );
    assert_eq!((config.port), (8888));
}

#[test]
fn can_parse_a_valid_sip002_uri_with_a_non_latin_password() {
    let input = "ss://YWVzLTEyOC1nY2065bCP5rSe5LiN6KGl5aSn5rSe5ZCD6Ium@192.168.100.1:8888";
    let config = SSConfig::parse_sip002(input).unwrap();

    assert_eq!((config.method), ("aes-128-gcm").try_into().unwrap());
    assert_eq!((config.password), ("小洞不补大洞吃苦"));
    assert_eq!((config.host), Host::parse("192.168.100.1").unwrap());
    assert_eq!((config.port), (8888));
}

#[test]
fn can_parse_a_valid_sip002_uri_with_an_arbitrary_query_param() {
    let input = "ss://cmM0LW1kNTpwYXNzd2Q@192.168.100.1:8888/?foo=1";
    let config = SSConfig::parse_sip002(input).unwrap();

    assert_eq!((config.extra.unwrap().get("foo").unwrap()), ("1"));
}

#[test]
fn can_parse_a_valid_sip002_uri_with_a_plugin_param() {
    let input = "ss://cmM0LW1kNTpwYXNzd2Q@192.168.100.1:8888/?plugin=obfs-local%3Bobfs%3Dhttp";
    let config = SSConfig::parse_sip002(input).unwrap();

    assert_eq!((config.method), ("rc4-md5").try_into().unwrap());
    assert_eq!((config.password), ("passwd"));
    assert_eq!((config.host), Host::parse("192.168.100.1").unwrap());
    assert_eq!((config.port), (8888));
    assert_eq!(
        (config.extra.unwrap().get("plugin").unwrap()),
        ("obfs-local;obfs=http")
    );
}

#[test]
fn can_parse_a_valid_sip002_uri_with_the_default_http_port_and_no_plugin_parameters() {
    let input = "ss://cmM0LW1kNTpwYXNzd2Q@192.168.100.1:80";
    let config = SSConfig::parse_sip002(input).unwrap();

    assert_eq!((config.method), ("rc4-md5").try_into().unwrap());
    assert_eq!((config.password), ("passwd"));
    assert_eq!((config.host), Host::parse("192.168.100.1").unwrap());
    assert_eq!((config.port), (80));
}

#[test]
fn can_parse_a_valid_sip002_uri_with_the_default_http_port_and_parameters() {
    let input = "ss://cmM0LW1kNTpwYXNzd2Q@192.168.100.1:80/?foo=1&bar=";
    let config = SSConfig::parse_sip002(input).unwrap();

    assert_eq!((config.method), ("rc4-md5").try_into().unwrap());
    assert_eq!((config.password), ("passwd"));
    assert_eq!((config.host), Host::parse("192.168.100.1").unwrap());
    assert_eq!((config.port), (80));
}

#[test]
fn can_parse_a_legacy_uri_with_the_at_symbol_and_other_symbols_in_the_password() {
    let input =
        "ss://YmYtY2ZiOnRlc3QvIUAjOi5fLV4nIiRAJUAxOTIuMTY4LjEwMC4xOjg4ODg#server_by_tim@shadowsocks.org";
    let config = SSConfig::parse_legacy_base64(input).unwrap();

    assert_eq!((config.password), (r###"test/!@#:._-^'"$@%"###));
}

#[test]
fn can_parse_a_valid_legacy_base64_uri_with_ipv4_host() {
    let input = "ss://YmYtY2ZiOnRlc3RAMTkyLjE2OC4xMDAuMTo4ODg4#Foo Bar";
    let config = SSConfig::parse_legacy_base64(input).unwrap();

    assert_eq!(config.method, Method::BfCfb);
    assert_eq!(config.password, "test");
    assert_eq!(config.host, Host::parse("192.168.100.1").unwrap());
    assert_eq!(config.port, 8888);
    assert_eq!(config.tag, Some("Foo Bar".to_string()));
    assert_eq!(config.extra, None);
}

#[test]
fn can_parse_a_valid_legacy_base64_uri_with_ipv6_host() {
    let input = "ss://YmYtY2ZiOnRlc3RAWzIwMDE6MDpjZTQ5Ojc2MDE6ZTg2NjplZmZmOjYyYzM6ZmZmZV06ODg4OA";
    let config = SSConfig::parse_legacy_base64(input).unwrap();

    assert_eq!(
        (config.host),
        Host::parse("[2001:0:ce49:7601:e866:efff:62c3:fffe]").unwrap()
    );
    assert_eq!((config.port), (8888));
    assert_eq!((config.method), ("bf-cfb").try_into().unwrap());
    assert_eq!((config.password), ("test"));
    assert_eq!((config.tag), None);
}

#[test]
fn can_parse_a_valid_legacy_base64_uri_default_http_port() {
    let input = "ss://Y2hhY2hhMjAtaWV0Zi1wb2x5MTMwNTpwYXNzdzByZEAxOTIuMTY4LjEwMC4xOjgw";
    let config = SSConfig::parse_legacy_base64(input).unwrap();

    assert_eq!((config.host), Host::parse("192.168.100.1").unwrap());
    assert_eq!((config.port), (80));
    assert_eq!(
        (config.method),
        ("chacha20-ietf-poly1305").try_into().unwrap()
    );
    assert_eq!((config.password), ("passw0rd"));
}

#[test]
fn can_parse_a_valid_legacy_base64_uri_with_a_non_latin_password() {
    let input =
        "ss://YmYtY2ZiOuWwj+a0nuS4jeihpeWkp+a0nuWQg+iLpkAxOTIuMTY4LjEwMC4xOjg4ODg#Foo%20Bar";
    let config = SSConfig::parse_legacy_base64(input).unwrap();

    assert_eq!((config.method), ("bf-cfb").try_into().unwrap());
    assert_eq!((config.password), ("小洞不补大洞吃苦"));
    assert_eq!((config.host), Host::parse("192.168.100.1").unwrap());
    assert_eq!((config.port), (8888));
    assert_eq!((config.tag), Some("Foo Bar".into()));
}
