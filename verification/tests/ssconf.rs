use percent_encoding::{percent_encode, NON_ALPHANUMERIC};
use ss_uri::{SIP008Config, SIP008ParseError};
use url::Url;

#[test]
fn can_parse_a_valid_ssconf_uri_with_domain_name_and_extras() {
    let input = "ssconf://my.domain.com/secret/long/path#certFp=AA:BB:CC:DD:EE:FF&httpMethod=POST";
    let online_config = SIP008Config::parse(input).unwrap();
    let url = Url::parse(&online_config.location).unwrap();
    assert_eq!(
        url,
        Url::parse("https://my.domain.com/secret/long/path").unwrap()
    );
    assert_eq!(
        online_config.cert_finger_print,
        Some("AA:BB:CC:DD:EE:FF".to_string())
    );
    assert_eq!(online_config.http_method, Some("POST".to_string()));
}

#[test]
fn can_parse_a_valid_ssconf_uri_with_domain_name_and_custom_port() {
    let input = "ssconf://my.domain.com:9090/secret/long/path#certFp=AA:BB:CC:DD:EE:FF";
    let online_config = SIP008Config::parse(input).unwrap();
    let url = Url::parse(&online_config.location).unwrap();
    assert_eq!(
        url,
        Url::parse("https://my.domain.com:9090/secret/long/path").unwrap()
    );
    assert_eq!(
        online_config.cert_finger_print,
        Some("AA:BB:CC:DD:EE:FF".to_string())
    );
}

#[test]
fn can_parse_a_valid_ssconf_uri_with_hostname_and_no_path() {
    let input = "ssconf://my.domain.com";
    let online_config = SIP008Config::parse(input).unwrap();
    let url = Url::parse(&online_config.location).unwrap();
    assert_eq!(url, Url::parse("https://my.domain.com").unwrap());
    assert_eq!(online_config.cert_finger_print, None);
}

#[test]
fn can_parse_a_valid_ssconf_uri_with_ipv4_address() {
    let input = "ssconf://1.2.3.4/secret/long/path#certFp=AA:BB:CC:DD:EE:FF&other=param";
    let online_config = SIP008Config::parse(input).unwrap();
    let url = Url::parse(&online_config.location).unwrap();
    assert_eq!(url, Url::parse("https://1.2.3.4/secret/long/path").unwrap());
    assert_eq!(
        online_config.cert_finger_print,
        Some("AA:BB:CC:DD:EE:FF".to_string())
    );
}

#[test]
fn can_parse_a_valid_ssconf_uri_with_ipv6_address_and_custom_port() {
    let input = "ssconf://[2001:0:ce49:7601:e866:efff:62c3:fffe]:8081/secret/long/path#certFp=AA:BB:CC:DD:EE:FF";
    let online_config = SIP008Config::parse(input).unwrap();
    let url = Url::parse(&online_config.location).unwrap();
    assert_eq!(
        url,
        Url::parse("https://[2001:0:ce49:7601:e866:efff:62c3:fffe]:8081/secret/long/path")
            .unwrap()
    );
    assert_eq!(
        online_config.cert_finger_print,
        Some("AA:BB:CC:DD:EE:FF".to_string())
    );
}

#[test]
fn can_parse_a_valid_ssconf_uri_with_uri_encoded_tag() {
    let cert_fp = percent_encode("&=?:%".as_ref(), NON_ALPHANUMERIC).to_string();
    let input = format!("ssconf://1.2.3.4/secret#certFp={cert_fp}&httpMethod=GET");
    let online_config = SIP008Config::parse(&input).unwrap();
    let url = Url::parse(&online_config.location).unwrap();
    assert_eq!(url, Url::parse("https://1.2.3.4/secret").unwrap());
    assert_eq!(online_config.cert_finger_print, Some("&=?:%".to_string()));
    assert_eq!(online_config.http_method, Some("GET".to_string()));
}

#[test]
fn ssconf_location_is_written_with_the_default_port() {
    let input = "ssconf://my.domain.com/secret/long/path#certFp=AA:BB:CC:DD:EE:FF&httpMethod=POST";
    let online_config = SIP008Config::parse(input).unwrap();
    assert_eq!(
        online_config.location,
        "https://my.domain.com:443/secret/long/path"
    );
}

#[test]
fn ssconf_location_keeps_an_explicit_port_and_an_empty_path() {
    let online_config = SIP008Config::parse("ssconf://my.domain.com:9090").unwrap();
    assert_eq!(online_config.location, "https://my.domain.com:9090");
    assert_eq!(online_config.cert_finger_print, None);
    assert_eq!(online_config.http_method, None);
}

#[test]
fn ssconf_takes_the_later_of_two_values_for_one_key() {
    let online_config =
        SIP008Config::parse("ssconf://1.2.3.4/list#certFp=AA&httpMethod=GET&certFp=BB").unwrap();
    assert_eq!(online_config.cert_finger_print, Some("BB".to_string()));
    assert_eq!(online_config.http_method, Some("GET".to_string()));
}

#[test]
fn ssconf_refuses_a_text_that_is_no_uri() {
    assert_eq!(
        SIP008Config::parse("not a uri").unwrap_err(),
        SIP008ParseError::InvalidUrl
    );
}

#[test]
fn ssconf_refuses_another_scheme() {
    assert_eq!(
        SIP008Config::parse("https://my.domain.com/secret").unwrap_err(),
        SIP008ParseError::InvalidProtocol
    );
    assert_eq!(
        SIP008Config::parse("ss://my.domain.com/secret").unwrap_err(),
        SIP008ParseError::InvalidProtocol
    );
}

#[test]
fn ssconf_refuses_a_uri_without_host() {
    assert_eq!(
        SIP008Config::parse("ssconf:secret").unwrap_err(),
        SIP008ParseError::InvalidUrl
    );
}

#[test]
fn ssconf_accepts_a_scheme_that_only_starts_with_ssconf() {
    let online_config = SIP008Config::parse("ssconf2://1.2.3.4/list").unwrap();
    assert_eq!(online_config.location, "https://1.2.3.4:443/list");
}

#[test]
fn ssconf_protocol_check_is_a_prefix_match() {
    assert_eq!(SIP008Config::validate_protocol("ssconf"), Ok(()));
    assert_eq!(SIP008Config::validate_protocol("ssconfx"), Ok(()));
    assert_eq!(
        SIP008Config::validate_protocol("sscon"),
        Err(SIP008ParseError::InvalidProtocol)
    );
    assert_eq!(
        SIP008Config::validate_protocol(""),
        Err(SIP008ParseError::InvalidProtocol)
    );
}

#[test]
fn ssconf_components_and_pairs_give_the_configuration() {
    let parts = ss_uri::UriParts {
        scheme: "ssconf".to_string(),
        username: "".to_string(),
        host: Some("[::1]".to_string()),
        port: Some(8081),
        path: "/list.json".to_string(),
        query: Some("ignored=1".to_string()),
        fragment: None,
    };
    let pairs = vec![
        ("httpMethod".to_string(), "GET".to_string()),
        ("certfp".to_string(), "lower".to_string()),
        ("httpMethod".to_string(), "POST".to_string()),
    ];
    assert_eq!(
        SIP008Config::from_parts(&parts, &pairs),
        Ok(SIP008Config {
            location: "https://[::1]:8081/list.json".to_string(),
            cert_finger_print: None,
            http_method: Some("POST".to_string()),
        })
    );
    let mut no_host = parts.clone();
    no_host.host = None;
    assert_eq!(
        SIP008Config::from_parts(&no_host, &pairs),
        Err(SIP008ParseError::InvalidUrl)
    );
    let mut other = parts;
    other.scheme = "ss".to_string();
    other.host = None;
    assert_eq!(
        SIP008Config::from_parts(&other, &pairs),
        Err(SIP008ParseError::InvalidProtocol)
    );
}
