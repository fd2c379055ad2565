use player_connect::config::{parse_port, Config, ConfigError};

#[test]
fn ports_parse_like_u16() {
    assert_eq!(parse_port("11010"), Some(11010));
    assert_eq!(parse_port("+80"), Some(80));
    assert_eq!(parse_port("0"), Some(0));
    assert_eq!(parse_port("007"), Some(7));
    assert_eq!(parse_port("65535"), Some(65535));
    assert_eq!(parse_port("65536"), None);
    assert_eq!(parse_port("99999999999"), None);
    assert_eq!(parse_port(""), None);
    assert_eq!(parse_port("+"), None);
    assert_eq!(parse_port("-1"), None);
    assert_eq!(parse_port("12a"), None);
    assert_eq!(parse_port(" 1"), None);
    for text in ["1", "+2", "", "+", "-0", "65535", "65536", "x", "1 "] {
        assert_eq!(parse_port(text), text.parse::<u16>().ok(), "{:?}", text);
    }
}

#[test]
fn missing_ports_take_their_defaults() {
    let config = Config::from_values(None, None).unwrap();
    assert_eq!(config.player_connect_port, 11010);
    assert_eq!(config.player_connect_http_port, 11011);
    let config = Config::from_values(Some("5000".to_string()), None).unwrap();
    assert_eq!(config.player_connect_port, 5000);
    assert_eq!(config.player_connect_http_port, 11011);
}

#[test]
fn bad_ports_are_refused() {
    assert_eq!(
        Config::from_values(Some("abc".to_string()), Some("x".to_string())),
        Err(ConfigError::InvalidPlayerConnectPort("abc".to_string()))
    );
    assert_eq!(
        Config::from_values(None, Some("70000".to_string())),
        Err(ConfigError::InvalidPlayerConnectHttpPort("70000".to_string()))
    );
}
