use tundra::server::config::{parse_listen, ConfigError, ServerConfig};

fn config_with(psk: Option<&str>) -> ServerConfig {
    ServerConfig {
        listen_addr: "0.0.0.0".to_string(),
        listen_port: 8443,
        target_domain: "www.microsoft.com".to_string(),
        psk: psk.map(|s| s.to_string()),
        max_connections: 1000,
        max_per_ip: 10,
        handshake_timeout_secs: 10,
    }
}

#[test]
fn psk_must_be_64_hex_digits() {
    let hex = "00112233445566778899aabbccddeeff00112233445566778899AABBCCDDEEFF";
    let k = config_with(Some(hex)).psk_bytes().unwrap().unwrap();
    assert_eq!(k[0], 0x00);
    assert_eq!(k[1], 0x11);
    assert_eq!(k[31], 0xff);
    assert_eq!(config_with(None).psk_bytes(), Ok(None));
    let prefixed = format!("zz{}", hex);
    assert_eq!(config_with(Some(&prefixed)).psk_bytes(), Err(ConfigError::InvalidPskLength));
    assert_eq!(config_with(Some("0011")).psk_bytes(), Err(ConfigError::InvalidPskLength));
    assert_eq!(config_with(Some("abc")).psk_bytes(), Err(ConfigError::InvalidPskLength));
    let with_sign = format!("+0{}", &hex[2..]);
    assert_eq!(config_with(Some(&with_sign)).psk_bytes(), Err(ConfigError::InvalidPskLength));
}

#[test]
fn listen_setting_splits_at_last_colon() {
    assert_eq!(parse_listen("0.0.0.0:8443"), Some(("0.0.0.0".to_string(), 8443)));
    assert_eq!(parse_listen("[::]:443"), Some(("[::]".to_string(), 443)));
    assert_eq!(parse_listen(":80"), Some((String::new(), 80)));
    assert_eq!(parse_listen("host:+1"), Some(("host".to_string(), 1)));
    assert_eq!(parse_listen("0.0.0.0"), None);
    assert_eq!(parse_listen("host:65536"), None);
    assert_eq!(parse_listen("host:"), None);
    assert_eq!(parse_listen("h\u{e9}st:9"), Some(("h\u{e9}st".to_string(), 9)));
}
