use cmdrelay::config::{parse_ipv4, parse_port, resolve_config, ConfigError};

#[test]
fn parses_ordinary_addresses() {
    assert_eq!(parse_ipv4(&b"1.2.3.4".to_vec()), Some((1, 2, 3, 4)));
    assert_eq!(parse_ipv4(&b"0.0.0.0".to_vec()), Some((0, 0, 0, 0)));
    assert_eq!(parse_ipv4(&b"127.0.0.1".to_vec()), Some((127, 0, 0, 1)));
    assert_eq!(
        parse_ipv4(&b"255.255.255.255".to_vec()),
        Some((255, 255, 255, 255))
    );
    assert_eq!(parse_ipv4(&b"10.20.30.40".to_vec()), Some((10, 20, 30, 40)));
}

#[test]
fn rejects_out_of_range_octets() {
    assert_eq!(parse_ipv4(&b"256.1.1.1".to_vec()), None);
    assert_eq!(parse_ipv4(&b"1.2.3.999".to_vec()), None);
    assert_eq!(parse_ipv4(&b"1.2.3.1000".to_vec()), None);
}

#[test]
fn rejects_wrong_shape() {
    assert_eq!(parse_ipv4(&b"1.2.3".to_vec()), None);
    assert_eq!(parse_ipv4(&b"1.2.3.4.5".to_vec()), None);
    assert_eq!(parse_ipv4(&b"1..3.4".to_vec()), None);
    assert_eq!(parse_ipv4(&b".1.2.3".to_vec()), None);
    assert_eq!(parse_ipv4(&b"1.2.3.".to_vec()), None);
    assert_eq!(parse_ipv4(&Vec::new()), None);
    assert_eq!(parse_ipv4(&b"....".to_vec()), None);
}

#[test]
fn rejects_non_digits() {
    assert_eq!(parse_ipv4(&b"a.b.c.d".to_vec()), None);
    assert_eq!(parse_ipv4(&b"1.2.3.4x".to_vec()), None);
    assert_eq!(parse_ipv4(&b" 1.2.3.4".to_vec()), None);
}

#[test]
fn rejects_leading_zeros() {
    assert_eq!(parse_ipv4(&b"01.2.3.4".to_vec()), None);
    assert_eq!(parse_ipv4(&b"1.2.3.04".to_vec()), None);
    // a lone zero octet is fine
    assert_eq!(parse_ipv4(&b"0.2.3.4".to_vec()), Some((0, 2, 3, 4)));
}

#[test]
fn parses_ports() {
    assert_eq!(parse_port(&b"12345".to_vec()), Some(12345));
    assert_eq!(parse_port(&b"0".to_vec()), Some(0));
    assert_eq!(parse_port(&b"65535".to_vec()), Some(65535));
    // leading zeros are tolerated in a port
    assert_eq!(parse_port(&b"00080".to_vec()), Some(80));
}

#[test]
fn rejects_bad_ports() {
    assert_eq!(parse_port(&b"65536".to_vec()), None);
    assert_eq!(parse_port(&b"999999999999".to_vec()), None);
    assert_eq!(parse_port(&Vec::new()), None);
    assert_eq!(parse_port(&b"+1".to_vec()), None);
    assert_eq!(parse_port(&b"12 45".to_vec()), None);
    assert_eq!(parse_port(&b"-1".to_vec()), None);
}

#[test]
fn resolves_listener_config() {
    let cfg = resolve_config(false, None, Some(&b"12345".to_vec())).unwrap();
    assert!(!cfg.callback);
    assert_eq!(cfg.ip, (0, 0, 0, 0));
    assert_eq!(cfg.port, 12345);
}

#[test]
fn resolves_callback_config() {
    let cfg = resolve_config(
        true,
        Some(&b"192.168.1.9".to_vec()),
        Some(&b"4444".to_vec()),
    )
    .unwrap();
    assert!(cfg.callback);
    assert_eq!(cfg.ip, (192, 168, 1, 9));
    assert_eq!(cfg.port, 4444);
}

#[test]
fn config_error_cases_in_order() {
    assert_eq!(
        resolve_config(true, None, Some(&b"4444".to_vec())),
        Err(ConfigError::MissingCallbackAddress)
    );
    assert_eq!(
        resolve_config(true, Some(&b"nonsense".to_vec()), Some(&b"4444".to_vec())),
        Err(ConfigError::InvalidCallbackAddress)
    );
    // the address is checked before the port
    assert_eq!(
        resolve_config(true, Some(&b"bad".to_vec()), None),
        Err(ConfigError::InvalidCallbackAddress)
    );
    assert_eq!(
        resolve_config(false, None, None),
        Err(ConfigError::MissingPort)
    );
    assert_eq!(
        resolve_config(false, None, Some(&b"78901".to_vec())),
        Err(ConfigError::InvalidPort)
    );
}
