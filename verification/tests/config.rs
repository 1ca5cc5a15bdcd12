use squadz::config::{Config, DEFAULT_LOCATION_TTL_SECS, DEFAULT_MAX_SQUAD_SIZE, DEFAULT_PORT};

fn some(text: &str) -> Option<String> {
    Some(text.to_string())
}

#[test]
fn config_defaults() {
    let config = Config::from_vars(None, None, None, None);
    assert_eq!(config.host, "0.0.0.0");
    assert_eq!(config.port, 8080);
    assert_eq!(config.location_ttl_secs, 300);
    assert_eq!(config.max_squad_size, 50);
    assert_eq!(DEFAULT_PORT, 8080);
    assert_eq!(DEFAULT_LOCATION_TTL_SECS, 300);
    assert_eq!(DEFAULT_MAX_SQUAD_SIZE, 50);
}

#[test]
fn config_takes_what_is_set() {
    let config = Config::from_vars(some("127.0.0.1"), some("9000"), some("60"), some("8"));
    assert_eq!(config.host, "127.0.0.1");
    assert_eq!(config.port, 9000);
    assert_eq!(config.location_ttl_secs, 60);
    assert_eq!(config.max_squad_size, 8);
    let copy = config.clone();
    assert_eq!(copy.host, "127.0.0.1");
    assert_eq!(copy.port, 9000);
    assert_eq!(copy.location_ttl_secs, 60);
    assert_eq!(copy.max_squad_size, 8);
}

#[test]
fn config_falls_back_where_a_number_does_not_parse() {
    let config = Config::from_vars(some(""), some("65536"), some("-5"), some("many"));
    assert_eq!(config.host, "");
    assert_eq!(config.port, 8080);
    assert_eq!(config.location_ttl_secs, 300);
    assert_eq!(config.max_squad_size, 50);
    let config = Config::from_vars(None, some("65535"), some("0"), some("+7"));
    assert_eq!(config.port, 65535);
    assert_eq!(config.location_ttl_secs, 0);
    assert_eq!(config.max_squad_size, 7);
}
