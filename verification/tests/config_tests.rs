use app_versions::config::{Config, ConfigKey, ConfigLoadError};

const GOOD: &str = "; server settings\nhost = 0.0.0.0\nport = 8080\ndatabase = data/data.db\nlogin = 5e884898da28047151d0e56f8dc6292773603d0d6aabbdd62a11ef721d1542d8\n";

#[test]
fn loads_all_settings() {
    let c = Config::load(GOOD).unwrap();
    assert_eq!(c.host, "0.0.0.0");
    assert_eq!(c.port, 8080);
    assert_eq!(c.database, "data/data.db");
    assert_eq!(c.admin_login, "5e884898da28047151d0e56f8dc6292773603d0d6aabbdd62a11ef721d1542d8");
}

#[test]
fn later_entries_win_and_keys_are_lowered() {
    let c = Config::load("host = a\nHOST = b\nport = 1\ndatabase = d\nlogin = l").unwrap();
    assert_eq!(c.host, "b");
    assert_eq!(c.port, 1);
}

#[test]
fn missing_settings_are_reported_in_order() {
    assert_eq!(Config::load("port = 1").unwrap_err(), ConfigLoadError::Missing(ConfigKey::Host));
    assert_eq!(Config::load("host = h").unwrap_err(), ConfigLoadError::Missing(ConfigKey::Port));
    assert_eq!(
        Config::load("host = h\nport = 2").unwrap_err(),
        ConfigLoadError::Missing(ConfigKey::Database)
    );
    assert_eq!(
        Config::load("host = h\nport = 2\ndatabase = d").unwrap_err(),
        ConfigLoadError::Missing(ConfigKey::Login)
    );
}

#[test]
fn bad_port_is_refused() {
    assert_eq!(
        Config::load("host = h\nport = http\ndatabase = d\nlogin = l").unwrap_err(),
        ConfigLoadError::InvalidPort
    );
    assert_eq!(
        Config::load("host = h\nport = 70000\ndatabase = d\nlogin = l").unwrap_err(),
        ConfigLoadError::InvalidPort
    );
}

#[test]
fn invalid_text_is_refused() {
    assert_eq!(Config::load("host = a = b").unwrap_err(), ConfigLoadError::InvalidConfig);
    assert_eq!(Config::load("just words").unwrap_err(), ConfigLoadError::InvalidConfig);
}
