use rust_crud_api::config::{Config, ConfigError, Settings, DEFAULT_PORT};

fn only_url(url: &str) -> Settings {
    Settings { database_url: Some(url.to_string()), host: None, port: None, base_path: None }
}

#[test]
fn the_settings_have_their_defaults() {
    let config = Config::load(only_url("postgres://u:p@db:5432/app")).unwrap();
    assert_eq!(config.database_url, "postgres://u:p@db:5432/app");
    assert_eq!(config.host, "0.0.0.0");
    assert_eq!(config.port, 8080);
    assert_eq!(config.base_path, "/users");
    assert_eq!(DEFAULT_PORT, 8080);
}

#[test]
fn every_setting_can_be_given() {
    let config = Config::load(Settings {
        database_url: Some("postgres://db".to_string()),
        host: Some("127.0.0.1".to_string()),
        port: Some("3000".to_string()),
        base_path: Some("/user".to_string()),
    })
    .unwrap();
    assert_eq!(
        config,
        Config {
            database_url: "postgres://db".to_string(),
            host: "127.0.0.1".to_string(),
            port: 3000,
            base_path: "/user".to_string(),
        }
    );
}

#[test]
fn no_connection_string_no_settings() {
    let settings = Settings { database_url: None, host: None, port: None, base_path: None };
    assert_eq!(Config::load(settings), Err(ConfigError::MissingDatabaseUrl));
    let settings =
        Settings { database_url: None, host: None, port: Some("x".to_string()), base_path: None };
    assert_eq!(Config::load(settings), Err(ConfigError::MissingDatabaseUrl));
}

#[test]
fn an_empty_connection_string_is_still_one() {
    assert_eq!(Config::load(only_url("")).unwrap().database_url, "");
}

#[test]
fn the_port_is_a_number_that_fits() {
    for (text, port) in [("0", 0u16), ("80", 80), ("08080", 8080), ("65535", 65535)] {
        let mut settings = only_url("db");
        settings.port = Some(text.to_string());
        assert_eq!(Config::load(settings).unwrap().port, port);
    }
    for text in ["", " 80", "80 ", "-1", "+80", "http", "65536", "99999999999", "8080.0"] {
        let mut settings = only_url("db");
        settings.port = Some(text.to_string());
        assert_eq!(Config::load(settings), Err(ConfigError::InvalidPort), "{:?}", text);
    }
}
