use boutique_bouquet_api::config::{Config, ConfigError, Settings, DEFAULT_PORT, MAX_CONNECTIONS};

fn settings() -> Settings {
    Settings {
        database_url: Some("postgres://localhost/shop".to_string()),
        upload_dir: None,
        host: None,
        port: None,
        jwt_secret: None,
        jwt_expiry_hours: None,
    }
}

#[test]
fn config_defaults() {
    assert_eq!(DEFAULT_PORT, 8000);
    assert_eq!(MAX_CONNECTIONS, 5);
    assert_eq!(
        Config::load(settings()),
        Ok(Config {
            database_url: "postgres://localhost/shop".to_string(),
            upload_dir: "./uploads".to_string(),
            host: "0.0.0.0".to_string(),
            port: 8000,
            jwt_secret: None,
            jwt_expiry_hours: 24,
        })
    );
}

#[test]
fn config_takes_what_is_configured() {
    let mut s = settings();
    s.upload_dir = Some("/srv/images".to_string());
    s.host = Some("127.0.0.1".to_string());
    s.port = Some("8080".to_string());
    s.jwt_secret = Some("s3cret".to_string());
    s.jwt_expiry_hours = Some("2".to_string());
    assert_eq!(
        Config::load(s),
        Ok(Config {
            database_url: "postgres://localhost/shop".to_string(),
            upload_dir: "/srv/images".to_string(),
            host: "127.0.0.1".to_string(),
            port: 8080,
            jwt_secret: Some("s3cret".to_string()),
            jwt_expiry_hours: 2,
        })
    );
}

#[test]
fn config_needs_the_storage_address() {
    let mut s = settings();
    s.database_url = None;
    s.port = Some("no port".to_string());
    let error = Config::load(s).unwrap_err();
    assert_eq!(error, ConfigError::MissingDatabaseUrl);
    assert_eq!(error.message(), "DATABASE_URL must be set");
}

#[test]
fn config_refuses_a_port_that_is_no_number() {
    for port in ["", "http", "65536", "-1", "80 ", "8e3"] {
        let mut s = settings();
        s.port = Some(port.to_string());
        let error = Config::load(s).unwrap_err();
        assert_eq!(error, ConfigError::InvalidPort);
        assert_eq!(error.message(), "PORT must be a valid number");
    }
    for (port, number) in [("0", 0), ("65535", 65535), ("+443", 443), ("0080", 80)] {
        let mut s = settings();
        s.port = Some(port.to_string());
        assert_eq!(Config::load(s).unwrap().port, number);
    }
}

#[test]
fn config_ignores_hours_that_are_no_number() {
    for hours in ["", "a day", "-3", "18446744073709551616"] {
        let mut s = settings();
        s.jwt_expiry_hours = Some(hours.to_string());
        assert_eq!(Config::load(s).unwrap().jwt_expiry_hours, 24);
    }
}
