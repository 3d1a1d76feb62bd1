use asspp::config::{parse_port, Config};
use asspp::error::AppError;

#[test]
fn test_default_config() {
    let cfg = Config::default();
    assert_eq!(cfg.port, 8080);
    assert_eq!(cfg.data_dir, "./data");
    assert_eq!(cfg.public_base_url, "");
}

#[test]
fn test_packages_dir() {
    let cfg = Config {
        data_dir: "/data".into(),
        ..Config::default()
    };
    assert_eq!(cfg.packages_dir(), "/data/packages");
    assert_eq!(cfg.tasks_file(), "/data/tasks.json");
}

#[test]
fn config_from_values_uses_given_values() {
    let cfg = Config::from_values(Some("9000"), Some("/srv".to_string()), Some("https://x.y".to_string()));
    assert_eq!(cfg.port, 9000);
    assert_eq!(cfg.data_dir, "/srv");
    assert_eq!(cfg.public_base_url, "https://x.y");
}

#[test]
fn config_from_values_defaults() {
    let cfg = Config::from_values(None, None, None);
    assert_eq!(cfg.port, 8080);
    assert_eq!(cfg.data_dir, "./data");
    assert_eq!(cfg.public_base_url, "");
    let bad = Config::from_values(Some("70000"), None, None);
    assert_eq!(bad.port, 8080);
    let junk = Config::from_values(Some("80a"), None, None);
    assert_eq!(junk.port, 8080);
}

#[test]
fn port_parsing_edges() {
    assert_eq!(parse_port("65535"), Some(65535));
    assert_eq!(parse_port("0"), Some(0));
    assert_eq!(parse_port("65536"), None);
    assert_eq!(parse_port(""), None);
    assert_eq!(parse_port("-1"), None);
}

#[test]
fn error_status_codes_and_messages() {
    assert_eq!(AppError::MissingFields("a".into()).status_code(), 400);
    assert_eq!(AppError::BadRequest("b".into()).status_code(), 400);
    assert_eq!(AppError::AccessDenied.status_code(), 403);
    assert_eq!(AppError::NotFound("x".into()).status_code(), 404);
    assert_eq!(AppError::BadGateway("y".into()).status_code(), 502);
    assert_eq!(AppError::Internal("z".into()).status_code(), 500);
    assert_eq!(AppError::MissingFields("a, b".into()).message(), "Missing required fields: a, b");
    assert_eq!(AppError::AccessDenied.message(), "Access denied");
    assert_eq!(AppError::Internal("secret".into()).message(), "Internal server error");
}
