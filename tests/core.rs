use karateway::app_config::AppConfig;
use karateway::app_config::ConfigError;
use karateway::error::KaratewayError;
use karateway::response::JsonResponse;
use karateway::response::MetaResponse;

#[test]
fn test_success_response() {
    let response = JsonResponse::success("test data");
    assert!(response.success);
    assert_eq!(response.status_code, 200);
    assert_eq!(response.data, Some("test data"));
}

#[test]
fn test_paginated_response() {
    let meta = MetaResponse::new(1, 10, 100);
    assert_eq!(meta.page, Some(1));
    assert_eq!(meta.limit, Some(10));
    assert_eq!(meta.total_data, Some(100));
    assert_eq!(meta.total_pages, Some(10));
}

#[test]
fn test_error_response() {
    let response = JsonResponse::<()>::not_found("Resource not found");
    assert!(!response.success);
    assert_eq!(response.status_code, 404);
    assert_eq!(response.error_code, Some("NOT_FOUND".to_string()));
}

#[test]
fn meta_pages_round_up() {
    assert_eq!(MetaResponse::new(1, 10, 101).total_pages, Some(11));
    assert_eq!(MetaResponse::new(1, 0, 101).total_pages, Some(0));
    assert_eq!(MetaResponse::new(1, 1, u64::MAX).total_pages, Some(u32::MAX));
    let e = MetaResponse::empty();
    assert_eq!(e.total_data, Some(0));
    assert_eq!(e.page, None);
}

fn vars(pairs: &[(&str, &str)]) -> Vec<(String, String)> {
    pairs.iter().map(|(a, b)| (a.to_string(), b.to_string())).collect()
}

#[test]
fn app_config_defaults_and_urls() {
    let c = AppConfig::from_env(&vars(&[("DB_PASSWORD", "pw"), ("JWT_SECRET", "s")])).unwrap();
    assert_eq!(c.db_username, "karateway");
    assert_eq!(c.db_port, 5432);
    assert_eq!(c.redis_pool_size, 10);
    assert_eq!(c.gateway_port, 8080);
    assert_eq!(c.rust_log, "info");
    assert_eq!(c.database_url(), "postgresql://karateway:pw@localhost:5432/karateway");
    assert_eq!(c.redis_url(), "redis://localhost:6379");
    let c = AppConfig::from_env(&vars(&[
        ("DB_PASSWORD", "pw"),
        ("JWT_SECRET", "s"),
        ("REDIS_PASSWORD", "rp"),
        ("REDIS_PORT", "+7000"),
    ]))
    .unwrap();
    assert_eq!(c.redis_url(), "redis://:rp@localhost:7000");
}

#[test]
fn app_config_errors() {
    assert_eq!(
        AppConfig::from_env(&vars(&[("JWT_SECRET", "s")])).err(),
        Some(ConfigError::EnvVarMissing { name: "DB_PASSWORD" })
    );
    assert_eq!(
        AppConfig::from_env(&vars(&[("DB_PASSWORD", "pw"), ("JWT_SECRET", "s"), ("DB_PORT", "70000")])).err(),
        Some(ConfigError::ParseError { name: "DB_PORT" })
    );
    assert_eq!(
        AppConfig::from_env(&vars(&[("DB_PASSWORD", "pw"), ("DB_PORT", "x")])).err(),
        Some(ConfigError::ParseError { name: "DB_PORT" })
    );
    assert_eq!(
        AppConfig::from_env(&vars(&[("DB_PASSWORD", "pw")])).err().map(|e| e.name()),
        Some("JWT_SECRET")
    );
}

#[test]
fn error_codes_and_statuses() {
    let e = KaratewayError::NotFound("route".to_string());
    assert_eq!(e.status_code(), 404);
    assert_eq!(e.error_code(), "NOT_FOUND");
    assert_eq!(e.message(), "Not found: route");
    assert_eq!(KaratewayError::Redis("down".to_string()).status_code(), 500);
    assert_eq!(KaratewayError::Validation("x".to_string()).error_code(), "VALIDATION_ERROR");
    assert_eq!(KaratewayError::Unauthorized("x".to_string()).status_code(), 401);
}
