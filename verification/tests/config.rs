use todo_backend::config::{decimal_text, Config, DatabaseConfig, LoggingConfig, ServerConfig};
use todo_backend::error::ApiError;

fn config(host: &str, port: u16) -> Config {
    Config {
        server: ServerConfig {
            host: host.to_string(),
            port,
            cors_origin: "http://localhost:5173".to_string(),
        },
        database: DatabaseConfig { url: "sqlite:./todolist.db".to_string(), create_if_missing: true },
        logging: LoggingConfig { level: "info".to_string() },
    }
}

#[test]
fn server_address_joins_host_and_port() {
    assert_eq!(config("127.0.0.1", 3000).server_address(), "127.0.0.1:3000");
    assert_eq!(config("0.0.0.0", 80).server_address(), "0.0.0.0:80");
    assert_eq!(config("", 0).server_address(), ":0");
}

#[test]
fn server_url_points_at_localhost() {
    assert_eq!(config("127.0.0.1", 3000).server_url(), "http://localhost:3000");
    assert_eq!(config("example.org", 65535).server_url(), "http://localhost:65535");
}

#[test]
fn decimal_text_has_no_leading_zeros() {
    assert_eq!(decimal_text(0), "0");
    assert_eq!(decimal_text(7), "7");
    assert_eq!(decimal_text(10), "10");
    assert_eq!(decimal_text(909), "909");
    assert_eq!(decimal_text(8080), "8080");
    assert_eq!(decimal_text(65535), "65535");
}

#[test]
fn config_clone_keeps_every_field() {
    let source = config("host", 1234);
    let copy = source.clone();
    assert_eq!(copy.server.host, "host");
    assert_eq!(copy.server.port, 1234);
    assert_eq!(copy.server.cors_origin, "http://localhost:5173");
    assert_eq!(copy.database.url, "sqlite:./todolist.db");
    assert!(copy.database.create_if_missing);
    assert_eq!(copy.logging.level, "info");
}

#[test]
fn each_error_has_its_status() {
    assert_eq!(ApiError::ValidationFailed.status_code(), 400);
    assert_eq!(ApiError::Unauthorized.status_code(), 401);
    assert_eq!(ApiError::Forbidden.status_code(), 403);
    assert_eq!(ApiError::NotFound.status_code(), 404);
    assert_eq!(ApiError::Conflict.status_code(), 409);
    assert_eq!(ApiError::StorageFailure.status_code(), 500);
}

#[test]
fn error_messages_carry_no_detail() {
    assert_eq!(ApiError::ValidationFailed.message(), "validation failed");
    assert_eq!(ApiError::Unauthorized.message(), "unauthorized");
    assert_eq!(ApiError::Forbidden.message(), "forbidden");
    assert_eq!(ApiError::NotFound.message(), "not found");
    assert_eq!(ApiError::Conflict.message(), "username already exists");
    assert_eq!(ApiError::StorageFailure.message(), "internal error");
}
