use metrics_one::settings::{DbSettings, HostSettings};
use metrics_one::utils::ShutdownSignalError;
use metrics_one::worker_settings::{RabbitMqSettings, Settings};

fn host(h: &str, port: u16) -> HostSettings {
    HostSettings { host: h.to_string(), port }
}

#[test]
fn addresses_and_urls() {
    assert_eq!(host("0.0.0.0", 8080).address(), "0.0.0.0:8080");
    let db = DbSettings {
        user: "app".to_string(),
        password: "pw".to_string(),
        host: "db".to_string(),
        port: 5432,
        dbname: "metrics".to_string(),
        pool_max_size: 5,
    };
    assert_eq!(db.connection_url(), "postgresql://app:pw@db:5432/metrics");
    let rabbitmq = RabbitMqSettings {
        user: "guest".to_string(),
        password: "guest".to_string(),
        host: "mq".to_string(),
        port: 5672,
        queue: "fetch.meetings".to_string(),
    };
    assert_eq!(rabbitmq.connection_url(), "amqp://guest:guest@mq:5672/%2f");
    let worker = Settings {
        rabbitmq,
        api: host("api", 50051),
        livetiming_url: "https://livetiming.example/static".to_string(),
        rust_log: "info".to_string(),
    };
    assert_eq!(worker.api_url(), "http://api:50051");
    assert_eq!(worker.index_url(2024), "https://livetiming.example/static/2024/Index.json");
    assert_eq!(worker.index_url(-5), "https://livetiming.example/static/-5/Index.json");
}

#[test]
fn shutdown_error_message() {
    assert_eq!(
        ShutdownSignalError.message(),
        "Shutdown signal received, aborting connection to gRPC service..."
    );
}
