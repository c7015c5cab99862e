use redis_exporter::config::default_prometheus_port;
use redis_exporter::connection;

#[test]
fn the_default_exposition_port_is_9090() {
    assert_eq!(default_prometheus_port(), 9090);
}

#[test]
fn the_default_target_is_the_local_endpoint() {
    let c = connection::Config::default();
    assert!(c.name.is_none());
    assert_eq!(c.url, "redis://127.0.0.1:6379");
    assert_eq!(c.response_timeout_ms, 5000);
    assert_eq!(c.connection_timeout_ms, 5000);
}

#[test]
fn the_target_name_defaults_to_the_url() {
    let mut c = connection::Config::default();
    c.url = "redis://db:6379".to_string();
    assert_eq!(c.effective_name(), "redis://db:6379");
    c.name = Some("primary".to_string());
    assert_eq!(c.effective_name(), "primary");
}
