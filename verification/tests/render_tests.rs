use redis_exporter::collector::Collector;
use redis_exporter::connection::host_port;
use redis_exporter::registry::Registry;
use redis_exporter::render::render;
use redis_exporter::render::render_value;

#[test]
fn values_print_as_trimmed_decimals() {
    assert_eq!(render_value(1_000_000), b"1".to_vec());
    assert_eq!(render_value(0), b"0".to_vec());
    assert_eq!(render_value(500), b"0.0005".to_vec());
    assert_eq!(render_value(12_345_000_000), b"12345".to_vec());
    assert_eq!(render_value(12_500_000), b"12.5".to_vec());
    assert_eq!(render_value(-3_000_000), b"-3".to_vec());
    assert_eq!(render_value(-1_500_000), b"-1.5".to_vec());
    assert_eq!(render_value(1), b"0.000001".to_vec());
}

#[test]
fn a_snapshot_renders_one_line_per_series() {
    let mut reg = Registry::new();
    let c = Collector::new(&mut reg, "localhost:6379", "primary").unwrap();
    c.collect(&mut reg, b"uptime_in_seconds:12345\r\ncmdstat_get:calls=10,rejected_calls=0,usec=500\r\n");
    let body = String::from_utf8(render(&reg.snapshot())).unwrap();
    assert!(body.contains(
        "redis_up{target=\"localhost:6379\",target_name=\"primary\"} 1\n"
    ));
    assert!(body.contains(
        "redis_uptime_in_seconds{target=\"localhost:6379\",target_name=\"primary\"} 12345\n"
    ));
    assert!(body.contains(
        "redis_commands_total{cmd=\"get\",target=\"localhost:6379\",target_name=\"primary\"} 10\n"
    ));
    assert!(body.contains(
        "redis_commands_duration_seconds_total{cmd=\"get\",target=\"localhost:6379\",target_name=\"primary\"} 0.0005\n"
    ));
    assert!(body.contains(
        "redis_commands_rejected_calls_total{cmd=\"get\",target=\"localhost:6379\",target_name=\"primary\"} 0\n"
    ));
    assert_eq!(body.lines().count(), 5);
}

#[test]
fn an_empty_registry_renders_an_empty_body() {
    let reg = Registry::new();
    assert!(render(&reg.snapshot()).is_empty());
}

#[test]
fn target_addresses_resolve_to_socket_addresses() {
    assert_eq!(host_port(b"redis://127.0.0.1:6379"), Some(b"127.0.0.1:6379".to_vec()));
    assert_eq!(host_port(b"redis://db/0"), Some(b"db:6379".to_vec()));
    assert_eq!(host_port(b"host:1234"), Some(b"host:1234".to_vec()));
    assert_eq!(host_port(b"host"), Some(b"host:6379".to_vec()));
    assert_eq!(host_port(b"redis://"), None);
    assert_eq!(host_port(b""), None);
}
