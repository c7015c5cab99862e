use redis_exporter::catalog::MetricName;
use redis_exporter::collector::Collector;
use redis_exporter::registry::Registry;

fn pair(a: &str, b: &str) -> Vec<Vec<u8>> {
    vec![a.as_bytes().to_vec(), b.as_bytes().to_vec()]
}

fn triple(c: &str, a: &str, b: &str) -> Vec<Vec<u8>> {
    vec![c.as_bytes().to_vec(), a.as_bytes().to_vec(), b.as_bytes().to_vec()]
}

#[test]
fn end_to_end_reply_fills_the_registry() {
    let mut reg = Registry::new();
    let c = Collector::new(&mut reg, "localhost:6379", "primary").unwrap();
    let reply =
        b"# Server\r\nuptime_in_seconds:12345\r\ncmdstat_get:calls=10,rejected_calls=0,usec=500\r\ndb0:keys=3,expires=1\r\n";
    c.collect(&mut reg, reply);

    let id = pair("localhost:6379", "primary");
    assert_eq!(reg.get(MetricName::Up, &id), Some(1_000_000));
    assert_eq!(reg.get(MetricName::UptimeInSeconds, &id), Some(12_345_000_000));
    let get = triple("get", "localhost:6379", "primary");
    assert_eq!(reg.get(MetricName::CommandsTotal, &get), Some(10_000_000));
    assert_eq!(reg.get(MetricName::CommandsRejectedCallsTotal, &get), Some(0));
    // 500 microseconds are exactly 0.0005 seconds.
    assert_eq!(reg.get(MetricName::CommandsDurationSecondsTotal, &get), Some(500));
    let db0 = triple("db0", "localhost:6379", "primary");
    assert_eq!(reg.get(MetricName::DbKeys, &db0), Some(3_000_000));
    assert_eq!(reg.get(MetricName::DbKeysExpiring, &db0), Some(1_000_000));
}

#[test]
fn a_received_reply_marks_the_target_live_even_if_empty() {
    let mut reg = Registry::new();
    let c = Collector::new(&mut reg, "localhost:6379", "primary").unwrap();
    c.collect(&mut reg, b"");
    assert_eq!(reg.get(MetricName::Up, &pair("localhost:6379", "primary")), Some(1_000_000));
}

#[test]
fn gauges_keep_their_last_value_across_polls() {
    let mut reg = Registry::new();
    let c = Collector::new(&mut reg, "t", "n").unwrap();
    c.collect(&mut reg, b"connected_clients:5\r\n");
    c.collect(&mut reg, b"uptime_in_seconds:9\r\n");
    // The second reply does not mention connected_clients: the series
    // stays at its last-set value rather than resetting.
    assert_eq!(reg.get(MetricName::ConnectedClients, &pair("t", "n")), Some(5_000_000));
    assert_eq!(reg.get(MetricName::UptimeInSeconds, &pair("t", "n")), Some(9_000_000));
}

#[test]
fn the_counter_accumulates_across_polls() {
    let mut reg = Registry::new();
    let c = Collector::new(&mut reg, "t", "n").unwrap();
    c.collect(&mut reg, b"evicted_keys:5\r\n");
    c.collect(&mut reg, b"evicted_keys:5\r\n");
    // The store reports a running total, and the local counter still adds
    // each poll's value: two identical polls double the series.
    assert_eq!(reg.get(MetricName::EvictedKeysTotal, &pair("t", "n")), Some(10_000_000));
}

#[test]
fn two_targets_never_share_a_series() {
    let mut reg = Registry::new();
    let a = Collector::new(&mut reg, "a:6379", "alpha").unwrap();
    let b = Collector::new(&mut reg, "b:6379", "beta").unwrap();
    a.collect(&mut reg, b"connected_clients:1\r\n");
    b.collect(&mut reg, b"connected_clients:2\r\n");
    assert_eq!(reg.get(MetricName::ConnectedClients, &pair("a:6379", "alpha")), Some(1_000_000));
    assert_eq!(reg.get(MetricName::ConnectedClients, &pair("b:6379", "beta")), Some(2_000_000));
    assert_eq!(reg.get(MetricName::Up, &pair("a:6379", "alpha")), Some(1_000_000));
    assert_eq!(reg.get(MetricName::Up, &pair("b:6379", "beta")), Some(1_000_000));
}

#[test]
fn add_cmdstat_applies_one_breakdown_fragment() {
    let mut reg = Registry::new();
    let c = Collector::new(&mut reg, "t", "n").unwrap();
    c.add_cmdstat(&mut reg, b"cmdstat_set", b"calls=4,rejected_calls=1,usec=2000000");
    let set = triple("set", "t", "n");
    assert_eq!(reg.get(MetricName::CommandsTotal, &set), Some(4_000_000));
    assert_eq!(reg.get(MetricName::CommandsRejectedCallsTotal, &set), Some(1_000_000));
    assert_eq!(reg.get(MetricName::CommandsDurationSecondsTotal, &set), Some(2_000_000));
}

#[test]
fn catalog_lookups_resolve_status_keys() {
    let mut reg = Registry::new();
    let c = Collector::new(&mut reg, "t", "n").unwrap();
    assert_eq!(c.parse_gauge_metric_name(b"uptime_in_seconds"), Some(MetricName::UptimeInSeconds));
    assert_eq!(c.parse_gauge_metric_name(b"used_memory"), Some(MetricName::MemoryUsedBytes));
    assert_eq!(c.parse_gauge_metric_name(b"mem_fragmentation_ratio"), Some(MetricName::MemoryFragmentationRatio));
    assert_eq!(c.parse_gauge_metric_name(b"no_such_key"), None);
    assert_eq!(c.parse_counter_metric_name(b"evicted_keys"), Some(MetricName::EvictedKeysTotal));
    assert_eq!(c.parse_counter_metric_name(b"uptime_in_seconds"), None);
}
