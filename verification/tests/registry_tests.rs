use redis_exporter::catalog::Kind;
use redis_exporter::catalog::LabelSchema;
use redis_exporter::catalog::MetricDef;
use redis_exporter::catalog::MetricName;
use redis_exporter::registry::Registry;
use redis_exporter::registry::RegistryError;

fn pair(a: &str, b: &str) -> Vec<Vec<u8>> {
    vec![a.as_bytes().to_vec(), b.as_bytes().to_vec()]
}

#[test]
fn register_refuses_duplicates() {
    let mut reg = Registry::new();
    let def = MetricDef {
        name: MetricName::Up,
        kind: Kind::Gauge,
        schema: LabelSchema::PerTarget,
    };
    assert_eq!(reg.register(def), Ok(()));
    assert_eq!(reg.register(def), Err(RegistryError::Duplicate));
}

#[test]
fn ensure_registered_accepts_identical_and_refuses_conflicts() {
    let mut reg = Registry::new();
    let def = MetricDef {
        name: MetricName::Up,
        kind: Kind::Gauge,
        schema: LabelSchema::PerTarget,
    };
    assert_eq!(reg.ensure_registered(def), Ok(()));
    assert_eq!(reg.ensure_registered(def), Ok(()));
    let conflicting = MetricDef {
        name: MetricName::Up,
        kind: Kind::Counter,
        schema: LabelSchema::PerTarget,
    };
    assert_eq!(reg.ensure_registered(conflicting), Err(RegistryError::Conflict));
}

#[test]
fn gauges_are_created_lazily_and_overwritten() {
    let mut reg = Registry::new();
    let labels = pair("localhost:6379", "primary");
    assert_eq!(reg.get(MetricName::Up, &labels), None);
    reg.set(MetricName::Up, labels.clone(), 1_000_000);
    assert_eq!(reg.get(MetricName::Up, &labels), Some(1_000_000));
    reg.set(MetricName::Up, labels.clone(), 2_000_000);
    assert_eq!(reg.get(MetricName::Up, &labels), Some(2_000_000));
}

#[test]
fn counters_accumulate() {
    let mut reg = Registry::new();
    let labels = pair("localhost:6379", "primary");
    reg.increment(MetricName::EvictedKeysTotal, labels.clone(), 5_000_000);
    assert_eq!(reg.get(MetricName::EvictedKeysTotal, &labels), Some(5_000_000));
    reg.increment(MetricName::EvictedKeysTotal, labels.clone(), 2_000_000);
    assert_eq!(reg.get(MetricName::EvictedKeysTotal, &labels), Some(7_000_000));
}

#[test]
fn counters_saturate_at_the_top() {
    let mut reg = Registry::new();
    let labels = pair("t", "n");
    reg.increment(MetricName::EvictedKeysTotal, labels.clone(), i128::MAX);
    reg.increment(MetricName::EvictedKeysTotal, labels.clone(), 1);
    assert_eq!(reg.get(MetricName::EvictedKeysTotal, &labels), Some(i128::MAX));
}

#[test]
fn distinct_label_tuples_are_distinct_series() {
    let mut reg = Registry::new();
    let a = pair("a:6379", "a");
    let b = pair("b:6379", "b");
    reg.set(MetricName::Up, a.clone(), 1_000_000);
    reg.set(MetricName::Up, b.clone(), 2_000_000);
    assert_eq!(reg.get(MetricName::Up, &a), Some(1_000_000));
    assert_eq!(reg.get(MetricName::Up, &b), Some(2_000_000));
}

#[test]
fn snapshot_lists_every_series_once() {
    let mut reg = Registry::new();
    reg.set(MetricName::Up, pair("t", "n"), 1_000_000);
    reg.set(MetricName::ConnectedClients, pair("t", "n"), 3_000_000);
    reg.set(MetricName::Up, pair("t", "n"), 4_000_000);
    let snap = reg.snapshot();
    assert_eq!(snap.len(), 2);
    let up: Vec<_> = snap.iter().filter(|s| s.name == MetricName::Up).collect();
    assert_eq!(up.len(), 1);
    assert_eq!(up[0].value, 4_000_000);
    assert_eq!(up[0].labels, pair("t", "n"));
    assert_eq!(up[0].kind(), Kind::Gauge);
}

#[test]
fn metric_names_expose_their_catalog_text() {
    assert_eq!(MetricName::Up.text(), "up");
    assert_eq!(MetricName::MemoryUsedBytes.text(), "memory_used_bytes");
    assert_eq!(MetricName::CommandsDurationSecondsTotal.text(), "commands_duration_seconds_total");
    assert_eq!(MetricName::DbKeysExpiring.text(), "db_keys_expiring");
    assert_eq!(MetricName::EvictedKeysTotal.text(), "evicted_keys_total");
    assert_eq!(MetricName::EvictedKeysTotal.kind(), Kind::Counter);
    assert_eq!(MetricName::Up.kind(), Kind::Gauge);
    assert_eq!(MetricName::CommandsTotal.schema(), LabelSchema::PerCommand);
    assert_eq!(MetricName::DbKeys.schema(), LabelSchema::PerDatabase);
    assert_eq!(MetricName::Up.schema(), LabelSchema::PerTarget);
}
