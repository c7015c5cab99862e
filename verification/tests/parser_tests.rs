use redis_exporter::catalog::MetricName;
use redis_exporter::num::micros_to_seconds;
use redis_exporter::num::parse_number;
use redis_exporter::num::parse_number_or_zero;
use redis_exporter::parser::parse;
use redis_exporter::parser::Op;
use redis_exporter::parser::Update;

fn set_value(u: &Update) -> i128 {
    match u.op {
        Op::SetGauge(v) => v,
        Op::IncrementCounter(_) => panic!("expected a gauge update"),
    }
}

fn inc_value(u: &Update) -> i128 {
    match u.op {
        Op::IncrementCounter(v) => v,
        Op::SetGauge(_) => panic!("expected a counter update"),
    }
}

#[test]
fn cmdstat_line_yields_three_updates() {
    let updates = parse(b"cmdstat_get:calls=10,rejected_calls=2,usec=1500000");
    assert_eq!(updates.len(), 3);
    assert_eq!(updates[0].name, MetricName::CommandsTotal);
    assert_eq!(updates[0].labels, vec![b"get".to_vec()]);
    assert_eq!(set_value(&updates[0]), 10_000_000);
    assert_eq!(updates[1].name, MetricName::CommandsRejectedCallsTotal);
    assert_eq!(updates[1].labels, vec![b"get".to_vec()]);
    assert_eq!(set_value(&updates[1]), 2_000_000);
    assert_eq!(updates[2].name, MetricName::CommandsDurationSecondsTotal);
    assert_eq!(updates[2].labels, vec![b"get".to_vec()]);
    // 1_500_000 microseconds are exactly 1.5 seconds.
    assert_eq!(set_value(&updates[2]), 1_500_000);
}

#[test]
fn cmdstat_duration_is_exact() {
    let updates = parse(b"cmdstat_get:calls=10,rejected_calls=0,usec=500");
    // 500 microseconds are exactly 0.0005 seconds.
    assert_eq!(set_value(&updates[2]), 500);
}

#[test]
fn db_line_yields_keys_and_expires() {
    let updates = parse(b"db0:keys=10,expires=5");
    assert_eq!(updates.len(), 2);
    assert_eq!(updates[0].name, MetricName::DbKeys);
    assert_eq!(updates[0].labels, vec![b"db0".to_vec()]);
    assert_eq!(set_value(&updates[0]), 10_000_000);
    assert_eq!(updates[1].name, MetricName::DbKeysExpiring);
    assert_eq!(updates[1].labels, vec![b"db0".to_vec()]);
    assert_eq!(set_value(&updates[1]), 5_000_000);
}

#[test]
fn db_line_without_expires_yields_only_keys() {
    let updates = parse(b"db0:keys=10");
    assert_eq!(updates.len(), 1);
    assert_eq!(updates[0].name, MetricName::DbKeys);
    assert_eq!(set_value(&updates[0]), 10_000_000);
}

#[test]
fn unknown_key_yields_no_updates() {
    let updates = parse(b"some_future_key:42");
    assert_eq!(updates.len(), 0);
}

#[test]
fn blank_header_and_separatorless_lines_are_skipped() {
    let updates = parse(b"# Server\r\n\r\nno separator here\r\n");
    assert_eq!(updates.len(), 0);
}

#[test]
fn gauge_parse_failure_defaults_to_zero() {
    let updates = parse(b"connected_clients:not_a_number");
    assert_eq!(updates.len(), 1);
    assert_eq!(updates[0].name, MetricName::ConnectedClients);
    assert!(updates[0].labels.is_empty());
    assert_eq!(set_value(&updates[0]), 0);
}

#[test]
fn db_parse_failure_is_omitted_not_defaulted() {
    let updates = parse(b"db1:keys=abc,expires=4");
    assert_eq!(updates.len(), 1);
    assert_eq!(updates[0].name, MetricName::DbKeysExpiring);
    assert_eq!(updates[0].labels, vec![b"db1".to_vec()]);
    assert_eq!(set_value(&updates[0]), 4_000_000);
}

#[test]
fn cmdstat_parse_failure_defaults_to_zero() {
    let updates = parse(b"cmdstat_get:calls=abc,rejected_calls=1");
    assert_eq!(updates.len(), 2);
    assert_eq!(updates[0].name, MetricName::CommandsTotal);
    assert_eq!(set_value(&updates[0]), 0);
    assert_eq!(updates[1].name, MetricName::CommandsRejectedCallsTotal);
    assert_eq!(set_value(&updates[1]), 1_000_000);
}

#[test]
fn cmdstat_absent_fields_are_omitted() {
    let updates = parse(b"cmdstat_get:calls=3");
    assert_eq!(updates.len(), 1);
    assert_eq!(updates[0].name, MetricName::CommandsTotal);
    assert_eq!(set_value(&updates[0]), 3_000_000);
}

#[test]
fn counter_parse_failure_defaults_to_zero() {
    let updates = parse(b"evicted_keys:junk");
    assert_eq!(updates.len(), 1);
    assert_eq!(inc_value(&updates[0]), 0);
}

#[test]
fn counter_line_yields_increment() {
    let updates = parse(b"evicted_keys:7");
    assert_eq!(updates.len(), 1);
    assert_eq!(updates[0].name, MetricName::EvictedKeysTotal);
    assert_eq!(inc_value(&updates[0]), 7_000_000);
}

#[test]
fn duplicate_keys_yield_one_update_each() {
    let updates = parse(b"connected_clients:1\r\nconnected_clients:2\r\n");
    assert_eq!(updates.len(), 2);
    assert_eq!(set_value(&updates[0]), 1_000_000);
    assert_eq!(set_value(&updates[1]), 2_000_000);
}

#[test]
fn parsing_twice_yields_the_same_sequence() {
    let reply: &[u8] = b"uptime_in_seconds:3\r\ncmdstat_set:calls=1,usec=9\r\ndb0:keys=2\r\n";
    let a = parse(reply);
    let b = parse(reply);
    assert_eq!(a.len(), b.len());
    for (x, y) in a.iter().zip(b.iter()) {
        assert_eq!(x.name, y.name);
        assert_eq!(x.labels, y.labels);
        match (&x.op, &y.op) {
            (Op::SetGauge(v), Op::SetGauge(w)) => assert_eq!(v, w),
            (Op::IncrementCounter(v), Op::IncrementCounter(w)) => assert_eq!(v, w),
            _ => panic!("operations differ"),
        }
    }
}

#[test]
fn numeral_forms() {
    assert_eq!(parse_number(b"12345"), Some(12_345_000_000));
    assert_eq!(parse_number(b"12.5"), Some(12_500_000));
    assert_eq!(parse_number(b"-3"), Some(-3_000_000));
    assert_eq!(parse_number(b"+7"), Some(7_000_000));
    assert_eq!(parse_number(b"1."), Some(1_000_000));
    assert_eq!(parse_number(b"0.000001"), Some(1));
    // Digits past the sixth fractional place are truncated toward zero.
    assert_eq!(parse_number(b"1.0000019"), Some(1_000_001));
    assert_eq!(parse_number(b""), None);
    assert_eq!(parse_number(b".5"), None);
    assert_eq!(parse_number(b"1.2.3"), None);
    assert_eq!(parse_number(b"abc"), None);
    assert_eq!(parse_number_or_zero(b"abc"), 0);
    assert_eq!(parse_number_or_zero(b"2"), 2_000_000);
}

#[test]
fn micros_division_truncates_toward_zero() {
    assert_eq!(micros_to_seconds(500_000_000), 500);
    assert_eq!(micros_to_seconds(999_999), 0);
    assert_eq!(micros_to_seconds(-1_500_000), -1);
}
