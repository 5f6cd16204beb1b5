use holo_area_proxy::metrics_emit::{
    isis_spf_finish_event, routing_rib_batch_event, start_event, with_schema_and_ts,
    MetricValue, MetricsEvent, RibBatchCounters, SCHEMA,
};

fn get<'a>(e: &'a MetricsEvent, k: &str) -> Option<&'a MetricValue> {
    e.fields.iter().find(|f| f.key == k).map(|f| &f.value)
}

fn str_of(v: Option<&MetricValue>) -> Option<&str> {
    match v {
        Some(MetricValue::Str(s)) => Some(s.as_str()),
        _ => None,
    }
}

fn u64_of(v: Option<&MetricValue>) -> Option<u64> {
    match v {
        Some(MetricValue::U64(n)) => Some(*n),
        _ => None,
    }
}

fn counters(prefixes: u64, mpls: u64) -> RibBatchCounters {
    RibBatchCounters {
        fib_install: false,
        prefixes_touched: prefixes,
        mpls_touched: mpls,
        rib_ipv4_active: 10,
        rib_ipv6_active: 2,
        rib_mpls_entries: 0,
        ip_installs: 0,
        ip_installs_skipped: 3,
        ip_uninstalls: 0,
        ip_uninstalls_skipped: 0,
        mpls_installs: 0,
        mpls_installs_skipped: 0,
        mpls_uninstalls: 0,
        mpls_uninstalls_skipped: 0,
    }
}

#[test]
fn spf_finish_event_fields() {
    let e = isis_spf_finish_event("rt1", "L1", "full", 42, Some(10), 2, 1);
    assert_eq!(str_of(get(&e, "kind")), Some("isis.spf.finish"));
    assert_eq!(str_of(get(&e, "protocol")), Some("isis"));
    assert_eq!(str_of(get(&e, "instance")), Some("rt1"));
    assert_eq!(u64_of(get(&e, "duration_us")), Some(42));
    assert_eq!(u64_of(get(&e, "schedule_to_start_us")), Some(10));
    assert_eq!(u64_of(get(&e, "trigger_lsp_count")), Some(2));
    assert_eq!(u64_of(get(&e, "spf_runs")), Some(1));
    let e = isis_spf_finish_event("rt1", "L2", "full", 1, None, 0, 0);
    assert!(matches!(get(&e, "schedule_to_start_us"), Some(MetricValue::Null)));
}

#[test]
fn rib_batch_event_skipped_when_nothing_touched() {
    assert!(routing_rib_batch_event(&counters(0, 0)).is_none());
    let e = routing_rib_batch_event(&counters(3, 0)).unwrap();
    assert_eq!(str_of(get(&e, "kind")), Some("routing.rib.batch"));
    assert!(matches!(get(&e, "fib_install"), Some(MetricValue::Bool(false))));
    assert_eq!(u64_of(get(&e, "ip_installs_skipped")), Some(3));
    assert_eq!(e.fields.len(), 16);
    assert!(routing_rib_batch_event(&counters(0, 1)).is_some());
}

#[test]
fn written_events_get_schema_and_ts_once() {
    let e = isis_spf_finish_event("rt1", "L1", "full", 42, Some(10), 2, 1);
    let n = e.fields.len();
    let w = with_schema_and_ts(e, "2024-01-01T00:00:00.000Z");
    assert_eq!(w.fields.len(), n + 2);
    assert_eq!(str_of(get(&w, "schema")), Some(SCHEMA));
    assert_eq!(str_of(get(&w, "ts")), Some("2024-01-01T00:00:00.000Z"));

    let start = start_event("T", "/tmp/m.jsonl");
    assert_eq!(str_of(get(&start, "kind")), Some("observability.start"));
    let w = with_schema_and_ts(start, "other");
    assert_eq!(w.fields.len(), 4);
    assert_eq!(str_of(get(&w, "ts")), Some("T"));
    assert_eq!(SCHEMA, "holo.metrics.v1");
}
