use holo_area_proxy::observability::{Config, Format, Metrics};
use holo_area_proxy::sample::{rss_kb_from_status, Sample, CSV_HEADER};

#[test]
fn default_config_disabled() {
    let c = Config::default();
    assert!(!c.enabled);
    assert_eq!(c.interval_ms, 1000);
    assert!(matches!(c.format, Format::Both));
}

#[test]
fn default_config_paths_and_interval_floor() {
    let mut c = Config::default();
    assert_eq!(c.dir, "/var/log/holo");
    assert_eq!(c.file_prefix, "holod-metrics");
    assert!(c.include_process);
    assert_eq!(c.sample_interval_ms(), 1000);
    c.interval_ms = 10;
    assert_eq!(c.sample_interval_ms(), 100);
    assert!(Format::Both.wants_jsonl() && Format::Both.wants_csv());
    assert!(Format::Jsonl.wants_jsonl() && !Format::Jsonl.wants_csv());
    assert!(!Format::Csv.wants_jsonl() && Format::Csv.wants_csv());
    assert_eq!(Format::default(), Format::Both);
}

const T0: u64 = 1_700_000_000_000;

#[test]
fn csv_and_jsonl_roundtrip_fields() {
    let mut metrics = Metrics::new();
    metrics.set_system_id("0100.0100.0001");
    metrics.set_instance_name("test");
    metrics.set_fib_install(false);
    metrics.set_lsdb(1, 10, 0xabc);
    metrics.set_lsdb(2, 5, 0xdef);
    metrics.record_spf(1, 1234);
    metrics.set_rib_sizes(7, 3, 0);
    metrics.set_fib_counters(0, 2, 0, 1);

    let s1 = metrics.snapshot(false, T0, None);
    metrics.set_lsdb(1, 12, 0xabcd);
    let s2 = metrics.snapshot(false, T0 + 100, None);

    assert_eq!(s2.lsdb_l1_lsp, 12);
    assert_eq!(s2.lsdb_lsp_total, 17);
    assert!(!s2.fib_install);
    assert_eq!(s2.spf_runs_l1, 1);
    assert_eq!(s2.last_spf_us_l1, 1234);
    assert_eq!(s2.rib_ipv4_active, 7);
    assert_eq!(s2.fib_ip_installs_skipped, 2);
    assert_eq!(s2.system_id.as_deref(), Some("0100.0100.0001"));

    assert!(CSV_HEADER.starts_with("ts_unix_ms,ts_rfc3339,system_id"));
    assert_eq!(CSV_HEADER.split(',').count(), 23);
    let row2 = s2.to_csv_row();
    assert!(row2.contains("0100.0100.0001"));
    assert!(row2.contains(",12,"));
    assert!(row2.contains("false"));
    assert_eq!(row2.split(',').count(), 23);

    // Convergence series: lsdb grew 10→12.
    let totals: Vec<u64> = [&s1, &s2].iter().map(|s| s.lsdb_lsp_total).collect();
    assert_eq!(totals, vec![15, 17]);
}

#[test]
fn snapshot_stamps_rfc3339_time() {
    let m = Metrics::new();
    let s = m.snapshot(true, T0 + 123, Some(4321));
    assert_eq!(s.ts_unix_ms, T0 + 123);
    assert_eq!(s.ts_rfc3339, "2023-11-14T22:13:20.123Z");
    assert_eq!(s.rss_kb, Some(4321));
    let s = m.snapshot(false, 0, Some(4321));
    assert_eq!(s.ts_rfc3339, "1970-01-01T00:00:00.000Z");
    assert_eq!(s.rss_kb, None);
}

#[test]
fn fresh_metrics_are_zero() {
    let m = Metrics::new();
    let s = m.snapshot(false, T0, None);
    assert_eq!(s.system_id, None);
    assert_eq!(s.lsdb_lsp_total, 0);
    assert_eq!(s.spf_runs_l1 + s.spf_runs_l2, 0);
}

#[test]
fn record_spf_counts_per_level_and_ignores_others() {
    let mut m = Metrics::new();
    m.record_spf(2, 10);
    m.record_spf(2, 20);
    m.record_spf(3, 99);
    m.set_lsdb(7, 1, 1);
    assert_eq!(m.spf_runs_l2, 2);
    assert_eq!(m.last_spf_us_l2, 20);
    assert_eq!(m.spf_runs_l1, 0);
    assert_eq!(m.lsdb_l1_lsp + m.lsdb_l2_lsp, 0);
    m.spf_runs_l1 = u64::MAX;
    m.record_spf(1, 5);
    assert_eq!(m.spf_runs_l1, 0);
}

#[test]
fn lsdb_total_saturates() {
    let mut m = Metrics::new();
    m.set_lsdb(1, u64::MAX - 1, 0);
    m.set_lsdb(2, 5, 0);
    assert_eq!(m.snapshot(false, T0, None).lsdb_lsp_total, u64::MAX);
}

#[test]
fn csv_row_exact_with_escapes() {
    let mut m = Metrics::new();
    m.set_system_id("a,b");
    m.set_instance_name("say \"hi\"");
    m.set_fib_install(true);
    m.set_lsdb(1, 1, 2);
    m.set_lsdb(2, 3, 4);
    m.record_spf(1, 5);
    let s: Sample = m.snapshot(true, 1000, Some(77));
    assert_eq!(
        s.to_csv_row(),
        "1000,1970-01-01T00:00:01.000Z,\"a,b\",\"say \"\"hi\"\"\",,true,1,3,4,2,4,1,0,5,0,0,0,0,0,0,0,0,77"
    );
    let s = Metrics::new().snapshot(false, 0, None);
    assert_eq!(
        s.to_csv_row(),
        "0,1970-01-01T00:00:00.000Z,,,,false,0,0,0,0,0,0,0,0,0,0,0,0,0,0,0,0,"
    );
}

#[test]
fn rss_read_from_status_text() {
    let text = "Name:\tholod\nVmPeak:\t  1000 kB\nVmRSS:\t   12345 kB\nThreads:\t4\n";
    assert_eq!(rss_kb_from_status(text), Some(12345));
    assert_eq!(rss_kb_from_status("VmRSS:99"), Some(99));
    assert_eq!(rss_kb_from_status("VmRSS: 7 kB\r\n"), Some(7));
    assert_eq!(rss_kb_from_status("Name: x\n"), None);
    assert_eq!(rss_kb_from_status(""), None);
    assert_eq!(rss_kb_from_status("VmRSS:\nVmRSS: 5\n"), None);
    assert_eq!(rss_kb_from_status("VmRSS: abc\n"), None);
    assert_eq!(rss_kb_from_status("  VmRSS: 5\n"), None);
    assert_eq!(rss_kb_from_status("X\nVmRSS:\u{a0}42\u{3000}kB"), Some(42));
}
