use std::time::Instant;
use turbobench::clock::{Span, Timestamp};
use turbobench::latency::interpolated_percentile;
use turbobench::metrics::{BackendSummary, CallRecord, LatencyStats, MetricsStore, PendingRequest, MAX_RECORDS};

const EPOCH: Timestamp = Timestamp { secs: 0, nanos: 0 };

fn ms(us: u64) -> f64 {
    us as f64 / 1000.0
}

fn centi_ms(centi_us: u128) -> f64 {
    centi_us as f64 / 100.0 / 1000.0
}

fn mean_ms(s: &LatencyStats) -> f64 {
    s.sum_us as f64 / s.count as f64 / 1000.0
}

fn std_dev_ms(s: &LatencyStats) -> f64 {
    if s.count < 2 {
        return 0.0;
    }
    let n = s.count as f64;
    let r = (s.sum_us % s.count as u64) as f64;
    ((n * s.sq_dev_us2 as f64 - r * r) / (n * (n - 1.0))).sqrt() / 1000.0
}

fn call(backend: &str, method: &str, tool: Option<&str>, latency_us: u64, success: bool) -> CallRecord {
    CallRecord {
        backend: backend.into(),
        method: method.into(),
        tool_name: tool.map(String::from),
        resource_uri: None,
        prompt_name: None,
        latency_us,
        request_bytes: 10,
        response_bytes: 20,
        estimated_input_tokens: 3,
        estimated_output_tokens: 5,
        success,
        error_message: None,
        timestamp: EPOCH,
    }
}

#[test]
fn latency_stats_empty() {
    assert!(LatencyStats::from_latencies_us(&mut []).is_none());
}

#[test]
fn latency_stats_single() {
    let stats = LatencyStats::from_latencies_us(&mut [5000]).unwrap();
    assert_eq!(stats.count, 1);
    assert!((ms(stats.min_us) - 5.0).abs() < f64::EPSILON);
    assert!((ms(stats.max_us) - 5.0).abs() < f64::EPSILON);
    assert!((centi_ms(stats.p50_centi_us) - 5.0).abs() < f64::EPSILON);
    assert!((centi_ms(stats.p95_centi_us) - 5.0).abs() < f64::EPSILON);
    assert!((centi_ms(stats.p99_centi_us) - 5.0).abs() < f64::EPSILON);
    assert!(std_dev_ms(&stats).abs() < f64::EPSILON);
}

#[test]
fn latency_stats_two_values() {
    let stats = LatencyStats::from_latencies_us(&mut [1000, 3000]).unwrap();
    assert_eq!(stats.count, 2);
    assert!((ms(stats.min_us) - 1.0).abs() < f64::EPSILON);
    assert!((ms(stats.max_us) - 3.0).abs() < f64::EPSILON);
    assert!((mean_ms(&stats) - 2.0).abs() < f64::EPSILON);
    assert!((centi_ms(stats.p50_centi_us) - 2.0).abs() < f64::EPSILON);
    assert!((std_dev_ms(&stats) - 1.4142135623730951).abs() < 0.001);
}

#[test]
fn latency_stats_known_dataset() {
    let mut data: Vec<u64> = (1..=10).map(|i| i * 100).collect();
    let stats = LatencyStats::from_latencies_us(&mut data).unwrap();
    assert_eq!(stats.count, 10);
    assert!((ms(stats.min_us) - 0.1).abs() < f64::EPSILON);
    assert!((ms(stats.max_us) - 1.0).abs() < f64::EPSILON);
    assert!((mean_ms(&stats) - 0.55).abs() < 0.001);
}

#[test]
fn interpolated_percentile_linear() {
    let sorted = [10u64, 20, 30, 40, 50];
    assert!((interpolated_percentile(&sorted, 50) as f64 / 100.0 - 30.0).abs() < f64::EPSILON);
    assert!((interpolated_percentile(&sorted, 25) as f64 / 100.0 - 20.0).abs() < f64::EPSILON);
    assert!((interpolated_percentile(&sorted, 10) as f64 / 100.0 - 14.0).abs() < f64::EPSILON);
}

#[test]
fn percentile_extremes() {
    let sorted = [10u64, 20, 30];
    assert_eq!(interpolated_percentile(&sorted, 0), 1000);
    assert_eq!(interpolated_percentile(&sorted, 100), 3000);
    assert_eq!(interpolated_percentile(&[7], 99), 700);
}

#[test]
fn latencies_are_sorted_in_place() {
    let mut data = [30u64, 10, 20, 10];
    let stats = LatencyStats::from_latencies_us(&mut data).unwrap();
    assert_eq!(data, [10, 10, 20, 30]);
    assert_eq!(stats.sum_us, 70);
    assert_eq!(stats.p50_centi_us, 1500);
    assert_eq!(stats.p95_centi_us, 2850);
    assert_eq!(stats.p99_centi_us, 2970);
    assert_eq!(stats.sq_dev_us2, 49 + 49 + 9 + 169);
}

#[test]
fn latency_stats_do_not_depend_on_order() {
    let a = LatencyStats::from_latencies_us(&mut [5, 1, 9, 3]);
    let b = LatencyStats::from_latencies_us(&mut [9, 5, 3, 1]);
    assert_eq!(a, b);
    let s = a.unwrap();
    assert!(100 * s.min_us as u128 <= s.p50_centi_us);
    assert!(s.p50_centi_us <= s.p95_centi_us);
    assert!(s.p95_centi_us <= s.p99_centi_us);
    assert!(s.p99_centi_us <= 100 * s.max_us as u128);
}

#[test]
fn metrics_store_respects_limit() {
    let mut store = MetricsStore::new();
    let rec = call("test", "tools/call", None, 100, true);
    for _ in 0..MAX_RECORDS + 10 {
        store.record(rec.clone());
    }
    assert_eq!(store.records.len(), MAX_RECORDS);
    assert_eq!(store.dropped, 10);
}

#[test]
fn build_record_success() {
    let start = Instant::now();
    let val: serde_json::Value = serde_json::from_str("{\"ok\": true}").unwrap();
    let rec = MetricsStore::build_record("backend", "tools/call", Some("click"), None, None, start, 50, &Ok(val));
    assert!(rec.success);
    assert!(rec.error_message.is_none());
    assert!(rec.response_bytes > 0);
    assert!(rec.latency_us < 1_000_000);
}

#[test]
fn build_record_error() {
    let start = Instant::now();
    let rec = MetricsStore::build_record(
        "backend",
        "tools/call",
        Some("click"),
        None,
        None,
        start,
        50,
        &Err("timeout".into()),
    );
    assert!(!rec.success);
    assert_eq!(rec.error_message.as_deref(), Some("timeout"));
    assert_eq!(rec.response_bytes, 0);
}

#[test]
fn generate_report_empty() {
    let store = MetricsStore::new();
    let report = store.generate_report("test-session");
    assert!(report.backends.is_empty());
    assert!(report.records.is_empty());
    assert!(report.duration.secs as f64 + report.duration.nanos as f64 / 1e9 >= 0.0);
}

#[test]
fn record_fields() {
    let val: serde_json::Value = serde_json::from_str("{\"b\":1,\"a\":[null,true,\"\\u00e9\"]}").unwrap();
    let rec = MetricsStore::record_of(
        "backend",
        "resources/read",
        None,
        Some("file:///x"),
        None,
        Span { secs: 2, nanos: 345_678 },
        Timestamp { secs: 17, nanos: 4 },
        9,
        &Ok(val),
    );
    assert_eq!(rec.backend, "backend");
    assert_eq!(rec.method, "resources/read");
    assert!(rec.tool_name.is_none());
    assert_eq!(rec.resource_uri.as_deref(), Some("file:///x"));
    assert!(rec.prompt_name.is_none());
    assert_eq!(rec.latency_us, 2_000_345);
    assert_eq!(rec.request_bytes, 9);
    assert_eq!(rec.response_bytes, "{\"b\":1,\"a\":[null,true,\"é\"]}".len());
    assert_eq!(rec.estimated_input_tokens, 3);
    assert_eq!(rec.estimated_output_tokens, 7);
    assert_eq!(rec.timestamp, Timestamp { secs: 17, nanos: 4 });
}

#[test]
fn record_times_come_from_the_clocks() {
    let start = Instant::now();
    while start.elapsed().as_micros() < 2000 {}
    let rec = MetricsStore::build_record("b", "m", None, None, None, start, 0, &Err("e".into()));
    assert!(rec.latency_us >= 2000);
    assert!(rec.timestamp.secs > 1_600_000_000);
    let store = MetricsStore::new();
    let report = store.generate_report("s");
    assert!(report.started_at.secs > 1_600_000_000);
    assert!(report.ended_at.secs >= report.started_at.secs);
}

#[test]
fn very_long_latencies_are_capped() {
    assert_eq!(Span { secs: u64::MAX, nanos: 999_999_999 }.capped_micros(), u64::MAX);
    assert_eq!(Span { secs: 1, nanos: 1_999 }.capped_micros(), 1_000_001);
    assert_eq!(Span { secs: 18_446_744_073_709, nanos: 551_615_999 }.capped_micros(), u64::MAX);
    assert_eq!(Span { secs: 18_446_744_073_709, nanos: 551_614_999 }.capped_micros(), u64::MAX - 1);
}

fn sample_store() -> MetricsStore {
    let mut store = MetricsStore::new();
    store.record(call("zeta", "tools/list", None, 100, true));
    store.record(call("alpha", "tools/call", Some("click"), 300, true));
    store.record(call("alpha", "tools/call", Some("type"), 200, false));
    store.record(call("alpha", "tools/call", Some("click"), 500, true));
    store.record(call("alpha", "tools/call", None, 700, false));
    store.record(call("alpha", "prompts/list", None, 50, true));
    store.record(call("zeta", "tools/call", Some("click"), 900, true));
    store
}

#[test]
fn report_by_backend() {
    let store = sample_store();
    assert!(store.totals_fit());
    let end = Timestamp { secs: 5, nanos: 6 };
    let span = Span { secs: 45, nanos: 200_000_000 };
    let report = store.report_at("session", end, span);
    assert_eq!(report.session_id, "session");
    assert_eq!(report.ended_at, end);
    assert_eq!(report.duration, span);
    assert_eq!(report.started_at, store.session_start_utc);
    assert_eq!(report.records.len(), 7);
    assert_eq!(report.records[0].backend, "zeta");
    let names: Vec<&str> = report.backends.iter().map(|b| b.name.as_str()).collect();
    assert_eq!(names, vec!["alpha", "zeta"]);
    let a: &BackendSummary = &report.backends[0];
    assert_eq!(a.total_calls, 5);
    assert_eq!(a.total_tool_calls, 4);
    assert_eq!(a.success_count, 3);
    assert_eq!(a.failure_count, 2);
    assert_eq!(a.total_input_bytes, 50);
    assert_eq!(a.total_output_bytes, 100);
    assert_eq!(a.total_bytes, 150);
    assert_eq!(a.estimated_input_tokens, 15);
    assert_eq!(a.estimated_output_tokens, 25);
    assert_eq!(a.estimated_total_tokens, 40);
    assert_eq!(a.overall_latency, LatencyStats::from_latencies_us(&mut [300, 200, 500, 700, 50]));
    assert_eq!(a.tool_call_latency, LatencyStats::from_latencies_us(&mut [300, 200, 500, 700]));
}

#[test]
fn report_by_tool_and_method() {
    let report = sample_store().generate_report("s");
    let a = &report.backends[0];
    let tools: Vec<(&str, usize, usize, usize)> = a
        .tools
        .iter()
        .map(|t| (t.name.as_str(), t.call_count, t.success_count, t.failure_count))
        .collect();
    assert_eq!(tools, vec![("click", 2, 2, 0), ("type", 1, 0, 1)]);
    assert_eq!(a.tools[0].total_input_bytes, 20);
    assert_eq!(a.tools[0].total_output_bytes, 40);
    assert_eq!(a.tools[0].estimated_input_tokens, 6);
    assert_eq!(a.tools[0].estimated_output_tokens, 10);
    assert_eq!(a.tools[0].latency, LatencyStats::from_latencies_us(&mut [300, 500]));
    let methods: Vec<(&str, usize)> = a.methods.iter().map(|m| (m.method.as_str(), m.call_count)).collect();
    assert_eq!(methods, vec![("tools/call", 4), ("prompts/list", 1)]);
    assert_eq!(a.methods[0].total_input_bytes, 40);
    assert_eq!(a.methods[0].total_output_bytes, 80);
    assert_eq!(a.methods[0].estimated_input_tokens, 12);
    assert_eq!(a.methods[0].estimated_output_tokens, 20);
    assert_eq!(a.methods[1].latency, LatencyStats::from_latencies_us(&mut [50]));
}

#[test]
fn parts_of_a_report_add_up() {
    let store = sample_store();
    let report = store.generate_report("s");
    let calls: usize = report.backends.iter().map(|b| b.total_calls).sum();
    assert_eq!(calls, report.records.len());
    for b in &report.backends {
        assert_eq!(b.success_count + b.failure_count, b.total_calls);
        assert_eq!(b.methods.iter().map(|m| m.call_count).sum::<usize>(), b.total_calls);
        assert_eq!(b.methods.iter().map(|m| m.total_input_bytes).sum::<usize>(), b.total_input_bytes);
        assert!(b.tools.iter().map(|t| t.call_count).sum::<usize>() <= b.total_tool_calls);
        for t in &b.tools {
            assert_eq!(t.success_count + t.failure_count, t.call_count);
        }
    }
    let alpha = &report.backends[0];
    assert_eq!(alpha.tools.iter().map(|t| t.call_count).sum::<usize>(), 3);
    let zeta = &report.backends[1];
    assert_eq!(zeta.tools.iter().map(|t| t.call_count).sum::<usize>(), zeta.total_tool_calls);
}

#[test]
fn summaries_do_not_depend_on_the_order_of_records() {
    let store = sample_store();
    let mut reversed = MetricsStore::new();
    for r in store.records.iter().rev() {
        reversed.record(r.clone());
    }
    let a = store.generate_report("a");
    let b = reversed.generate_report("b");
    assert_eq!(a.backends.len(), b.backends.len());
    for (x, y) in a.backends.iter().zip(&b.backends) {
        assert_eq!(x.name, y.name);
        assert_eq!(x.total_calls, y.total_calls);
        assert_eq!(x.success_count, y.success_count);
        assert_eq!(x.total_bytes, y.total_bytes);
        assert_eq!(x.overall_latency, y.overall_latency);
        assert_eq!(x.tool_call_latency, y.tool_call_latency);
        let counts = |s: &BackendSummary| s.methods.iter().map(|m| m.call_count).collect::<Vec<usize>>();
        assert_eq!(counts(x), counts(y));
        let entries = |s: &BackendSummary| {
            let mut e: Vec<String> = s.methods.iter().map(|m| format!("{m:?}")).collect();
            e.extend(s.tools.iter().map(|t| format!("{t:?}")));
            e.sort();
            e
        };
        assert_eq!(entries(x), entries(y));
    }
    assert_eq!(format!("{:?}", a.backends[0]), format!("{:?}", b.backends[0]));
}

#[test]
fn summary_of_chosen_records() {
    let a = call("x", "tools/call", Some("click"), 300, true);
    let b = call("y", "prompts/list", None, 100, false);
    let s = MetricsStore::summarize("both", &[&a, &b]);
    let t = MetricsStore::summarize("both", &[&b, &a]);
    assert_eq!(s.name, "both");
    assert_eq!(s.total_calls, 2);
    assert_eq!(s.total_tool_calls, 1);
    assert_eq!(s.success_count, 1);
    assert_eq!(s.failure_count, 1);
    assert_eq!(s.total_bytes, 60);
    assert_eq!(s.tools.len(), 1);
    assert_eq!(s.methods.len(), 2);
    assert_eq!(s.overall_latency, t.overall_latency);
    assert_eq!(format!("{:?}", s.tools), format!("{:?}", t.tools));
    let empty = MetricsStore::summarize("none", &[]);
    assert_eq!(empty.total_calls, 0);
    assert!(empty.overall_latency.is_none());
    assert!(empty.tools.is_empty() && empty.methods.is_empty());
}

#[test]
fn variance_is_never_negative() {
    for data in [&mut [1u64, 1, 1][..], &mut [0, 0, 1], &mut [5, 7], &mut [1, 2, 3, 4, 6], &mut [9]] {
        let s = LatencyStats::from_latencies_us(data).unwrap();
        let n = s.count as u128;
        let r = (s.sum_us % s.count as u64) as u128;
        let squares: u128 = data.iter().map(|x| (*x as u128) * (*x as u128)).sum();
        assert!(n * s.sq_dev_us2 >= r * r);
        assert_eq!(n * s.sq_dev_us2 - r * r, n * squares - (s.sum_us as u128) * (s.sum_us as u128));
    }
}

#[test]
fn reports_on_one_store_agree() {
    let store = sample_store();
    let a = store.generate_report("a");
    let b = store.generate_report("b");
    assert_eq!(a.session_id, "a");
    assert_eq!(b.session_id, "b");
    assert_eq!(a.started_at, b.started_at);
    assert_eq!(format!("{:?}", a.backends), format!("{:?}", b.backends));
    assert_eq!(format!("{:?}", a.records), format!("{:?}", b.records));
    assert!((a.duration.secs, a.duration.nanos) <= (b.duration.secs, b.duration.nanos));
}

#[test]
fn duration_runs_from_the_start_of_the_session() {
    let store = MetricsStore::new();
    while store.session_start.elapsed().as_micros() < 3000 {}
    let d = store.generate_report("s").duration;
    assert!(d.secs > 0 || d.nanos >= 3_000_000);
}

#[test]
fn copies_are_equal() {
    let report = sample_store().generate_report("s");
    assert_eq!(format!("{:?}", report.clone()), format!("{report:?}"));
    let p = PendingRequest {
        start: Instant::now(),
        method: "m".into(),
        tool_name: Some("t".into()),
        resource_uri: None,
        prompt_name: None,
        request_bytes: 3,
    };
    assert_eq!(format!("{:?}", p.clone()), format!("{p:?}"));
}

#[test]
fn names_sort_by_bytes() {
    let mut store = MetricsStore::new();
    for name in ["b", "B", "aa", "a", "é", ""] {
        store.record(call(name, "ping", None, 1, true));
    }
    let report = store.generate_report("s");
    let names: Vec<&str> = report.backends.iter().map(|b| b.name.as_str()).collect();
    assert_eq!(names, vec!["", "B", "a", "aa", "b", "é"]);
}

#[test]
fn sums_that_do_not_fit_are_noticed() {
    let mut store = MetricsStore::new();
    let mut big = call("a", "m", None, 1, true);
    big.request_bytes = usize::MAX;
    big.response_bytes = 0;
    store.record(big.clone());
    assert!(store.totals_fit());
    store.record(call("b", "m", None, 1, true));
    assert!(store.totals_fit());
    store.record(call("a", "m", None, 1, true));
    assert!(!store.totals_fit());
    let mut store = MetricsStore::new();
    big.response_bytes = 1;
    store.record(big);
    assert!(!store.totals_fit());
    let mut store = MetricsStore::new();
    store.record(call("a", "m", None, u64::MAX, true));
    assert!(store.totals_fit());
    store.record(call("a", "m", None, 1, true));
    assert!(!store.totals_fit());
}
