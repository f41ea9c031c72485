use turbobench::metrics::{BackendSummary, MethodSummary, ToolSummary};
use turbobench::report::{
    backend_figures, combine_reports, fmt_bytes, fmt_change, fmt_num, format_latency_inline, method_figures,
    print_backend, print_report, short_session_id, tool_figures, BackendFigures, Block, Change, Deltas, LatencyText, MethodFigures, ReportFigures, Style,
    ToolFigures,
};

#[test]
fn test_fmt_num() {
    assert_eq!(fmt_num(0), "0");
    assert_eq!(fmt_num(999), "999");
    assert_eq!(fmt_num(1000), "1,000");
    assert_eq!(fmt_num(1_000_000), "1,000,000");
    assert_eq!(fmt_num(12345), "12,345");
}

#[test]
fn test_fmt_bytes() {
    assert_eq!(fmt_bytes(0), "0 B");
    assert_eq!(fmt_bytes(1023), "1023 B");
    assert_eq!(fmt_bytes(1024), "1.0 KB");
    assert_eq!(fmt_bytes(1536), "1.5 KB");
    assert_eq!(fmt_bytes(1024 * 1024), "1.0 MB");
}

#[test]
fn test_safe_session_id_slice() {
    let report = ReportFigures {
        session_id: "abc".to_string(),
        duration: "0.0".to_string(),
        records: 0,
        backends: vec![],
    };
    let lines = rendered(&print_report(&report, &None));
    assert_eq!(
        lines,
        vec!["", "# === TurboBench Report ===", "  Session:  abc", "  Duration: 0.0s", "  Records:  0", ""]
    );
}

/// The blocks as lines: headings behind marks, table cells between bars.
fn rendered(blocks: &Vec<Block>) -> Vec<String> {
    let mut out: Vec<String> = Vec::new();
    for b in blocks {
        match b {
            Block::Blank => out.push(String::new()),
            Block::Line(t) => out.push(t.clone()),
            Block::Heading(Style::Report, t) => out.push(format!("# {t}")),
            Block::Heading(Style::Backend, t) => out.push(format!("## {t}")),
            Block::Heading(Style::Comparison, t) => out.push(format!("#! {t}")),
            Block::Table { header, rows } => {
                out.push(format!("[{}]", header.join("|")));
                for r in rows {
                    out.push(r.join("|"));
                }
            }
        }
    }
    out
}

#[test]
fn commas_group_digits_by_three() {
    assert_eq!(fmt_num(100_000), "100,000");
    assert_eq!(fmt_num(1_002_003), "1,002,003");
    assert_eq!(fmt_num(usize::MAX), "18,446,744,073,709,551,615");
    for n in [0usize, 9, 10, 999, 1000, 70_010, 123_456_789] {
        assert_eq!(fmt_num(n).replace(',', ""), n.to_string());
    }
}

#[test]
fn commas_stand_before_every_third_digit() {
    let mut n: usize = 1;
    for digits in 1..=19usize {
        let s = fmt_num(n);
        assert_eq!(s.len(), digits + (digits - 1) / 3);
        for (i, c) in s.chars().enumerate() {
            assert_eq!(c == ',', (s.len() - i) % 4 == 0);
        }
        n = n.wrapping_mul(10);
    }
}

#[test]
fn reports_with_any_session_id_are_printed() {
    let r = ReportFigures {
        session_id: "1234567é".to_string(),
        duration: "0.0".to_string(),
        records: 0,
        backends: vec![],
    };
    assert!(rendered(&print_report(&r, &None)).contains(&"  Session:  1234567".to_string()));
}

#[test]
fn bytes_in_every_unit() {
    assert_eq!(fmt_bytes(1280), "1.2 KB");
    assert_eq!(fmt_bytes(1792), "1.8 KB");
    assert_eq!(fmt_bytes(1024 * 1024 - 1), "1024.0 KB");
    assert_eq!(fmt_bytes(5 * 1024 * 1024 / 4), "1.2 MB");
    assert_eq!(fmt_bytes(3 * 1024 * 1024 * 1024), "3072.0 MB");
}

#[test]
fn bytes_as_binary64_prints_them() {
    let mut n: usize = 1024;
    while n < 1024 * 1024 {
        assert_eq!(fmt_bytes(n), format!("{:.1} KB", n as f64 / 1024.0));
        n += 37;
    }
    let cases: [usize; 6] = [
        1024 * 1024,
        1_363_148,
        123_456_789_012,
        9_007_199_254_740_993,
        usize::MAX - 4096,
        usize::MAX,
    ];
    for n in cases {
        assert_eq!(fmt_bytes(n), format!("{:.1} MB", n as f64 / (1024.0 * 1024.0)));
    }
}

#[test]
fn session_ids_are_cut_to_eight() {
    assert_eq!(short_session_id("a1b2c3d4-0000"), "a1b2c3d4");
    assert_eq!(short_session_id("12345678"), "12345678");
    assert_eq!(short_session_id("1234567"), "1234567");
    assert_eq!(short_session_id(""), "");
    assert_eq!(short_session_id("éééé!"), "éééé");
    assert_eq!(short_session_id("1234567é"), "1234567");
    assert_eq!(short_session_id("日日日日"), "日日");
    assert_eq!(short_session_id("12345😀x"), "12345");
    assert_eq!(short_session_id("1234😀x"), "1234😀");
}

#[test]
fn changes() {
    assert_eq!(fmt_change(&Change::Undefined, "%"), "-");
    assert_eq!(fmt_change(&Change::Negligible, "%"), "~0%");
    assert_eq!(fmt_change(&Change::Up("100".into()), "%"), "+100%");
    assert_eq!(fmt_change(&Change::Down("-50".into()), "%"), "-50%");
}

fn latency(mean: &str) -> LatencyText {
    LatencyText {
        mean: mean.into(),
        p50: "198".into(),
        p95: "456".into(),
        p99: "789".into(),
        mean_tenths: format!("{mean}.0"),
        p95_tenths: "456.1".into(),
    }
}

#[test]
fn latency_cell() {
    assert_eq!(format_latency_inline(&latency("234")), "234 / 198 / 456 / 789 ms");
}

fn figures(name: &str) -> BackendFigures {
    BackendFigures {
        name: name.into(),
        total_calls: 42,
        total_tool_calls: 35,
        success_rate: "97.1".into(),
        total_input_bytes: 16_794,
        total_output_bytes: 33_792,
        total_bytes: 50_586,
        estimated_input_tokens: 4100,
        estimated_output_tokens: 8250,
        estimated_total_tokens: 12_350,
        latency: Some(latency("234")),
        tools: vec![
            ToolFigures {
                name: "click".into(),
                call_count: 15,
                ok_percent: "100".into(),
                estimated_input_tokens: 800,
                estimated_output_tokens: 2400,
                latency: Some(latency("50")),
            },
            ToolFigures {
                name: "never".into(),
                call_count: 0,
                ok_percent: "0".into(),
                estimated_input_tokens: 0,
                estimated_output_tokens: 0,
                latency: None,
            },
        ],
        methods: vec![
            MethodFigures {
                method: "tools/call".into(),
                call_count: 1035,
                total_input_bytes: 100,
                total_output_bytes: 2048,
                latency: Some(latency("7")),
            },
            MethodFigures {
                method: "ping".into(),
                call_count: 1,
                total_input_bytes: 0,
                total_output_bytes: 0,
                latency: None,
            },
        ],
    }
}

fn backend_lines(name: &str) -> Vec<String> {
    vec![
        format!("## --- {name} ---"),
        "[Metric|Value]".into(),
        "Total calls|42".into(),
        "Tool calls|35".into(),
        "Success rate|97.1%".into(),
        "Total bytes (in/out)|16.4 KB / 33.0 KB".into(),
        "Est. tokens (in/out)|~4,100 / ~8,250".into(),
        "Est. total tokens|~12,350".into(),
        "Latency (mean/p50/p95/p99)|234 / 198 / 456 / 789 ms".into(),
        "".into(),
        "[Tool|Calls|OK%|Tokens(in)|Tokens(out)|P50ms|P95ms|P99ms]".into(),
        "click|15|100%|~800|~2,400|198|456|789".into(),
        "never|0|-|~0|~0|-|-|-".into(),
        "".into(),
        "[Method|Calls|Bytes(in)|Bytes(out)|Mean ms]".into(),
        "tools/call|1,035|100 B|2.0 KB|7.0".into(),
        "ping|1|0 B|0 B|-".into(),
        "".into(),
    ]
}

#[test]
fn backend_tables() {
    assert_eq!(rendered(&print_backend(&figures("playwright"))), backend_lines("playwright"));
}

#[test]
fn backend_without_tools_methods_or_latency() {
    let mut f = figures("x");
    f.tools.clear();
    f.methods.clear();
    f.latency = None;
    let lines = rendered(&print_backend(&f));
    let expected: Vec<String> = [&backend_lines("x")[..8], &["".to_string()][..]].concat();
    assert_eq!(lines, expected);
}

#[test]
fn figures_come_from_summaries() {
    let tool = ToolSummary {
        name: "click".into(),
        call_count: 3,
        success_count: 2,
        failure_count: 1,
        total_input_bytes: 10,
        total_output_bytes: 20,
        estimated_input_tokens: 4,
        estimated_output_tokens: 5,
        latency: None,
    };
    let method = MethodSummary {
        method: "tools/call".into(),
        call_count: 6,
        total_input_bytes: 7,
        total_output_bytes: 8,
        estimated_input_tokens: 9,
        estimated_output_tokens: 10,
        latency: None,
    };
    let t = tool_figures(&tool, "67".into(), None);
    assert_eq!((t.name.as_str(), t.call_count, t.ok_percent.as_str()), ("click", 3, "67"));
    assert_eq!((t.estimated_input_tokens, t.estimated_output_tokens), (4, 5));
    let m = method_figures(&method, Some(latency("1")));
    assert_eq!((m.method.as_str(), m.call_count), ("tools/call", 6));
    assert_eq!((m.total_input_bytes, m.total_output_bytes), (7, 8));
    assert!(m.latency.is_some());
    let backend = BackendSummary {
        name: "b".into(),
        total_calls: 1,
        total_tool_calls: 2,
        success_count: 3,
        failure_count: 4,
        total_input_bytes: 5,
        total_output_bytes: 6,
        total_bytes: 7,
        estimated_input_tokens: 8,
        estimated_output_tokens: 9,
        estimated_total_tokens: 10,
        overall_latency: None,
        tool_call_latency: None,
        tools: vec![],
        methods: vec![],
    };
    let f = backend_figures(&backend, "97.1".into(), None, vec![t], vec![m]);
    assert_eq!((f.name.as_str(), f.total_calls, f.total_tool_calls), ("b", 1, 2));
    assert_eq!((f.total_input_bytes, f.total_output_bytes, f.total_bytes), (5, 6, 7));
    assert_eq!(
        (f.estimated_input_tokens, f.estimated_output_tokens, f.estimated_total_tokens),
        (8, 9, 10)
    );
    assert_eq!(f.success_rate, "97.1");
    assert_eq!((f.tools.len(), f.methods.len()), (1, 1));
}

fn deltas() -> Deltas {
    Deltas {
        total_calls: Change::Negligible,
        success_rate: Change::Up("5.1".into()),
        estimated_total_tokens: Change::Down("-50".into()),
        total_bytes: Change::Undefined,
        mean_latency: Change::Up("100".into()),
        p95_latency: Change::Negligible,
    }
}

fn report(name: &str) -> ReportFigures {
    ReportFigures {
        session_id: "a1b2c3d4-e5f6".into(),
        duration: "45.2".into(),
        records: 1042,
        backends: vec![figures(name)],
    }
}

#[test]
fn report_on_one_backend_compares_nothing() {
    let lines = rendered(&print_report(&report("p"), &None));
    let title: Vec<String> = vec![
        "".into(),
        "# === TurboBench Report ===".into(),
        "  Session:  a1b2c3d4".into(),
        "  Duration: 45.2s".into(),
        "  Records:  1042".into(),
        "".into(),
    ];
    assert_eq!(lines, [&title[..], &backend_lines("p")[..]].concat());
}

#[test]
fn combined_reports_are_compared() {
    let mut second = report("q");
    second.session_id = "zzz".into();
    second.duration = "50.0".into();
    second.records = 8;
    let r = combine_reports(report("p"), second, true);
    assert_eq!(r.session_id, "a1b2c3d4-e5f6");
    assert_eq!(r.duration, "50.0");
    assert_eq!(r.records, 1050);
    let lines = rendered(&print_report(&r, &Some(deltas())));
    let title: Vec<String> = vec![
        "".into(),
        "# === TurboBench Report ===".into(),
        "  Session:  a1b2c3d4".into(),
        "  Duration: 50.0s".into(),
        "  Records:  1050".into(),
        "".into(),
    ];
    let comparison: Vec<String> = vec![
        "#! === Comparison ===".into(),
        "[Metric|p|q|Delta]".into(),
        "Total calls|42|42|~0%".into(),
        "Success rate|97.1%|97.1%|+5.1%".into(),
        "Est. total tokens|~12,350|~12,350|-50%".into(),
        "Total bytes|49.4 KB|49.4 KB|-".into(),
        "Mean latency|234.0ms|234.0ms|+100%".into(),
        "P95 latency|456.1ms|456.1ms|~0%".into(),
        "".into(),
    ];
    let expected: Vec<String> =
        [&title[..], &backend_lines("p")[..], &backend_lines("q")[..], &comparison[..]].concat();
    assert_eq!(lines, expected);
}

#[test]
fn latency_is_compared_only_where_both_have_it() {
    let mut second = report("q");
    second.backends[0].latency = None;
    let r = combine_reports(report("p"), second, false);
    assert_eq!(r.duration, "45.2");
    let lines = rendered(&print_report(&r, &Some(deltas())));
    assert!(lines.contains(&"Total bytes|49.4 KB|49.4 KB|-".to_string()));
    assert!(!lines.iter().any(|l| l.starts_with("Mean latency")));
}
