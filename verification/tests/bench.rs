use serde_json::Value;
use turbobench::bench::{
    act_on_line, call_outcome, closing, next_step, process_request, route_request, stdio_reply, BenchProxy, Call,
    Closing, Input,
    LineAction, PlannedCall, Refusal, Reply, Step, Target, MAX_LINE_BYTES,
};
use turbobench::clock::{Span, Timestamp};
use turbobench::config::{BackendDef, BenchConfig, FrontendDef, TransportDef};
use turbomcp_protocol::MessageId;

fn json(text: &str) -> Value {
    serde_json::from_str(text).unwrap()
}

fn id(n: i64) -> MessageId {
    MessageId::Number(n)
}

fn is_parse_error(a: LineAction) -> bool {
    matches!(a, LineAction::Answer(Reply::ParseError))
}

#[test]
fn blank_lines_are_ignored() {
    for line in ["", "\n", "  \t\r\n", "\u{a0}\u{3000}\n"] {
        assert!(matches!(act_on_line(line), LineAction::Ignore));
    }
}

#[test]
fn notifications_are_ignored() {
    let lines = [
        "{\"jsonrpc\":\"2.0\",\"method\":\"notifications/initialized\"}\n",
        "{\"jsonrpc\":\"2.0\",\"method\":\"ping\",\"id\":null}\n",
        "[1,2]\n",
        "17\n",
    ];
    for line in lines {
        assert!(matches!(act_on_line(line), LineAction::Ignore));
    }
}

#[test]
fn broken_lines_get_a_parse_error() {
    assert!(is_parse_error(act_on_line("{\n")));
    assert!(is_parse_error(act_on_line("hello\n")));
    assert!(is_parse_error(act_on_line("{\"id\":1}\n")));
    assert!(is_parse_error(act_on_line("{\"jsonrpc\":\"1.0\",\"method\":\"ping\",\"id\":1}\n")));
}

#[test]
fn oversized_lines_get_a_parse_error() {
    let fits = " ".repeat(MAX_LINE_BYTES);
    assert!(matches!(act_on_line(&fits), LineAction::Ignore));
    let too_long = " ".repeat(MAX_LINE_BYTES + 1);
    assert!(is_parse_error(act_on_line(&too_long)));
}

#[test]
fn initialize_and_ping_are_answered_by_the_proxy() {
    let a = act_on_line("{\"jsonrpc\":\"2.0\",\"method\":\"initialize\",\"params\":{},\"id\":\"x\"}\n");
    assert!(matches!(a, LineAction::Initialize { id: MessageId::String(s) } if s == "x"));
    let a = act_on_line("  {\"jsonrpc\":\"2.0\",\"method\":\"ping\",\"id\":7}  \n");
    let LineAction::Answer(reply) = a else { panic!() };
    let line = reply.to_line().unwrap();
    assert!(line.ends_with('\n'));
    assert_eq!(json(&line), json("{\"jsonrpc\":\"2.0\",\"result\":{},\"id\":7}"));
}

#[test]
fn other_requests_are_forwarded() {
    let a = act_on_line("{\"jsonrpc\":\"2.0\",\"method\":\"tools/call\",\"params\":{\"name\":\"click\"},\"id\":3}\n");
    let LineAction::Forward(q) = a else { panic!() };
    assert_eq!(q.id, id(3));
    assert_eq!(q.method, "tools/call");
    assert_eq!(q.params, Some(json("{\"name\":\"click\"}")));
}

#[test]
fn input_steps() {
    assert!(matches!(next_step(Input::EndOfInput), Step::Stop { notice: None }));
    assert!(matches!(next_step(Input::ReadError), Step::Stop { notice: None }));
    assert!(matches!(
        next_step(Input::Interrupted),
        Step::Stop { notice: Some(n) } if n == "\n[turbobench] interrupted, generating report..."
    ));
    assert!(matches!(next_step(Input::Line("\n".into())), Step::Act(LineAction::Ignore)));
    assert!(matches!(next_step(Input::Line("x\n".into())), Step::Act(LineAction::Answer(Reply::ParseError))));
}

#[test]
fn replies_as_lines() {
    let line = Reply::ParseError.to_line().unwrap();
    assert!(line.ends_with('\n'));
    assert_eq!(
        json(&line),
        json("{\"jsonrpc\":\"2.0\",\"error\":{\"code\":-32700,\"message\":\"Parse error\"},\"id\":null}")
    );
    let line = Reply::Success { result: json("{\"b\":1,\"a\":2}"), id: id(5) }.to_line().unwrap();
    assert!(line.contains("{\"b\":1,\"a\":2}"));
    assert_eq!(json(&line), json("{\"jsonrpc\":\"2.0\",\"result\":{\"b\":1,\"a\":2},\"id\":5}"));
    let line = Reply::InternalError { id: MessageId::String("q".into()) }.to_line().unwrap();
    assert_eq!(
        json(&line),
        json("{\"jsonrpc\":\"2.0\",\"error\":{\"code\":-32603,\"message\":\"Internal error\"},\"id\":\"q\"}")
    );
}

#[test]
fn errors_are_sanitized_and_results_are_not_touched() {
    let r = stdio_reply(Ok(json("[1,\"x\"]")), id(1));
    assert!(matches!(r, Reply::Success { result, id: MessageId::Number(1) } if result == json("[1,\"x\"]")));
    let a = stdio_reply(Err(Refusal::Internal("secret".into())), id(2)).to_line();
    let b = stdio_reply(Err(Refusal::InvalidParams("other".into())), id(2)).to_line();
    assert_eq!(a, b);
    assert!(!a.unwrap().contains("secret"));
}

#[test]
fn outcomes_of_calls() {
    assert!(matches!(call_outcome(Ok(json("1"))), Ok(v) if v == json("1")));
    assert!(matches!(call_outcome(Err("down".into())), Err(Refusal::Internal(m)) if m == "down"));
}

#[test]
fn list_requests_need_no_parameters() {
    let p = route_request("tools/list", &None).ok().unwrap();
    assert!(matches!(p.call, Call::ListTools));
    assert_eq!(p.request_bytes, 0);
    let p = route_request("resources/list", &Some(json("{\"cursor\":\"x\"}"))).ok().unwrap();
    assert!(matches!(p.call, Call::ListResources));
    assert_eq!(p.request_bytes, 0);
    let p = route_request("prompts/list", &None).ok().unwrap();
    assert!(matches!(p.call, Call::ListPrompts));
}

#[test]
fn calls_with_parameters() {
    let params = json("{ \"name\": \"click\", \"arguments\": { \"x\": 1 } }");
    let p = route_request("tools/call", &Some(params)).ok().unwrap();
    assert_eq!(p.request_bytes, "{\"name\":\"click\",\"arguments\":{\"x\":1}}".len());
    let Call::CallTool(i) = p.call else { panic!() };
    assert_eq!(i.name, "click");
    assert_eq!(i.arguments.unwrap().get("x"), Some(&json("1")));

    let p = route_request("resources/read", &Some(json("{\"uri\":\"file:///x\"}"))).ok().unwrap();
    assert_eq!(p.request_bytes, 19);
    assert!(matches!(p.call, Call::ReadResource(u) if u == "file:///x"));

    let p = route_request("prompts/get", &Some(json("{\"name\":\"greet\"}"))).ok().unwrap();
    let Call::GetPrompt(i) = p.call else { panic!() };
    assert_eq!(i.name, "greet");
    assert!(i.arguments.is_none());
}

#[test]
fn refused_requests() {
    assert!(matches!(
        route_request("tools/unknown", &None),
        Err(Refusal::Internal(m)) if m == "Unknown method: tools/unknown"
    ));
    for method in ["tools/call", "resources/read", "prompts/get"] {
        assert!(matches!(
            route_request(method, &None),
            Err(Refusal::InvalidParams(m)) if m == "Missing params"
        ));
    }
    assert!(matches!(
        route_request("tools/call", &Some(json("{}"))),
        Err(Refusal::InvalidParams(m)) if m == "missing field `name`"
    ));
    assert!(matches!(
        route_request("resources/read", &Some(json("{}"))),
        Err(Refusal::InvalidParams(m)) if m == "missing field `uri`"
    ));
    assert!(matches!(
        route_request("prompts/get", &Some(json("{}"))),
        Err(Refusal::InvalidParams(m)) if m == "missing field `name`"
    ));
}

#[test]
fn http_requests() {
    let body = json("{\"jsonrpc\":\"2.0\",\"method\":\"resources/read\",\"params\":{\"uri\":\"u:x\"},\"id\":1}");
    let p = process_request(body).ok().unwrap();
    assert!(matches!(p.call, Call::ReadResource(u) if u == "u:x"));
    assert!(matches!(process_request(json("{\"id\":1}")), Err(Refusal::Serialization(_))));
    let body = json("{\"jsonrpc\":\"2.0\",\"method\":\"ping\",\"id\":1}");
    assert!(matches!(
        process_request(body),
        Err(Refusal::Internal(m)) if m == "Unknown method: ping"
    ));
}

#[test]
fn lists_are_sent_under_their_name() {
    let list = json("[1]");
    assert_eq!(Call::ListTools.result(list.clone()), json("{\"tools\":[1]}"));
    assert_eq!(Call::ListResources.result(list.clone()), json("{\"resources\":[1]}"));
    assert_eq!(Call::ListPrompts.result(list.clone()), json("{\"prompts\":[1]}"));
    assert_eq!(Call::ReadResource("u".into()).result(list.clone()), list);
}

fn proxy(shadow: bool) -> BenchProxy {
    let config = BenchConfig {
        primary: BackendDef {
            name: Some("main".into()),
            transport: TransportDef::WebSocket { url: "ws://a".into() },
        },
        shadow: if shadow {
            Some(BackendDef { name: None, transport: TransportDef::WebSocket { url: "ws://b".into() } })
        } else {
            None
        },
        frontend: FrontendDef::Stdio,
        output: None,
        quiet: false,
    };
    BenchProxy::new(&config, "2025-11-25".into())
}

#[test]
fn proxy_names_its_backends() {
    let p = proxy(true);
    assert_eq!(p.primary_name, "main");
    assert_eq!(p.shadow_name.as_deref(), Some("ws://b"));
    assert!(p.store.records.is_empty());
    assert_eq!(
        p.banner("a1b2c3d4-e5f6"),
        vec![
            "[turbobench] session a1b2c3d4",
            "[turbobench] primary: main",
            "[turbobench] shadow:  ws://b",
        ]
    );
    assert_eq!(
        proxy(false).banner("short"),
        vec!["[turbobench] session short", "[turbobench] primary: main"]
    );
}

#[test]
fn what_happens_to_the_report() {
    let mut config = BenchConfig {
        primary: BackendDef { name: None, transport: TransportDef::WebSocket { url: "ws://a".into() } },
        shadow: None,
        frontend: FrontendDef::Stdio,
        output: None,
        quiet: false,
    };
    assert!(closing(&config) == Closing { print: true, save: false });
    config.quiet = true;
    config.output = Some("r.json".into());
    assert!(closing(&config) == Closing { print: false, save: true });
}

#[test]
fn calls_go_to_the_backends_there_are() {
    assert!(proxy(false).targets() == vec![Target::Primary]);
    assert!(proxy(true).targets() == vec![Target::Primary, Target::Shadow]);
}

#[test]
fn latencies_are_measured_from_the_start_of_the_call() {
    let mut p = proxy(true);
    let start = std::time::Instant::now();
    while start.elapsed().as_micros() < 3000 {}
    p.record(Target::Shadow, &read_call(), start, &Ok(json("1")));
    let _ = p.finish(&read_call(), start, Ok(json("1")));
    for r in &p.store.records {
        assert!(r.latency_us >= 3000);
        assert!(r.latency_us < 10_000_000);
    }
}

#[test]
fn sessions_have_identifiers_of_their_own() {
    let p = proxy(false);
    let (a, lines) = p.start_session();
    let (b, _) = p.start_session();
    assert_ne!(a, b);
    assert_eq!(a.len(), 36);
    for (i, c) in a.chars().enumerate() {
        if [8, 13, 18, 23].contains(&i) {
            assert_eq!(c, '-');
        } else {
            assert!(c.is_ascii_digit() || ('a'..='f').contains(&c));
        }
    }
    assert_eq!(lines[0], format!("[turbobench] session {}", &a[..8]));
}

#[test]
fn capabilities() {
    let v = proxy(false).get_capabilities("0.1.0", json("{\"tools\":{}}"));
    assert_eq!(
        serde_json::to_string(&v).unwrap(),
        "{\"protocolVersion\":\"2025-11-25\",\"serverInfo\":{\"name\":\"turbobench/main\",\"version\":\"0.1.0\"},\
         \"capabilities\":{\"tools\":{}}}"
    );
}

fn read_call() -> PlannedCall {
    PlannedCall { call: Call::ReadResource("u:x".into()), request_bytes: 15 }
}

#[test]
fn calls_are_recorded_for_both_backends() {
    let mut p = proxy(true);
    let span = Span { secs: 0, nanos: 5_000_000 };
    let time = Timestamp { secs: 9, nanos: 8 };
    p.record_at(Target::Primary, &read_call(), span, time, &Ok(json("[true]")));
    p.record_at(Target::Shadow, &read_call(), span, time, &Err("down".into()));
    assert_eq!(p.store.records.len(), 2);
    let a = &p.store.records[0];
    let b = &p.store.records[1];
    assert_eq!(a.backend, "main");
    assert_eq!(b.backend, "ws://b");
    assert_eq!(a.method, "resources/read");
    assert_eq!(b.method, a.method);
    assert_eq!(a.resource_uri.as_deref(), Some("u:x"));
    assert_eq!(b.resource_uri, a.resource_uri);
    assert_eq!(a.request_bytes, 15);
    assert_eq!(b.request_bytes, 15);
    assert_eq!(a.estimated_input_tokens, 4);
    assert_eq!(a.response_bytes, 6);
    assert_eq!(b.response_bytes, 0);
    assert!(a.success && !b.success);
    assert_eq!(b.error_message.as_deref(), Some("down"));
    assert_eq!(a.latency_us, 5000);
    assert_eq!(a.timestamp, time);
}

#[test]
fn nothing_is_recorded_for_a_missing_shadow() {
    let mut p = proxy(false);
    let start = std::time::Instant::now();
    p.record(Target::Shadow, &read_call(), start, &Ok(json("1")));
    assert!(p.store.records.is_empty());
    p.record(Target::Primary, &read_call(), start, &Ok(json("1")));
    assert_eq!(p.store.records.len(), 1);
}

#[test]
fn finished_calls_are_recorded_once() {
    let mut p = proxy(true);
    let start = std::time::Instant::now();
    let r = p.finish(&read_call(), start, Ok(json("{\"x\":1}")));
    assert!(matches!(r, Ok(v) if v == json("{\"x\":1}")));
    let r = p.finish(&read_call(), start, Err("gone".into()));
    assert!(matches!(r, Err(Refusal::Internal(m)) if m == "gone"));
    assert_eq!(p.store.records.len(), 2);
    assert_eq!(p.store.records[0].backend, "main");
    assert!(p.store.records[0].success);
    assert_eq!(p.store.records[1].error_message.as_deref(), Some("gone"));
}

#[test]
fn names_in_records() {
    let mut p = proxy(false);
    let start = std::time::Instant::now();
    let tool = route_request("tools/call", &Some(json("{\"name\":\"click\"}"))).ok().unwrap();
    let prompt = route_request("prompts/get", &Some(json("{\"name\":\"greet\"}"))).ok().unwrap();
    let list = route_request("tools/list", &None).ok().unwrap();
    p.record(Target::Primary, &tool, start, &Ok(json("1")));
    p.record(Target::Primary, &prompt, start, &Ok(json("1")));
    p.record(Target::Primary, &list, start, &Ok(json("1")));
    let names: Vec<(&str, Option<&str>, Option<&str>, Option<&str>)> = p
        .store
        .records
        .iter()
        .map(|r| {
            (r.method.as_str(), r.tool_name.as_deref(), r.resource_uri.as_deref(), r.prompt_name.as_deref())
        })
        .collect();
    assert_eq!(
        names,
        vec![
            ("tools/call", Some("click"), None, None),
            ("prompts/get", None, None, Some("greet")),
            ("tools/list", None, None, None),
        ]
    );
}
