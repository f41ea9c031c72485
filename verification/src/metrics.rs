//! Metric collection, aggregation, and report types.
use crate::clock::{elapsed, nanos_between, reading, span_between, utc_now, Span, Timestamp};
use crate::json::{json_len, json_size};
pub use crate::latency::LatencyStats;
use crate::latency::{latency_stats, latency_sum, law_stats_ignore_order, micros};
use crate::order::{
    lemma_descending_unique, lemma_reordered_contains, lemma_reordered_filter, lemma_reordered_map,
    lemma_reordered_no_duplicates, lemma_same_elements, sort_ranked, Ranked,
};
use crate::text::{copy_option, option_text, same_text, sorts_before, text_less, texts};
use crate::tokens::{estimate_tokens, estimated_tokens};
use crate::totals::{
    lemma_total_bound, lemma_total_differ_at, lemma_total_filter, lemma_total_map, lemma_total_prefix,
    lemma_total_push, lemma_total_reordered, lemma_total_same, lemma_total_step, total,
};
use std::time::Instant;
use vstd::prelude::*;
use vstd::string::*;

verus! {

/// Maximum records before we stop collecting (prevents unbounded memory growth).
pub const MAX_RECORDS: usize = 500_000;

/// The method whose calls are tool calls.
pub const TOOL_CALL: &'static str = "tools/call";

/// A pending request awaiting a response (for raw passthrough correlation).
#[derive(Debug)]
pub struct PendingRequest {
    pub start: Instant,
    pub method: String,
    pub tool_name: Option<String>,
    pub resource_uri: Option<String>,
    pub prompt_name: Option<String>,
    pub request_bytes: usize,
}

impl Clone for PendingRequest {
    fn clone(&self) -> (r: Self)
        ensures
            r == *self,
    {
        PendingRequest {
            start: self.start,
            method: self.method.clone(),
            tool_name: copy_option(&self.tool_name),
            resource_uri: copy_option(&self.resource_uri),
            prompt_name: copy_option(&self.prompt_name),
            request_bytes: self.request_bytes,
        }
    }
}

/// A single recorded call through the proxy.
#[derive(Debug)]
pub struct CallRecord {
    pub backend: String,
    pub method: String,
    pub tool_name: Option<String>,
    pub resource_uri: Option<String>,
    pub prompt_name: Option<String>,
    pub latency_us: u64,
    pub request_bytes: usize,
    pub response_bytes: usize,
    pub estimated_input_tokens: usize,
    pub estimated_output_tokens: usize,
    pub success: bool,
    pub error_message: Option<String>,
    pub timestamp: Timestamp,
}

impl Clone for CallRecord {
    fn clone(&self) -> (r: Self)
        ensures
            r == *self,
    {
        CallRecord {
            backend: self.backend.clone(),
            method: self.method.clone(),
            tool_name: copy_option(&self.tool_name),
            resource_uri: copy_option(&self.resource_uri),
            prompt_name: copy_option(&self.prompt_name),
            latency_us: self.latency_us,
            request_bytes: self.request_bytes,
            response_bytes: self.response_bytes,
            estimated_input_tokens: self.estimated_input_tokens,
            estimated_output_tokens: self.estimated_output_tokens,
            success: self.success,
            error_message: copy_option(&self.error_message),
            timestamp: self.timestamp,
        }
    }
}

// --- What is read off a record ---

/// What records are grouped by.
#[derive(Clone, Copy, PartialEq, Eq, Structural)]
pub enum Key {
    Backend,
    Method,
    Tool,
}

/// The group that a record belongs to, if any.
pub open spec fn key_of(r: CallRecord, key: Key) -> Option<Seq<char>> {
    match key {
        Key::Backend => Some(r.backend@),
        Key::Method => Some(r.method@),
        Key::Tool => option_text(r.tool_name),
    }
}

/// Whether a record belongs to a group.
pub open spec fn in_group(key: Key, name: Seq<char>) -> spec_fn(CallRecord) -> bool {
    |r: CallRecord| key_of(r, key) == Some(name)
}

/// The records of one group, in the order of recording.
pub open spec fn group(records: Seq<CallRecord>, key: Key, name: Seq<char>) -> Seq<CallRecord> {
    records.filter(in_group(key, name))
}

/// Whether `name` is the name of some record's group.
pub open spec fn has_group(records: Seq<CallRecord>, key: Key, name: Seq<char>) -> bool {
    exists|i: int| 0 <= i < records.len() && key_of(#[trigger] records[i], key) == Some(name)
}

/// What is added up over records.
#[derive(Clone, Copy, PartialEq, Eq, Structural)]
pub enum Measure {
    Calls,
    RequestBytes,
    ResponseBytes,
    InputTokens,
    OutputTokens,
    Successes,
}

/// What a record contributes to a sum.
pub open spec fn share(m: Measure) -> spec_fn(CallRecord) -> nat {
    |r: CallRecord|
        match m {
            Measure::Calls => 1,
            Measure::RequestBytes => r.request_bytes as nat,
            Measure::ResponseBytes => r.response_bytes as nat,
            Measure::InputTokens => r.estimated_input_tokens as nat,
            Measure::OutputTokens => r.estimated_output_tokens as nat,
            Measure::Successes => if r.success {
                1
            } else {
                0
            },
        }
}

/// The sum of a measure over records.
pub open spec fn measured(records: Seq<CallRecord>, m: Measure) -> nat {
    total(records, share(m))
}

/// The latencies of records.
pub open spec fn latencies(records: Seq<CallRecord>) -> Seq<u64> {
    records.map_values(|r: CallRecord| r.latency_us)
}

/// Whether the sums over the records of one backend can be represented.
pub open spec fn sums_fit(records: Seq<CallRecord>) -> bool {
    &&& measured(records, Measure::RequestBytes) + measured(records, Measure::ResponseBytes) <= usize::MAX
    &&& measured(records, Measure::InputTokens) + measured(records, Measure::OutputTokens) <= usize::MAX
    &&& latency_sum(latencies(records)) <= u64::MAX
}

// --- Summaries ---

/// Per-tool summary.
#[derive(Debug)]
pub struct ToolSummary {
    pub name: String,
    pub call_count: usize,
    pub success_count: usize,
    pub failure_count: usize,
    pub total_input_bytes: usize,
    pub total_output_bytes: usize,
    pub estimated_input_tokens: usize,
    pub estimated_output_tokens: usize,
    pub latency: Option<LatencyStats>,
}

/// Per-method summary.
#[derive(Debug)]
pub struct MethodSummary {
    pub method: String,
    pub call_count: usize,
    pub total_input_bytes: usize,
    pub total_output_bytes: usize,
    pub estimated_input_tokens: usize,
    pub estimated_output_tokens: usize,
    pub latency: Option<LatencyStats>,
}

/// Aggregate summary for one backend. The success rate is
/// `success_count / total_calls`.
#[derive(Debug)]
pub struct BackendSummary {
    pub name: String,
    pub total_calls: usize,
    pub total_tool_calls: usize,
    pub success_count: usize,
    pub failure_count: usize,
    pub total_input_bytes: usize,
    pub total_output_bytes: usize,
    pub total_bytes: usize,
    pub estimated_input_tokens: usize,
    pub estimated_output_tokens: usize,
    pub estimated_total_tokens: usize,
    pub overall_latency: Option<LatencyStats>,
    pub tool_call_latency: Option<LatencyStats>,
    pub tools: Vec<ToolSummary>,
    pub methods: Vec<MethodSummary>,
}

/// Full benchmark report.
#[derive(Debug)]
pub struct BenchmarkReport {
    pub session_id: String,
    pub started_at: Timestamp,
    pub ended_at: Timestamp,
    pub duration: Span,
    pub backends: Vec<BackendSummary>,
    pub records: Vec<CallRecord>,
}

/// What a tool summary says.
pub struct ToolData {
    pub name: Seq<char>,
    pub call_count: usize,
    pub success_count: usize,
    pub failure_count: usize,
    pub total_input_bytes: usize,
    pub total_output_bytes: usize,
    pub estimated_input_tokens: usize,
    pub estimated_output_tokens: usize,
    pub latency: Option<LatencyStats>,
}

impl View for ToolSummary {
    type V = ToolData;

    open spec fn view(&self) -> ToolData {
        ToolData {
            name: self.name@,
            call_count: self.call_count,
            success_count: self.success_count,
            failure_count: self.failure_count,
            total_input_bytes: self.total_input_bytes,
            total_output_bytes: self.total_output_bytes,
            estimated_input_tokens: self.estimated_input_tokens,
            estimated_output_tokens: self.estimated_output_tokens,
            latency: self.latency,
        }
    }
}

/// What a method summary says.
pub struct MethodData {
    pub method: Seq<char>,
    pub call_count: usize,
    pub total_input_bytes: usize,
    pub total_output_bytes: usize,
    pub estimated_input_tokens: usize,
    pub estimated_output_tokens: usize,
    pub latency: Option<LatencyStats>,
}

impl View for MethodSummary {
    type V = MethodData;

    open spec fn view(&self) -> MethodData {
        MethodData {
            method: self.method@,
            call_count: self.call_count,
            total_input_bytes: self.total_input_bytes,
            total_output_bytes: self.total_output_bytes,
            estimated_input_tokens: self.estimated_input_tokens,
            estimated_output_tokens: self.estimated_output_tokens,
            latency: self.latency,
        }
    }
}

/// What tool summaries say.
pub open spec fn tools_data(tools: Seq<ToolSummary>) -> Seq<ToolData> {
    tools.map_values(|t: ToolSummary| t@)
}

/// What method summaries say.
pub open spec fn methods_data(methods: Seq<MethodSummary>) -> Seq<MethodData> {
    methods.map_values(|m: MethodSummary| m@)
}

impl Clone for ToolSummary {
    fn clone(&self) -> (r: Self)
        ensures
            r == *self,
    {
        ToolSummary {
            name: self.name.clone(),
            call_count: self.call_count,
            success_count: self.success_count,
            failure_count: self.failure_count,
            total_input_bytes: self.total_input_bytes,
            total_output_bytes: self.total_output_bytes,
            estimated_input_tokens: self.estimated_input_tokens,
            estimated_output_tokens: self.estimated_output_tokens,
            latency: self.latency,
        }
    }
}

impl Clone for MethodSummary {
    fn clone(&self) -> (r: Self)
        ensures
            r == *self,
    {
        MethodSummary {
            method: self.method.clone(),
            call_count: self.call_count,
            total_input_bytes: self.total_input_bytes,
            total_output_bytes: self.total_output_bytes,
            estimated_input_tokens: self.estimated_input_tokens,
            estimated_output_tokens: self.estimated_output_tokens,
            latency: self.latency,
        }
    }
}

/// What two summaries of one backend agree in if they are copies: all figures,
/// and the entries for tools and methods, one by one.
pub open spec fn is_copy(a: BackendSummary, b: BackendSummary) -> bool {
    &&& a.name@ == b.name@
    &&& same_figures(a, b)
    &&& a.tools@ == b.tools@
    &&& a.methods@ == b.methods@
}

/// Two summaries have the same counts, sums and latencies.
pub open spec fn same_figures(a: BackendSummary, b: BackendSummary) -> bool {
    &&& a.total_calls == b.total_calls
    &&& a.total_tool_calls == b.total_tool_calls
    &&& a.success_count == b.success_count
    &&& a.failure_count == b.failure_count
    &&& a.total_input_bytes == b.total_input_bytes
    &&& a.total_output_bytes == b.total_output_bytes
    &&& a.total_bytes == b.total_bytes
    &&& a.estimated_input_tokens == b.estimated_input_tokens
    &&& a.estimated_output_tokens == b.estimated_output_tokens
    &&& a.estimated_total_tokens == b.estimated_total_tokens
    &&& a.overall_latency == b.overall_latency
    &&& a.tool_call_latency == b.tool_call_latency
}

impl Clone for BackendSummary {
    fn clone(&self) -> (r: Self)
        ensures
            is_copy(r, *self),
    {
        let mut tools: Vec<ToolSummary> = Vec::new();
        let mut i: usize = 0;
        while i < self.tools.len()
            invariant
                i <= self.tools@.len(),
                tools@ == self.tools@.take(i as int),
            decreases self.tools.len() - i,
        {
            tools.push(self.tools[i].clone());
            i = i + 1;
            assert(tools@ =~= self.tools@.take(i as int));
        }
        let mut methods: Vec<MethodSummary> = Vec::new();
        let mut j: usize = 0;
        while j < self.methods.len()
            invariant
                j <= self.methods@.len(),
                methods@ == self.methods@.take(j as int),
            decreases self.methods.len() - j,
        {
            methods.push(self.methods[j].clone());
            j = j + 1;
            assert(methods@ =~= self.methods@.take(j as int));
        }
        assert(self.tools@.take(i as int) =~= self.tools@);
        assert(self.methods@.take(j as int) =~= self.methods@);
        BackendSummary {
            name: self.name.clone(),
            total_calls: self.total_calls,
            total_tool_calls: self.total_tool_calls,
            success_count: self.success_count,
            failure_count: self.failure_count,
            total_input_bytes: self.total_input_bytes,
            total_output_bytes: self.total_output_bytes,
            total_bytes: self.total_bytes,
            estimated_input_tokens: self.estimated_input_tokens,
            estimated_output_tokens: self.estimated_output_tokens,
            estimated_total_tokens: self.estimated_total_tokens,
            overall_latency: self.overall_latency,
            tool_call_latency: self.tool_call_latency,
            tools,
            methods,
        }
    }
}

impl Clone for BenchmarkReport {
    fn clone(&self) -> (r: Self)
        ensures
            r.session_id@ == self.session_id@,
            r.started_at == self.started_at,
            r.ended_at == self.ended_at,
            r.duration == self.duration,
            r.backends@.len() == self.backends@.len(),
            forall|i: int| 0 <= i < r.backends@.len() ==> is_copy(#[trigger] r.backends@[i], self.backends@[i]),
            r.records@ == self.records@,
    {
        let mut backends: Vec<BackendSummary> = Vec::new();
        let mut i: usize = 0;
        while i < self.backends.len()
            invariant
                i <= self.backends@.len(),
                backends@.len() == i,
                forall|k: int| 0 <= k < i ==> is_copy(#[trigger] backends@[k], self.backends@[k]),
            decreases self.backends.len() - i,
        {
            backends.push(self.backends[i].clone());
            i = i + 1;
        }
        BenchmarkReport {
            session_id: self.session_id.clone(),
            started_at: self.started_at,
            ended_at: self.ended_at,
            duration: self.duration,
            backends,
            records: copy_records(&self.records),
        }
    }
}

/// `names` lists the groups of `records`, each once.
pub open spec fn lists_groups(names: Seq<Seq<char>>, records: Seq<CallRecord>, key: Key) -> bool {
    &&& names.no_duplicates()
    &&& forall|n: Seq<char>| #[trigger] names.contains(n) <==> has_group(records, key, n)
}

/// `t` sums up `calls`.
pub open spec fn tool_sums_up(t: ToolSummary, calls: Seq<CallRecord>) -> bool {
    &&& t.call_count == calls.len()
    &&& t.success_count == measured(calls, Measure::Successes)
    &&& t.failure_count == calls.len() - measured(calls, Measure::Successes)
    &&& t.total_input_bytes == measured(calls, Measure::RequestBytes)
    &&& t.total_output_bytes == measured(calls, Measure::ResponseBytes)
    &&& t.estimated_input_tokens == measured(calls, Measure::InputTokens)
    &&& t.estimated_output_tokens == measured(calls, Measure::OutputTokens)
    &&& t.latency == latency_stats(latencies(calls))
}

/// The names of tool summaries.
pub open spec fn tool_names(tools: Seq<ToolSummary>) -> Seq<Seq<char>> {
    tools.map_values(|t: ToolSummary| t.name@)
}

/// `tools` breaks `calls` down by tool, the tools with most calls first.
/// Calls that name no tool are in none of the summaries.
pub open spec fn tools_break_down(tools: Seq<ToolSummary>, calls: Seq<CallRecord>) -> bool {
    &&& lists_groups(tool_names(tools), calls, Key::Tool)
    &&& forall|i: int|
        0 <= i < tools.len() ==> tool_sums_up(#[trigger] tools[i], group(calls, Key::Tool, tools[i].name@))
    &&& forall|i: int, j: int|
        0 <= i < j < tools.len() ==> (#[trigger] tools[i]).call_count >= (#[trigger] tools[j]).call_count
}

/// `m` sums up `calls`.
pub open spec fn method_sums_up(m: MethodSummary, calls: Seq<CallRecord>) -> bool {
    &&& m.call_count == calls.len()
    &&& m.total_input_bytes == measured(calls, Measure::RequestBytes)
    &&& m.total_output_bytes == measured(calls, Measure::ResponseBytes)
    &&& m.estimated_input_tokens == measured(calls, Measure::InputTokens)
    &&& m.estimated_output_tokens == measured(calls, Measure::OutputTokens)
    &&& m.latency == latency_stats(latencies(calls))
}

/// The names of method summaries.
pub open spec fn method_names(methods: Seq<MethodSummary>) -> Seq<Seq<char>> {
    methods.map_values(|m: MethodSummary| m.method@)
}

/// `methods` breaks `calls` down by method, the methods with most calls first.
pub open spec fn methods_break_down(methods: Seq<MethodSummary>, calls: Seq<CallRecord>) -> bool {
    &&& lists_groups(method_names(methods), calls, Key::Method)
    &&& forall|i: int|
        0 <= i < methods.len() ==> method_sums_up(
            #[trigger] methods[i],
            group(calls, Key::Method, methods[i].method@),
        )
    &&& forall|i: int, j: int|
        0 <= i < j < methods.len() ==> (#[trigger] methods[i]).call_count >= (#[trigger] methods[j]).call_count
}

/// The tool calls among `records`.
pub open spec fn tool_calls(records: Seq<CallRecord>) -> Seq<CallRecord> {
    group(records, Key::Method, TOOL_CALL@)
}

/// `b` sums up `records`, the calls of one backend.
pub open spec fn backend_sums_up(b: BackendSummary, records: Seq<CallRecord>) -> bool {
    &&& b.total_calls == records.len()
    &&& b.total_tool_calls == tool_calls(records).len()
    &&& b.success_count == measured(records, Measure::Successes)
    &&& b.failure_count == records.len() - measured(records, Measure::Successes)
    &&& b.total_input_bytes == measured(records, Measure::RequestBytes)
    &&& b.total_output_bytes == measured(records, Measure::ResponseBytes)
    &&& b.total_bytes == b.total_input_bytes + b.total_output_bytes
    &&& b.estimated_input_tokens == measured(records, Measure::InputTokens)
    &&& b.estimated_output_tokens == measured(records, Measure::OutputTokens)
    &&& b.estimated_total_tokens == b.estimated_input_tokens + b.estimated_output_tokens
    &&& b.overall_latency == latency_stats(latencies(records))
    &&& b.tool_call_latency == latency_stats(latencies(tool_calls(records)))
    &&& tools_break_down(b.tools@, tool_calls(records))
    &&& methods_break_down(b.methods@, records)
}

/// The names of backend summaries.
pub open spec fn backend_names(backends: Seq<BackendSummary>) -> Seq<Seq<char>> {
    backends.map_values(|b: BackendSummary| b.name@)
}

/// `backends` breaks `records` down by backend, in the order of their names.
pub open spec fn backends_break_down(backends: Seq<BackendSummary>, records: Seq<CallRecord>) -> bool {
    &&& lists_groups(backend_names(backends), records, Key::Backend)
    &&& forall|i: int|
        0 <= i < backends.len() ==> backend_sums_up(
            #[trigger] backends[i],
            group(records, Key::Backend, backends[i].name@),
        )
    &&& forall|i: int, j: int|
        0 <= i < j < backends.len() ==> text_less(
            (#[trigger] backends[i]).name@,
            (#[trigger] backends[j]).name@,
        )
}

// --- Grouping and adding up ---

/// The records behind a list of references.
pub open spec fn records_of(refs: Seq<&CallRecord>) -> Seq<CallRecord> {
    refs.map_values(|r: &CallRecord| *r)
}

/// Filtering a sequence that grew by one element.
proof fn lemma_filter_step<A>(s: Seq<A>, i: int, p: spec_fn(A) -> bool)
    requires
        0 <= i < s.len(),
    ensures
        s.take(i + 1).filter(p) == (if p(s[i]) {
            s.take(i).filter(p).push(s[i])
        } else {
            s.take(i).filter(p)
        }),
{
    reveal(Seq::filter);
    assert(s.take(i + 1).drop_last() =~= s.take(i));
}

/// The latencies of some of the records add up to no more than those of all.
proof fn lemma_latencies_of_group(records: Seq<CallRecord>, p: spec_fn(CallRecord) -> bool)
    ensures
        latency_sum(latencies(records.filter(p))) <= latency_sum(latencies(records)),
    decreases records.len(),
{
    reveal(Seq::filter);
    if records.len() > 0 {
        let rest = records.drop_last();
        lemma_latencies_of_group(rest, p);
        assert(latencies(records).drop_last() =~= latencies(rest));
        if p(records.last()) {
            let kept = rest.filter(p);
            assert(latencies(kept.push(records.last())) =~= latencies(kept).push(records.last().latency_us));
            lemma_total_push(latencies(kept), records.last().latency_us, micros());
        }
    }
}

/// Sums over a group fit where the sums over all records do.
proof fn lemma_group_fits(records: Seq<CallRecord>, key: Key, name: Seq<char>)
    requires
        sums_fit(records),
    ensures
        sums_fit(group(records, key, name)),
{
    let p = in_group(key, name);
    lemma_total_filter(records, p, share(Measure::RequestBytes));
    lemma_total_filter(records, p, share(Measure::ResponseBytes));
    lemma_total_filter(records, p, share(Measure::InputTokens));
    lemma_total_filter(records, p, share(Measure::OutputTokens));
    lemma_latencies_of_group(records, p);
}

/// Records of which none is in a group give an empty group.
proof fn lemma_no_group(records: Seq<CallRecord>, key: Key, name: Seq<char>)
    requires
        !has_group(records, key, name),
    ensures
        group(records, key, name) == Seq::<CallRecord>::empty(),
    decreases records.len(),
{
    reveal(Seq::filter);
    if records.len() > 0 {
        let rest = records.drop_last();
        if has_group(rest, key, name) {
            let k = choose|k: int| 0 <= k < rest.len() && key_of(#[trigger] rest[k], key) == Some(name);
            assert(records[k] == rest[k]);
        }
        lemma_no_group(rest, key, name);
        assert(key_of(records[records.len() - 1], key) != Some(name));
    }
}

/// No more successes than records.
proof fn lemma_successes(records: Seq<CallRecord>)
    ensures
        measured(records, Measure::Successes) <= records.len(),
{
    lemma_total_bound(records, share(Measure::Successes), 1);
}

/// Whether a record belongs to a group.
fn belongs(r: &CallRecord, key: Key, name: &str) -> (b: bool)
    ensures
        b == in_group(key, name@)(*r),
{
    match key {
        Key::Backend => same_text(r.backend.as_str(), name),
        Key::Method => same_text(r.method.as_str(), name),
        Key::Tool => match &r.tool_name {
            Some(t) => same_text(t.as_str(), name),
            None => false,
        },
    }
}

/// The records of one group.
fn select<'a>(records: &[&'a CallRecord], key: Key, name: &str) -> (r: Vec<&'a CallRecord>)
    ensures
        records_of(r@) == group(records_of(records@), key, name@),
{
    let mut out: Vec<&'a CallRecord> = Vec::new();
    let mut i: usize = 0;
    let ghost all = records_of(records@);
    proof {
        reveal(Seq::filter);
        assert(all.take(0).filter(in_group(key, name@)) =~= seq![]);
        assert(records_of(out@) =~= seq![]);
    }
    while i < records.len()
        invariant
            i <= records@.len(),
            all == records_of(records@),
            records_of(out@) == all.take(i as int).filter(in_group(key, name@)),
        decreases records.len() - i,
    {
        let r: &'a CallRecord = records[i];
        proof {
            lemma_filter_step(all, i as int, in_group(key, name@));
        }
        if belongs(r, key, name) {
            let ghost before = out@;
            out.push(r);
            assert(records_of(out@) =~= records_of(before).push(*r));
        }
        i = i + 1;
    }
    assert(all.take(i as int) =~= all);
    out
}

/// Whether a list holds a text.
fn lists(names: &Vec<String>, name: &str) -> (b: bool)
    ensures
        b == texts(names@).contains(name@),
{
    let mut i: usize = 0;
    while i < names.len()
        invariant
            i <= names.len(),
            forall|k: int| 0 <= k < i ==> texts(names@)[k] != name@,
        decreases names.len() - i,
    {
        if same_text(names[i].as_str(), name) {
            assert(texts(names@)[i as int] == name@);
            return true;
        }
        i = i + 1;
    }
    false
}

/// The name of the group of a record.
fn name_of(r: &CallRecord, key: Key) -> (n: Option<&str>)
    ensures
        n is Some <==> key_of(*r, key) is Some,
        n matches Some(t) ==> key_of(*r, key) == Some(t@),
{
    match key {
        Key::Backend => Some(r.backend.as_str()),
        Key::Method => Some(r.method.as_str()),
        Key::Tool => match &r.tool_name {
            Some(t) => Some(t.as_str()),
            None => None,
        },
    }
}

/// The names of the groups, each once.
fn group_names(records: &[&CallRecord], key: Key) -> (names: Vec<String>)
    ensures
        lists_groups(texts(names@), records_of(records@), key),
{
    let mut names: Vec<String> = Vec::new();
    let mut i: usize = 0;
    let ghost all = records_of(records@);
    while i < records.len()
        invariant
            i <= records@.len(),
            all == records_of(records@),
            lists_groups(texts(names@), all.take(i as int), key),
        decreases records.len() - i,
    {
        let ghost before = texts(names@);
        let ghost now = all.take(i as int);
        let ghost next = all.take(i + 1);
        proof {
            assert forall|n: Seq<char>| #[trigger] has_group(next, key, n) == (has_group(now, key, n) || key_of(
                all[i as int],
                key,
            ) == Some(n)) by {
                if has_group(next, key, n) {
                    let k = choose|k: int| 0 <= k < next.len() && key_of(#[trigger] next[k], key) == Some(n);
                    if k < i {
                        assert(now[k] == next[k]);
                    }
                }
                if has_group(now, key, n) {
                    let k = choose|k: int| 0 <= k < now.len() && key_of(#[trigger] now[k], key) == Some(n);
                    assert(next[k] == now[k]);
                }
                assert(next[i as int] == all[i as int]);
            }
        }
        if let Some(name) = name_of(records[i], key) {
            if !lists(&names, name) {
                names.push(name.to_owned());
                proof {
                    let after = texts(names@);
                    assert(after =~= before.push(name@));
                    assert forall|n: Seq<char>| #[trigger] after.contains(n) == (before.contains(n) || n == name@) by {
                        if before.contains(n) {
                            let k = choose|k: int| 0 <= k < before.len() && before[k] == n;
                            assert(after[k] == n);
                        }
                        assert(after[before.len() as int] == name@);
                    }
                }
            }
        }
        i = i + 1;
    }
    assert(all.take(i as int) =~= all);
    names
}

/// What a record contributes to a sum.
fn contribution(r: &CallRecord, m: Measure) -> (n: usize)
    ensures
        n == share(m)(*r),
{
    match m {
        Measure::Calls => 1,
        Measure::RequestBytes => r.request_bytes,
        Measure::ResponseBytes => r.response_bytes,
        Measure::InputTokens => r.estimated_input_tokens,
        Measure::OutputTokens => r.estimated_output_tokens,
        Measure::Successes => if r.success {
            1
        } else {
            0
        },
    }
}

/// The sum of a measure over records.
fn sum(records: &[&CallRecord], m: Measure) -> (n: usize)
    requires
        measured(records_of(records@), m) <= usize::MAX,
    ensures
        n == measured(records_of(records@), m),
{
    let mut n: usize = 0;
    let mut i: usize = 0;
    let ghost all = records_of(records@);
    while i < records.len()
        invariant
            i <= records@.len(),
            all == records_of(records@),
            measured(all, m) <= usize::MAX,
            n == total(all.take(i as int), share(m)),
        decreases records.len() - i,
    {
        proof {
            lemma_total_step(all, i as int, share(m));
            lemma_total_prefix(all, i + 1, share(m));
        }
        n = n + contribution(records[i], m);
        i = i + 1;
    }
    assert(all.take(i as int) =~= all);
    n
}

/// The latency statistics of records.
fn stats(records: &[&CallRecord]) -> (s: Option<LatencyStats>)
    requires
        latency_sum(latencies(records_of(records@))) <= u64::MAX,
    ensures
        s == latency_stats(latencies(records_of(records@))),
{
    let mut us: Vec<u64> = Vec::new();
    let mut i: usize = 0;
    while i < records.len()
        invariant
            i <= records@.len(),
            us@ == latencies(records_of(records@)).take(i as int),
        decreases records.len() - i,
    {
        us.push(records[i].latency_us);
        i = i + 1;
        assert(us@ =~= latencies(records_of(records@)).take(i as int));
    }
    assert(us@ =~= latencies(records_of(records@)));
    LatencyStats::from_latencies_us(us.as_mut_slice())
}

// --- Building summaries ---

/// Tools with more calls come first.
impl Ranked for ToolSummary {
    open spec fn outranks(self, other: Self) -> bool {
        self.call_count > other.call_count
    }

    proof fn outranks_asymmetric(a: Self, b: Self) {
    }

    proof fn outranks_transitive(a: Self, b: Self, c: Self) {
    }

    fn goes_before(&self, other: &Self) -> (r: bool) {
        self.call_count > other.call_count
    }
}

/// Methods with more calls come first.
impl Ranked for MethodSummary {
    open spec fn outranks(self, other: Self) -> bool {
        self.call_count > other.call_count
    }

    proof fn outranks_asymmetric(a: Self, b: Self) {
    }

    proof fn outranks_transitive(a: Self, b: Self, c: Self) {
    }

    fn goes_before(&self, other: &Self) -> (r: bool) {
        self.call_count > other.call_count
    }
}

/// Backends come in the order of their names.
impl Ranked for BackendSummary {
    open spec fn outranks(self, other: Self) -> bool {
        text_less(self.name@, other.name@)
    }

    proof fn outranks_asymmetric(a: Self, b: Self) {
        crate::text::law_bytes_less_total(
            vstd::utf8::encode_utf8(a.name@),
            vstd::utf8::encode_utf8(b.name@),
        );
    }

    proof fn outranks_transitive(a: Self, b: Self, c: Self) {
        crate::text::law_bytes_less_transitive(
            vstd::utf8::encode_utf8(a.name@),
            vstd::utf8::encode_utf8(b.name@),
            vstd::utf8::encode_utf8(c.name@),
        );
    }

    fn goes_before(&self, other: &Self) -> (r: bool) {
        sorts_before(self.name.as_str(), other.name.as_str())
    }
}

/// Sum up the calls of one tool.
fn summarize_tool(name: &str, calls: &[&CallRecord]) -> (t: ToolSummary)
    requires
        sums_fit(records_of(calls@)),
    ensures
        t.name@ == name@,
        tool_sums_up(t, records_of(calls@)),
{
    let call_count: usize = calls.len();
    proof {
        lemma_successes(records_of(calls@));
    }
    let successes: usize = sum(calls, Measure::Successes);
    ToolSummary {
        name: name.to_owned(),
        call_count,
        success_count: successes,
        failure_count: call_count - successes,
        total_input_bytes: sum(calls, Measure::RequestBytes),
        total_output_bytes: sum(calls, Measure::ResponseBytes),
        estimated_input_tokens: sum(calls, Measure::InputTokens),
        estimated_output_tokens: sum(calls, Measure::OutputTokens),
        latency: stats(calls),
    }
}

/// Sum up the calls of one method.
fn summarize_method(method: &str, calls: &[&CallRecord]) -> (m: MethodSummary)
    requires
        sums_fit(records_of(calls@)),
    ensures
        m.method@ == method@,
        method_sums_up(m, records_of(calls@)),
{
    MethodSummary {
        method: method.to_owned(),
        call_count: calls.len(),
        total_input_bytes: sum(calls, Measure::RequestBytes),
        total_output_bytes: sum(calls, Measure::ResponseBytes),
        estimated_input_tokens: sum(calls, Measure::InputTokens),
        estimated_output_tokens: sum(calls, Measure::OutputTokens),
        latency: stats(calls),
    }
}

/// Break tool calls down by tool.
fn summarize_tools(calls: &[&CallRecord]) -> (tools: Vec<ToolSummary>)
    requires
        sums_fit(records_of(calls@)),
    ensures
        tools_break_down(tools@, records_of(calls@)),
{
    let names: Vec<String> = group_names(calls, Key::Tool);
    let mut list: Vec<ToolSummary> = Vec::new();
    let ghost all = records_of(calls@);
    let mut i: usize = 0;
    while i < names.len()
        invariant
            i <= names@.len(),
            all == records_of(calls@),
            sums_fit(all),
            list@.len() == i,
            forall|k: int|
                0 <= k < i ==> (#[trigger] list@[k]).name@ == names@[k]@ && tool_sums_up(
                    list@[k],
                    group(all, Key::Tool, list@[k].name@),
                ),
        decreases names.len() - i,
    {
        let selected: Vec<&CallRecord> = select(calls, Key::Tool, names[i].as_str());
        proof {
            lemma_group_fits(all, Key::Tool, names@[i as int]@);
        }
        list.push(summarize_tool(names[i].as_str(), selected.as_slice()));
        i = i + 1;
    }
    let ghost unsorted = list@;
    let tools: Vec<ToolSummary> = sort_ranked(list);
    proof {
        let name = |t: ToolSummary| t.name@;
        assert(tool_names(unsorted) =~= texts(names@));
        lemma_reordered_map(unsorted, tools@, name);
        assert(tool_names(unsorted) =~= unsorted.map_values(name));
        assert(tool_names(tools@) =~= tools@.map_values(name));
        lemma_reordered_no_duplicates(tool_names(unsorted), tool_names(tools@));
        assert forall|n: Seq<char>| #[trigger] tool_names(tools@).contains(n) == has_group(all, Key::Tool, n) by {
            lemma_reordered_contains(tool_names(unsorted), tool_names(tools@), n);
        }
        assert forall|k: int| 0 <= k < tools@.len() implies tool_sums_up(
            #[trigger] tools@[k],
            group(all, Key::Tool, tools@[k].name@),
        ) by {
            lemma_reordered_contains(unsorted, tools@, tools@[k]);
            let j = choose|j: int| 0 <= j < unsorted.len() && unsorted[j] == tools@[k];
            assert(unsorted[j].name@ == names@[j]@);
        }
        assert forall|a: int, b: int| 0 <= a < b < tools@.len() implies (#[trigger] tools@[a]).call_count >= (
        #[trigger] tools@[b]).call_count by {
            assert(!tools@[b].outranks(tools@[a]));
        }
    }
    tools
}

/// Break calls down by method.
fn summarize_methods(calls: &[&CallRecord]) -> (methods: Vec<MethodSummary>)
    requires
        sums_fit(records_of(calls@)),
    ensures
        methods_break_down(methods@, records_of(calls@)),
{
    let names: Vec<String> = group_names(calls, Key::Method);
    let mut list: Vec<MethodSummary> = Vec::new();
    let ghost all = records_of(calls@);
    let mut i: usize = 0;
    while i < names.len()
        invariant
            i <= names@.len(),
            all == records_of(calls@),
            sums_fit(all),
            list@.len() == i,
            forall|k: int|
                0 <= k < i ==> (#[trigger] list@[k]).method@ == names@[k]@ && method_sums_up(
                    list@[k],
                    group(all, Key::Method, list@[k].method@),
                ),
        decreases names.len() - i,
    {
        let selected: Vec<&CallRecord> = select(calls, Key::Method, names[i].as_str());
        proof {
            lemma_group_fits(all, Key::Method, names@[i as int]@);
        }
        list.push(summarize_method(names[i].as_str(), selected.as_slice()));
        i = i + 1;
    }
    let ghost unsorted = list@;
    let methods: Vec<MethodSummary> = sort_ranked(list);
    proof {
        let name = |m: MethodSummary| m.method@;
        assert(method_names(unsorted) =~= texts(names@));
        lemma_reordered_map(unsorted, methods@, name);
        assert(method_names(unsorted) =~= unsorted.map_values(name));
        assert(method_names(methods@) =~= methods@.map_values(name));
        lemma_reordered_no_duplicates(method_names(unsorted), method_names(methods@));
        assert forall|n: Seq<char>|
            #[trigger] method_names(methods@).contains(n) == has_group(all, Key::Method, n) by {
            lemma_reordered_contains(method_names(unsorted), method_names(methods@), n);
        }
        assert forall|k: int| 0 <= k < methods@.len() implies method_sums_up(
            #[trigger] methods@[k],
            group(all, Key::Method, methods@[k].method@),
        ) by {
            lemma_reordered_contains(unsorted, methods@, methods@[k]);
            let j = choose|j: int| 0 <= j < unsorted.len() && unsorted[j] == methods@[k];
            assert(unsorted[j].method@ == names@[j]@);
        }
        assert forall|a: int, b: int| 0 <= a < b < methods@.len() implies (
        #[trigger] methods@[a]).call_count >= (#[trigger] methods@[b]).call_count by {
            assert(!methods@[b].outranks(methods@[a]));
        }
    }
    methods
}

/// Break records down by backend.
fn summarize_backends(records: &[&CallRecord]) -> (backends: Vec<BackendSummary>)
    requires
        reportable(records_of(records@)),
    ensures
        backends_break_down(backends@, records_of(records@)),
{
    let names: Vec<String> = group_names(records, Key::Backend);
    let mut list: Vec<BackendSummary> = Vec::new();
    let ghost all = records_of(records@);
    let mut i: usize = 0;
    while i < names.len()
        invariant
            i <= names@.len(),
            all == records_of(records@),
            reportable(all),
            list@.len() == i,
            forall|k: int|
                0 <= k < i ==> (#[trigger] list@[k]).name@ == names@[k]@ && backend_sums_up(
                    list@[k],
                    group(all, Key::Backend, list@[k].name@),
                ),
        decreases names.len() - i,
    {
        let selected: Vec<&CallRecord> = select(records, Key::Backend, names[i].as_str());
        assert(sums_fit(group(all, Key::Backend, names@[i as int]@)));
        list.push(MetricsStore::summarize(names[i].as_str(), selected.as_slice()));
        i = i + 1;
    }
    let ghost unsorted = list@;
    let backends: Vec<BackendSummary> = sort_ranked(list);
    proof {
        let name = |b: BackendSummary| b.name@;
        assert(backend_names(unsorted) =~= texts(names@));
        lemma_reordered_map(unsorted, backends@, name);
        assert(backend_names(unsorted) =~= unsorted.map_values(name));
        assert(backend_names(backends@) =~= backends@.map_values(name));
        lemma_reordered_no_duplicates(backend_names(unsorted), backend_names(backends@));
        assert forall|n: Seq<char>|
            #[trigger] backend_names(backends@).contains(n) == has_group(all, Key::Backend, n) by {
            lemma_reordered_contains(backend_names(unsorted), backend_names(backends@), n);
        }
        assert forall|k: int| 0 <= k < backends@.len() implies backend_sums_up(
            #[trigger] backends@[k],
            group(all, Key::Backend, backends@[k].name@),
        ) by {
            lemma_reordered_contains(unsorted, backends@, backends@[k]);
            let j = choose|j: int| 0 <= j < unsorted.len() && unsorted[j] == backends@[k];
            assert(unsorted[j].name@ == names@[j]@);
        }
        assert forall|a: int, b: int| 0 <= a < b < backends@.len() implies text_less(
            (#[trigger] backends@[a]).name@,
            (#[trigger] backends@[b]).name@,
        ) by {
            assert(!backends@[b].outranks(backends@[a]));
            assert(backend_names(backends@)[a] != backend_names(backends@)[b]);
            crate::text::law_text_less_total(backends@[a].name@, backends@[b].name@);
        }
    }
    backends
}

// --- The store ---

/// Whether the sums of a report on `records` can be represented.
pub open spec fn reportable(records: Seq<CallRecord>) -> bool {
    forall|name: Seq<char>| sums_fit(#[trigger] group(records, Key::Backend, name))
}

/// Collects `CallRecord`s during a session and generates reports.
pub struct MetricsStore {
    pub records: Vec<CallRecord>,
    pub session_start: Instant,
    pub session_start_utc: Timestamp,
    /// How many records came after the store was full.
    pub dropped: usize,
}

/// The records and the number of dropped records after one more record.
pub open spec fn recorded(records: Seq<CallRecord>, dropped: nat, rec: CallRecord) -> (Seq<CallRecord>, nat) {
    if records.len() >= MAX_RECORDS {
        (records, dropped + 1)
    } else {
        (records.push(rec), dropped)
    }
}

/// What is in a record of a call, apart from its latency and its timestamp.
pub open spec fn describes_call(
    rec: CallRecord,
    backend: Seq<char>,
    method: Seq<char>,
    tool_name: Option<Seq<char>>,
    resource_uri: Option<Seq<char>>,
    prompt_name: Option<Seq<char>>,
    request_bytes: usize,
    result: Result<serde_json::Value, String>,
) -> bool {
    &&& rec.backend@ == backend
    &&& rec.method@ == method
    &&& option_text(rec.tool_name) == tool_name
    &&& option_text(rec.resource_uri) == resource_uri
    &&& option_text(rec.prompt_name) == prompt_name
    &&& rec.request_bytes == request_bytes
    &&& rec.response_bytes == (match result {
        Ok(v) => json_size(crate::json::contents(v)),
        Err(_) => 0,
    })
    &&& rec.estimated_input_tokens == estimated_tokens(rec.request_bytes as nat)
    &&& rec.estimated_output_tokens == estimated_tokens(rec.response_bytes as nat)
    &&& rec.success == (result is Ok)
    &&& option_text(rec.error_message) == (match result {
        Ok(_) => None,
        Err(e) => Some(e@),
    })
}

/// The latency of `rec` is the time from `start` to some reading of the clock,
/// and its timestamp is a point in time.
pub open spec fn timed_from(rec: CallRecord, start: Instant) -> bool {
    &&& exists|now: Instant|
        {
            &&& rec.latency_us == (#[trigger] span_between(start, now)).capped()
            &&& span_between(start, now).total_nanos() == nanos_between(start, now)
        }
    &&& rec.timestamp.is_valid()
}

/// An optional borrowed text as a character sequence.
pub open spec fn option_str(s: Option<&str>) -> Option<Seq<char>> {
    match s {
        Some(t) => Some(t@),
        None => None,
    }
}

/// An owned copy of an optional borrowed text.
fn own(s: Option<&str>) -> (r: Option<String>)
    ensures
        option_text(r) == option_str(s),
{
    match s {
        Some(t) => Some(t.to_owned()),
        None => None,
    }
}

impl MetricsStore {
    /// `r` is a report on the session up to the instant `now`.
    pub open spec fn reports(self, r: BenchmarkReport, session_id: Seq<char>, now: Instant) -> bool {
        &&& r.session_id@ == session_id
        &&& r.started_at == self.session_start_utc
        &&& r.ended_at.is_valid()
        &&& r.duration == span_between(self.session_start, now)
        &&& r.duration.total_nanos() == nanos_between(self.session_start, now)
        &&& backends_break_down(r.backends@, self.records@)
        &&& r.records@ == self.records@
    }

    /// An empty store; the session starts now.
    pub fn new() -> (s: MetricsStore)
        ensures
            s.records@.len() == 0,
            s.dropped == 0,
            s.session_start_utc.is_valid(),
    {
        MetricsStore {
            records: Vec::new(),
            session_start: Instant::now(),
            session_start_utc: utc_now(),
            dropped: 0,
        }
    }

    /// Keep a record, or count it as dropped where the store is full.
    pub fn record(&mut self, rec: CallRecord)
        requires
            old(self).records@.len() >= MAX_RECORDS ==> old(self).dropped < usize::MAX,
        ensures
            (final(self).records@, final(self).dropped as nat) == recorded(
                old(self).records@,
                old(self).dropped as nat,
                rec,
            ),
            old(self).records@.len() < 500_000 ==> final(self).records@ == old(self).records@.push(rec)
                && final(self).dropped == old(self).dropped,
            old(self).records@.len() >= 500_000 ==> final(self).records@ == old(self).records@
                && final(self).dropped == old(self).dropped + 1,
            final(self).session_start == old(self).session_start,
            final(self).session_start_utc == old(self).session_start_utc,
    {
        if self.records.len() >= MAX_RECORDS {
            self.dropped = self.dropped + 1;
            return;
        }
        self.records.push(rec);
    }

    /// Build a `CallRecord` from timing and result info; the call ends now.
    pub fn build_record(
        backend: &str,
        method: &str,
        tool_name: Option<&str>,
        resource_uri: Option<&str>,
        prompt_name: Option<&str>,
        start: Instant,
        request_bytes: usize,
        result: &Result<serde_json::Value, String>,
    ) -> (rec: CallRecord)
        ensures
            describes_call(
                rec,
                backend@,
                method@,
                option_str(tool_name),
                option_str(resource_uri),
                option_str(prompt_name),
                request_bytes,
                *result,
            ),
            timed_from(rec, start),
    {
        let latency: Span = elapsed(&start);
        let timestamp: Timestamp = utc_now();
        MetricsStore::record_of(
            backend,
            method,
            tool_name,
            resource_uri,
            prompt_name,
            latency,
            timestamp,
            request_bytes,
            result,
        )
    }

    /// Build a `CallRecord` for a call that took `latency` and ended at `timestamp`.
    pub fn record_of(
        backend: &str,
        method: &str,
        tool_name: Option<&str>,
        resource_uri: Option<&str>,
        prompt_name: Option<&str>,
        latency: Span,
        timestamp: Timestamp,
        request_bytes: usize,
        result: &Result<serde_json::Value, String>,
    ) -> (rec: CallRecord)
        ensures
            describes_call(
                rec,
                backend@,
                method@,
                option_str(tool_name),
                option_str(resource_uri),
                option_str(prompt_name),
                request_bytes,
                *result,
            ),
            rec.latency_us == latency.capped(),
            rec.timestamp == timestamp,
    {
        let (success, response_bytes, error_message): (bool, usize, Option<String>) = match result {
            Ok(v) => (true, json_len(v), None),
            Err(e) => (false, 0, Some(e.clone())),
        };
        CallRecord {
            backend: backend.to_owned(),
            method: method.to_owned(),
            tool_name: own(tool_name),
            resource_uri: own(resource_uri),
            prompt_name: own(prompt_name),
            latency_us: latency.capped_micros(),
            request_bytes,
            response_bytes,
            estimated_input_tokens: estimate_tokens(request_bytes),
            estimated_output_tokens: estimate_tokens(response_bytes),
            success,
            error_message,
            timestamp,
        }
    }

    /// Sum up the calls of one backend.
    pub fn summarize(name: &str, records: &[&CallRecord]) -> (b: BackendSummary)
        requires
            sums_fit(records_of(records@)),
        ensures
            b.name@ == name@,
            backend_sums_up(b, records_of(records@)),
    {
        let total_calls: usize = records.len();
        proof {
            lemma_successes(records_of(records@));
            lemma_group_fits(records_of(records@), Key::Method, TOOL_CALL@);
        }
        let successes: usize = sum(records, Measure::Successes);
        let total_input_bytes: usize = sum(records, Measure::RequestBytes);
        let total_output_bytes: usize = sum(records, Measure::ResponseBytes);
        let input_tokens: usize = sum(records, Measure::InputTokens);
        let output_tokens: usize = sum(records, Measure::OutputTokens);
        let tool_calls: Vec<&CallRecord> = select(records, Key::Method, TOOL_CALL);
        BackendSummary {
            name: name.to_owned(),
            total_calls,
            total_tool_calls: tool_calls.len(),
            success_count: successes,
            failure_count: total_calls - successes,
            total_input_bytes,
            total_output_bytes,
            total_bytes: total_input_bytes + total_output_bytes,
            estimated_input_tokens: input_tokens,
            estimated_output_tokens: output_tokens,
            estimated_total_tokens: input_tokens + output_tokens,
            overall_latency: stats(records),
            tool_call_latency: stats(tool_calls.as_slice()),
            tools: summarize_tools(tool_calls.as_slice()),
            methods: summarize_methods(records),
        }
    }

    /// Whether the sums of a report can be represented.
    pub fn totals_fit(&self) -> (b: bool)
        ensures
            b == reportable(self.records@),
    {
        let refs: Vec<&CallRecord> = references(&self.records);
        let names: Vec<String> = group_names(refs.as_slice(), Key::Backend);
        let mut i: usize = 0;
        while i < names.len()
            invariant
                i <= names.len(),
                records_of(refs@) == self.records@,
                forall|k: int| 0 <= k < i ==> sums_fit(group(self.records@, Key::Backend, #[trigger] texts(names@)[k])),
            decreases names.len() - i,
        {
            let selected: Vec<&CallRecord> = select(refs.as_slice(), Key::Backend, names[i].as_str());
            assert(texts(names@)[i as int] == names@[i as int]@);
            if !check_sums(selected.as_slice()) {
                return false;
            }
            i = i + 1;
        }
        proof {
            assert forall|name: Seq<char>| sums_fit(#[trigger] group(self.records@, Key::Backend, name)) by {
                if texts(names@).contains(name) {
                    let k = choose|k: int| 0 <= k < texts(names@).len() && texts(names@)[k] == name;
                    assert(sums_fit(group(self.records@, Key::Backend, texts(names@)[k])));
                } else {
                    lemma_no_group(self.records@, Key::Backend, name);
                    assert(latencies(Seq::<CallRecord>::empty()) =~= seq![]);
                }
            }
        }
        true
    }

    /// Generate a full report from collected records; the session ends now.
    pub fn generate_report(&self, session_id: &str) -> (r: BenchmarkReport)
        requires
            reportable(self.records@),
        ensures
            exists|now: Instant| #[trigger] self.reports(r, session_id@, now),
    {
        let now: Timestamp = utc_now();
        let duration: Span = elapsed(&self.session_start);
        let r: BenchmarkReport = self.report_at(session_id, now, duration);
        proof {
            let end = choose|end: Instant|
                {
                    &&& duration == #[trigger] span_between(self.session_start, end)
                    &&& duration.total_nanos() == nanos_between(self.session_start, end)
                };
            assert(self.reports(r, session_id@, end));
        }
        r
    }

    /// The report on a session that took `duration` and ended at `ended_at`.
    pub fn report_at(&self, session_id: &str, ended_at: Timestamp, duration: Span) -> (r: BenchmarkReport)
        requires
            reportable(self.records@),
        ensures
            r.session_id@ == session_id@,
            r.started_at == self.session_start_utc,
            r.ended_at == ended_at,
            r.duration == duration,
            backends_break_down(r.backends@, self.records@),
            r.records@ == self.records@,
    {
        let refs: Vec<&CallRecord> = references(&self.records);
        BenchmarkReport {
            session_id: session_id.to_owned(),
            started_at: self.session_start_utc,
            ended_at,
            duration,
            backends: summarize_backends(refs.as_slice()),
            records: copy_records(&self.records),
        }
    }
}

/// The sum of a measure over records, where it can be represented.
fn checked_sum(records: &[&CallRecord], m: Measure) -> (n: Option<usize>)
    ensures
        match n {
            Some(n) => n == measured(records_of(records@), m),
            None => measured(records_of(records@), m) > usize::MAX,
        },
{
    let mut n: usize = 0;
    let mut i: usize = 0;
    let ghost all = records_of(records@);
    while i < records.len()
        invariant
            i <= records@.len(),
            all == records_of(records@),
            n == total(all.take(i as int), share(m)),
        decreases records.len() - i,
    {
        proof {
            lemma_total_step(all, i as int, share(m));
            lemma_total_prefix(all, i + 1, share(m));
        }
        match n.checked_add(contribution(records[i], m)) {
            Some(next) => {
                n = next;
            },
            None => {
                return None;
            },
        }
        i = i + 1;
    }
    assert(all.take(i as int) =~= all);
    Some(n)
}

/// Whether the latencies of records add up to a number of 64 bits.
fn latencies_fit(records: &[&CallRecord]) -> (b: bool)
    ensures
        b == (latency_sum(latencies(records_of(records@))) <= u64::MAX),
{
    let mut n: u64 = 0;
    let mut i: usize = 0;
    let ghost all = latencies(records_of(records@));
    while i < records.len()
        invariant
            i <= records@.len(),
            all == latencies(records_of(records@)),
            n == total(all.take(i as int), micros()),
        decreases records.len() - i,
    {
        proof {
            lemma_total_step(all, i as int, micros());
            lemma_total_prefix(all, i + 1, micros());
        }
        match n.checked_add(records[i].latency_us) {
            Some(next) => {
                n = next;
            },
            None => {
                return false;
            },
        }
        i = i + 1;
    }
    assert(all.take(i as int) =~= all);
    true
}

/// Whether two sums are there and add up to a `usize`.
fn sum_fits(a: Option<usize>, b: Option<usize>) -> (r: bool)
    ensures
        r == (a is Some && b is Some && a->0 + b->0 <= usize::MAX),
{
    match (a, b) {
        (Some(x), Some(y)) => x.checked_add(y).is_some(),
        _ => false,
    }
}

/// Whether the sums over the records of one backend can be represented.
fn check_sums(records: &[&CallRecord]) -> (b: bool)
    ensures
        b == sums_fit(records_of(records@)),
{
    sum_fits(checked_sum(records, Measure::RequestBytes), checked_sum(records, Measure::ResponseBytes))
        && sum_fits(checked_sum(records, Measure::InputTokens), checked_sum(records, Measure::OutputTokens))
        && latencies_fit(records)
}

/// References to all records.
fn references(records: &Vec<CallRecord>) -> (refs: Vec<&CallRecord>)
    ensures
        records_of(refs@) == records@,
{
    let mut refs: Vec<&CallRecord> = Vec::new();
    let mut i: usize = 0;
    while i < records.len()
        invariant
            i <= records@.len(),
            records_of(refs@) == records@.take(i as int),
        decreases records.len() - i,
    {
        let ghost before = refs@;
        refs.push(&records[i]);
        assert(records_of(refs@) =~= records_of(before).push(records@[i as int]));
        i = i + 1;
        assert(records_of(refs@) =~= records@.take(i as int));
    }
    assert(records@.take(i as int) =~= records@);
    refs
}

/// A copy of all records.
fn copy_records(records: &Vec<CallRecord>) -> (copy: Vec<CallRecord>)
    ensures
        copy@ == records@,
{
    let mut copy: Vec<CallRecord> = Vec::new();
    let mut i: usize = 0;
    while i < records.len()
        invariant
            i <= records@.len(),
            copy@ == records@.take(i as int),
        decreases records.len() - i,
    {
        copy.push(records[i].clone());
        i = i + 1;
        assert(copy@ =~= records@.take(i as int));
    }
    assert(records@.take(i as int) =~= records@);
    copy
}

// --- Laws ---

/// The records kept and the number dropped after recording all of `recs` in turn,
/// beginning with an empty store.
pub open spec fn recorded_in_turn(recs: Seq<CallRecord>) -> (Seq<CallRecord>, nat)
    decreases recs.len(),
{
    if recs.len() == 0 {
        (seq![], 0)
    } else {
        let (records, dropped) = recorded_in_turn(recs.drop_last());
        recorded(records, dropped, recs.last())
    }
}

/// A store keeps the first 500,000 records in the order in which they came, and
/// counts the others: it never holds more, and loses count of none.
pub proof fn law_record_limit(recs: Seq<CallRecord>)
    ensures
        recorded_in_turn(recs).0.len() <= 500_000,
        recorded_in_turn(recs).0.len() + recorded_in_turn(recs).1 == recs.len(),
        recs.len() <= 500_000 ==> recorded_in_turn(recs) == (recs, 0nat),
        recs.len() > 500_000 ==> recorded_in_turn(recs) == (recs.take(500_000), (recs.len() - 500_000) as nat),
    decreases recs.len(),
{
    if recs.len() > 0 {
        let rest = recs.drop_last();
        law_record_limit(rest);
        if recs.len() <= MAX_RECORDS {
            assert(rest.push(recs.last()) =~= recs);
        } else if rest.len() == MAX_RECORDS {
            assert(recs.take(MAX_RECORDS as int) =~= rest);
        } else {
            assert(recs.take(MAX_RECORDS as int) =~= rest.take(MAX_RECORDS as int));
        }
    } else {
        assert(recs =~= seq![]);
    }
}

/// Whether a record belongs to any group at all.
pub open spec fn grouped(key: Key) -> spec_fn(CallRecord) -> bool {
    |r: CallRecord| key_of(r, key) is Some
}

/// The sum of a measure over the records of a group, by its name.
pub open spec fn group_measure(records: Seq<CallRecord>, key: Key, m: Measure) -> spec_fn(Seq<char>) -> nat {
    |name: Seq<char>| measured(group(records, key, name), m)
}

/// Sums over groups add up to the sum over the records that are in one.
proof fn lemma_groups_add_up(names: Seq<Seq<char>>, records: Seq<CallRecord>, key: Key, m: Measure)
    requires
        names.no_duplicates(),
        forall|n: Seq<char>| has_group(records, key, n) ==> #[trigger] names.contains(n),
    ensures
        total(names, group_measure(records, key, m)) == measured(records.filter(grouped(key)), m),
    decreases records.len(),
{
    reveal(Seq::filter);
    let g = group_measure(records, key, m);
    if records.len() == 0 {
        let zero = |n: Seq<char>| 0nat;
        assert forall|i: int| 0 <= i < names.len() implies zero(#[trigger] names[i]) == g(names[i]) by {
            assert(group(records, key, names[i]) =~= seq![]);
        }
        lemma_total_same(names, zero, g);
        lemma_total_bound(names, zero, 0);
    } else {
        let rest = records.drop_last();
        let r = records.last();
        let f = group_measure(rest, key, m);
        assert forall|n: Seq<char>| has_group(rest, key, n) implies #[trigger] names.contains(n) by {
            let k = choose|k: int| 0 <= k < rest.len() && key_of(#[trigger] rest[k], key) == Some(n);
            assert(records[k] == rest[k]);
            assert(has_group(records, key, n));
        }
        lemma_groups_add_up(names, rest, key, m);
        match key_of(r, key) {
            Some(name) => {
                assert(key_of(records[records.len() - 1], key) == Some(name));
                assert(has_group(records, key, name));
                lemma_total_push(group(rest, key, name), r, share(m));
                assert forall|b: Seq<char>| b != name implies f(b) == #[trigger] g(b) by {
                    assert(group(records, key, b) == group(rest, key, b));
                }
                lemma_total_differ_at(names, name, f, g, share(m)(r));
                lemma_total_push(rest.filter(grouped(key)), r, share(m));
            },
            None => {
                assert forall|i: int| 0 <= i < names.len() implies f(#[trigger] names[i]) == g(names[i]) by {
                    assert(group(records, key, names[i]) == group(rest, key, names[i]));
                }
                lemma_total_same(names, f, g);
            },
        }
    }
}

/// Where all records are in a group, none is left out.
proof fn lemma_all_grouped(records: Seq<CallRecord>, key: Key)
    requires
        forall|i: int| 0 <= i < records.len() ==> key_of(#[trigger] records[i], key) is Some,
    ensures
        records.filter(grouped(key)) == records,
    decreases records.len(),
{
    reveal(Seq::filter);
    if records.len() > 0 {
        let rest = records.drop_last();
        assert forall|i: int| 0 <= i < rest.len() implies key_of(#[trigger] rest[i], key) is Some by {
            assert(rest[i] == records[i]);
        }
        lemma_all_grouped(rest, key);
        assert(key_of(records[records.len() - 1], key) is Some);
        assert(rest.push(records.last()) =~= records);
    } else {
        assert(records.filter(grouped(key)) =~= records);
    }
}

/// The number of calls is the number of records.
pub proof fn lemma_calls(records: Seq<CallRecord>)
    ensures
        measured(records, Measure::Calls) == records.len(),
    decreases records.len(),
{
    if records.len() > 0 {
        lemma_calls(records.drop_last());
    }
}

/// What a backend summary states for a measure.
pub open spec fn backend_figure(b: BackendSummary, m: Measure) -> nat {
    match m {
        Measure::Calls => b.total_calls as nat,
        Measure::RequestBytes => b.total_input_bytes as nat,
        Measure::ResponseBytes => b.total_output_bytes as nat,
        Measure::InputTokens => b.estimated_input_tokens as nat,
        Measure::OutputTokens => b.estimated_output_tokens as nat,
        Measure::Successes => b.success_count as nat,
    }
}

/// What a tool summary states for a measure.
pub open spec fn tool_figure(t: ToolSummary, m: Measure) -> nat {
    match m {
        Measure::Calls => t.call_count as nat,
        Measure::RequestBytes => t.total_input_bytes as nat,
        Measure::ResponseBytes => t.total_output_bytes as nat,
        Measure::InputTokens => t.estimated_input_tokens as nat,
        Measure::OutputTokens => t.estimated_output_tokens as nat,
        Measure::Successes => t.success_count as nat,
    }
}

/// What a method summary states for a measure (it does not count successes).
pub open spec fn method_figure(s: MethodSummary, m: Measure) -> nat {
    match m {
        Measure::Calls => s.call_count as nat,
        Measure::RequestBytes => s.total_input_bytes as nat,
        Measure::ResponseBytes => s.total_output_bytes as nat,
        Measure::InputTokens => s.estimated_input_tokens as nat,
        Measure::OutputTokens => s.estimated_output_tokens as nat,
        Measure::Successes => 0,
    }
}

/// The backends of a report account for all its records: calls, bytes, tokens
/// and successes add up over the backends.
pub proof fn law_backends_add_up(backends: Seq<BackendSummary>, records: Seq<CallRecord>, m: Measure)
    requires
        backends_break_down(backends, records),
    ensures
        total(backends, |b: BackendSummary| backend_figure(b, m)) == measured(records, m),
        total(backends, |b: BackendSummary| b.total_calls as nat) == records.len(),
{
    let figure = |b: BackendSummary| backend_figure(b, m);
    let calls = |b: BackendSummary| b.total_calls as nat;
    let name = |b: BackendSummary| b.name@;
    assert(backend_names(backends) =~= backends.map_values(name));
    lemma_groups_add_up(backend_names(backends), records, Key::Backend, m);
    lemma_groups_add_up(backend_names(backends), records, Key::Backend, Measure::Calls);
    lemma_all_grouped(records, Key::Backend);
    lemma_calls(records);
    assert forall|i: int| 0 <= i < backends.len() implies figure(#[trigger] backends[i]) == group_measure(
        records,
        Key::Backend,
        m,
    )(name(backends[i])) by {
        lemma_calls(group(records, Key::Backend, backends[i].name@));
    }
    lemma_total_map(backends, name, figure, group_measure(records, Key::Backend, m));
    assert forall|i: int| 0 <= i < backends.len() implies calls(#[trigger] backends[i]) == group_measure(
        records,
        Key::Backend,
        Measure::Calls,
    )(name(backends[i])) by {
        lemma_calls(group(records, Key::Backend, backends[i].name@));
    }
    lemma_total_map(backends, name, calls, group_measure(records, Key::Backend, Measure::Calls));
}

/// The methods of a backend account for all its calls: calls, bytes and tokens
/// add up over the methods.
pub proof fn law_methods_add_up(b: BackendSummary, records: Seq<CallRecord>, m: Measure)
    requires
        backend_sums_up(b, records),
        m != Measure::Successes,
    ensures
        total(b.methods@, |s: MethodSummary| method_figure(s, m)) == backend_figure(b, m),
{
    let methods = b.methods@;
    let figure = |s: MethodSummary| method_figure(s, m);
    let name = |s: MethodSummary| s.method@;
    assert(method_names(methods) =~= methods.map_values(name));
    lemma_groups_add_up(method_names(methods), records, Key::Method, m);
    lemma_all_grouped(records, Key::Method);
    lemma_calls(records);
    assert forall|i: int| 0 <= i < methods.len() implies figure(#[trigger] methods[i]) == group_measure(
        records,
        Key::Method,
        m,
    )(name(methods[i])) by {
        lemma_calls(group(records, Key::Method, methods[i].method@));
    }
    lemma_total_map(methods, name, figure, group_measure(records, Key::Method, m));
}

/// The tools of a backend account for the tool calls that name a tool, and for
/// no others.
pub proof fn law_tools_add_up(b: BackendSummary, records: Seq<CallRecord>, m: Measure)
    requires
        backend_sums_up(b, records),
    ensures
        total(b.tools@, |t: ToolSummary| tool_figure(t, m)) == measured(
            tool_calls(records).filter(grouped(Key::Tool)),
            m,
        ),
        total(b.tools@, |t: ToolSummary| tool_figure(t, m)) <= measured(tool_calls(records), m),
        total(b.tools@, |t: ToolSummary| tool_figure(t, m)) <= backend_figure(b, m),
        (forall|i: int|
            0 <= i < tool_calls(records).len() ==> (#[trigger] tool_calls(records)[i]).tool_name is Some)
            ==> total(b.tools@, |t: ToolSummary| tool_figure(t, m)) == measured(tool_calls(records), m),
{
    let calls = tool_calls(records);
    let tools = b.tools@;
    let figure = |t: ToolSummary| tool_figure(t, m);
    let name = |t: ToolSummary| t.name@;
    assert(tool_names(tools) =~= tools.map_values(name));
    lemma_groups_add_up(tool_names(tools), calls, Key::Tool, m);
    assert forall|i: int| 0 <= i < tools.len() implies figure(#[trigger] tools[i]) == group_measure(
        calls,
        Key::Tool,
        m,
    )(name(tools[i])) by {
        lemma_calls(group(calls, Key::Tool, tools[i].name@));
    }
    lemma_total_map(tools, name, figure, group_measure(calls, Key::Tool, m));
    lemma_total_filter(calls, grouped(Key::Tool), share(m));
    lemma_total_filter(records, in_group(Key::Method, TOOL_CALL@), share(m));
    lemma_calls(records);
    if forall|i: int| 0 <= i < calls.len() ==> (#[trigger] calls[i]).tool_name is Some {
        assert forall|i: int| 0 <= i < calls.len() implies key_of(#[trigger] calls[i], Key::Tool) is Some by {
            assert(calls[i].tool_name is Some);
        }
        lemma_all_grouped(calls, Key::Tool);
    }
}

/// Every call of a backend either succeeded or failed.
pub proof fn law_success_or_failure(b: BackendSummary, records: Seq<CallRecord>)
    requires
        backend_sums_up(b, records),
    ensures
        b.success_count + b.failure_count == b.total_calls,
        b.total_tool_calls <= b.total_calls,
        forall|i: int|
            0 <= i < b.tools@.len() ==> (#[trigger] b.tools@[i]).success_count + b.tools@[i].failure_count
                == b.tools@[i].call_count,
{
    records.lemma_filter_len(in_group(Key::Method, TOOL_CALL@));
}

/// What the summary of the calls of one tool says.
pub open spec fn tool_data_of(name: Seq<char>, calls: Seq<CallRecord>) -> ToolData {
    ToolData {
        name,
        call_count: calls.len() as usize,
        success_count: measured(calls, Measure::Successes) as usize,
        failure_count: (calls.len() - measured(calls, Measure::Successes)) as usize,
        total_input_bytes: measured(calls, Measure::RequestBytes) as usize,
        total_output_bytes: measured(calls, Measure::ResponseBytes) as usize,
        estimated_input_tokens: measured(calls, Measure::InputTokens) as usize,
        estimated_output_tokens: measured(calls, Measure::OutputTokens) as usize,
        latency: latency_stats(latencies(calls)),
    }
}

/// What the summary of the calls of one method says.
pub open spec fn method_data_of(method: Seq<char>, calls: Seq<CallRecord>) -> MethodData {
    MethodData {
        method,
        call_count: calls.len() as usize,
        total_input_bytes: measured(calls, Measure::RequestBytes) as usize,
        total_output_bytes: measured(calls, Measure::ResponseBytes) as usize,
        estimated_input_tokens: measured(calls, Measure::InputTokens) as usize,
        estimated_output_tokens: measured(calls, Measure::OutputTokens) as usize,
        latency: latency_stats(latencies(calls)),
    }
}

/// Counts, sums and latencies do not depend on the order of the records.
proof fn lemma_reordered_records(a: Seq<CallRecord>, b: Seq<CallRecord>)
    requires
        a.to_multiset() == b.to_multiset(),
    ensures
        a.len() == b.len(),
        forall|m: Measure| #[trigger] measured(a, m) == measured(b, m),
        latency_stats(latencies(a)) == latency_stats(latencies(b)),
{
    a.to_multiset_ensures();
    b.to_multiset_ensures();
    assert forall|m: Measure| #[trigger] measured(a, m) == measured(b, m) by {
        lemma_total_reordered(a, b, share(m));
    }
    lemma_reordered_map(a, b, |r: CallRecord| r.latency_us);
    law_stats_ignore_order(latencies(a), latencies(b));
}

/// The names of the groups do not depend on the order of the records.
proof fn lemma_reordered_names(
    s: Seq<Seq<char>>,
    t: Seq<Seq<char>>,
    a: Seq<CallRecord>,
    b: Seq<CallRecord>,
    key: Key,
)
    requires
        a.to_multiset() == b.to_multiset(),
        lists_groups(s, a, key),
        lists_groups(t, b, key),
    ensures
        s.to_multiset() == t.to_multiset(),
{
    assert forall|n: Seq<char>| #[trigger] s.contains(n) == t.contains(n) by {
        if has_group(a, key, n) {
            let i = choose|i: int| 0 <= i < a.len() && key_of(#[trigger] a[i], key) == Some(n);
            lemma_reordered_contains(a, b, a[i]);
            let j = choose|j: int| 0 <= j < b.len() && b[j] == a[i];
            assert(key_of(b[j], key) == Some(n));
        }
        if has_group(b, key, n) {
            let i = choose|i: int| 0 <= i < b.len() && key_of(#[trigger] b[i], key) == Some(n);
            lemma_reordered_contains(a, b, b[i]);
            let j = choose|j: int| 0 <= j < a.len() && a[j] == b[i];
            assert(key_of(a[j], key) == Some(n));
        }
        assert(s.contains(n) == has_group(a, key, n));
        assert(t.contains(n) == has_group(b, key, n));
    }
    lemma_same_elements(s, t);
}

/// Two lists of tools hold the same entries, and differ in order at most among
/// tools with equally many calls.
pub open spec fn same_tools(a: Seq<ToolSummary>, b: Seq<ToolSummary>) -> bool {
    &&& tools_data(a).to_multiset() == tools_data(b).to_multiset()
    &&& a.len() == b.len()
    &&& forall|i: int| 0 <= i < a.len() ==> (#[trigger] a[i]).call_count == b[i].call_count
}

/// Two lists of methods hold the same entries, and differ in order at most among
/// methods with equally many calls.
pub open spec fn same_methods(a: Seq<MethodSummary>, b: Seq<MethodSummary>) -> bool {
    &&& methods_data(a).to_multiset() == methods_data(b).to_multiset()
    &&& a.len() == b.len()
    &&& forall|i: int| 0 <= i < a.len() ==> (#[trigger] a[i]).call_count == b[i].call_count
}

/// The breakdown by tool does not depend on the order of the calls.
proof fn lemma_reordered_tools(
    s: Seq<ToolSummary>,
    t: Seq<ToolSummary>,
    a: Seq<CallRecord>,
    b: Seq<CallRecord>,
)
    requires
        a.to_multiset() == b.to_multiset(),
        tools_break_down(s, a),
        tools_break_down(t, b),
    ensures
        same_tools(s, t),
{
    let data = |n: Seq<char>| tool_data_of(n, group(a, Key::Tool, n));
    lemma_reordered_names(tool_names(s), tool_names(t), a, b, Key::Tool);
    lemma_reordered_map(tool_names(s), tool_names(t), data);
    assert forall|i: int| 0 <= i < s.len() implies data(tool_names(s)[i]) == #[trigger] tools_data(s)[i] by {
        assert(tool_sums_up(s[i], group(a, Key::Tool, s[i].name@)));
    }
    assert(tool_names(s).map_values(data) =~= tools_data(s));
    assert forall|i: int| 0 <= i < t.len() implies data(tool_names(t)[i]) == #[trigger] tools_data(t)[i] by {
        let name = t[i].name@;
        assert(tool_sums_up(t[i], group(b, Key::Tool, name)));
        lemma_reordered_filter(a, b, in_group(Key::Tool, name));
        lemma_reordered_records(group(a, Key::Tool, name), group(b, Key::Tool, name));
    }
    assert(tool_names(t).map_values(data) =~= tools_data(t));
    let count = |d: ToolData| d.call_count;
    let x = tools_data(s).map_values(count);
    let y = tools_data(t).map_values(count);
    lemma_reordered_map(tools_data(s), tools_data(t), count);
    assert forall|i: int, j: int| 0 <= i < j < x.len() implies x[i] >= x[j] by {
        assert(s[i].call_count >= s[j].call_count);
    }
    assert forall|i: int, j: int| 0 <= i < j < y.len() implies y[i] >= y[j] by {
        assert(t[i].call_count >= t[j].call_count);
    }
    lemma_descending_unique(x, y);
    assert(x.len() == s.len() && y.len() == t.len());
    assert forall|i: int| 0 <= i < s.len() implies (#[trigger] s[i]).call_count == t[i].call_count by {
        assert(x[i] == s[i].call_count && y[i] == t[i].call_count);
    }
}

/// The breakdown by method does not depend on the order of the calls.
proof fn lemma_reordered_methods(
    s: Seq<MethodSummary>,
    t: Seq<MethodSummary>,
    a: Seq<CallRecord>,
    b: Seq<CallRecord>,
)
    requires
        a.to_multiset() == b.to_multiset(),
        methods_break_down(s, a),
        methods_break_down(t, b),
    ensures
        same_methods(s, t),
{
    let data = |n: Seq<char>| method_data_of(n, group(a, Key::Method, n));
    lemma_reordered_names(method_names(s), method_names(t), a, b, Key::Method);
    lemma_reordered_map(method_names(s), method_names(t), data);
    assert forall|i: int| 0 <= i < s.len() implies data(method_names(s)[i]) == #[trigger] methods_data(s)[i] by {
        assert(method_sums_up(s[i], group(a, Key::Method, s[i].method@)));
    }
    assert(method_names(s).map_values(data) =~= methods_data(s));
    assert forall|i: int| 0 <= i < t.len() implies data(method_names(t)[i]) == #[trigger] methods_data(t)[i] by {
        let name = t[i].method@;
        assert(method_sums_up(t[i], group(b, Key::Method, name)));
        lemma_reordered_filter(a, b, in_group(Key::Method, name));
        lemma_reordered_records(group(a, Key::Method, name), group(b, Key::Method, name));
    }
    assert(method_names(t).map_values(data) =~= methods_data(t));
    let count = |d: MethodData| d.call_count;
    let x = methods_data(s).map_values(count);
    let y = methods_data(t).map_values(count);
    lemma_reordered_map(methods_data(s), methods_data(t), count);
    assert forall|i: int, j: int| 0 <= i < j < x.len() implies x[i] >= x[j] by {
        assert(s[i].call_count >= s[j].call_count);
    }
    assert forall|i: int, j: int| 0 <= i < j < y.len() implies y[i] >= y[j] by {
        assert(t[i].call_count >= t[j].call_count);
    }
    lemma_descending_unique(x, y);
    assert(x.len() == s.len() && y.len() == t.len());
    assert forall|i: int| 0 <= i < s.len() implies (#[trigger] s[i]).call_count == t[i].call_count by {
        assert(x[i] == s[i].call_count && y[i] == t[i].call_count);
    }
}

/// Two summaries agree in all figures, and in the entries for tools and methods
/// up to the order of entries with equally many calls.
pub open spec fn same_summary(a: BackendSummary, b: BackendSummary) -> bool {
    &&& same_figures(a, b)
    &&& same_tools(a.tools@, b.tools@)
    &&& same_methods(a.methods@, b.methods@)
}

/// The summary of a backend does not depend on the order in which its calls were
/// recorded, but for the order of tools and of methods with equally many calls.
pub proof fn law_summary_ignores_order(
    s: BackendSummary,
    t: BackendSummary,
    a: Seq<CallRecord>,
    b: Seq<CallRecord>,
)
    requires
        a.to_multiset() == b.to_multiset(),
        backend_sums_up(s, a),
        backend_sums_up(t, b),
    ensures
        same_summary(s, t),
{
    lemma_reordered_records(a, b);
    assert(measured(a, Measure::Successes) == measured(b, Measure::Successes));
    assert(measured(a, Measure::RequestBytes) == measured(b, Measure::RequestBytes));
    assert(measured(a, Measure::ResponseBytes) == measured(b, Measure::ResponseBytes));
    assert(measured(a, Measure::InputTokens) == measured(b, Measure::InputTokens));
    assert(measured(a, Measure::OutputTokens) == measured(b, Measure::OutputTokens));
    lemma_reordered_filter(a, b, in_group(Key::Method, TOOL_CALL@));
    lemma_reordered_records(tool_calls(a), tool_calls(b));
    lemma_reordered_tools(s.tools@, t.tools@, tool_calls(a), tool_calls(b));
    lemma_reordered_methods(s.methods@, t.methods@, a, b);
}

/// The order of names, taken as "before or the same".
spec fn not_after() -> spec_fn(Seq<char>, Seq<char>) -> bool {
    |a: Seq<char>, b: Seq<char>| a == b || text_less(a, b)
}

/// Names are ordered totally.
proof fn lemma_not_after_is_total()
    ensures
        vstd::relations::total_ordering(not_after()),
{
    let leq = not_after();
    assert forall|a: Seq<char>, b: Seq<char>| #[trigger] leq(a, b) && #[trigger] leq(b, a) implies a == b by {
        if a != b {
            crate::text::law_text_less_total(a, b);
        }
    }
    assert forall|a: Seq<char>, b: Seq<char>, c: Seq<char>| #[trigger]
        leq(a, b) && #[trigger] leq(b, c) implies leq(a, c) by {
        if a != b && b != c {
            crate::text::law_bytes_less_transitive(
                vstd::utf8::encode_utf8(a),
                vstd::utf8::encode_utf8(b),
                vstd::utf8::encode_utf8(c),
            );
        }
    }
    assert forall|a: Seq<char>, b: Seq<char>| #[trigger] leq(a, b) || #[trigger] leq(b, a) by {
        if a != b {
            crate::text::law_text_less_total(a, b);
        }
    }
}

/// The backends of a report do not depend on the order of the records: the same
/// names in the same order, and the same summaries up to ties.
pub proof fn law_backends_ignore_order(
    s: Seq<BackendSummary>,
    t: Seq<BackendSummary>,
    a: Seq<CallRecord>,
    b: Seq<CallRecord>,
)
    requires
        a.to_multiset() == b.to_multiset(),
        backends_break_down(s, a),
        backends_break_down(t, b),
    ensures
        backend_names(s) == backend_names(t),
        forall|i: int| 0 <= i < s.len() ==> same_summary(#[trigger] s[i], t[i]),
{
    let x = backend_names(s);
    let y = backend_names(t);
    lemma_reordered_names(x, y, a, b, Key::Backend);
    lemma_not_after_is_total();
    assert forall|i: int, j: int| 0 <= i < j < x.len() implies #[trigger] not_after()(x[i], x[j]) by {
        assert(text_less(s[i].name@, s[j].name@));
    }
    assert forall|i: int, j: int| 0 <= i < j < y.len() implies #[trigger] not_after()(y[i], y[j]) by {
        assert(text_less(t[i].name@, t[j].name@));
    }
    vstd::seq_lib::lemma_sorted_unique(x, y, not_after());
    assert(x.len() == s.len() && y.len() == t.len());
    assert forall|i: int| 0 <= i < s.len() implies same_summary(#[trigger] s[i], t[i]) by {
        let name = s[i].name@;
        assert(x[i] == name && y[i] == t[i].name@);
        assert(backend_sums_up(t[i], group(b, Key::Backend, t[i].name@)));
        lemma_reordered_filter(a, b, in_group(Key::Backend, name));
        law_summary_ignores_order(s[i], t[i], group(a, Key::Backend, name), group(b, Key::Backend, name));
    }
}

/// Two reports on one store, with nothing recorded between them, agree: the same
/// records, the same start, the same backends up to ties, each under the session
/// identifier it was asked for. Where the clock did not run back between them,
/// the second is on a session that is at least as long.
pub proof fn law_reports_agree(
    store: MetricsStore,
    first: BenchmarkReport,
    second: BenchmarkReport,
    first_id: Seq<char>,
    second_id: Seq<char>,
    first_end: Instant,
    second_end: Instant,
)
    requires
        store.reports(first, first_id, first_end),
        store.reports(second, second_id, second_end),
    ensures
        first.records@ == second.records@,
        first.records@ == store.records@,
        first.started_at == second.started_at,
        backend_names(first.backends@) == backend_names(second.backends@),
        forall|i: int|
            0 <= i < first.backends@.len() ==> same_summary(#[trigger] first.backends@[i], second.backends@[i]),
        first.session_id@ == first_id,
        second.session_id@ == second_id,
        reading(first_end) <= reading(second_end) ==> first.duration.total_nanos() <= second.duration.total_nanos(),
{
    law_backends_ignore_order(first.backends@, second.backends@, store.records@, store.records@);
}

/// A group is all the records of the name, in the order of recording, and no
/// others: a backend's by the backend, a method's by the method, a tool's by the
/// tool where the record names one.
pub proof fn law_groups(records: Seq<CallRecord>, name: Seq<char>)
    ensures
        group(records, Key::Backend, name) == records.filter(|r: CallRecord| r.backend@ == name),
        group(records, Key::Method, name) == records.filter(|r: CallRecord| r.method@ == name),
        group(records, Key::Tool, name) == records.filter(
            |r: CallRecord| r.tool_name is Some && r.tool_name->0@ == name,
        ),
{
    let by_backend = |r: CallRecord| r.backend@ == name;
    let by_method = |r: CallRecord| r.method@ == name;
    let by_tool = |r: CallRecord| r.tool_name is Some && r.tool_name->0@ == name;
    assert(in_group(Key::Backend, name) =~= by_backend);
    assert(in_group(Key::Method, name) =~= by_method);
    assert(in_group(Key::Tool, name) =~= by_tool);
}

/// Successes are the records whose flag is set, and the others have it not set.
proof fn lemma_success_counts(records: Seq<CallRecord>)
    ensures
        measured(records, Measure::Successes) == records.filter(|r: CallRecord| r.success).len(),
        records.len() - measured(records, Measure::Successes) == records.filter(|r: CallRecord| !r.success).len(),
    decreases records.len(),
{
    reveal(Seq::filter);
    if records.len() > 0 {
        lemma_success_counts(records.drop_last());
    }
}

/// Sums are sums of the fields they are named after.
proof fn lemma_measures(records: Seq<CallRecord>)
    ensures
        measured(records, Measure::RequestBytes) == total(records, |r: CallRecord| r.request_bytes as nat),
        measured(records, Measure::ResponseBytes) == total(records, |r: CallRecord| r.response_bytes as nat),
        measured(records, Measure::InputTokens) == total(records, |r: CallRecord| r.estimated_input_tokens as nat),
        measured(records, Measure::OutputTokens) == total(records, |r: CallRecord| r.estimated_output_tokens as nat),
        latencies(records) == Seq::new(records.len(), |i: int| records[i].latency_us),
{
    lemma_total_same(records, share(Measure::RequestBytes), |r: CallRecord| r.request_bytes as nat);
    lemma_total_same(records, share(Measure::ResponseBytes), |r: CallRecord| r.response_bytes as nat);
    lemma_total_same(records, share(Measure::InputTokens), |r: CallRecord| r.estimated_input_tokens as nat);
    lemma_total_same(records, share(Measure::OutputTokens), |r: CallRecord| r.estimated_output_tokens as nat);
    assert(latencies(records) =~= Seq::new(records.len(), |i: int| records[i].latency_us));
}

/// What the figures of a backend count and add up: calls and tool calls by their
/// number, successes and failures by the flag of each record, bytes and tokens by
/// the fields of each record, and latencies of all calls and of the tool calls.
pub proof fn law_backend_figures(b: BackendSummary, records: Seq<CallRecord>)
    requires
        backend_sums_up(b, records),
    ensures
        b.total_calls == records.len(),
        b.total_tool_calls == records.filter(|r: CallRecord| r.method@ == "tools/call"@).len(),
        b.success_count == records.filter(|r: CallRecord| r.success).len(),
        b.failure_count == records.filter(|r: CallRecord| !r.success).len(),
        b.total_input_bytes == total(records, |r: CallRecord| r.request_bytes as nat),
        b.total_output_bytes == total(records, |r: CallRecord| r.response_bytes as nat),
        b.total_bytes == b.total_input_bytes + b.total_output_bytes,
        b.estimated_input_tokens == total(records, |r: CallRecord| r.estimated_input_tokens as nat),
        b.estimated_output_tokens == total(records, |r: CallRecord| r.estimated_output_tokens as nat),
        b.estimated_total_tokens == b.estimated_input_tokens + b.estimated_output_tokens,
        b.overall_latency == latency_stats(Seq::new(records.len(), |i: int| records[i].latency_us)),
        ({
            let calls = records.filter(|r: CallRecord| r.method@ == "tools/call"@);
            b.tool_call_latency == latency_stats(Seq::new(calls.len(), |i: int| calls[i].latency_us))
        }),
{
    let is_tool_call = |r: CallRecord| r.method@ == "tools/call"@;
    assert(in_group(Key::Method, "tools/call"@) =~= is_tool_call);
    lemma_success_counts(records);
    lemma_measures(records);
    lemma_measures(tool_calls(records));
}

/// What the figures of a tool count and add up: the tool calls that name it, each
/// of which there is, and nothing else.
pub proof fn law_tool_figures(b: BackendSummary, records: Seq<CallRecord>, i: int, name: Seq<char>)
    requires
        backend_sums_up(b, records),
        0 <= i < b.tools@.len(),
        name == b.tools@[i].name@,
    ensures
        ({
            let t = b.tools@[i];
            let calls = records.filter(|r: CallRecord| r.method@ == "tools/call"@).filter(
                |r: CallRecord| r.tool_name is Some && r.tool_name->0@ == name,
            );
            &&& t.call_count == calls.len()
            &&& t.call_count > 0
            &&& t.success_count == calls.filter(|r: CallRecord| r.success).len()
            &&& t.failure_count == calls.filter(|r: CallRecord| !r.success).len()
            &&& t.total_input_bytes == total(calls, |r: CallRecord| r.request_bytes as nat)
            &&& t.total_output_bytes == total(calls, |r: CallRecord| r.response_bytes as nat)
            &&& t.estimated_input_tokens == total(calls, |r: CallRecord| r.estimated_input_tokens as nat)
            &&& t.estimated_output_tokens == total(calls, |r: CallRecord| r.estimated_output_tokens as nat)
            &&& t.latency == latency_stats(Seq::new(calls.len(), |k: int| calls[k].latency_us))
        }),
{
    let t = b.tools@[i];
    let is_tool_call = |r: CallRecord| r.method@ == "tools/call"@;
    assert(in_group(Key::Method, "tools/call"@) =~= is_tool_call);
    let by_tool = |r: CallRecord| r.tool_name is Some && r.tool_name->0@ == name;
    assert(in_group(Key::Tool, name) =~= by_tool);
    let calls = group(tool_calls(records), Key::Tool, name);
    assert(tool_sums_up(t, calls));
    lemma_success_counts(calls);
    lemma_measures(calls);
    assert(tool_names(b.tools@)[i] == t.name@);
    assert(tool_names(b.tools@).contains(t.name@));
    lemma_some_in_group(tool_calls(records), Key::Tool, t.name@);
}

/// What the figures of a method count and add up: the calls of that method, and
/// nothing else.
pub proof fn law_method_figures(b: BackendSummary, records: Seq<CallRecord>, i: int, method: Seq<char>)
    requires
        backend_sums_up(b, records),
        0 <= i < b.methods@.len(),
        method == b.methods@[i].method@,
    ensures
        ({
            let m = b.methods@[i];
            let calls = records.filter(|r: CallRecord| r.method@ == method);
            &&& m.call_count == calls.len()
            &&& m.call_count > 0
            &&& m.total_input_bytes == total(calls, |r: CallRecord| r.request_bytes as nat)
            &&& m.total_output_bytes == total(calls, |r: CallRecord| r.response_bytes as nat)
            &&& m.estimated_input_tokens == total(calls, |r: CallRecord| r.estimated_input_tokens as nat)
            &&& m.estimated_output_tokens == total(calls, |r: CallRecord| r.estimated_output_tokens as nat)
            &&& m.latency == latency_stats(Seq::new(calls.len(), |k: int| calls[k].latency_us))
        }),
{
    let m = b.methods@[i];
    let by_method = |r: CallRecord| r.method@ == method;
    assert(in_group(Key::Method, method) =~= by_method);
    let calls = group(records, Key::Method, method);
    assert(method_sums_up(m, calls));
    lemma_measures(calls);
    assert(method_names(b.methods@)[i] == m.method@);
    assert(method_names(b.methods@).contains(m.method@));
    lemma_some_in_group(records, Key::Method, m.method@);
}

/// A group that some record is in is not empty.
proof fn lemma_some_in_group(records: Seq<CallRecord>, key: Key, name: Seq<char>)
    requires
        has_group(records, key, name),
    ensures
        group(records, key, name).len() > 0,
{
    let k = choose|k: int| 0 <= k < records.len() && key_of(#[trigger] records[k], key) == Some(name);
    records.lemma_filter_contains(in_group(key, name), k);
}

/// Every method that was called has one entry, and every tool that a tool call
/// names; entries with more calls come first.
pub proof fn law_entries(b: BackendSummary, records: Seq<CallRecord>, k: int, i: int, j: int)
    requires
        backend_sums_up(b, records),
        0 <= k < records.len(),
    ensures
        exists|e: int| 0 <= e < b.methods@.len() && (#[trigger] b.methods@[e]).method@ == records[k].method@,
        records[k].method@ == "tools/call"@ && records[k].tool_name is Some ==> exists|e: int|
            0 <= e < b.tools@.len() && (#[trigger] b.tools@[e]).name@ == records[k].tool_name->0@,
        0 <= i < j < b.methods@.len() ==> b.methods@[i].method@ != b.methods@[j].method@
            && b.methods@[i].call_count >= b.methods@[j].call_count,
        0 <= i < j < b.tools@.len() ==> b.tools@[i].name@ != b.tools@[j].name@ && b.tools@[i].call_count
            >= b.tools@[j].call_count,
{
    let methods = method_names(b.methods@);
    assert(key_of(records[k], Key::Method) == Some(records[k].method@));
    assert(has_group(records, Key::Method, records[k].method@));
    assert(methods.contains(records[k].method@));
    let e = choose|e: int| 0 <= e < methods.len() && methods[e] == records[k].method@;
    assert(b.methods@[e].method@ == records[k].method@);
    let tools = tool_names(b.tools@);
    if records[k].method@ == "tools/call"@ && records[k].tool_name is Some {
        let name = records[k].tool_name->0@;
        records.lemma_filter_contains(in_group(Key::Method, TOOL_CALL@), k);
        let calls = tool_calls(records);
        let c = choose|c: int| 0 <= c < calls.len() && calls[c] == records[k];
        assert(key_of(calls[c], Key::Tool) == Some(name));
        assert(has_group(calls, Key::Tool, name));
        assert(tools.contains(name));
        let e = choose|e: int| 0 <= e < tools.len() && tools[e] == name;
        assert(b.tools@[e].name@ == name);
    }
    if 0 <= i < j < b.methods@.len() {
        assert(methods[i] != methods[j]);
        assert(b.methods@[i].call_count >= b.methods@[j].call_count);
    }
    if 0 <= i < j < b.tools@.len() {
        assert(tools[i] != tools[j]);
        assert(b.tools@[i].call_count >= b.tools@[j].call_count);
    }
}

/// Every backend that served a call has one summary, of its own calls alone, and
/// the summaries come in the order of the names.
pub proof fn law_backends(
    backends: Seq<BackendSummary>,
    records: Seq<CallRecord>,
    k: int,
    i: int,
    j: int,
    name: Seq<char>,
)
    requires
        backends_break_down(backends, records),
        0 <= k < records.len(),
    ensures
        exists|e: int| 0 <= e < backends.len() && (#[trigger] backends[e]).name@ == records[k].backend@,
        0 <= i < backends.len() && backends[i].name@ == name ==> backends[i].total_calls > 0 && backend_sums_up(
            backends[i],
            records.filter(|r: CallRecord| r.backend@ == name),
        ),
        0 <= i < j < backends.len() ==> text_less(backends[i].name@, backends[j].name@),
{
    let names = backend_names(backends);
    assert(key_of(records[k], Key::Backend) == Some(records[k].backend@));
    assert(has_group(records, Key::Backend, records[k].backend@));
    assert(names.contains(records[k].backend@));
    let e = choose|e: int| 0 <= e < names.len() && names[e] == records[k].backend@;
    assert(backends[e].name@ == records[k].backend@);
    if 0 <= i < backends.len() && backends[i].name@ == name {
        let by_backend = |r: CallRecord| r.backend@ == name;
        assert(in_group(Key::Backend, name) =~= by_backend);
        assert(backend_sums_up(backends[i], group(records, Key::Backend, backends[i].name@)));
        assert(names[i] == backends[i].name@);
        assert(names.contains(backends[i].name@));
        lemma_some_in_group(records, Key::Backend, backends[i].name@);
    }
    if 0 <= i < j < backends.len() {
        assert(text_less(backends[i].name@, backends[j].name@));
    }
}

/// Without records there is no backend to report on.
pub proof fn law_empty_report(backends: Seq<BackendSummary>)
    requires
        backends_break_down(backends, seq![]),
    ensures
        backends.len() == 0,
{
    if backends.len() > 0 {
        assert(backend_names(backends)[0] == backends[0].name@);
        assert(backend_names(backends).contains(backends[0].name@));
        assert(has_group(seq![], Key::Backend, backends[0].name@));
    }
}

/// What one more record does to a store.
pub proof fn law_recording(records: Seq<CallRecord>, dropped: nat, rec: CallRecord)
    ensures
        records.len() < 500_000 ==> recorded(records, dropped, rec) == (records.push(rec), dropped),
        records.len() >= 500_000 ==> recorded(records, dropped, rec) == (records, dropped + 1),
{
}

/// A report can be made wherever all bytes, all tokens and all latencies of a
/// session can be added up, and only where those of each backend can.
pub proof fn law_what_can_be_reported(records: Seq<CallRecord>, name: Seq<char>)
    ensures
        total(records, |r: CallRecord| r.request_bytes as nat) + total(
            records,
            |r: CallRecord| r.response_bytes as nat,
        ) <= usize::MAX && total(records, |r: CallRecord| r.estimated_input_tokens as nat) + total(
            records,
            |r: CallRecord| r.estimated_output_tokens as nat,
        ) <= usize::MAX && total(
            Seq::new(records.len(), |i: int| records[i].latency_us),
            |x: u64| x as nat,
        ) <= u64::MAX ==> reportable(records),
        reportable(records) ==> ({
            let own = records.filter(|r: CallRecord| r.backend@ == name);
            &&& total(own, |r: CallRecord| r.request_bytes as nat) + total(
                own,
                |r: CallRecord| r.response_bytes as nat,
            ) <= usize::MAX
            &&& total(own, |r: CallRecord| r.estimated_input_tokens as nat) + total(
                own,
                |r: CallRecord| r.estimated_output_tokens as nat,
            ) <= usize::MAX
            &&& total(Seq::new(own.len(), |i: int| own[i].latency_us), |x: u64| x as nat) <= u64::MAX
        }),
{
    let own = group(records, Key::Backend, name);
    law_groups(records, name);
    lemma_measures(records);
    lemma_measures(own);
    lemma_total_same(latencies(records), micros(), |x: u64| x as nat);
    lemma_total_same(latencies(own), micros(), |x: u64| x as nat);
    if sums_fit(records) {
        assert forall|n: Seq<char>| sums_fit(#[trigger] group(records, Key::Backend, n)) by {
            lemma_group_fits(records, Key::Backend, n);
        }
    }
    if reportable(records) {
        assert(sums_fit(own));
    }
}

/// What a record says of a call: each thing it was given, the size of the answer,
/// and whether there was one.
pub proof fn law_record_fields(
    rec: CallRecord,
    backend: Seq<char>,
    method: Seq<char>,
    tool_name: Option<Seq<char>>,
    resource_uri: Option<Seq<char>>,
    prompt_name: Option<Seq<char>>,
    request_bytes: usize,
    result: Result<serde_json::Value, String>,
)
    requires
        describes_call(rec, backend, method, tool_name, resource_uri, prompt_name, request_bytes, result),
    ensures
        rec.backend@ == backend,
        rec.method@ == method,
        rec.tool_name is Some <==> tool_name is Some,
        rec.tool_name is Some ==> rec.tool_name->0@ == tool_name->0,
        rec.resource_uri is Some <==> resource_uri is Some,
        rec.resource_uri is Some ==> rec.resource_uri->0@ == resource_uri->0,
        rec.prompt_name is Some <==> prompt_name is Some,
        rec.prompt_name is Some ==> rec.prompt_name->0@ == prompt_name->0,
        rec.request_bytes == request_bytes,
        rec.success <==> result is Ok,
        rec.error_message is Some <==> result is Err,
        result matches Err(m) ==> rec.error_message->0@ == m@ && rec.response_bytes == 0,
        result matches Ok(v) ==> (match crate::json::json_text(crate::json::contents(v)) {
            Some(t) => rec.response_bytes == vstd::utf8::encode_utf8(t).len() as usize,
            None => rec.response_bytes == 0,
        }),
        4 * rec.estimated_input_tokens >= crate::rounding::nearest_binary64(request_bytes as nat),
        4 * rec.estimated_input_tokens < crate::rounding::nearest_binary64(request_bytes as nat) + 4,
        4 * rec.estimated_output_tokens >= crate::rounding::nearest_binary64(rec.response_bytes as nat),
        4 * rec.estimated_output_tokens < crate::rounding::nearest_binary64(rec.response_bytes as nat) + 4,
{
    crate::tokens::law_estimate_rounds_up(request_bytes as nat);
    crate::tokens::law_estimate_rounds_up(rec.response_bytes as nat);
}

/// What a report says of a session: which, from when, for how long, and of which
/// records.
pub proof fn law_report_fields(store: MetricsStore, r: BenchmarkReport, session_id: Seq<char>, now: Instant)
    requires
        store.reports(r, session_id, now),
    ensures
        r.session_id@ == session_id,
        r.started_at == store.session_start_utc,
        r.ended_at.nanos < 2_000_000_000,
        r.records@ == store.records@,
        backends_break_down(r.backends@, store.records@),
        reading(now) >= reading(store.session_start) ==> r.duration.total_nanos() == reading(now) - reading(
            store.session_start,
        ),
        reading(now) < reading(store.session_start) ==> r.duration.total_nanos() == 0,
{
}

/// A copy has every figure of what it is a copy of.
pub proof fn law_copies(a: BackendSummary, b: BackendSummary)
    requires
        is_copy(a, b),
    ensures
        a.name@ == b.name@,
        a.total_calls == b.total_calls,
        a.total_tool_calls == b.total_tool_calls,
        a.success_count == b.success_count,
        a.failure_count == b.failure_count,
        a.total_input_bytes == b.total_input_bytes,
        a.total_output_bytes == b.total_output_bytes,
        a.total_bytes == b.total_bytes,
        a.estimated_input_tokens == b.estimated_input_tokens,
        a.estimated_output_tokens == b.estimated_output_tokens,
        a.estimated_total_tokens == b.estimated_total_tokens,
        a.overall_latency == b.overall_latency,
        a.tool_call_latency == b.tool_call_latency,
        a.tools@ == b.tools@,
        a.methods@ == b.methods@,
{
}

/// Summaries of tools and methods say what they hold, and come in their order.
pub proof fn law_views(t: ToolSummary, m: MethodSummary, tools: Seq<ToolSummary>, methods: Seq<MethodSummary>, i: int)
    ensures
        t@.name == t.name@,
        t@.call_count == t.call_count,
        t@.success_count == t.success_count,
        t@.failure_count == t.failure_count,
        t@.total_input_bytes == t.total_input_bytes,
        t@.total_output_bytes == t.total_output_bytes,
        t@.estimated_input_tokens == t.estimated_input_tokens,
        t@.estimated_output_tokens == t.estimated_output_tokens,
        t@.latency == t.latency,
        m@.method == m.method@,
        m@.call_count == m.call_count,
        m@.total_input_bytes == m.total_input_bytes,
        m@.total_output_bytes == m.total_output_bytes,
        m@.estimated_input_tokens == m.estimated_input_tokens,
        m@.estimated_output_tokens == m.estimated_output_tokens,
        m@.latency == m.latency,
        tools_data(tools).len() == tools.len(),
        methods_data(methods).len() == methods.len(),
        0 <= i < tools.len() ==> tools_data(tools)[i] == tools[i]@,
        0 <= i < methods.len() ==> methods_data(methods)[i] == methods[i]@,
{
}

/// References stand for the records they refer to, one by one.
pub proof fn law_records_of(refs: Seq<&CallRecord>, i: int)
    ensures
        records_of(refs).len() == refs.len(),
        0 <= i < refs.len() ==> records_of(refs)[i] == *refs[i],
{
}

/// A record that is timed from `start` has the time since then as its latency, in
/// whole microseconds, and a timestamp that is a point in time.
pub proof fn law_timed_from(rec: CallRecord, start: Instant)
    requires
        timed_from(rec, start),
    ensures
        exists|now: Instant|
            {
                &&& rec.latency_us == (#[trigger] span_between(start, now)).capped()
                &&& rec.latency_us == crate::clock::capped_micros_in(nanos_between(start, now))
                &&& reading(now) >= reading(start) ==> 1000 * rec.latency_us <= reading(now) - reading(start)
                &&& reading(now) < reading(start) ==> rec.latency_us == 0
            },
        rec.timestamp.nanos < 2_000_000_000,
{
    let now = choose|now: Instant|
        {
            &&& rec.latency_us == (#[trigger] span_between(start, now)).capped()
            &&& span_between(start, now).total_nanos() == nanos_between(start, now)
        };
    crate::clock::law_capped_micros(nanos_between(start, now));
    assert(rec.latency_us == span_between(start, now).capped());
}

/// An optional borrowed text is the text, where there is one.
pub proof fn law_option_str(s: Option<&str>)
    ensures
        s is None <==> option_str(s) is None,
        s is Some ==> option_str(s) == Some(s->0@),
{
}

} // verus!
