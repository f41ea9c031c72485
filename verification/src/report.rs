//! The terminal report: how numbers are written, and which lines and tables a
//! report consists of.
use crate::metrics::{BackendSummary, MethodSummary, ToolSummary};
use crate::rounding::{divide_half_even, nearest_binary64, round_half_even, to_binary64};
use crate::text::{decimal, decimal_string, digit, push_decimal, texts};
use vstd::prelude::*;
use vstd::string::*;
use vstd::utf8::{decode_utf8, encode_utf8, is_ascii_chars, is_char_boundary};

verus! {

// --- Numbers ---

/// The last three decimal digits of `n`.
pub open spec fn last_three(n: nat) -> Seq<char> {
    seq![digit(n / 100 % 10), digit(n / 10 % 10), digit(n % 10)]
}

/// `n` in decimal notation, with commas between groups of three digits.
pub open spec fn grouped(n: nat) -> Seq<char>
    decreases n,
{
    if n < 1000 {
        decimal(n)
    } else {
        grouped(n / 1000).push(',') + last_three(n)
    }
}

/// Append `n`, with commas between groups of three digits.
fn push_grouped(out: &mut String, n: u64)
    ensures
        final(out)@ == old(out)@ + grouped(n as nat),
    decreases n,
{
    if n < 1000 {
        push_decimal(out, n);
    } else {
        push_grouped(out, n / 1000);
        out.push(',');
        push_decimal(out, n / 100 % 10);
        push_decimal(out, n / 10 % 10);
        push_decimal(out, n % 10);
        assert(out@ =~= old(out)@ + grouped(n as nat));
    }
}

/// A number with commas between groups of three digits.
pub fn fmt_num(n: usize) -> (s: String)
    ensures
        s@ == grouped(n as nat),
{
    let mut s: String = String::new();
    push_grouped(&mut s, n as u64);
    assert(s@ =~= grouped(n as nat));
    s
}

/// A number of tenths, with one digit after the point.
pub open spec fn tenths(t: nat) -> Seq<char> {
    decimal(t / 10).push('.').push(digit(t % 10))
}

/// The tenths of `n / unit`, where `n` is taken as a binary64 number.
pub open spec fn tenths_of(n: nat, unit: nat) -> nat {
    round_half_even(10 * nearest_binary64(n), unit)
}

/// A number of bytes in a readable unit: bytes below a kilobyte, kilobytes below
/// a megabyte, megabytes from there, the latter two with one digit after the point.
pub open spec fn byte_text(n: nat) -> Seq<char> {
    if n < 1024 {
        decimal(n) + " B"@
    } else if n < 1024 * 1024 {
        tenths(tenths_of(n, 1024)) + " KB"@
    } else {
        tenths(tenths_of(n, 1024 * 1024)) + " MB"@
    }
}

/// `n / unit` with one digit after the point.
fn fmt_tenths(n: usize, unit: u64) -> (s: String)
    requires
        unit >= 1024,
    ensures
        s@ == tenths(tenths_of(n as nat, unit as nat)),
{
    let v: u128 = to_binary64(n as u64);
    let t: u128 = divide_half_even(10 * v, unit as u128);
    proof {
        assert(t <= 10 * v / 1024 + 1) by {
            vstd::arithmetic::div_mod::lemma_div_is_ordered_by_denominator(10 * v as int, 1024, unit as int);
        }
    }
    let mut s: String = decimal_string((t / 10) as u64);
    s.push('.');
    push_decimal(&mut s, (t % 10) as u64);
    assert(s@ =~= tenths(t as nat));
    s
}

/// A number of bytes in a readable unit.
pub fn fmt_bytes(n: usize) -> (s: String)
    ensures
        s@ == byte_text(n as nat),
{
    if n < 1024 {
        let mut s: String = decimal_string(n as u64);
        s.append(" B");
        s
    } else if n < 1024 * 1024 {
        let mut s: String = fmt_tenths(n, 1024);
        s.append(" KB");
        s
    } else {
        let mut s: String = fmt_tenths(n, 1024 * 1024);
        s.append(" MB");
        s
    }
}

// --- Session identifiers ---

/// How many bytes of a session identifier are shown at most.
pub const SHOWN_BYTES: usize = 8;

/// The last place up to `limit` at which a text may be cut.
pub open spec fn cut_below(bytes: Seq<u8>, limit: nat) -> nat
    decreases limit,
{
    if limit == 0 || is_char_boundary(bytes, limit as int) {
        limit
    } else {
        cut_below(bytes, (limit - 1) as nat)
    }
}

/// The first eight bytes of a session identifier, without a character that they
/// would cut in two, or all of a shorter one.
pub open spec fn session_prefix(id: Seq<char>) -> Seq<char> {
    let bytes = encode_utf8(id);
    if bytes.len() >= SHOWN_BYTES {
        decode_utf8(bytes.subrange(0, cut_below(bytes, SHOWN_BYTES as nat) as int))
    } else {
        id
    }
}

/// The part of a session identifier that is shown.
pub fn short_session_id(id: &str) -> (s: &str)
    ensures
        s@ == session_prefix(id@),
{
    let bytes: &[u8] = id.as_bytes();
    if bytes.len() < SHOWN_BYTES {
        return id;
    }
    proof {
        vstd::utf8::encode_utf8_valid_utf8(id@);
        vstd::utf8::is_char_boundary_start_end_of_seq(encode_utf8(id@));
    }
    let mut at: usize = SHOWN_BYTES;
    while !id.is_char_boundary(at)
        invariant
            at <= SHOWN_BYTES,
            is_char_boundary(encode_utf8(id@), 0),
            cut_below(encode_utf8(id@), at as nat) == cut_below(encode_utf8(id@), SHOWN_BYTES as nat),
        decreases at,
    {
        at = at - 1;
    }
    let (head, _) = id.split_at(at);
    proof {
        vstd::utf8::encode_utf8_decode_utf8(head@);
        assert(encode_utf8(head@) =~= encode_utf8(id@).subrange(0, at as int));
    }
    head
}

// --- What is shown of a report ---

/// Latency figures in milliseconds, as they are shown.
pub struct LatencyText {
    /// Mean, in whole milliseconds.
    pub mean: String,
    /// Median, in whole milliseconds.
    pub p50: String,
    /// 95th percentile, in whole milliseconds.
    pub p95: String,
    /// 99th percentile, in whole milliseconds.
    pub p99: String,
    /// Mean, with one digit after the point.
    pub mean_tenths: String,
    /// 95th percentile, with one digit after the point.
    pub p95_tenths: String,
}

/// What is shown of a tool.
pub struct ToolFigures {
    pub name: String,
    pub call_count: usize,
    /// Share of successful calls, in whole percent.
    pub ok_percent: String,
    pub estimated_input_tokens: usize,
    pub estimated_output_tokens: usize,
    pub latency: Option<LatencyText>,
}

/// What is shown of a method.
pub struct MethodFigures {
    pub method: String,
    pub call_count: usize,
    pub total_input_bytes: usize,
    pub total_output_bytes: usize,
    pub latency: Option<LatencyText>,
}

/// What is shown of a backend.
pub struct BackendFigures {
    pub name: String,
    pub total_calls: usize,
    pub total_tool_calls: usize,
    /// Share of successful calls in percent, with one digit after the point.
    pub success_rate: String,
    pub total_input_bytes: usize,
    pub total_output_bytes: usize,
    pub total_bytes: usize,
    pub estimated_input_tokens: usize,
    pub estimated_output_tokens: usize,
    pub estimated_total_tokens: usize,
    pub latency: Option<LatencyText>,
    pub tools: Vec<ToolFigures>,
    pub methods: Vec<MethodFigures>,
}

/// What is shown of a report.
pub struct ReportFigures {
    pub session_id: String,
    /// Duration in seconds, with one digit after the point.
    pub duration: String,
    /// Number of records.
    pub records: usize,
    pub backends: Vec<BackendFigures>,
}

/// What is shown of a tool, from its summary and the figures that are rounded.
pub fn tool_figures(t: &ToolSummary, ok_percent: String, latency: Option<LatencyText>) -> (f: ToolFigures)
    ensures
        f.name == t.name,
        f.call_count == t.call_count,
        f.ok_percent == ok_percent,
        f.estimated_input_tokens == t.estimated_input_tokens,
        f.estimated_output_tokens == t.estimated_output_tokens,
        f.latency == latency,
{
    ToolFigures {
        name: t.name.clone(),
        call_count: t.call_count,
        ok_percent,
        estimated_input_tokens: t.estimated_input_tokens,
        estimated_output_tokens: t.estimated_output_tokens,
        latency,
    }
}

/// What is shown of a method, from its summary and the figures that are rounded.
pub fn method_figures(m: &MethodSummary, latency: Option<LatencyText>) -> (f: MethodFigures)
    ensures
        f.method == m.method,
        f.call_count == m.call_count,
        f.total_input_bytes == m.total_input_bytes,
        f.total_output_bytes == m.total_output_bytes,
        f.latency == latency,
{
    MethodFigures {
        method: m.method.clone(),
        call_count: m.call_count,
        total_input_bytes: m.total_input_bytes,
        total_output_bytes: m.total_output_bytes,
        latency,
    }
}

/// What is shown of a backend, from its summary, the figures that are rounded,
/// and what is shown of its tools and methods.
pub fn backend_figures(
    b: &BackendSummary,
    success_rate: String,
    latency: Option<LatencyText>,
    tools: Vec<ToolFigures>,
    methods: Vec<MethodFigures>,
) -> (f: BackendFigures)
    ensures
        f.name == b.name,
        f.total_calls == b.total_calls,
        f.total_tool_calls == b.total_tool_calls,
        f.success_rate == success_rate,
        f.total_input_bytes == b.total_input_bytes,
        f.total_output_bytes == b.total_output_bytes,
        f.total_bytes == b.total_bytes,
        f.estimated_input_tokens == b.estimated_input_tokens,
        f.estimated_output_tokens == b.estimated_output_tokens,
        f.estimated_total_tokens == b.estimated_total_tokens,
        f.latency == latency,
        f.tools == tools,
        f.methods == methods,
{
    BackendFigures {
        name: b.name.clone(),
        total_calls: b.total_calls,
        total_tool_calls: b.total_tool_calls,
        success_rate,
        total_input_bytes: b.total_input_bytes,
        total_output_bytes: b.total_output_bytes,
        total_bytes: b.total_bytes,
        estimated_input_tokens: b.estimated_input_tokens,
        estimated_output_tokens: b.estimated_output_tokens,
        estimated_total_tokens: b.estimated_total_tokens,
        latency,
        tools,
        methods,
    }
}

/// How one figure differs from another.
pub enum Change {
    /// There is nothing to compare with.
    Undefined,
    /// No difference worth showing.
    Negligible,
    /// By so much more.
    Up(String),
    /// By so much less; the text has a minus sign.
    Down(String),
}

/// How the figures of two backends differ.
pub struct Deltas {
    pub total_calls: Change,
    pub success_rate: Change,
    pub estimated_total_tokens: Change,
    pub total_bytes: Change,
    pub mean_latency: Change,
    pub p95_latency: Change,
}

/// How a heading is styled.
#[derive(Clone, Copy, PartialEq, Eq, Structural)]
pub enum Style {
    Report,
    Backend,
    Comparison,
}

/// A piece of a printed report.
pub enum Block {
    Blank,
    Line(String),
    Heading(Style, String),
    Table { header: Vec<String>, rows: Vec<Vec<String>> },
}

/// What a piece of a printed report says.
pub enum BlockData {
    Blank,
    Line(Seq<char>),
    Heading(Style, Seq<char>),
    Table(Seq<Seq<char>>, Seq<Seq<Seq<char>>>),
}

/// The cells of table rows.
pub open spec fn rows_data(rows: Seq<Vec<String>>) -> Seq<Seq<Seq<char>>> {
    rows.map_values(|r: Vec<String>| texts(r@))
}

impl View for Block {
    type V = BlockData;

    open spec fn view(&self) -> BlockData {
        match *self {
            Block::Blank => BlockData::Blank,
            Block::Line(t) => BlockData::Line(t@),
            Block::Heading(s, t) => BlockData::Heading(s, t@),
            Block::Table { header, rows } => BlockData::Table(texts(header@), rows_data(rows@)),
        }
    }
}

/// What pieces of a printed report say.
pub open spec fn blocks_data(blocks: Seq<Block>) -> Seq<BlockData> {
    blocks.map_values(|b: Block| b@)
}

// --- Cells ---

/// How a difference is shown.
pub open spec fn change_text(c: Change, unit: Seq<char>) -> Seq<char> {
    match c {
        Change::Undefined => "-"@,
        Change::Negligible => "~0"@ + unit,
        Change::Up(d) => "+"@ + d@ + unit,
        Change::Down(d) => d@ + unit,
    }
}

/// How a difference is shown.
pub fn fmt_change(c: &Change, unit: &str) -> (s: String)
    ensures
        s@ == change_text(*c, unit@),
{
    match c {
        Change::Undefined => "-".to_owned(),
        Change::Negligible => "~0".to_owned().concat(unit),
        Change::Up(d) => "+".to_owned().concat(d.as_str()).concat(unit),
        Change::Down(d) => d.clone().concat(unit),
    }
}

/// An estimated number.
pub open spec fn about(n: nat) -> Seq<char> {
    "~"@ + grouped(n)
}

/// An estimated number.
fn fmt_about(n: usize) -> (s: String)
    ensures
        s@ == about(n as nat),
{
    "~".to_owned().concat(fmt_num(n).as_str())
}

/// Mean and percentiles in one cell.
pub open spec fn latency_inline(l: LatencyText) -> Seq<char> {
    l.mean@ + " / "@ + l.p50@ + " / "@ + l.p95@ + " / "@ + l.p99@ + " ms"@
}

/// Mean and percentiles in one cell.
pub fn format_latency_inline(l: &LatencyText) -> (s: String)
    ensures
        s@ == latency_inline(*l),
{
    l.mean.clone().concat(" / ").concat(l.p50.as_str()).concat(" / ").concat(l.p95.as_str()).concat(" / ").concat(
        l.p99.as_str(),
    ).concat(" ms")
}

/// A row or a header of two cells.
fn cells2(a: String, b: String) -> (r: Vec<String>)
    ensures
        texts(r@) == seq![a@, b@],
{
    let mut r: Vec<String> = Vec::new();
    r.push(a);
    r.push(b);
    assert(texts(r@) =~= seq![a@, b@]);
    r
}

/// A row or a header of four cells.
fn cells4(a: String, b: String, c: String, d: String) -> (r: Vec<String>)
    ensures
        texts(r@) == seq![a@, b@, c@, d@],
{
    let mut r: Vec<String> = Vec::new();
    r.push(a);
    r.push(b);
    r.push(c);
    r.push(d);
    assert(texts(r@) =~= seq![a@, b@, c@, d@]);
    r
}

/// A row or a header of five cells.
fn cells5(a: String, b: String, c: String, d: String, e: String) -> (r: Vec<String>)
    ensures
        texts(r@) == seq![a@, b@, c@, d@, e@],
{
    let mut r: Vec<String> = Vec::new();
    r.push(a);
    r.push(b);
    r.push(c);
    r.push(d);
    r.push(e);
    assert(texts(r@) =~= seq![a@, b@, c@, d@, e@]);
    r
}

/// A row or a header of eight cells.
fn cells8(a: String, b: String, c: String, d: String, e: String, f: String, g: String, h: String) -> (r: Vec<String>)
    ensures
        texts(r@) == seq![a@, b@, c@, d@, e@, f@, g@, h@],
{
    let mut r: Vec<String> = Vec::new();
    r.push(a);
    r.push(b);
    r.push(c);
    r.push(d);
    r.push(e);
    r.push(f);
    r.push(g);
    r.push(h);
    assert(texts(r@) =~= seq![a@, b@, c@, d@, e@, f@, g@, h@]);
    r
}

/// One more row.
proof fn lemma_rows_push(rows: Seq<Vec<String>>, row: Vec<String>)
    ensures
        rows_data(rows.push(row)) == rows_data(rows).push(texts(row@)),
{
    assert(rows_data(rows.push(row)) =~= rows_data(rows).push(texts(row@)));
}

// --- One backend ---

/// The rows of the overview table of a backend.
pub open spec fn overview_rows(b: BackendFigures) -> Seq<Seq<Seq<char>>> {
    seq![
        seq!["Total calls"@, grouped(b.total_calls as nat)],
        seq!["Tool calls"@, grouped(b.total_tool_calls as nat)],
        seq!["Success rate"@, b.success_rate@ + "%"@],
        seq![
            "Total bytes (in/out)"@,
            byte_text(b.total_input_bytes as nat) + " / "@ + byte_text(b.total_output_bytes as nat),
        ],
        seq![
            "Est. tokens (in/out)"@,
            about(b.estimated_input_tokens as nat) + " / "@ + about(b.estimated_output_tokens as nat),
        ],
        seq!["Est. total tokens"@, about(b.estimated_total_tokens as nat)],
    ] + (match b.latency {
        Some(l) => seq![seq!["Latency (mean/p50/p95/p99)"@, latency_inline(l)]],
        None => seq![],
    })
}

/// The row of a tool.
pub open spec fn tool_row(t: ToolFigures) -> Seq<Seq<char>> {
    let (p50, p95, p99) = match t.latency {
        Some(l) => (l.p50@, l.p95@, l.p99@),
        None => ("-"@, "-"@, "-"@),
    };
    seq![
        t.name@,
        grouped(t.call_count as nat),
        if t.call_count > 0 {
            t.ok_percent@ + "%"@
        } else {
            "-"@
        },
        about(t.estimated_input_tokens as nat),
        about(t.estimated_output_tokens as nat),
        p50,
        p95,
        p99,
    ]
}

/// The rows of some tools.
pub open spec fn tool_rows(tools: Seq<ToolFigures>) -> Seq<Seq<Seq<char>>> {
    tools.map_values(|t: ToolFigures| tool_row(t))
}

/// The row of a method.
pub open spec fn method_row(m: MethodFigures) -> Seq<Seq<char>> {
    seq![
        m.method@,
        grouped(m.call_count as nat),
        byte_text(m.total_input_bytes as nat),
        byte_text(m.total_output_bytes as nat),
        match m.latency {
            Some(l) => l.mean_tenths@,
            None => "-"@,
        },
    ]
}

/// The rows of some methods.
pub open spec fn method_rows(methods: Seq<MethodFigures>) -> Seq<Seq<Seq<char>>> {
    methods.map_values(|m: MethodFigures| method_row(m))
}

/// The header of the table of tools.
pub open spec fn tool_header() -> Seq<Seq<char>> {
    seq!["Tool"@, "Calls"@, "OK%"@, "Tokens(in)"@, "Tokens(out)"@, "P50ms"@, "P95ms"@, "P99ms"@]
}

/// The header of the table of methods.
pub open spec fn method_header() -> Seq<Seq<char>> {
    seq!["Method"@, "Calls"@, "Bytes(in)"@, "Bytes(out)"@, "Mean ms"@]
}

/// What is printed about a backend: its name, an overview, and tables of its
/// tools and of its methods where there are any.
pub open spec fn backend_layout(b: BackendFigures) -> Seq<BlockData> {
    seq![
        BlockData::Heading(Style::Backend, "--- "@ + b.name@ + " ---"@),
        BlockData::Table(seq!["Metric"@, "Value"@], overview_rows(b)),
        BlockData::Blank,
    ] + (if b.tools@.len() > 0 {
        seq![BlockData::Table(tool_header(), tool_rows(b.tools@)), BlockData::Blank]
    } else {
        seq![]
    }) + (if b.methods@.len() > 0 {
        seq![BlockData::Table(method_header(), method_rows(b.methods@)), BlockData::Blank]
    } else {
        seq![]
    })
}

/// The rows of the overview table of a backend.
fn overview(b: &BackendFigures) -> (rows: Vec<Vec<String>>)
    ensures
        rows_data(rows@) == overview_rows(*b),
{
    let mut rows: Vec<Vec<String>> = Vec::new();
    rows.push(cells2("Total calls".to_owned(), fmt_num(b.total_calls)));
    rows.push(cells2("Tool calls".to_owned(), fmt_num(b.total_tool_calls)));
    rows.push(cells2("Success rate".to_owned(), b.success_rate.clone().concat("%")));
    rows.push(
        cells2(
            "Total bytes (in/out)".to_owned(),
            fmt_bytes(b.total_input_bytes).concat(" / ").concat(fmt_bytes(b.total_output_bytes).as_str()),
        ),
    );
    rows.push(
        cells2(
            "Est. tokens (in/out)".to_owned(),
            fmt_about(b.estimated_input_tokens).concat(" / ").concat(
                fmt_about(b.estimated_output_tokens).as_str(),
            ),
        ),
    );
    rows.push(cells2("Est. total tokens".to_owned(), fmt_about(b.estimated_total_tokens)));
    if let Some(l) = &b.latency {
        rows.push(cells2("Latency (mean/p50/p95/p99)".to_owned(), format_latency_inline(l)));
    }
    assert(rows_data(rows@) =~= overview_rows(*b));
    rows
}

/// The cells of a tool.
fn tool_cells(t: &ToolFigures) -> (r: Vec<String>)
    ensures
        texts(r@) == tool_row(*t),
{
    let ok: String = if t.call_count > 0 {
        t.ok_percent.clone().concat("%")
    } else {
        "-".to_owned()
    };
    let (p50, p95, p99): (String, String, String) = match &t.latency {
        Some(l) => (l.p50.clone(), l.p95.clone(), l.p99.clone()),
        None => ("-".to_owned(), "-".to_owned(), "-".to_owned()),
    };
    cells8(
        t.name.clone(),
        fmt_num(t.call_count),
        ok,
        fmt_about(t.estimated_input_tokens),
        fmt_about(t.estimated_output_tokens),
        p50,
        p95,
        p99,
    )
}

/// The cells of a method.
fn method_cells(m: &MethodFigures) -> (r: Vec<String>)
    ensures
        texts(r@) == method_row(*m),
{
    let mean: String = match &m.latency {
        Some(l) => l.mean_tenths.clone(),
        None => "-".to_owned(),
    };
    cells5(
        m.method.clone(),
        fmt_num(m.call_count),
        fmt_bytes(m.total_input_bytes),
        fmt_bytes(m.total_output_bytes),
        mean,
    )
}

/// The table of tools.
fn tool_table(tools: &Vec<ToolFigures>) -> (t: Block)
    ensures
        t@ == BlockData::Table(tool_header(), tool_rows(tools@)),
{
    let header: Vec<String> = cells8(
        "Tool".to_owned(),
        "Calls".to_owned(),
        "OK%".to_owned(),
        "Tokens(in)".to_owned(),
        "Tokens(out)".to_owned(),
        "P50ms".to_owned(),
        "P95ms".to_owned(),
        "P99ms".to_owned(),
    );
    let mut rows: Vec<Vec<String>> = Vec::new();
    let mut i: usize = 0;
    while i < tools.len()
        invariant
            i <= tools.len(),
            rows_data(rows@) == tool_rows(tools@.take(i as int)),
        decreases tools.len() - i,
    {
        let row: Vec<String> = tool_cells(&tools[i]);
        proof {
            lemma_rows_push(rows@, row);
        }
        rows.push(row);
        i = i + 1;
        assert(rows_data(rows@) =~= tool_rows(tools@.take(i as int)));
    }
    assert(tools@.take(i as int) =~= tools@);
    Block::Table { header, rows }
}

/// The table of methods.
fn method_table(methods: &Vec<MethodFigures>) -> (t: Block)
    ensures
        t@ == BlockData::Table(method_header(), method_rows(methods@)),
{
    let header: Vec<String> = cells5(
        "Method".to_owned(),
        "Calls".to_owned(),
        "Bytes(in)".to_owned(),
        "Bytes(out)".to_owned(),
        "Mean ms".to_owned(),
    );
    let mut rows: Vec<Vec<String>> = Vec::new();
    let mut i: usize = 0;
    while i < methods.len()
        invariant
            i <= methods.len(),
            rows_data(rows@) == method_rows(methods@.take(i as int)),
        decreases methods.len() - i,
    {
        let row: Vec<String> = method_cells(&methods[i]);
        proof {
            lemma_rows_push(rows@, row);
        }
        rows.push(row);
        i = i + 1;
        assert(rows_data(rows@) =~= method_rows(methods@.take(i as int)));
    }
    assert(methods@.take(i as int) =~= methods@);
    Block::Table { header, rows }
}

/// Append what is printed about a backend.
fn push_backend(blocks: &mut Vec<Block>, b: &BackendFigures)
    ensures
        blocks_data(final(blocks)@) == blocks_data(old(blocks)@) + backend_layout(*b),
{
    blocks.push(Block::Heading(Style::Backend, "--- ".to_owned().concat(b.name.as_str()).concat(" ---")));
    blocks.push(Block::Table { header: cells2("Metric".to_owned(), "Value".to_owned()), rows: overview(b) });
    blocks.push(Block::Blank);
    if b.tools.len() > 0 {
        blocks.push(tool_table(&b.tools));
        blocks.push(Block::Blank);
    }
    if b.methods.len() > 0 {
        blocks.push(method_table(&b.methods));
        blocks.push(Block::Blank);
    }
    assert(blocks_data(blocks@) =~= blocks_data(old(blocks)@) + backend_layout(*b));
}

/// What is printed about a backend.
pub fn print_backend(b: &BackendFigures) -> (blocks: Vec<Block>)
    ensures
        blocks_data(blocks@) == backend_layout(*b),
{
    let mut blocks: Vec<Block> = Vec::new();
    push_backend(&mut blocks, b);
    assert(blocks_data(blocks@) =~= backend_layout(*b));
    blocks
}

// --- Two backends ---

/// The rows of the comparison of two backends.
pub open spec fn comparison_rows(a: BackendFigures, b: BackendFigures, d: Deltas) -> Seq<Seq<Seq<char>>> {
    seq![
        seq![
            "Total calls"@,
            grouped(a.total_calls as nat),
            grouped(b.total_calls as nat),
            change_text(d.total_calls, "%"@),
        ],
        seq![
            "Success rate"@,
            a.success_rate@ + "%"@,
            b.success_rate@ + "%"@,
            change_text(d.success_rate, "%"@),
        ],
        seq![
            "Est. total tokens"@,
            about(a.estimated_total_tokens as nat),
            about(b.estimated_total_tokens as nat),
            change_text(d.estimated_total_tokens, "%"@),
        ],
        seq![
            "Total bytes"@,
            byte_text(a.total_bytes as nat),
            byte_text(b.total_bytes as nat),
            change_text(d.total_bytes, "%"@),
        ],
    ] + (match (a.latency, b.latency) {
        (Some(la), Some(lb)) => seq![
            seq![
                "Mean latency"@,
                la.mean_tenths@ + "ms"@,
                lb.mean_tenths@ + "ms"@,
                change_text(d.mean_latency, "%"@),
            ],
            seq![
                "P95 latency"@,
                la.p95_tenths@ + "ms"@,
                lb.p95_tenths@ + "ms"@,
                change_text(d.p95_latency, "%"@),
            ],
        ],
        _ => seq![],
    })
}

/// What is printed to compare two backends.
pub open spec fn comparison_layout(a: BackendFigures, b: BackendFigures, d: Deltas) -> Seq<BlockData> {
    seq![
        BlockData::Heading(Style::Comparison, "=== Comparison ==="@),
        BlockData::Table(seq!["Metric"@, a.name@, b.name@, "Delta"@], comparison_rows(a, b, d)),
        BlockData::Blank,
    ]
}

/// The rows of the comparison of two backends.
fn comparison(a: &BackendFigures, b: &BackendFigures, d: &Deltas) -> (rows: Vec<Vec<String>>)
    ensures
        rows_data(rows@) == comparison_rows(*a, *b, *d),
{
    let mut rows: Vec<Vec<String>> = Vec::new();
    rows.push(
        cells4(
            "Total calls".to_owned(),
            fmt_num(a.total_calls),
            fmt_num(b.total_calls),
            fmt_change(&d.total_calls, "%"),
        ),
    );
    rows.push(
        cells4(
            "Success rate".to_owned(),
            a.success_rate.clone().concat("%"),
            b.success_rate.clone().concat("%"),
            fmt_change(&d.success_rate, "%"),
        ),
    );
    rows.push(
        cells4(
            "Est. total tokens".to_owned(),
            fmt_about(a.estimated_total_tokens),
            fmt_about(b.estimated_total_tokens),
            fmt_change(&d.estimated_total_tokens, "%"),
        ),
    );
    rows.push(
        cells4(
            "Total bytes".to_owned(),
            fmt_bytes(a.total_bytes),
            fmt_bytes(b.total_bytes),
            fmt_change(&d.total_bytes, "%"),
        ),
    );
    if let (Some(la), Some(lb)) = (&a.latency, &b.latency) {
        rows.push(
            cells4(
                "Mean latency".to_owned(),
                la.mean_tenths.clone().concat("ms"),
                lb.mean_tenths.clone().concat("ms"),
                fmt_change(&d.mean_latency, "%"),
            ),
        );
        rows.push(
            cells4(
                "P95 latency".to_owned(),
                la.p95_tenths.clone().concat("ms"),
                lb.p95_tenths.clone().concat("ms"),
                fmt_change(&d.p95_latency, "%"),
            ),
        );
    }
    assert(rows_data(rows@) =~= comparison_rows(*a, *b, *d));
    rows
}

/// Append what is printed to compare two backends.
fn push_comparison(blocks: &mut Vec<Block>, a: &BackendFigures, b: &BackendFigures, d: &Deltas)
    ensures
        blocks_data(final(blocks)@) == blocks_data(old(blocks)@) + comparison_layout(*a, *b, *d),
{
    blocks.push(Block::Heading(Style::Comparison, "=== Comparison ===".to_owned()));
    blocks.push(
        Block::Table {
            header: cells4("Metric".to_owned(), a.name.clone(), b.name.clone(), "Delta".to_owned()),
            rows: comparison(a, b, d),
        },
    );
    blocks.push(Block::Blank);
    assert(blocks_data(blocks@) =~= blocks_data(old(blocks)@) + comparison_layout(*a, *b, *d));
}

/// What is printed to compare two backends.
pub fn print_comparison(a: &BackendFigures, b: &BackendFigures, d: &Deltas) -> (blocks: Vec<Block>)
    ensures
        blocks_data(blocks@) == comparison_layout(*a, *b, *d),
{
    let mut blocks: Vec<Block> = Vec::new();
    push_comparison(&mut blocks, a, b, d);
    assert(blocks_data(blocks@) =~= comparison_layout(*a, *b, *d));
    blocks
}

// --- The whole report ---

/// What is printed at the top of a report.
pub open spec fn title_layout(r: ReportFigures) -> Seq<BlockData> {
    seq![
        BlockData::Blank,
        BlockData::Heading(Style::Report, "=== TurboBench Report ==="@),
        BlockData::Line("  Session:  "@ + session_prefix(r.session_id@)),
        BlockData::Line("  Duration: "@ + r.duration@ + "s"@),
        BlockData::Line("  Records:  "@ + decimal(r.records as nat)),
        BlockData::Blank,
    ]
}

/// What is printed about some backends, one after the other.
pub open spec fn backends_layout(backends: Seq<BackendFigures>) -> Seq<BlockData>
    decreases backends.len(),
{
    if backends.len() == 0 {
        seq![]
    } else {
        backends_layout(backends.drop_last()) + backend_layout(backends.last())
    }
}

/// What is printed of a report: its title, its backends, and the comparison of
/// the first two where there are several.
pub open spec fn report_layout(r: ReportFigures, d: Option<Deltas>) -> Seq<BlockData> {
    title_layout(r) + backends_layout(r.backends@) + (if r.backends@.len() > 1 {
        comparison_layout(r.backends@[0], r.backends@[1], d->0)
    } else {
        seq![]
    })
}

/// What is printed of a report.
pub fn print_report(r: &ReportFigures, d: &Option<Deltas>) -> (blocks: Vec<Block>)
    requires
        r.backends@.len() > 1 ==> d is Some,
    ensures
        blocks_data(blocks@) == report_layout(*r, *d),
{
    let mut blocks: Vec<Block> = Vec::new();
    blocks.push(Block::Blank);
    blocks.push(Block::Heading(Style::Report, "=== TurboBench Report ===".to_owned()));
    blocks.push(Block::Line("  Session:  ".to_owned().concat(short_session_id(r.session_id.as_str()))));
    blocks.push(Block::Line("  Duration: ".to_owned().concat(r.duration.as_str()).concat("s")));
    blocks.push(Block::Line("  Records:  ".to_owned().concat(decimal_string(r.records as u64).as_str())));
    blocks.push(Block::Blank);
    assert(blocks_data(blocks@) =~= title_layout(*r));
    let mut i: usize = 0;
    assert(blocks_data(blocks@) =~= title_layout(*r) + backends_layout(r.backends@.take(0)));
    while i < r.backends.len()
        invariant
            i <= r.backends.len(),
            blocks_data(blocks@) == title_layout(*r) + backends_layout(r.backends@.take(i as int)),
        decreases r.backends.len() - i,
    {
        push_backend(&mut blocks, &r.backends[i]);
        i = i + 1;
        assert(r.backends@.take(i as int).drop_last() =~= r.backends@.take(i - 1));
        assert(blocks_data(blocks@) =~= title_layout(*r) + backends_layout(r.backends@.take(i as int)));
    }
    assert(r.backends@.take(i as int) =~= r.backends@);
    if r.backends.len() > 1 {
        if let Some(d) = d {
            push_comparison(&mut blocks, &r.backends[0], &r.backends[1], d);
        }
    }
    assert(blocks_data(blocks@) =~= report_layout(*r, *d));
    blocks
}

// --- Two reports ---

/// The report on two sessions: it goes by the name of the first, lasts as long as
/// the longer one (`second_longer` says which), and has the backends and the
/// records of both.
pub fn combine_reports(a: ReportFigures, b: ReportFigures, second_longer: bool) -> (r: ReportFigures)
    requires
        a.records + b.records <= usize::MAX,
    ensures
        r.session_id == a.session_id,
        r.duration == (if second_longer {
            b.duration
        } else {
            a.duration
        }),
        r.records == a.records + b.records,
        r.backends@ == a.backends@ + b.backends@,
{
    let mut backends: Vec<BackendFigures> = a.backends;
    let mut more: Vec<BackendFigures> = b.backends;
    backends.append(&mut more);
    ReportFigures {
        session_id: a.session_id,
        duration: if second_longer {
            b.duration
        } else {
            a.duration
        },
        records: a.records + b.records,
        backends,
    }
}

// --- Laws ---

/// Decimal notation, three digits at a time.
proof fn lemma_decimal_by_thousands(n: nat)
    requires
        n >= 1000,
    ensures
        decimal(n) == decimal(n / 1000) + last_three(n),
{
    reveal_with_fuel(decimal, 4);
    assert(n / 10 / 10 == n / 100 && n / 100 / 10 == n / 1000);
    assert(decimal(n) =~= decimal(n / 1000) + last_three(n));
}

/// Whether a character is not a comma.
pub open spec fn no_comma() -> spec_fn(char) -> bool {
    |c: char| c != ','
}

/// Filtering keeps a sequence whose elements all pass.
proof fn lemma_filter_all(s: Seq<char>, p: spec_fn(char) -> bool)
    requires
        forall|i: int| 0 <= i < s.len() ==> p(#[trigger] s[i]),
    ensures
        s.filter(p) == s,
    decreases s.len(),
{
    reveal(Seq::filter);
    if s.len() > 0 {
        let t = s.drop_last();
        assert forall|i: int| 0 <= i < t.len() implies p(#[trigger] t[i]) by {
            assert(t[i] == s[i]);
        }
        lemma_filter_all(t, p);
        assert(p(s[s.len() - 1]));
        assert(t.push(s.last()) =~= s);
    } else {
        assert(s.filter(p) =~= s);
    }
}

/// Commas only group the digits: without them, the decimal notation is left.
pub proof fn law_commas_only_group(n: nat)
    ensures
        grouped(n).filter(no_comma()) == decimal(n),
    decreases n,
{
    crate::text::law_decimal_reads_back(n);
    if n < 1000 {
        lemma_filter_all(decimal(n), no_comma());
    } else {
        law_commas_only_group(n / 1000);
        lemma_decimal_by_thousands(n);
        let head = grouped(n / 1000);
        let tail = last_three(n);
        reveal(Seq::filter);
        lemma_filter_all(tail, no_comma());
        assert(head.push(',').drop_last() =~= head);
        assert(head.push(',').filter(no_comma()) == head.filter(no_comma()));
        Seq::filter_distributes_over_add(head.push(','), tail, no_comma());
    }
}

/// Where the commas stand: before every third digit from the right, and nowhere
/// else, so that `d` digits come with `(d - 1) / 3` commas.
pub proof fn law_commas_every_three_digits(n: nat)
    ensures
        grouped(n).len() == decimal(n).len() + (decimal(n).len() - 1) / 3,
        grouped(n)[0] != ',',
        forall|i: int|
            0 <= i < grouped(n).len() ==> (#[trigger] grouped(n)[i] == ',' <==> (grouped(n).len() - i) % 4 == 0),
    decreases n,
{
    crate::text::law_decimal_reads_back(n);
    if n < 1000 {
        reveal_with_fuel(decimal, 3);
        assert(decimal(n).len() <= 3);
    } else {
        law_commas_every_three_digits(n / 1000);
        lemma_decimal_by_thousands(n);
        crate::text::law_decimal_reads_back(n / 1000);
        let head = grouped(n / 1000);
        assert forall|i: int| 0 <= i < grouped(n).len() implies (#[trigger] grouped(n)[i] == ',' <==> (
        grouped(n).len() - i) % 4 == 0) by {
            if i < head.len() {
                assert(grouped(n)[i] == head[i]);
            } else if i > head.len() {
                assert(grouped(n)[i] == last_three(n)[i - head.len() - 1]);
            }
        }
        assert(grouped(n)[0] == head[0]);
    }
}

/// Different numbers are written differently.
pub proof fn law_grouped_injective(a: nat, b: nat)
    requires
        grouped(a) == grouped(b),
    ensures
        a == b,
{
    law_commas_only_group(a);
    law_commas_only_group(b);
    crate::text::law_decimal_reads_back(a);
    crate::text::law_decimal_reads_back(b);
}

/// What `cut_below` finds: a place for a cut, and none between it and the limit.
proof fn lemma_cut_below(bytes: Seq<u8>, limit: nat)
    requires
        is_char_boundary(bytes, 0),
    ensures
        cut_below(bytes, limit) <= limit,
        is_char_boundary(bytes, cut_below(bytes, limit) as int),
        forall|k: int| cut_below(bytes, limit) < k <= limit ==> !is_char_boundary(bytes, k),
    decreases limit,
{
    if limit > 0 && !is_char_boundary(bytes, limit as int) {
        lemma_cut_below(bytes, (limit - 1) as nat);
    }
}

/// Of any session identifier a beginning of at most eight bytes is shown: all of
/// one that has fewer, exactly eight where no character is cut by that, and
/// otherwise as much as fits.
pub proof fn law_session_prefix(id: Seq<char>)
    ensures
        session_prefix(id).is_prefix_of(id),
        encode_utf8(session_prefix(id)).len() <= SHOWN_BYTES,
        encode_utf8(session_prefix(id)).is_prefix_of(encode_utf8(id)),
        encode_utf8(id).len() < SHOWN_BYTES ==> session_prefix(id) == id,
        encode_utf8(id).len() >= SHOWN_BYTES && is_char_boundary(encode_utf8(id), SHOWN_BYTES as int)
            ==> encode_utf8(session_prefix(id)) == encode_utf8(id).take(SHOWN_BYTES as int),
        encode_utf8(id).len() >= SHOWN_BYTES ==> forall|k: int|
            encode_utf8(session_prefix(id)).len() < k <= SHOWN_BYTES ==> !is_char_boundary(encode_utf8(id), k),
{
    let bytes = encode_utf8(id);
    vstd::utf8::encode_utf8_valid_utf8(id);
    vstd::utf8::encode_utf8_decode_utf8(id);
    if bytes.len() >= SHOWN_BYTES {
        vstd::utf8::is_char_boundary_start_end_of_seq(bytes);
        lemma_cut_below(bytes, SHOWN_BYTES as nat);
        let at = cut_below(bytes, SHOWN_BYTES as nat) as int;
        vstd::utf8::valid_utf8_split(bytes, at);
        vstd::utf8::decode_utf8_split(bytes, at);
        vstd::utf8::decode_utf8_encode_utf8(bytes.subrange(0, at));
        assert(encode_utf8(session_prefix(id)) == bytes.subrange(0, at));
    }
}

/// Of an ASCII session identifier the first eight characters are shown, of a
/// shorter one all.
pub proof fn law_session_prefix_of_ascii(id: Seq<char>)
    requires
        is_ascii_chars(id),
    ensures
        session_prefix(id) == (if id.len() >= SHOWN_BYTES {
            id.take(SHOWN_BYTES as int)
        } else {
            id
        }),
{
    broadcast use vstd::utf8::is_ascii_chars_encode_utf8;

    if id.len() >= SHOWN_BYTES {
        let head = id.take(SHOWN_BYTES as int);
        assert(is_ascii_chars(head));
        vstd::utf8::encode_utf8_decode_utf8(head);
        assert(encode_utf8(id).subrange(0, SHOWN_BYTES as int) =~= encode_utf8(head));
        vstd::utf8::encode_utf8_valid_utf8(id);
        if id.len() > SHOWN_BYTES {
            let at = SHOWN_BYTES as int;
            assert(id[at] as u8 == encode_utf8(id)[at]);
            vstd::utf8::is_char_boundary_iff_not_is_continuation_byte(encode_utf8(id), at);
            assert(encode_utf8(id)[at] <= 0x7f);
        } else {
            vstd::utf8::is_char_boundary_start_end_of_seq(encode_utf8(id));
        }
    }
}

/// Two reports on one backend each, put together, show both backends and how
/// the second differs from the first.
pub proof fn law_combined_reports_are_compared(a: ReportFigures, b: ReportFigures, r: ReportFigures, d: Deltas)
    requires
        a.backends@.len() == 1,
        b.backends@.len() == 1,
        r.backends@ == a.backends@ + b.backends@,
    ensures
        report_layout(r, Some(d)) == title_layout(r) + backend_layout(a.backends@[0]) + backend_layout(
            b.backends@[0],
        ) + comparison_layout(a.backends@[0], b.backends@[0], d),
{
    reveal_with_fuel(backends_layout, 3);
    assert(r.backends@.drop_last() =~= a.backends@);
    assert(a.backends@.drop_last() =~= seq![]);
    assert(backends_layout(r.backends@) =~= backend_layout(a.backends@[0]) + backend_layout(b.backends@[0]));
    assert(report_layout(r, Some(d)) =~= title_layout(r) + backend_layout(a.backends@[0]) + backend_layout(
        b.backends@[0],
    ) + comparison_layout(a.backends@[0], b.backends@[0], d));
}

/// A report on one backend, or on none, compares nothing.
pub proof fn law_nothing_to_compare(r: ReportFigures, d: Option<Deltas>)
    requires
        r.backends@.len() <= 1,
    ensures
        report_layout(r, d) == title_layout(r) + backends_layout(r.backends@),
{
    assert(report_layout(r, d) =~= title_layout(r) + backends_layout(r.backends@));
}

/// The comparison of two backends: each column stands under the name of a
/// backend and holds the figures of that backend, and the last holds the changes.
pub proof fn law_comparison_cells(a: BackendFigures, b: BackendFigures, d: Deltas)
    ensures
        comparison_layout(a, b, d).len() == 3,
        comparison_layout(a, b, d)[0] == BlockData::Heading(Style::Comparison, "=== Comparison ==="@),
        comparison_layout(a, b, d)[2] == BlockData::Blank,
        comparison_layout(a, b, d)[1] matches BlockData::Table(header, rows) && {
            &&& header == seq!["Metric"@, a.name@, b.name@, "Delta"@]
            &&& rows[0] == seq![
                "Total calls"@,
                grouped(a.total_calls as nat),
                grouped(b.total_calls as nat),
                change_text(d.total_calls, "%"@),
            ]
            &&& rows[1] == seq![
                "Success rate"@,
                a.success_rate@ + "%"@,
                b.success_rate@ + "%"@,
                change_text(d.success_rate, "%"@),
            ]
            &&& rows[2] == seq![
                "Est. total tokens"@,
                "~"@ + grouped(a.estimated_total_tokens as nat),
                "~"@ + grouped(b.estimated_total_tokens as nat),
                change_text(d.estimated_total_tokens, "%"@),
            ]
            &&& rows[3] == seq![
                "Total bytes"@,
                byte_text(a.total_bytes as nat),
                byte_text(b.total_bytes as nat),
                change_text(d.total_bytes, "%"@),
            ]
            &&& a.latency is Some && b.latency is Some ==> {
                &&& rows.len() == 6
                &&& rows[4] == seq![
                    "Mean latency"@,
                    a.latency->0.mean_tenths@ + "ms"@,
                    b.latency->0.mean_tenths@ + "ms"@,
                    change_text(d.mean_latency, "%"@),
                ]
                &&& rows[5] == seq![
                    "P95 latency"@,
                    a.latency->0.p95_tenths@ + "ms"@,
                    b.latency->0.p95_tenths@ + "ms"@,
                    change_text(d.p95_latency, "%"@),
                ]
            }
            &&& a.latency is None || b.latency is None ==> rows.len() == 4
        },
{
}

/// A backend's column shows that backend alone: comparing the other way round
/// moves it to the other side with its name, comparing with a third backend does
/// not change it, and it shows what the overview of the backend shows.
pub proof fn law_comparison_columns(
    a: BackendFigures,
    b: BackendFigures,
    c: BackendFigures,
    d: Deltas,
    e: Deltas,
    k: int,
)
    ensures
        comparison_layout(a, b, d)[1] matches BlockData::Table(h1, r1) && comparison_layout(b, a, e)[1]
            matches BlockData::Table(h2, r2) && comparison_layout(a, c, e)[1] matches BlockData::Table(h3, r3) && {
            &&& h1[1] == h2[2]
            &&& h1[2] == h2[1]
            &&& h1[1] == a.name@
            &&& h3[1] == a.name@
            &&& r1.len() == r2.len()
            &&& 0 <= k < r1.len() ==> r1[k].len() == 4 && r1[k][1] == r2[k][2] && r1[k][2] == r2[k][1]
            &&& 0 <= k < r1.len() && k < r3.len() ==> r1[k][1] == r3[k][1] && r1[k][0] == r3[k][0]
            &&& r1[0][1] == overview_rows(a)[0][1]
            &&& r1[0][2] == overview_rows(b)[0][1]
            &&& r1[1][1] == overview_rows(a)[2][1]
            &&& r1[1][2] == overview_rows(b)[2][1]
            &&& r1[2][1] == overview_rows(a)[5][1]
            &&& r1[2][2] == overview_rows(b)[5][1]
        },
{
}

/// The overview of a backend, cell by cell.
pub proof fn law_overview_cells(b: BackendFigures)
    ensures
        overview_rows(b)[0] == seq!["Total calls"@, grouped(b.total_calls as nat)],
        overview_rows(b)[1] == seq!["Tool calls"@, grouped(b.total_tool_calls as nat)],
        overview_rows(b)[2] == seq!["Success rate"@, b.success_rate@ + "%"@],
        overview_rows(b)[3] == seq![
            "Total bytes (in/out)"@,
            byte_text(b.total_input_bytes as nat) + " / "@ + byte_text(b.total_output_bytes as nat),
        ],
        overview_rows(b)[4] == seq![
            "Est. tokens (in/out)"@,
            "~"@ + grouped(b.estimated_input_tokens as nat) + " / "@ + ("~"@ + grouped(
                b.estimated_output_tokens as nat,
            )),
        ],
        overview_rows(b)[5] == seq!["Est. total tokens"@, "~"@ + grouped(b.estimated_total_tokens as nat)],
        b.latency is None ==> overview_rows(b).len() == 6,
        b.latency matches Some(l) ==> overview_rows(b).len() == 7 && overview_rows(b)[6] == seq![
            "Latency (mean/p50/p95/p99)"@,
            l.mean@ + " / "@ + l.p50@ + " / "@ + l.p95@ + " / "@ + l.p99@ + " ms"@,
        ],
{
}

/// The row of a tool: its name, how often it was called and how often that went
/// well, the tokens that went in and out, and its percentiles.
pub proof fn law_tool_cells(t: ToolFigures)
    ensures
        tool_row(t).len() == 8,
        tool_row(t)[0] == t.name@,
        tool_row(t)[1] == grouped(t.call_count as nat),
        t.call_count > 0 ==> tool_row(t)[2] == t.ok_percent@ + "%"@,
        t.call_count == 0 ==> tool_row(t)[2] == "-"@,
        tool_row(t)[3] == "~"@ + grouped(t.estimated_input_tokens as nat),
        tool_row(t)[4] == "~"@ + grouped(t.estimated_output_tokens as nat),
        t.latency is None ==> tool_row(t)[5] == "-"@ && tool_row(t)[6] == "-"@ && tool_row(t)[7] == "-"@,
        t.latency matches Some(l) ==> tool_row(t)[5] == l.p50@ && tool_row(t)[6] == l.p95@ && tool_row(t)[7]
            == l.p99@,
        tool_header() == seq![
            "Tool"@,
            "Calls"@,
            "OK%"@,
            "Tokens(in)"@,
            "Tokens(out)"@,
            "P50ms"@,
            "P95ms"@,
            "P99ms"@,
        ],
{
}

/// The row of a method: its name, how often it was called, the bytes that went in
/// and out, and its mean latency.
pub proof fn law_method_cells(m: MethodFigures)
    ensures
        method_row(m).len() == 5,
        method_row(m)[0] == m.method@,
        method_row(m)[1] == grouped(m.call_count as nat),
        method_row(m)[2] == byte_text(m.total_input_bytes as nat),
        method_row(m)[3] == byte_text(m.total_output_bytes as nat),
        m.latency is None ==> method_row(m)[4] == "-"@,
        m.latency matches Some(l) ==> method_row(m)[4] == l.mean_tenths@,
        method_header() == seq!["Method"@, "Calls"@, "Bytes(in)"@, "Bytes(out)"@, "Mean ms"@],
{
}

/// What is printed about a backend: its name, the overview, then the tools and
/// the methods, a row for each in their order, where there are any.
pub proof fn law_backend_blocks(b: BackendFigures, i: int)
    ensures
        backend_layout(b)[0] == BlockData::Heading(Style::Backend, "--- "@ + b.name@ + " ---"@),
        backend_layout(b)[1] == BlockData::Table(seq!["Metric"@, "Value"@], overview_rows(b)),
        backend_layout(b)[2] == BlockData::Blank,
        backend_layout(b).len() == 3 + (if b.tools@.len() > 0 {
            2int
        } else {
            0
        }) + (if b.methods@.len() > 0 {
            2int
        } else {
            0
        }),
        b.tools@.len() > 0 ==> backend_layout(b)[3] == BlockData::Table(tool_header(), tool_rows(b.tools@))
            && backend_layout(b)[4] == BlockData::Blank,
        b.methods@.len() > 0 ==> backend_layout(b)[backend_layout(b).len() - 2] == BlockData::Table(
            method_header(),
            method_rows(b.methods@),
        ) && backend_layout(b).last() == BlockData::Blank,
        tool_rows(b.tools@).len() == b.tools@.len(),
        method_rows(b.methods@).len() == b.methods@.len(),
        0 <= i < b.tools@.len() ==> tool_rows(b.tools@)[i] == tool_row(b.tools@[i]),
        0 <= i < b.methods@.len() ==> method_rows(b.methods@)[i] == method_row(b.methods@[i]),
{
}

/// What is printed of a report: the title with session, duration and number of
/// records, then the backends in their order, then the comparison of the first
/// two.
pub proof fn law_report_blocks(r: ReportFigures, d: Deltas, backends: Seq<BackendFigures>, b: BackendFigures)
    ensures
        title_layout(r) == seq![
            BlockData::Blank,
            BlockData::Heading(Style::Report, "=== TurboBench Report ==="@),
            BlockData::Line("  Session:  "@ + session_prefix(r.session_id@)),
            BlockData::Line("  Duration: "@ + r.duration@ + "s"@),
            BlockData::Line("  Records:  "@ + decimal(r.records as nat)),
            BlockData::Blank,
        ],
        backends_layout(seq![]) == Seq::<BlockData>::empty(),
        backends_layout(backends.push(b)) == backends_layout(backends) + backend_layout(b),
        r.backends@.len() > 1 ==> report_layout(r, Some(d)) == title_layout(r) + backends_layout(r.backends@)
            + comparison_layout(r.backends@[0], r.backends@[1], d),
        r.backends@.len() <= 1 ==> report_layout(r, Some(d)) == title_layout(r) + backends_layout(r.backends@),
{
    assert(backends.push(b).drop_last() =~= backends);
    assert(r.backends@.len() <= 1 ==> report_layout(r, Some(d)) =~= title_layout(r) + backends_layout(r.backends@));
}

/// How a change is shown: a dash where there is none to show, about nothing where
/// it is small, a plus sign before a rise, and a fall as it is; always with the unit.
pub proof fn law_change_texts(c: Change, unit: Seq<char>)
    ensures
        match c {
            Change::Undefined => change_text(c, unit) == "-"@,
            Change::Negligible => change_text(c, unit) == "~0"@ + unit,
            Change::Up(d) => change_text(c, unit) == "+"@ + d@ + unit,
            Change::Down(d) => change_text(c, unit) == d@ + unit,
        },
{
}

/// Mean and percentiles in one cell, in this order.
pub proof fn law_latency_inline(l: LatencyText)
    ensures
        latency_inline(l) == l.mean@ + " / "@ + l.p50@ + " / "@ + l.p95@ + " / "@ + l.p99@ + " ms"@,
{
}

/// Bytes below a kilobyte are written out. Above, the number of tenths of the unit
/// is the nearest to the true number, the even one of two that are equally near,
/// and its last digit stands behind the point.
pub proof fn law_byte_texts(n: nat)
    ensures
        n < 1024 ==> byte_text(n) == decimal(n) + " B"@,
        1024 <= n < 1_048_576 ==> {
            let t = tenths_of(n, 1024);
            &&& byte_text(n) == decimal(t / 10) + seq!['.', digit(t % 10)] + " KB"@
            &&& 2 * (1024 * t - 10 * n) <= 1024
            &&& 2 * (10 * n - 1024 * t) <= 1024
            &&& 2 * (1024 * t - 10 * n) == 1024 || 2 * (10 * n - 1024 * t) == 1024 ==> t % 2 == 0
        },
        n >= 1_048_576 ==> {
            let t = tenths_of(n, 1_048_576);
            let v = nearest_binary64(n);
            &&& byte_text(n) == decimal(t / 10) + seq!['.', digit(t % 10)] + " MB"@
            &&& 2 * (1_048_576 * t - 10 * v) <= 1_048_576
            &&& 2 * (10 * v - 1_048_576 * t) <= 1_048_576
            &&& 2 * (1_048_576 * t - 10 * v) == 1_048_576 || 2 * (10 * v - 1_048_576 * t) == 1_048_576 ==> t % 2
                == 0
            &&& n <= 9_007_199_254_740_992 ==> v == n
        },
{
    if n >= 1024 && n < 1_048_576 {
        let t = tenths_of(n, 1024);
        crate::rounding::law_small_integers_are_exact(n);
        crate::rounding::law_round_half_even(10 * n, 1024);
        assert(tenths(t) =~= decimal(t / 10) + seq!['.', digit(t % 10)]);
    } else if n >= 1_048_576 {
        let t = tenths_of(n, 1_048_576);
        if n <= 9_007_199_254_740_992 {
            crate::rounding::law_small_integers_are_exact(n);
        }
        crate::rounding::law_round_half_even(10 * nearest_binary64(n), 1_048_576);
        assert(tenths(t) =~= decimal(t / 10) + seq!['.', digit(t % 10)]);
    }
}

/// Pieces of a report say what they hold, and come in their order.
pub proof fn law_block_views(b: Block, blocks: Seq<Block>, rows: Seq<Vec<String>>, i: int)
    ensures
        match b {
            Block::Blank => b@ == BlockData::Blank,
            Block::Line(t) => b@ == BlockData::Line(t@),
            Block::Heading(s, t) => b@ == BlockData::Heading(s, t@),
            Block::Table { header, rows } => b@ == BlockData::Table(texts(header@), rows_data(rows@)),
        },
        blocks_data(blocks).len() == blocks.len(),
        0 <= i < blocks.len() ==> blocks_data(blocks)[i] == blocks[i]@,
        rows_data(rows).len() == rows.len(),
        0 <= i < rows.len() ==> rows_data(rows)[i] == texts(rows[i]@),
{
}

} // verus!
