//! Configuration types, and how a configuration file or a command line becomes
//! a runtime configuration.
use crate::text::{copy_option, decimal, decimal_string, join, joined, option_text, same_text, texts};
use std::path::PathBuf;
use turbomcp_proxy::proxy::BackendTransport;
use vstd::prelude::*;
use vstd::string::*;

verus! {

/// `std::path::PathBuf`, carried through unread.
#[verifier::external_type_specification]
#[verifier::external_body]
pub struct ExPathBuf(PathBuf);

/// `turbomcp_proxy::proxy::BackendTransport`, what a backend connector is made from.
#[verifier::external_type_specification]
#[verifier::external_body]
pub struct ExBackendTransport(BackendTransport);

/// Bind address of the HTTP frontend where none is given.
pub const DEFAULT_BIND: &'static str = "127.0.0.1:3000";

/// Runtime configuration built from CLI args or config file.
pub struct BenchConfig {
    pub primary: BackendDef,
    pub shadow: Option<BackendDef>,
    pub frontend: FrontendDef,
    pub output: Option<PathBuf>,
    pub quiet: bool,
}

/// Defines a backend MCP server to connect to.
pub struct BackendDef {
    pub name: Option<String>,
    pub transport: TransportDef,
}

/// Frontend transport (how clients connect to turbobench).
pub enum FrontendDef {
    Stdio,
    Http { bind: String },
}

/// Transport definition, one to one with what the backend connector supports.
#[derive(Clone)]
pub enum TransportDef {
    Stdio { command: String, args: Vec<String>, working_dir: Option<String> },
    Http { url: String, auth_token: Option<String> },
    Tcp { host: String, port: u16 },
    WebSocket { url: String },
    Unix { path: String },
}

/// What a transport definition says.
pub enum Transport {
    Stdio { command: Seq<char>, args: Seq<Seq<char>>, working_dir: Option<Seq<char>> },
    Http { url: Seq<char>, auth_token: Option<Seq<char>> },
    Tcp { host: Seq<char>, port: u16 },
    WebSocket { url: Seq<char> },
    Unix { path: Seq<char> },
}

impl View for TransportDef {
    type V = Transport;

    open spec fn view(&self) -> Transport {
        match *self {
            TransportDef::Stdio { command, args, working_dir } => Transport::Stdio {
                command: command@,
                args: texts(args@),
                working_dir: option_text(working_dir),
            },
            TransportDef::Http { url, auth_token } => Transport::Http {
                url: url@,
                auth_token: option_text(auth_token),
            },
            TransportDef::Tcp { host, port } => Transport::Tcp { host: host@, port },
            TransportDef::WebSocket { url } => Transport::WebSocket { url: url@ },
            TransportDef::Unix { path } => Transport::Unix { path: path@ },
        }
    }
}

/// What a frontend definition says: the bind address of an HTTP frontend, or
/// nothing for stdio.
impl View for FrontendDef {
    type V = Option<Seq<char>>;

    open spec fn view(&self) -> Option<Seq<char>> {
        match *self {
            FrontendDef::Stdio => None,
            FrontendDef::Http { bind } => Some(bind@),
        }
    }
}

/// What a `BackendTransport` holds.
pub uninterp spec fn backend_transport(t: BackendTransport) -> Transport;

/// `BackendTransport::Stdio`, holding the three arguments.
#[verifier::external_body]
fn stdio_transport(command: String, args: Vec<String>, working_dir: Option<String>) -> (t: BackendTransport)
    ensures
        backend_transport(t) == (Transport::Stdio {
            command: command@,
            args: texts(args@),
            working_dir: option_text(working_dir),
        }),
{
    BackendTransport::Stdio { command, args, working_dir }
}

/// `BackendTransport::Http`, holding the two arguments.
#[verifier::external_body]
fn http_transport(url: String, auth_token: Option<String>) -> (t: BackendTransport)
    ensures
        backend_transport(t) == (Transport::Http { url: url@, auth_token: option_text(auth_token) }),
{
    BackendTransport::Http { url, auth_token }
}

/// `BackendTransport::Tcp`, holding the two arguments.
#[verifier::external_body]
fn tcp_transport(host: String, port: u16) -> (t: BackendTransport)
    ensures
        backend_transport(t) == (Transport::Tcp { host: host@, port }),
{
    BackendTransport::Tcp { host, port }
}

/// `BackendTransport::WebSocket`, holding the argument.
#[verifier::external_body]
fn websocket_transport(url: String) -> (t: BackendTransport)
    ensures
        backend_transport(t) == (Transport::WebSocket { url: url@ }),
{
    BackendTransport::WebSocket { url }
}

/// `BackendTransport::Unix`, holding the argument.
#[verifier::external_body]
fn unix_transport(path: String) -> (t: BackendTransport)
    ensures
        backend_transport(t) == (Transport::Unix { path: path@ }),
{
    BackendTransport::Unix { path }
}

/// A human-readable name for a transport.
pub open spec fn transport_name(t: Transport) -> Seq<char> {
    match t {
        Transport::Stdio { command, args, .. } => if args.len() == 0 {
            command
        } else {
            command + seq![' '] + joined(args, seq![' '])
        },
        Transport::Http { url, .. } => url,
        Transport::Tcp { host, port } => host + seq![':'] + decimal(port as nat),
        Transport::WebSocket { url } => url,
        Transport::Unix { path } => path,
    }
}

/// A copy of a list of strings.
fn copy_strings(list: &Vec<String>) -> (r: Vec<String>)
    ensures
        r@ == list@,
{
    let mut out: Vec<String> = Vec::new();
    let mut i: usize = 0;
    while i < list.len()
        invariant
            i <= list.len(),
            out@ == list@.take(i as int),
        decreases list.len() - i,
    {
        out.push(list[i].clone());
        assert(out@ =~= list@.take(i + 1));
        i = i + 1;
    }
    assert(list@.take(i as int) =~= list@);
    out
}

impl TransportDef {
    /// Convert to the transport of the backend connector.
    pub fn to_backend_transport(&self) -> (t: BackendTransport)
        ensures
            backend_transport(t) == self@,
            match *self {
                TransportDef::Stdio { command, args, working_dir } => backend_transport(t) == (Transport::Stdio {
                    command: command@,
                    args: texts(args@),
                    working_dir: option_text(working_dir),
                }),
                TransportDef::Http { url, auth_token } => backend_transport(t) == (Transport::Http {
                    url: url@,
                    auth_token: option_text(auth_token),
                }),
                TransportDef::Tcp { host, port } => backend_transport(t) == (Transport::Tcp { host: host@, port }),
                TransportDef::WebSocket { url } => backend_transport(t) == (Transport::WebSocket { url: url@ }),
                TransportDef::Unix { path } => backend_transport(t) == (Transport::Unix { path: path@ }),
            },
    {
        match self {
            TransportDef::Stdio { command, args, working_dir } => stdio_transport(
                command.clone(),
                copy_strings(args),
                copy_option(working_dir),
            ),
            TransportDef::Http { url, auth_token } => http_transport(url.clone(), copy_option(auth_token)),
            TransportDef::Tcp { host, port } => tcp_transport(host.clone(), *port),
            TransportDef::WebSocket { url } => websocket_transport(url.clone()),
            TransportDef::Unix { path } => unix_transport(path.clone()),
        }
    }

    /// Derive a human-readable name from the transport.
    pub fn derive_name(&self) -> (name: String)
        ensures
            name@ == transport_name(self@),
    {
        match self {
            TransportDef::Stdio { command, args, .. } => {
                if args.len() == 0 {
                    command.clone()
                } else {
                    proof {
                        reveal_strlit(" ");
                        assert(" "@ =~= seq![' ']);
                    }
                    let mut name: String = command.clone();
                    name.append(" ");
                    name.append(join(args, " ").as_str());
                    name
                }
            },
            TransportDef::Http { url, .. } => url.clone(),
            TransportDef::Tcp { host, port } => {
                let mut name: String = host.clone();
                name.push(':');
                name.append(decimal_string(*port as u64).as_str());
                assert(name@ =~= host@ + seq![':'] + decimal(*port as nat));
                name
            },
            TransportDef::WebSocket { url } => url.clone(),
            TransportDef::Unix { path } => path.clone(),
        }
    }
}

/// The name under which the calls of a backend are recorded.
pub open spec fn backend_name(b: BackendDef) -> Seq<char> {
    match b.name {
        Some(n) => n@,
        None => transport_name(b.transport@),
    }
}

impl BackendDef {
    /// The configured name, or one derived from the transport.
    pub fn display_name(&self) -> (name: String)
        ensures
            name@ == backend_name(*self),
    {
        match &self.name {
            Some(n) => n.clone(),
            None => self.transport.derive_name(),
        }
    }
}

// --- TOML config file format ---

/// Top-level config file structure.
pub struct ConfigFile {
    /// Primary backend (required).
    pub primary: ConfigBackend,
    /// Optional shadow backend for A/B comparison.
    pub shadow: Option<ConfigBackend>,
    /// Frontend configuration (defaults to stdio).
    pub frontend: Option<ConfigFrontend>,
    /// Report and output options.
    pub options: Option<ConfigOptions>,
}

/// Backend definition in a config file.
pub struct ConfigBackend {
    /// Display name for reports.
    pub name: Option<String>,
    /// Transport configuration.
    pub transport: TransportDef,
}

/// Frontend configuration in a config file.
pub struct ConfigFrontend {
    /// Transport type: `"stdio"` (default) or `"http"`.
    pub transport_type: String,
    /// Bind address for HTTP frontend (default: `127.0.0.1:3000`).
    pub bind: Option<String>,
}

/// Transport type of a frontend where the config file names none.
pub fn default_frontend_type() -> (s: String)
    ensures
        s@ == "stdio"@,
{
    "stdio".to_owned()
}

/// Report and output options in a config file.
pub struct ConfigOptions {
    /// Path to write the JSON report.
    pub output: Option<PathBuf>,
    /// Suppress terminal report on stderr.
    pub quiet: Option<bool>,
}

/// The frontend of type `kind` with bind address `bind`: HTTP where the type
/// says so, stdio otherwise.
pub open spec fn frontend_for(kind: Seq<char>, bind: Seq<char>) -> Option<Seq<char>> {
    if kind == "http"@ {
        Some(bind)
    } else {
        None
    }
}

/// The frontend for a type and a bind address.
pub fn parse_frontend(frontend: &str, bind: &str) -> (f: FrontendDef)
    ensures
        f@ == frontend_for(frontend@, bind@),
{
    if same_text(frontend, "http") {
        FrontendDef::Http { bind: bind.to_owned() }
    } else {
        FrontendDef::Stdio
    }
}

/// The frontend that a config file asks for.
pub open spec fn configured_frontend(f: Option<ConfigFrontend>) -> Option<Seq<char>> {
    match f {
        Some(c) => frontend_for(
            c.transport_type@,
            match c.bind {
                Some(b) => b@,
                None => DEFAULT_BIND@,
            },
        ),
        None => None,
    }
}

impl ConfigFile {
    /// The runtime configuration that a config file describes.
    pub fn into_config(self) -> (c: BenchConfig)
        ensures
            c.primary.name == self.primary.name,
            c.primary.transport == self.primary.transport,
            c.shadow is Some <==> self.shadow is Some,
            self.shadow matches Some(s) ==> c.shadow->0.name == s.name && c.shadow->0.transport == s.transport,
            c.frontend@ == configured_frontend(self.frontend),
            c.output == (match self.options {
                Some(o) => o.output,
                None => None,
            }),
            c.quiet == (match self.options {
                Some(o) => o.quiet == Some(true),
                None => false,
            }),
    {
        let frontend: FrontendDef = match self.frontend {
            Some(f) => {
                let bind: String = match f.bind {
                    Some(b) => b,
                    None => DEFAULT_BIND.to_owned(),
                };
                parse_frontend(f.transport_type.as_str(), bind.as_str())
            },
            None => FrontendDef::Stdio,
        };
        let (output, quiet): (Option<PathBuf>, bool) = match self.options {
            Some(o) => (
                o.output,
                match o.quiet {
                    Some(q) => q,
                    None => false,
                },
            ),
            None => (None, false),
        };
        BenchConfig {
            primary: BackendDef { name: self.primary.name, transport: self.primary.transport },
            shadow: match self.shadow {
                Some(s) => Some(BackendDef { name: s.name, transport: s.transport }),
                None => None,
            },
            frontend,
            output,
            quiet,
        }
    }
}

// --- Command line ---

/// The command line arguments that make up a configuration of their own.
pub struct CliArgs {
    /// Backend name (for reports).
    pub name: Option<String>,
    /// Where to save the report.
    pub output: Option<PathBuf>,
    /// Suppress the terminal report.
    pub quiet: bool,
    /// Backend HTTP URL (instead of a command).
    pub url: Option<String>,
    /// Frontend type.
    pub frontend: String,
    /// Frontend bind address.
    pub bind: String,
    /// Backend command and arguments.
    pub backend: Vec<String>,
}

/// The transport that the command line asks for: a URL goes before a command.
pub open spec fn requested_transport(url: Option<String>, backend: Seq<String>) -> Option<Transport> {
    match url {
        Some(u) => Some(Transport::Http { url: u@, auth_token: None }),
        None => if backend.len() == 0 {
            None
        } else {
            Some(
                Transport::Stdio {
                    command: backend[0]@,
                    args: texts(backend.skip(1)),
                    working_dir: None,
                },
            )
        },
    }
}

impl BenchConfig {
    /// The configuration for a command line without a config file, or `None`
    /// where it names no backend.
    pub fn from_args(args: CliArgs) -> (c: Option<BenchConfig>)
        ensures
            c is Some <==> requested_transport(args.url, args.backend@) is Some,
            c matches Some(c) ==> {
                &&& c.primary.name == args.name
                &&& Some(c.primary.transport@) == requested_transport(args.url, args.backend@)
                &&& c.shadow is None
                &&& c.frontend@ == frontend_for(args.frontend@, args.bind@)
                &&& c.output == args.output
                &&& c.quiet == args.quiet
            },
    {
        let frontend: FrontendDef = parse_frontend(args.frontend.as_str(), args.bind.as_str());
        let transport: TransportDef = match args.url {
            Some(url) => TransportDef::Http { url, auth_token: None },
            None => {
                let mut command: Vec<String> = args.backend;
                if command.len() == 0 {
                    return None;
                }
                let rest: Vec<String> = command.split_off(1);
                assert(rest@ =~= args.backend@.skip(1));
                TransportDef::Stdio { command: command[0].clone(), args: rest, working_dir: None }
            },
        };
        Some(
            BenchConfig {
                primary: BackendDef { name: args.name, transport },
                shadow: None,
                frontend,
                output: args.output,
                quiet: args.quiet,
            },
        )
    }

    /// Let the command line override the output path and the quiet flag of a
    /// config file.
    pub fn with_overrides(self, output: Option<PathBuf>, quiet: bool) -> (c: BenchConfig)
        ensures
            c == (BenchConfig {
                output: if output is Some {
                    output
                } else {
                    self.output
                },
                quiet: self.quiet || quiet,
                ..self
            }),
    {
        let mut c: BenchConfig = self;
        if output.is_some() {
            c.output = output;
        }
        if quiet {
            c.quiet = true;
        }
        c
    }
}

/// The warnings about arguments that a config file makes void.
pub fn ignored_args_warnings(config: bool, url: bool, backend: bool) -> (w: Vec<String>)
    ensures
        texts(w@) == (if config && url {
            seq!["[turbobench] warning: --url is ignored when --config is provided"@]
        } else {
            seq![]
        }) + (if config && backend {
            seq!["[turbobench] warning: positional backend args are ignored when --config is provided"@]
        } else {
            seq![]
        }),
{
    let mut w: Vec<String> = Vec::new();
    if config && url {
        w.push("[turbobench] warning: --url is ignored when --config is provided".to_owned());
    }
    if config && backend {
        w.push(
            "[turbobench] warning: positional backend args are ignored when --config is provided".to_owned(),
        );
    }
    w
}

// --- Laws ---

/// What a transport is called where it has no name: the command with its
/// arguments behind it, the URL, host and port, or the path. What else belongs to
/// a transport does not show in its name.
pub proof fn law_transport_names(t: TransportDef)
    ensures
        match t {
            TransportDef::Stdio { command, args, .. } => {
                &&& args@.len() == 0 ==> transport_name(t@) == command@
                &&& args@.len() > 0 ==> transport_name(t@) == command@ + " "@ + joined(texts(args@), " "@)
            },
            TransportDef::Http { url, .. } => transport_name(t@) == url@,
            TransportDef::Tcp { host, port } => transport_name(t@) == host@ + ":"@ + decimal(port as nat),
            TransportDef::WebSocket { url } => transport_name(t@) == url@,
            TransportDef::Unix { path } => transport_name(t@) == path@,
        },
{
    reveal_strlit(" ");
    reveal_strlit(":");
    assert(" "@ =~= seq![' ']);
    assert(":"@ =~= seq![':']);
}

/// A backend goes by its own name, and by that of its transport only where it has
/// none.
pub proof fn law_backend_names(b: BackendDef)
    ensures
        b.name is Some ==> backend_name(b) == b.name->0@,
        b.name is None ==> backend_name(b) == transport_name(b.transport@),
{
}

/// Transports and frontends say what they hold.
pub proof fn law_views(t: TransportDef, f: FrontendDef)
    ensures
        match t {
            TransportDef::Stdio { command, args, working_dir } => t@ == (Transport::Stdio {
                command: command@,
                args: texts(args@),
                working_dir: option_text(working_dir),
            }),
            TransportDef::Http { url, auth_token } => t@ == (Transport::Http {
                url: url@,
                auth_token: option_text(auth_token),
            }),
            TransportDef::Tcp { host, port } => t@ == (Transport::Tcp { host: host@, port }),
            TransportDef::WebSocket { url } => t@ == (Transport::WebSocket { url: url@ }),
            TransportDef::Unix { path } => t@ == (Transport::Unix { path: path@ }),
        },
        match f {
            FrontendDef::Stdio => f@ is None,
            FrontendDef::Http { bind } => f@ == Some(bind@),
        },
{
}

/// The frontend is HTTP exactly where the type says `http`, with the bind address
/// that is given or the usual one; without a word about it, it is stdio.
pub proof fn law_frontends(kind: Seq<char>, bind: Seq<char>, c: ConfigFrontend)
    ensures
        kind == "http"@ ==> frontend_for(kind, bind) == Some(bind),
        kind != "http"@ ==> frontend_for(kind, bind) is None,
        configured_frontend(None) is None,
        c.transport_type@ != "http"@ ==> configured_frontend(Some(c)) is None,
        c.transport_type@ == "http"@ && c.bind is Some ==> configured_frontend(Some(c)) == Some(c.bind->0@),
        c.transport_type@ == "http"@ && c.bind is None ==> configured_frontend(Some(c)) == Some("127.0.0.1:3000"@),
{
}

/// The transport of a command line: a URL goes first, then a command with the
/// arguments behind it in their order; without either there is none.
pub proof fn law_requested_transports(url: Option<String>, backend: Seq<String>, i: int)
    ensures
        requested_transport(url, backend) is None <==> url is None && backend.len() == 0,
        url is Some ==> requested_transport(url, backend) == Some(
            Transport::Http { url: url->0@, auth_token: None },
        ),
        url is None && backend.len() > 0 ==> {
            &&& requested_transport(url, backend)->0 is Stdio
            &&& requested_transport(url, backend)->0->Stdio_command == backend[0]@
            &&& requested_transport(url, backend)->0->Stdio_args.len() == backend.len() - 1
            &&& requested_transport(url, backend)->0->Stdio_working_dir is None
            &&& 1 <= i < backend.len() ==> requested_transport(url, backend)->0->Stdio_args[i - 1] == backend[i]@
        },
{
}

} // verus!
