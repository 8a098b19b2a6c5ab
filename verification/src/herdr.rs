//! Typed command-line integration for Herdr 0.7.5 (socket protocol 17).
//!
//! The client drives Herdr through its documented JSON CLI. Every
//! invocation pins one [`Endpoint`] and clears the ambient endpoint
//! variables first, so a bootmux process running inside Herdr cannot address
//! the wrong server. This module holds what bootmux decides on its own:
//! argument vectors, version and protocol checks, how a failed command is
//! reported, and how a managed workspace is recovered from a snapshot or
//! from the state index.

use vstd::prelude::*;
use crate::process::{CommandOutput, CommandRunner, Invocation, spec_display};
use crate::env::{Env, lookup};
use crate::text::{extend_str, path_join, path_join_chars};
use crate::text::{chars_of, string_of, trim, trimmed, parse_decimal, parse_unsigned, split_once,
    find_char, lemma_find_char, find_char_index, slice_chars, is_ws_char, is_ws, str_eq};

verus! {

pub const MINIMUM_HERDR_VERSION: &'static str = "0.7.5";

/// The socket protocol bootmux speaks first.
pub const REQUIRED_PROTOCOL: u32 = 17;

/// The other socket protocol bootmux speaks.
pub const ALTERNATE_PROTOCOL: u32 = 19;

/// A socket protocol bootmux speaks: 17 or 19.
pub open spec fn protocol_supported(protocol: u32) -> bool {
    protocol == REQUIRED_PROTOCOL || protocol == ALTERNATE_PROTOCOL
}

pub const STATE_INDEX_VERSION: u32 = 1;

pub const STATE_INDEX_FILE_NAME: &'static str = "herdr-workspaces.json";

pub const HERDR_SOCKET_PATH: &'static str = "HERDR_SOCKET_PATH";

pub const HERDR_CLIENT_SOCKET_PATH: &'static str = "HERDR_CLIENT_SOCKET_PATH";

pub const HERDR_SESSION: &'static str = "HERDR_SESSION";

pub const HERDR_STARTUP_CWD: &'static str = "HERDR_STARTUP_CWD";

/// Everything that can go wrong talking to Herdr or keeping its state.
/// Durations are in milliseconds.
#[derive(Debug)]
pub enum HerdrError {
    Execute { command: String, source: std::io::Error },
    Spawn { command: String, source: std::io::Error },
    CommandFailed { command: String, status: Option<i32>, stdout: String, stderr: String },
    Cli { command: String, status: Option<i32>, code: String, message: String },
    InvalidJson { command: String, output: String, source: serde_json::Error },
    UnexpectedOutput { command: String, output: String },
    UnexpectedResult { expected: &'static str, found: String },
    InvalidArgument { name: &'static str, message: String },
    InvalidVersion { component: &'static str, found: String },
    UnsupportedVersion { component: &'static str, found: String, minimum: &'static str },
    UnsupportedProtocol { component: &'static str, found: u32, required: u32 },
    ProtocolMismatch { client: u32, server: u32 },
    MissingStatusField { component: &'static str, field: &'static str },
    ServerNotRunning { socket: String },
    ServerNotReady { timeout_ms: u64, last_error: Option<String> },
    SocketIo { operation: &'static str, path: String, source: std::io::Error },
    SocketJson { operation: &'static str, source: serde_json::Error },
    UnexpectedResponseId { expected: &'static str, found: String },
    UnsupportedOperation { operation: &'static str, reason: &'static str },
    AmbiguousRecovery { label: String, root_cwd: String, matches: usize },
    OwnershipMismatch { workspace_id: String, label: String, root_cwd: String },
    StateHomeUnavailable,
    StatePath { path: String, message: String },
    StateIo { operation: &'static str, path: String, source: std::io::Error },
    StateJson { operation: &'static str, path: String, source: serde_json::Error },
    UnsupportedStateVersion { path: String, found: u32, supported: u32 },
    StateLocked { path: String, timeout_ms: u64 },
}

/// Selects the Herdr runtime namespace used by every command.
#[derive(Clone, Debug, Default, PartialEq, Eq, PartialOrd, Ord, Hash)]
pub enum Endpoint {
    #[default]
    Default,
    NamedSession(String),
    SocketPath(String),
}

/// An endpoint as plain values.
pub enum EndpointView {
    Default,
    NamedSession(Seq<char>),
    SocketPath(Seq<char>),
}

impl View for Endpoint {
    type V = EndpointView;

    open spec fn view(&self) -> EndpointView {
        match self {
            Endpoint::Default => EndpointView::Default,
            Endpoint::NamedSession(n) => EndpointView::NamedSession(n@),
            Endpoint::SocketPath(p) => EndpointView::SocketPath(p@),
        }
    }
}

/// The arguments that select the endpoint on the command line.
pub open spec fn endpoint_args(e: EndpointView) -> Seq<Seq<char>> {
    match e {
        EndpointView::NamedSession(n) => seq!["--session"@, n],
        _ => seq![],
    }
}

/// The environment every invocation gets: the three selector variables
/// removed, except the socket path of a `SocketPath` endpoint.
pub open spec fn endpoint_env(e: EndpointView) -> Seq<(Seq<char>, Option<Seq<char>>)> {
    seq![
        (HERDR_CLIENT_SOCKET_PATH@, None),
        (HERDR_SESSION@, None),
        (
            HERDR_SOCKET_PATH@,
            match e {
                EndpointView::SocketPath(p) => Some(p),
                _ => None,
            },
        ),
    ]
}

pub open spec fn strings_view(v: Seq<String>) -> Seq<Seq<char>> {
    v.map_values(|s: String| s@)
}

pub open spec fn env_view(v: Seq<(String, Option<String>)>) -> Seq<(Seq<char>, Option<Seq<char>>)> {
    v.map_values(
        |p: (String, Option<String>)|
            (
                p.0@,
                match p.1 {
                    Some(s) => Some(s@),
                    None => None,
                },
            ),
    )
}

/// Whether two endpoints are the same.
pub fn same_endpoint(a: &Endpoint, b: &Endpoint) -> (r: bool)
    ensures
        r == (a@ == b@),
{
    match a {
        Endpoint::Default => match b {
            Endpoint::Default => true,
            _ => false,
        },
        Endpoint::NamedSession(x) => match b {
            Endpoint::NamedSession(y) => str_eq(x.as_str(), y.as_str()),
            _ => false,
        },
        Endpoint::SocketPath(x) => match b {
            Endpoint::SocketPath(y) => str_eq(x.as_str(), y.as_str()),
            _ => false,
        },
    }
}

impl Endpoint {
    pub fn named_session(name: String) -> (r: Self)
        ensures
            r@ == EndpointView::NamedSession(name@),
    {
        Endpoint::NamedSession(name)
    }

    pub fn socket_path(path: String) -> (r: Self)
        ensures
            r@ == EndpointView::SocketPath(path@),
    {
        Endpoint::SocketPath(path)
    }

    /// The arguments and environment that pin this endpoint.
    pub fn apply(&self) -> (r: (Vec<String>, Vec<(String, Option<String>)>))
        ensures
            strings_view(r.0@) == endpoint_args(self@),
            env_view(r.1@) == endpoint_env(self@),
    {
        let mut args: Vec<String> = Vec::new();
        let mut env: Vec<(String, Option<String>)> = Vec::new();
        env.push((HERDR_CLIENT_SOCKET_PATH.to_owned(), None));
        env.push((HERDR_SESSION.to_owned(), None));
        match self {
            Endpoint::Default => {
                env.push((HERDR_SOCKET_PATH.to_owned(), None));
            },
            Endpoint::NamedSession(name) => {
                env.push((HERDR_SOCKET_PATH.to_owned(), None));
                args.push("--session".to_owned());
                args.push(name.clone());
            },
            Endpoint::SocketPath(path) => {
                env.push((HERDR_SOCKET_PATH.to_owned(), Some(path.clone())));
            },
        }
        assert(strings_view(args@) =~= endpoint_args(self@));
        assert(env_view(env@) =~= endpoint_env(self@));
        (args, env)
    }
}

/// Herdr JSON CLI client.
#[derive(Clone, Debug)]
pub struct Herdr<R> {
    binary: String,
    endpoint: Endpoint,
    runner: R,
}

/// What `String::from_utf8_lossy` gives for some bytes.
pub uninterp spec fn utf8_lossy(bytes: Seq<u8>) -> Seq<char>;

/// Calls `String::from_utf8_lossy`: invalid UTF-8 becomes U+FFFD.
#[verifier::external_body]
pub fn lossy_string(bytes: &[u8]) -> (r: String)
    ensures
        r@ == utf8_lossy(bytes@),
{
    String::from_utf8_lossy(bytes).into_owned()
}

/// Output bytes as text, trimmed, the way command output is reported.
pub fn lossy_trimmed(bytes: &[u8]) -> (r: String)
    ensures
        r@ == trim(utf8_lossy(bytes@)),
{
    let s = lossy_string(bytes);
    let t = trimmed(s.as_str());
    string_of(t.as_slice())
}

/// The error envelope of a failed command: the one on stderr, else the one
/// on stdout.
pub open spec fn failure_envelope(
    stderr_envelope: Option<(String, String)>,
    stdout_envelope: Option<(String, String)>,
) -> Option<(Seq<char>, Seq<char>)> {
    match stderr_envelope {
        Some((c, m)) => Some((c@, m@)),
        None => match stdout_envelope {
            Some((c, m)) => Some((c@, m@)),
            None => None,
        },
    }
}

/// How a command's output is judged: success passes it through; a failure
/// is reported with Herdr's own error code and message when it printed one
/// (the envelopes read from its stderr and its stdout), else with its status
/// and trimmed output.
pub fn check_output(
    command: String,
    output: CommandOutput,
    stderr_envelope: Option<(String, String)>,
    stdout_envelope: Option<(String, String)>,
) -> (r: Result<CommandOutput, HerdrError>)
    ensures
        output.success ==> r == Ok::<CommandOutput, HerdrError>(output),
        !output.success ==> match failure_envelope(stderr_envelope, stdout_envelope) {
            Some((c, m)) => r matches Err(HerdrError::Cli { command: cmd, status, code, message })
                && cmd@ == command@ && status == output.code && code@ == c && message@ == m,
            None => r matches Err(HerdrError::CommandFailed { command: cmd, status, stdout, stderr })
                && cmd@ == command@ && status == output.code && stdout@ == trim(
                utf8_lossy(output.stdout@),
            ) && stderr@ == trim(utf8_lossy(output.stderr@)),
        },
{
    if output.success {
        return Ok(output);
    }
    let envelope = match stderr_envelope {
        Some(e) => Some(e),
        None => stdout_envelope,
    };
    match envelope {
        Some((code, message)) => Err(HerdrError::Cli { command, status: output.code, code, message }),
        None => {
            let stdout = lossy_trimmed(output.stdout.as_slice());
            let stderr = lossy_trimmed(output.stderr.as_slice());
            Err(HerdrError::CommandFailed { command, status: output.code, stdout, stderr })
        },
    }
}

/// Whether output holds only ASCII whitespace.
pub open spec fn all_ascii_whitespace(bytes: Seq<u8>) -> bool {
    forall|i: int|
        0 <= i < bytes.len() ==> (#[trigger] bytes[i] == 32u8 || bytes[i] == 9u8 || bytes[i]
            == 10u8 || bytes[i] == 12u8 || bytes[i] == 13u8)
}

fn is_blank_output(bytes: &[u8]) -> (r: bool)
    ensures
        r == all_ascii_whitespace(bytes@),
{
    let mut i: usize = 0;
    while i < bytes.len()
        invariant
            i <= bytes@.len(),
            forall|j: int|
                0 <= j < i ==> (#[trigger] bytes@[j] == 32u8 || bytes@[j] == 9u8 || bytes@[j]
                    == 10u8 || bytes@[j] == 12u8 || bytes@[j] == 13u8),
        decreases bytes.len() - i,
    {
        let b = bytes[i];
        if !(b == 32u8 || b == 9u8 || b == 10u8 || b == 12u8 || b == 13u8) {
            return false;
        }
        i += 1;
    }
    true
}

/// The command line an error names, for the errors of running a command.
pub open spec fn error_command(e: HerdrError) -> Option<Seq<char>> {
    match e {
        HerdrError::Execute { command, .. } => Some(command@),
        HerdrError::Cli { command, .. } => Some(command@),
        HerdrError::CommandFailed { command, .. } => Some(command@),
        HerdrError::UnexpectedOutput { command, .. } => Some(command@),
        _ => None,
    }
}

/// A failure of the Herdr CLI run with these argument words: it could not
/// be started, or it reported failure; the error names the command line.
pub open spec fn run_failure(e: HerdrError, command: Seq<char>) -> bool {
    (e is Execute || e is Cli || e is CommandFailed) && error_command(e) == Some(command)
}

/// The invocation of `binary` with the endpoint selector and `args`.
pub open spec fn spec_invocation_ok(inv: Invocation, binary: Seq<char>, e: EndpointView, args: Seq<
    Seq<char>,
>) -> bool {
    &&& inv.program@ == binary
    &&& strings_view(inv.args@) == endpoint_args(e) + args
    &&& env_view(inv.env@) == endpoint_env(e)
    &&& inv.current_dir is None
}

impl<R: CommandRunner> Herdr<R> {
    pub fn with_runner(binary: String, endpoint: Endpoint, runner: R) -> (r: Self)
        ensures
            r.binary_view() == binary@,
            r.endpoint_view() == endpoint@,
            r.runner_view() == runner,
    {
        Herdr { binary, endpoint, runner }
    }

    /// The runner the client holds.
    pub closed spec fn runner_view(&self) -> R {
        self.runner
    }

    pub closed spec fn binary_view(&self) -> Seq<char> {
        self.binary@
    }

    pub closed spec fn endpoint_view(&self) -> EndpointView {
        self.endpoint@
    }

    /// The command line that runs the CLI with `args` on this endpoint, as
    /// errors name it.
    pub open spec fn command_line(&self, args: Seq<Seq<char>>) -> Seq<char> {
        crate::zellij::display_words(self.binary_view(), endpoint_args(self.endpoint_view()) + args)
    }

    pub fn endpoint(&self) -> (r: &Endpoint)
        ensures
            r@ == self.endpoint_view(),
    {
        &self.endpoint
    }

    pub fn binary(&self) -> (r: &str)
        ensures
            r@ == self.binary_view(),
    {
        self.binary.as_str()
    }

    /// The runner the client was built with.
    pub fn runner(&self) -> (r: &R)
        ensures
            *r == self.runner_view(),
    {
        &self.runner
    }

    /// The invocation that runs the CLI with `args` on this endpoint.
    pub fn invocation(&self, args: Vec<String>) -> (r: Invocation)
        ensures
            spec_invocation_ok(r, self.binary_view(), self.endpoint_view(), strings_view(args@)),
    {
        let (mut all, env) = self.endpoint.apply();
        let ghost start = all@;
        let mut i: usize = 0;
        while i < args.len()
            invariant
                i <= args@.len(),
                all@ == start + args@.take(i as int),
            decreases args.len() - i,
        {
            assert(args@.take(i + 1) == args@.take(i as int).push(args@[i as int]));
            all.push(args[i].clone());
            i += 1;
        }
        assert(args@.take(args@.len() as int) == args@);
        assert(strings_view(all@) =~= strings_view(start) + strings_view(args@));
        Invocation { program: self.binary.clone(), args: all, env, current_dir: None }
    }

    /// Runs an invocation; a failure comes back as an error (see
    /// [`check_output`]), a success with its output.
    pub fn execute(&self, invocation: &Invocation) -> (r: Result<CommandOutput, HerdrError>)
        ensures
            r matches Ok(o) ==> o.success,
            r matches Err(e) ==> run_failure(e, spec_display(invocation.program@, invocation.args@)),
    {
        match self.runner.run(invocation) {
            Ok(output) => {
                if output.success {
                    check_output(invocation.display(), output, None, None)
                } else {
                    let stderr_envelope = self.runner.error_envelope(output.stderr.as_slice());
                    let stdout_envelope = self.runner.error_envelope(output.stdout.as_slice());
                    check_output(invocation.display(), output, stderr_envelope, stdout_envelope)
                }
            },
            Err(source) => Err(HerdrError::Execute { command: invocation.display(), source }),
        }
    }

    /// Runs the CLI with `args` and returns its successful output, for the
    /// caller to read.
    pub fn run_command(&self, args: Vec<String>) -> (r: Result<CommandOutput, HerdrError>)
        ensures
            r matches Ok(o) ==> o.success,
            r matches Err(e) ==> run_failure(e, self.command_line(strings_view(args@))),
    {
        let invocation = self.invocation(args);
        proof {
            crate::zellij::lemma_display_words(invocation.program@, invocation.args@);
        }
        self.execute(&invocation)
    }

    /// Sends a request on this endpoint; the reply is Herdr's JSON, which
    /// the caller reads.
    pub fn request(&self, request: &HerdrRequest) -> (r: Result<CommandOutput, HerdrError>)
        ensures
            r matches Ok(o) ==> o.success,
            r matches Err(e) ==> run_failure(e, self.command_line(request_args(*request))),
    {
        self.run_command(request.args())
    }

    /// `workspace list`; its reply lists the workspaces.
    pub fn list_workspaces(&self) -> (r: Result<CommandOutput, HerdrError>)
        ensures
            r matches Ok(o) ==> o.success,
            r matches Err(e) ==> run_failure(e, self.command_line(seq!["workspace"@, "list"@])),
    {
        self.request(&HerdrRequest::WorkspaceList)
    }

    /// Runs a command that prints nothing on success; output other than
    /// whitespace is an error.
    fn run_empty(&self, args: Vec<String>) -> (r: Result<(), HerdrError>)
        ensures
            r matches Err(e) ==> (run_failure(e, self.command_line(strings_view(args@))) || (
            e is UnexpectedOutput && error_command(e) == Some(self.command_line(strings_view(args@))))),
    {
        let invocation = self.invocation(args);
        proof {
            crate::zellij::lemma_display_words(invocation.program@, invocation.args@);
        }
        let output = match self.execute(&invocation) {
            Ok(o) => o,
            Err(e) => {
                return Err(e);
            },
        };
        if is_blank_output(output.stdout.as_slice()) {
            Ok(())
        } else {
            Err(
                HerdrError::UnexpectedOutput {
                    command: invocation.display(),
                    output: lossy_trimmed(output.stdout.as_slice()),
                },
            )
        }
    }

    /// Runs a shell command through the official `pane run` helper, which
    /// prints nothing on success.
    pub fn run_in_pane(&self, pane_id: &str, command: &str) -> (r: Result<(), HerdrError>)
        ensures
            r matches Err(e) ==> {
                let line = self.command_line(seq!["pane"@, "run"@, pane_id@, command@]);
                run_failure(e, line) || (e is UnexpectedOutput && error_command(e) == Some(line))
            },
    {
        let mut args: Vec<String> = Vec::new();
        args.push("pane".to_owned());
        args.push("run".to_owned());
        args.push(pane_id.to_owned());
        args.push(command.to_owned());
        assert(strings_view(args@) =~= seq!["pane"@, "run"@, pane_id@, command@]) by {
            reveal_strlit("pane");
            reveal_strlit("run");
        }
        self.run_empty(args)
    }
}


/// A Herdr release number, as `major.minor.patch[-prerelease]`.
#[derive(Clone, Debug, PartialEq, Eq)]
pub struct HerdrVersion {
    pub major: u64,
    pub minor: u64,
    pub patch: u64,
    pub prerelease: Option<String>,
}

pub struct VersionView {
    pub major: nat,
    pub minor: nat,
    pub patch: nat,
    pub prerelease: Option<Seq<char>>,
}

impl View for HerdrVersion {
    type V = VersionView;

    open spec fn view(&self) -> VersionView {
        VersionView {
            major: self.major as nat,
            minor: self.minor as nat,
            patch: self.patch as nat,
            prerelease: match self.prerelease {
                Some(p) => Some(p@),
                None => None,
            },
        }
    }
}

pub open spec fn parse_u64(s: Seq<char>) -> Option<nat> {
    parse_unsigned(s, u64::MAX as nat)
}

/// The three numbers of `major[.minor[.patch]]`; missing ones are zero and
/// a fourth component is refused.
pub open spec fn spec_core_numbers(core: Seq<char>) -> Option<(nat, nat, nat)> {
    match split_once(core, '.') {
        None => match parse_u64(core) {
            Some(a) => Some((a, 0, 0)),
            None => None,
        },
        Some((a, r1)) => match split_once(r1, '.') {
            None => match (parse_u64(a), parse_u64(r1)) {
                (Some(x), Some(y)) => Some((x, y, 0)),
                _ => None,
            },
            Some((b, r2)) => match (parse_u64(a), parse_u64(b), parse_u64(r2)) {
                (Some(x), Some(y), Some(z)) => if find_char(r2, '.') < r2.len() {
                    None
                } else {
                    Some((x, y, z))
                },
                _ => None,
            },
        },
    }
}

/// `HerdrVersion::parse`: surrounding whitespace and one leading `v` are
/// ignored, build metadata after `+` is dropped, and an empty prerelease
/// after `-` is refused.
pub open spec fn spec_version_parse(raw: Seq<char>) -> Option<VersionView> {
    let t = trim(raw);
    let s = if t.len() > 0 && t[0] == 'v' {
        t.drop_first()
    } else {
        t
    };
    let wb = match split_once(s, '+') {
        Some((a, _)) => a,
        None => s,
    };
    match split_once(wb, '-') {
        Some((core, pre)) => if pre.len() == 0 {
            None
        } else {
            match spec_core_numbers(core) {
                Some((a, b, c)) => Some(
                    VersionView { major: a, minor: b, patch: c, prerelease: Some(pre) },
                ),
                None => None,
            }
        },
        None => match spec_core_numbers(wb) {
            Some((a, b, c)) => Some(VersionView { major: a, minor: b, patch: c, prerelease: None }),
            None => None,
        },
    }
}

/// Lexicographic order of strings: -1, 0 or 1.
pub open spec fn seq_order(a: Seq<char>, b: Seq<char>) -> int
    decreases a.len(),
{
    if a.len() == 0 {
        if b.len() == 0 {
            0
        } else {
            -1
        }
    } else if b.len() == 0 {
        1
    } else if a[0] != b[0] {
        if (a[0] as int) < (b[0] as int) {
            -1
        } else {
            1
        }
    } else {
        seq_order(a.drop_first(), b.drop_first())
    }
}

pub open spec fn nat_order(a: nat, b: nat) -> int {
    if a < b {
        -1
    } else if a == b {
        0
    } else {
        1
    }
}

/// The order of versions: by number, and a release above its prereleases.
pub open spec fn version_order(a: VersionView, b: VersionView) -> int {
    if a.major != b.major {
        nat_order(a.major, b.major)
    } else if a.minor != b.minor {
        nat_order(a.minor, b.minor)
    } else if a.patch != b.patch {
        nat_order(a.patch, b.patch)
    } else {
        match (a.prerelease, b.prerelease) {
            (None, None) => 0,
            (None, Some(_)) => 1,
            (Some(_), None) => -1,
            (Some(l), Some(r)) => seq_order(l, r),
        }
    }
}

proof fn lemma_seq_order_antisym_rec(a: Seq<char>, b: Seq<char>)
    ensures
        seq_order(a, b) == -seq_order(b, a),
        seq_order(a, b) == 0 <==> a == b,
    decreases a.len(),
{
    if a.len() > 0 && b.len() > 0 && a[0] == b[0] {
        lemma_seq_order_antisym_rec(a.drop_first(), b.drop_first());
        if a.drop_first() == b.drop_first() {
            assert(a == seq![a[0]] + a.drop_first());
            assert(b == seq![b[0]] + b.drop_first());
        }
        if a == b {
            assert(a.drop_first() == b.drop_first());
        }
    }
    if a.len() > 0 && b.len() > 0 && a[0] != b[0] {
        assert((a[0] as int) != (b[0] as int));
        assert(a != b) by {
            if a == b {
                assert(a[0] == b[0]);
            }
        }
    }
    if a.len() == 0 || b.len() == 0 {
        assert(a == b <==> (a.len() == 0 && b.len() == 0)) by {
            if a.len() == 0 && b.len() == 0 {
                assert(a =~= b);
            }
        }
    }
}

/// Strings are ordered transitively.
pub proof fn lemma_seq_order_transitive(a: Seq<char>, b: Seq<char>, c: Seq<char>)
    requires
        seq_order(a, b) < 0,
        seq_order(b, c) < 0,
    ensures
        seq_order(a, c) < 0,
    decreases a.len(),
{
    if a.len() > 0 && b.len() > 0 && c.len() > 0 && a[0] == b[0] && b[0] == c[0] {
        lemma_seq_order_transitive(a.drop_first(), b.drop_first(), c.drop_first());
    }
}

pub proof fn lemma_seq_order_antisym(a: Seq<char>, b: Seq<char>)
    ensures
        seq_order(a, b) == -seq_order(b, a),
        seq_order(a, b) == 0 <==> a == b,
{
    lemma_seq_order_antisym_rec(a, b);
}

/// Comparing two versions either way gives opposite answers, and they
/// compare equal exactly when they are the same version.
pub proof fn version_order_is_antisymmetric(a: VersionView, b: VersionView)
    ensures
        version_order(a, b) == -version_order(b, a),
        version_order(a, b) == 0 <==> a == b,
{
    match (a.prerelease, b.prerelease) {
        (Some(l), Some(r)) => {
            lemma_seq_order_antisym_rec(l, r);
        },
        _ => {},
    }
}

pub fn order_chars(a: &[char], b: &[char]) -> (r: i8)
    ensures
        r as int == seq_order(a@, b@),
{
    let mut i: usize = 0;
    assert(a@.skip(0) == a@);
    assert(b@.skip(0) == b@);
    while i < a.len() && i < b.len() && a[i] == b[i]
        invariant
            i <= a@.len(),
            i <= b@.len(),
            seq_order(a@, b@) == seq_order(a@.skip(i as int), b@.skip(i as int)),
        decreases a.len() - i,
    {
        assert(a@.skip(i as int).drop_first() == a@.skip(i + 1));
        assert(b@.skip(i as int).drop_first() == b@.skip(i + 1));
        i += 1;
    }
    if i == a.len() {
        if i == b.len() {
            0
        } else {
            -1
        }
    } else if i == b.len() {
        1
    } else if a[i] < b[i] {
        -1
    } else {
        1
    }
}

fn order_u64(a: u64, b: u64) -> (r: i8)
    ensures
        r as int == nat_order(a as nat, b as nat),
{
    if a < b {
        -1
    } else if a == b {
        0
    } else {
        1
    }
}

fn parse_component(v: &[char]) -> (r: Option<u64>)
    ensures
        match r {
            Some(n) => parse_u64(v@) == Some(n as nat),
            None => parse_u64(v@) is None,
        },
{
    parse_decimal(v, u64::MAX)
}

fn split_at_char(v: &[char], c: char) -> (r: Option<(Vec<char>, Vec<char>)>)
    ensures
        match r {
            Some(p) => split_once(v@, c) == Some((p.0@, p.1@)),
            None => split_once(v@, c) is None,
        },
{
    let i = find_char_index(v, c);
    proof {
        lemma_find_char(v@, c);
    }
    if i < v.len() {
        Some((slice_chars(v, 0, i), slice_chars(v, i + 1, v.len())))
    } else {
        None
    }
}

fn core_numbers(core: &[char]) -> (r: Option<(u64, u64, u64)>)
    ensures
        match r {
            Some(t) => spec_core_numbers(core@) == Some((t.0 as nat, t.1 as nat, t.2 as nat)),
            None => spec_core_numbers(core@) is None,
        },
{
    match split_at_char(core, '.') {
        None => match parse_component(core) {
            Some(a) => Some((a, 0, 0)),
            None => None,
        },
        Some((a, r1)) => match split_at_char(r1.as_slice(), '.') {
            None => {
                let x = parse_component(a.as_slice())?;
                let y = parse_component(r1.as_slice())?;
                Some((x, 0 + y, 0))
            },
            Some((b, r2)) => {
                let x = parse_component(a.as_slice())?;
                let y = parse_component(b.as_slice())?;
                let z = parse_component(r2.as_slice())?;
                proof {
                    lemma_find_char(r2@, '.');
                }
                if find_char_index(r2.as_slice(), '.') < r2.len() {
                    None
                } else {
                    Some((x, y, z))
                }
            },
        },
    }
}

impl HerdrVersion {
    /// Parses `v1.2.3`, `1.2`, `1.2.3-rc.1+build` and the like.
    pub fn parse(raw: &str) -> (r: Option<Self>)
        ensures
            match r {
                Some(v) => spec_version_parse(raw@) == Some(v@),
                None => spec_version_parse(raw@) is None,
            },
    {
        let t = trimmed(raw);
        let s: Vec<char> = if t.len() > 0 && t[0] == 'v' {
            slice_chars(t.as_slice(), 1, t.len())
        } else {
            t
        };
        proof {
            if t@.len() > 0 && t@[0] == 'v' {
                assert(t@.subrange(1, t@.len() as int) == t@.drop_first());
            }
        }
        let wb: Vec<char> = match split_at_char(s.as_slice(), '+') {
            Some((a, _)) => a,
            None => s,
        };
        match split_at_char(wb.as_slice(), '-') {
            Some((core, pre)) => {
                if pre.len() == 0 {
                    return None;
                }
                let (a, b, c) = core_numbers(core.as_slice())?;
                Some(
                    HerdrVersion {
                        major: a,
                        minor: b,
                        patch: c,
                        prerelease: Some(string_of(pre.as_slice())),
                    },
                )
            },
            None => {
                let (a, b, c) = core_numbers(wb.as_slice())?;
                Some(HerdrVersion { major: a, minor: b, patch: c, prerelease: None })
            },
        }
    }

    /// How this version compares with another: -1, 0 or 1.
    pub fn compare(&self, other: &Self) -> (r: i8)
        ensures
            r as int == version_order(self@, other@),
    {
        if self.major != other.major {
            return order_u64(self.major, other.major);
        }
        if self.minor != other.minor {
            return order_u64(self.minor, other.minor);
        }
        if self.patch != other.patch {
            return order_u64(self.patch, other.patch);
        }
        match &self.prerelease {
            None => match &other.prerelease {
                None => 0,
                Some(_) => 1,
            },
            Some(l) => match &other.prerelease {
                None => -1,
                Some(r) => {
                    let lc = chars_of(l.as_str());
                    let rc = chars_of(r.as_str());
                    order_chars(lc.as_slice(), rc.as_slice())
                },
            },
        }
    }

    /// Whether this version is at least `minimum`.
    pub fn meets_minimum(&self, minimum: &Self) -> (r: bool)
        ensures
            r == (version_order(self@, minimum@) >= 0),
    {
        self.compare(minimum) >= 0
    }
}

/// The minimum supported version, 0.7.5.
pub open spec fn minimum_version() -> VersionView {
    VersionView { major: 0, minor: 7, patch: 5, prerelease: None }
}

/// `validate_component`: why a reported version and protocol are refused,
/// if they are.
pub enum ComponentCheck {
    Accepted,
    InvalidVersion,
    UnsupportedVersion,
    UnsupportedProtocol,
}

pub open spec fn spec_component_check(version: Seq<char>, protocol: u32) -> ComponentCheck {
    match spec_version_parse(version) {
        None => ComponentCheck::InvalidVersion,
        Some(v) => if version_order(v, minimum_version()) < 0 {
            ComponentCheck::UnsupportedVersion
        } else if !protocol_supported(protocol) {
            ComponentCheck::UnsupportedProtocol
        } else {
            ComponentCheck::Accepted
        },
    }
}

/// Whether an error is the answer of `validate_component` for this
/// component, version and protocol.
pub open spec fn component_error(
    e: HerdrError,
    component: &'static str,
    version: Seq<char>,
    protocol: u32,
) -> bool {
    match spec_component_check(version, protocol) {
        ComponentCheck::InvalidVersion => e matches HerdrError::InvalidVersion { component: c, found }
            && c == component && found@ == version,
        ComponentCheck::UnsupportedVersion => e matches HerdrError::UnsupportedVersion {
            component: c,
            found,
            minimum,
        } && c == component && found@ == version && minimum == MINIMUM_HERDR_VERSION,
        ComponentCheck::UnsupportedProtocol => e matches HerdrError::UnsupportedProtocol {
            component: c,
            found,
            required,
        } && c == component && found == protocol && required == REQUIRED_PROTOCOL,
        ComponentCheck::Accepted => false,
    }
}

/// Checks a reported version against the minimum (0.7.5) and the protocol
/// against the ones bootmux speaks (17 or 19).
pub fn validate_component(component: &'static str, version: &str, protocol: u32) -> (r: Result<
    (),
    HerdrError,
>)
    ensures
        match r {
            Ok(_) => spec_component_check(version@, protocol) is Accepted,
            Err(e) => component_error(e, component, version@, protocol),
        },
{
    let parsed = match HerdrVersion::parse(version) {
        Some(v) => v,
        None => {
            return Err(HerdrError::InvalidVersion { component, found: version.to_owned() });
        },
    };
    let minimum = HerdrVersion { major: 0, minor: 7, patch: 5, prerelease: None };
    if !parsed.meets_minimum(&minimum) {
        return Err(
            HerdrError::UnsupportedVersion {
                component,
                found: version.to_owned(),
                minimum: MINIMUM_HERDR_VERSION,
            },
        );
    }
    if protocol != REQUIRED_PROTOCOL && protocol != ALTERNATE_PROTOCOL {
        return Err(
            HerdrError::UnsupportedProtocol {
                component,
                found: protocol,
                required: REQUIRED_PROTOCOL,
            },
        );
    }
    Ok(())
}


/// What the installed CLI reports about itself.
#[derive(Clone, Debug, PartialEq, Eq)]
pub struct ClientStatus {
    pub version: String,
    pub protocol: u32,
    pub channel: Option<String>,
    pub binary: Option<String>,
    pub session: Option<String>,
}

/// What the selected server reports about itself.
#[derive(Clone, Debug, PartialEq, Eq)]
pub struct ServerStatus {
    pub status: String,
    pub running: bool,
    pub version: Option<String>,
    pub protocol: Option<u32>,
    pub compatible: Option<bool>,
    pub socket: String,
    pub session: Option<String>,
    pub restart_needed: Option<bool>,
}

/// The installed CLI and the selected server, both checked.
#[derive(Clone, Debug, PartialEq, Eq)]
pub struct Probe {
    pub client: ClientStatus,
    pub server: ServerStatus,
}

/// Whether an error is the answer of `validate_server` for these reports.
pub open spec fn server_error(e: HerdrError, client: ClientStatus, server: ServerStatus) -> bool {
    match server.version {
        None => e matches HerdrError::MissingStatusField { component, field } && component
            == "server" && field == "version",
        Some(v) => match server.protocol {
            None => e matches HerdrError::MissingStatusField { component, field } && component
                == "server" && field == "protocol",
            Some(p) => if !(spec_component_check(v@, p) is Accepted) {
                component_error(e, "server", v@, p)
            } else {
                client.protocol != p && e == HerdrError::ProtocolMismatch {
                    client: client.protocol,
                    server: p,
                }
            },
        },
    }
}

/// Whether a running server's report is acceptable next to the client's.
pub open spec fn server_ok(client: ClientStatus, server: ServerStatus) -> bool {
    &&& server.version matches Some(v)
    &&& server.protocol matches Some(p)
    &&& spec_component_check(v@, p) is Accepted
    &&& client.protocol == p
}

/// Checks a running server: it must report its version and protocol, both
/// supported, and speak the client's protocol.
pub fn validate_server(client: &ClientStatus, server: &ServerStatus) -> (r: Result<(), HerdrError>)
    ensures
        match r {
            Ok(_) => server_ok(*client, *server),
            Err(e) => !server_ok(*client, *server) && server_error(e, *client, *server),
        },
{
    let version = match &server.version {
        Some(v) => v,
        None => {
            return Err(HerdrError::MissingStatusField { component: "server", field: "version" });
        },
    };
    let protocol = match server.protocol {
        Some(p) => p,
        None => {
            return Err(HerdrError::MissingStatusField { component: "server", field: "protocol" });
        },
    };
    validate_component("server", version.as_str(), protocol)?;
    if client.protocol != protocol {
        return Err(HerdrError::ProtocolMismatch { client: client.protocol, server: protocol });
    }
    Ok(())
}

impl Probe {
    /// Checks what `herdr status --json` reported: the client always, the
    /// server when it runs.
    pub fn from_status(client: ClientStatus, server: ServerStatus) -> (r: Result<Probe, HerdrError>)
        ensures
            match r {
                Ok(p) => p == (Probe { client, server }) && spec_component_check(
                    client.version@,
                    client.protocol,
                ) is Accepted && (server.running ==> server_ok(client, server)),
                Err(e) => if !(spec_component_check(client.version@, client.protocol) is Accepted) {
                    component_error(e, "client", client.version@, client.protocol)
                } else {
                    server.running && !server_ok(client, server) && server_error(e, client, server)
                },
            },
    {
        validate_component("client", client.version.as_str(), client.protocol)?;
        if server.running {
            validate_server(&client, &server)?;
        }
        Ok(Probe { client, server })
    }
}

impl ServerStatus {
    /// Checks what `herdr status server --json` reported: a running server
    /// must report a supported version and protocol.
    pub fn checked(self) -> (r: Result<ServerStatus, HerdrError>)
        ensures
            match r {
                Ok(s) => s == self && (self.running ==> (self.version matches Some(v)
                    && self.protocol matches Some(p) && spec_component_check(v@, p) is Accepted)),
                Err(e) => self.running && match self.version {
                    None => e matches HerdrError::MissingStatusField { component, field }
                        && component == "server" && field == "version",
                    Some(v) => match self.protocol {
                        None => e matches HerdrError::MissingStatusField { component, field }
                            && component == "server" && field == "protocol",
                        Some(p) => component_error(e, "server", v@, p),
                    },
                },
            },
    {
        if self.running {
            let version = match &self.version {
                Some(v) => v,
                None => {
                    return Err(
                        HerdrError::MissingStatusField { component: "server", field: "version" },
                    );
                },
            };
            let protocol = match self.protocol {
                Some(p) => p,
                None => {
                    return Err(
                        HerdrError::MissingStatusField { component: "server", field: "protocol" },
                    );
                },
            };
            validate_component("server", version.as_str(), protocol)?;
        }
        Ok(self)
    }
}

/// Checks the `type` tag of a JSON reply.
pub fn expect_result_type(found: &str, expected: &'static str) -> (r: Result<(), HerdrError>)
    ensures
        match r {
            Ok(_) => found@ == expected@,
            Err(e) => found@ != expected@ && (e matches HerdrError::UnexpectedResult {
                expected: x,
                found: f,
            } && x == expected && f@ == found@),
        },
{
    if str_eq(found, expected) {
        Ok(())
    } else {
        Err(HerdrError::UnexpectedResult { expected, found: found.to_owned() })
    }
}

/// What one poll of `herdr status server` means while waiting for a server
/// that was just started.
pub enum Readiness {
    /// The server runs and speaks the client's protocol.
    Ready(ServerStatus),
    /// Waiting is over: the server is unusable.
    Failed(HerdrError),
    /// Not ready yet; the message of a transient error, if there was one.
    Pending(Option<String>),
}

/// Judges one readiness poll. A running server must report the client's
/// protocol; version and protocol refusals end the wait; anything else is
/// retried.
pub fn readiness_step(
    client_protocol: u32,
    poll: Result<ServerStatus, HerdrError>,
    error_message: Option<String>,
) -> (r: Readiness)
    ensures
        match poll {
            Ok(status) => if status.running {
                match status.protocol {
                    None => r matches Readiness::Failed(HerdrError::MissingStatusField {
                        component,
                        field,
                    }) && component == "server" && field == "protocol",
                    Some(p) => if p != client_protocol {
                        r matches Readiness::Failed(e) && e == HerdrError::ProtocolMismatch {
                            client: client_protocol,
                            server: p,
                        }
                    } else {
                        r == Readiness::Ready(status)
                    },
                }
            } else {
                r == Readiness::Pending(None)
            },
            Err(e) => match e {
                HerdrError::UnsupportedVersion { .. }
                | HerdrError::UnsupportedProtocol { .. }
                | HerdrError::ProtocolMismatch { .. } => r == Readiness::Failed(e),
                _ => r == Readiness::Pending(error_message),
            },
        },
{
    match poll {
        Ok(status) => {
            if status.running {
                match status.protocol {
                    None => Readiness::Failed(
                        HerdrError::MissingStatusField { component: "server", field: "protocol" },
                    ),
                    Some(p) => {
                        if p != client_protocol {
                            Readiness::Failed(
                                HerdrError::ProtocolMismatch { client: client_protocol, server: p },
                            )
                        } else {
                            Readiness::Ready(status)
                        }
                    },
                }
            } else {
                Readiness::Pending(None)
            }
        },
        Err(e) => match e {
            HerdrError::UnsupportedVersion { .. }
            | HerdrError::UnsupportedProtocol { .. }
            | HerdrError::ProtocolMismatch { .. } => Readiness::Failed(e),
            _ => Readiness::Pending(error_message),
        },
    }
}

/// Options of `workspace create`.
#[derive(Clone, Debug, Default, PartialEq, Eq)]
pub struct WorkspaceCreate {
    pub cwd: Option<String>,
    pub label: Option<String>,
    /// Ordered by name, each name once.
    pub env: Vec<(String, String)>,
    pub focus: bool,
}

/// Options of `tab create`.
#[derive(Clone, Debug, Default, PartialEq, Eq)]
pub struct TabCreate {
    pub workspace_id: Option<String>,
    pub cwd: Option<String>,
    pub label: Option<String>,
    /// Ordered by name, each name once.
    pub env: Vec<(String, String)>,
    pub focus: bool,
}

#[derive(Clone, Copy, Debug, PartialEq, Eq)]
pub enum SplitDirection {
    Right,
    Down,
}

impl SplitDirection {
    pub fn as_str(self) -> (r: &'static str)
        ensures
            r@ == (match self {
                SplitDirection::Right => "right"@,
                SplitDirection::Down => "down"@,
            }),
    {
        match self {
            SplitDirection::Right => "right",
            SplitDirection::Down => "down",
        }
    }
}

#[derive(Clone, Copy, Debug, PartialEq, Eq)]
pub enum PaneDirection {
    Left,
    Right,
    Up,
    Down,
}

pub open spec fn pane_direction_name(d: PaneDirection) -> Seq<char> {
    match d {
        PaneDirection::Left => "left"@,
        PaneDirection::Right => "right"@,
        PaneDirection::Up => "up"@,
        PaneDirection::Down => "down"@,
    }
}

impl PaneDirection {
    pub fn as_str(self) -> (r: &'static str)
        ensures
            r@ == pane_direction_name(self),
    {
        match self {
            PaneDirection::Left => "left",
            PaneDirection::Right => "right",
            PaneDirection::Up => "up",
            PaneDirection::Down => "down",
        }
    }
}

#[derive(Clone, Debug, Default, PartialEq, Eq)]
pub enum PaneTarget {
    PaneId(String),
    Current,
    #[default]
    Focused,
}

/// Options of `pane focus --direction`.
#[derive(Clone, Debug, PartialEq, Eq)]
pub struct PaneFocus {
    pub source: PaneTarget,
    pub direction: PaneDirection,
}

/// `flag value` when there is a value.
pub open spec fn option_args(flag: Seq<char>, value: Option<String>) -> Seq<Seq<char>> {
    match value {
        Some(v) => seq![flag, v@],
        None => seq![],
    }
}

/// `--env NAME=VALUE` for each variable, in order.
pub open spec fn env_args(env: Seq<(String, String)>) -> Seq<Seq<char>>
    decreases env.len(),
{
    if env.len() == 0 {
        seq![]
    } else {
        env_args(env.drop_last()) + seq!["--env"@, env.last().0@ + seq!['='] + env.last().1@]
    }
}

pub open spec fn focus_flag(focus: bool) -> Seq<char> {
    if focus {
        "--focus"@
    } else {
        "--no-focus"@
    }
}

fn push_owned(args: &mut Vec<String>, s: &str)
    ensures
        strings_view(final(args)@) == strings_view(old(args)@).push(s@),
{
    let ghost before = args@;
    args.push(s.to_owned());
    assert(strings_view(args@) =~= strings_view(before).push(s@));
}

fn push_string_option(args: &mut Vec<String>, flag: &str, value: &Option<String>)
    ensures
        strings_view(final(args)@) == strings_view(old(args)@) + option_args(flag@, *value),
{
    let ghost before = strings_view(args@);
    match value {
        Some(v) => {
            push_owned(args, flag);
            push_owned(args, v.as_str());
        },
        None => {},
    }
    assert(strings_view(args@) =~= before + option_args(flag@, *value));
}

fn push_env_options(args: &mut Vec<String>, env: &Vec<(String, String)>)
    ensures
        strings_view(final(args)@) == strings_view(old(args)@) + env_args(env@),
{
    let ghost before = strings_view(args@);
    let mut i: usize = 0;
    while i < env.len()
        invariant
            i <= env@.len(),
            strings_view(args@) == before + env_args(env@.take(i as int)),
        decreases env.len() - i,
    {
        assert(env@.take(i + 1).drop_last() == env@.take(i as int));
        push_owned(args, "--env");
        let mut kv: Vec<char> = chars_of(env[i].0.as_str());
        kv.push('=');
        let vv = chars_of(env[i].1.as_str());
        crate::text::extend_chars(&mut kv, vv.as_slice());
        let kvs = string_of(kv.as_slice());
        assert(kvs@ == env@[i as int].0@ + seq!['='] + env@[i as int].1@);
        assert(env@.take(i + 1).last() == env@[i as int]);
        push_owned(args, kvs.as_str());
        assert(strings_view(args@) =~= before + env_args(env@.take(i + 1)));
        i += 1;
    }
    assert(env@.take(env@.len() as int) == env@);
}

/// The arguments of `workspace create`.
pub open spec fn workspace_create_args(o: WorkspaceCreate) -> Seq<Seq<char>> {
    seq!["workspace"@, "create"@] + option_args("--cwd"@, o.cwd) + option_args("--label"@, o.label)
        + env_args(o.env@) + seq![focus_flag(o.focus)]
}

/// The arguments of `tab create`.
pub open spec fn tab_create_args(o: TabCreate) -> Seq<Seq<char>> {
    seq!["tab"@, "create"@] + option_args("--workspace"@, o.workspace_id) + option_args(
        "--cwd"@,
        o.cwd,
    ) + option_args("--label"@, o.label) + env_args(o.env@) + seq![focus_flag(o.focus)]
}

/// The arguments of `pane focus --direction`.
pub open spec fn pane_focus_args(o: PaneFocus) -> Seq<Seq<char>> {
    seq!["pane"@, "focus"@, "--direction"@, pane_direction_name(o.direction)] + match o.source {
        PaneTarget::PaneId(id) => seq!["--pane"@, id@],
        PaneTarget::Current => seq!["--current"@],
        PaneTarget::Focused => seq![],
    }
}

/// The arguments of `pane rename`: a new label, or `--clear`.
pub open spec fn pane_rename_args(pane_id: Seq<char>, label: Option<Seq<char>>) -> Seq<Seq<char>> {
    seq!["pane"@, "rename"@, pane_id] + match label {
        Some(l) => seq![l],
        None => seq!["--clear"@],
    }
}

impl WorkspaceCreate {
    /// The command-line arguments of this request.
    pub fn args(&self) -> (r: Vec<String>)
        ensures
            strings_view(r@) == workspace_create_args(*self),
    {
        let mut args: Vec<String> = Vec::new();
        push_owned(&mut args, "workspace");
        push_owned(&mut args, "create");
        push_string_option(&mut args, "--cwd", &self.cwd);
        push_string_option(&mut args, "--label", &self.label);
        push_env_options(&mut args, &self.env);
        if self.focus {
            push_owned(&mut args, "--focus");
        } else {
            push_owned(&mut args, "--no-focus");
        }
        assert(strings_view(args@) =~= workspace_create_args(*self));
        args
    }
}

impl TabCreate {
    /// The command-line arguments of this request.
    pub fn args(&self) -> (r: Vec<String>)
        ensures
            strings_view(r@) == tab_create_args(*self),
    {
        let mut args: Vec<String> = Vec::new();
        push_owned(&mut args, "tab");
        push_owned(&mut args, "create");
        push_string_option(&mut args, "--workspace", &self.workspace_id);
        push_string_option(&mut args, "--cwd", &self.cwd);
        push_string_option(&mut args, "--label", &self.label);
        push_env_options(&mut args, &self.env);
        if self.focus {
            push_owned(&mut args, "--focus");
        } else {
            push_owned(&mut args, "--no-focus");
        }
        assert(strings_view(args@) =~= tab_create_args(*self));
        args
    }
}

impl PaneFocus {
    /// The command-line arguments of this request.
    pub fn args(&self) -> (r: Vec<String>)
        ensures
            strings_view(r@) == pane_focus_args(*self),
    {
        let mut args: Vec<String> = Vec::new();
        push_owned(&mut args, "pane");
        push_owned(&mut args, "focus");
        push_owned(&mut args, "--direction");
        push_owned(&mut args, self.direction.as_str());
        match &self.source {
            PaneTarget::PaneId(id) => {
                push_owned(&mut args, "--pane");
                push_owned(&mut args, id.as_str());
            },
            PaneTarget::Current => {
                push_owned(&mut args, "--current");
            },
            PaneTarget::Focused => {},
        }
        assert(strings_view(args@) =~= pane_focus_args(*self));
        args
    }
}

/// The command-line arguments of `pane rename`.
pub fn pane_rename_arguments(pane_id: &str, label: Option<&str>) -> (r: Vec<String>)
    ensures
        strings_view(r@) == pane_rename_args(
            pane_id@,
            match label {
                Some(l) => Some(l@),
                None => None,
            },
        ),
{
    let mut args: Vec<String> = Vec::new();
    push_owned(&mut args, "pane");
    push_owned(&mut args, "rename");
    push_owned(&mut args, pane_id);
    match label {
        Some(l) => push_owned(&mut args, l),
        None => push_owned(&mut args, "--clear"),
    }
    assert(strings_view(args@) =~= pane_rename_args(
        pane_id@,
        match label {
            Some(l) => Some(l@),
            None => None,
        },
    ));
    args
}


#[derive(Clone, Debug, PartialEq, Eq)]
pub struct WorkspaceWorktreeInfo {
    pub repo_key: String,
    pub repo_name: String,
    pub repo_root: String,
    pub checkout_path: String,
    pub is_linked_worktree: bool,
}

#[derive(Clone, Debug, PartialEq, Eq)]
pub struct WorkspaceInfo {
    pub workspace_id: String,
    pub number: usize,
    pub label: String,
    pub focused: bool,
    pub pane_count: usize,
    pub tab_count: usize,
    pub active_tab_id: String,
    pub worktree: Option<WorkspaceWorktreeInfo>,
}

#[derive(Clone, Debug, PartialEq, Eq)]
pub struct TabInfo {
    pub tab_id: String,
    pub workspace_id: String,
    pub number: usize,
    pub label: String,
    pub focused: bool,
    pub pane_count: usize,
}

#[derive(Clone, Debug, PartialEq, Eq)]
pub struct PaneInfo {
    pub pane_id: String,
    pub terminal_id: String,
    pub workspace_id: String,
    pub tab_id: String,
    pub focused: bool,
    pub cwd: Option<String>,
    pub foreground_cwd: Option<String>,
    pub label: Option<String>,
    pub agent: Option<String>,
    pub title: Option<String>,
    pub revision: u64,
}

#[derive(Clone, Debug, PartialEq, Eq)]
pub struct WorkspaceCreated {
    pub workspace: WorkspaceInfo,
    pub tab: TabInfo,
    pub root_pane: PaneInfo,
}

#[derive(Clone, Debug, PartialEq, Eq)]
pub struct TabCreated {
    pub tab: TabInfo,
    pub root_pane: PaneInfo,
}

#[derive(Clone, Debug, PartialEq, Eq)]
pub struct PaneFocusResult {
    pub changed: bool,
    pub reason: Option<String>,
    pub source_pane_id: String,
    pub focused_pane_id: Option<String>,
}

/// Herdr's `api snapshot`: every workspace, tab and pane of one server.
#[derive(Clone, Debug, PartialEq, Eq)]
pub struct SessionSnapshot {
    pub version: String,
    pub protocol: u32,
    pub focused_workspace_id: Option<String>,
    pub focused_tab_id: Option<String>,
    pub focused_pane_id: Option<String>,
    pub workspaces: Vec<WorkspaceInfo>,
    pub tabs: Vec<TabInfo>,
    pub panes: Vec<PaneInfo>,
}

/// Whether `std::path::Path` compares two paths equal (component by
/// component, so repeated and trailing separators do not count).
pub uninterp spec fn path_eq(a: Seq<char>, b: Seq<char>) -> bool;

/// Calls `Path == Path`. Of std's comparison only this is stated: a path
/// equals itself (`Path` is `Eq`).
#[verifier::external_body]
pub(crate) fn paths_equal(a: &str, b: &str) -> (r: bool)
    ensures
        r == path_eq(a@, b@),
        a@ == b@ ==> r,
{
    std::path::Path::new(a) == std::path::Path::new(b)
}

/// How a managed workspace was found again.
#[derive(Clone, Copy, Debug, PartialEq, Eq)]
pub enum RecoveryStrategy {
    ExactId,
    ExactLabelAndRootCwd,
}

#[derive(Clone, Copy, Debug)]
pub struct RecoveredWorkspace<'a> {
    pub workspace: &'a WorkspaceInfo,
    pub strategy: RecoveryStrategy,
}

/// Whether a pane belongs to the workspace and was launched in `cwd`.
pub open spec fn pane_launched_in(p: PaneInfo, workspace_id: Seq<char>, cwd: Seq<char>) -> bool {
    &&& p.workspace_id@ == workspace_id
    &&& p.cwd matches Some(c)
    &&& path_eq(c@, cwd)
}

/// Whether the workspace was launched in `cwd`: its worktree checkout is
/// there, or one of its panes was started there.
pub open spec fn has_launch_cwd(panes: Seq<PaneInfo>, w: WorkspaceInfo, cwd: Seq<char>) -> bool {
    ||| (w.worktree matches Some(t) && path_eq(t.checkout_path@, cwd))
    ||| exists|i: int| 0 <= i < panes.len() && pane_launched_in(#[trigger] panes[i], w.workspace_id@, cwd)
}

/// Whether `i` is the first workspace with this id.
pub open spec fn first_workspace(ws: Seq<WorkspaceInfo>, id: Seq<char>, i: int) -> bool {
    &&& 0 <= i < ws.len()
    &&& ws[i].workspace_id@ == id
    &&& forall|j: int| 0 <= j < i ==> (#[trigger] ws[j]).workspace_id@ != id
}

/// Whether `i` is the first pane with this id.
pub open spec fn first_pane(ps: Seq<PaneInfo>, id: Seq<char>, i: int) -> bool {
    &&& 0 <= i < ps.len()
    &&& ps[i].pane_id@ == id
    &&& forall|j: int| 0 <= j < i ==> (#[trigger] ps[j]).pane_id@ != id
}

/// The workspaces that carry `label` and were launched in `cwd`.
pub open spec fn label_cwd_pred(panes: Seq<PaneInfo>, label: Seq<char>, cwd: Seq<char>) -> spec_fn(
    WorkspaceInfo,
) -> bool {
    |w: WorkspaceInfo| w.label@ == label && has_launch_cwd(panes, w, cwd)
}

impl SessionSnapshot {
    /// The first workspace with exactly this id.
    pub fn workspace_by_exact_id(&self, workspace_id: &str) -> (r: Option<&WorkspaceInfo>)
        ensures
            match r {
                Some(w) => exists|i: int|
                    first_workspace(self.workspaces@, workspace_id@, i) && *w == self.workspaces@[i],
                None => forall|i: int|
                    0 <= i < self.workspaces@.len() ==> (#[trigger] self.workspaces@[i]).workspace_id@
                        != workspace_id@,
            },
    {
        let mut i: usize = 0;
        while i < self.workspaces.len()
            invariant
                i <= self.workspaces@.len(),
                forall|j: int|
                    0 <= j < i ==> (#[trigger] self.workspaces@[j]).workspace_id@ != workspace_id@,
            decreases self.workspaces.len() - i,
        {
            if str_eq(self.workspaces[i].workspace_id.as_str(), workspace_id) {
                assert(first_workspace(self.workspaces@, workspace_id@, i as int));
                return Some(&self.workspaces[i]);
            }
            i += 1;
        }
        None
    }

    /// The first pane with exactly this id.
    pub fn pane_by_exact_id(&self, pane_id: &str) -> (r: Option<&PaneInfo>)
        ensures
            match r {
                Some(p) => exists|i: int| first_pane(self.panes@, pane_id@, i) && *p == self.panes@[i],
                None => forall|i: int|
                    0 <= i < self.panes@.len() ==> (#[trigger] self.panes@[i]).pane_id@ != pane_id@,
            },
    {
        let mut i: usize = 0;
        while i < self.panes.len()
            invariant
                i <= self.panes@.len(),
                forall|j: int| 0 <= j < i ==> (#[trigger] self.panes@[j]).pane_id@ != pane_id@,
            decreases self.panes.len() - i,
        {
            if str_eq(self.panes[i].pane_id.as_str(), pane_id) {
                assert(first_pane(self.panes@, pane_id@, i as int));
                return Some(&self.panes[i]);
            }
            i += 1;
        }
        None
    }

    /// Herdr protocol 17 does not put a cwd on a workspace; its launch cwd
    /// lives on its panes (and, for a worktree, on the checkout path).
    pub fn workspace_has_exact_launch_cwd(&self, workspace: &WorkspaceInfo, root_cwd: &str) -> (r:
        bool)
        ensures
            r == has_launch_cwd(self.panes@, *workspace, root_cwd@),
    {
        if let Some(t) = &workspace.worktree {
            if paths_equal(t.checkout_path.as_str(), root_cwd) {
                return true;
            }
        }
        let mut i: usize = 0;
        while i < self.panes.len()
            invariant
                i <= self.panes@.len(),
                !(workspace.worktree matches Some(t) && path_eq(t.checkout_path@, root_cwd@)),
                forall|j: int|
                    0 <= j < i ==> !pane_launched_in(
                        #[trigger] self.panes@[j],
                        workspace.workspace_id@,
                        root_cwd@,
                    ),
            decreases self.panes.len() - i,
        {
            let p = &self.panes[i];
            if str_eq(p.workspace_id.as_str(), workspace.workspace_id.as_str()) {
                if let Some(c) = &p.cwd {
                    if paths_equal(c.as_str(), root_cwd) {
                        assert(pane_launched_in(self.panes@[i as int], workspace.workspace_id@, root_cwd@));
                        return true;
                    }
                }
            }
            i += 1;
        }
        false
    }

    /// The one workspace with this label that was launched in `root_cwd`;
    /// none, or an error when several match.
    pub fn workspace_by_unique_exact_label_and_root_cwd(&self, label: &str, root_cwd: &str) -> (r:
        Result<Option<&WorkspaceInfo>, HerdrError>)
        ensures
            ({
                let p = label_cwd_pred(self.panes@, label@, root_cwd@);
                let n = self.workspaces@.filter(p).len();
                match r {
                    Ok(None) => n == 0,
                    Ok(Some(w)) => n == 1 && *w == self.workspaces@.filter(p)[0],
                    Err(e) => n > 1 && (e matches HerdrError::AmbiguousRecovery {
                        label: l,
                        root_cwd: c,
                        matches,
                    } && l@ == label@ && c@ == root_cwd@ && matches == n),
                }
            }),
    {
        let ghost p = label_cwd_pred(self.panes@, label@, root_cwd@);
        let ghost ws = self.workspaces@;
        let mut count: usize = 0;
        let mut first: Option<usize> = None;
        let mut i: usize = 0;
        while i < self.workspaces.len()
            invariant
                i <= ws.len(),
                ws == self.workspaces@,
                p == label_cwd_pred(self.panes@, label@, root_cwd@),
                count == ws.take(i as int).filter(p).len(),
                count <= i,
                count == 0 <==> first is None,
                first matches Some(k) ==> k < i && ws[k as int] == ws.take(i as int).filter(p)[0],
            decreases ws.len() - i,
        {
            let w = &self.workspaces[i];
            let hit = str_eq(w.label.as_str(), label) && self.workspace_has_exact_launch_cwd(w, root_cwd);
            proof {
                assert(ws.take(i + 1) == ws.take(i as int).push(ws[i as int]));
                ws.take(i as int).lemma_filter_push(ws[i as int], p);
                assert(hit == p(ws[i as int]));
            }
            if hit {
                if count == 0 {
                    first = Some(i);
                }
                count += 1;
            }
            i += 1;
        }
        assert(ws.take(ws.len() as int) == ws);
        if count == 0 {
            Ok(None)
        } else if count == 1 {
            match first {
                Some(k) => Ok(Some(&self.workspaces[k])),
                None => Ok(None),
            }
        } else {
            Err(
                HerdrError::AmbiguousRecovery {
                    label: label.to_owned(),
                    root_cwd: root_cwd.to_owned(),
                    matches: count,
                },
            )
        }
    }
}


/// One bootmux-owned Herdr workspace. Paths are compared lexically:
/// adoption must not silently cross symlink or case boundaries.
#[derive(Clone, Debug, PartialEq, Eq)]
pub struct ManagedWorkspace {
    /// Canonical socket identity used for ownership comparisons.
    pub endpoint: Endpoint,
    /// Selector used to restart the same server, especially a named session.
    pub launch_endpoint: Option<Endpoint>,
    pub workspace_id: String,
    pub label: String,
    pub root_cwd: String,
    pub config_path: String,
    pub project_name: String,
    pub root_pane_id: Option<String>,
    /// Fully rendered at start time so stop-all needs no template inputs.
    pub stop_hook: Option<String>,
}

impl SessionSnapshot {
    /// Recovers a managed workspace by its stable id first, then by a unique
    /// exact label and launch cwd. A workspace whose id matches but whose
    /// label or launch cwd does not is not ours; several fallback matches are
    /// an error rather than an arbitrary adoption.
    pub fn recover_workspace(&self, managed: &ManagedWorkspace) -> (r: Result<
        Option<RecoveredWorkspace<'_>>,
        HerdrError,
    >)
        ensures
            ({
                let ws = self.workspaces@;
                let id = managed.workspace_id@;
                let p = label_cwd_pred(self.panes@, managed.label@, managed.root_cwd@);
                if exists|i: int| 0 <= i < ws.len() && (#[trigger] ws[i]).workspace_id@ == id {
                    exists|i: int|
                        first_workspace(ws, id, i) && if ws[i].label@ == managed.label@
                            && has_launch_cwd(self.panes@, ws[i], managed.root_cwd@) {
                            r matches Ok(Some(rw)) && *rw.workspace == ws[i] && rw.strategy
                                == RecoveryStrategy::ExactId
                        } else {
                            r matches Err(HerdrError::OwnershipMismatch {
                                workspace_id,
                                label,
                                root_cwd,
                            }) && workspace_id@ == id && label@ == managed.label@ && root_cwd@
                                == managed.root_cwd@
                        }
                } else {
                    let n = ws.filter(p).len();
                    match r {
                        Ok(None) => n == 0,
                        Ok(Some(rw)) => n == 1 && *rw.workspace == ws.filter(p)[0] && rw.strategy
                            == RecoveryStrategy::ExactLabelAndRootCwd,
                        Err(e) => n > 1 && (e matches HerdrError::AmbiguousRecovery {
                            label,
                            root_cwd,
                            matches,
                        } && label@ == managed.label@ && root_cwd@ == managed.root_cwd@ && matches
                            == n),
                    }
                }
            }),
    {
        if let Some(workspace) = self.workspace_by_exact_id(managed.workspace_id.as_str()) {
            if !str_eq(workspace.label.as_str(), managed.label.as_str())
                || !self.workspace_has_exact_launch_cwd(workspace, managed.root_cwd.as_str()) {
                return Err(
                    HerdrError::OwnershipMismatch {
                        workspace_id: managed.workspace_id.clone(),
                        label: managed.label.clone(),
                        root_cwd: managed.root_cwd.clone(),
                    },
                );
            }
            return Ok(Some(RecoveredWorkspace { workspace, strategy: RecoveryStrategy::ExactId }));
        }
        match self.workspace_by_unique_exact_label_and_root_cwd(
            managed.label.as_str(),
            managed.root_cwd.as_str(),
        ) {
            Ok(Some(workspace)) => Ok(
                Some(
                    RecoveredWorkspace {
                        workspace,
                        strategy: RecoveryStrategy::ExactLabelAndRootCwd,
                    },
                ),
            ),
            Ok(None) => Ok(None),
            Err(e) => Err(e),
        }
    }
}


/// Whether a managed workspace has this endpoint and workspace id.
pub open spec fn id_match(m: ManagedWorkspace, e: EndpointView, id: Seq<char>) -> bool {
    m.endpoint@ == e && m.workspace_id@ == id
}

/// Whether `i` is the first entry with this endpoint and workspace id.
pub open spec fn first_id(s: Seq<ManagedWorkspace>, e: EndpointView, id: Seq<char>, i: int) -> bool {
    &&& 0 <= i < s.len()
    &&& id_match(s[i], e, id)
    &&& forall|j: int| 0 <= j < i ==> !id_match(#[trigger] s[j], e, id)
}

/// The entry with this endpoint and workspace id (the first one).
pub open spec fn find_id(s: Seq<ManagedWorkspace>, e: EndpointView, id: Seq<char>) -> Option<
    ManagedWorkspace,
> {
    if exists|i: int| first_id(s, e, id, i) {
        Some(s[choose|i: int| first_id(s, e, id, i)])
    } else {
        None
    }
}

/// `upsert`: the entry with the same endpoint and id is replaced, else the
/// new one is appended.
pub open spec fn spec_upsert(s: Seq<ManagedWorkspace>, m: ManagedWorkspace) -> Seq<ManagedWorkspace> {
    if exists|i: int| first_id(s, m.endpoint@, m.workspace_id@, i) {
        s.update(choose|i: int| first_id(s, m.endpoint@, m.workspace_id@, i), m)
    } else {
        s.push(m)
    }
}

pub open spec fn other_id(e: EndpointView, id: Seq<char>) -> spec_fn(ManagedWorkspace) -> bool {
    |m: ManagedWorkspace| !id_match(m, e, id)
}

/// `remove_exact_id`: every entry with this endpoint and id is dropped.
pub open spec fn spec_remove(s: Seq<ManagedWorkspace>, e: EndpointView, id: Seq<char>) -> Seq<
    ManagedWorkspace,
> {
    s.filter(other_id(e, id))
}

/// Whether two entries have the same endpoint and workspace id.
pub open spec fn same_key(a: ManagedWorkspace, b: ManagedWorkspace) -> bool {
    a.endpoint@ == b.endpoint@ && a.workspace_id@ == b.workspace_id@
}

/// No two entries share an endpoint and workspace id.
pub open spec fn unique_ids(s: Seq<ManagedWorkspace>) -> bool {
    forall|i: int, j: int|
        0 <= i < s.len() && 0 <= j < s.len() && i != j ==> !same_key(#[trigger] s[i], #[trigger] s[j])
}

pub open spec fn label_pred(e: EndpointView, label: Seq<char>, cwd: Seq<char>) -> spec_fn(
    ManagedWorkspace,
) -> bool {
    |m: ManagedWorkspace| m.endpoint@ == e && m.label@ == label && path_eq(m.root_cwd@, cwd)
}

proof fn lemma_first_id_exists(s: Seq<ManagedWorkspace>, e: EndpointView, id: Seq<char>, k: int)
    requires
        0 <= k < s.len(),
        id_match(s[k], e, id),
    ensures
        exists|i: int| first_id(s, e, id, i),
    decreases k,
{
    if exists|j: int| 0 <= j < k && id_match(#[trigger] s[j], e, id) {
        let j = choose|j: int| 0 <= j < k && id_match(#[trigger] s[j], e, id);
        lemma_first_id_exists(s, e, id, j);
    } else {
        assert(first_id(s, e, id, k));
    }
}

proof fn lemma_first_id_unique(s: Seq<ManagedWorkspace>, e: EndpointView, id: Seq<char>, i: int, j: int)
    requires
        first_id(s, e, id, i),
        first_id(s, e, id, j),
    ensures
        i == j,
{
    if i < j {
        assert(!id_match(s[i], e, id));
    }
    if j < i {
        assert(!id_match(s[j], e, id));
    }
}

fn clone_opt(o: &Option<String>) -> (r: Option<String>)
    ensures
        r == *o,
{
    match o {
        Some(v) => Some(v.clone()),
        None => None,
    }
}

fn clone_endpoint(e: &Endpoint) -> (r: Endpoint)
    ensures
        r == *e,
{
    match e {
        Endpoint::Default => Endpoint::Default,
        Endpoint::NamedSession(n) => Endpoint::NamedSession(n.clone()),
        Endpoint::SocketPath(p) => Endpoint::SocketPath(p.clone()),
    }
}

fn clone_managed(m: &ManagedWorkspace) -> (r: ManagedWorkspace)
    ensures
        r == *m,
{
    ManagedWorkspace {
        endpoint: clone_endpoint(&m.endpoint),
        launch_endpoint: match &m.launch_endpoint {
            Some(e) => Some(clone_endpoint(e)),
            None => None,
        },
        workspace_id: m.workspace_id.clone(),
        label: m.label.clone(),
        root_cwd: m.root_cwd.clone(),
        config_path: m.config_path.clone(),
        project_name: m.project_name.clone(),
        root_pane_id: clone_opt(&m.root_pane_id),
        stop_hook: clone_opt(&m.stop_hook),
    }
}

/// The persisted list of bootmux-owned Herdr workspaces.
#[derive(Clone, Debug, PartialEq, Eq)]
pub struct StateIndex {
    pub version: u32,
    pub managed_workspaces: Vec<ManagedWorkspace>,
}

impl Default for StateIndex {
    fn default() -> (r: Self)
        ensures
            r.version == STATE_INDEX_VERSION,
            r.managed_workspaces@.len() == 0,
    {
        StateIndex { version: STATE_INDEX_VERSION, managed_workspaces: Vec::new() }
    }
}

impl StateIndex {
    /// The entry with exactly this endpoint and workspace id.
    pub fn managed_by_exact_id(&self, endpoint: &Endpoint, workspace_id: &str) -> (r: Option<
        &ManagedWorkspace,
    >)
        ensures
            match r {
                Some(m) => find_id(self.managed_workspaces@, endpoint@, workspace_id@) == Some(*m),
                None => find_id(self.managed_workspaces@, endpoint@, workspace_id@) is None,
            },
    {
        let ghost s = self.managed_workspaces@;
        let mut i: usize = 0;
        while i < self.managed_workspaces.len()
            invariant
                i <= s.len(),
                s == self.managed_workspaces@,
                forall|j: int| 0 <= j < i ==> !id_match(#[trigger] s[j], endpoint@, workspace_id@),
            decreases s.len() - i,
        {
            let m = &self.managed_workspaces[i];
            if same_endpoint(&m.endpoint, endpoint) && str_eq(m.workspace_id.as_str(), workspace_id) {
                proof {
                    assert(first_id(s, endpoint@, workspace_id@, i as int));
                    let c = choose|k: int| first_id(s, endpoint@, workspace_id@, k);
                    lemma_first_id_unique(s, endpoint@, workspace_id@, c, i as int);
                }
                return Some(m);
            }
            i += 1;
        }
        None
    }

    /// The one entry with this endpoint, label and root cwd; none, or an
    /// error when several match.
    pub fn managed_by_unique_exact_label_and_root_cwd(
        &self,
        endpoint: &Endpoint,
        label: &str,
        root_cwd: &str,
    ) -> (r: Result<Option<&ManagedWorkspace>, HerdrError>)
        ensures
            ({
                let p = label_pred(endpoint@, label@, root_cwd@);
                let n = self.managed_workspaces@.filter(p).len();
                match r {
                    Ok(None) => n == 0,
                    Ok(Some(m)) => n == 1 && *m == self.managed_workspaces@.filter(p)[0],
                    Err(e) => n > 1 && (e matches HerdrError::AmbiguousRecovery {
                        label: l,
                        root_cwd: c,
                        matches,
                    } && l@ == label@ && c@ == root_cwd@ && matches == n),
                }
            }),
    {
        let ghost p = label_pred(endpoint@, label@, root_cwd@);
        let ghost s = self.managed_workspaces@;
        let mut count: usize = 0;
        let mut first: Option<usize> = None;
        let mut i: usize = 0;
        while i < self.managed_workspaces.len()
            invariant
                i <= s.len(),
                s == self.managed_workspaces@,
                p == label_pred(endpoint@, label@, root_cwd@),
                count == s.take(i as int).filter(p).len(),
                count <= i,
                count == 0 <==> first is None,
                first matches Some(k) ==> k < i && s[k as int] == s.take(i as int).filter(p)[0],
            decreases s.len() - i,
        {
            let m = &self.managed_workspaces[i];
            let hit = same_endpoint(&m.endpoint, endpoint) && str_eq(m.label.as_str(), label)
                && paths_equal(m.root_cwd.as_str(), root_cwd);
            proof {
                assert(s.take(i + 1) == s.take(i as int).push(s[i as int]));
                s.take(i as int).lemma_filter_push(s[i as int], p);
                assert(hit == p(s[i as int]));
            }
            if hit {
                if count == 0 {
                    first = Some(i);
                }
                count += 1;
            }
            i += 1;
        }
        assert(s.take(s.len() as int) == s);
        if count == 0 {
            Ok(None)
        } else if count == 1 {
            match first {
                Some(k) => Ok(Some(&self.managed_workspaces[k])),
                None => Ok(None),
            }
        } else {
            Err(
                HerdrError::AmbiguousRecovery {
                    label: label.to_owned(),
                    root_cwd: root_cwd.to_owned(),
                    matches: count,
                },
            )
        }
    }

    /// The entry with this endpoint and workspace id, else the one with
    /// this endpoint, label and root cwd.
    pub fn recover_managed(
        &self,
        endpoint: &Endpoint,
        workspace_id: &str,
        label: &str,
        root_cwd: &str,
    ) -> (r: Result<Option<&ManagedWorkspace>, HerdrError>)
        ensures
            ({
                let s = self.managed_workspaces@;
                let p = label_pred(endpoint@, label@, root_cwd@);
                let n = s.filter(p).len();
                match find_id(s, endpoint@, workspace_id@) {
                    Some(m) => r matches Ok(Some(x)) && *x == m,
                    None => match r {
                        Ok(None) => n == 0,
                        Ok(Some(m)) => n == 1 && *m == s.filter(p)[0],
                        Err(e) => n > 1 && (e matches HerdrError::AmbiguousRecovery {
                            label: l,
                            root_cwd: c,
                            matches,
                        } && l@ == label@ && c@ == root_cwd@ && matches == n),
                    },
                }
            }),
    {
        if let Some(managed) = self.managed_by_exact_id(endpoint, workspace_id) {
            return Ok(Some(managed));
        }
        self.managed_by_unique_exact_label_and_root_cwd(endpoint, label, root_cwd)
    }

    /// Records a managed workspace, replacing the entry with the same
    /// endpoint and workspace id.
    pub fn upsert(&mut self, managed: ManagedWorkspace)
        ensures
            final(self).version == old(self).version,
            final(self).managed_workspaces@ == spec_upsert(old(self).managed_workspaces@, managed),
    {
        let ghost s = self.managed_workspaces@;
        let ghost e = managed.endpoint@;
        let ghost id = managed.workspace_id@;
        let mut i: usize = 0;
        while i < self.managed_workspaces.len()
            invariant
                i <= s.len(),
                s == self.managed_workspaces@,
                self.version == old(self).version,
                s == old(self).managed_workspaces@,
                e == managed.endpoint@,
                id == managed.workspace_id@,
                forall|j: int| 0 <= j < i ==> !id_match(#[trigger] s[j], e, id),
            decreases s.len() - i,
        {
            if same_endpoint(&self.managed_workspaces[i].endpoint, &managed.endpoint) && str_eq(
                self.managed_workspaces[i].workspace_id.as_str(),
                managed.workspace_id.as_str(),
            ) {
                proof {
                    assert(first_id(s, e, id, i as int));
                    let c = choose|k: int| first_id(s, e, id, k);
                    lemma_first_id_unique(s, e, id, c, i as int);
                }
                self.managed_workspaces.set(i, managed);
                return ;
            }
            i += 1;
        }
        proof {
            if exists|k: int| first_id(s, e, id, k) {
                let k = choose|k: int| first_id(s, e, id, k);
                assert(!id_match(s[k], e, id));
            }
        }
        self.managed_workspaces.push(managed);
    }

    /// Drops the entries with this endpoint and workspace id; whether any
    /// was there.
    pub fn remove_exact_id(&mut self, endpoint: &Endpoint, workspace_id: &str) -> (r: bool)
        ensures
            final(self).version == old(self).version,
            final(self).managed_workspaces@ == spec_remove(
                old(self).managed_workspaces@,
                endpoint@,
                workspace_id@,
            ),
            r == exists|i: int|
                0 <= i < old(self).managed_workspaces@.len() && id_match(
                    #[trigger] old(self).managed_workspaces@[i],
                    endpoint@,
                    workspace_id@,
                ),
    {
        let ghost s = self.managed_workspaces@;
        let ghost p = other_id(endpoint@, workspace_id@);
        let mut kept: Vec<ManagedWorkspace> = Vec::new();
        let mut i: usize = 0;
        while i < self.managed_workspaces.len()
            invariant
                i <= s.len(),
                s == self.managed_workspaces@,
                p == other_id(endpoint@, workspace_id@),
                kept@ == s.take(i as int).filter(p),
                kept@.len() <= i,
                kept@.len() == i <==> forall|j: int|
                    0 <= j < i ==> !id_match(#[trigger] s[j], endpoint@, workspace_id@),
            decreases s.len() - i,
        {
            let m = &self.managed_workspaces[i];
            let hit = same_endpoint(&m.endpoint, endpoint) && str_eq(m.workspace_id.as_str(), workspace_id);
            proof {
                assert(s.take(i + 1) == s.take(i as int).push(s[i as int]));
                s.take(i as int).lemma_filter_push(s[i as int], p);
                s.take(i as int).lemma_filter_len(p);
            }
            if !hit {
                kept.push(clone_managed(m));
            }
            i += 1;
        }
        assert(s.take(s.len() as int) == s);
        let removed = kept.len() != self.managed_workspaces.len();
        self.managed_workspaces = kept;
        removed
    }
}


/// After `upsert(m)`, looking up `m`'s endpoint and workspace id gives `m`.
pub proof fn upsert_then_lookup(s: Seq<ManagedWorkspace>, m: ManagedWorkspace)
    ensures
        find_id(spec_upsert(s, m), m.endpoint@, m.workspace_id@) == Some(m),
{
    let e = m.endpoint@;
    let id = m.workspace_id@;
    let u = spec_upsert(s, m);
    if exists|i: int| first_id(s, e, id, i) {
        let k = choose|i: int| first_id(s, e, id, i);
        assert(u == s.update(k, m));
        assert(first_id(u, e, id, k));
        let c = choose|i: int| first_id(u, e, id, i);
        lemma_first_id_unique(u, e, id, c, k);
    } else {
        assert forall|j: int| 0 <= j < s.len() implies !id_match(#[trigger] s[j], e, id) by {
            if id_match(s[j], e, id) {
                lemma_first_id_exists(s, e, id, j);
            }
        }
        assert(u == s.push(m));
        assert(first_id(u, e, id, s.len() as int));
        let c = choose|i: int| first_id(u, e, id, i);
        lemma_first_id_unique(u, e, id, c, s.len() as int);
    }
}

/// `upsert(m)` leaves the lookup of every other endpoint and workspace id
/// as it was.
pub proof fn upsert_keeps_other_entries(
    s: Seq<ManagedWorkspace>,
    m: ManagedWorkspace,
    e: EndpointView,
    id: Seq<char>,
)
    requires
        !(e == m.endpoint@ && id == m.workspace_id@),
    ensures
        find_id(spec_upsert(s, m), e, id) == find_id(s, e, id),
{
    let u = spec_upsert(s, m);
    let me = m.endpoint@;
    let mid = m.workspace_id@;
    assert(!id_match(m, e, id));
    if exists|i: int| first_id(s, me, mid, i) {
        let k = choose|i: int| first_id(s, me, mid, i);
        assert(u == s.update(k, m));
        assert(!id_match(s[k], e, id));
        assert forall|j: int| 0 <= j < s.len() implies (id_match(#[trigger] u[j], e, id)
            <==> id_match(s[j], e, id)) by {
            if j == k {
                assert(u[j] == m);
            } else {
                assert(u[j] == s[j]);
            }
        }
        assert forall|i: int| first_id(u, e, id, i) <==> first_id(s, e, id, i) by {
            if first_id(u, e, id, i) {
                assert forall|j: int| 0 <= j < i implies !id_match(#[trigger] s[j], e, id) by {
                    assert(!id_match(u[j], e, id));
                }
            }
            if first_id(s, e, id, i) {
                assert forall|j: int| 0 <= j < i implies !id_match(#[trigger] u[j], e, id) by {
                    assert(!id_match(s[j], e, id));
                }
            }
        }
        if exists|i: int| first_id(s, e, id, i) {
            let a = choose|i: int| first_id(u, e, id, i);
            let b = choose|i: int| first_id(s, e, id, i);
            lemma_first_id_unique(s, e, id, a, b);
            assert(a != k);
            assert(u[a] == s[a]);
        }
    } else {
        assert(u == s.push(m));
        assert forall|j: int| 0 <= j < s.len() implies (#[trigger] u[j]) == s[j] by {}
        assert forall|i: int| first_id(u, e, id, i) <==> first_id(s, e, id, i) by {
            if i == s.len() {
                assert(u[i] == m);
            }
            if first_id(u, e, id, i) {
                assert forall|j: int| 0 <= j < i implies !id_match(#[trigger] s[j], e, id) by {
                    assert(!id_match(u[j], e, id));
                }
            }
            if first_id(s, e, id, i) {
                assert forall|j: int| 0 <= j < i implies !id_match(#[trigger] u[j], e, id) by {
                    assert(!id_match(s[j], e, id));
                }
            }
        }
        if exists|i: int| first_id(s, e, id, i) {
            let a = choose|i: int| first_id(u, e, id, i);
            let b = choose|i: int| first_id(s, e, id, i);
            lemma_first_id_unique(s, e, id, a, b);
            assert(u[a] == s[a]);
        }
    }
}

/// After `remove_exact_id(e, id)` nothing is found under `e` and `id`.
pub proof fn remove_then_lookup(s: Seq<ManagedWorkspace>, e: EndpointView, id: Seq<char>)
    ensures
        find_id(spec_remove(s, e, id), e, id) is None,
{
    broadcast use vstd::seq_lib::group_filter_ensures;

    let r = spec_remove(s, e, id);
    if exists|i: int| first_id(r, e, id, i) {
        let i = choose|i: int| first_id(r, e, id, i);
        s.lemma_filter_pred(other_id(e, id), i);
    }
}

/// `remove_exact_id(e, id)` keeps every entry under another endpoint or
/// workspace id.
pub proof fn remove_keeps_other_entries(s: Seq<ManagedWorkspace>, e: EndpointView, id: Seq<char>, i: int)
    requires
        0 <= i < s.len(),
        !id_match(s[i], e, id),
    ensures
        spec_remove(s, e, id).contains(s[i]),
{
    s.lemma_filter_contains(other_id(e, id), i);
}

/// `upsert` never puts two entries under one endpoint and workspace id.
pub proof fn upsert_keeps_ids_unique(s: Seq<ManagedWorkspace>, m: ManagedWorkspace)
    requires
        unique_ids(s),
    ensures
        unique_ids(spec_upsert(s, m)),
{
    let e = m.endpoint@;
    let id = m.workspace_id@;
    let u = spec_upsert(s, m);
    if exists|i: int| first_id(s, e, id, i) {
        let k = choose|i: int| first_id(s, e, id, i);
        assert(u == s.update(k, m));
        assert forall|i: int, j: int|
            0 <= i < u.len() && 0 <= j < u.len() && i != j implies !same_key(
            #[trigger] u[i],
            #[trigger] u[j],
        ) by {
            assert(same_key(m, s[k]));
            if i == k {
                assert(!same_key(s[k], s[j]));
            } else if j == k {
                assert(!same_key(s[i], s[k]));
            } else {
                assert(!same_key(s[i], s[j]));
            }
        }
    } else {
        assert forall|j: int| 0 <= j < s.len() implies !id_match(#[trigger] s[j], e, id) by {
            if id_match(s[j], e, id) {
                lemma_first_id_exists(s, e, id, j);
            }
        }
        assert(u == s.push(m));
        assert forall|i: int, j: int|
            0 <= i < u.len() && 0 <= j < u.len() && i != j implies !same_key(
            #[trigger] u[i],
            #[trigger] u[j],
        ) by {
            if i == s.len() {
                assert(!id_match(s[j], e, id));
            } else if j == s.len() {
                assert(!id_match(s[i], e, id));
            } else {
                assert(!same_key(s[i], s[j]));
            }
        }
    }
}


/// How long to wait for a freshly started server, in milliseconds.
#[derive(Clone, Copy, Debug, PartialEq, Eq)]
pub struct ReadinessOptions {
    pub timeout_ms: u64,
    pub poll_interval_ms: u64,
}

impl Default for ReadinessOptions {
    fn default() -> (r: Self)
        ensures
            r.timeout_ms == 15000 && r.poll_interval_ms == 50,
    {
        ReadinessOptions { timeout_ms: 15000, poll_interval_ms: 50 }
    }
}

/// How long to wait for the state file lock, in milliseconds.
#[derive(Clone, Copy, Debug, PartialEq, Eq)]
pub struct LockOptions {
    pub timeout_ms: u64,
    pub poll_interval_ms: u64,
}

impl Default for LockOptions {
    fn default() -> (r: Self)
        ensures
            r.timeout_ms == 2000 && r.poll_interval_ms == 20,
    {
        LockOptions { timeout_ms: 2000, poll_interval_ms: 20 }
    }
}

/// The versioned JSON store of managed workspaces. Reading and writing the
/// file is the caller's part; this holds where it is and what it accepts.
#[derive(Clone, Debug)]
pub struct StateStore {
    path: String,
    lock_options: LockOptions,
}

impl StateStore {
    pub closed spec fn path_view(&self) -> Seq<char> {
        self.path@
    }

    pub closed spec fn lock_options_view(&self) -> LockOptions {
        self.lock_options
    }

    pub fn new(path: String) -> (r: Self)
        ensures
            r.path_view() == path@,
            r.lock_options_view() == (LockOptions { timeout_ms: 2000, poll_interval_ms: 20 }),
    {
        StateStore { path, lock_options: LockOptions::default() }
    }

    pub fn with_lock_options(self, options: LockOptions) -> (r: Self)
        ensures
            r.path_view() == self.path_view(),
            r.lock_options_view() == options,
    {
        StateStore { path: self.path, lock_options: options }
    }

    pub fn path(&self) -> (r: &str)
        ensures
            r@ == self.path_view(),
    {
        self.path.as_str()
    }

    pub fn lock_options(&self) -> (r: LockOptions)
        ensures
            r == self.lock_options_view(),
    {
        self.lock_options
    }

    /// The store reads and writes only its own format version.
    pub fn check_version(&self, index: &StateIndex) -> (r: Result<(), HerdrError>)
        ensures
            match r {
                Ok(_) => index.version == STATE_INDEX_VERSION,
                Err(e) => index.version != STATE_INDEX_VERSION && (e matches HerdrError::UnsupportedStateVersion {
                    path,
                    found,
                    supported,
                } && path@ == self.path_view() && found == index.version && supported
                    == STATE_INDEX_VERSION),
            },
    {
        if index.version != STATE_INDEX_VERSION {
            return Err(
                HerdrError::UnsupportedStateVersion {
                    path: self.path.clone(),
                    found: index.version,
                    supported: STATE_INDEX_VERSION,
                },
            );
        }
        Ok(())
    }
}

/// `$XDG_STATE_HOME` when it is set to an absolute path, else
/// `$HOME/.local/state`.
pub open spec fn spec_state_home(env: Env) -> Option<Seq<char>> {
    match lookup(env.all@, "XDG_STATE_HOME"@) {
        Some(x) if x.len() > 0 && x[0] == '/' => Some(x),
        _ => match lookup(env.all@, "HOME"@) {
            Some(h) if h.len() > 0 => Some(path_join(path_join(h, ".local"@), "state"@)),
            _ => None,
        },
    }
}

/// The state directory bootmux uses.
pub fn xdg_state_home(env: &Env) -> (r: Result<String, HerdrError>)
    ensures
        match r {
            Ok(p) => spec_state_home(*env) == Some(p@),
            Err(e) => spec_state_home(*env) is None && e is StateHomeUnavailable,
        },
{
    if let Some(x) = env.var("XDG_STATE_HOME") {
        let xs = x.as_str();
        let xc = chars_of(xs);
        if xc.len() > 0 && xc[0] == '/' {
            return Ok(x.clone());
        }
    }
    match env.var("HOME") {
        Some(h) => {
            if h.as_str().is_empty() {
                return Err(HerdrError::StateHomeUnavailable);
            }
            let hc = chars_of(h.as_str());
            let l = chars_of(".local");
            let st = chars_of("state");
            let a = path_join_chars(hc.as_slice(), l.as_slice());
            let b = path_join_chars(a.as_slice(), st.as_slice());
            Ok(string_of(b.as_slice()))
        },
        None => Err(HerdrError::StateHomeUnavailable),
    }
}

/// Where the state index lives: `<state home>/bootmux/herdr-workspaces.json`.
pub fn default_state_index_path(env: &Env) -> (r: Result<String, HerdrError>)
    ensures
        match r {
            Ok(p) => spec_state_home(*env) matches Some(h) && p@ == path_join(
                path_join(h, "bootmux"@),
                STATE_INDEX_FILE_NAME@,
            ),
            Err(e) => spec_state_home(*env) is None && e is StateHomeUnavailable,
        },
{
    let home = xdg_state_home(env)?;
    let hc = chars_of(home.as_str());
    let b = chars_of("bootmux");
    let f = chars_of(STATE_INDEX_FILE_NAME);
    let a = path_join_chars(hc.as_slice(), b.as_slice());
    let p = path_join_chars(a.as_slice(), f.as_slice());
    Ok(string_of(p.as_slice()))
}

} // verus!

verus! {

/// The id bootmux gives its `pane.focus` socket requests.
pub const FOCUS_REQUEST_ID: &'static str = "bootmux:pane:focus";

/// A lower-case hexadecimal digit, for `d < 16`.
pub open spec fn lower_hex(d: u32) -> char {
    if d < 10 {
        (d + 48) as char
    } else {
        (d + 87) as char
    }
}

/// The JSON string escape of one character, as `serde_json` writes it.
pub open spec fn json_escape_char(c: char) -> Seq<char> {
    if c == '"' {
        seq!['\\', '"']
    } else if c == '\\' {
        seq!['\\', '\\']
    } else if c == '\n' {
        seq!['\\', 'n']
    } else if c == '\r' {
        seq!['\\', 'r']
    } else if c == '\t' {
        seq!['\\', 't']
    } else if c == '\u{8}' {
        seq!['\\', 'b']
    } else if c == '\u{c}' {
        seq!['\\', 'f']
    } else if (c as u32) < 0x20 {
        seq!['\\', 'u', '0', '0', lower_hex((c as u32) / 16), lower_hex((c as u32) % 16)]
    } else {
        seq![c]
    }
}

pub open spec fn json_escape(s: Seq<char>) -> Seq<char>
    decreases s.len(),
{
    if s.len() == 0 {
        seq![]
    } else {
        json_escape(s.drop_last()) + json_escape_char(s.last())
    }
}

/// A JSON string literal.
pub open spec fn json_string(s: Seq<char>) -> Seq<char> {
    seq!['"'] + json_escape(s) + seq!['"']
}

/// The newline-terminated `pane.focus` request of Herdr's socket API.
pub open spec fn spec_focus_request(request_id: Seq<char>, pane_id: Seq<char>) -> Seq<char> {
    "{\"id\":"@ + json_string(request_id) + ",\"method\":\"pane.focus\",\"params\":{\"pane_id\":"@
        + json_string(pane_id) + "}}\n"@
}

fn push_json_string(out: &mut Vec<char>, s: &str)
    ensures
        final(out)@ == old(out)@ + json_string(s@),
{
    let cs = chars_of(s);
    let ghost start = out@;
    out.push('"');
    let mut i: usize = 0;
    while i < cs.len()
        invariant
            i <= cs@.len(),
            out@ == start + seq!['"'] + json_escape(cs@.take(i as int)),
        decreases cs.len() - i,
    {
        let c = cs[i];
        let u = c as u32;
        let ghost before = out@;
        if c == '"' {
            out.push('\\');
            out.push('"');
        } else if c == '\\' {
            out.push('\\');
            out.push('\\');
        } else if c == '\n' {
            out.push('\\');
            out.push('n');
        } else if c == '\r' {
            out.push('\\');
            out.push('r');
        } else if c == '\t' {
            out.push('\\');
            out.push('t');
        } else if c == '\u{8}' {
            out.push('\\');
            out.push('b');
        } else if c == '\u{c}' {
            out.push('\\');
            out.push('f');
        } else if u < 0x20 {
            let hi = u / 16;
            let lo = u % 16;
            out.push('\\');
            out.push('u');
            out.push('0');
            out.push('0');
            out.push(if hi < 10 { ((hi + 48) as u8) as char } else { ((hi + 87) as u8) as char });
            out.push(if lo < 10 { ((lo + 48) as u8) as char } else { ((lo + 87) as u8) as char });
        } else {
            out.push(c);
        }
        assert(out@ =~= before + json_escape_char(c));
        assert(cs@.take(i + 1).drop_last() == cs@.take(i as int));
        i += 1;
    }
    assert(cs@.take(cs@.len() as int) == cs@);
    out.push('"');
    assert(out@ =~= start + json_string(s@));
}

/// The `pane.focus` request line for Herdr's socket API.
pub fn focus_request_line(request_id: &str, pane_id: &str) -> (r: String)
    ensures
        r@ == spec_focus_request(request_id@, pane_id@),
{
    let mut out: Vec<char> = Vec::new();
    extend_str(&mut out, "{\"id\":");
    push_json_string(&mut out, request_id);
    extend_str(&mut out, ",\"method\":\"pane.focus\",\"params\":{\"pane_id\":");
    push_json_string(&mut out, pane_id);
    extend_str(&mut out, "}}\n");
    string_of(out.as_slice())
}

/// The reply to a `pane.focus` request, as read from the socket.
pub struct SocketReply {
    pub id: String,
    pub result_type: String,
    pub pane: PaneInfo,
}

/// The command line a socket error names.
pub open spec fn socket_command(socket: Seq<char>) -> Seq<char> {
    "Herdr socket "@ + socket + " pane.focus"@
}

/// What a reply to `pane.focus` on `socket` means: Herdr's error envelope
/// is a refusal; otherwise the reply (or why it could not be read) must
/// carry this request's id and a `pane_info` result, which gives the pane.
pub fn focus_reply(
    socket: &str,
    request_id: &'static str,
    envelope: Option<(String, String)>,
    reply: Result<SocketReply, HerdrError>,
) -> (r: Result<PaneInfo, HerdrError>)
    ensures
        match envelope {
            Some((code, message)) => r matches Err(HerdrError::Cli { command, status, code: c, message: m })
                && command@ == socket_command(socket@) && status is None && c@ == code@ && m@ == message@,
            None => match reply {
                Err(e) => r == Err::<PaneInfo, HerdrError>(e),
                Ok(rep) => if rep.id@ != request_id@ {
                    r matches Err(HerdrError::UnexpectedResponseId { expected, found }) && expected
                        == request_id && found@ == rep.id@
                } else if rep.result_type@ != "pane_info"@ {
                    r matches Err(HerdrError::UnexpectedResult { expected, found }) && expected@
                        == "pane_info"@ && found@ == rep.result_type@
                } else {
                    r == Ok::<PaneInfo, HerdrError>(rep.pane)
                },
            },
        },
{
    match envelope {
        Some((code, message)) => {
            let mut command: Vec<char> = Vec::new();
            extend_str(&mut command, "Herdr socket ");
            extend_str(&mut command, socket);
            extend_str(&mut command, " pane.focus");
            Err(HerdrError::Cli { command: string_of(command.as_slice()), status: None, code, message })
        },
        None => match reply {
            Err(e) => Err(e),
            Ok(rep) => {
                if !str_eq(rep.id.as_str(), request_id) {
                    return Err(HerdrError::UnexpectedResponseId { expected: request_id, found: rep.id });
                }
                match expect_result_type(rep.result_type.as_str(), "pane_info") {
                    Ok(()) => Ok(rep.pane),
                    Err(e) => Err(e),
                }
            },
        },
    }
}


/// A request to Herdr's command line that names at most a few items.
pub enum HerdrRequest {
    /// `status --json`: the client's and the server's status.
    Status,
    /// `status server --json`.
    ServerStatus,
    /// `server`: starts the server.
    Server,
    /// `api snapshot`: the whole session.
    Snapshot,
    /// `workspace list`.
    WorkspaceList,
    WorkspaceGet(String),
    WorkspaceFocus(String),
    WorkspaceClose(String),
    TabFocus(String),
    TabRename { tab_id: String, label: String },
    TabClose(String),
    /// `pane split`, the share the existing pane keeps written as Herdr
    /// reads it; the new pane does not take focus.
    PaneSplit { pane_id: String, direction: SplitDirection, ratio: String, cwd: String },
}

/// The arguments of a request.
pub open spec fn request_args(r: HerdrRequest) -> Seq<Seq<char>> {
    match r {
        HerdrRequest::Status => seq!["status"@, "--json"@],
        HerdrRequest::ServerStatus => seq!["status"@, "server"@, "--json"@],
        HerdrRequest::Server => seq!["server"@],
        HerdrRequest::Snapshot => seq!["api"@, "snapshot"@],
        HerdrRequest::WorkspaceList => seq!["workspace"@, "list"@],
        HerdrRequest::WorkspaceGet(id) => seq!["workspace"@, "get"@, id@],
        HerdrRequest::WorkspaceFocus(id) => seq!["workspace"@, "focus"@, id@],
        HerdrRequest::WorkspaceClose(id) => seq!["workspace"@, "close"@, id@],
        HerdrRequest::TabFocus(id) => seq!["tab"@, "focus"@, id@],
        HerdrRequest::TabRename { tab_id, label } => seq!["tab"@, "rename"@, tab_id@, label@],
        HerdrRequest::TabClose(id) => seq!["tab"@, "close"@, id@],
        HerdrRequest::PaneSplit { pane_id, direction, ratio, cwd } => seq![
            "pane"@,
            "split"@,
            pane_id@,
            "--direction"@,
            match direction {
                SplitDirection::Right => "right"@,
                SplitDirection::Down => "down"@,
            },
            "--ratio"@,
            ratio@,
            "--cwd"@,
            cwd@,
            "--no-focus"@,
        ],
    }
}

/// The result type a successful reply to a request carries; the status
/// requests answer with the status itself.
pub open spec fn request_result(r: HerdrRequest) -> Option<Seq<char>> {
    match r {
        HerdrRequest::Status | HerdrRequest::ServerStatus | HerdrRequest::Server => None,
        HerdrRequest::Snapshot => Some("session_snapshot"@),
        HerdrRequest::WorkspaceList => Some("workspace_list"@),
        HerdrRequest::WorkspaceGet(_) | HerdrRequest::WorkspaceFocus(_) => Some("workspace_info"@),
        HerdrRequest::TabFocus(_) | HerdrRequest::TabRename { .. } => Some("tab_info"@),
        HerdrRequest::WorkspaceClose(_) | HerdrRequest::TabClose(_) => Some("ok"@),
        HerdrRequest::PaneSplit { .. } => Some("pane_info"@),
    }
}

impl HerdrRequest {
    /// The command-line arguments of the request.
    pub fn args(&self) -> (r: Vec<String>)
        ensures
            strings_view(r@) == request_args(*self),
    {
        let mut args: Vec<String> = Vec::new();
        match self {
            HerdrRequest::Status => {
                push_owned(&mut args, "status");
                push_owned(&mut args, "--json");
            },
            HerdrRequest::ServerStatus => {
                push_owned(&mut args, "status");
                push_owned(&mut args, "server");
                push_owned(&mut args, "--json");
            },
            HerdrRequest::Server => {
                push_owned(&mut args, "server");
            },
            HerdrRequest::Snapshot => {
                push_owned(&mut args, "api");
                push_owned(&mut args, "snapshot");
            },
            HerdrRequest::WorkspaceList => {
                push_owned(&mut args, "workspace");
                push_owned(&mut args, "list");
            },
            HerdrRequest::WorkspaceGet(id) => {
                push_owned(&mut args, "workspace");
                push_owned(&mut args, "get");
                push_owned(&mut args, id.as_str());
            },
            HerdrRequest::WorkspaceFocus(id) => {
                push_owned(&mut args, "workspace");
                push_owned(&mut args, "focus");
                push_owned(&mut args, id.as_str());
            },
            HerdrRequest::WorkspaceClose(id) => {
                push_owned(&mut args, "workspace");
                push_owned(&mut args, "close");
                push_owned(&mut args, id.as_str());
            },
            HerdrRequest::TabFocus(id) => {
                push_owned(&mut args, "tab");
                push_owned(&mut args, "focus");
                push_owned(&mut args, id.as_str());
            },
            HerdrRequest::TabRename { tab_id, label } => {
                push_owned(&mut args, "tab");
                push_owned(&mut args, "rename");
                push_owned(&mut args, tab_id.as_str());
                push_owned(&mut args, label.as_str());
            },
            HerdrRequest::TabClose(id) => {
                push_owned(&mut args, "tab");
                push_owned(&mut args, "close");
                push_owned(&mut args, id.as_str());
            },
            HerdrRequest::PaneSplit { pane_id, direction, ratio, cwd } => {
                push_owned(&mut args, "pane");
                push_owned(&mut args, "split");
                push_owned(&mut args, pane_id.as_str());
                push_owned(&mut args, "--direction");
                push_owned(&mut args, direction.as_str());
                push_owned(&mut args, "--ratio");
                push_owned(&mut args, ratio.as_str());
                push_owned(&mut args, "--cwd");
                push_owned(&mut args, cwd.as_str());
                push_owned(&mut args, "--no-focus");
            },
        }
        assert(strings_view(args@) =~= request_args(*self));
        args
    }

    /// The result type a successful reply carries, if it names one.
    pub fn result_type(&self) -> (r: Option<&'static str>)
        ensures
            match r {
                Some(t) => request_result(*self) == Some(t@),
                None => request_result(*self) is None,
            },
    {
        match self {
            HerdrRequest::Status | HerdrRequest::ServerStatus | HerdrRequest::Server => None,
            HerdrRequest::Snapshot => Some("session_snapshot"),
            HerdrRequest::WorkspaceList => Some("workspace_list"),
            HerdrRequest::WorkspaceGet(_) | HerdrRequest::WorkspaceFocus(_) => Some("workspace_info"),
            HerdrRequest::TabFocus(_) | HerdrRequest::TabRename { .. } => Some("tab_info"),
            HerdrRequest::WorkspaceClose(_) | HerdrRequest::TabClose(_) => Some("ok"),
            HerdrRequest::PaneSplit { .. } => Some("pane_info"),
        }
    }
}


/// What waiting for a just-started server does after one poll.
pub enum WaitStep {
    Ready(ServerStatus),
    Failed(HerdrError),
    /// Poll again; the last transient error seen so far, if any.
    Wait(Option<String>),
}

/// One step of waiting for a server that was just started, once
/// `readiness_step` judged the poll: a pending poll keeps the newest
/// transient error, and once `expired` the wait fails naming it.
pub fn wait_step(step: Readiness, last_error: Option<String>, expired: bool, timeout_ms: u64) -> (r: WaitStep)
    ensures
        match step {
            Readiness::Ready(status) => r == WaitStep::Ready(status),
            Readiness::Failed(e) => r == WaitStep::Failed(e),
            Readiness::Pending(e) => {
                let last = if e is Some { e } else { last_error };
                if expired {
                    r == WaitStep::Failed(HerdrError::ServerNotReady { timeout_ms, last_error: last })
                } else {
                    r == WaitStep::Wait(last)
                }
            },
        },
{
    match step {
        Readiness::Ready(status) => WaitStep::Ready(status),
        Readiness::Failed(e) => WaitStep::Failed(e),
        Readiness::Pending(e) => {
            let last = if e.is_some() { e } else { last_error };
            if expired {
                WaitStep::Failed(HerdrError::ServerNotReady { timeout_ms, last_error: last })
            } else {
                WaitStep::Wait(last)
            }
        },
    }
}

} // verus!
