//! Typed command-line integration for zellij 0.44.
//!
//! 0.44 is the first release whose CLI can build and drive a session from
//! outside it: `attach --create-background` creates a detached session,
//! `new-tab` reports the tab it created, and `--pane-id` aims input at a
//! specific pane. Everything here goes through those documented commands.

use vstd::prelude::*;
use crate::process::{CommandRunner, Invocation, debug_quoted, debug_quote, spec_display};
use crate::herdr::{strings_view, utf8_lossy, lossy_string};
use crate::text::{chars_of, string_of, extend_chars, extend_str, trim, trimmed, is_ws, is_ws_char,
    is_digit, parse_decimal, parse_unsigned, split_once, find_char, lemma_find_char,
    find_char_index, slice_chars, lines_of, spec_lines, str_eq};

verus! {

/// zellij prints this instead of an empty list, and exits non-zero while
/// doing so.
pub const NO_SESSIONS_MARKER: &'static str = "No active zellij sessions";

/// Suffix of sessions that are dead but still resurrectable.
pub const EXITED_MARKER: &'static str = "(EXITED";

/// A zellij release number.
#[derive(Clone, Copy, Debug, Eq, PartialEq, Ord, PartialOrd)]
pub struct ZellijVersion {
    pub major: u32,
    pub minor: u32,
    pub patch: u32,
}

/// The oldest zellij bootmux drives: 0.44.0.
pub fn minimum_version() -> (r: ZellijVersion)
    ensures
        r == (ZellijVersion { major: 0, minor: 44, patch: 0 }),
{
    ZellijVersion { major: 0, minor: 44, patch: 0 }
}

/// Index of the first whitespace character at or after `i` (the length
/// when there is none).
pub open spec fn token_end(s: Seq<char>, i: int) -> int
    decreases s.len() - i,
{
    if i < 0 || i >= s.len() {
        s.len() as int
    } else if is_ws(s[i]) {
        i
    } else {
        token_end(s, i + 1)
    }
}

pub proof fn lemma_token_end(s: Seq<char>, i: int)
    requires
        0 <= i <= s.len(),
    ensures
        i <= token_end(s, i) <= s.len(),
        forall|j: int| i <= j < token_end(s, i) ==> !is_ws(#[trigger] s[j]),
        token_end(s, i) < s.len() ==> is_ws(s[token_end(s, i)]),
    decreases s.len() - i,
{
    if i < s.len() && !is_ws(s[i]) {
        lemma_token_end(s, i + 1);
    }
}

/// The first whitespace-separated token at or after `i` that starts with an
/// ASCII digit.
pub open spec fn digit_token(s: Seq<char>, i: int) -> Option<Seq<char>>
    decreases s.len() - i,
{
    if i < 0 || i >= s.len() {
        None
    } else if is_ws(s[i]) {
        digit_token(s, i + 1)
    } else {
        let k = token_end(s, i + 1);
        proof {
            lemma_token_end(s, i + 1);
        }
        if is_digit(s[i]) {
            Some(s.subrange(i, k))
        } else {
            digit_token(s, k)
        }
    }
}

/// Index of the first `-` or `+` (the length when there is none).
pub open spec fn suffix_index(s: Seq<char>) -> nat
    decreases s.len(),
{
    if s.len() == 0 {
        0
    } else if s[0] == '-' || s[0] == '+' {
        0
    } else {
        1 + suffix_index(s.drop_first())
    }
}

/// `s` up to its first `-` or `+`.
pub open spec fn before_suffix(s: Seq<char>) -> Seq<char> {
    s.subrange(0, suffix_index(s) as int)
}

/// `s` without its leading `v`s.
pub open spec fn trim_leading_v(s: Seq<char>) -> Seq<char>
    decreases s.len(),
{
    if s.len() > 0 && s[0] == 'v' {
        trim_leading_v(s.drop_first())
    } else {
        s
    }
}

pub open spec fn parse_u32(s: Seq<char>) -> Option<nat> {
    parse_unsigned(s, u32::MAX as nat)
}

/// The numbers of `major.minor[.patch...]`: the patch is zero when it is
/// missing or unreadable, and further components are ignored.
pub open spec fn spec_core_version(core: Seq<char>) -> Option<(nat, nat, nat)> {
    match split_once(core, '.') {
        None => None,
        Some((a, r1)) => {
            let (b, rest) = match split_once(r1, '.') {
                None => (r1, None::<Seq<char>>),
                Some((b, r2)) => (b, Some(r2)),
            };
            match (parse_u32(a), parse_u32(b)) {
                (Some(x), Some(y)) => {
                    let z = match rest {
                        None => 0,
                        Some(r2) => {
                            let c = match split_once(r2, '.') {
                                None => r2,
                                Some((c, _)) => c,
                            };
                            match parse_u32(c) {
                                Some(z) => z,
                                None => 0,
                            }
                        },
                    };
                    Some((x, y, z))
                },
                _ => None,
            }
        },
    }
}

/// `ZellijVersion::parse` of `zellij --version` output (`zellij 0.44.3`):
/// the first token that starts with a digit, without any `-` or `+`
/// suffix.
pub open spec fn spec_zellij_version(output: Seq<char>) -> Option<(nat, nat, nat)> {
    match digit_token(output, 0) {
        None => None,
        Some(token) => spec_core_version(trim_leading_v(before_suffix(token))),
    }
}

pub open spec fn version_triple(v: ZellijVersion) -> (nat, nat, nat) {
    (v.major as nat, v.minor as nat, v.patch as nat)
}

/// Whether a version is at least 0.44.0.
pub open spec fn spec_supported(v: ZellijVersion) -> bool {
    v.major > 0 || (v.major == 0 && v.minor >= 44)
}

fn find_suffix(v: &[char]) -> (r: usize)
    ensures
        r <= v@.len(),
        forall|j: int| 0 <= j < r ==> v@[j] != '-' && v@[j] != '+',
        r < v@.len() ==> v@[r as int] == '-' || v@[r as int] == '+',
{
    let mut i: usize = 0;
    while i < v.len() && v[i] != '-' && v[i] != '+'
        invariant
            i <= v@.len(),
            forall|j: int| 0 <= j < i ==> v@[j] != '-' && v@[j] != '+',
        decreases v.len() - i,
    {
        i += 1;
    }
    i
}

proof fn lemma_suffix_index(s: Seq<char>, r: int)
    requires
        0 <= r <= s.len(),
        forall|j: int| 0 <= j < r ==> s[j] != '-' && s[j] != '+',
        r < s.len() ==> s[r] == '-' || s[r] == '+',
    ensures
        suffix_index(s) == r,
    decreases s.len(),
{
    if s.len() > 0 && r > 0 {
        assert forall|j: int| 0 <= j < r - 1 implies s.drop_first()[j] != '-' && s.drop_first()[j]
            != '+' by {
            assert(s.drop_first()[j] == s[j + 1]);
        }
        lemma_suffix_index(s.drop_first(), r - 1);
    }
}

fn trim_v(v: &[char]) -> (r: Vec<char>)
    ensures
        r@ == trim_leading_v(v@),
{
    let mut i: usize = 0;
    assert(v@.skip(0) == v@);
    while i < v.len() && v[i] == 'v'
        invariant
            i <= v@.len(),
            trim_leading_v(v@) == trim_leading_v(v@.skip(i as int)),
        decreases v.len() - i,
    {
        assert(v@.skip(i as int).drop_first() == v@.skip(i + 1));
        i += 1;
    }
    assert(v@.skip(i as int) == v@.subrange(i as int, v@.len() as int));
    slice_chars(v, i, v.len())
}

fn split_at(v: &[char], c: char) -> (r: Option<(Vec<char>, Vec<char>)>)
    ensures
        match r {
            Some(p) => split_once(v@, c) == Some((p.0@, p.1@)),
            None => split_once(v@, c) is None,
        },
{
    let i = find_char_index(v, c);
    proof {
        lemma_find_char(v@, c);
    }
    if i < v.len() {
        Some((slice_chars(v, 0, i), slice_chars(v, i + 1, v.len())))
    } else {
        None
    }
}

fn parse_number(v: &[char]) -> (r: Option<u32>)
    ensures
        match r {
            Some(n) => parse_u32(v@) == Some(n as nat),
            None => parse_u32(v@) is None,
        },
{
    match parse_decimal(v, 4294967295u64) {
        Some(n) => Some(n as u32),
        None => None,
    }
}

fn core_version(core: &[char]) -> (r: Option<(u32, u32, u32)>)
    ensures
        match r {
            Some(t) => spec_core_version(core@) == Some((t.0 as nat, t.1 as nat, t.2 as nat)),
            None => spec_core_version(core@) is None,
        },
{
    let (a, r1) = split_at(core, '.')?;
    let (b, rest): (Vec<char>, Option<Vec<char>>) = match split_at(r1.as_slice(), '.') {
        None => (r1, None),
        Some((b, r2)) => (b, Some(r2)),
    };
    let x = parse_number(a.as_slice())?;
    let y = parse_number(b.as_slice())?;
    let z: u32 = match rest {
        None => 0,
        Some(r2) => {
            let c: Vec<char> = match split_at(r2.as_slice(), '.') {
                None => r2,
                Some((c, _)) => c,
            };
            match parse_number(c.as_slice()) {
                Some(z) => z,
                None => 0,
            }
        },
    };
    Some((x, y, z))
}

fn find_digit_token(s: &[char]) -> (r: Option<Vec<char>>)
    ensures
        match r {
            Some(t) => digit_token(s@, 0) == Some(t@),
            None => digit_token(s@, 0) is None,
        },
{
    let mut i: usize = 0;
    while i < s.len()
        invariant
            i <= s@.len(),
            digit_token(s@, 0) == digit_token(s@, i as int),
        decreases s.len() - i,
    {
        if is_ws_char(s[i]) {
            i += 1;
        } else {
            let mut k: usize = i + 1;
            proof {
                lemma_token_end(s@, i + 1);
            }
            while k < s.len() && !is_ws_char(s[k])
                invariant
                    i < k <= s@.len(),
                    token_end(s@, i + 1) == token_end(s@, k as int),
                decreases s.len() - k,
            {
                k += 1;
            }
            if '0' <= s[i] && s[i] <= '9' {
                return Some(slice_chars(s, i, k));
            }
            i = k;
        }
    }
    None
}

impl ZellijVersion {
    /// Reads a version out of `zellij --version` output, which looks like
    /// `zellij 0.44.3`; prerelease and build suffixes are tolerated.
    pub fn parse(output: &str) -> (r: Option<Self>)
        ensures
            match r {
                Some(v) => spec_zellij_version(output@) == Some(version_triple(v)),
                None => spec_zellij_version(output@) is None,
            },
    {
        let cs = chars_of(output);
        let token = find_digit_token(cs.as_slice())?;
        let n = find_suffix(token.as_slice());
        proof {
            lemma_suffix_index(token@, n as int);
        }
        let before = slice_chars(token.as_slice(), 0, n);
        let core = trim_v(before.as_slice());
        let (major, minor, patch) = core_version(core.as_slice())?;
        Some(ZellijVersion { major, minor, patch })
    }

    /// Whether this version is at least the minimum, 0.44.0.
    pub fn supported(self) -> (r: bool)
        ensures
            r == spec_supported(self),
    {
        self.major > 0 || (self.major == 0 && self.minor >= 44)
    }
}

/// The decimal digits of a number.
pub open spec fn decimal(n: nat) -> Seq<char>
    decreases n,
{
    if n < 10 {
        seq![((n + 48) as u8) as char]
    } else {
        decimal(n / 10) + seq![(((n % 10) + 48) as u8) as char]
    }
}

/// Appends the decimal digits of `n`.
pub(crate) fn push_decimal(out: &mut Vec<char>, n: u64)
    ensures
        final(out)@ == old(out)@ + decimal(n as nat),
    decreases n,
{
    if n >= 10 {
        push_decimal(out, n / 10);
    }
    let d: u64 = n % 10;
    out.push(((d + 48) as u8) as char);
}

/// `u32::to_string`.
pub fn decimal_string(n: u32) -> (r: String)
    ensures
        r@ == decimal(n as nat),
{
    let mut out: Vec<char> = Vec::new();
    push_decimal(&mut out, n as u64);
    string_of(out.as_slice())
}

/// `u64::to_string`.
pub fn decimal_string_u64(n: u64) -> (r: String)
    ensures
        r@ == decimal(n as nat),
{
    let mut out: Vec<char> = Vec::new();
    push_decimal(&mut out, n);
    string_of(out.as_slice())
}

/// One terminal pane as reported by `action list-panes --json`.
#[derive(Clone, Debug)]
pub struct PaneInfo {
    pub id: u32,
    pub is_plugin: bool,
    pub is_floating: bool,
    pub is_suppressed: bool,
    pub title: String,
    pub tab_id: u32,
    pub tab_position: u32,
    pub tab_name: String,
    pub pane_x: u32,
    pub pane_y: u32,
}

impl PaneInfo {
    /// A copy of this pane.
    pub fn duplicate(&self) -> (r: PaneInfo)
        ensures
            r == *self,
    {
        PaneInfo {
            id: self.id,
            is_plugin: self.is_plugin,
            is_floating: self.is_floating,
            is_suppressed: self.is_suppressed,
            title: self.title.clone(),
            tab_id: self.tab_id,
            tab_position: self.tab_position,
            tab_name: self.tab_name.clone(),
            pane_x: self.pane_x,
            pane_y: self.pane_y,
        }
    }

    /// The `--pane-id` spelling for this pane, `terminal_<id>`; a bare
    /// integer would be ambiguous between terminal and plugin panes.
    pub fn target(&self) -> (r: String)
        ensures
            r@ == "terminal_"@ + decimal(self.id as nat),
    {
        let mut out: Vec<char> = Vec::new();
        extend_str(&mut out, "terminal_");
        let d = decimal_string(self.id);
        extend_str(&mut out, d.as_str());
        string_of(out.as_slice())
    }

    /// Whether this pane is one of the ordinary tiled terminals bootmux lays
    /// out, as opposed to a plugin, floating, or suppressed pane.
    pub fn is_ordinary_terminal(&self) -> (r: bool)
        ensures
            r == (!self.is_plugin && !self.is_floating && !self.is_suppressed),
    {
        !self.is_plugin && !self.is_floating && !self.is_suppressed
    }
}

#[derive(Clone, Debug)]
pub struct TabInfo {
    pub tab_id: u32,
    pub position: u32,
    pub name: String,
    pub active: bool,
}


/// A rendered layout handed to zellij as a file. Writing and removing the
/// file is the caller's part; zellij's server reads it after the client has
/// returned, so the file must outlive the topology it describes.
pub struct LayoutFile {
    path: String,
}

impl LayoutFile {
    pub closed spec fn path_view(&self) -> Seq<char> {
        self.path@
    }

    /// A layout file that was written at `path`.
    pub fn at(path: String) -> (r: Self)
        ensures
            r.path_view() == path@,
    {
        LayoutFile { path }
    }

    pub fn path(&self) -> (r: &str)
        ensures
            r@ == self.path_view(),
    {
        self.path.as_str()
    }
}

/// What went wrong talking to zellij.
#[derive(Debug)]
pub enum ZellijError {
    Spawn { invocation: String, source: std::io::Error },
    CommandFailed { invocation: String, code: Option<i32>, output: String },
    InvalidJson { invocation: String, source: serde_json::Error },
    UnexpectedOutput { invocation: String, detail: String },
    LayoutFile { path: String, source: std::io::Error },
    UnparsableVersion { found: String },
    UnsupportedVersion { found: ZellijVersion, minimum: ZellijVersion },
}

/// `major.minor.patch`.
pub open spec fn version_text(v: ZellijVersion) -> Seq<char> {
    decimal(v.major as nat) + seq!['.'] + decimal(v.minor as nat) + seq!['.'] + decimal(
        v.patch as nat,
    )
}

/// Whether `pat` occurs in `s`.
pub open spec fn contains_seq(s: Seq<char>, pat: Seq<char>) -> bool {
    exists|i: int| 0 <= i && i + pat.len() <= s.len() && #[trigger] s.subrange(i, i + pat.len()) == pat
}

/// Whether `pat` occurs in `s`.
pub fn contains_chars(s: &[char], pat: &[char]) -> (r: bool)
    ensures
        r == contains_seq(s@, pat@),
{
    if pat.len() > s.len() {
        return false;
    }
    let mut i: usize = 0;
    let last = s.len() - pat.len();
    while i <= last
        invariant
            last == s@.len() - pat@.len(),
            pat@.len() <= s@.len(),
            i <= s@.len() - pat@.len() + 1,
            forall|k: int|
                0 <= k < i ==> #[trigger] s@.subrange(k, k + pat@.len()) != pat@,
        decreases s.len() - i,
    {
        let mut j: usize = 0;
        let mut same = true;
        while j < pat.len() && same
            invariant
                i + pat@.len() <= s@.len(),
                i <= last,
                last == s@.len() - pat@.len(),
                last + pat.len() == s.len(),
                j <= pat@.len(),
                forall|t: int| 0 <= t < j ==> s@[i + t] == pat@[t],
                !same ==> j < pat@.len() && s@[i + j] != pat@[j as int],
            decreases pat.len() - j + (if same { 1int } else { 0int }),
        {
            assert(i + j < s@.len());
            assert(s@.len() <= last + pat@.len());
            let idx: usize = i + j;
            if s[idx] == pat[j] {
                j += 1;
            } else {
                same = false;
            }
        }
        if same {
            assert(s@.subrange(i as int, i + pat@.len()) =~= pat@);
            return true;
        }
        assert(s@.subrange(i as int, i + pat@.len())[j as int] != pat@[j as int]);
        i += 1;
    }
    assert forall|k: int| 0 <= k && k + pat@.len() <= s@.len() implies #[trigger] s@.subrange(
        k,
        k + pat@.len(),
    ) != pat@ by {
        assert(k < i);
    }
    false
}

/// What `format!("{}", e)` gives for an I/O error; nothing is stated of it.
#[verifier::external_body]
pub(crate) fn io_error_text(e: &std::io::Error) -> String {
    format!("{}", e)
}

/// What `format!("{}", e)` gives for a JSON error; nothing is stated of it.
#[verifier::external_body]
pub(crate) fn json_error_text(e: &serde_json::Error) -> String {
    format!("{}", e)
}

fn push_version(out: &mut Vec<char>, v: ZellijVersion)
    ensures
        final(out)@ == old(out)@ + version_text(v),
{
    let a = decimal_string(v.major);
    let b = decimal_string(v.minor);
    let c = decimal_string(v.patch);
    extend_str(out, a.as_str());
    out.push('.');
    extend_str(out, b.as_str());
    out.push('.');
    extend_str(out, c.as_str());
}

/// The decimal text of a signed status code.
pub open spec fn signed_decimal(n: int) -> Seq<char> {
    if n < 0 {
        seq!['-'] + decimal((-n) as nat)
    } else {
        decimal(n as nat)
    }
}

pub(crate) fn push_signed(out: &mut Vec<char>, n: i32)
    ensures
        final(out)@ == old(out)@ + signed_decimal(n as int),
{
    if n < 0 {
        out.push('-');
        let m: u32 = if n == i32::MIN {
            2147483648u32
        } else {
            (0 - n) as u32
        };
        let d = decimal_string(m);
        extend_str(out, d.as_str());
    } else {
        let d = decimal_string(n as u32);
        extend_str(out, d.as_str());
    }
}

impl ZellijError {
    /// The message shown to the user.
    pub fn message(&self) -> (r: String)
        ensures
            match *self {
                ZellijError::UnsupportedVersion { found, minimum } => r@ == "zellij "@
                    + version_text(found) + " is too old; bootmux needs zellij "@ + version_text(
                    minimum,
                ) + " or newer for background sessions and pane-targeted input"@,
                ZellijError::UnparsableVersion { found } => r@
                    == "could not read a zellij version from "@ + debug_quoted(found@),
                ZellijError::UnexpectedOutput { invocation, detail } => r@ == seq!['`']
                    + invocation@ + "` returned "@ + detail@,
                ZellijError::CommandFailed { invocation, code, output } => r@ == seq!['`']
                    + invocation@ + "` failed with "@ + match code {
                    Some(c) => "exit status "@ + signed_decimal(c as int),
                    None => "a signal"@,
                } + if output@.len() == 0 {
                    seq![]
                } else {
                    ": "@ + output@
                },
                ZellijError::Spawn { invocation, .. } => exists|t: Seq<char>|
                    r@ == "failed to run `"@ + invocation@ + "`: "@ + t,
                ZellijError::InvalidJson { invocation, .. } => exists|t: Seq<char>|
                    r@ == seq!['`'] + invocation@ + "` returned invalid JSON: "@ + t,
                ZellijError::LayoutFile { path, .. } => exists|t: Seq<char>|
                    r@ == "could not write the zellij layout "@ + debug_quoted(path@) + ": "@ + t,
            },
    {
        let mut out: Vec<char> = Vec::new();
        match self {
            ZellijError::Spawn { invocation, source } => {
                extend_str(&mut out, "failed to run `");
                extend_str(&mut out, invocation.as_str());
                extend_str(&mut out, "`: ");
                let t = io_error_text(source);
                extend_str(&mut out, t.as_str());
                assert(out@ =~= "failed to run `"@ + invocation@ + "`: "@ + t@);
            },
            ZellijError::CommandFailed { invocation, code, output } => {
                out.push('`');
                extend_str(&mut out, invocation.as_str());
                extend_str(&mut out, "` failed with ");
                match code {
                    Some(c) => {
                        extend_str(&mut out, "exit status ");
                        push_signed(&mut out, *c);
                    },
                    None => extend_str(&mut out, "a signal"),
                }
                if !output.as_str().is_empty() {
                    extend_str(&mut out, ": ");
                    extend_str(&mut out, output.as_str());
                }
            },
            ZellijError::InvalidJson { invocation, source } => {
                out.push('`');
                extend_str(&mut out, invocation.as_str());
                extend_str(&mut out, "` returned invalid JSON: ");
                let t = json_error_text(source);
                extend_str(&mut out, t.as_str());
                assert(out@ =~= seq!['`'] + invocation@ + "` returned invalid JSON: "@ + t@);
            },
            ZellijError::UnexpectedOutput { invocation, detail } => {
                out.push('`');
                extend_str(&mut out, invocation.as_str());
                extend_str(&mut out, "` returned ");
                extend_str(&mut out, detail.as_str());
            },
            ZellijError::LayoutFile { path, source } => {
                extend_str(&mut out, "could not write the zellij layout ");
                let q = debug_quote(path.as_str());
                extend_str(&mut out, q.as_str());
                extend_str(&mut out, ": ");
                let t = io_error_text(source);
                extend_str(&mut out, t.as_str());
                assert(out@ =~= "could not write the zellij layout "@ + debug_quoted(path@) + ": "@ + t@);
            },
            ZellijError::UnparsableVersion { found } => {
                extend_str(&mut out, "could not read a zellij version from ");
                let q = debug_quote(found.as_str());
                extend_str(&mut out, q.as_str());
            },
            ZellijError::UnsupportedVersion { found, minimum } => {
                extend_str(&mut out, "zellij ");
                push_version(&mut out, *found);
                extend_str(&mut out, " is too old; bootmux needs zellij ");
                push_version(&mut out, *minimum);
                extend_str(&mut out, " or newer for background sessions and pane-targeted input");
            },
        }
        string_of(out.as_slice())
    }
}

/// The trimmed error output, then the trimmed standard output, joined by
/// `; ` (empty parts left out).
pub open spec fn spec_combined(stdout: Seq<char>, stderr: Seq<char>) -> Seq<char> {
    let a = trim(stderr);
    let b = trim(stdout);
    if a.len() > 0 && b.len() > 0 {
        a + "; "@ + b
    } else if a.len() > 0 {
        a
    } else {
        b
    }
}

/// Joins a failed command's outputs for its error message.
pub fn combined(stdout: &str, stderr: &str) -> (r: String)
    ensures
        r@ == spec_combined(stdout@, stderr@),
{
    let a = trimmed(stderr);
    let b = trimmed(stdout);
    let mut out: Vec<char> = Vec::new();
    extend_chars(&mut out, a.as_slice());
    if a.len() > 0 && b.len() > 0 {
        extend_str(&mut out, "; ");
    }
    extend_chars(&mut out, b.as_slice());
    string_of(out.as_slice())
}

/// The first whitespace-separated token of a line.
pub open spec fn first_token(l: Seq<char>) -> Option<Seq<char>> {
    let i = crate::text::lead_ws(l) as int;
    if i < l.len() {
        Some(l.subrange(i, token_end(l, i)))
    } else {
        None
    }
}

/// The running sessions in `list-sessions --no-formatting` output, whose
/// lines look like `name [Created 2s ago]`: lines marked `(EXITED` are dead
/// sessions kept for resurrection and are skipped.
pub open spec fn session_names(lines: Seq<Seq<char>>) -> Seq<Seq<char>>
    decreases lines.len(),
{
    if lines.len() == 0 {
        seq![]
    } else {
        let rest = session_names(lines.drop_last());
        let l = lines.last();
        if contains_seq(l, EXITED_MARKER@) {
            rest
        } else {
            match first_token(l) {
                Some(t) => rest.push(t),
                None => rest,
            }
        }
    }
}

fn line_token(l: &[char]) -> (r: Option<Vec<char>>)
    ensures
        match r {
            Some(t) => first_token(l@) == Some(t@),
            None => first_token(l@) is None,
        },
{
    let mut i: usize = 0;
    while i < l.len() && is_ws_char(l[i])
        invariant
            i <= l@.len(),
            forall|j: int| 0 <= j < i ==> is_ws(#[trigger] l@[j]),
        decreases l.len() - i,
    {
        i += 1;
    }
    proof {
        crate::text::lemma_lead_ws_exact(l@, i as nat);
    }
    if i == l.len() {
        return None;
    }
    let mut k: usize = i;
    while k < l.len() && !is_ws_char(l[k])
        invariant
            i <= k <= l@.len(),
            token_end(l@, i as int) == token_end(l@, k as int),
        decreases l.len() - k,
    {
        k += 1;
    }
    Some(slice_chars(l, i, k))
}

/// The session names in a listing.
pub fn parse_session_listing(stdout: &str) -> (r: Vec<String>)
    ensures
        strings_view(r@) == session_names(spec_lines(stdout@)),
{
    let cs = chars_of(stdout);
    let lines = lines_of(cs.as_slice());
    let ghost ls = lines@.map_values(|l: Vec<char>| l@);
    let marker = chars_of(EXITED_MARKER);
    let mut out: Vec<String> = Vec::new();
    let mut i: usize = 0;
    while i < lines.len()
        invariant
            i <= lines@.len(),
            ls == lines@.map_values(|l: Vec<char>| l@),
            ls == spec_lines(stdout@),
            marker@ == EXITED_MARKER@,
            strings_view(out@) == session_names(ls.take(i as int)),
        decreases lines.len() - i,
    {
        assert(ls.take(i + 1).drop_last() == ls.take(i as int));
        assert(ls.take(i + 1).last() == lines@[i as int]@);
        if !contains_chars(lines[i].as_slice(), marker.as_slice()) {
            match line_token(lines[i].as_slice()) {
                Some(t) => {
                    let ghost before = out@;
                    out.push(string_of(t.as_slice()));
                    assert(strings_view(out@) =~= strings_view(before).push(t@));
                },
                None => {},
            }
        }
        i += 1;
    }
    assert(ls.take(ls.len() as int) == ls);
    out
}

/// The running sessions a `list-sessions` output gives: the listing's names
/// on success, none when the failure reports that there are none, and
/// nothing (an error) otherwise.
pub open spec fn listing_result(output: crate::process::CommandOutput) -> Option<Seq<Seq<char>>> {
    let out = utf8_lossy(output.stdout@);
    let err = utf8_lossy(output.stderr@);
    if output.success {
        Some(session_names(spec_lines(out)))
    } else if contains_seq(out, NO_SESSIONS_MARKER@) || contains_seq(err, NO_SESSIONS_MARKER@) {
        Some(seq![])
    } else {
        None
    }
}

/// Whether `name` is one of the sessions.
pub fn session_listed(sessions: &Vec<String>, name: &str) -> (r: bool)
    ensures
        r == strings_view(sessions@).contains(name@),
{
    let mut i: usize = 0;
    while i < sessions.len()
        invariant
            i <= sessions@.len(),
            forall|j: int| 0 <= j < i ==> (#[trigger] sessions@[j])@ != name@,
        decreases sessions.len() - i,
    {
        if str_eq(sessions[i].as_str(), name) {
            assert(strings_view(sessions@)[i as int] == name@);
            return true;
        }
        i += 1;
    }
    assert(!strings_view(sessions@).contains(name@)) by {
        if strings_view(sessions@).contains(name@) {
            let k = choose|k: int| 0 <= k < strings_view(sessions@).len() && strings_view(sessions@)[k] == name@;
            assert(sessions@[k]@ == name@);
        }
    }
    false
}

/// How the output of `list-sessions` is read: a failure that reports "no
/// active sessions" is an empty list, any other failure is an error.
pub fn sessions_from_output(
    invocation: String,
    output: crate::process::CommandOutput,
) -> (r: Result<Vec<String>, ZellijError>)
    ensures
        ({
            let out = utf8_lossy(output.stdout@);
            let err = utf8_lossy(output.stderr@);
            if output.success {
                r matches Ok(v) && strings_view(v@) == session_names(spec_lines(out))
            } else if contains_seq(out, NO_SESSIONS_MARKER@) || contains_seq(
                err,
                NO_SESSIONS_MARKER@,
            ) {
                r matches Ok(v) && v@.len() == 0
            } else {
                r matches Err(ZellijError::CommandFailed { invocation: i, code, output: o })
                    && i@ == invocation@ && code == output.code && o@ == spec_combined(out, err)
            }
        }),
{
    let stdout = lossy_string(output.stdout.as_slice());
    let stderr = lossy_string(output.stderr.as_slice());
    if !output.success {
        let marker = chars_of(NO_SESSIONS_MARKER);
        let oc = chars_of(stdout.as_str());
        let ec = chars_of(stderr.as_str());
        if contains_chars(oc.as_slice(), marker.as_slice()) || contains_chars(
            ec.as_slice(),
            marker.as_slice(),
        ) {
            return Ok(Vec::new());
        }
        return Err(
            ZellijError::CommandFailed {
                invocation,
                code: output.code,
                output: combined(stdout.as_str(), stderr.as_str()),
            },
        );
    }
    Ok(parse_session_listing(stdout.as_str()))
}

/// How a command's output is read: success gives its standard output, a
/// failure an error with the status and both outputs.
pub fn stdout_or_failure(
    invocation: String,
    output: crate::process::CommandOutput,
) -> (r: Result<Vec<u8>, ZellijError>)
    ensures
        output.success ==> r == Ok::<Vec<u8>, ZellijError>(output.stdout),
        !output.success ==> (r matches Err(ZellijError::CommandFailed {
            invocation: i,
            code,
            output: o,
        }) && i@ == invocation@ && code == output.code && o@ == spec_combined(
            utf8_lossy(output.stdout@),
            utf8_lossy(output.stderr@),
        )),
{
    if output.success {
        return Ok(output.stdout);
    }
    let stdout = lossy_string(output.stdout.as_slice());
    let stderr = lossy_string(output.stderr.as_slice());
    Err(
        ZellijError::CommandFailed {
            invocation,
            code: output.code,
            output: combined(stdout.as_str(), stderr.as_str()),
        },
    )
}

/// Reads the tab id that `new-tab` prints.
pub fn tab_id_from_output(invocation: String, stdout: &str) -> (r: Result<u32, ZellijError>)
    ensures
        match parse_u32(trim(stdout@)) {
            Some(n) => r == Ok::<u32, ZellijError>(n as u32),
            None => r matches Err(ZellijError::UnexpectedOutput { invocation: i, detail })
                && i@ == invocation@ && detail@ == debug_quoted(trim(stdout@))
                + " instead of a tab id"@,
        },
{
    let t = trimmed(stdout);
    match parse_number(t.as_slice()) {
        Some(n) => Ok(n),
        None => {
            let ts = string_of(t.as_slice());
            let mut d: Vec<char> = Vec::new();
            let q = debug_quote(ts.as_str());
            extend_str(&mut d, q.as_str());
            extend_str(&mut d, " instead of a tab id");
            Err(ZellijError::UnexpectedOutput { invocation, detail: string_of(d.as_slice()) })
        },
    }
}

impl ZellijVersion {
    /// The version in `zellij --version` output, or an error naming the
    /// output.
    pub fn from_output(stdout: String) -> (r: Result<ZellijVersion, ZellijError>)
        ensures
            match spec_zellij_version(stdout@) {
                Some(t) => r matches Ok(v) && version_triple(v) == t,
                None => r matches Err(ZellijError::UnparsableVersion { found }) && found@
                    == stdout@,
            },
    {
        match ZellijVersion::parse(stdout.as_str()) {
            Some(v) => Ok(v),
            None => Err(ZellijError::UnparsableVersion { found: stdout }),
        }
    }

    /// This version when it is supported, else an error naming it and the
    /// minimum.
    pub fn require_supported(self) -> (r: Result<ZellijVersion, ZellijError>)
        ensures
            spec_supported(self) ==> r == Ok::<ZellijVersion, ZellijError>(self),
            !spec_supported(self) ==> (r matches Err(ZellijError::UnsupportedVersion {
                found,
                minimum,
            }) && found == self && minimum == (ZellijVersion { major: 0, minor: 44, patch: 0 })),
    {
        if self.supported() {
            Ok(self)
        } else {
            Err(ZellijError::UnsupportedVersion { found: self, minimum: minimum_version() })
        }
    }
}


/// zellij CLI client.
#[derive(Clone, Debug)]
pub struct Zellij<R> {
    binary: String,
    runner: R,
}

/// An invocation of `binary` with exactly `args`, no environment change
/// and no working directory.
pub open spec fn plain_invocation(inv: Invocation, binary: Seq<char>, args: Seq<Seq<char>>) -> bool {
    &&& inv.program@ == binary
    &&& strings_view(inv.args@) == args
    &&& inv.env@.len() == 0
    &&& inv.current_dir is None
}

/// A command line as it is shown in error messages, from the program and
/// its argument words.
pub open spec fn display_words(program: Seq<char>, words: Seq<Seq<char>>) -> Seq<char>
    decreases words.len(),
{
    if words.len() == 0 {
        program
    } else {
        display_words(program, words.drop_last()) + seq![' '] + debug_quoted(words.last())
    }
}

pub proof fn lemma_display_words(program: Seq<char>, args: Seq<String>)
    ensures
        spec_display(program, args) == display_words(program, strings_view(args)),
    decreases args.len(),
{
    if args.len() > 0 {
        lemma_display_words(program, args.drop_last());
        assert(strings_view(args.drop_last()) =~= strings_view(args).drop_last());
    }
}

/// The command line an error names, for the errors that name one.
pub open spec fn error_invocation(e: ZellijError) -> Option<Seq<char>> {
    match e {
        ZellijError::Spawn { invocation, .. } => Some(invocation@),
        ZellijError::CommandFailed { invocation, .. } => Some(invocation@),
        ZellijError::InvalidJson { invocation, .. } => Some(invocation@),
        ZellijError::UnexpectedOutput { invocation, .. } => Some(invocation@),
        _ => None,
    }
}

/// A failure to run zellij with these argument words: it could not be
/// started, or it reported failure; the error names the command line.
pub open spec fn run_failure(e: ZellijError, binary: Seq<char>, words: Seq<Seq<char>>) -> bool {
    (e is Spawn || e is CommandFailed) && error_invocation(e) == Some(display_words(binary, words))
}

/// The words of `new-tab`: the tab's name when it has one, then the layout
/// file.
pub open spec fn new_tab_words(name: Option<Seq<char>>, layout: Seq<char>) -> Seq<Seq<char>> {
    seq!["new-tab"@] + match name {
        Some(n) => seq!["--name"@, n],
        None => seq![],
    } + seq!["--layout"@, layout]
}

/// The keys as argument words.
pub open spec fn key_words(keys: Seq<&str>) -> Seq<Seq<char>> {
    keys.map_values(|k: &str| k@)
}

/// The argument words of an action aimed at `session`.
pub open spec fn action_words(session: Seq<char>, words: Seq<Seq<char>>) -> Seq<Seq<char>> {
    seq!["--session"@, session, "action"@] + words
}

fn owned(s: &str) -> (r: String)
    ensures
        r@ == s@,
{
    s.to_owned()
}

impl<R: CommandRunner> Zellij<R> {
    pub closed spec fn binary_view(&self) -> Seq<char> {
        self.binary@
    }

    pub fn with_runner(binary: String, runner: R) -> (r: Self)
        ensures
            r.binary_view() == binary@,
            r.runner_view() == runner,
    {
        Zellij { binary, runner }
    }

    /// The runner the client holds.
    pub closed spec fn runner_view(&self) -> R {
        self.runner
    }

    pub fn binary(&self) -> (r: &str)
        ensures
            r@ == self.binary_view(),
    {
        self.binary.as_str()
    }

    /// The runner the client was built with.
    pub fn runner(&self) -> (r: &R)
        ensures
            *r == self.runner_view(),
    {
        &self.runner
    }

    /// zellij with exactly these arguments.
    pub fn invocation(&self, args: Vec<String>) -> (r: Invocation)
        ensures
            plain_invocation(r, self.binary_view(), strings_view(args@)),
    {
        Invocation { program: self.binary.clone(), args, env: Vec::new(), current_dir: None }
    }

    /// Every session-scoped call pins `--session`, so an inherited
    /// `ZELLIJ_SESSION_NAME` can never redirect it at the wrong session.
    pub fn action_invocation(&self, session: &str, args: Vec<String>) -> (r: Invocation)
        ensures
            plain_invocation(
                r,
                self.binary_view(),
                seq!["--session"@, session@, "action"@] + strings_view(args@),
            ),
    {
        let mut all: Vec<String> = Vec::new();
        all.push(owned("--session"));
        all.push(owned(session));
        all.push(owned("action"));
        let ghost start = all@;
        let mut i: usize = 0;
        while i < args.len()
            invariant
                i <= args@.len(),
                all@ == start + args@.take(i as int),
            decreases args.len() - i,
        {
            assert(args@.take(i + 1) == args@.take(i as int).push(args@[i as int]));
            all.push(args[i].clone());
            i += 1;
        }
        assert(args@.take(args@.len() as int) == args@);
        assert(strings_view(all@) =~= seq!["--session"@, session@, "action"@] + strings_view(args@));
        self.invocation(all)
    }

    /// Runs an invocation and returns its standard output; a failure is
    /// reported with the status and both outputs.
    pub fn execute(&self, invocation: &Invocation) -> (r: Result<Vec<u8>, ZellijError>)
        ensures
            r matches Err(e) ==> (e is Spawn || e is CommandFailed) && error_invocation(e) == Some(
                spec_display(invocation.program@, invocation.args@),
            ),
    {
        match self.runner.run(invocation) {
            Ok(output) => stdout_or_failure(invocation.display(), output),
            Err(source) => Err(ZellijError::Spawn { invocation: invocation.display(), source }),
        }
    }

    fn run_discarding_output(&self, invocation: Invocation) -> (r: Result<(), ZellijError>)
        ensures
            r matches Err(e) ==> (e is Spawn || e is CommandFailed) && error_invocation(e) == Some(
                spec_display(invocation.program@, invocation.args@),
            ),
    {
        match self.execute(&invocation) {
            Ok(_) => Ok(()),
            Err(e) => Err(e),
        }
    }

    fn run_action(&self, session: &str, args: Vec<String>) -> (r: Result<(), ZellijError>)
        ensures
            r matches Err(e) ==> run_failure(e, self.binary_view(), action_words(session@, strings_view(args@))),
    {
        let ghost words = action_words(session@, strings_view(args@));
        let invocation = self.action_invocation(session, args);
        proof {
            lemma_display_words(invocation.program@, invocation.args@);
        }
        self.run_discarding_output(invocation)
    }

    fn capture(&self, invocation: &Invocation) -> (r: Result<String, ZellijError>)
        ensures
            r matches Err(e) ==> (e is Spawn || e is CommandFailed) && error_invocation(e) == Some(
                spec_display(invocation.program@, invocation.args@),
            ),
    {
        let stdout = self.execute(invocation)?;
        Ok(lossy_string(stdout.as_slice()))
    }

    /// The installed version, from `zellij --version`.
    pub fn version(&self) -> (r: Result<ZellijVersion, ZellijError>)
        ensures
            r matches Err(e) ==> e is UnparsableVersion || run_failure(e, self.binary_view(), seq!["--version"@]),
            r matches Ok(v) ==> exists|out: Seq<char>| #[trigger] spec_zellij_version(out) == Some(
                version_triple(v),
            ),
    {
        let mut args: Vec<String> = Vec::new();
        args.push(owned("--version"));
        assert(strings_view(args@) =~= seq!["--version"@]);
        let invocation = self.invocation(args);
        proof {
            lemma_display_words(invocation.program@, invocation.args@);
        }
        let stdout = match self.capture(&invocation) {
            Ok(o) => o,
            Err(e) => {
                return Err(e);
            },
        };
        let ghost text = stdout@;
        let r = ZellijVersion::from_output(stdout);
        proof {
            if r is Ok {
                assert(spec_zellij_version(text) == Some(version_triple(r->Ok_0)));
            }
        }
        r
    }

    /// The installed version, refused when older than 0.44.0.
    pub fn require_supported_version(&self) -> (r: Result<ZellijVersion, ZellijError>)
        ensures
            r matches Ok(v) ==> spec_supported(v),
            r matches Err(ZellijError::UnsupportedVersion { found, minimum }) ==> !spec_supported(
                found,
            ) && minimum == (ZellijVersion { major: 0, minor: 44, patch: 0 }),
    {
        let version = self.version()?;
        version.require_supported()
    }

    /// Names of the sessions that are actually running (not the dead ones
    /// kept for resurrection).
    pub fn sessions(&self) -> (r: Result<Vec<String>, ZellijError>)
        ensures
            r matches Err(e) ==> run_failure(e, self.binary_view(), seq!["list-sessions"@, "--no-formatting"@]),
            r matches Ok(v) ==> exists|o: crate::process::CommandOutput| #[trigger] listing_result(o)
                == Some(strings_view(v@)),
    {
        let mut args: Vec<String> = Vec::new();
        args.push(owned("list-sessions"));
        args.push(owned("--no-formatting"));
        assert(strings_view(args@) =~= seq!["list-sessions"@, "--no-formatting"@]);
        let invocation = self.invocation(args);
        proof {
            lemma_display_words(invocation.program@, invocation.args@);
        }
        match self.runner.run(&invocation) {
            Ok(output) => {
                let r = sessions_from_output(invocation.display(), output);
                proof {
                    if r is Ok {
                        assert(listing_result(output) == Some(strings_view(r->Ok_0@)));
                    }
                }
                r
            },
            Err(source) => Err(ZellijError::Spawn { invocation: invocation.display(), source }),
        }
    }

    /// Whether a session of this name is running: it is in the listing of
    /// running sessions.
    pub fn has_session(&self, name: &str) -> (r: Result<bool, ZellijError>)
        ensures
            r matches Err(e) ==> run_failure(e, self.binary_view(), seq!["list-sessions"@, "--no-formatting"@]),
            r matches Ok(b) ==> exists|o: crate::process::CommandOutput| #[trigger] listing_result(o) matches Some(
                v,
            ) && b == v.contains(name@),
    {
        let sessions = match self.sessions() {
            Ok(v) => v,
            Err(e) => {
                return Err(e);
            },
        };
        let b = session_listed(&sessions, name);
        proof {
            let o = choose|o: crate::process::CommandOutput| #[trigger] listing_result(o) == Some(strings_view(sessions@));
            assert(listing_result(o) matches Some(v) && b == v.contains(name@));
        }
        Ok(b)
    }

    /// Creates a detached session from a rendered layout; zellij treats an
    /// existing session as success.
    pub fn create_background_session(&self, name: &str, layout: &LayoutFile) -> (r: Result<
        (),
        ZellijError,
    >)
        ensures
            r matches Err(e) ==> run_failure(
                e,
                self.binary_view(),
                seq!["--layout"@, layout.path_view(), "attach"@, "--create-background"@, name@],
            ),
    {
        let mut args: Vec<String> = Vec::new();
        args.push(owned("--layout"));
        args.push(owned(layout.path()));
        args.push(owned("attach"));
        args.push(owned("--create-background"));
        args.push(owned(name));
        assert(strings_view(args@) =~= seq!["--layout"@, layout.path_view(), "attach"@, "--create-background"@, name@]);
        let invocation = self.invocation(args);
        proof {
            lemma_display_words(invocation.program@, invocation.args@);
        }
        self.run_discarding_output(invocation)
    }

    pub fn kill_session(&self, name: &str) -> (r: Result<(), ZellijError>)
        ensures
            r matches Err(e) ==> run_failure(e, self.binary_view(), seq!["kill-session"@, name@]),
    {
        let mut args: Vec<String> = Vec::new();
        args.push(owned("kill-session"));
        args.push(owned(name));
        assert(strings_view(args@) =~= seq!["kill-session"@, name@]);
        let invocation = self.invocation(args);
        proof {
            lemma_display_words(invocation.program@, invocation.args@);
        }
        self.run_discarding_output(invocation)
    }

    /// The standard output of an action, for a caller that reads JSON from
    /// it (`list-panes --json`, `list-tabs --json`).
    pub fn action_output(&self, session: &str, args: Vec<String>) -> (r: Result<
        (Invocation, Vec<u8>),
        ZellijError,
    >)
        ensures
            r matches Ok((inv, _)) ==> plain_invocation(
                inv,
                self.binary_view(),
                action_words(session@, strings_view(args@)),
            ),
            r matches Err(e) ==> run_failure(e, self.binary_view(), action_words(session@, strings_view(args@))),
    {
        let invocation = self.action_invocation(session, args);
        proof {
            lemma_display_words(invocation.program@, invocation.args@);
        }
        let out = self.execute(&invocation)?;
        Ok((invocation, out))
    }

    /// Appends a tab described by a layout and returns its tab id.
    pub fn new_tab(&self, session: &str, name: Option<&str>, layout: &LayoutFile) -> (r: Result<
        u32,
        ZellijError,
    >)
        ensures
            r matches Err(e) ==> (e is Spawn || e is CommandFailed || e is UnexpectedOutput)
                && error_invocation(e) == Some(display_words(self.binary_view(), action_words(session@, new_tab_words(
                crate::herdr_backend::opt_view(name),
                layout.path_view(),
            )))),
            r matches Ok(n) ==> exists|out: Seq<char>| #[trigger] parse_u32(trim(out)) == Some(n as nat),
    {
        let mut args: Vec<String> = Vec::new();
        args.push(owned("new-tab"));
        if let Some(n) = name {
            args.push(owned("--name"));
            args.push(owned(n));
        }
        args.push(owned("--layout"));
        args.push(owned(layout.path()));
        assert(strings_view(args@) =~= new_tab_words(crate::herdr_backend::opt_view(name), layout.path_view()));
        let ghost words = action_words(session@, strings_view(args@));
        let invocation = self.action_invocation(session, args);
        proof {
            lemma_display_words(invocation.program@, invocation.args@);
        }
        let stdout = match self.capture(&invocation) {
            Ok(o) => o,
            Err(e) => {
                return Err(e);
            },
        };
        let r = tab_id_from_output(invocation.display(), stdout.as_str());
        proof {
            if r is Ok {
                assert(parse_u32(trim(stdout@)) == Some(r->Ok_0 as nat));
            }
        }
        r
    }

    pub fn close_tab(&self, session: &str, tab_id: u32) -> (r: Result<(), ZellijError>)
        ensures
            r matches Err(e) ==> run_failure(
                e,
                self.binary_view(),
                action_words(session@, seq!["close-tab"@, "--tab-id"@, decimal(tab_id as nat)]),
            ),
    {
        let mut args: Vec<String> = Vec::new();
        args.push(owned("close-tab"));
        args.push(owned("--tab-id"));
        args.push(decimal_string(tab_id));
        assert(strings_view(args@) =~= seq!["close-tab"@, "--tab-id"@, decimal(tab_id as nat)]);
        self.run_action(session, args)
    }

    pub fn write_chars(&self, session: &str, pane_id: &str, chars: &str) -> (r: Result<
        (),
        ZellijError,
    >)
        ensures
            r matches Err(e) ==> run_failure(
                e,
                self.binary_view(),
                action_words(session@, seq!["write-chars"@, "--pane-id"@, pane_id@, chars@]),
            ),
    {
        let mut args: Vec<String> = Vec::new();
        args.push(owned("write-chars"));
        args.push(owned("--pane-id"));
        args.push(owned(pane_id));
        args.push(owned(chars));
        assert(strings_view(args@) =~= seq!["write-chars"@, "--pane-id"@, pane_id@, chars@]);
        self.run_action(session, args)
    }

    pub fn send_keys(&self, session: &str, pane_id: &str, keys: &[&str]) -> (r: Result<
        (),
        ZellijError,
    >)
        ensures
            r matches Err(e) ==> run_failure(
                e,
                self.binary_view(),
                action_words(session@, seq!["send-keys"@, "--pane-id"@, pane_id@] + key_words(keys@)),
            ),
    {
        let mut args: Vec<String> = Vec::new();
        args.push(owned("send-keys"));
        args.push(owned("--pane-id"));
        args.push(owned(pane_id));
        let ghost head = seq!["send-keys"@, "--pane-id"@, pane_id@];
        assert(strings_view(args@) =~= head + key_words(keys@.take(0)));
        let n = keys.len();
        let mut i: usize = 0;
        while i < n
            invariant
                i <= n,
                n == keys@.len(),
                strings_view(args@) == head + key_words(keys@.take(i as int)),
            decreases n - i,
        {
            let ghost before = args@;
            args.push(owned(keys[i]));
            assert(keys@.take(i + 1) =~= keys@.take(i as int).push(keys@[i as int]));
            assert(key_words(keys@.take(i + 1)) =~= key_words(keys@.take(i as int)).push(keys@[i as int]@));
            assert(strings_view(args@) =~= strings_view(before).push(keys@[i as int]@));
            i += 1;
        }
        assert(keys@.take(n as int) =~= keys@);
        self.run_action(session, args)
    }

    /// Types a command into a pane's shell and submits it, as tmux's
    /// `send-keys ... C-m` does: the shell survives the command.
    pub fn run_in_pane(&self, session: &str, pane_id: &str, command: &str) -> (r: Result<
        (),
        ZellijError,
    >)
        ensures
            r matches Err(e) ==> run_failure(
                e,
                self.binary_view(),
                action_words(session@, seq!["write-chars"@, "--pane-id"@, pane_id@, command@]),
            ) || run_failure(
                e,
                self.binary_view(),
                action_words(session@, seq!["send-keys"@, "--pane-id"@, pane_id@, "Enter"@]),
            ),
    {
        match self.write_chars(session, pane_id, command) {
            Ok(()) => {},
            Err(e) => {
                return Err(e);
            },
        }
        let keys: [&str; 1] = ["Enter"];
        assert(key_words(keys@) =~= seq!["Enter"@]);
        assert(seq!["send-keys"@, "--pane-id"@, pane_id@] + key_words(keys@) =~= seq![
            "send-keys"@,
            "--pane-id"@,
            pane_id@,
            "Enter"@,
        ]);
        self.send_keys(session, pane_id, &keys)
    }

    pub fn rename_pane(&self, session: &str, pane_id: &str, name: &str) -> (r: Result<
        (),
        ZellijError,
    >)
        ensures
            r matches Err(e) ==> run_failure(
                e,
                self.binary_view(),
                action_words(session@, seq!["rename-pane"@, "--pane-id"@, pane_id@, name@]),
            ),
    {
        let mut args: Vec<String> = Vec::new();
        args.push(owned("rename-pane"));
        args.push(owned("--pane-id"));
        args.push(owned(pane_id));
        args.push(owned(name));
        assert(strings_view(args@) =~= seq!["rename-pane"@, "--pane-id"@, pane_id@, name@]);
        self.run_action(session, args)
    }

    pub fn rename_tab(&self, session: &str, tab_id: u32, name: &str) -> (r: Result<
        (),
        ZellijError,
    >)
        ensures
            r matches Err(e) ==> run_failure(
                e,
                self.binary_view(),
                action_words(session@, seq!["rename-tab"@, "--tab-id"@, decimal(tab_id as nat), name@]),
            ),
    {
        let mut args: Vec<String> = Vec::new();
        args.push(owned("rename-tab"));
        args.push(owned("--tab-id"));
        args.push(decimal_string(tab_id));
        args.push(owned(name));
        assert(strings_view(args@) =~= seq!["rename-tab"@, "--tab-id"@, decimal(tab_id as nat), name@]);
        self.run_action(session, args)
    }

    pub fn focus_pane(&self, session: &str, pane_id: &str) -> (r: Result<(), ZellijError>)
        ensures
            r matches Err(e) ==> run_failure(e, self.binary_view(), action_words(session@, seq!["focus-pane-id"@, pane_id@])),
    {
        let mut args: Vec<String> = Vec::new();
        args.push(owned("focus-pane-id"));
        args.push(owned(pane_id));
        assert(strings_view(args@) =~= seq!["focus-pane-id"@, pane_id@]);
        self.run_action(session, args)
    }

    /// Focuses a tab by its one-based screen position.
    pub fn go_to_tab(&self, session: &str, position: u32) -> (r: Result<(), ZellijError>)
        ensures
            r matches Err(e) ==> run_failure(
                e,
                self.binary_view(),
                action_words(session@, seq!["go-to-tab"@, decimal(position as nat)]),
            ),
    {
        let mut args: Vec<String> = Vec::new();
        args.push(owned("go-to-tab"));
        args.push(decimal_string(position));
        assert(strings_view(args@) =~= seq!["go-to-tab"@, decimal(position as nat)]);
        self.run_action(session, args)
    }

    pub fn switch_session(&self, session: &str, target: &str) -> (r: Result<(), ZellijError>)
        ensures
            r matches Err(e) ==> run_failure(e, self.binary_view(), action_words(session@, seq!["switch-session"@, target@])),
    {
        let mut args: Vec<String> = Vec::new();
        args.push(owned("switch-session"));
        args.push(owned(target));
        assert(strings_view(args@) =~= seq!["switch-session"@, target@]);
        self.run_action(session, args)
    }
}

} // verus!
