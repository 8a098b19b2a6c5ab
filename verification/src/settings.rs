//! Backend selection: the backend names, the active multiplexer
//! environment, and bootmux's global settings document.

use vstd::prelude::*;
use crate::env::{lookup, populated, Env};
use crate::text::{
    ascii_lower_seq, chars_eq, chars_of, extend_chars, extend_str, find_char, find_char_index,
    lines_of, path_join, path_join_chars, slice_chars, spec_lines, split_once, starts_with_char,
    str_eq, string_of, strip_bom, strip_bom_chars, to_ascii_lower, trim, trim_bounds,
    has_prefix, starts_with,
};

verus! {

/// A multiplexer that bootmux can drive.
#[derive(Clone, Copy, Debug, PartialEq, Eq)]
pub enum Backend {
    Tmux,
    Herdr,
    Zellij,
}

pub open spec fn spec_backend_name(b: Backend) -> Seq<char> {
    match b {
        Backend::Tmux => "tmux"@,
        Backend::Herdr => "herdr"@,
        Backend::Zellij => "zellij"@,
    }
}

pub open spec fn spec_backend_display_name(b: Backend) -> Seq<char> {
    match b {
        Backend::Tmux => "tmux"@,
        Backend::Herdr => "Herdr"@,
        Backend::Zellij => "zellij"@,
    }
}

impl Backend {
    /// The canonical lower-case name.
    pub fn as_str(self) -> (r: &'static str)
        ensures
            r@ == spec_backend_name(self),
    {
        match self {
            Backend::Tmux => "tmux",
            Backend::Herdr => "herdr",
            Backend::Zellij => "zellij",
        }
    }

    /// The spelling used in prose, which is capitalized for Herdr only.
    pub fn display_name(self) -> (r: &'static str)
        ensures
            r@ == spec_backend_display_name(self),
    {
        match self {
            Backend::Tmux => "tmux",
            Backend::Herdr => "Herdr",
            Backend::Zellij => "zellij",
        }
    }
}


pub const DEFAULT_BACKEND_KEY: &'static str = "default_backend";

pub const DEFAULT_BACKEND_CLI_KEY: &'static str = "default-backend";

/// A backend name that is none of `tmux`, `herdr`, `zellij`.
#[derive(Clone, Debug, PartialEq, Eq)]
pub struct BackendParseError {
    pub value: String,
}

/// The backend a name denotes: trimmed and ASCII case-insensitive.
pub open spec fn spec_parse_backend(value: Seq<char>) -> Option<Backend> {
    let n = ascii_lower_seq(trim(value));
    if n == "tmux"@ {
        Some(Backend::Tmux)
    } else if n == "herdr"@ {
        Some(Backend::Herdr)
    } else if n == "zellij"@ {
        Some(Backend::Zellij)
    } else {
        None
    }
}

impl Backend {
    /// Parses a backend name, ignoring surrounding whitespace and ASCII case.
    pub fn parse(value: &str) -> (r: Result<Backend, BackendParseError>)
        ensures
            match r {
                Ok(b) => spec_parse_backend(value@) == Some(b),
                Err(e) => spec_parse_backend(value@) is None && e.value@ == value@,
            },
    {
        let cs = chars_of(value);
        let (a, b) = trim_bounds(cs.as_slice());
        let t = slice_chars(cs.as_slice(), a, b);
        let n = to_ascii_lower(t.as_slice());
        if str_eq_chars_lit(n.as_slice(), "tmux") {
            Ok(Backend::Tmux)
        } else if str_eq_chars_lit(n.as_slice(), "herdr") {
            Ok(Backend::Herdr)
        } else if str_eq_chars_lit(n.as_slice(), "zellij") {
            Ok(Backend::Zellij)
        } else {
            Err(BackendParseError { value: value.to_owned() })
        }
    }
}

fn str_eq_chars_lit(v: &[char], lit: &str) -> (r: bool)
    ensures
        r == (v@ == lit@),
{
    let l = chars_of(lit);
    chars_eq(v, l.as_slice())
}

impl core::str::FromStr for Backend {
    type Err = BackendParseError;

    fn from_str(value: &str) -> Result<Backend, BackendParseError> {
        Backend::parse(value)
    }
}

/// Which multiplexers the environment says bootmux runs inside.
#[derive(Clone, Copy, Debug, Default, PartialEq, Eq)]
pub struct ActiveEnvironment {
    pub tmux: bool,
    pub herdr: bool,
    pub herdr_popup: bool,
    pub zellij: bool,
}

/// The active backends in the order tmux, Herdr, zellij.
pub open spec fn spec_active_backends(a: ActiveEnvironment) -> Seq<Backend> {
    (if a.tmux {
        seq![Backend::Tmux]
    } else {
        seq![]
    }) + (if a.herdr {
        seq![Backend::Herdr]
    } else {
        seq![]
    }) + (if a.zellij {
        seq![Backend::Zellij]
    } else {
        seq![]
    })
}

impl ActiveEnvironment {
    /// The backends whose environment markers are present.
    pub fn backends(self) -> (r: Vec<Backend>)
        ensures
            r@ == spec_active_backends(self),
    {
        let mut r: Vec<Backend> = Vec::new();
        if self.tmux {
            r.push(Backend::Tmux);
        }
        if self.herdr {
            r.push(Backend::Herdr);
        }
        if self.zellij {
            r.push(Backend::Zellij);
        }
        r
    }

    /// Several multiplexers are active and no Herdr popup identifies the
    /// foreground one.
    pub fn is_ambiguous(self) -> (r: bool)
        ensures
            r == (!self.herdr_popup && spec_active_backends(self).len() > 1),
    {
        !self.herdr_popup && self.backends().len() > 1
    }
}

/// The global bootmux settings.
#[derive(Clone, Copy, Debug, Default, PartialEq, Eq)]
pub struct Settings {
    pub default_backend: Option<Backend>,
}

/// Why a TOML string value could not be read.
#[derive(Clone, Copy, Debug, PartialEq, Eq)]
pub enum TomlStringError {
    NotQuoted,
    UnterminatedEscape,
    UnsupportedEscape(char),
}

/// Why the settings could not be located, read, or changed.
#[derive(Clone, Debug, PartialEq, Eq)]
pub enum SettingsError {
    /// Neither `HOME` nor `XDG_CONFIG_HOME` is set.
    MissingHome,
    /// A second `default_backend` assignment, on this one-based line.
    Duplicate { line: usize },
    /// The `default_backend` value on this line is not a supported string.
    InvalidValue { line: usize, error: TomlStringError },
    /// The value names no backend.
    UnknownBackend(BackendParseError),
    /// A setting name other than `default_backend`/`default-backend`.
    UnknownSetting { key: String },
}

/// A settings error with its strings as character sequences.
pub enum SettingsFailure {
    MissingHome,
    Duplicate(nat),
    InvalidValue(nat, TomlStringError),
    UnknownBackend(Seq<char>),
    UnknownSetting(Seq<char>),
}

impl View for SettingsError {
    type V = SettingsFailure;

    open spec fn view(&self) -> SettingsFailure {
        match self {
            SettingsError::MissingHome => SettingsFailure::MissingHome,
            SettingsError::Duplicate { line } => SettingsFailure::Duplicate(*line as nat),
            SettingsError::InvalidValue { line, error } => SettingsFailure::InvalidValue(
                *line as nat,
                *error,
            ),
            SettingsError::UnknownBackend(e) => SettingsFailure::UnknownBackend(e.value@),
            SettingsError::UnknownSetting { key } => SettingsFailure::UnknownSetting(key@),
        }
    }
}

/// Where a `#` comment starts, scanning from `i` in the given quoting state.
pub open spec fn comment_cut(v: Seq<char>, i: int, single: bool, double: bool, escaped: bool) -> int
    decreases v.len() - i,
{
    if i >= v.len() || i < 0 {
        v.len() as int
    } else if escaped {
        comment_cut(v, i + 1, single, double, false)
    } else {
        let c = v[i];
        if c == '\\' && double {
            comment_cut(v, i + 1, single, double, true)
        } else if c == '\'' && !double {
            comment_cut(v, i + 1, !single, double, false)
        } else if c == '"' && !single {
            comment_cut(v, i + 1, single, !double, false)
        } else if c == '#' && !single && !double {
            i
        } else {
            comment_cut(v, i + 1, single, double, false)
        }
    }
}

pub proof fn lemma_comment_cut_bounds(v: Seq<char>, i: int, single: bool, double: bool, escaped: bool)
    requires
        0 <= i,
    ensures
        i <= comment_cut(v, i, single, double, escaped) <= v.len() || comment_cut(
            v,
            i,
            single,
            double,
            escaped,
        ) == v.len(),
        0 <= comment_cut(v, i, single, double, escaped) <= v.len(),
    decreases v.len() - i,
{
    if i < v.len() {
        if escaped {
            lemma_comment_cut_bounds(v, i + 1, single, double, false);
        } else {
            let c = v[i];
            if c == '\\' && double {
                lemma_comment_cut_bounds(v, i + 1, single, double, true);
            } else if c == '\'' && !double {
                lemma_comment_cut_bounds(v, i + 1, !single, double, false);
            } else if c == '"' && !single {
                lemma_comment_cut_bounds(v, i + 1, single, !double, false);
            } else if c == '#' && !single && !double {
            } else {
                lemma_comment_cut_bounds(v, i + 1, single, double, false);
            }
        }
    }
}

/// The value before a TOML comment that starts outside quotes.
pub open spec fn spec_strip_toml_comment(v: Seq<char>) -> Seq<char> {
    v.subrange(0, comment_cut(v, 0, false, false, false))
}

/// Strips a trailing `#` comment that starts outside quotes.
pub fn strip_toml_comment(v: &[char]) -> (r: Vec<char>)
    ensures
        r@ == spec_strip_toml_comment(v@),
{
    let mut single = false;
    let mut double = false;
    let mut escaped = false;
    let mut i: usize = 0;
    while i < v.len()
        invariant
            i <= v@.len(),
            comment_cut(v@, 0, false, false, false) == comment_cut(
                v@,
                i as int,
                single,
                double,
                escaped,
            ),
        decreases v.len() - i,
    {
        let c = v[i];
        if escaped {
            escaped = false;
        } else if c == '\\' && double {
            escaped = true;
        } else if c == '\'' && !double {
            single = !single;
        } else if c == '"' && !single {
            double = !double;
        } else if c == '#' && !single && !double {
            return slice_chars(v, 0, i);
        }
        i += 1;
    }
    slice_chars(v, 0, v.len())
}

/// The result of prefixing `p` to a successful result.
pub open spec fn prepend(p: Seq<char>, r: Result<Seq<char>, TomlStringError>) -> Result<
    Seq<char>,
    TomlStringError,
> {
    match r {
        Ok(x) => Ok(p + x),
        Err(e) => Err(e),
    }
}

/// The character a supported escape stands for.
pub open spec fn toml_escape(e: char) -> Option<char> {
    if e == '"' {
        Some('"')
    } else if e == '\\' {
        Some('\\')
    } else if e == 'n' {
        Some('\n')
    } else if e == 'r' {
        Some('\r')
    } else if e == 't' {
        Some('\t')
    } else {
        None
    }
}

/// The body of a double-quoted TOML string with its escapes resolved.
pub open spec fn toml_unescape(s: Seq<char>) -> Result<Seq<char>, TomlStringError>
    decreases s.len(),
{
    if s.len() == 0 {
        Ok(seq![])
    } else if s[0] != '\\' {
        prepend(seq![s[0]], toml_unescape(s.drop_first()))
    } else if s.len() == 1 {
        Err(TomlStringError::UnterminatedEscape)
    } else {
        match toml_escape(s[1]) {
            Some(c) => prepend(seq![c], toml_unescape(s.subrange(2, s.len() as int))),
            None => Err(TomlStringError::UnsupportedEscape(s[1])),
        }
    }
}

pub proof fn lemma_prepend_push(p: Seq<char>, c: char, r: Result<Seq<char>, TomlStringError>)
    ensures
        prepend(p, prepend(seq![c], r)) == prepend(p.push(c), r),
{
    if let Ok(x) = r {
        assert(p + (seq![c] + x) =~= p.push(c) + x);
    }
}

/// A single- or double-quoted TOML string value, possibly followed by a
/// comment.
pub open spec fn spec_parse_toml_string(raw: Seq<char>) -> Result<Seq<char>, TomlStringError> {
    let v = trim(spec_strip_toml_comment(raw));
    if v.len() < 2 || !(v[0] == '\'' || v[0] == '"') || v.last() != v[0] {
        Err(TomlStringError::NotQuoted)
    } else {
        let inner = v.subrange(1, v.len() - 1);
        if v[0] == '\'' {
            Ok(inner)
        } else {
            toml_unescape(inner)
        }
    }
}

/// Reads a quoted TOML string value.
pub fn parse_toml_string(raw: &[char]) -> (r: Result<Vec<char>, TomlStringError>)
    ensures
        match r {
            Ok(s) => spec_parse_toml_string(raw@) == Ok::<Seq<char>, TomlStringError>(s@),
            Err(e) => spec_parse_toml_string(raw@) == Err::<Seq<char>, TomlStringError>(e),
        },
{
    let stripped = strip_toml_comment(raw);
    let (a, b) = trim_bounds(stripped.as_slice());
    let v = slice_chars(stripped.as_slice(), a, b);
    let n = v.len();
    if n < 2 || !(v[0] == '\'' || v[0] == '"') || v[n - 1] != v[0] {
        return Err(TomlStringError::NotQuoted);
    }
    let inner = slice_chars(v.as_slice(), 1, n - 1);
    if v[0] == '\'' {
        return Ok(inner);
    }
    let mut out: Vec<char> = Vec::new();
    let mut i: usize = 0;
    assert(inner@.subrange(0, inner@.len() as int) == inner@);
    while i < inner.len()
        invariant
            i <= inner@.len(),
            spec_parse_toml_string(raw@) == toml_unescape(inner@),
            toml_unescape(inner@) == prepend(
                out@,
                toml_unescape(inner@.subrange(i as int, inner@.len() as int)),
            ),
        decreases inner.len() - i,
    {
        let ghost rest = inner@.subrange(i as int, inner@.len() as int);
        let c = inner[i];
        if c != '\\' {
            assert(rest.drop_first() == inner@.subrange(i + 1, inner@.len() as int));
            proof {
                lemma_prepend_push(out@, c, toml_unescape(rest.drop_first()));
            }
            out.push(c);
            i += 1;
        } else if i + 1 == inner.len() {
            return Err(TomlStringError::UnterminatedEscape);
        } else {
            let e = inner[i + 1];
            assert(rest[1] == e);
            assert(rest.subrange(2, rest.len() as int) == inner@.subrange(
                i + 2,
                inner@.len() as int,
            ));
            let m = if e == '"' {
                '"'
            } else if e == '\\' {
                '\\'
            } else if e == 'n' {
                '\n'
            } else if e == 'r' {
                '\r'
            } else if e == 't' {
                '\t'
            } else {
                return Err(TomlStringError::UnsupportedEscape(e));
            };
            proof {
                lemma_prepend_push(out@, m, toml_unescape(rest.subrange(2, rest.len() as int)));
            }
            out.push(m);
            i += 2;
        }
    }
    assert(inner@.subrange(inner@.len() as int, inner@.len() as int) == Seq::<char>::empty());
    Ok(out)
}

/// A settings line as it is read: without byte-order marks and surrounding
/// whitespace.
pub open spec fn setting_line(line: Seq<char>) -> Seq<char> {
    trim(strip_bom(line))
}

/// Reads the settings lines from `i` on, in the given table state and with
/// the backend found so far.
pub open spec fn parse_lines(
    lines: Seq<Seq<char>>,
    i: int,
    in_top: bool,
    found: Option<Backend>,
) -> Result<Option<Backend>, SettingsFailure>
    decreases lines.len() - i,
{
    if i >= lines.len() || i < 0 {
        Ok(found)
    } else {
        let line = setting_line(lines[i]);
        if line.len() == 0 || line[0] == '#' {
            parse_lines(lines, i + 1, in_top, found)
        } else if line[0] == '[' {
            parse_lines(lines, i + 1, false, found)
        } else if !in_top {
            parse_lines(lines, i + 1, in_top, found)
        } else {
            match split_once(line, '=') {
                None => parse_lines(lines, i + 1, in_top, found),
                Some((k, v)) => if trim(k) != DEFAULT_BACKEND_KEY@ {
                    parse_lines(lines, i + 1, in_top, found)
                } else if found is Some {
                    Err(SettingsFailure::Duplicate((i + 1) as nat))
                } else {
                    match spec_parse_toml_string(v) {
                        Err(e) => Err(SettingsFailure::InvalidValue((i + 1) as nat, e)),
                        Ok(s) => match spec_parse_backend(s) {
                            None => Err(SettingsFailure::UnknownBackend(s)),
                            Some(b) => parse_lines(lines, i + 1, in_top, Some(b)),
                        },
                    }
                },
            }
        }
    }
}

/// The backend a settings document selects: its top-level `default_backend`
/// string, which may appear once.
pub open spec fn spec_parse_settings(document: Seq<char>) -> Result<Option<Backend>, SettingsFailure> {
    parse_lines(spec_lines(document), 0, true, None)
}

/// Whether a trimmed line assigns `default_backend`.
pub open spec fn is_assignment_line(line: Seq<char>) -> bool {
    split_once(line, '=') matches Some((k, v)) && trim(k) == DEFAULT_BACKEND_KEY@
}

fn is_assignment(line: &[char]) -> (r: bool)
    ensures
        r == is_assignment_line(line@),
{
    let i = find_char_index(line, '=');
    if i < line.len() {
        let k = slice_chars(line, 0, i);
        let (a, b) = trim_bounds(k.as_slice());
        let t = slice_chars(k.as_slice(), a, b);
        str_eq_chars_lit(t.as_slice(), DEFAULT_BACKEND_KEY)
    } else {
        false
    }
}

/// Parses the settings document.
pub fn parse_settings(document: &str) -> (r: Result<Settings, SettingsError>)
    ensures
        match r {
            Ok(s) => spec_parse_settings(document@) == Ok::<Option<Backend>, SettingsFailure>(
                s.default_backend,
            ),
            Err(e) => spec_parse_settings(document@) == Err::<Option<Backend>, SettingsFailure>(
                e@,
            ),
        },
{
    let cs = chars_of(document);
    let lines = lines_of(cs.as_slice());
    let ghost ls = lines@.map_values(|l: Vec<char>| l@);
    let mut in_top = true;
    let mut found: Option<Backend> = None;
    let mut i: usize = 0;
    while i < lines.len()
        invariant
            i <= lines@.len(),
            ls == lines@.map_values(|l: Vec<char>| l@),
            ls == spec_lines(document@),
            spec_parse_settings(document@) == parse_lines(ls, i as int, in_top, found),
        decreases lines.len() - i,
    {
        assert(ls[i as int] == lines@[i as int]@);
        let stripped = strip_bom_chars(lines[i].as_slice());
        let (a, b) = trim_bounds(stripped.as_slice());
        let line = slice_chars(stripped.as_slice(), a, b);
        assert(line@ == setting_line(ls[i as int]));
        if line.len() == 0 || line[0] == '#' {
        } else if line[0] == '[' {
            in_top = false;
        } else if !in_top {
        } else {
            let eq = find_char_index(line.as_slice(), '=');
            if eq < line.len() {
                proof {
                    crate::text::lemma_find_char(line@, '=');
                }
                let k = slice_chars(line.as_slice(), 0, eq);
                let (ka, kb) = trim_bounds(k.as_slice());
                let key = slice_chars(k.as_slice(), ka, kb);
                if str_eq_chars_lit(key.as_slice(), DEFAULT_BACKEND_KEY) {
                    if found.is_some() {
                        return Err(SettingsError::Duplicate { line: i + 1 });
                    }
                    let v = slice_chars(line.as_slice(), eq + 1, line.len());
                    match parse_toml_string(v.as_slice()) {
                        Err(e) => {
                            return Err(SettingsError::InvalidValue { line: i + 1, error: e });
                        },
                        Ok(value) => {
                            let text = string_of(value.as_slice());
                            match Backend::parse(text.as_str()) {
                                Ok(b) => {
                                    found = Some(b);
                                },
                                Err(e) => {
                                    return Err(SettingsError::UnknownBackend(e));
                                },
                            }
                        },
                    }
                }
            }
        }
        i += 1;
    }
    Ok(Settings { default_backend: found })
}

/// The configured default backend of a settings document.
pub fn default_backend(document: &str) -> (r: Result<Option<Backend>, SettingsError>)
    ensures
        match r {
            Ok(b) => spec_parse_settings(document@) == Ok::<Option<Backend>, SettingsFailure>(b),
            Err(e) => spec_parse_settings(document@) == Err::<Option<Backend>, SettingsFailure>(
                e@,
            ),
        },
{
    match parse_settings(document) {
        Ok(s) => Ok(s.default_backend),
        Err(e) => Err(e),
    }
}


/// The `default_backend = "NAME"` assignment line (without its newline).
pub open spec fn spec_assignment(b: Backend) -> Seq<char> {
    DEFAULT_BACKEND_KEY@ + " = \""@ + spec_backend_name(b) + "\""@
}

/// The document produced from the lines from `i` on: the assignment replaces
/// every top-level one, or is inserted before the first table, or appended.
pub open spec fn rewrite_lines(
    lines: Seq<Seq<char>>,
    i: int,
    in_top: bool,
    replaced: bool,
    a: Seq<char>,
) -> Seq<char>
    decreases lines.len() - i,
{
    if i >= lines.len() || i < 0 {
        if replaced {
            seq![]
        } else {
            a + seq!['\n']
        }
    } else {
        let line = setting_line(lines[i]);
        let opens_table = in_top && starts_with_char(line, '[');
        let pre = if opens_table && !replaced {
            a + seq!['\n']
        } else {
            seq![]
        };
        let in_top2 = in_top && !opens_table;
        let assign = in_top2 && is_assignment_line(line);
        pre + (if assign {
            a
        } else {
            lines[i]
        }) + seq!['\n'] + rewrite_lines(lines, i + 1, in_top2, replaced || opens_table || assign, a)
    }
}

pub open spec fn spec_document_with_default_backend(document: Seq<char>, b: Backend) -> Seq<char> {
    rewrite_lines(spec_lines(document), 0, true, false, spec_assignment(b))
}

/// Sets `default_backend` in a settings document, keeping every other line.
/// The document must read as valid settings first.
pub fn document_with_default_backend(document: &str, backend: Backend) -> (r: Result<
    String,
    SettingsError,
>)
    ensures
        match r {
            Ok(s) => spec_parse_settings(document@) is Ok && s@
                == spec_document_with_default_backend(document@, backend),
            Err(e) => spec_parse_settings(document@) == Err::<Option<Backend>, SettingsFailure>(
                e@,
            ),
        },
{
    parse_settings(document)?;
    let mut a: Vec<char> = Vec::new();
    extend_str(&mut a, DEFAULT_BACKEND_KEY);
    extend_str(&mut a, " = \"");
    extend_str(&mut a, backend.as_str());
    extend_str(&mut a, "\"");
    let cs = chars_of(document);
    let lines = lines_of(cs.as_slice());
    let ghost ls = lines@.map_values(|l: Vec<char>| l@);
    let mut out: Vec<char> = Vec::new();
    let mut in_top = true;
    let mut replaced = false;
    let mut i: usize = 0;
    while i < lines.len()
        invariant
            i <= lines@.len(),
            ls == lines@.map_values(|l: Vec<char>| l@),
            a@ == spec_assignment(backend),
            spec_document_with_default_backend(document@, backend) == out@ + rewrite_lines(
                ls,
                i as int,
                in_top,
                replaced,
                a@,
            ),
            ls == spec_lines(document@),
        decreases lines.len() - i,
    {
        assert(ls[i as int] == lines@[i as int]@);
        let stripped = strip_bom_chars(lines[i].as_slice());
        let (x, y) = trim_bounds(stripped.as_slice());
        let line = slice_chars(stripped.as_slice(), x, y);
        let ghost before = out@;
        let opens_table = in_top && line.len() > 0 && line[0] == '[';
        if opens_table && !replaced {
            extend_chars(&mut out, a.as_slice());
            out.push('\n');
        }
        let in_top2 = in_top && !opens_table;
        let assign = in_top2 && is_assignment(line.as_slice());
        if assign {
            extend_chars(&mut out, a.as_slice());
        } else {
            extend_chars(&mut out, lines[i].as_slice());
        }
        out.push('\n');
        proof {
            let pre = if opens_table && !replaced {
                a@ + seq!['\n']
            } else {
                seq![]
            };
            let body = if assign {
                a@
            } else {
                ls[i as int]
            };
            assert(out@ == before + pre + body + seq!['\n']);
            let rest = rewrite_lines(ls, i + 1, in_top2, replaced || opens_table || assign, a@);
            assert(rewrite_lines(ls, i as int, in_top, replaced, a@) == pre + body + seq!['\n']
                + rest);
            assert(before + (pre + body + seq!['\n'] + rest) == out@ + rest);
        }
        in_top = in_top2;
        replaced = replaced || opens_table || assign;
        i += 1;
    }
    if !replaced {
        extend_chars(&mut out, a.as_slice());
        out.push('\n');
    }
    proof {
        assert(rewrite_lines(ls, i as int, in_top, replaced, a@) == (if replaced {
            seq![]
        } else {
            a@ + seq!['\n']
        }));
    }
    Ok(string_of(out.as_slice()))
}

/// A variable whose name starts with `prefix` is set to a non-empty value.
pub open spec fn populated_prefix(all: Seq<(String, String)>, prefix: Seq<char>) -> bool {
    exists|i: int| 0 <= i < all.len() && has_prefix(#[trigger] all[i].0@, prefix) && all[i].1@.len() > 0
}

pub open spec fn spec_active_environment(env: Env) -> ActiveEnvironment {
    let all = env.all@;
    let popup = populated_prefix(all, "HERDR_ACTIVE_"@);
    ActiveEnvironment {
        tmux: (env.tmux matches Some(t) && t@.len() > 0) || populated(all, "TMUX"@),
        herdr: popup || populated(all, "HERDR_ENV"@) || populated(all, "HERDR_WORKSPACE_ID"@)
            || populated(all, "HERDR_TAB_ID"@) || populated(all, "HERDR_PANE_ID"@) || populated(
            all,
            "HERDR_SOCKET_PATH"@,
        ),
        herdr_popup: popup,
        // zellij sets ZELLIJ to "0" inside a session, so presence rather
        // than truthiness is the marker.
        zellij: populated(all, "ZELLIJ"@) || populated(all, "ZELLIJ_SESSION_NAME"@) || populated(
            all,
            "ZELLIJ_PANE_ID"@,
        ),
    }
}

fn has_populated_prefix(env: &Env, prefix: &str) -> (r: bool)
    ensures
        r == populated_prefix(env.all@, prefix@),
{
    let p = chars_of(prefix);
    let mut i: usize = 0;
    while i < env.all.len()
        invariant
            i <= env.all@.len(),
            p@ == prefix@,
            forall|j: int|
                0 <= j < i ==> !(has_prefix(#[trigger] env.all@[j].0@, prefix@) && env.all@[j].1@.len()
                    > 0),
        decreases env.all.len() - i,
    {
        let k = chars_of(env.all[i].0.as_str());
        if starts_with(k.as_slice(), p.as_slice()) && !env.all[i].1.as_str().is_empty() {
            assert(has_prefix(env.all@[i as int].0@, prefix@));
            return true;
        }
        i += 1;
    }
    false
}

/// Reads which multiplexers the environment's markers say are active.
pub fn active_environment(env: &Env) -> (r: ActiveEnvironment)
    ensures
        r == spec_active_environment(*env),
{
    let herdr_popup = has_populated_prefix(env, "HERDR_ACTIVE_");
    let herdr = herdr_popup || env.populated("HERDR_ENV") || env.populated("HERDR_WORKSPACE_ID")
        || env.populated("HERDR_TAB_ID") || env.populated("HERDR_PANE_ID") || env.populated(
        "HERDR_SOCKET_PATH",
    );
    let tmux_var = match &env.tmux {
        Some(t) => !t.as_str().is_empty(),
        None => false,
    };
    let tmux = tmux_var || env.populated("TMUX");
    let zellij = env.populated("ZELLIJ") || env.populated("ZELLIJ_SESSION_NAME") || env.populated(
        "ZELLIJ_PANE_ID",
    );
    ActiveEnvironment { tmux, herdr, herdr_popup, zellij }
}

/// Whether a Herdr popup owns the foreground.
pub fn is_herdr_popup(env: &Env) -> (r: bool)
    ensures
        r == spec_active_environment(*env).herdr_popup,
{
    active_environment(env).herdr_popup
}

/// Names the multiplexer that owns the foreground process when nested
/// multiplexer variables alone do not tell.
pub trait ForegroundProcessClassifier {
    fn classify_foreground(&self, env: &Env) -> Result<Option<Backend>, String>;
}

/// A classifier that never knows the answer.
pub struct NoClassifier;

impl ForegroundProcessClassifier for NoClassifier {
    fn classify_foreground(&self, env: &Env) -> Result<Option<Backend>, String> {
        Ok(None)
    }
}

/// Why no backend could be chosen.
#[derive(Clone, Debug, PartialEq, Eq)]
pub enum ResolveError {
    /// Several multiplexer environments are active and nothing identified
    /// the foreground one.
    Ambiguous { active: Vec<Backend> },
    /// The foreground classifier failed.
    Classifier(String),
}

/// The choice that the environment alone makes; `None` leaves it to the
/// global setting. `Err` only for nested environments that nothing resolves.
pub open spec fn spec_environment_choice(explicit: Option<Backend>, env: Env) -> Option<
    Option<Backend>,
> {
    let active = spec_active_environment(env);
    let backends = spec_active_backends(active);
    if explicit is Some {
        Some(explicit)
    } else if active.herdr_popup {
        Some(Some(Backend::Herdr))
    } else if backends.len() == 0 {
        Some(None)
    } else if backends.len() == 1 {
        Some(Some(backends[0]))
    } else {
        None
    }
}

/// The decision for nested environments, given what the classifier said.
pub fn decide_nested(active: Vec<Backend>, classified: Result<Option<Backend>, String>) -> (r: Result<
    Backend,
    ResolveError,
>)
    ensures
        match classified {
            Ok(Some(b)) => r == Ok::<Backend, ResolveError>(b),
            Ok(None) => r matches Err(ResolveError::Ambiguous { active: a }) && a@ == active@,
            Err(m) => r matches Err(ResolveError::Classifier(x)) && x@ == m@,
        },
{
    match classified {
        Ok(Some(b)) => Ok(b),
        Ok(None) => Err(ResolveError::Ambiguous { active }),
        Err(m) => Err(ResolveError::Classifier(m)),
    }
}

/// Resolves the backend from an explicit choice and the active environment:
/// `Ok(None)` means neither decides and the global setting applies. The
/// classifier is consulted only when several environments are nested.
pub fn environment_backend<C: ForegroundProcessClassifier>(
    explicit: Option<Backend>,
    env: &Env,
    classifier: Option<&C>,
) -> (r: Result<Option<Backend>, ResolveError>)
    ensures
        spec_environment_choice(explicit, *env) matches Some(choice) ==> r == Ok::<
            Option<Backend>,
            ResolveError,
        >(choice),
        spec_environment_choice(explicit, *env) is None ==> match r {
            Ok(Some(b)) => classifier is Some,
            Ok(None) => false,
            Err(ResolveError::Ambiguous { active: a }) => a@ == spec_active_backends(
                spec_active_environment(*env),
            ),
            Err(ResolveError::Classifier(_)) => classifier is Some,
        },
        classifier is None && spec_environment_choice(explicit, *env) is None ==> r matches Err(
            ResolveError::Ambiguous { .. },
        ),
{
    if let Some(b) = explicit {
        return Ok(Some(b));
    }
    let active = active_environment(env);
    if active.herdr_popup {
        return Ok(Some(Backend::Herdr));
    }
    let backends = active.backends();
    if backends.len() == 0 {
        return Ok(None);
    }
    if backends.len() == 1 {
        return Ok(Some(backends[0]));
    }
    match classifier {
        None => Err(ResolveError::Ambiguous { active: backends }),
        Some(c) => {
            let classified = c.classify_foreground(env);
            match decide_nested(backends, classified) {
                Ok(b) => Ok(Some(b)),
                Err(e) => Err(e),
            }
        },
    }
}

/// Resolves a backend in this order: an explicit choice, the active
/// multiplexer environment, the configured default, then tmux.
pub fn resolve_backend_with_classifier<C: ForegroundProcessClassifier>(
    explicit: Option<Backend>,
    env: &Env,
    classifier: Option<&C>,
    configured: Option<Backend>,
) -> (r: Result<Backend, ResolveError>)
    ensures
        spec_environment_choice(explicit, *env) matches Some(choice) ==> r == Ok::<
            Backend,
            ResolveError,
        >(
            match choice {
                Some(b) => b,
                None => match configured {
                    Some(b) => b,
                    None => Backend::Tmux,
                },
            },
        ),
        spec_environment_choice(explicit, *env) is None ==> match r {
            Ok(_) => classifier is Some,
            Err(ResolveError::Ambiguous { active: a }) => a@ == spec_active_backends(
                spec_active_environment(*env),
            ),
            Err(ResolveError::Classifier(_)) => classifier is Some,
        },
        classifier is None && spec_environment_choice(explicit, *env) is None ==> r matches Err(
            ResolveError::Ambiguous { .. },
        ),
{
    match environment_backend(explicit, env, classifier) {
        Ok(Some(b)) => Ok(b),
        Ok(None) => match configured {
            Some(b) => Ok(b),
            None => Ok(Backend::Tmux),
        },
        Err(e) => Err(e),
    }
}

/// `resolve_backend_with_classifier` without a classifier.
pub fn resolve_backend(explicit: Option<Backend>, env: &Env, configured: Option<Backend>) -> (r:
    Result<Backend, ResolveError>)
    ensures
        spec_environment_choice(explicit, *env) matches Some(choice) ==> r == Ok::<
            Backend,
            ResolveError,
        >(
            match choice {
                Some(b) => b,
                None => match configured {
                    Some(b) => b,
                    None => Backend::Tmux,
                },
            },
        ),
        spec_environment_choice(explicit, *env) is None ==> (r matches Err(
            ResolveError::Ambiguous { active: a },
        ) && a@ == spec_active_backends(spec_active_environment(*env))),
{
    resolve_backend_with_classifier::<NoClassifier>(explicit, env, None, configured)
}

/// The location of the settings file:
/// `${XDG_CONFIG_HOME:-$HOME/.config}/bootmux/config.toml`.
pub open spec fn spec_config_home(env: Env) -> Option<Seq<char>> {
    let xdg = match env.xdg_config_home {
        Some(x) => Some(x@),
        None => lookup(env.all@, "XDG_CONFIG_HOME"@),
    };
    if xdg matches Some(x) && x.len() > 0 {
        xdg
    } else {
        let home = if env.home@.len() == 0 {
            match lookup(env.all@, "HOME"@) {
                Some(h) => h,
                None => seq![],
            }
        } else {
            env.home@
        };
        if home.len() == 0 {
            None
        } else {
            Some(path_join(home, ".config"@))
        }
    }
}

pub open spec fn spec_settings_path(env: Env) -> Option<Seq<char>> {
    match spec_config_home(env) {
        Some(c) => Some(path_join(path_join(c, "bootmux"@), "config.toml"@)),
        None => None,
    }
}

/// Returns the global bootmux settings path.
pub fn path(env: &Env) -> (r: Result<String, SettingsError>)
    ensures
        match r {
            Ok(p) => spec_settings_path(*env) == Some(p@),
            Err(e) => spec_settings_path(*env) is None && e is MissingHome,
        },
{
    let xdg: Option<&String> = match &env.xdg_config_home {
        Some(x) => Some(x),
        None => env.var("XDG_CONFIG_HOME"),
    };
    let config_home: Vec<char> = match xdg {
        Some(x) if !x.as_str().is_empty() => chars_of(x.as_str()),
        _ => {
            let home: Vec<char> = if env.home.as_str().is_empty() {
                match env.var("HOME") {
                    Some(h) => chars_of(h.as_str()),
                    None => Vec::new(),
                }
            } else {
                chars_of(env.home.as_str())
            };
            if home.len() == 0 {
                return Err(SettingsError::MissingHome);
            }
            let c = chars_of(".config");
            path_join_chars(home.as_slice(), c.as_slice())
        },
    };
    let b = chars_of("bootmux");
    let t = chars_of("config.toml");
    let p1 = path_join_chars(config_home.as_slice(), b.as_slice());
    let p2 = path_join_chars(p1.as_slice(), t.as_slice());
    Ok(string_of(p2.as_slice()))
}

pub open spec fn is_setting_key(key: Seq<char>) -> bool {
    key == DEFAULT_BACKEND_KEY@ || key == DEFAULT_BACKEND_CLI_KEY@
}

/// Reads a setting by its command-line or TOML name.
pub fn get(key: &str, settings: &Settings) -> (r: Result<Option<String>, SettingsError>)
    ensures
        match r {
            Ok(v) => is_setting_key(key@) && match settings.default_backend {
                Some(b) => v matches Some(s) && s@ == spec_backend_name(b),
                None => v is None,
            },
            Err(e) => !is_setting_key(key@) && e@ == SettingsFailure::UnknownSetting(key@),
        },
{
    if str_eq(key, DEFAULT_BACKEND_KEY) || str_eq(key, DEFAULT_BACKEND_CLI_KEY) {
        match settings.default_backend {
            Some(b) => Ok(Some(b.as_str().to_owned())),
            None => Ok(None),
        }
    } else {
        Err(SettingsError::UnknownSetting { key: key.to_owned() })
    }
}

/// Refuses a name that is not a setting.
pub fn require_setting_key(key: &str) -> (r: Result<(), SettingsError>)
    ensures
        r is Ok <==> is_setting_key(key@),
        r matches Err(e) ==> e@ == SettingsFailure::UnknownSetting(key@),
{
    if str_eq(key, DEFAULT_BACKEND_KEY) || str_eq(key, DEFAULT_BACKEND_CLI_KEY) {
        Ok(())
    } else {
        Err(SettingsError::UnknownSetting { key: key.to_owned() })
    }
}

/// Reads a setting from the text of the settings file (empty when there is
/// no file): an unknown name is refused whatever the text holds; otherwise
/// the value is the file's default backend, by its name.
pub fn get_in_document(key: &str, document: &str) -> (r: Result<Option<String>, SettingsError>)
    ensures
        !is_setting_key(key@) ==> (r matches Err(e) && e@ == SettingsFailure::UnknownSetting(key@)),
        is_setting_key(key@) ==> match spec_parse_settings(document@) {
            Ok(Some(b)) => r matches Ok(Some(v)) && v@ == spec_backend_name(b),
            Ok(None) => r matches Ok(None),
            Err(f) => r matches Err(e) && e@ == f,
        },
{
    require_setting_key(key)?;
    let settings = parse_settings(document)?;
    get(key, &settings)
}

/// Writes a setting by its command-line or TOML name into a settings
/// document, returning the new document.
pub fn set(key: &str, value: &str, document: &str) -> (r: Result<String, SettingsError>)
    ensures
        match r {
            Ok(s) => is_setting_key(key@) && match spec_parse_backend(value@) {
                Some(b) => spec_parse_settings(document@) is Ok && s@
                    == spec_document_with_default_backend(document@, b),
                None => false,
            },
            Err(e) => if !is_setting_key(key@) {
                e@ == SettingsFailure::UnknownSetting(key@)
            } else if spec_parse_backend(value@) is None {
                e@ == SettingsFailure::UnknownBackend(value@)
            } else {
                spec_parse_settings(document@) == Err::<Option<Backend>, SettingsFailure>(e@)
            },
        },
{
    if !(str_eq(key, DEFAULT_BACKEND_KEY) || str_eq(key, DEFAULT_BACKEND_CLI_KEY)) {
        return Err(SettingsError::UnknownSetting { key: key.to_owned() });
    }
    let backend = match Backend::parse(value) {
        Ok(b) => b,
        Err(e) => {
            return Err(SettingsError::UnknownBackend(e));
        },
    };
    document_with_default_backend(document, backend)
}


impl Backend {
    /// Every backend, in the order of help text, completions and ambiguity
    /// messages.
    pub fn all() -> (r: [Backend; 3])
        ensures
            r@ == seq![Backend::Tmux, Backend::Herdr, Backend::Zellij],
    {
        [Backend::Tmux, Backend::Herdr, Backend::Zellij]
    }

    /// The canonical name as an owned string.
    pub fn to_string(&self) -> (r: String)
        ensures
            r@ == spec_backend_name(*self),
    {
        self.as_str().to_owned()
    }
}

/// The message of a refused backend name.
pub open spec fn backend_error_text(value: Seq<char>) -> Seq<char> {
    "invalid backend "@ + crate::process::debug_quoted(value) + "; expected one of "@
        + crate::process::debug_quoted("tmux"@) + ", "@ + crate::process::debug_quoted("herdr"@) + ", "@
        + crate::process::debug_quoted("zellij"@)
}

/// The message of a TOML string that could not be read.
pub open spec fn toml_error_text(e: TomlStringError) -> Seq<char> {
    match e {
        TomlStringError::NotQuoted => "expected a quoted TOML string"@,
        TomlStringError::UnterminatedEscape => "unterminated TOML escape"@,
        TomlStringError::UnsupportedEscape(c) => "unsupported TOML escape \\"@ + seq![c],
    }
}

/// The message of a settings error.
pub open spec fn settings_error_text(e: SettingsError) -> Seq<char> {
    match e {
        SettingsError::MissingHome => "cannot locate bootmux settings: HOME and XDG_CONFIG_HOME are both unset"@,
        SettingsError::Duplicate { line } => "duplicate default_backend setting on line "@ + crate::zellij::decimal(
            line as nat,
        ),
        SettingsError::InvalidValue { line, error } => "invalid default_backend value on line "@
            + crate::zellij::decimal(line as nat) + ": "@ + toml_error_text(error),
        SettingsError::UnknownBackend(b) => backend_error_text(b.value@),
        SettingsError::UnknownSetting { key } => "unknown bootmux setting "@ + crate::process::debug_quoted(key@)
            + "; supported setting: default-backend (TOML key default_backend)"@,
    }
}

impl BackendParseError {
    /// The message shown to the user: the refused value and the names that
    /// are accepted, each in debug quotes.
    pub fn message(&self) -> (r: String)
        ensures
            r@ == backend_error_text(self.value@),
    {
        let mut out: Vec<char> = Vec::new();
        extend_str(&mut out, "invalid backend ");
        let v = crate::process::debug_quote(self.value.as_str());
        extend_str(&mut out, v.as_str());
        extend_str(&mut out, "; expected one of ");
        let a = crate::process::debug_quote("tmux");
        extend_str(&mut out, a.as_str());
        extend_str(&mut out, ", ");
        let b = crate::process::debug_quote("herdr");
        extend_str(&mut out, b.as_str());
        extend_str(&mut out, ", ");
        let c = crate::process::debug_quote("zellij");
        extend_str(&mut out, c.as_str());
        string_of(out.as_slice())
    }
}

impl TomlStringError {
    /// The message shown to the user.
    pub fn message(&self) -> (r: String)
        ensures
            r@ == toml_error_text(*self),
    {
        match self {
            TomlStringError::NotQuoted => "expected a quoted TOML string".to_owned(),
            TomlStringError::UnterminatedEscape => "unterminated TOML escape".to_owned(),
            TomlStringError::UnsupportedEscape(c) => {
                let mut out: Vec<char> = Vec::new();
                extend_str(&mut out, "unsupported TOML escape \\");
                out.push(*c);
                string_of(out.as_slice())
            },
        }
    }
}

impl SettingsError {
    /// The message shown to the user, with its cause after a colon.
    pub fn message(&self) -> (r: String)
        ensures
            r@ == settings_error_text(*self),
    {
        let mut out: Vec<char> = Vec::new();
        match self {
            SettingsError::MissingHome => {
                extend_str(
                    &mut out,
                    "cannot locate bootmux settings: HOME and XDG_CONFIG_HOME are both unset",
                );
            },
            SettingsError::Duplicate { line } => {
                extend_str(&mut out, "duplicate default_backend setting on line ");
                let n = crate::zellij::decimal_string_u64(*line as u64);
                extend_str(&mut out, n.as_str());
            },
            SettingsError::InvalidValue { line, error } => {
                extend_str(&mut out, "invalid default_backend value on line ");
                let n = crate::zellij::decimal_string_u64(*line as u64);
                extend_str(&mut out, n.as_str());
                extend_str(&mut out, ": ");
                let m = error.message();
                extend_str(&mut out, m.as_str());
            },
            SettingsError::UnknownBackend(e) => {
                let m = e.message();
                extend_str(&mut out, m.as_str());
            },
            SettingsError::UnknownSetting { key } => {
                extend_str(&mut out, "unknown bootmux setting ");
                let q = crate::process::debug_quote(key.as_str());
                extend_str(&mut out, q.as_str());
                extend_str(&mut out, "; supported setting: default-backend (TOML key default_backend)");
            },
        }
        string_of(out.as_slice())
    }
}

/// The display names of some backends, joined by `, `.
pub open spec fn joined_display_names(bs: Seq<Backend>) -> Seq<char>
    decreases bs.len(),
{
    if bs.len() == 0 {
        seq![]
    } else if bs.len() == 1 {
        spec_backend_display_name(bs[0])
    } else {
        joined_display_names(bs.drop_last()) + ", "@ + spec_backend_display_name(bs.last())
    }
}

impl ResolveError {
    /// The message shown to the user.
    pub fn message(&self) -> (r: String)
        ensures
            match *self {
                ResolveError::Ambiguous { active } => r@
                    == "several multiplexer environments are active ("@ + joined_display_names(
                    active@,
                ) + ") and the foreground multiplexer is ambiguous; choose one explicitly with --backend"@,
                ResolveError::Classifier(m) => r@ == m@,
            },
    {
        match self {
            ResolveError::Ambiguous { active } => {
                let mut out: Vec<char> = Vec::new();
                extend_str(&mut out, "several multiplexer environments are active (");
                let ghost start = out@;
                let mut i: usize = 0;
                while i < active.len()
                    invariant
                        i <= active@.len(),
                        out@ == start + joined_display_names(active@.take(i as int)),
                    decreases active.len() - i,
                {
                    assert(active@.take(i + 1).drop_last() == active@.take(i as int));
                    if i > 0 {
                        extend_str(&mut out, ", ");
                    }
                    extend_str(&mut out, active[i].display_name());
                    i += 1;
                }
                assert(active@.take(active@.len() as int) == active@);
                extend_str(
                    &mut out,
                    ") and the foreground multiplexer is ambiguous; choose one explicitly with --backend",
                );
                string_of(out.as_slice())
            },
            ResolveError::Classifier(m) => m.clone(),
        }
    }
}

} // verus!
