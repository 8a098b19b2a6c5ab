//! Key-binding snippets that open the bootmux project picker from tmux, Herdr
//! or zellij, with the validation that keeps a key or command from injecting
//! configuration syntax.

use vstd::prelude::*;
use crate::settings::Backend;
use crate::shellwords::{spec_split, split, views};
use crate::text::{
    chars_of, extend_str, is_ws, is_ws_char, parse_decimal, parse_unsigned, string_of, trim,
    trimmed,
};
use crate::zellij_layout::{hex_char, hex_digit, kdl_string, spec_kdl_string};

verus! {

pub const PICKER_COMMAND: &'static str = "bootmux picker";

pub const DEFAULT_TMUX_KEY: &'static str = "F";

pub const DEFAULT_HERDR_KEY: &'static str = "prefix+shift+f";

pub const DEFAULT_HERDR_POPUP_SIZE: &'static str = "80%";

/// zellij binds Ctrl g/h/n/o/p/q/s/t and Alt f/i/o/n/h/j/k/l by default, so
/// the picker claims one of the few unused control chords.
pub const DEFAULT_ZELLIJ_KEY: &'static str = "Ctrl y";

/// Why a binding cannot be generated.
#[derive(Debug, Clone, PartialEq, Eq)]
pub enum BindingError {
    EmptyTmuxKey,
    TmuxKeyWhitespace { key: String },
    TmuxKeySyntax { key: String },
    EmptyCommand,
    CommandLineBreak,
    EmptyHerdrKey,
    InvalidPopupDimension { name: String, dimension: String },
    EmptyZellijKey,
    ZellijKeySyntax { key: String },
    UnparsableCommand { command: String },
}

pub open spec fn any_ws(s: Seq<char>) -> bool {
    exists|i: int| 0 <= i < s.len() && is_ws(#[trigger] s[i])
}

/// Characters that would let a tmux key escape its configuration line.
pub open spec fn is_tmux_syntax(c: char) -> bool {
    c == '"' || c == '\'' || c == '\\' || c == ';' || c == '#'
}

/// Characters that would let a zellij key escape its KDL string.
pub open spec fn is_kdl_syntax(c: char) -> bool {
    c == '"' || c == '\\' || c == '{' || c == '}' || c == ';'
}

pub open spec fn is_line_break_or_nul(c: char) -> bool {
    c == '\n' || c == '\r' || c == '\0'
}

pub open spec fn any_tmux_syntax(s: Seq<char>) -> bool {
    exists|i: int| 0 <= i < s.len() && is_tmux_syntax(#[trigger] s[i])
}

pub open spec fn any_kdl_syntax(s: Seq<char>) -> bool {
    exists|i: int| 0 <= i < s.len() && is_kdl_syntax(#[trigger] s[i])
}

pub open spec fn any_line_break_or_nul(s: Seq<char>) -> bool {
    exists|i: int| 0 <= i < s.len() && is_line_break_or_nul(#[trigger] s[i])
}

pub open spec fn tmux_key_ok(key: Seq<char>) -> bool {
    key.len() > 0 && !any_ws(key) && !any_tmux_syntax(key)
}

/// The error a rejected tmux key is reported with.
pub open spec fn tmux_key_failure(key: Seq<char>, e: BindingError) -> bool {
    if key.len() == 0 {
        e is EmptyTmuxKey
    } else if any_ws(key) {
        e matches BindingError::TmuxKeyWhitespace { key: k } && k@ == key
    } else {
        e matches BindingError::TmuxKeySyntax { key: k } && k@ == key
    }
}

pub open spec fn command_ok(command: Seq<char>) -> bool {
    trim(command).len() > 0 && !any_line_break_or_nul(command)
}

/// The error a rejected picker command is reported with.
pub open spec fn command_failure(command: Seq<char>, e: BindingError) -> bool {
    if trim(command).len() == 0 {
        e is EmptyCommand
    } else {
        e is CommandLineBreak
    }
}

/// A Herdr popup dimension: positive terminal cells (a `u16`), or a `u8`
/// percentage from 1 to 100 followed by `%`.
pub open spec fn popup_dimension_ok(d: Seq<char>) -> bool {
    popup_cells_ok(d) || popup_percent_ok(d)
}

pub open spec fn popup_cells_ok(d: Seq<char>) -> bool {
    parse_unsigned(d, 65535) matches Some(n) && n > 0
}

pub open spec fn popup_percent_ok(d: Seq<char>) -> bool {
    &&& d.len() > 0
    &&& d.last() == '%'
    &&& parse_unsigned(d.drop_last(), 255) matches Some(p) && 1 <= p && p <= 100
}

pub open spec fn popup_failure(name: Seq<char>, d: Seq<char>, e: BindingError) -> bool {
    e matches BindingError::InvalidPopupDimension { name: n, dimension: x } && n@ == name && x@
        == d
}

/// One character inside a tmux double-quoted string.
pub open spec fn tmux_quote_char(c: char) -> Seq<char> {
    if c == '\\' || c == '"' || c == '$' || c == '`' {
        seq!['\\', c]
    } else {
        seq![c]
    }
}

pub open spec fn tmux_quote_chars(s: Seq<char>) -> Seq<char>
    decreases s.len(),
{
    if s.len() == 0 {
        seq![]
    } else {
        tmux_quote_chars(s.drop_last()) + tmux_quote_char(s.last())
    }
}

/// A tmux double-quoted string: one argument to tmux.
pub open spec fn spec_tmux_double_quoted(s: Seq<char>) -> Seq<char> {
    seq!['"'] + tmux_quote_chars(s) + seq!['"']
}

/// One character inside a TOML basic string.
pub open spec fn toml_escape_char(c: char) -> Seq<char> {
    if c == '"' {
        seq!['\\', '"']
    } else if c == '\\' {
        seq!['\\', '\\']
    } else if c == '\u{8}' {
        seq!['\\', 'b']
    } else if c == '\t' {
        seq!['\\', 't']
    } else if c == '\n' {
        seq!['\\', 'n']
    } else if c == '\u{c}' {
        seq!['\\', 'f']
    } else if c == '\r' {
        seq!['\\', 'r']
    } else if (c as u32) <= 0x1f || (c as u32) == 0x7f {
        seq!['\\', 'u', '0', '0', hex_digit((c as u32) / 16), hex_digit((c as u32) % 16)]
    } else {
        seq![c]
    }
}

pub open spec fn toml_escape_chars(s: Seq<char>) -> Seq<char>
    decreases s.len(),
{
    if s.len() == 0 {
        seq![]
    } else {
        toml_escape_chars(s.drop_last()) + toml_escape_char(s.last())
    }
}

/// A TOML basic string.
pub open spec fn spec_toml_basic_string(s: Seq<char>) -> Seq<char> {
    seq!['"'] + toml_escape_chars(s) + seq!['"']
}

pub open spec fn spec_tmux_snippet(key: Seq<char>, command: Seq<char>) -> Seq<char> {
    "bind-key "@ + key + " new-window "@ + spec_tmux_double_quoted(command) + "\n"@
}

pub open spec fn spec_herdr_snippet(
    key: Seq<char>,
    command: Seq<char>,
    width: Seq<char>,
    height: Seq<char>,
) -> Seq<char> {
    "[[keys.command]]\nkey = "@ + spec_toml_basic_string(key) + "\ntype = \"popup\"\ncommand = "@
        + spec_toml_basic_string(command)
        + "\ndescription = \"open bootmux project picker\"\nwidth = "@ + spec_toml_basic_string(
        width,
    ) + "\nheight = "@ + spec_toml_basic_string(height) + "\n"@
}

/// Words as KDL strings separated by single spaces.
pub open spec fn kdl_words(ws: Seq<Seq<char>>) -> Seq<char>
    decreases ws.len(),
{
    if ws.len() == 0 {
        seq![]
    } else if ws.len() == 1 {
        spec_kdl_string(ws[0])
    } else {
        kdl_words(ws.drop_last()) + seq![' '] + spec_kdl_string(ws.last())
    }
}

pub open spec fn spec_zellij_snippet(key: Seq<char>, words: Seq<Seq<char>>) -> Seq<char> {
    "keybinds {\n    shared_except \"locked\" {\n        bind "@ + spec_kdl_string(key)
        + " {\n            Run "@ + kdl_words(words)
        + " {\n                floating true\n                close_on_exit true\n            }\n        }\n    }\n}\n"@
}

pub open spec fn zellij_key_ok(key: Seq<char>) -> bool {
    trim(key).len() > 0 && !any_kdl_syntax(key)
}

pub open spec fn spec_snippet(backend: Backend) -> Seq<char> {
    match backend {
        Backend::Tmux => spec_tmux_snippet(DEFAULT_TMUX_KEY@, PICKER_COMMAND@),
        Backend::Herdr => spec_herdr_snippet(
            DEFAULT_HERDR_KEY@,
            PICKER_COMMAND@,
            DEFAULT_HERDR_POPUP_SIZE@,
            DEFAULT_HERDR_POPUP_SIZE@,
        ),
        Backend::Zellij => spec_zellij_snippet(
            DEFAULT_ZELLIJ_KEY@,
            spec_split(PICKER_COMMAND@),
        ),
    }
}

/// The snippet for a backend, with its default key and the picker command.
pub fn snippet(backend: Backend) -> (r: String)
    ensures
        r@ == spec_snippet(backend),
{
    match backend {
        Backend::Tmux => tmux_snippet(),
        Backend::Herdr => herdr_snippet(),
        Backend::Zellij => zellij_snippet(),
    }
}

/// A tmux 2.6-compatible prefix binding that opens the picker in a new
/// window (`display-popup` is much younger than the oldest supported tmux).
pub fn tmux_snippet() -> (r: String)
    ensures
        r@ == spec_tmux_snippet(DEFAULT_TMUX_KEY@, PICKER_COMMAND@),
{
    proof {
        reveal_strlit("F");
        reveal_strlit("bootmux picker");
        assert(!any_ws(DEFAULT_TMUX_KEY@));
        assert(!any_tmux_syntax(DEFAULT_TMUX_KEY@));
        assert(PICKER_COMMAND@[0] == 'b');
        assert(!is_ws(PICKER_COMMAND@[0]));
        crate::text::lemma_lead_ws_bound(PICKER_COMMAND@);
        crate::text::lemma_trail_ws_bound(PICKER_COMMAND@);
        assert(!any_line_break_or_nul(PICKER_COMMAND@));
    }
    match tmux_snippet_with(DEFAULT_TMUX_KEY, PICKER_COMMAND) {
        Ok(s) => s,
        Err(_) => {
            proof {
                lemma_trim_nonempty(PICKER_COMMAND@, 0);
            }
            String::new()
        },
    }
}

pub fn tmux_binding() -> (r: String)
    ensures
        r@ == spec_tmux_snippet(DEFAULT_TMUX_KEY@, PICKER_COMMAND@),
{
    tmux_snippet()
}

/// If `s[i]` is not whitespace then the trimmed string is not empty.
pub proof fn lemma_trim_nonempty(s: Seq<char>, i: int)
    requires
        0 <= i < s.len(),
        !is_ws(s[i]),
    ensures
        trim(s).len() > 0,
{
    crate::text::lemma_lead_ws_bound(s);
    let t = crate::text::trim_start(s);
    assert(crate::text::lead_ws(s) <= i);
    crate::text::lemma_trail_ws_bound(t);
    assert(t[i - crate::text::lead_ws(s)] == s[i]);
}

/// Generates `bind-key KEY new-window "COMMAND"`.
pub fn tmux_snippet_with(key: &str, command: &str) -> (r: Result<String, BindingError>)
    ensures
        r is Ok <==> tmux_key_ok(key@) && command_ok(command@),
        r matches Ok(s) ==> s@ == spec_tmux_snippet(key@, command@),
        r matches Err(e) ==> if !tmux_key_ok(key@) {
            tmux_key_failure(key@, e)
        } else {
            command_failure(command@, e)
        },
{
    validate_tmux_key(key)?;
    validate_command(command)?;
    let mut out: Vec<char> = Vec::new();
    extend_str(&mut out, "bind-key ");
    extend_str(&mut out, key);
    extend_str(&mut out, " new-window ");
    let quoted = tmux_double_quoted(command);
    extend_str(&mut out, quoted.as_str());
    extend_str(&mut out, "\n");
    Ok(string_of(out.as_slice()))
}

/// Generates a Herdr popup command binding in its `[[keys.command]]` schema.
pub fn herdr_snippet() -> (r: String)
    ensures
        r@ == spec_herdr_snippet(
            DEFAULT_HERDR_KEY@,
            PICKER_COMMAND@,
            DEFAULT_HERDR_POPUP_SIZE@,
            DEFAULT_HERDR_POPUP_SIZE@,
        ),
{
    proof {
        reveal_strlit("prefix+shift+f");
        reveal_strlit("bootmux picker");
        reveal_strlit("80%");
        lemma_trim_nonempty(DEFAULT_HERDR_KEY@, 0);
        lemma_trim_nonempty(PICKER_COMMAND@, 0);
        assert(!any_line_break_or_nul(PICKER_COMMAND@));
        let d = DEFAULT_HERDR_POPUP_SIZE@;
        assert(d.drop_last() =~= seq!['8', '0']);
        assert(crate::text::dec_value(seq!['8']) == 8) by {
            assert(seq!['8'].drop_last() =~= Seq::<char>::empty());
            assert(seq!['8'].last() == '8');
            assert(('8' as int) == 56);
            assert(crate::text::dec_value(Seq::<char>::empty()) == 0);
        }
        assert(seq!['8', '0'].drop_last() =~= seq!['8']);
        assert(crate::text::dec_value(seq!['8', '0']) == 80);
        assert(crate::text::all_digits(seq!['8', '0']));
        assert(parse_unsigned(d.drop_last(), 255) == Some(80nat));
        assert(popup_dimension_ok(d));
    }
    match herdr_snippet_with(
        DEFAULT_HERDR_KEY,
        PICKER_COMMAND,
        DEFAULT_HERDR_POPUP_SIZE,
        DEFAULT_HERDR_POPUP_SIZE,
    ) {
        Ok(s) => s,
        Err(_) => String::new(),
    }
}

pub fn herdr_binding() -> (r: String)
    ensures
        r@ == spec_herdr_snippet(
            DEFAULT_HERDR_KEY@,
            PICKER_COMMAND@,
            DEFAULT_HERDR_POPUP_SIZE@,
            DEFAULT_HERDR_POPUP_SIZE@,
        ),
{
    herdr_snippet()
}

/// Generates a Herdr popup binding with custom key, command and geometry.
pub fn herdr_snippet_with(key: &str, command: &str, width: &str, height: &str) -> (r: Result<
    String,
    BindingError,
>)
    ensures
        r is Ok <==> trim(key@).len() > 0 && command_ok(command@) && popup_dimension_ok(width@)
            && popup_dimension_ok(height@),
        r matches Ok(s) ==> s@ == spec_herdr_snippet(key@, command@, width@, height@),
        r matches Err(e) ==> if trim(key@).len() == 0 {
            e is EmptyHerdrKey
        } else if !command_ok(command@) {
            command_failure(command@, e)
        } else if !popup_dimension_ok(width@) {
            popup_failure("width"@, width@, e)
        } else {
            popup_failure("height"@, height@, e)
        },
{
    let k = trimmed(key);
    if k.len() == 0 {
        return Err(BindingError::EmptyHerdrKey);
    }
    validate_command(command)?;
    validate_popup_dimension("width", width)?;
    validate_popup_dimension("height", height)?;
    let mut out: Vec<char> = Vec::new();
    extend_str(&mut out, "[[keys.command]]\nkey = ");
    let q = toml_basic_string(key);
    extend_str(&mut out, q.as_str());
    extend_str(&mut out, "\ntype = \"popup\"\ncommand = ");
    let q = toml_basic_string(command);
    extend_str(&mut out, q.as_str());
    extend_str(&mut out, "\ndescription = \"open bootmux project picker\"\nwidth = ");
    let q = toml_basic_string(width);
    extend_str(&mut out, q.as_str());
    extend_str(&mut out, "\nheight = ");
    let q = toml_basic_string(height);
    extend_str(&mut out, q.as_str());
    extend_str(&mut out, "\n");
    Ok(string_of(out.as_slice()))
}

/// Generates a zellij `keybinds` block that opens the picker in a floating
/// pane from every mode but the locked one.
pub fn zellij_snippet() -> (r: String)
    ensures
        r@ == spec_zellij_snippet(DEFAULT_ZELLIJ_KEY@, spec_split(PICKER_COMMAND@)),
{
    let words = split(PICKER_COMMAND);
    zellij_block(DEFAULT_ZELLIJ_KEY, &words)
}

pub fn zellij_binding() -> (r: String)
    ensures
        r@ == spec_zellij_snippet(DEFAULT_ZELLIJ_KEY@, spec_split(PICKER_COMMAND@)),
{
    zellij_snippet()
}

/// Generates the zellij binding for a custom key and command; the command is
/// split into shell words, each written as its own KDL argument.
pub fn zellij_snippet_with(key: &str, command: &str) -> (r: Result<String, BindingError>)
    ensures
        r is Ok <==> zellij_key_ok(key@) && command_ok(command@) && spec_split(command@).len()
            > 0,
        r matches Ok(s) ==> s@ == spec_zellij_snippet(key@, spec_split(command@)),
        r matches Err(e) ==> if trim(key@).len() == 0 {
            e is EmptyZellijKey
        } else if any_kdl_syntax(key@) {
            e matches BindingError::ZellijKeySyntax { key: k } && k@ == key@
        } else if !command_ok(command@) {
            command_failure(command@, e)
        } else {
            e matches BindingError::UnparsableCommand { command: c } && c@ == command@
        },
{
    let k = trimmed(key);
    if k.len() == 0 {
        return Err(BindingError::EmptyZellijKey);
    }
    let cs = chars_of(key);
    let mut i: usize = 0;
    while i < cs.len()
        invariant
            i <= cs@.len(),
            cs@ == key@,
            trim(key@).len() > 0,
            forall|j: int| 0 <= j < i ==> !is_kdl_syntax(#[trigger] cs@[j]),
        decreases cs.len() - i,
    {
        let c = cs[i];
        if c == '"' || c == '\\' || c == '{' || c == '}' || c == ';' {
            assert(is_kdl_syntax(cs@[i as int]));
            return Err(BindingError::ZellijKeySyntax { key: key.to_owned() });
        }
        i += 1;
    }
    validate_command(command)?;
    let words = split(command);
    if words.len() == 0 {
        return Err(BindingError::UnparsableCommand { command: command.to_owned() });
    }
    Ok(zellij_block(key, &words))
}

/// The `keybinds` block for a key and the picker's argv.
fn zellij_block(key: &str, words: &Vec<String>) -> (r: String)
    ensures
        r@ == spec_zellij_snippet(key@, views(words@)),
{
    let mut out: Vec<char> = Vec::new();
    extend_str(&mut out, "keybinds {\n    shared_except \"locked\" {\n        bind ");
    let q = kdl_string(key);
    extend_str(&mut out, q.as_str());
    extend_str(&mut out, " {\n            Run ");
    let mut i: usize = 0;
    let ghost start = out@;
    while i < words.len()
        invariant
            i <= words@.len(),
            out@ == start + kdl_words(views(words@).subrange(0, i as int)),
        decreases words.len() - i,
    {
        proof {
            let t = views(words@).subrange(0, i + 1);
            assert(t.drop_last() == views(words@).subrange(0, i as int));
            assert(t.last() == words@[i as int]@);
        }
        if i > 0 {
            out.push(' ');
        } else {
            assert(views(words@).subrange(0, 1)[0] == words@[0]@);
        }
        let q = kdl_string(words[i].as_str());
        extend_str(&mut out, q.as_str());
        i += 1;
    }
    assert(views(words@).subrange(0, words@.len() as int) == views(words@));
    extend_str(
        &mut out,
        " {\n                floating true\n                close_on_exit true\n            }\n        }\n    }\n}\n",
    );
    string_of(out.as_slice())
}

/// Rejects an empty key, whitespace, and characters of tmux configuration
/// syntax.
pub fn validate_tmux_key(key: &str) -> (r: Result<(), BindingError>)
    ensures
        r is Ok <==> tmux_key_ok(key@),
        r matches Err(e) ==> tmux_key_failure(key@, e),
{
    let cs = chars_of(key);
    if cs.len() == 0 {
        return Err(BindingError::EmptyTmuxKey);
    }
    let mut i: usize = 0;
    while i < cs.len()
        invariant
            i <= cs@.len(),
            cs@ == key@,
            forall|j: int| 0 <= j < i ==> !is_ws(#[trigger] cs@[j]),
        decreases cs.len() - i,
    {
        if is_ws_char(cs[i]) {
            assert(is_ws(cs@[i as int]));
            return Err(BindingError::TmuxKeyWhitespace { key: key.to_owned() });
        }
        i += 1;
    }
    assert(!any_ws(key@));
    let mut i: usize = 0;
    while i < cs.len()
        invariant
            i <= cs@.len(),
            cs@ == key@,
            !any_ws(key@),
            forall|j: int| 0 <= j < i ==> !is_tmux_syntax(#[trigger] cs@[j]),
        decreases cs.len() - i,
    {
        let c = cs[i];
        if c == '"' || c == '\'' || c == '\\' || c == ';' || c == '#' {
            assert(is_tmux_syntax(cs@[i as int]));
            return Err(BindingError::TmuxKeySyntax { key: key.to_owned() });
        }
        i += 1;
    }
    Ok(())
}

/// Rejects a blank command and one holding a line break or NUL.
pub fn validate_command(command: &str) -> (r: Result<(), BindingError>)
    ensures
        r is Ok <==> command_ok(command@),
        r matches Err(e) ==> command_failure(command@, e),
{
    let t = trimmed(command);
    if t.len() == 0 {
        return Err(BindingError::EmptyCommand);
    }
    let cs = chars_of(command);
    let mut i: usize = 0;
    while i < cs.len()
        invariant
            i <= cs@.len(),
            cs@ == command@,
            trim(command@).len() > 0,
            forall|j: int| 0 <= j < i ==> !is_line_break_or_nul(#[trigger] cs@[j]),
        decreases cs.len() - i,
    {
        let c = cs[i];
        if c == '\n' || c == '\r' || c == '\0' {
            assert(is_line_break_or_nul(cs@[i as int]));
            return Err(BindingError::CommandLineBreak);
        }
        i += 1;
    }
    Ok(())
}

/// Accepts positive terminal cells or a percentage from 1% to 100%.
pub fn validate_popup_dimension(name: &str, dimension: &str) -> (r: Result<(), BindingError>)
    ensures
        r is Ok <==> popup_dimension_ok(dimension@),
        r matches Err(e) ==> popup_failure(name@, dimension@, e),
{
    let cs = chars_of(dimension);
    let valid_cells = match parse_decimal(cs.as_slice(), 65535) {
        Some(cells) => cells > 0,
        None => false,
    };
    let n = cs.len();
    let valid_percent = if n > 0 && cs[n - 1] == '%' {
        let body = crate::text::slice_chars(cs.as_slice(), 0, n - 1);
        assert(body@ == cs@.drop_last());
        match parse_decimal(body.as_slice(), 255) {
            Some(percent) => 1 <= percent && percent <= 100,
            None => false,
        }
    } else {
        false
    };
    if !valid_cells && !valid_percent {
        return Err(
            BindingError::InvalidPopupDimension {
                name: name.to_owned(),
                dimension: dimension.to_owned(),
            },
        );
    }
    Ok(())
}

/// Quotes a value as one tmux double-quoted argument.
pub fn tmux_double_quoted(value: &str) -> (r: String)
    ensures
        r@ == spec_tmux_double_quoted(value@),
{
    let cs = chars_of(value);
    let mut out: Vec<char> = Vec::new();
    out.push('"');
    let mut i: usize = 0;
    while i < cs.len()
        invariant
            i <= cs@.len(),
            out@ == seq!['"'] + tmux_quote_chars(cs@.subrange(0, i as int)),
        decreases cs.len() - i,
    {
        let c = cs[i];
        if c == '\\' || c == '"' || c == '$' || c == '`' {
            out.push('\\');
        }
        out.push(c);
        proof {
            let t = cs@.subrange(0, i + 1);
            assert(t.drop_last() == cs@.subrange(0, i as int));
        }
        i += 1;
    }
    assert(cs@.subrange(0, cs@.len() as int) == cs@);
    out.push('"');
    string_of(out.as_slice())
}

/// Quotes a value as a TOML basic string.
pub fn toml_basic_string(value: &str) -> (r: String)
    ensures
        r@ == spec_toml_basic_string(value@),
{
    let cs = chars_of(value);
    let mut out: Vec<char> = Vec::new();
    out.push('"');
    let mut i: usize = 0;
    while i < cs.len()
        invariant
            i <= cs@.len(),
            out@ == seq!['"'] + toml_escape_chars(cs@.subrange(0, i as int)),
        decreases cs.len() - i,
    {
        let c = cs[i];
        let u = c as u32;
        if c == '"' {
            out.push('\\');
            out.push('"');
        } else if c == '\\' {
            out.push('\\');
            out.push('\\');
        } else if c == '\u{8}' {
            out.push('\\');
            out.push('b');
        } else if c == '\t' {
            out.push('\\');
            out.push('t');
        } else if c == '\n' {
            out.push('\\');
            out.push('n');
        } else if c == '\u{c}' {
            out.push('\\');
            out.push('f');
        } else if c == '\r' {
            out.push('\\');
            out.push('r');
        } else if u <= 0x1f || u == 0x7f {
            out.push('\\');
            out.push('u');
            out.push('0');
            out.push('0');
            out.push(hex_char(u / 16));
            out.push(hex_char(u % 16));
        } else {
            out.push(c);
        }
        proof {
            let t = cs@.subrange(0, i + 1);
            assert(t.drop_last() == cs@.subrange(0, i as int));
        }
        i += 1;
    }
    assert(cs@.subrange(0, cs@.len() as int) == cs@);
    out.push('"');
    string_of(out.as_slice())
}

} // verus!
