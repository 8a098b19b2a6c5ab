//! Project-level settings shared by the backends (hook names, load
//! options, the `key=value` template settings of the command line), and a
//! project as tmux runs it.

use vstd::prelude::*;
use crate::text::{chars_of, string_of, split_once, find_char_index, lemma_find_char, slice_chars,
    str_eq, extend_str, extend_chars, trim, trimmed};
use crate::herdr::strings_view;
use crate::env::Env;
use crate::pane::escaped;
use crate::project_spec::{opt_str, project_name, spec_as_index, spec_project_name, first_named, window_entries};
use crate::shellwords::{escape, spec_escape, unescape};
use crate::tmux::{parse_i64, parse_signed, TmuxContext};
use crate::util::spec_expand_path;
use crate::window::{spec_as_integer, spec_name_option, opt_scalar, pane_view_titles, spec_pane_choice, spec_windows, tmux_windows_view, TmuxWindowView, Window};
use crate::yaml_ext::{get, get_aliased_nonempty_sequence, get_aliased_scalar, last_aliased_scalar,
    scalar_to_string, spec_get, spec_join_or_string, spec_mux_attach, spec_scalar, spec_truthy, truthy, Yaml};
use crate::zellij::signed_decimal;

verus! {

pub const HOOK_ON_PROJECT_START: &'static str = "on_project_start";

pub const HOOK_ON_PROJECT_FIRST_START: &'static str = "on_project_first_start";

pub const HOOK_ON_PROJECT_RESTART: &'static str = "on_project_restart";

pub const HOOK_ON_PROJECT_EXIT: &'static str = "on_project_exit";

pub const HOOK_ON_PROJECT_STOP: &'static str = "on_project_stop";

/// How a project is loaded.
#[derive(Clone, Debug, Default)]
pub struct LoadOptions {
    pub custom_name: Option<String>,
    pub force_attach: bool,
    pub force_detach: bool,
    pub append: bool,
    pub no_pre_window: bool,
}

/// The template settings of the arguments: each `key=value` argument sets
/// `key` (split at the first `=`), a later one overriding an earlier one.
pub open spec fn settings_map(args: Seq<Seq<char>>) -> Map<Seq<char>, Seq<char>>
    decreases args.len(),
{
    if args.len() == 0 {
        Map::empty()
    } else {
        let m = settings_map(args.drop_last());
        match split_once(args.last(), '=') {
            Some((k, v)) => m.insert(k, v),
            None => m,
        }
    }
}

/// The arguments that are not settings, in order.
pub open spec fn plain_args(args: Seq<Seq<char>>) -> Seq<Seq<char>> {
    args.filter(|a: Seq<char>| split_once(a, '=') is None)
}

/// The settings as a map.
pub open spec fn pairs_map(pairs: Seq<(String, String)>) -> Map<Seq<char>, Seq<char>>
    decreases pairs.len(),
{
    if pairs.len() == 0 {
        Map::empty()
    } else {
        pairs_map(pairs.drop_last()).insert(pairs.last().0@, pairs.last().1@)
    }
}

/// No setting name occurs twice.
pub open spec fn unique_names(pairs: Seq<(String, String)>) -> bool {
    forall|i: int, j: int|
        0 <= i < j < pairs.len() ==> (#[trigger] pairs[i]).0@ != (#[trigger] pairs[j]).0@
}

proof fn lemma_pairs_update(pairs: Seq<(String, String)>, k: int, v: String)
    requires
        unique_names(pairs),
        0 <= k < pairs.len(),
    ensures
        pairs_map(pairs.update(k, (pairs[k].0, v))) == pairs_map(pairs).insert(pairs[k].0@, v@),
        unique_names(pairs.update(k, (pairs[k].0, v))),
    decreases pairs.len(),
{
    let u = pairs.update(k, (pairs[k].0, v));
    if k == pairs.len() - 1 {
        assert(u.drop_last() == pairs.drop_last());
    } else {
        lemma_pairs_update(pairs.drop_last(), k, v);
        assert(u.drop_last() == pairs.drop_last().update(k, (pairs[k].0, v)));
        assert(pairs.last().0@ != pairs[k].0@);
        assert(pairs_map(u) =~= pairs_map(pairs).insert(pairs[k].0@, v@));
    }
}

proof fn lemma_pairs_dom(pairs: Seq<(String, String)>, key: Seq<char>)
    requires
        forall|i: int| 0 <= i < pairs.len() ==> (#[trigger] pairs[i]).0@ != key,
    ensures
        !pairs_map(pairs).contains_key(key),
    decreases pairs.len(),
{
    if pairs.len() > 0 {
        lemma_pairs_dom(pairs.drop_last(), key);
    }
}

fn split_setting(arg: &str) -> (r: Option<(String, String)>)
    ensures
        match r {
            Some(p) => split_once(arg@, '=') == Some((p.0@, p.1@)),
            None => split_once(arg@, '=') is None,
        },
{
    let cs = chars_of(arg);
    let i = find_char_index(cs.as_slice(), '=');
    proof {
        lemma_find_char(cs@, '=');
    }
    if i < cs.len() {
        let k = slice_chars(cs.as_slice(), 0, i);
        let v = slice_chars(cs.as_slice(), i + 1, cs.len());
        Some((string_of(k.as_slice()), string_of(v.as_slice())))
    } else {
        None
    }
}

/// Splits `key=value` template settings from the other arguments. The
/// settings come back once per name, in the order the names first
/// appeared, each with its last value.
#[verifier::loop_isolation(false)]
pub fn parse_settings(raw_args: Vec<String>) -> (r: (Vec<(String, String)>, Vec<String>))
    ensures
        unique_names(r.0@),
        pairs_map(r.0@) == settings_map(strings_view(raw_args@)),
        strings_view(r.1@) == plain_args(strings_view(raw_args@)),
{
    let ghost all = strings_view(raw_args@);
    let mut settings: Vec<(String, String)> = Vec::new();
    let mut args: Vec<String> = Vec::new();
    let mut i: usize = 0;
    while i < raw_args.len()
        invariant
            i <= raw_args@.len(),
            all == strings_view(raw_args@),
            unique_names(settings@),
            pairs_map(settings@) == settings_map(all.take(i as int)),
            strings_view(args@) == plain_args(all.take(i as int)),
        decreases raw_args.len() - i,
    {
        proof {
            assert(all.take(i + 1).drop_last() == all.take(i as int));
            assert(all.take(i + 1).last() == raw_args@[i as int]@);
            assert(all.take(i + 1) == all.take(i as int).push(raw_args@[i as int]@));
            all.take(i as int).lemma_filter_push(
                raw_args@[i as int]@,
                |a: Seq<char>| split_once(a, '=') is None,
            );
        }
        match split_setting(raw_args[i].as_str()) {
            Some((key, value)) => {
                let mut k: usize = 0;
                while k < settings.len() && !str_eq(settings[k].0.as_str(), key.as_str())
                    invariant
                        k <= settings@.len(),
                        forall|j: int| 0 <= j < k ==> (#[trigger] settings@[j]).0@ != key@,
                    decreases settings.len() - k,
                {
                    k += 1;
                }
                if k < settings.len() {
                    let ghost before = settings@;
                    proof {
                        lemma_pairs_update(before, k as int, value);
                    }
                    let name = settings[k].0.clone();
                    settings.set(k, (name, value));
                    assert(settings@ == before.update(k as int, (before[k as int].0, value)));
                } else {
                    let ghost before = settings@;
                    proof {
                        lemma_pairs_dom(before, key@);
                    }
                    settings.push((key, value));
                    assert(settings@.drop_last() == before);
                    assert(unique_names(settings@)) by {
                        assert forall|a: int, b: int| 0 <= a < b < settings@.len() implies (
                        #[trigger] settings@[a]).0@ != (#[trigger] settings@[b]).0@ by {
                            if b == settings@.len() - 1 {
                                assert(settings@[a] == before[a]);
                            } else {
                                assert(settings@[a] == before[a] && settings@[b] == before[b]);
                            }
                        }
                    }
                }
            },
            None => {
                let ghost before = args@;
                args.push(raw_args[i].clone());
                assert(strings_view(args@) == strings_view(before).push(raw_args@[i as int]@));
            },
        }
        i += 1;
    }
    assert(all.take(raw_args@.len() as int) == all);
    (settings, args)
}

/// The value of the setting `key`.
#[verifier::loop_isolation(false)]
pub fn setting_value<'a>(settings: &'a Vec<(String, String)>, key: &str) -> (r: Option<&'a String>)
    requires
        unique_names(settings@),
    ensures
        match r {
            Some(v) => pairs_map(settings@).contains_key(key@) && pairs_map(settings@)[key@] == v@,
            None => !pairs_map(settings@).contains_key(key@),
        },
{
    let mut k: usize = 0;
    while k < settings.len()
        invariant
            k <= settings@.len(),
            forall|j: int| 0 <= j < k ==> (#[trigger] settings@[j]).0@ != key@,
        decreases settings.len() - k,
    {
        if str_eq(settings[k].0.as_str(), key) {
            proof {
                lemma_pairs_lookup(settings@, k as int);
            }
            return Some(&settings[k].1);
        }
        k += 1;
    }
    proof {
        lemma_pairs_dom(settings@, key@);
    }
    None
}

proof fn lemma_pairs_lookup(pairs: Seq<(String, String)>, k: int)
    requires
        unique_names(pairs),
        0 <= k < pairs.len(),
    ensures
        pairs_map(pairs).contains_key(pairs[k].0@),
        pairs_map(pairs)[pairs[k].0@] == pairs[k].1@,
    decreases pairs.len(),
{
    if k < pairs.len() - 1 {
        lemma_pairs_lookup(pairs.drop_last(), k);
        assert(pairs.last().0@ != pairs[k].0@);
    }
}

} // verus!

verus! {

/// What the tmux server reported when a project was loaded.
pub struct TmuxFacts {
    /// The session bootmux runs inside (asked only when appending).
    pub current_session: String,
    /// Whether the project's session exists.
    pub session_exists: bool,
    /// The index of the last window of the current session (asked only
    /// when appending).
    pub last_window_index: i64,
    /// The global `base-index` and `pane-base-index` options, by name.
    pub config: Vec<(String, String)>,
}

/// A project run by tmux: its YAML document, how it was loaded, and what
/// tmux reported for it.
pub struct Project<'a> {
    pub yaml: Yaml,
    pub opts: LoadOptions,
    pub env: &'a Env,
    pub facts: TmuxFacts,
    pub windows: Vec<Window>,
}

pub open spec fn force_message() -> Seq<char> {
    "Cannot force_attach and force_detach at the same time"@
}

pub open spec fn append_message() -> Seq<char> {
    "Cannot append to a session that does not exist"@
}

pub open spec fn no_windows_message() -> Seq<char> {
    "Your project file should include some windows."@
}

pub open spec fn no_name_message() -> Seq<char> {
    "Your project file didn't specify a 'project_name'"@
}

/// The session name before it is sanitized: the current session when
/// appending, else the custom name or `name` (alias `project_name`);
/// never empty.
pub open spec fn spec_raw_name(yaml: Yaml, opts: LoadOptions, current: Seq<char>) -> Option<Seq<char>> {
    if opts.append {
        if current.len() > 0 {
            Some(current)
        } else {
            None
        }
    } else {
        spec_project_name(yaml, opt_str(opts.custom_name))
    }
}

/// Why a project cannot be loaded, in the order the checks run.
pub open spec fn spec_load_error(
    yaml: Yaml,
    opts: LoadOptions,
    session_exists: bool,
    current: Seq<char>,
) -> Option<Seq<char>> {
    if opts.force_attach && opts.force_detach {
        Some(force_message())
    } else if opts.append && !session_exists {
        Some(append_message())
    } else {
        match spec_windows(window_entries(yaml)) {
            Err(e) => Some(e),
            Ok(ws) => if ws.len() == 0 {
                Some(no_windows_message())
            } else if spec_raw_name(yaml, opts, current) is None {
                Some(no_name_message())
            } else {
                None
            },
        }
    }
}

/// `.` and `:` would break tmux's target syntax: they become `_`.
pub open spec fn sep_free(n: Seq<char>) -> Seq<char> {
    n.map_values(|c: char| if c == '.' || c == ':' { '_' } else { c })
}

#[verifier::opaque]
pub open spec fn spec_name(p: &Project) -> Option<Seq<char>> {
    match spec_raw_name(p.yaml, p.opts, p.facts.current_session@) {
        Some(n) => Some(spec_escape(sep_free(n))),
        None => None,
    }
}

pub open spec fn name_or_empty(p: &Project) -> Seq<char> {
    match spec_name(p) {
        Some(n) => n,
        None => seq![],
    }
}

/// The `to_s` of the last scalar spelling of a setting or its aliases.
pub open spec fn aliased_text(yaml: Yaml, canonical: Seq<char>, aliases: Seq<&str>) -> Option<Seq<char>> {
    match yaml {
        Yaml::Mapping(m) => match last_aliased_scalar(m@, canonical, aliases) {
            Some(v) => spec_scalar(v),
            None => None,
        },
        _ => None,
    }
}

#[verifier::opaque]
pub open spec fn spec_root_raw(p: &Project) -> Option<Seq<char>> {
    match aliased_text(p.yaml, "root"@, seq!["project_root"]) {
        Some(r) => if r.len() > 0 {
            Some(spec_expand_path(r, p.env.cwd@, p.env.home@))
        } else {
            None
        },
        None => None,
    }
}

pub open spec fn spec_root(p: &Project) -> Option<Seq<char>> {
    escaped(spec_root_raw(p))
}

#[verifier::opaque]
pub open spec fn spec_project_attach(p: &Project) -> bool {
    p.opts.force_attach || (!p.opts.force_detach && spec_mux_attach(spec_get(p.yaml, "attach"@)))
}

/// The `to_s` of a setting that is set to a truthy scalar.
pub open spec fn truthy_text(yaml: Yaml, key: Seq<char>) -> Option<Seq<char>> {
    match spec_get(yaml, key) {
        Some(v) => if spec_truthy(Some(v)) {
            spec_scalar(v)
        } else {
            None
        },
        None => None,
    }
}

pub open spec fn spec_tmux_command(yaml: Yaml) -> Seq<char> {
    match truthy_text(yaml, "tmux_command"@) {
        Some(c) => c,
        None => "tmux"@,
    }
}

pub open spec fn tmux_options_value(yaml: Yaml) -> Option<Yaml> {
    match yaml {
        Yaml::Mapping(m) => last_aliased_scalar(m@, "tmux_options"@, seq!["cli_args"]),
        _ => None,
    }
}

pub open spec fn spec_tmux_options_part(yaml: Yaml) -> Seq<char> {
    let v = tmux_options_value(yaml);
    if spec_truthy(v) {
        seq![' '] + trim(
            match opt_scalar(v) {
                Some(s) => s,
                None => seq![],
            },
        )
    } else {
        seq![]
    }
}

pub open spec fn spec_socket_part(yaml: Yaml) -> Seq<char> {
    match truthy_text(yaml, "socket_path"@) {
        Some(path) => " -S "@ + path,
        None => match truthy_text(yaml, "socket_name"@) {
            Some(name) => " -L "@ + name,
            None => seq![],
        },
    }
}

/// The tmux command line prefix: the command, its options and the socket.
pub open spec fn tmux_of(yaml: Yaml) -> Seq<char> {
    spec_tmux_command(yaml) + spec_tmux_options_part(yaml) + spec_socket_part(yaml)
}

#[verifier::opaque]
pub open spec fn spec_tmux(p: &Project) -> Seq<char> {
    tmux_of(p.yaml)
}

/// The value of an option; a later entry overrides an earlier one.
pub open spec fn config_value(config: Seq<(String, String)>, key: Seq<char>) -> Option<Seq<char>>
    decreases config.len(),
{
    if config.len() == 0 {
        None
    } else if config.last().0@ == key {
        Some(config.last().1@)
    } else {
        config_value(config.drop_last(), key)
    }
}

/// An integer option of tmux, zero when it is unset or unreadable.
pub open spec fn config_index(config: Seq<(String, String)>, key: Seq<char>) -> int {
    match config_value(config, key) {
        Some(v) => match parse_signed(v) {
            Some(i) => i,
            None => 0,
        },
        None => 0,
    }
}

/// The tmux index of the first window: past the current session's last
/// window when appending, else tmux's `base-index`.
#[verifier::opaque]
pub open spec fn spec_base_index(p: &Project) -> int {
    if p.opts.append {
        p.facts.last_window_index + 1
    } else {
        config_index(p.facts.config@, "base-index"@)
    }
}

#[verifier::opaque]
pub open spec fn spec_pane_base_index(p: &Project) -> int {
    config_index(p.facts.config@, "pane-base-index"@)
}

/// The logical index of the startup window: an index within range, else
/// the window whose (escaped) name is the setting's escaped `to_s`; the
/// first window when the setting is not set.
pub open spec fn spec_startup_window_index(p: &Project) -> Option<nat> {
    let v = spec_get(p.yaml, "startup_window"@);
    if !spec_truthy(v) {
        Some(0)
    } else {
        let x = v.unwrap();
        match spec_as_index(x) {
            Some(i) if i < p.windows@.len() => Some(i),
            _ => first_named(
                window_view_names(tmux_windows_view(p.windows@)),
                spec_escape(
                    match spec_scalar(x) {
                        Some(s) => s,
                        None => seq![],
                    },
                ),
            ),
        }
    }
}

pub open spec fn window_view_names(ws: Seq<TmuxWindowView>) -> Seq<Option<Seq<char>>> {
    ws.map_values(|w: TmuxWindowView| w.name)
}

/// The logical pane that `startup_pane` picks: an integer as it is, or the
/// pane of the startup window with that title (the first pane when none
/// has it).
pub open spec fn spec_startup_offset(p: &Project) -> int {
    let v = spec_get(p.yaml, "startup_pane"@);
    if !spec_truthy(v) {
        0
    } else {
        match spec_as_integer(v.unwrap()) {
            Some(i) => i,
            None => match spec_startup_window_index(p) {
                Some(w) => if w < p.windows@.len() {
                    spec_pane_choice(v, pane_view_titles(p.windows@[w as int]@.panes)) as int
                } else {
                    0
                },
                None => 0,
            },
        }
    }
}

/// `name:window`, the window as configured (escaped) or the first window's
/// tmux index.
#[verifier::opaque]
pub open spec fn spec_startup_window(p: &Project) -> Seq<char> {
    let v = spec_get(p.yaml, "startup_window"@);
    name_or_empty(p) + seq![':'] + if spec_truthy(v) {
        spec_escape(
            match opt_scalar(v) {
                Some(s) => s,
                None => seq![],
            },
        )
    } else {
        signed_decimal(spec_base_index(p))
    }
}

/// `name:window.pane`, the pane by its tmux index.
#[verifier::opaque]
pub open spec fn spec_startup_pane(p: &Project) -> Seq<char> {
    spec_startup_window(p) + seq!['.'] + signed_decimal(spec_pane_base_index(p) + spec_startup_offset(p))
}

#[verifier::opaque]
pub open spec fn spec_pre_window(p: &Project) -> Option<Seq<char>> {
    if p.opts.no_pre_window {
        None
    } else {
        spec_join_or_string(spec_get(p.yaml, "pre_window"@), "; "@)
    }
}

#[verifier::opaque]
pub open spec fn spec_hook(p: &Project, hook: Seq<char>) -> Option<Seq<char>> {
    spec_join_or_string(spec_get(p.yaml, hook), "; "@)
}

pub open spec fn spec_new_session_command(p: &Project) -> Option<Seq<char>> {
    if p.opts.append {
        None
    } else {
        Some(
            spec_tmux(p) + " new-session -d -s "@ + name_or_empty(p) + seq![' '] + if p.windows@.len()
                > 0 {
                spec_name_option(p.windows@[0]@)
            } else {
                seq![]
            },
        )
    }
}

#[verifier::opaque]
pub open spec fn spec_titles_enabled(p: &Project) -> bool {
    spec_truthy(spec_get(p.yaml, "enable_pane_titles"@))
}

pub open spec fn spec_kill_session_command(p: &Project) -> Seq<char> {
    spec_tmux(p) + " kill-session -t "@ + name_or_empty(p)
}

#[verifier::opaque]
pub open spec fn spec_pane_title_position(p: &Project) -> Option<Seq<char>> {
    truthy_text(p.yaml, "pane_title_position"@)
}

pub open spec fn spec_position_valid(p: &Project) -> bool {
    match spec_pane_title_position(p) {
        Some(t) => t == "top"@ || t == "bottom"@ || t == "off"@,
        None => false,
    }
}

pub open spec fn spec_position_command(p: &Project, target: Seq<char>) -> Seq<char> {
    spec_tmux(p) + " set-window-option -t "@ + target + " pane-border-status "@ + if spec_position_valid(
        p,
    ) {
        spec_pane_title_position(p).unwrap()
    } else {
        "top"@
    }
}

pub open spec fn spec_format_command(p: &Project, target: Seq<char>) -> Seq<char> {
    spec_tmux(p) + " set-window-option -t "@ + target + " pane-border-format \""@ + match truthy_text(
        p.yaml,
        "pane_title_format"@,
    ) {
        Some(f) => f,
        None => "#{pane_index}: #{pane_title}"@,
    } + "\""@
}

pub open spec fn spec_position_warning(p: &Project) -> Seq<char> {
    "printf \"\\033[1;33mWARNING: The specified pane title position '"@ + match spec_pane_title_position(
        p,
    ) {
        Some(t) => t,
        None => seq![],
    } + "' is not valid. Please choose one of: top, bottom, or off.\n\\033[0m\""@
}

/// The pane title positions tmux accepts are exactly `top`, `bottom` and
/// `off`: such a position is valid and the position command sets it as
/// given; any other value is invalid and the command sets `top`.
pub proof fn pane_title_positions_law(p: &Project, target: Seq<char>)
    ensures
        spec_position_valid(p) <==> (spec_pane_title_position(p) == Some("top"@)
            || spec_pane_title_position(p) == Some("bottom"@) || spec_pane_title_position(p) == Some(
            "off"@,
        )),
        forall|t: Seq<char>|
            spec_pane_title_position(p) == Some(t) && (t == "top"@ || t == "bottom"@ || t == "off"@)
                ==> spec_position_command(p, target) == spec_tmux(p) + " set-window-option -t "@ + target
                + " pane-border-status "@ + t,
        !(spec_pane_title_position(p) == Some("top"@) || spec_pane_title_position(p) == Some("bottom"@)
            || spec_pane_title_position(p) == Some("off"@)) ==> spec_position_command(p, target) == spec_tmux(
            p,
        ) + " set-window-option -t "@ + target + " pane-border-status top"@,
{
    reveal_strlit(" pane-border-status ");
    reveal_strlit(" pane-border-status top");
    reveal_strlit("top");
    assert(" pane-border-status top"@ =~= " pane-border-status "@ + "top"@);
    let pre = spec_tmux(p) + " set-window-option -t "@ + target;
    assert(pre + " pane-border-status "@ + "top"@ =~= pre + " pane-border-status top"@);
}

} // verus!

verus! {

/// The `to_s` of a setting that is set to a truthy scalar.
fn truthy_text_of(yaml: &Yaml, key: &str) -> (r: Option<String>)
    ensures
        opt_str(r) == truthy_text(*yaml, key@),
{
    match get(yaml, key) {
        Some(v) => if truthy(Some(v)) {
            scalar_to_string(v)
        } else {
            None
        },
        None => None,
    }
}

/// The value of an option; a later entry overrides an earlier one.
fn config_lookup<'b>(config: &'b Vec<(String, String)>, key: &str) -> (r: Option<&'b String>)
    ensures
        match r {
            Some(v) => config_value(config@, key@) == Some(v@),
            None => config_value(config@, key@) is None,
        },
{
    let mut i: usize = config.len();
    assert(config@.take(config@.len() as int) == config@);
    while i > 0
        invariant
            i <= config@.len(),
            config_value(config@, key@) == config_value(config@.take(i as int), key@),
        decreases i,
    {
        let ghost t = config@.take(i as int);
        assert(t.last() == config@[i - 1]);
        assert(t.drop_last() == config@.take(i - 1));
        if str_eq(config[i - 1].0.as_str(), key) {
            return Some(&config[i - 1].1);
        }
        i -= 1;
    }
    None
}

fn tmux_command_of(yaml: &Yaml) -> (r: String)
    ensures
        r@ == spec_tmux_command(*yaml),
{
    match truthy_text_of(yaml, "tmux_command") {
        Some(c) => c,
        None => "tmux".to_owned(),
    }
}

fn tmux_options_of(yaml: &Yaml) -> (r: String)
    ensures
        r@ == spec_tmux_options_part(*yaml),
{
    let aliases: [&str; 1] = ["cli_args"];
    let v = get_aliased_scalar(yaml, "tmux_options", &aliases);
    proof {
        assert(aliases@ == seq!["cli_args"]);
    }
    let ghost vv = match v {
        Some(x) => Some(*x),
        None => None,
    };
    assert(vv == tmux_options_value(*yaml));
    if truthy(v) {
        let text = match v {
            Some(x) => match scalar_to_string(x) {
                Some(s) => s,
                None => String::new(),
            },
            None => String::new(),
        };
        proof {
            if opt_scalar(vv) is None {
                assert(text@ =~= Seq::<char>::empty());
            }
        }
        let t = trimmed(text.as_str());
        let mut out: Vec<char> = Vec::new();
        out.push(' ');
        extend_chars(&mut out, t.as_slice());
        string_of(out.as_slice())
    } else {
        let r = String::new();
        assert(r@ =~= Seq::<char>::empty());
        r
    }
}

fn socket_of(yaml: &Yaml) -> (r: String)
    ensures
        r@ == spec_socket_part(*yaml),
{
    match truthy_text_of(yaml, "socket_path") {
        Some(path) => {
            let mut out: Vec<char> = Vec::new();
            extend_str(&mut out, " -S ");
            extend_str(&mut out, path.as_str());
            string_of(out.as_slice())
        },
        None => match truthy_text_of(yaml, "socket_name") {
            Some(name) => {
                let mut out: Vec<char> = Vec::new();
                extend_str(&mut out, " -L ");
                extend_str(&mut out, name.as_str());
                string_of(out.as_slice())
            },
            None => {
                let r = String::new();
                assert(r@ =~= Seq::<char>::empty());
                r
            },
        },
    }
}

/// The tmux command line prefix of a project document.
fn tmux_line(yaml: &Yaml) -> (r: String)
    ensures
        r@ == tmux_of(*yaml),
{
    let mut out: Vec<char> = Vec::new();
    extend_str(&mut out, tmux_command_of(yaml).as_str());
    extend_str(&mut out, tmux_options_of(yaml).as_str());
    extend_str(&mut out, socket_of(yaml).as_str());
    string_of(out.as_slice())
}

fn config_index_of(config: &Vec<(String, String)>, key: &str) -> (r: i64)
    ensures
        r as int == config_index(config@, key@),
{
    match config_lookup(config, key) {
        Some(v) => match parse_i64(v.as_str()) {
            Some(i) => i,
            None => 0,
        },
        None => 0,
    }
}

fn sep_free_of(n: &str) -> (r: String)
    ensures
        r@ == sep_free(n@),
{
    let v = chars_of(n);
    let mut out: Vec<char> = Vec::new();
    let mut i: usize = 0;
    while i < v.len()
        invariant
            i <= v@.len(),
            out@ == sep_free(v@.take(i as int)),
        decreases v.len() - i,
    {
        let c = v[i];
        out.push(if c == '.' || c == ':' { '_' } else { c });
        assert(sep_free(v@.take(i + 1)) =~= sep_free(v@.take(i as int)).push(
            if c == '.' || c == ':' { '_' } else { c },
        ));
        i += 1;
    }
    assert(v@.take(v@.len() as int) == v@);
    string_of(out.as_slice())
}

fn raw_name_of(yaml: &Yaml, opts: &LoadOptions, current: &str) -> (r: Option<String>)
    ensures
        opt_str(r) == spec_raw_name(*yaml, *opts, current@),
{
    if opts.append {
        if current.is_empty() {
            None
        } else {
            Some(current.to_owned())
        }
    } else {
        let custom: Option<&str> = match &opts.custom_name {
            Some(c) => Some(c.as_str()),
            None => None,
        };
        assert(crate::herdr_backend::opt_view(custom) == opt_str(opts.custom_name));
        match project_name(yaml, custom) {
            Ok(n) => Some(n),
            Err(_) => None,
        }
    }
}

fn build_windows(entries: &Vec<Yaml>) -> (r: Result<Vec<Window>, String>)
    ensures
        match r {
            Ok(ws) => spec_windows(entries@) == Ok::<Seq<TmuxWindowView>, Seq<char>>(
                tmux_windows_view(ws@),
            ),
            Err(m) => spec_windows(entries@) == Err::<Seq<TmuxWindowView>, Seq<char>>(m@),
        },
{
    let mut out: Vec<Window> = Vec::new();
    let mut i: usize = 0;
    assert(entries@.take(0) =~= Seq::<Yaml>::empty());
    assert(tmux_windows_view(out@) =~= Seq::<TmuxWindowView>::empty());
    while i < entries.len()
        invariant
            i <= entries@.len(),
            spec_windows(entries@.take(i as int)) == Ok::<Seq<TmuxWindowView>, Seq<char>>(
                tmux_windows_view(out@),
            ),
        decreases entries.len() - i,
    {
        let ghost t = entries@.take(i + 1);
        assert(t.drop_last() == entries@.take(i as int));
        assert(t.last() == entries@[i as int]);
        match Window::build(&entries[i], i) {
            Ok(w) => {
                let ghost before = out@;
                out.push(w);
                assert(tmux_windows_view(out@) =~= tmux_windows_view(before).push(w@));
            },
            Err(e) => {
                proof {
                    lemma_windows_prefix_error(entries@, (i + 1) as nat);
                }
                return Err(e);
            },
        }
        i += 1;
    }
    assert(entries@.take(entries@.len() as int) == entries@);
    Ok(out)
}

proof fn lemma_windows_prefix_error(entries: Seq<Yaml>, n: nat)
    requires
        n <= entries.len(),
        spec_windows(entries.take(n as int)) is Err,
    ensures
        spec_windows(entries) == spec_windows(entries.take(n as int)),
    decreases entries.len() - n,
{
    if n < entries.len() {
        let t = entries.take(n + 1int);
        assert(t.drop_last() == entries.take(n as int));
        lemma_windows_prefix_error(entries, n + 1);
    } else {
        assert(entries.take(n as int) == entries);
    }
}

impl<'a> Project<'a> {
    /// A project from its YAML document and what tmux reported for it.
    pub fn from_facts(yaml: Yaml, opts: LoadOptions, env: &'a Env, facts: TmuxFacts) -> (r: Result<
        Project<'a>,
        String,
    >)
        ensures
            match r {
                Ok(p) => spec_load_error(yaml, opts, facts.session_exists, facts.current_session@)
                    is None && p.yaml == yaml && p.opts == opts && p.env == env && p.facts == facts
                    && spec_windows(window_entries(yaml)) == Ok::<Seq<TmuxWindowView>, Seq<char>>(
                    tmux_windows_view(p.windows@),
                ),
                Err(m) => spec_load_error(yaml, opts, facts.session_exists, facts.current_session@)
                    == Some(m@),
            },
    {
        if opts.force_attach && opts.force_detach {
            return Err("Cannot force_attach and force_detach at the same time".to_owned());
        }
        if opts.append && !facts.session_exists {
            return Err("Cannot append to a session that does not exist".to_owned());
        }
        let aliases: [&str; 1] = ["tabs"];
        let empty: Vec<Yaml> = Vec::new();
        let entries: &Vec<Yaml> = match get_aliased_nonempty_sequence(&yaml, "windows", &aliases) {
            Some(e) => e,
            None => &empty,
        };
        proof {
            assert(aliases@ == seq!["tabs"]);
            assert(entries@ == window_entries(yaml));
        }
        let windows = match build_windows(entries) {
            Ok(ws) => ws,
            Err(e) => {
                return Err(e);
            },
        };
        if windows.len() == 0 {
            return Err("Your project file should include some windows.".to_owned());
        }
        match raw_name_of(&yaml, &opts, facts.current_session.as_str()) {
            Some(_) => {},
            None => {
                return Err("Your project file didn't specify a 'project_name'".to_owned());
            },
        }
        Ok(Project { yaml, opts, env, facts, windows })
    }

    /// Loads a project, asking tmux what the project needs: the current
    /// session when appending, whether the project's session exists, and
    /// tmux's index options.
    pub fn load<C: TmuxContext>(yaml: Yaml, opts: LoadOptions, ctx: &C, env: &'a Env) -> (r: Result<
        Project<'a>,
        String,
    >)
        ensures
            !opts.append ==> match r {
                Ok(p) => spec_load_error(yaml, opts, false, seq![]) is None,
                Err(m) => spec_load_error(yaml, opts, false, seq![]) == Some(m@),
            },
            opts.append ==> match r {
                Ok(p) => spec_load_error(yaml, opts, p.facts.session_exists, p.facts.current_session@)
                    is None,
                Err(m) => exists|e: bool, c: Seq<char>| spec_load_error(yaml, opts, e, c) == Some(m@),
            },
            r matches Ok(p) ==> p.yaml == yaml && p.opts == opts && p.env == env && spec_windows(
                window_entries(yaml),
            ) == Ok::<Seq<TmuxWindowView>, Seq<char>>(tmux_windows_view(p.windows@)),
    {
        let current_session = if opts.append {
            ctx.current_session_name(env)
        } else {
            String::new()
        };
        let raw = raw_name_of(&yaml, &opts, current_session.as_str());
        let tmux = tmux_line(&yaml);
        let session_exists = match raw {
            Some(n) => {
                let escaped_name = escape(sep_free_of(n.as_str()).as_str());
                ctx.has_session(tmux.as_str(), unescape(escaped_name.as_str()).as_str())
            },
            None => false,
        };
        let last_window_index = if opts.append {
            ctx.last_window_index(tmux.as_str())
        } else {
            0
        };
        if opts.force_attach && opts.force_detach {
            return Err("Cannot force_attach and force_detach at the same time".to_owned());
        }
        if opts.append && !session_exists {
            return Err("Cannot append to a session that does not exist".to_owned());
        }
        let config = ctx.extract_tmux_config(tmux.as_str());
        let facts = TmuxFacts { current_session, session_exists, last_window_index, config };
        let ghost f = facts;
        let r = Project::from_facts(yaml, opts, env, facts);
        proof {
            if !opts.append {
                assert(spec_raw_name(yaml, opts, f.current_session@) == spec_raw_name(yaml, opts, seq![]));
            }
        }
        r
    }
}

} // verus!

verus! {

impl<'a> Project<'a> {
    pub fn windows(&self) -> (r: &Vec<Window>)
        ensures
            r@ == self.windows@,
    {
        &self.windows
    }

    /// The session name: sanitized, then shell-escaped.
    pub fn name(&self) -> (r: Option<String>)
        ensures
            opt_str(r) == spec_name(self),
    {
        proof {
            reveal(spec_name);
        }
        match raw_name_of(&self.yaml, &self.opts, self.facts.current_session.as_str()) {
            Some(n) => Some(escape(sep_free_of(n.as_str()).as_str())),
            None => None,
        }
    }

    /// The session name as tmux shows it.
    pub fn unescaped_name(&self) -> (r: Option<String>)
        ensures
            opt_str(r) == match spec_name(self) {
                Some(n) => Some(crate::shellwords::concat(crate::shellwords::spec_split(n))),
                None => None,
            },
    {
        match self.name() {
            Some(n) => Some(unescape(n.as_str())),
            None => None,
        }
    }

    /// The project root, expanded against the working directory.
    pub fn root_raw(&self) -> (r: Option<String>)
        ensures
            opt_str(r) == spec_root_raw(self),
    {
        proof {
            reveal(spec_root_raw);
        }
        let aliases: [&str; 1] = ["project_root"];
        let v = get_aliased_scalar(&self.yaml, "root", &aliases);
        proof {
            assert(aliases@ == seq!["project_root"]);
        }
        let text = match v {
            Some(x) => scalar_to_string(x),
            None => None,
        };
        match text {
            Some(t) => {
                if t.as_str().is_empty() {
                    None
                } else {
                    Some(crate::util::expand_path(t.as_str(), self.env.cwd.as_str(), self.env.home.as_str()))
                }
            },
            None => None,
        }
    }

    /// The project root, shell-escaped.
    pub fn root(&self) -> (r: Option<String>)
        ensures
            opt_str(r) == spec_root(self),
    {
        match self.root_raw() {
            Some(t) => Some(escape(t.as_str())),
            None => None,
        }
    }

    /// Whether the script attaches to the session.
    pub fn attach(&self) -> (r: bool)
        ensures
            r == spec_project_attach(self),
    {
        proof {
            reveal(spec_project_attach);
        }
        self.opts.force_attach || (!self.opts.force_detach && crate::yaml_ext::mux_attach(
            get(&self.yaml, "attach"),
        ))
    }

    /// The tmux command line prefix: the command, its options and the
    /// socket.
    pub fn tmux(&self) -> (r: String)
        ensures
            r@ == spec_tmux(self),
    {
        proof {
            reveal(spec_tmux);
        }
        tmux_line(&self.yaml)
    }

    pub fn tmux_command(&self) -> (r: String)
        ensures
            r@ == spec_tmux_command(self.yaml),
    {
        tmux_command_of(&self.yaml)
    }

    /// The tmux index of the first window.
    pub fn base_index(&self) -> (r: i128)
        ensures
            r as int == spec_base_index(self),
            -0x8000_0000_0000_0000 <= r <= 0x8000_0000_0000_0000,
    {
        proof {
            reveal(spec_base_index);
        }
        if self.opts.append {
            self.facts.last_window_index as i128 + 1
        } else {
            config_index_of(&self.facts.config, "base-index") as i128
        }
    }

    /// The tmux index of a window's first pane.
    pub fn pane_base_index(&self) -> (r: i128)
        ensures
            r as int == spec_pane_base_index(self),
            -0x8000_0000_0000_0000 <= r <= 0x8000_0000_0000_0000,
    {
        proof {
            reveal(spec_pane_base_index);
        }
        config_index_of(&self.facts.config, "pane-base-index") as i128
    }

    pub fn startup_window(&self) -> (r: String)
        ensures
            r@ == spec_startup_window(self),
    {
        proof {
            reveal(spec_startup_window);
            reveal(spec_name);
            reveal(spec_base_index);
        }
        let mut out: Vec<char> = Vec::new();
        match self.name() {
            Some(n) => extend_str(&mut out, n.as_str()),
            None => {},
        }
        out.push(':');
        let v = get(&self.yaml, "startup_window");
        if truthy(v) {
            let text = match v {
                Some(x) => match scalar_to_string(x) {
                    Some(s) => s,
                    None => String::new(),
                },
                None => String::new(),
            };
            proof {
                if opt_scalar(crate::project_spec::opt_yaml(v)) is None {
                    assert(text@ =~= Seq::<char>::empty());
                }
            }
            extend_str(&mut out, escape(text.as_str()).as_str());
        } else {
            let b = self.base_index();
            crate::tmux::push_wide(&mut out, b);
        }
        string_of(out.as_slice())
    }

    #[verifier::loop_isolation(false)]
    fn startup_window_index(&self) -> (r: Option<usize>)
        ensures
            match r {
                Some(i) => spec_startup_window_index(self) == Some(i as nat),
                None => spec_startup_window_index(self) is None,
            },
    {
        let v = get(&self.yaml, "startup_window");
        if !truthy(v) {
            return Some(0);
        }
        let x = match v {
            Some(x) => x,
            None => {
                return Some(0);
            },
        };
        match crate::project_spec::as_index(x) {
            Some(i) => {
                if i < self.windows.len() {
                    return Some(i);
                }
            },
            None => {},
        }
        let wanted = match scalar_to_string(x) {
            Some(s) => escape(s.as_str()),
            None => escape(""),
        };
        proof {
            reveal_strlit("");
            if spec_scalar(*x) is None {
                assert(""@ =~= Seq::<char>::empty());
            }
        }
        let ghost names = window_view_names(tmux_windows_view(self.windows@));
        let mut k: usize = 0;
        assert(names.skip(0) == names);
        while k < self.windows.len()
            invariant
                k <= self.windows@.len(),
                names == window_view_names(tmux_windows_view(self.windows@)),
                first_named(names, wanted@) == (match first_named(names.skip(k as int), wanted@) {
                    Some(j) => Some((j + k) as nat),
                    None => None,
                }),
            decreases self.windows.len() - k,
        {
            let hit = match &self.windows[k].name {
                Some(t) => str_eq(t.as_str(), wanted.as_str()),
                None => false,
            };
            assert(names.skip(k as int)[0] == opt_str(self.windows@[k as int].name));
            if hit {
                assert(names.skip(k as int)[0] == Some(wanted@));
                assert(first_named(names.skip(k as int), wanted@) == Some(0nat));
                return Some(k);
            }
            assert(names.skip(k as int).drop_first() == names.skip(k + 1));
            k += 1;
        }
        assert(names.skip(k as int).len() == 0);
        None
    }

    /// `name:window.pane`: `startup_pane` picks a pane of the startup window
    /// by its index or title, which tmux numbers from `pane-base-index`.
    pub fn startup_pane(&self) -> (r: String)
        ensures
            r@ == spec_startup_pane(self),
    {
        proof {
            reveal(spec_startup_pane);
            reveal(spec_pane_base_index);
        }
        let v = get(&self.yaml, "startup_pane");
        let offset: i128 = if !truthy(v) {
            0
        } else {
            let as_int = match v {
                Some(x) => crate::window::as_integer(x),
                None => None,
            };
            match as_int {
                Some(i) => i as i128,
                None => match self.startup_window_index() {
                    Some(w) => {
                        if w < self.windows.len() {
                            crate::window::pane_choice(v, &self.windows[w].panes) as i128
                        } else {
                            0
                        }
                    },
                    None => 0,
                },
            }
        };
        let mut out: Vec<char> = Vec::new();
        extend_str(&mut out, self.startup_window().as_str());
        out.push('.');
        let n = self.pane_base_index() + offset;
        crate::tmux::push_wide(&mut out, n);
        string_of(out.as_slice())
    }

    pub fn startup_pane_command(&self) -> (r: String)
        ensures
            r@ == spec_tmux(self) + " select-pane -t "@ + spec_startup_pane(self),
    {
        let mut out: Vec<char> = Vec::new();
        extend_str(&mut out, self.tmux().as_str());
        extend_str(&mut out, " select-pane -t ");
        extend_str(&mut out, self.startup_pane().as_str());
        string_of(out.as_slice())
    }

    /// The commands every pane runs first, joined with `; `.
    pub fn pre_window(&self) -> (r: Option<String>)
        ensures
            opt_str(r) == spec_pre_window(self),
    {
        proof {
            reveal(spec_pre_window);
        }
        proof {
            reveal_strlit("; ");
        }
        if self.opts.no_pre_window {
            return None;
        }
        crate::yaml_ext::join_or_string(get(&self.yaml, "pre_window"), "; ")
    }

    /// A hook's commands, joined with `; `.
    pub fn hook(&self, hook_name: &str) -> (r: Option<String>)
        ensures
            opt_str(r) == spec_hook(self, hook_name@),
    {
        proof {
            reveal(spec_hook);
        }
        proof {
            reveal_strlit("; ");
        }
        crate::yaml_ext::join_or_string(get(&self.yaml, hook_name), "; ")
    }

    /// Whether the project's session existed when the project was loaded.
    pub fn has_session(&self) -> (r: bool)
        ensures
            r == self.facts.session_exists,
    {
        self.facts.session_exists
    }

    pub fn new_session_command(&self) -> (r: Option<String>)
        ensures
            opt_str(r) == spec_new_session_command(self),
    {
        if self.opts.append {
            return None;
        }
        let mut out: Vec<char> = Vec::new();
        extend_str(&mut out, self.tmux().as_str());
        extend_str(&mut out, " new-session -d -s ");
        match self.name() {
            Some(n) => extend_str(&mut out, n.as_str()),
            None => {},
        }
        out.push(' ');
        if self.windows.len() > 0 {
            extend_str(&mut out, self.windows[0].name_option().as_str());
        }
        Some(string_of(out.as_slice()))
    }

    pub fn kill_session_command(&self) -> (r: String)
        ensures
            r@ == spec_kill_session_command(self),
    {
        let mut out: Vec<char> = Vec::new();
        extend_str(&mut out, self.tmux().as_str());
        extend_str(&mut out, " kill-session -t ");
        match self.name() {
            Some(n) => extend_str(&mut out, n.as_str()),
            None => {},
        }
        string_of(out.as_slice())
    }

    pub fn enable_pane_titles(&self) -> (r: bool)
        ensures
            r == spec_titles_enabled(self),
    {
        proof {
            reveal(spec_titles_enabled);
        }
        truthy(get(&self.yaml, "enable_pane_titles"))
    }

    pub fn pane_title_position(&self) -> (r: Option<String>)
        ensures
            opt_str(r) == spec_pane_title_position(self),
    {
        proof {
            reveal(spec_pane_title_position);
        }
        truthy_text_of(&self.yaml, "pane_title_position")
    }

    /// Whether `pane_title_position` is `top`, `bottom` or `off`.
    pub fn pane_title_position_valid(&self) -> (r: bool)
        ensures
            r == spec_position_valid(self),
    {
        match self.pane_title_position() {
            Some(t) => str_eq(t.as_str(), "top") || str_eq(t.as_str(), "bottom") || str_eq(
                t.as_str(),
                "off",
            ),
            None => false,
        }
    }

    pub fn set_pane_title_position_command(&self, window_target: &str) -> (r: String)
        ensures
            r@ == spec_position_command(self, window_target@),
    {
        let mut out: Vec<char> = Vec::new();
        extend_str(&mut out, self.tmux().as_str());
        extend_str(&mut out, " set-window-option -t ");
        extend_str(&mut out, window_target);
        extend_str(&mut out, " pane-border-status ");
        if self.pane_title_position_valid() {
            match self.pane_title_position() {
                Some(t) => extend_str(&mut out, t.as_str()),
                None => {},
            }
        } else {
            extend_str(&mut out, "top");
        }
        string_of(out.as_slice())
    }

    pub fn set_pane_title_format_command(&self, window_target: &str) -> (r: String)
        ensures
            r@ == spec_format_command(self, window_target@),
    {
        let mut out: Vec<char> = Vec::new();
        extend_str(&mut out, self.tmux().as_str());
        extend_str(&mut out, " set-window-option -t ");
        extend_str(&mut out, window_target);
        extend_str(&mut out, " pane-border-format \"");
        match truthy_text_of(&self.yaml, "pane_title_format") {
            Some(f) => extend_str(&mut out, f.as_str()),
            None => extend_str(&mut out, "#{pane_index}: #{pane_title}"),
        }
        extend_str(&mut out, "\"");
        string_of(out.as_slice())
    }

    /// A `printf` line for the script that warns of an invalid
    /// `pane_title_position`.
    pub fn pane_title_position_warning(&self) -> (r: String)
        ensures
            r@ == spec_position_warning(self),
    {
        let mut out: Vec<char> = Vec::new();
        extend_str(&mut out, "printf \"\\033[1;33mWARNING: The specified pane title position '");
        match self.pane_title_position() {
            Some(t) => extend_str(&mut out, t.as_str()),
            None => {},
        }
        extend_str(&mut out, "' is not valid. Please choose one of: top, bottom, or off.\n\\033[0m\"");
        string_of(out.as_slice())
    }
}

} // verus!
