//! A window of a tmux project: how its entry is read.

use vstd::prelude::*;
use crate::pane::{
    build_plain_panes, chain_panes, escaped, spec_chain_panes, spec_plain_panes, tmux_panes_view,
    Pane, TmuxPaneView,
};
use crate::project_spec::{
    chain_layout_message, decimal_parts, digits_value, first_named, opt_str, opt_yaml,
    parse_panes, scalars_of, spec_decimal, spec_parse_panes, window_entry_message,
};
use crate::shellwords::{escape, spec_escape};
use crate::text::{chars_of, dec_value, extend_str, str_eq, string_of, trim, trimmed};
use crate::project::{name_or_empty, spec_base_index, spec_pane_base_index, spec_pre_window,
    spec_root, spec_root_raw, spec_tmux, Project};
use crate::util::spec_expand_path;
use crate::zellij::signed_decimal;
use crate::tmux::{parse_i64_chars, parse_signed};
use crate::yaml_ext::{
    first_entry, get, join_or_string, scalar_to_string, spec_get, spec_join_or_string,
    spec_scalar, spec_truthy, truthy, Yaml,
};

verus! {

/// When a window turns on synchronized panes.
#[derive(Clone, Copy, Debug, PartialEq, Eq)]
pub enum Synchronize {
    Off,
    /// Before the panes' commands run (`synchronize: true` or `before`).
    Before,
    /// After the panes' commands ran (`synchronize: after`).
    After,
}

/// A window of a tmux project.
pub struct Window {
    /// Zero-based position in the project.
    pub index: usize,
    /// Shell-escaped.
    pub name: Option<String>,
    pub panes: Vec<Pane>,
    /// The `layout` setting as written.
    pub layout_value: Option<String>,
    /// The `pre` commands, joined with `; `.
    pub pre_value: Option<String>,
    pub synchronize: Synchronize,
    /// The window's own `root` setting, when it is set.
    pub own_root: Option<String>,
    /// The zero-based pane that gets the focus.
    pub focused_index: usize,
    /// The commands of a window without panes.
    pub command_list: Vec<String>,
    /// Whether the panes form a chain of explicit splits.
    pub pane_chain: bool,
}

pub struct TmuxWindowView {
    pub index: nat,
    pub name: Option<Seq<char>>,
    pub panes: Seq<TmuxPaneView>,
    pub layout_value: Option<Seq<char>>,
    pub pre_value: Option<Seq<char>>,
    pub synchronize: Synchronize,
    pub own_root: Option<Seq<char>>,
    pub focused_index: nat,
    pub command_list: Seq<Seq<char>>,
    pub pane_chain: bool,
}

impl View for Window {
    type V = TmuxWindowView;

    open spec fn view(&self) -> TmuxWindowView {
        TmuxWindowView {
            index: self.index as nat,
            name: opt_str(self.name),
            panes: tmux_panes_view(self.panes@),
            layout_value: opt_str(self.layout_value),
            pre_value: opt_str(self.pre_value),
            synchronize: self.synchronize,
            own_root: opt_str(self.own_root),
            focused_index: self.focused_index as nat,
            command_list: self.command_list@.map_values(|s: String| s@),
            pane_chain: self.pane_chain,
        }
    }
}

pub open spec fn tmux_windows_view(ws: Seq<Window>) -> Seq<TmuxWindowView> {
    ws.map_values(|w: Window| w@)
}

pub open spec fn spec_synchronize(v: Option<Yaml>) -> Synchronize {
    match v {
        Some(Yaml::Bool(true)) => Synchronize::Before,
        Some(Yaml::String(s)) => if s@ == "before"@ {
            Synchronize::Before
        } else if s@ == "after"@ {
            Synchronize::After
        } else {
            Synchronize::Off
        },
        _ => Synchronize::Off,
    }
}

/// A window's `synchronize` setting: `true` or `"before"` synchronizes its
/// panes before their commands, `"after"` after them, anything else (or no
/// setting) not at all.
pub proof fn synchronize_setting_law(v: Option<Yaml>)
    ensures
        spec_synchronize(v) == Synchronize::Before <==> (v == Some(Yaml::Bool(true)) || (v matches Some(
            Yaml::String(s),
        ) && s@ == "before"@)),
        spec_synchronize(v) == Synchronize::After <==> (v matches Some(Yaml::String(s)) && s@ == "after"@),
{
    reveal_strlit("before");
    reveal_strlit("after");
    assert("before"@.len() != "after"@.len());
}

/// A built window is synchronized as its entry's `synchronize` setting says
/// (see `synchronize_setting_law`).
pub proof fn window_synchronize_law(entry: Yaml, index: nat)
    requires
        spec_window(entry, index) is Ok,
    ensures
        entry is Mapping,
        ({
            let m = entry->Mapping_0;
            let body = if m@.len() > 0 {
                m@[0].1
            } else {
                Yaml::Null
            };
            let v = spec_get(body, "synchronize"@);
            let w = spec_window(entry, index)->Ok_0;
            &&& w.synchronize == Synchronize::Before <==> (v == Some(Yaml::Bool(true)) || (v matches Some(
                Yaml::String(s),
            ) && s@ == "before"@))
            &&& w.synchronize == Synchronize::After <==> (v matches Some(Yaml::String(s)) && s@ == "after"@)
        }),
{
    match entry {
        Yaml::Mapping(m) => {
            let body = if m@.len() > 0 {
                m@[0].1
            } else {
                Yaml::Null
            };
            synchronize_setting_law(spec_get(body, "synchronize"@));
            assert(spec_window(entry, index)->Ok_0.synchronize == spec_synchronize(spec_get(body, "synchronize"@)));
        },
        _ => {},
    }
}

/// An integer setting: a YAML integer, a decimal number cut to its whole
/// part, or a string holding an integer.
pub open spec fn spec_as_integer(v: Yaml) -> Option<int> {
    match v {
        Yaml::Number(n) => match parse_signed(n@) {
            Some(i) => Some(i),
            None => match spec_decimal(n@) {
                Some((neg, ip, _)) => Some(
                    if neg {
                        -dec_value(ip)
                    } else {
                        dec_value(ip) as int
                    },
                ),
                None => None,
            },
        },
        Yaml::String(s) => parse_signed(trim(s@)),
        _ => None,
    }
}

/// The pane a setting picks: an index within range, else the first pane
/// whose (escaped) title is the setting's escaped `to_s`, else the first
/// pane.
pub open spec fn spec_pane_choice(v: Option<Yaml>, titles: Seq<Option<Seq<char>>>) -> nat {
    match v {
        None => 0,
        Some(Yaml::Null) => 0,
        Some(Yaml::Bool(false)) => 0,
        Some(x) => match spec_as_integer(x) {
            Some(i) => if 0 <= i < titles.len() {
                i as nat
            } else {
                0
            },
            None => match first_named(
                titles,
                spec_escape(
                    match spec_scalar(x) {
                        Some(s) => s,
                        None => seq![],
                    },
                ),
            ) {
                Some(k) => k,
                None => 0,
            },
        },
    }
}

pub open spec fn pane_view_titles(ps: Seq<TmuxPaneView>) -> Seq<Option<Seq<char>>> {
    ps.map_values(|p: TmuxPaneView| p.title)
}

/// The commands of a window without panes: the scalars of a sequence, or a
/// non-empty string.
pub open spec fn spec_window_commands(body: Yaml) -> Seq<Seq<char>> {
    match body {
        Yaml::Sequence(items) => scalars_of(items@),
        Yaml::String(s) => if s@.len() > 0 {
            seq![s@]
        } else {
            seq![]
        },
        _ => seq![],
    }
}

pub open spec fn spec_own_root(body: Yaml) -> Option<Seq<char>> {
    if spec_truthy(spec_get(body, "root"@)) {
        Some(
            match spec_get(body, "root"@) {
                Some(v) => match spec_scalar(v) {
                    Some(s) => s,
                    None => seq![],
                },
                None => seq![],
            },
        )
    } else {
        None
    }
}

pub open spec fn opt_scalar(v: Option<Yaml>) -> Option<Seq<char>> {
    match v {
        Some(x) => spec_scalar(x),
        None => None,
    }
}

/// A window entry `- name: body`. A pane chain cannot have a `layout`.
pub open spec fn spec_window(entry: Yaml, index: nat) -> Result<TmuxWindowView, Seq<char>> {
    match entry {
        Yaml::Mapping(m) => {
            let key = if m@.len() > 0 {
                Some(m@[0].0)
            } else {
                None
            };
            let body = if m@.len() > 0 {
                m@[0].1
            } else {
                Yaml::Null
            };
            let layout = opt_scalar(spec_get(body, "layout"@));
            match spec_parse_panes(spec_get(body, "panes"@)) {
                Err(e) => Err(e),
                Ok((ps, chain)) => if chain && (layout matches Some(l) && l.len() > 0) {
                    Err(chain_layout_message())
                } else {
                    let panes = if chain {
                        spec_chain_panes(ps)
                    } else {
                        spec_plain_panes(spec_get(body, "panes"@))
                    };
                    Ok(
                        TmuxWindowView {
                            index,
                            name: escaped(opt_scalar(key)),
                            panes,
                            layout_value: layout,
                            pre_value: spec_join_or_string(spec_get(body, "pre"@), "; "@),
                            synchronize: spec_synchronize(spec_get(body, "synchronize"@)),
                            own_root: spec_own_root(body),
                            focused_index: spec_pane_choice(
                                spec_get(body, "focused_pane"@),
                                pane_view_titles(panes),
                            ),
                            command_list: spec_window_commands(body),
                            pane_chain: chain,
                        },
                    )
                },
            }
        },
        _ => Err(window_entry_message()),
    }
}

/// The windows of a project, in order; the first failing entry reports.
pub open spec fn spec_windows(entries: Seq<Yaml>) -> Result<Seq<TmuxWindowView>, Seq<char>>
    decreases entries.len(),
{
    if entries.len() == 0 {
        Ok(seq![])
    } else {
        match spec_windows(entries.drop_last()) {
            Err(e) => Err(e),
            Ok(ws) => match spec_window(entries.last(), (entries.len() - 1) as nat) {
                Err(e) => Err(e),
                Ok(w) => Ok(ws.push(w)),
            },
        }
    }
}

/// An integer setting, as [`spec_as_integer`] reads it.
pub fn as_integer(value: &Yaml) -> (r: Option<i64>)
    ensures
        match r {
            Some(i) => spec_as_integer(*value) == Some(i as int),
            None => spec_as_integer(*value) is None,
        },
{
    match value {
        Yaml::Number(n) => {
            let v = chars_of(n.as_str());
            match parse_i64_chars(v.as_slice()) {
                Some(i) => Some(i),
                None => match decimal_parts(v.as_slice()) {
                    Some((neg, ip, _)) => {
                        let d = digits_value(ip.as_slice());
                        proof {
                            crate::project_spec::lemma_pow10_bound(ip@.len());
                            crate::project_spec::lemma_dec_value_bound(ip@);
                        }
                        if neg {
                            Some(0 - (d as i64))
                        } else {
                            Some(d as i64)
                        }
                    },
                    None => None,
                },
            }
        },
        Yaml::String(s) => {
            let t = trimmed(s.as_str());
            parse_i64_chars(t.as_slice())
        },
        _ => None,
    }
}

/// The pane a setting picks, as [`spec_pane_choice`] reads it.
#[verifier::loop_isolation(false)]
pub fn pane_choice(value: Option<&Yaml>, panes: &Vec<Pane>) -> (r: usize)
    ensures
        r as nat == spec_pane_choice(opt_yaml(value), pane_view_titles(tmux_panes_view(panes@))),
        panes@.len() > 0 ==> r < panes@.len(),
{
    let ghost titles = pane_view_titles(tmux_panes_view(panes@));
    let x = match value {
        None => {
            return 0;
        },
        Some(Yaml::Null) => {
            return 0;
        },
        Some(Yaml::Bool(false)) => {
            return 0;
        },
        Some(x) => x,
    };
    match as_integer(x) {
        Some(i) => {
            if i >= 0 && (i as u64 as u128) < (panes.len() as u128) {
                i as usize
            } else {
                0
            }
        },
        None => {
            let wanted = match scalar_to_string(x) {
                Some(s) => escape(s.as_str()),
                None => escape(""),
            };
            proof {
                reveal_strlit("");
                if spec_scalar(*x) is None {
                    assert(""@ =~= Seq::<char>::empty());
                }
            }
            let mut k: usize = 0;
            assert(titles.skip(0) == titles);
            while k < panes.len()
                invariant
                    k <= panes@.len(),
                    titles == pane_view_titles(tmux_panes_view(panes@)),
                    first_named(titles, wanted@) == (match first_named(titles.skip(k as int), wanted@) {
                        Some(j) => Some((j + k) as nat),
                        None => None,
                    }),
                decreases panes.len() - k,
            {
                let hit = match &panes[k].title {
                    Some(t) => str_eq(t.as_str(), wanted.as_str()),
                    None => false,
                };
                assert(titles.skip(k as int)[0] == opt_str(panes@[k as int].title));
                if hit {
                    assert(titles.skip(k as int)[0] == Some(wanted@));
                    assert(first_named(titles.skip(k as int), wanted@) == Some(0nat));
                    assert(first_named(titles, wanted@) == Some(k as nat));
                    assert(opt_yaml(value) == Some(*x));
                    assert(spec_as_integer(*x) is None);
                    assert(wanted@ == spec_escape(
                        match spec_scalar(*x) {
                            Some(s) => s,
                            None => seq![],
                        },
                    ));
                    return k;
                }
                assert(titles.skip(k as int).drop_first() == titles.skip(k + 1));
                k += 1;
            }
            assert(titles.skip(k as int).len() == 0);
            0
        },
    }
}

fn synchronize_of(value: Option<&Yaml>) -> (r: Synchronize)
    ensures
        r == spec_synchronize(opt_yaml(value)),
{
    match value {
        Some(Yaml::Bool(true)) => Synchronize::Before,
        Some(Yaml::String(s)) => {
            if str_eq(s.as_str(), "before") {
                Synchronize::Before
            } else if str_eq(s.as_str(), "after") {
                Synchronize::After
            } else {
                Synchronize::Off
            }
        },
        _ => Synchronize::Off,
    }
}

fn window_commands(body: &Yaml) -> (r: Vec<String>)
    ensures
        r@.map_values(|s: String| s@) == spec_window_commands(*body),
{
    match body {
        Yaml::Sequence(_) => {
            let r = crate::project_spec::command_list(Some(body));
            assert(crate::herdr::strings_view(r@) == r@.map_values(|s: String| s@));
            r
        },
        Yaml::String(s) => {
            let mut r: Vec<String> = Vec::new();
            if !s.as_str().is_empty() {
                r.push(s.clone());
                assert(r@.map_values(|s: String| s@) =~= seq![s@]);
            } else {
                assert(r@.map_values(|s: String| s@) =~= seq![]);
            }
            r
        },
        _ => {
            let r: Vec<String> = Vec::new();
            assert(r@.map_values(|s: String| s@) =~= seq![]);
            r
        },
    }
}

fn own_root_of(body: &Yaml) -> (r: Option<String>)
    ensures
        opt_str(r) == spec_own_root(*body),
{
    let v = get(body, "root");
    if truthy(v) {
        match v {
            Some(x) => match scalar_to_string(x) {
                Some(s) => Some(s),
                None => Some(String::new()),
            },
            None => Some(String::new()),
        }
    } else {
        None
    }
}

pub open spec fn spec_name_option(w: TmuxWindowView) -> Seq<char> {
    match w.name {
        Some(n) => "-n "@ + n,
        None => seq![],
    }
}

impl Window {
    /// `-n name`, or nothing for a window without a name.
    pub fn name_option(&self) -> (r: String)
        ensures
            r@ == spec_name_option(self@),
    {
        match &self.name {
            Some(n) => {
                let mut out: Vec<char> = Vec::new();
                crate::text::extend_str(&mut out, "-n ");
                crate::text::extend_str(&mut out, n.as_str());
                string_of(out.as_slice())
            },
            None => {
                let r = String::new();
                assert(r@ =~= Seq::<char>::empty());
                r
            },
        }
    }

    pub fn has_panes(&self) -> (r: bool)
        ensures
            r == (self.panes@.len() > 0),
    {
        self.panes.len() > 0
    }

    pub fn is_pane_chain(&self) -> (r: bool)
        ensures
            r == self.pane_chain,
    {
        self.pane_chain
    }

    pub fn synchronize_before(&self) -> (r: bool)
        ensures
            r == (self.synchronize == Synchronize::Before),
    {
        match self.synchronize {
            Synchronize::Before => true,
            _ => false,
        }
    }

    pub fn synchronize_after(&self) -> (r: bool)
        ensures
            r == (self.synchronize == Synchronize::After),
    {
        match self.synchronize {
            Synchronize::After => true,
            _ => false,
        }
    }

    /// The `layout` setting, shell-escaped.
    pub fn layout(&self) -> (r: Option<String>)
        ensures
            opt_str(r) == escaped(opt_str(self.layout_value)),
    {
        match &self.layout_value {
            Some(l) => Some(escape(l.as_str())),
            None => None,
        }
    }

    /// The `pre` commands, joined with `; `.
    pub fn pre(&self) -> (r: Option<String>)
        ensures
            opt_str(r) == opt_str(self.pre_value),
    {
        crate::project_spec::clone_opt_string(&self.pre_value)
    }

    /// Reads a window entry.
    pub fn build(entry: &Yaml, index: usize) -> (r: Result<Window, String>)
        ensures
            match r {
                Ok(w) => spec_window(*entry, index as nat) == Ok::<TmuxWindowView, Seq<char>>(w@),
                Err(m) => spec_window(*entry, index as nat) == Err::<TmuxWindowView, Seq<char>>(m@),
            },
    {
        match entry {
            Yaml::Mapping(_) => {},
            _ => {
                return Err(
                    "Failed to parse config file: window entries must be mappings, e.g. `- editor: vim`".to_owned(),
                );
            },
        }
        let null = Yaml::Null;
        let (key, body_opt) = first_entry(entry);
        let body: &Yaml = match body_opt {
            Some(b) => b,
            None => &null,
        };
        let name = match key {
            Some(k) => match scalar_to_string(k) {
                Some(n) => Some(escape(n.as_str())),
                None => None,
            },
            None => None,
        };
        let layout_value = match get(body, "layout") {
            Some(v) => scalar_to_string(v),
            None => None,
        };
        let panes_value = get(body, "panes");
        let (chain_specs, chain) = match parse_panes(panes_value) {
            Ok(p) => p,
            Err(e) => {
                return Err(e);
            },
        };
        let layout_set = match &layout_value {
            Some(l) => !l.as_str().is_empty(),
            None => false,
        };
        if chain && layout_set {
            return Err(
                "A pane chain (`split`/`ratio`/`command(s)`) cannot be combined with a window `layout`.".to_owned(),
            );
        }
        let panes = if chain {
            chain_panes(&chain_specs)
        } else {
            build_plain_panes(panes_value)
        };
        let focused_index = pane_choice(get(body, "focused_pane"), &panes);
        let w = Window {
            index,
            name,
            panes,
            layout_value,
            pre_value: join_or_string(get(body, "pre"), "; "),
            synchronize: synchronize_of(get(body, "synchronize")),
            own_root: own_root_of(body),
            focused_index,
            command_list: window_commands(body),
            pane_chain: chain,
        };
        proof {
            reveal_strlit("; ");
        }
        Ok(w)
    }
}

} // verus!

verus! {

/// `name:index`, the window by its tmux index.
pub open spec fn spec_window_target(p: &Project, w: TmuxWindowView) -> Seq<char> {
    name_or_empty(p) + seq![':'] + signed_decimal(w.index + spec_base_index(p))
}

/// A window's own root, expanded against the project root (or the working
/// directory), else the project root; shell-escaped.
pub open spec fn spec_window_root(p: &Project, w: TmuxWindowView) -> Option<Seq<char>> {
    match w.own_root {
        Some(r) => Some(
            spec_escape(
                spec_expand_path(
                    r,
                    match spec_root_raw(p) {
                        Some(b) => b,
                        None => p.env.cwd@,
                    },
                    p.env.home@,
                ),
            ),
        ),
        None => spec_root(p),
    }
}

pub open spec fn path_option(root: Option<Seq<char>>) -> Seq<char> {
    match root {
        Some(r) => "-c "@ + r,
        None => seq![],
    }
}

/// A `send-keys` line: the keys, then Enter.
pub open spec fn send_keys_line(p: &Project, target: Seq<char>, keys: Seq<char>) -> Seq<char> {
    spec_tmux(p) + " send-keys -t "@ + target + seq![' '] + keys + " C-m"@
}

pub open spec fn spec_new_window_command(p: &Project, w: TmuxWindowView) -> Seq<char> {
    spec_tmux(p) + " new-window "@ + path_option(spec_window_root(p, w)) + " -k -t "@
        + spec_window_target(p, w) + seq![' '] + spec_name_option(w)
}

pub open spec fn spec_commands(p: &Project, w: TmuxWindowView) -> Seq<Seq<char>> {
    w.command_list.map_values(
        |c: Seq<char>| send_keys_line(p, spec_window_target(p, w), spec_escape(c)),
    )
}

pub open spec fn spec_window_pre_window_command(p: &Project, w: TmuxWindowView) -> Option<Seq<char>> {
    match spec_pre_window(p) {
        Some(pw) => Some(send_keys_line(p, spec_window_target(p, w), spec_escape(pw))),
        None => None,
    }
}

pub open spec fn spec_tiled_layout_command(p: &Project, w: TmuxWindowView) -> Seq<char> {
    spec_tmux(p) + " select-layout -t "@ + spec_window_target(p, w) + " tiled"@
}

pub open spec fn spec_layout_command(p: &Project, w: TmuxWindowView) -> Seq<char> {
    spec_tmux(p) + " select-layout -t "@ + spec_window_target(p, w) + seq![' '] + match escaped(
        w.layout_value,
    ) {
        Some(l) => l,
        None => seq![],
    }
}

pub open spec fn spec_synchronize_command(p: &Project, w: TmuxWindowView) -> Seq<char> {
    spec_tmux(p) + " set-window-option -t "@ + spec_window_target(p, w) + " synchronize-panes on"@
}

pub open spec fn spec_focus_pane_command(p: &Project, w: TmuxWindowView) -> Seq<char> {
    spec_tmux(p) + " select-pane -t "@ + spec_window_target(p, w) + seq!['.'] + signed_decimal(
        w.focused_index + spec_pane_base_index(p),
    )
}

/// Appends a `send-keys` line.
pub(crate) fn push_send_keys(out: &mut Vec<char>, project: &Project, target: &str, keys: &str)
    ensures
        final(out)@ == old(out)@ + send_keys_line(project, target@, keys@),
{
    let ghost start = out@;
    extend_str(out, project.tmux().as_str());
    extend_str(out, " send-keys -t ");
    extend_str(out, target);
    out.push(' ');
    extend_str(out, keys);
    extend_str(out, " C-m");
    assert(out@ =~= start + send_keys_line(project, target@, keys@));
}

impl Window {
    /// `name:index`, the window by its tmux index.
    pub fn target(&self, project: &Project) -> (r: String)
        ensures
            r@ == spec_window_target(project, self@),
    {
        let mut out: Vec<char> = Vec::new();
        match project.name() {
            Some(n) => extend_str(&mut out, n.as_str()),
            None => {},
        }
        out.push(':');
        let n = self.index as i128 + project.base_index();
        crate::tmux::push_wide(&mut out, n);
        string_of(out.as_slice())
    }

    /// The directory the window's panes start in, shell-escaped.
    pub fn root(&self, project: &Project) -> (r: Option<String>)
        ensures
            opt_str(r) == spec_window_root(project, self@),
    {
        match &self.own_root {
            Some(own) => {
                let base = match project.root_raw() {
                    Some(b) => b,
                    None => project.env.cwd.clone(),
                };
                let expanded = crate::util::expand_path(
                    own.as_str(),
                    base.as_str(),
                    project.env.home.as_str(),
                );
                Some(escape(expanded.as_str()))
            },
            None => project.root(),
        }
    }

    pub fn new_window_command(&self, project: &Project) -> (r: String)
        ensures
            r@ == spec_new_window_command(project, self@),
    {
        let mut out: Vec<char> = Vec::new();
        extend_str(&mut out, project.tmux().as_str());
        extend_str(&mut out, " new-window ");
        match self.root(project) {
            Some(root) => {
                extend_str(&mut out, "-c ");
                extend_str(&mut out, root.as_str());
            },
            None => {},
        }
        extend_str(&mut out, " -k -t ");
        extend_str(&mut out, self.target(project).as_str());
        out.push(' ');
        extend_str(&mut out, self.name_option().as_str());
        string_of(out.as_slice())
    }

    /// The `send-keys` lines of a window without panes.
    pub fn commands(&self, project: &Project) -> (r: Vec<String>)
        ensures
            r@.map_values(|s: String| s@) == spec_commands(project, self@),
    {
        let target = self.target(project);
        let ghost want = spec_commands(project, self@);
        let mut lines: Vec<String> = Vec::new();
        let mut i: usize = 0;
        while i < self.command_list.len()
            invariant
                i <= self.command_list@.len(),
                target@ == spec_window_target(project, self@),
                want == spec_commands(project, self@),
                lines@.map_values(|s: String| s@) == want.take(i as int),
            decreases self.command_list.len() - i,
        {
            let mut out: Vec<char> = Vec::new();
            push_send_keys(&mut out, project, target.as_str(), escape(self.command_list[i].as_str()).as_str());
            let line = string_of(out.as_slice());
            let ghost before = lines@;
            lines.push(line);
            assert(lines@.map_values(|s: String| s@) =~= before.map_values(|s: String| s@).push(line@));
            assert(want.take(i + 1) =~= want.take(i as int).push(want[i as int]));
            i += 1;
        }
        assert(want.take(self.command_list@.len() as int) =~= want);
        lines
    }

    pub fn pre_window_command(&self, project: &Project) -> (r: Option<String>)
        ensures
            opt_str(r) == spec_window_pre_window_command(project, self@),
    {
        match project.pre_window() {
            Some(pw) => {
                let mut out: Vec<char> = Vec::new();
                push_send_keys(&mut out, project, self.target(project).as_str(), escape(pw.as_str()).as_str());
                Some(string_of(out.as_slice()))
            },
            None => None,
        }
    }

    pub fn tiled_layout_command(&self, project: &Project) -> (r: String)
        ensures
            r@ == spec_tiled_layout_command(project, self@),
    {
        let mut out: Vec<char> = Vec::new();
        extend_str(&mut out, project.tmux().as_str());
        extend_str(&mut out, " select-layout -t ");
        extend_str(&mut out, self.target(project).as_str());
        extend_str(&mut out, " tiled");
        string_of(out.as_slice())
    }

    pub fn layout_command(&self, project: &Project) -> (r: String)
        ensures
            r@ == spec_layout_command(project, self@),
    {
        let mut out: Vec<char> = Vec::new();
        extend_str(&mut out, project.tmux().as_str());
        extend_str(&mut out, " select-layout -t ");
        extend_str(&mut out, self.target(project).as_str());
        out.push(' ');
        match self.layout() {
            Some(l) => extend_str(&mut out, l.as_str()),
            None => {},
        }
        string_of(out.as_slice())
    }

    pub fn synchronize_command(&self, project: &Project) -> (r: String)
        ensures
            r@ == spec_synchronize_command(project, self@),
    {
        let mut out: Vec<char> = Vec::new();
        extend_str(&mut out, project.tmux().as_str());
        extend_str(&mut out, " set-window-option -t ");
        extend_str(&mut out, self.target(project).as_str());
        extend_str(&mut out, " synchronize-panes on");
        string_of(out.as_slice())
    }

    pub fn focus_pane_command(&self, project: &Project) -> (r: String)
        ensures
            r@ == spec_focus_pane_command(project, self@),
    {
        let mut out: Vec<char> = Vec::new();
        extend_str(&mut out, project.tmux().as_str());
        extend_str(&mut out, " select-pane -t ");
        extend_str(&mut out, self.target(project).as_str());
        out.push('.');
        let n = self.focused_index as i128 + project.pane_base_index();
        crate::tmux::push_wide(&mut out, n);
        string_of(out.as_slice())
    }
}

} // verus!
