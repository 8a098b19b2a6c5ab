//! A pane of a tmux window, and how a window's `panes` list is read for
//! tmux.

use vstd::prelude::*;
use crate::project_spec::{opt_str, opt_yaml, pane_items, PaneSplit, PaneSpec, PaneView, panes_view};
use crate::shellwords::{escape, spec_escape};
use crate::yaml_ext::{first_entry, scalar_to_string, spec_scalar, Yaml};
use crate::layout::Ratio;
use crate::project::{spec_pane_base_index, spec_pre_window, spec_tmux, Project};
use crate::project_spec::SplitDirection;
use crate::text::{extend_str, string_of};
use crate::window::{path_option, push_send_keys, send_keys_line, spec_window_root, spec_window_target, TmuxWindowView, Window};
use crate::zellij::{decimal, signed_decimal};

verus! {

/// A pane of a tmux window.
pub struct Pane {
    /// Zero-based position in the window.
    pub index: usize,
    /// Shell-escaped; focused-pane titles are compared in this form.
    pub title: Option<String>,
    /// One entry per command line: `None` renders as an empty line.
    pub commands: Vec<Option<String>>,
    /// In a pane chain, how this pane is split off the one before it.
    pub split: Option<PaneSplit>,
}

pub struct TmuxPaneView {
    pub index: nat,
    pub title: Option<Seq<char>>,
    pub commands: Seq<Option<Seq<char>>>,
    pub split: Option<PaneSplit>,
}

pub open spec fn opt_strings(v: Seq<Option<String>>) -> Seq<Option<Seq<char>>> {
    v.map_values(|o: Option<String>| opt_str(o))
}

impl View for Pane {
    type V = TmuxPaneView;

    open spec fn view(&self) -> TmuxPaneView {
        TmuxPaneView {
            index: self.index as nat,
            title: opt_str(self.title),
            commands: opt_strings(self.commands@),
            split: self.split,
        }
    }
}

pub open spec fn tmux_panes_view(ps: Seq<Pane>) -> Seq<TmuxPaneView> {
    ps.map_values(|p: Pane| p@)
}

pub open spec fn escaped(o: Option<Seq<char>>) -> Option<Seq<char>> {
    match o {
        Some(t) => Some(spec_escape(t)),
        None => None,
    }
}

/// A pane body's command lines: none for a missing or null body, each
/// item's `to_s` for a sequence, else the body's own `to_s`.
pub open spec fn spec_pane_commands(body: Option<Yaml>) -> Seq<Option<Seq<char>>> {
    match body {
        None => seq![],
        Some(Yaml::Null) => seq![],
        Some(Yaml::Sequence(items)) => items@.map_values(|y: Yaml| spec_scalar(y)),
        Some(x) => seq![spec_scalar(x)],
    }
}

/// An entry of a plain pane list: `title: commands`, a list of commands,
/// nothing, or one command.
pub open spec fn spec_plain_pane(item: Yaml, index: nat) -> TmuxPaneView {
    match item {
        Yaml::Mapping(m) => if m@.len() > 0 {
            TmuxPaneView {
                index,
                title: escaped(spec_scalar(m@[0].0)),
                commands: spec_pane_commands(Some(m@[0].1)),
                split: None,
            }
        } else {
            TmuxPaneView { index, title: None, commands: seq![], split: None }
        },
        Yaml::Sequence(_) => TmuxPaneView {
            index,
            title: None,
            commands: spec_pane_commands(Some(item)),
            split: None,
        },
        Yaml::Null => TmuxPaneView { index, title: None, commands: seq![], split: None },
        _ => TmuxPaneView { index, title: None, commands: seq![spec_scalar(item)], split: None },
    }
}

/// The entries of a `panes` value: none when it is missing or null, the
/// items of a sequence, or the value itself.
pub open spec fn plain_items(v: Option<Yaml>) -> Seq<Yaml> {
    match v {
        None => seq![],
        Some(Yaml::Null) => seq![],
        Some(x) => pane_items(x),
    }
}

pub open spec fn spec_plain_panes(v: Option<Yaml>) -> Seq<TmuxPaneView> {
    let items = plain_items(v);
    Seq::new(items.len(), |i: int| spec_plain_pane(items[i], i as nat))
}

/// A pane of a chain, as tmux runs it.
pub open spec fn spec_chain_pane(p: PaneView, index: nat) -> TmuxPaneView {
    TmuxPaneView {
        index,
        title: escaped(p.title),
        commands: p.commands.map_values(|c: Seq<char>| Some(c)),
        split: p.split,
    }
}

pub open spec fn spec_chain_panes(ps: Seq<PaneView>) -> Seq<TmuxPaneView> {
    Seq::new(ps.len(), |i: int| spec_chain_pane(ps[i], i as nat))
}

/// Reads a pane body's command lines.
pub fn pane_commands(body: Option<&Yaml>) -> (r: Vec<Option<String>>)
    ensures
        opt_strings(r@) == spec_pane_commands(opt_yaml(body)),
{
    let mut out: Vec<Option<String>> = Vec::new();
    match body {
        None => {},
        Some(Yaml::Null) => {},
        Some(Yaml::Sequence(items)) => {
            let ghost want = items@.map_values(|y: Yaml| spec_scalar(y));
            let mut i: usize = 0;
            while i < items.len()
                invariant
                    i <= items@.len(),
                    want == items@.map_values(|y: Yaml| spec_scalar(y)),
                    opt_strings(out@) == want.take(i as int),
                decreases items.len() - i,
            {
                let s = scalar_to_string(&items[i]);
                let ghost before = out@;
                out.push(s);
                assert(opt_strings(out@) =~= opt_strings(before).push(opt_str(s)));
                assert(want.take(i + 1) =~= want.take(i as int).push(want[i as int]));
                i += 1;
            }
            assert(want.take(items@.len() as int) == want);
        },
        Some(x) => {
            out.push(scalar_to_string(x));
            assert(opt_strings(out@) =~= seq![spec_scalar(*x)]);
        },
    }
    out
}

fn escape_opt(o: Option<String>) -> (r: Option<String>)
    ensures
        opt_str(r) == escaped(opt_str(o)),
{
    match o {
        Some(t) => Some(escape(t.as_str())),
        None => None,
    }
}

fn plain_pane(item: &Yaml, index: usize) -> (r: Pane)
    ensures
        r@ == spec_plain_pane(*item, index as nat),
{
    match item {
        Yaml::Mapping(m) => {
            if m.len() > 0 {
                let (key, body) = first_entry(item);
                let title = match key {
                    Some(k) => escape_opt(scalar_to_string(k)),
                    None => None,
                };
                let commands = pane_commands(body);
                Pane { index, title, commands, split: None }
            } else {
                let r = Pane { index, title: None, commands: Vec::new(), split: None };
                assert(opt_strings(r.commands@) =~= seq![]);
                r
            }
        },
        Yaml::Sequence(_) => {
            let commands = pane_commands(Some(item));
            Pane { index, title: None, commands, split: None }
        },
        Yaml::Null => {
            let r = Pane { index, title: None, commands: Vec::new(), split: None };
            assert(opt_strings(r.commands@) =~= seq![]);
            r
        },
        _ => {
            let mut commands: Vec<Option<String>> = Vec::new();
            commands.push(scalar_to_string(item));
            assert(opt_strings(commands@) =~= seq![spec_scalar(*item)]);
            Pane { index, title: None, commands, split: None }
        },
    }
}

/// Reads a plain `panes` list.
pub fn build_plain_panes(value: Option<&Yaml>) -> (r: Vec<Pane>)
    ensures
        tmux_panes_view(r@) == spec_plain_panes(opt_yaml(value)),
{
    let mut out: Vec<Pane> = Vec::new();
    match value {
        None => {
            assert(tmux_panes_view(out@) =~= spec_plain_panes(opt_yaml(value)));
        },
        Some(Yaml::Null) => {
            assert(tmux_panes_view(out@) =~= spec_plain_panes(opt_yaml(value)));
        },
        Some(Yaml::Sequence(items)) => {
            let ghost want = spec_plain_panes(opt_yaml(value));
            assert(plain_items(opt_yaml(value)) == items@);
            let mut i: usize = 0;
            while i < items.len()
                invariant
                    i <= items@.len(),
                    want == spec_plain_panes(opt_yaml(value)),
                    plain_items(opt_yaml(value)) == items@,
                    tmux_panes_view(out@) == want.take(i as int),
                decreases items.len() - i,
            {
                let p = plain_pane(&items[i], i);
                let ghost before = out@;
                out.push(p);
                assert(tmux_panes_view(out@) =~= tmux_panes_view(before).push(p@));
                assert(want.take(i + 1) =~= want.take(i as int).push(want[i as int]));
                i += 1;
            }
            assert(want.take(items@.len() as int) =~= want);
        },
        Some(x) => {
            assert(plain_items(opt_yaml(value)) == seq![*x]);
            let p = plain_pane(x, 0);
            out.push(p);
            assert(tmux_panes_view(out@) =~= spec_plain_panes(opt_yaml(value)));
        },
    }
    out
}

fn some_strings(v: &Vec<String>) -> (r: Vec<Option<String>>)
    ensures
        opt_strings(r@) == v@.map_values(|s: String| s@).map_values(|c: Seq<char>| Some(c)),
{
    let ghost want = v@.map_values(|s: String| s@).map_values(|c: Seq<char>| Some(c));
    let mut out: Vec<Option<String>> = Vec::new();
    let mut i: usize = 0;
    while i < v.len()
        invariant
            i <= v@.len(),
            want == v@.map_values(|s: String| s@).map_values(|c: Seq<char>| Some(c)),
            opt_strings(out@) == want.take(i as int),
        decreases v.len() - i,
    {
        let c = v[i].clone();
        let ghost before = out@;
        out.push(Some(c));
        assert(opt_strings(out@) =~= opt_strings(before).push(Some(c@)));
        assert(want.take(i + 1) =~= want.take(i as int).push(want[i as int]));
        i += 1;
    }
    assert(want.take(v@.len() as int) =~= want);
    out
}

/// The panes of a chain, as tmux runs them.
pub fn chain_panes(ps: &Vec<PaneSpec>) -> (r: Vec<Pane>)
    ensures
        tmux_panes_view(r@) == spec_chain_panes(panes_view(ps@)),
{
    let ghost want = spec_chain_panes(panes_view(ps@));
    let mut out: Vec<Pane> = Vec::new();
    let mut i: usize = 0;
    while i < ps.len()
        invariant
            i <= ps@.len(),
            want == spec_chain_panes(panes_view(ps@)),
            tmux_panes_view(out@) == want.take(i as int),
        decreases ps.len() - i,
    {
        let p = &ps[i];
        let title = match &p.title {
            Some(t) => Some(escape(t.as_str())),
            None => None,
        };
        let commands = some_strings(&p.commands);
        let q = Pane { index: i, title, commands, split: p.split };
        let ghost before = out@;
        out.push(q);
        assert(tmux_panes_view(out@) =~= tmux_panes_view(before).push(q@));
        assert(want.take(i + 1) =~= want.take(i as int).push(want[i as int]));
        i += 1;
    }
    assert(want.take(ps@.len() as int) =~= want);
    out
}

} // verus!

verus! {

/// `name:window.pane`, the pane by its tmux index.
pub open spec fn spec_pane_target(p: &Project, w: TmuxWindowView, pane: TmuxPaneView) -> Seq<char> {
    spec_window_target(p, w) + seq!['.'] + signed_decimal(pane.index + spec_pane_base_index(p))
}

pub open spec fn spec_set_title_command(p: &Project, w: TmuxWindowView, pane: TmuxPaneView) -> Option<
    Seq<char>,
> {
    match pane.title {
        Some(t) => Some(spec_tmux(p) + " select-pane -t "@ + spec_pane_target(p, w, pane) + " -T "@ + t),
        None => None,
    }
}

pub open spec fn spec_pane_pre_window_command(p: &Project, w: TmuxWindowView, pane: TmuxPaneView) -> Option<
    Seq<char>,
> {
    match spec_pre_window(p) {
        Some(pw) => Some(send_keys_line(p, spec_pane_target(p, w, pane), spec_escape(pw))),
        None => None,
    }
}

pub open spec fn spec_pre_command(p: &Project, w: TmuxWindowView, pane: TmuxPaneView) -> Option<Seq<char>> {
    match w.pre_value {
        Some(pre) => Some(send_keys_line(p, spec_pane_target(p, w, pane), spec_escape(pre))),
        None => None,
    }
}

pub open spec fn spec_main_command(
    p: &Project,
    w: TmuxWindowView,
    pane: TmuxPaneView,
    command: Option<Seq<char>>,
) -> Seq<char> {
    match command {
        Some(c) => send_keys_line(p, spec_pane_target(p, w, pane), spec_escape(c)),
        None => seq![],
    }
}

/// The size tmux gives a pane split off with share `r` left to the
/// existing pane: the rest, in percent, rounded half up.
pub open spec fn new_pane_percent(r: Ratio) -> nat {
    if r.whole == 0 || r.first > r.whole {
        0
    } else {
        ((200 * (r.whole - r.first) + r.whole) / (2 * r.whole as int)) as nat
    }
}

/// The split that creates the pane after `pane` in a chain.
pub open spec fn next_split(w: TmuxWindowView, pane: TmuxPaneView) -> Option<PaneSplit> {
    if w.pane_chain && pane.index + 1 < w.panes.len() {
        w.panes[pane.index + 1int].split
    } else {
        None
    }
}

/// The command that creates the next pane: in a chain, an explicit split
/// of this pane; otherwise a split of the window that a tiled layout then
/// evens out.
pub open spec fn spec_split_command(p: &Project, w: TmuxWindowView, pane: TmuxPaneView) -> Seq<char> {
    match next_split(w, pane) {
        Some(s) => spec_tmux(p) + " splitw "@ + path_option(spec_window_root(p, w)) + seq![' '] + (
        match s.direction {
            SplitDirection::Right => "-h"@,
            SplitDirection::Down => "-v"@,
        }) + " -p "@ + decimal(new_pane_percent(s.ratio)) + " -t "@ + spec_pane_target(p, w, pane),
        None => spec_tmux(p) + " splitw "@ + path_option(spec_window_root(p, w)) + " -t "@
            + spec_window_target(p, w),
    }
}

fn percent_of(r: Ratio) -> (n: u64)
    ensures
        n as nat == new_pane_percent(r),
{
    if r.whole == 0 || r.first > r.whole {
        return 0;
    }
    let whole = r.whole as u128;
    let rest = (r.whole - r.first) as u128;
    let q = (200 * rest + whole) / (2 * whole);
    assert(q <= 100) by (nonlinear_arith)
        requires
            q == (200 * rest + whole) / (2 * whole),
            rest <= whole,
            whole > 0,
    ;
    q as u64
}

impl Pane {
    /// `name:window.pane`, the pane by its tmux index.
    pub fn target(&self, window: &Window, project: &Project) -> (r: String)
        ensures
            r@ == spec_pane_target(project, window@, self@),
    {
        let mut out: Vec<char> = Vec::new();
        extend_str(&mut out, window.target(project).as_str());
        out.push('.');
        let n = self.index as i128 + project.pane_base_index();
        crate::tmux::push_wide(&mut out, n);
        string_of(out.as_slice())
    }

    pub fn set_title_command(&self, window: &Window, project: &Project) -> (r: Option<String>)
        ensures
            opt_str(r) == spec_set_title_command(project, window@, self@),
    {
        match &self.title {
            Some(t) => {
                let mut out: Vec<char> = Vec::new();
                extend_str(&mut out, project.tmux().as_str());
                extend_str(&mut out, " select-pane -t ");
                extend_str(&mut out, self.target(window, project).as_str());
                extend_str(&mut out, " -T ");
                extend_str(&mut out, t.as_str());
                Some(string_of(out.as_slice()))
            },
            None => None,
        }
    }

    pub fn pre_window_command(&self, window: &Window, project: &Project) -> (r: Option<String>)
        ensures
            opt_str(r) == spec_pane_pre_window_command(project, window@, self@),
    {
        match project.pre_window() {
            Some(pw) => {
                let mut out: Vec<char> = Vec::new();
                push_send_keys(&mut out, project, self.target(window, project).as_str(), escape(pw.as_str()).as_str());
                Some(string_of(out.as_slice()))
            },
            None => None,
        }
    }

    pub fn pre_command(&self, window: &Window, project: &Project) -> (r: Option<String>)
        ensures
            opt_str(r) == spec_pre_command(project, window@, self@),
    {
        match &window.pre_value {
            Some(pre) => {
                let mut out: Vec<char> = Vec::new();
                push_send_keys(&mut out, project, self.target(window, project).as_str(), escape(pre.as_str()).as_str());
                Some(string_of(out.as_slice()))
            },
            None => None,
        }
    }

    /// A command line; a missing command is an empty line.
    pub fn main_command(&self, command: Option<&str>, window: &Window, project: &Project) -> (r: String)
        ensures
            r@ == spec_main_command(project, window@, self@, crate::herdr_backend::opt_view(command)),
    {
        match command {
            Some(c) => {
                let mut out: Vec<char> = Vec::new();
                push_send_keys(&mut out, project, self.target(window, project).as_str(), escape(c).as_str());
                string_of(out.as_slice())
            },
            None => {
                let r = String::new();
                assert(r@ =~= Seq::<char>::empty());
                r
            },
        }
    }

    pub fn split_command(&self, window: &Window, project: &Project) -> (r: String)
        ensures
            r@ == spec_split_command(project, window@, self@),
    {
        let split: Option<PaneSplit> = if window.pane_chain && self.index < window.panes.len()
            && self.index + 1 < window.panes.len() {
            window.panes[self.index + 1].split
        } else {
            None
        };
        assert(split == next_split(window@, self@));
        let mut out: Vec<char> = Vec::new();
        extend_str(&mut out, project.tmux().as_str());
        extend_str(&mut out, " splitw ");
        match window.root(project) {
            Some(root) => {
                extend_str(&mut out, "-c ");
                extend_str(&mut out, root.as_str());
            },
            None => {},
        }
        match split {
            Some(s) => {
                out.push(' ');
                match s.direction {
                    SplitDirection::Right => extend_str(&mut out, "-h"),
                    SplitDirection::Down => extend_str(&mut out, "-v"),
                }
                extend_str(&mut out, " -p ");
                crate::zellij::push_decimal(&mut out, percent_of(s.ratio));
                extend_str(&mut out, " -t ");
                extend_str(&mut out, self.target(window, project).as_str());
            },
            None => {
                extend_str(&mut out, " -t ");
                extend_str(&mut out, window.target(project).as_str());
            },
        }
        string_of(out.as_slice())
    }

    /// Whether this is the window's last pane.
    pub fn is_last(&self, window: &Window) -> (r: bool)
        ensures
            r == (self.index + 1 == window.panes@.len()),
    {
        self.index < window.panes.len() && self.index + 1 == window.panes.len()
    }
}

} // verus!
