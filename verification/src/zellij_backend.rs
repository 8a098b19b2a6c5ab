//! The decisions of the zellij backend that need no running zellij: the
//! session a project maps to, and the checks made before any lifecycle
//! work.

use vstd::prelude::*;
use crate::layout::layout_panes;
use crate::pane_chain::{first_unrepresentable, unrepresentable_message, validate_representable};
use crate::process::{debug_char, debug_quote, debug_quote_char, debug_quoted};
use crate::project_spec::{panes_view, spec_effective, spec_layout_tree, windows_view, ProjectSpec, WindowView};
use crate::text::{extend_chars, extend_str, is_ws, string_of, trim, trimmed};

verus! {

/// zellij derives its socket path from the session name, and paths longer
/// than this overflow the platform's socket-path limit.
pub const MAX_SESSION_NAME_LENGTH: usize = 36;

/// A control character (Unicode category Cc).
pub open spec fn is_control(c: char) -> bool {
    (c as u32) <= 0x1f || (0x7f <= (c as u32) && (c as u32) <= 0x9f)
}

/// The first control character of a name.
pub open spec fn first_control(s: Seq<char>) -> Option<char>
    decreases s.len(),
{
    if s.len() == 0 {
        None
    } else if is_control(s[0]) {
        Some(s[0])
    } else {
        first_control(s.drop_first())
    }
}

/// The session a project maps to: its trimmed name, which must be non-empty,
/// at most 36 characters, without `/` and without control characters.
pub open spec fn spec_session_name(name: Seq<char>) -> Result<Seq<char>, Seq<char>> {
    let n = trim(name);
    if n.len() == 0 {
        Err("a zellij session name cannot be empty"@)
    } else if n.len() > MAX_SESSION_NAME_LENGTH {
        Err("zellij session name "@ + debug_quoted(n) + " is "@ + crate::zellij::decimal(n.len())
            + " characters; zellij allows at most 36. Use `-n NAME` or a shorter project name."@)
    } else if n.contains('/') {
        Err("zellij session name "@ + debug_quoted(n) + " cannot contain `/`."@)
    } else {
        match first_control(n) {
            Some(c) => Err("zellij session name "@ + debug_quoted(n)
                + " cannot contain the control character "@ + debug_char(c) + "."@),
            None => Ok(n),
        }
    }
}

/// The zellij session a project maps to. Unlike tmux, zellij needs no `.`
/// or `:` rewritten, but it derives a socket path from the name, so length
/// and path separators are refused rather than silently mangled.
#[verifier::loop_isolation(false)]
pub fn session_name(spec: &ProjectSpec) -> (r: Result<String, String>)
    ensures
        match r {
            Ok(n) => spec_session_name(spec.name@) == Ok::<Seq<char>, Seq<char>>(n@),
            Err(m) => spec_session_name(spec.name@) == Err::<Seq<char>, Seq<char>>(m@),
        },
{
    let n = trimmed(spec.name.as_str());
    let text = string_of(n.as_slice());
    if n.len() == 0 {
        return Err("a zellij session name cannot be empty".to_owned());
    }
    if n.len() > MAX_SESSION_NAME_LENGTH {
        let mut m: Vec<char> = Vec::new();
        extend_str(&mut m, "zellij session name ");
        let q = debug_quote(text.as_str());
        extend_str(&mut m, q.as_str());
        extend_str(&mut m, " is ");
        let d = crate::zellij::decimal_string_u64(n.len() as u64);
        extend_str(&mut m, d.as_str());
        extend_str(
            &mut m,
            " characters; zellij allows at most 36. Use `-n NAME` or a shorter project name.",
        );
        return Err(string_of(m.as_slice()));
    }
    let mut i: usize = 0;
    while i < n.len()
        invariant
            i <= n@.len(),
            forall|j: int| 0 <= j < i ==> n@[j] != '/',
        decreases n.len() - i,
    {
        if n[i] == '/' {
            assert(n@.contains('/')) by {
                assert(n@[i as int] == '/');
            }
            let mut m: Vec<char> = Vec::new();
            extend_str(&mut m, "zellij session name ");
            let q = debug_quote(text.as_str());
            extend_str(&mut m, q.as_str());
            extend_str(&mut m, " cannot contain `/`.");
            return Err(string_of(m.as_slice()));
        }
        i += 1;
    }
    let mut k: usize = 0;
    assert(n@.skip(0) == n@);
    while k < n.len()
        invariant
            k <= n@.len(),
            first_control(n@) == first_control(n@.skip(k as int)),
        decreases n.len() - k,
    {
        let ghost rest = n@.skip(k as int);
        assert(rest[0] == n@[k as int]);
        let c = n[k];
        let u = c as u32;
        if u <= 0x1f || (0x7f <= u && u <= 0x9f) {
            let mut m: Vec<char> = Vec::new();
            extend_str(&mut m, "zellij session name ");
            let q = debug_quote(text.as_str());
            extend_str(&mut m, q.as_str());
            extend_str(&mut m, " cannot contain the control character ");
            let d = debug_quote_char(c);
            extend_str(&mut m, d.as_str());
            extend_str(&mut m, ".");
            return Err(string_of(m.as_slice()));
        }
        assert(rest.drop_first() == n@.skip(k + 1));
        k += 1;
    }
    assert(n@.skip(n@.len() as int) =~= Seq::<char>::empty());
    Ok(text)
}

/// Refuses a layout share that zellij's whole-percent sizes cannot express.
pub fn validate_ratios(layout: &crate::layout::Layout) -> (r: Result<(), String>)
    ensures
        match first_unrepresentable(*layout) {
            None => r is Ok,
            Some(x) => r matches Err(m) && m@ == unrepresentable_message(x, "zellij"@),
        },
{
    validate_representable(layout, "zellij")
}

/// `{:?}` of a window name.
pub open spec fn debug_name(name: Option<Seq<char>>) -> Seq<char> {
    match name {
        Some(n) => "Some("@ + debug_quoted(n) + ")"@,
        None => "None"@,
    }
}

pub(crate) fn debug_window_name(name: &Option<String>) -> (r: String)
    ensures
        r@ == debug_name(crate::project_spec::opt_str(*name)),
{
    match name {
        Some(n) => {
            let mut m: Vec<char> = Vec::new();
            extend_str(&mut m, "Some(");
            let q = debug_quote(n.as_str());
            extend_str(&mut m, q.as_str());
            extend_str(&mut m, ")");
            string_of(m.as_slice())
        },
        None => "None".to_owned(),
    }
}

/// The check of one window before any lifecycle work: its layout must
/// resolve, hold as many panes as the window opens, and use only shares the
/// backend can represent.
pub open spec fn spec_window_check(w: WindowView, backend: Seq<char>) -> Result<(), Seq<char>> {
    let n = spec_effective(w.panes, w.commands).len();
    match spec_layout_tree(w) {
        Err(e) => Err(e),
        Ok(tree) => if layout_panes(tree).len() != n {
            Err("window "@ + debug_name(w.name) + " layout contains "@ + crate::zellij::decimal(
                layout_panes(tree).len(),
            ) + " panes but "@ + crate::zellij::decimal(n) + " panes are configured."@)
        } else {
            match first_unrepresentable(tree) {
                Some(x) => Err(unrepresentable_message(x, backend)),
                None => Ok(()),
            }
        },
    }
}

/// The first window that fails its check.
pub open spec fn spec_windows_check(ws: Seq<WindowView>, backend: Seq<char>) -> Result<(), Seq<char>>
    decreases ws.len(),
{
    if ws.len() == 0 {
        Ok(())
    } else {
        match spec_window_check(ws[0], backend) {
            Err(e) => Err(e),
            Ok(_) => spec_windows_check(ws.drop_first(), backend),
        }
    }
}

/// Checks every window of a project before any lifecycle work.
pub fn check_windows(spec: &ProjectSpec, backend: &str) -> (r: Result<(), String>)
    ensures
        match r {
            Ok(_) => spec_windows_check(windows_view(spec.windows@), backend@) is Ok,
            Err(m) => spec_windows_check(windows_view(spec.windows@), backend@) == Err::<
                (),
                Seq<char>,
            >(m@),
        },
{
    let ghost ws = windows_view(spec.windows@);
    let mut i: usize = 0;
    assert(ws.skip(0) == ws);
    while i < spec.windows.len()
        invariant
            i <= ws.len(),
            ws == windows_view(spec.windows@),
            spec_windows_check(ws, backend@) == spec_windows_check(ws.skip(i as int), backend@),
        decreases spec.windows.len() - i,
    {
        let ghost rest = ws.skip(i as int);
        assert(rest[0] == spec.windows@[i as int]@);
        let window = &spec.windows[i];
        let pane_count = if window.panes.len() == 0 {
            1
        } else {
            window.panes.len()
        };
        let tree = match window.layout_tree() {
            Ok(t) => t,
            Err(e) => {
                return Err(e);
            },
        };
        let count = tree.pane_count();
        if count != pane_count {
            let mut m: Vec<char> = Vec::new();
            extend_str(&mut m, "window ");
            let d = debug_window_name(&window.name);
            extend_str(&mut m, d.as_str());
            extend_str(&mut m, " layout contains ");
            let a = crate::zellij::decimal_string_u64(count as u64);
            extend_str(&mut m, a.as_str());
            extend_str(&mut m, " panes but ");
            let b = crate::zellij::decimal_string_u64(pane_count as u64);
            extend_str(&mut m, b.as_str());
            extend_str(&mut m, " panes are configured.");
            return Err(string_of(m.as_slice()));
        }
        match validate_representable(&tree, backend) {
            Err(e) => {
                return Err(e);
            },
            Ok(()) => {},
        }
        assert(rest.drop_first() == ws.skip(i + 1));
        i += 1;
    }
    assert(ws.skip(ws.len() as int) =~= Seq::<WindowView>::empty());
    Ok(())
}

} // verus!

verus! {

/// Where a pane sorts: by tab when `by_tab`, then top to bottom, then left
/// to right.
pub open spec fn pane_key(p: crate::zellij::PaneInfo, by_tab: bool) -> (int, int, int) {
    (if by_tab {
        p.tab_position as int
    } else {
        0
    }, p.pane_y as int, p.pane_x as int)
}

pub open spec fn key_le(a: (int, int, int), b: (int, int, int)) -> bool {
    a.0 < b.0 || (a.0 == b.0 && (a.1 < b.1 || (a.1 == b.1 && a.2 <= b.2)))
}

pub open spec fn panes_sorted(ps: Seq<crate::zellij::PaneInfo>, by_tab: bool) -> bool {
    forall|i: int, j: int|
        0 <= i < j < ps.len() ==> key_le(pane_key(#[trigger] ps[i], by_tab), pane_key(#[trigger] ps[j], by_tab))
}

fn pane_le(a: &crate::zellij::PaneInfo, b: &crate::zellij::PaneInfo, by_tab: bool) -> (r: bool)
    ensures
        r == key_le(pane_key(*a, by_tab), pane_key(*b, by_tab)),
{
    let (at, bt) = if by_tab {
        (a.tab_position, b.tab_position)
    } else {
        (0, 0)
    };
    at < bt || (at == bt && (a.pane_y < b.pane_y || (a.pane_y == b.pane_y && a.pane_x <= b.pane_x)))
}

/// Sorts panes by [`pane_key`]; panes with equal keys keep their order.
pub fn sort_panes(panes: Vec<crate::zellij::PaneInfo>, by_tab: bool) -> (r: Vec<crate::zellij::PaneInfo>)
    ensures
        panes_sorted(r@, by_tab),
        r@.to_multiset() == panes@.to_multiset(),
{
    let mut out: Vec<crate::zellij::PaneInfo> = Vec::new();
    let mut i: usize = 0;
    assert(out@ =~= panes@.take(0));
    while i < panes.len()
        invariant
            i <= panes@.len(),
            panes_sorted(out@, by_tab),
            out@.to_multiset() == panes@.take(i as int).to_multiset(),
        decreases panes.len() - i,
    {
        let x = panes[i].duplicate();
        let ghost v = out@;
        let mut p: usize = 0;
        while p < out.len() && pane_le(&out[p], &x, by_tab)
            invariant
                p <= out@.len(),
                v == out@,
                forall|k: int| 0 <= k < p ==> key_le(pane_key(#[trigger] v[k], by_tab), pane_key(x, by_tab)),
            decreases out.len() - p,
        {
            p += 1;
        }
        out.insert(p, x);
        proof {
            assert forall|a: int, b: int| 0 <= a < b < out@.len() implies key_le(
                pane_key(#[trigger] out@[a], by_tab),
                pane_key(#[trigger] out@[b], by_tab),
            ) by {
                if b < p {
                    assert(out@[a] == v[a] && out@[b] == v[b]);
                } else if b == p {
                    assert(out@[b] == x && out@[a] == v[a]);
                } else if a == p {
                    assert(out@[a] == x && out@[b] == v[b - 1]);
                    assert(!key_le(pane_key(v[p as int], by_tab), pane_key(x, by_tab)));
                } else if a < p {
                    assert(out@[a] == v[a] && out@[b] == v[b - 1]);
                } else {
                    assert(out@[a] == v[a - 1] && out@[b] == v[b - 1]);
                }
            }
            vstd::seq_lib::to_multiset_insert(v, p as int, x);
            let t = panes@.take(i + 1);
            assert(t =~= panes@.take(i as int).push(panes@[i as int]));
            vstd::seq_lib::to_multiset_build(panes@.take(i as int), panes@[i as int]);
        }
        i += 1;
    }
    assert(panes@.take(panes@.len() as int) == panes@);
    out
}

} // verus!

verus! {

pub open spec fn terminal(p: crate::zellij::PaneInfo) -> bool {
    !p.is_plugin && !p.is_floating && !p.is_suppressed
}

pub open spec fn pane_target(p: crate::zellij::PaneInfo) -> Seq<char> {
    "terminal_"@ + crate::zellij::decimal(p.id as nat)
}

/// Sorted panes grouped by tab: a new group starts wherever the tab
/// changes.
pub open spec fn spec_groups(ps: Seq<crate::zellij::PaneInfo>) -> Seq<Seq<Seq<char>>>
    decreases ps.len(),
{
    if ps.len() == 0 {
        seq![]
    } else {
        let g = spec_groups(ps.drop_last());
        if ps.len() > 1 && ps[ps.len() - 2].tab_position == ps.last().tab_position {
            g.update(g.len() - 1, g.last().push(pane_target(ps.last())))
        } else {
            g.push(seq![pane_target(ps.last())])
        }
    }
}

proof fn lemma_groups_len(ps: Seq<crate::zellij::PaneInfo>)
    ensures
        ps.len() > 0 ==> spec_groups(ps).len() > 0,
    decreases ps.len(),
{
    if ps.len() > 0 {
        lemma_groups_len(ps.drop_last());
    }
}

/// A terminal pane, of tab `tab` when one is given.
pub open spec fn keep_pane(p: crate::zellij::PaneInfo, tab: Option<u32>) -> bool {
    terminal(p) && match tab {
        Some(t) => p.tab_id == t,
        None => true,
    }
}

fn only_terminals(panes: Vec<crate::zellij::PaneInfo>, tab: Option<u32>) -> (r: Vec<crate::zellij::PaneInfo>)
    ensures
        r@ == panes@.filter(|p: crate::zellij::PaneInfo| keep_pane(p, tab)),
{
    let ghost f = |p: crate::zellij::PaneInfo| keep_pane(p, tab);
    let mut out: Vec<crate::zellij::PaneInfo> = Vec::new();
    let mut i: usize = 0;
    assert(panes@.take(0).filter(f) =~= Seq::<crate::zellij::PaneInfo>::empty());
    while i < panes.len()
        invariant
            i <= panes@.len(),
            f == (|p: crate::zellij::PaneInfo| keep_pane(p, tab)),
            out@ == panes@.take(i as int).filter(f),
        decreases panes.len() - i,
    {
        let keep = panes[i].is_ordinary_terminal() && match tab {
            Some(t) => panes[i].tab_id == t,
            None => true,
        };
        proof {
            let t = panes@.take(i + 1);
            assert(t.drop_last() == panes@.take(i as int));
            assert(t.last() == panes@[i as int]);
            reveal(Seq::filter);
        }
        if keep {
            out.push(panes[i].duplicate());
        }
        i += 1;
    }
    assert(panes@.take(panes@.len() as int) == panes@);
    out
}

/// The session's terminal panes grouped by tab, each tab's panes in the
/// order the config lists them: tabs by position, panes top to bottom then
/// left to right (zellij lays panes out that way, and a shell may rename
/// any pane, so titles cannot be used).
pub fn group_panes(panes: Vec<crate::zellij::PaneInfo>) -> (r: Vec<Vec<String>>)
    ensures
        ({
            let kept = panes@.filter(|p: crate::zellij::PaneInfo| keep_pane(p, None));
            exists|sorted: Seq<crate::zellij::PaneInfo>|
                panes_sorted(sorted, true) && sorted.to_multiset() == kept.to_multiset()
                    && r@.map_values(|g: Vec<String>| g@.map_values(|s: String| s@)) == spec_groups(sorted)
        }),
{
    let kept = only_terminals(panes, None);
    let sorted = sort_panes(kept, true);
    let mut tabs: Vec<Vec<String>> = Vec::new();
    let mut i: usize = 0;
    while i < sorted.len()
        invariant
            i <= sorted@.len(),
            tabs@.map_values(|g: Vec<String>| g@.map_values(|s: String| s@)) == spec_groups(sorted@.take(i as int)),
        decreases sorted.len() - i,
    {
        let ghost t = sorted@.take(i + 1);
        assert(t.drop_last() == sorted@.take(i as int));
        assert(t.last() == sorted@[i as int]);
        let ghost before = tabs@.map_values(|g: Vec<String>| g@.map_values(|s: String| s@));
        let target = sorted[i].target();
        if i > 0 && sorted[i - 1].tab_position == sorted[i].tab_position {
            assert(t[t.len() - 2] == sorted@[i - 1]);
            proof {
                lemma_groups_len(sorted@.take(i as int));
            }
            let ghost old_tabs = tabs@;
            let mut group = tabs.pop().unwrap();
            assert(group == old_tabs.last());
            assert(tabs@ == old_tabs.drop_last());
            let ghost g0 = group@;
            group.push(target);
            tabs.push(group);
            assert(tabs@ == old_tabs.drop_last().push(group));
            assert(group@.map_values(|s: String| s@) =~= g0.map_values(|s: String| s@).push(target@));
            assert(tabs@.map_values(|g: Vec<String>| g@.map_values(|s: String| s@)) =~= before.update(
                before.len() - 1,
                before.last().push(target@),
            ));
        } else {
            let mut group: Vec<String> = Vec::new();
            group.push(target);
            assert(group@.map_values(|s: String| s@) =~= seq![target@]);
            let ghost old_tabs = tabs@;
            tabs.push(group);
            assert(tabs@ == old_tabs.push(group));
            assert(tabs@.map_values(|g: Vec<String>| g@.map_values(|s: String| s@)) =~= before.push(
                seq![target@],
            ));
        }
        i += 1;
    }
    assert(sorted@.take(sorted@.len() as int) == sorted@);
    tabs
}

} // verus!

verus! {

/// The panes of an appended tab once it reports `expected` terminal
/// panes, in configured order (top to bottom, then left to right); else
/// how many it reports.
pub fn tab_panes(panes: Vec<crate::zellij::PaneInfo>, tab_id: u32, expected: usize) -> (r: Result<
    Vec<String>,
    usize,
>)
    ensures
        ({
            let kept = panes@.filter(|p: crate::zellij::PaneInfo| keep_pane(p, Some(tab_id)));
            match r {
                Ok(targets) => kept.len() == expected && exists|sorted: Seq<crate::zellij::PaneInfo>|
                    panes_sorted(sorted, false) && sorted.to_multiset() == kept.to_multiset()
                        && targets@.map_values(|s: String| s@) == sorted.map_values(
                        |p: crate::zellij::PaneInfo| pane_target(p),
                    ),
                Err(n) => kept.len() != expected && n == kept.len(),
            }
        }),
{
    let kept = only_terminals(panes, Some(tab_id));
    if kept.len() != expected {
        return Err(kept.len());
    }
    let sorted = sort_panes(kept, false);
    let mut targets: Vec<String> = Vec::new();
    let mut i: usize = 0;
    while i < sorted.len()
        invariant
            i <= sorted@.len(),
            targets@.map_values(|s: String| s@) == sorted@.take(i as int).map_values(
                |p: crate::zellij::PaneInfo| pane_target(p),
            ),
        decreases sorted.len() - i,
    {
        let t = sorted[i].target();
        let ghost before = targets@;
        targets.push(t);
        assert(sorted@.take(i + 1) =~= sorted@.take(i as int).push(sorted@[i as int]));
        assert(targets@.map_values(|s: String| s@) =~= before.map_values(|s: String| s@).push(t@));
        assert(targets@.map_values(|s: String| s@) =~= sorted@.take(i + 1).map_values(
            |p: crate::zellij::PaneInfo| pane_target(p),
        ));
        i += 1;
    }
    assert(sorted@.take(sorted@.len() as int) == sorted@);
    Ok(targets)
}

/// Why an appended tab is given up on.
pub fn tab_panes_message(tab_id: u32, found: usize, expected: usize) -> (r: String)
    ensures
        r@ == "appended zellij tab "@ + crate::zellij::decimal(tab_id as nat) + " settled with "@
            + crate::zellij::decimal(found as nat) + " panes but "@ + crate::zellij::decimal(
            expected as nat,
        ) + " are configured"@,
{
    let mut m: Vec<char> = Vec::new();
    extend_str(&mut m, "appended zellij tab ");
    crate::zellij::push_decimal(&mut m, tab_id as u64);
    extend_str(&mut m, " settled with ");
    crate::zellij::push_decimal(&mut m, found as u64);
    extend_str(&mut m, " panes but ");
    crate::zellij::push_decimal(&mut m, expected as u64);
    extend_str(&mut m, " are configured");
    string_of(m.as_slice())
}

/// How the client is brought to a project's session.
#[derive(Debug, PartialEq, Eq)]
pub enum FocusStep {
    /// Nothing to do: the project does not attach, or this is its session.
    Stay,
    /// Switch the zellij client of the named session over.
    Switch(String),
    /// Attach this terminal to the session.
    Attach,
}

/// `$ZELLIJ_SESSION_NAME` when it is set and not empty.
pub open spec fn current_session(env: crate::env::Env) -> Option<Seq<char>> {
    match crate::env::lookup(env.all@, "ZELLIJ_SESSION_NAME"@) {
        Some(v) => if v.len() > 0 {
            Some(v)
        } else {
            None
        },
        None => None,
    }
}

/// What bringing the client to `session` takes.
pub fn focus_step(env: &crate::env::Env, session: &str, attach: bool) -> (r: FocusStep)
    ensures
        !attach ==> r == FocusStep::Stay,
        attach ==> match current_session(*env) {
            Some(c) => if c == session@ {
                r == FocusStep::Stay
            } else {
                r matches FocusStep::Switch(s) && s@ == c
            },
            None => r == FocusStep::Attach,
        },
{
    if !attach {
        return FocusStep::Stay;
    }
    match env.var("ZELLIJ_SESSION_NAME") {
        Some(current) => {
            if current.as_str().is_empty() {
                FocusStep::Attach
            } else if crate::text::str_eq(current.as_str(), session) {
                FocusStep::Stay
            } else {
                FocusStep::Switch(current.clone())
            }
        },
        None => FocusStep::Attach,
    }
}

/// Brings the client to the project's session, switching a client that
/// runs in another session over; `Ok(true)` when this terminal still has
/// to attach (which replaces the process, so the caller does it).
pub fn focus_session<R: crate::process::CommandRunner>(
    env: &crate::env::Env,
    client: &crate::zellij::Zellij<R>,
    session: &str,
    attach: bool,
) -> (r: Result<bool, String>)
    ensures
        !attach ==> r == Ok::<bool, String>(false),
        attach && current_session(*env) == Some(session@) ==> r == Ok::<bool, String>(false),
        attach && current_session(*env) is None ==> r == Ok::<bool, String>(true),
        r matches Ok(a) ==> !a || (attach && current_session(*env) is None),
        r matches Err(m) ==> m@.len() >= 36 && m@.take(36) == "failed to switch to zellij session \""@,
{
    match focus_step(env, session, attach) {
        FocusStep::Stay => Ok(false),
        FocusStep::Attach => Ok(true),
        FocusStep::Switch(current) => match client.switch_session(current.as_str(), session) {
            Ok(()) => Ok(false),
            Err(_) => {
                let mut m: Vec<char> = Vec::new();
                extend_str(&mut m, "failed to switch to zellij session \"");
                extend_str(&mut m, session);
                extend_str(&mut m, "\"");
                proof {
                    reveal_strlit("failed to switch to zellij session \"");
                }
                assert(m@.take(36) =~= "failed to switch to zellij session \""@);
                Err(string_of(m.as_slice()))
            },
        },
    }
}

/// Closes the tabs an aborted append created, newest first; `None` when
/// every one closed, else what could not be closed.
pub fn rollback_tabs<R: crate::process::CommandRunner>(
    client: &crate::zellij::Zellij<R>,
    session: &str,
    tabs: &[u32],
) -> (r: Option<String>)
    ensures
        tabs@.len() == 0 ==> r is None,
        r matches Some(m) ==> m@.len() >= 32 && m@.take(32) == "append rollback was incomplete ("@,
{
    let mut failures: Vec<char> = Vec::new();
    let mut any = false;
    let mut k: usize = tabs.len();
    while k > 0
        invariant
            k <= tabs@.len(),
            tabs@.len() == 0 ==> !any,
        decreases k,
    {
        let tab = tabs[k - 1];
        match client.close_tab(session, tab) {
            Ok(()) => {},
            Err(error) => {
                if any {
                    extend_str(&mut failures, "; ");
                }
                extend_str(&mut failures, "tab ");
                crate::zellij::push_decimal(&mut failures, tab as u64);
                extend_str(&mut failures, ": ");
                extend_str(&mut failures, error.message().as_str());
                any = true;
            },
        }
        k -= 1;
    }
    if !any {
        return None;
    }
    let mut m: Vec<char> = Vec::new();
    extend_str(&mut m, "append rollback was incomplete (");
    extend_chars(&mut m, failures.as_slice());
    extend_str(&mut m, ")");
    proof {
        reveal_strlit("append rollback was incomplete (");
    }
    assert(m@.take(32) =~= "append rollback was incomplete ("@);
    Some(string_of(m.as_slice()))
}

/// What a pane is typed, in order: the project's `pre_window`, the
/// window's `pre`, then the pane's own commands.
pub open spec fn pane_commands_of(pre_window: Option<Seq<char>>, pre: Option<Seq<char>>, own: Seq<Seq<char>>) -> Seq<
    Seq<char>,
> {
    (match pre_window {
        Some(c) => seq![c],
        None => seq![],
    }) + (match pre {
        Some(c) => seq![c],
        None => seq![],
    }) + own
}

/// How a command that could not be typed is reported.
pub open spec fn run_failure_message(command: Seq<char>, window_index: nat, pane_index: nat) -> Seq<char> {
    "failed to run `"@ + command + "` in tab "@ + crate::zellij::decimal(window_index) + " pane "@
        + crate::zellij::decimal(pane_index)
}

/// Types each pane's commands into its shell, in the order the tmux
/// backend sends them: the project's `pre_window`, the window's `pre`, then
/// the pane's own commands. `pane_ids` are the window's panes in configured
/// order. With nothing to type it succeeds; a failure names the command and
/// the pane.
#[verifier::loop_isolation(false)]
pub fn run_pane_commands<R: crate::process::CommandRunner>(
    client: &crate::zellij::Zellij<R>,
    session: &str,
    spec: &ProjectSpec,
    window_index: usize,
    pane_ids: &Vec<String>,
) -> (r: Result<(), String>)
    requires
        window_index < spec.windows@.len(),
        pane_ids@.len() >= spec_effective(spec.windows@[window_index as int]@.panes, spec.windows@[window_index as int]@.commands).len(),
    ensures
        ({
            let w = spec@.windows[window_index as int];
            let panes = spec_effective(w.panes, w.commands);
            &&& (forall|q: int| 0 <= q < panes.len() ==> #[trigger] pane_commands_of(spec@.pre_window, w.pre, panes[q].commands).len() == 0)
                ==> r is Ok
            &&& r matches Err(m) ==> exists|q: int, k: int|
                0 <= q < panes.len() && 0 <= k < pane_commands_of(spec@.pre_window, w.pre, panes[q].commands).len()
                    && m@ == run_failure_message(
                    #[trigger] pane_commands_of(spec@.pre_window, w.pre, panes[q].commands)[k],
                    window_index as nat,
                    q as nat,
                )
        }),
{
    let window = &spec.windows[window_index];
    let panes = window.effective_panes();
    let ghost w = spec@.windows[window_index as int];
    assert(w == window@);
    let ghost pv = spec_effective(w.panes, w.commands);
    assert(panes_view(panes@) == pv);
    let mut p: usize = 0;
    while p < panes.len()
        invariant
            p <= panes@.len(),
            panes@.len() <= pane_ids@.len(),
            w == window@,
            w == spec@.windows[window_index as int],
            panes_view(panes@) == pv,
            pv == spec_effective(w.panes, w.commands),
        decreases panes.len() - p,
    {
        let pane_id = pane_ids[p].as_str();
        let ghost list = pane_commands_of(spec@.pre_window, w.pre, pv[p as int].commands);
        assert(pv[p as int] == panes@[p as int]@);
        let mut commands: Vec<&str> = Vec::new();
        match &spec.pre_window {
            Some(c) => commands.push(c.as_str()),
            None => {},
        }
        match &window.pre {
            Some(c) => commands.push(c.as_str()),
            None => {},
        }
        let ghost head = commands@.map_values(|c: &str| c@);
        assert(head =~= (match spec@.pre_window {
            Some(c) => seq![c],
            None => seq![],
        }) + (match w.pre {
            Some(c) => seq![c],
            None => seq![],
        }));
        let own = &panes[p].commands;
        let mut j: usize = 0;
        while j < own.len()
            invariant
                j <= own@.len(),
                commands@.map_values(|c: &str| c@) == head + own@.take(j as int).map_values(|c: String| c@),
            decreases own@.len() - j,
        {
            let ghost before = commands@;
            let c = own[j].as_str();
            commands.push(c);
            assert(commands@ == before.push(c));
            assert(commands@.map_values(|c: &str| c@) =~= before.map_values(|c: &str| c@).push(own@[j as int]@));
            assert(own@.take(j + 1) =~= own@.take(j as int).push(own@[j as int]));
            assert(commands@.map_values(|c: &str| c@) =~= head + own@.take(j + 1).map_values(|c: String| c@));
            j += 1;
        }
        assert(own@.take(own@.len() as int) =~= own@);
        assert(commands@.map_values(|c: &str| c@) =~= list);
        let mut k: usize = 0;
        while k < commands.len()
            invariant
                k <= commands@.len(),
                commands@.map_values(|c: &str| c@) == list,
            decreases commands@.len() - k,
        {
            let command = commands[k];
            assert(list[k as int] == command@);
            match client.run_in_pane(session, pane_id, command) {
                Ok(()) => {},
                Err(_) => {
                    let mut m: Vec<char> = Vec::new();
                    extend_str(&mut m, "failed to run `");
                    extend_str(&mut m, command);
                    extend_str(&mut m, "` in tab ");
                    crate::zellij::push_decimal(&mut m, window_index as u64);
                    extend_str(&mut m, " pane ");
                    crate::zellij::push_decimal(&mut m, p as u64);
                    assert(m@ =~= run_failure_message(list[k as int], window_index as nat, p as nat));
                    proof {
                        assert(pane_commands_of(spec@.pre_window, w.pre, pv[p as int].commands) == list);
                        assert(list.len() > 0);
                        assert(0 <= (p as int) < pv.len() && 0 <= (k as int) < list.len());
                    }
                    return Err(string_of(m.as_slice()));
                },
            }
            k += 1;
        }
        p += 1;
    }
    Ok(())
}


/// What stopping a zellij session reports: the session is killed whatever
/// the stop hook did, and the hook's failure is reported first.
pub open spec fn spec_stop_outcome(session: Seq<char>, hook: Result<(), Seq<char>>, kill: Result<(), Seq<char>>) -> Result<
    (),
    Seq<char>,
> {
    match hook {
        Err(h) => Err("on_project_stop hook failed: "@ + h),
        Ok(()) => match kill {
            Err(k) => Err("failed to stop zellij session "@ + debug_quoted(session) + ": "@ + k),
            Ok(()) => Ok(()),
        },
    }
}

/// The result of stopping a session, from what the stop hook and the kill
/// gave (the kill's error as its message).
pub fn stop_outcome(session: &str, hook: Result<(), String>, kill: Result<(), String>) -> (r: Result<(), String>)
    ensures
        spec_stop_outcome(
            session@,
            match hook {
                Ok(()) => Ok::<(), Seq<char>>(()),
                Err(h) => Err::<(), Seq<char>>(h@),
            },
            match kill {
                Ok(()) => Ok::<(), Seq<char>>(()),
                Err(k) => Err::<(), Seq<char>>(k@),
            },
        ) == match r {
            Ok(()) => Ok::<(), Seq<char>>(()),
            Err(m) => Err::<(), Seq<char>>(m@),
        },
{
    match hook {
        Err(h) => {
            let mut m: Vec<char> = Vec::new();
            extend_str(&mut m, "on_project_stop hook failed: ");
            extend_str(&mut m, h.as_str());
            Err(string_of(m.as_slice()))
        },
        Ok(()) => match kill {
            Err(k) => {
                let mut m: Vec<char> = Vec::new();
                extend_str(&mut m, "failed to stop zellij session ");
                let q = debug_quote(session);
                extend_str(&mut m, q.as_str());
                extend_str(&mut m, ": ");
                extend_str(&mut m, k.as_str());
                Err(string_of(m.as_slice()))
            },
            Ok(()) => Ok(()),
        },
    }
}

} // verus!
