//! The plan `debug` shows for the Herdr backend: what a start would do,
//! worked out without contacting a server.

use vstd::prelude::*;
use crate::herdr::EndpointView;
use crate::herdr_backend::{describe_endpoint, layout_for, preflight_spec, spec_describe_endpoint};
use crate::layout::{layout_panes, Layout, Ratio};
use crate::process::{debug_quote, debug_quoted};
use crate::project_spec::{opt_str, spec_effective, spec_layout_tree, PaneView, ProjectSpec, ProjectView, WindowView};
use crate::text::{extend_str, string_of};
use crate::zellij::{decimal, push_decimal};

verus! {

pub open spec fn bool_text(b: bool) -> Seq<char> {
    if b {
        "true"@
    } else {
        "false"@
    }
}

/// `{:?}` of an optional name.
pub open spec fn opt_debug(o: Option<Seq<char>>) -> Seq<char> {
    match o {
        Some(s) => "Some("@ + debug_quoted(s) + ")"@,
        None => "None"@,
    }
}

/// A number below ten thousand in four digits.
pub open spec fn four_digits(k: nat) -> Seq<char> {
    if k < 10 {
        "000"@ + decimal(k)
    } else if k < 100 {
        "00"@ + decimal(k)
    } else if k < 1000 {
        "0"@ + decimal(k)
    } else {
        decimal(k)
    }
}

/// A split's share, rounded half up to four decimals.
pub open spec fn ratio_text(r: Ratio) -> Seq<char> {
    if r.whole == 0 {
        if r.first == 0 {
            "NaN"@
        } else {
            "inf"@
        }
    } else {
        let n = (20000 * (r.first as nat) + r.whole as nat) / (2 * (r.whole as nat));
        decimal(n / 10000) + "."@ + four_digits(n % 10000)
    }
}

/// The lines that show a split tree, each level indented two more spaces.
pub open spec fn layout_lines(l: Layout, indent: Seq<char>) -> Seq<Seq<char>>
    decreases l,
{
    match l {
        Layout::Pane(i) => seq![indent + "pane["@ + decimal(i as nat) + "]"@],
        Layout::Split { direction, ratio, first, second } => seq![
            indent + "split "@ + crate::layout::spec_direction_name(direction) + " ratio="@ + ratio_text(
                ratio,
            ),
        ] + layout_lines(*first, indent + "  "@) + layout_lines(*second, indent + "  "@),
    }
}

/// The lines of one pane: its label, when it has one, and how many
/// commands it is typed.
pub open spec fn pane_lines(q: nat, pane: PaneView, prefix: nat) -> Seq<Seq<char>> {
    (match pane.title {
        Some(t) => seq!["      pane["@ + decimal(q) + "] label="@ + debug_quoted(t)],
        None => seq![],
    }) + seq!["      pane["@ + decimal(q) + "] commands="@ + decimal(prefix + pane.commands.len())]
}

pub open spec fn panes_lines(panes: Seq<PaneView>, prefix: nat) -> Seq<Seq<char>>
    decreases panes.len(),
{
    if panes.len() == 0 {
        seq![]
    } else {
        panes_lines(panes.drop_last(), prefix) + pane_lines((panes.len() - 1) as nat, panes.last(), prefix)
    }
}

/// How many commands every pane of a window is typed first.
pub open spec fn prefix_count(p: ProjectView, w: WindowView) -> nat {
    (if p.pre_window is Some {
        1nat
    } else {
        0nat
    }) + (if w.pre is Some {
        1nat
    } else {
        0nat
    })
}

/// The lines of one tab of the plan.
pub open spec fn window_lines(p: ProjectView, i: nat, w: WindowView, l: Layout) -> Seq<Seq<char>> {
    seq![
        "  - tab["@ + decimal(i) + "] "@ + opt_debug(w.name) + " cwd="@ + w.root + " panes="@ + decimal(
            layout_panes(l).len(),
        ),
    ] + layout_lines(l, "      "@) + panes_lines(spec_effective(w.panes, w.commands), prefix_count(p, w))
}

pub open spec fn windows_lines(p: ProjectView, ws: Seq<WindowView>) -> Seq<Seq<char>>
    decreases ws.len(),
{
    if ws.len() == 0 {
        seq![]
    } else {
        windows_lines(p, ws.drop_last()) + window_lines(
            p,
            (ws.len() - 1) as nat,
            ws.last(),
            spec_layout_tree(ws.last())->Ok_0,
        )
    }
}

pub open spec fn when_line(cond: bool, line: Seq<char>) -> Seq<Seq<char>> {
    if cond {
        seq![line]
    } else {
        seq![]
    }
}

/// The pane the startup tab ends on.
pub open spec fn startup_pane_of(p: ProjectView) -> nat {
    match p.startup_pane {
        Some(q) => q,
        None => if p.startup_window < p.windows.len() {
            p.windows[p.startup_window as int].focused_pane
        } else {
            0
        },
    }
}

pub open spec fn warning_lines(p: ProjectView) -> Seq<Seq<char>> {
    p.warnings.map_values(|w: Seq<char>| "warning: "@ + w)
}

/// The header of the plan.
pub open spec fn head_fixed(p: ProjectView, e: EndpointView) -> Seq<Seq<char>> {
    seq![
        "backend: herdr"@,
        "endpoint: "@ + spec_describe_endpoint(e),
        "project: "@ + p.name,
        "config: "@ + p.source_path,
        "root: "@ + p.root,
        "attach: "@ + bool_text(p.attach),
        "append: "@ + bool_text(p.append),
        "plan:"@,
        "  - ensure compatible Herdr >= 0.7.5 / protocol 17 or 19 server"@,
    ]
}

/// The steps before the tabs.
pub open spec fn head_steps(p: ProjectView) -> Seq<Seq<char>> {
    (if p.append {
        seq!["  - require the active Herdr workspace and append tabs"@]
    } else {
        seq![
            "  - resolve managed workspace by state ID"@,
            "  - recover only one exact label + root match; otherwise fail closed"@,
            "  - create workspace if no managed or adoptable workspace exists"@,
        ]
    }) + when_line(p.hooks.start is Some, "  - run on_project_start"@) + when_line(
        p.hooks.first_start is Some,
        "  - on create: run on_project_first_start"@,
    ) + when_line(p.hooks.restart is Some, "  - on reuse: run on_project_restart"@)
}

pub open spec fn plan_head(p: ProjectView, e: EndpointView) -> Seq<Seq<char>> {
    head_fixed(p, e) + head_steps(p)
}

/// The steps after the tabs.
pub open spec fn plan_tail(p: ProjectView) -> Seq<Seq<char>> {
    seq![
        "  - select tab["@ + decimal(p.startup_window) + "] pane["@ + decimal(startup_pane_of(p)) + "]"@
            + if p.attach {
            " and attach/focus"@
        } else {
            " without keeping global focus"@
        },
    ] + when_line(p.hooks.exit is Some, "  - run on_project_exit"@)
}

/// The plan, line by line.
pub open spec fn plan_lines(p: ProjectView, e: EndpointView) -> Seq<Seq<char>> {
    warning_lines(p) + plan_head(p, e) + windows_lines(p, p.windows) + plan_tail(p)
}

/// Lines as text, each ended by a newline.
pub open spec fn lines_text(ls: Seq<Seq<char>>) -> Seq<char>
    decreases ls.len(),
{
    if ls.len() == 0 {
        seq![]
    } else {
        lines_text(ls.drop_last()) + ls.last() + "\n"@
    }
}

pub open spec fn strings_of(v: Seq<String>) -> Seq<Seq<char>> {
    v.map_values(|s: String| s@)
}

fn push_line(lines: &mut Vec<String>, chars: &Vec<char>)
    ensures
        strings_of(final(lines)@) == strings_of(old(lines)@).push(chars@),
{
    let s = string_of(chars.as_slice());
    let ghost before = lines@;
    lines.push(s);
    assert(strings_of(lines@) =~= strings_of(before).push(chars@));
}

fn push_text(lines: &mut Vec<String>, text: &str)
    ensures
        strings_of(final(lines)@) == strings_of(old(lines)@).push(text@),
{
    let mut v: Vec<char> = Vec::new();
    extend_str(&mut v, text);
    push_line(lines, &v);
}

fn push_four_digits(out: &mut Vec<char>, k: u64)
    requires
        k < 10000,
    ensures
        final(out)@ == old(out)@ + four_digits(k as nat),
{
    if k < 10 {
        extend_str(out, "000");
    } else if k < 100 {
        extend_str(out, "00");
    } else if k < 1000 {
        extend_str(out, "0");
    }
    push_decimal(out, k);
}

fn push_ratio(out: &mut Vec<char>, r: Ratio)
    ensures
        final(out)@ == old(out)@ + ratio_text(r),
{
    if r.whole == 0 {
        if r.first == 0 {
            extend_str(out, "NaN");
        } else {
            extend_str(out, "inf");
        }
        return;
    }
    let whole = r.whole as u128;
    let num: u128 = 20000 * (r.first as u128) + whole;
    let den: u128 = 2 * whole;
    let n: u128 = num / den;
    assert(n <= num) by (nonlinear_arith)
        requires
            n == num / den,
            den >= 2,
    ;
    assert(n / 10000 < 0x1_0000_0000_0000_0000_0000_0000_0000) by (nonlinear_arith)
        requires
            n <= num,
            num == 20000 * (r.first as u128) + whole,
            r.first <= 0xffff_ffff_ffff_ffff,
            whole <= 0xffff_ffff_ffff_ffff,
    ;
    crate::tmux::push_wide(out, (n / 10000) as i128);
    extend_str(out, ".");
    push_four_digits(out, (n % 10000) as u64);
}

fn push_layout_lines(lines: &mut Vec<String>, l: &Layout, indent: &Vec<char>)
    ensures
        strings_of(final(lines)@) == strings_of(old(lines)@) + layout_lines(*l, indent@),
    decreases l,
{
    match l {
        Layout::Pane(i) => {
            let mut t: Vec<char> = Vec::new();
            crate::text::extend_chars(&mut t, indent.as_slice());
            extend_str(&mut t, "pane[");
            push_decimal(&mut t, *i as u64);
            extend_str(&mut t, "]");
            push_line(lines, &t);
            assert(strings_of(old(lines)@).push(t@) =~= strings_of(old(lines)@) + layout_lines(*l, indent@));
        },
        Layout::Split { direction, ratio, first, second } => {
            let mut t: Vec<char> = Vec::new();
            crate::text::extend_chars(&mut t, indent.as_slice());
            extend_str(&mut t, "split ");
            extend_str(&mut t, direction.as_str());
            extend_str(&mut t, " ratio=");
            push_ratio(&mut t, *ratio);
            push_line(lines, &t);
            let mut inner: Vec<char> = Vec::new();
            crate::text::extend_chars(&mut inner, indent.as_slice());
            extend_str(&mut inner, "  ");
            let ghost a = strings_of(lines@);
            push_layout_lines(lines, first, &inner);
            push_layout_lines(lines, second, &inner);
            assert(strings_of(lines@) =~= strings_of(old(lines)@) + layout_lines(*l, indent@));
        },
    }
}

fn push_panes_lines(lines: &mut Vec<String>, panes: &Vec<crate::project_spec::PaneSpec>, prefix: usize)
    requires
        prefix <= 2,
    ensures
        strings_of(final(lines)@) == strings_of(old(lines)@) + panes_lines(
            crate::project_spec::panes_view(panes@),
            prefix as nat,
        ),
{
    let ghost pv = crate::project_spec::panes_view(panes@);
    let ghost start = strings_of(lines@);
    let mut q: usize = 0;
    assert(pv.take(0) =~= Seq::<PaneView>::empty());
    assert(start + panes_lines(pv.take(0), prefix as nat) =~= start);
    while q < panes.len()
        invariant
            q <= panes@.len(),
            prefix <= 2,
            pv == crate::project_spec::panes_view(panes@),
            strings_of(lines@) == start + panes_lines(pv.take(q as int), prefix as nat),
        decreases panes.len() - q,
    {
        let ghost t = pv.take(q + 1);
        assert(t.drop_last() == pv.take(q as int));
        assert(t.last() == panes@[q as int]@);
        let ghost before = strings_of(lines@);
        match &panes[q].title {
            Some(title) => {
                let mut v: Vec<char> = Vec::new();
                extend_str(&mut v, "      pane[");
                push_decimal(&mut v, q as u64);
                extend_str(&mut v, "] label=");
                extend_str(&mut v, debug_quote(title.as_str()).as_str());
                push_line(lines, &v);
            },
            None => {},
        }
        let mut v: Vec<char> = Vec::new();
        extend_str(&mut v, "      pane[");
        push_decimal(&mut v, q as u64);
        extend_str(&mut v, "] commands=");
        crate::tmux::push_wide(&mut v, prefix as i128 + panes[q].commands.len() as i128);
        push_line(lines, &v);
        assert(strings_of(lines@) =~= before + pane_lines(q as nat, pv[q as int], prefix as nat));
        q += 1;
    }
    assert(pv.take(pv.len() as int) == pv);
}

fn push_warning_lines(lines: &mut Vec<String>, spec: &ProjectSpec)
    ensures
        strings_of(final(lines)@) == strings_of(old(lines)@) + warning_lines(spec@),
{
    let ghost p = spec@;
    let ghost start = strings_of(lines@);
    let mut k: usize = 0;
    assert(start + p.warnings.take(0).map_values(|w: Seq<char>| "warning: "@ + w) =~= start);
    while k < spec.warnings.len()
        invariant
            k <= spec.warnings@.len(),
            p == spec@,
            strings_of(lines@) == start + p.warnings.take(k as int).map_values(|w: Seq<char>| "warning: "@ + w),
        decreases spec.warnings.len() - k,
    {
        let mut v: Vec<char> = Vec::new();
        extend_str(&mut v, "warning: ");
        extend_str(&mut v, spec.warnings[k].as_str());
        let ghost before = strings_of(lines@);
        push_line(lines, &v);
        assert(p.warnings.take(k + 1) =~= p.warnings.take(k as int).push(p.warnings[k as int]));
        assert(strings_of(lines@) =~= start + p.warnings.take(k + 1).map_values(|w: Seq<char>| "warning: "@ + w));
        k += 1;
    }
    assert(p.warnings.take(p.warnings.len() as int) == p.warnings);
}

fn push_fixed_lines(head: &mut Vec<String>, spec: &ProjectSpec, endpoint: &crate::herdr::Endpoint)
    requires
        old(head)@.len() == 0,
    ensures
        strings_of(final(head)@) == head_fixed(spec@, endpoint@),
{
    push_text(head, "backend: herdr");
    let mut v: Vec<char> = Vec::new();
    extend_str(&mut v, "endpoint: ");
    extend_str(&mut v, describe_endpoint(endpoint).as_str());
    push_line(head, &v);
    let mut v: Vec<char> = Vec::new();
    extend_str(&mut v, "project: ");
    extend_str(&mut v, spec.name.as_str());
    push_line(head, &v);
    let mut v: Vec<char> = Vec::new();
    extend_str(&mut v, "config: ");
    extend_str(&mut v, spec.source_path.as_str());
    push_line(head, &v);
    let mut v: Vec<char> = Vec::new();
    extend_str(&mut v, "root: ");
    extend_str(&mut v, spec.root.as_str());
    push_line(head, &v);
    let mut v: Vec<char> = Vec::new();
    extend_str(&mut v, "attach: ");
    extend_str(&mut v, if spec.attach { "true" } else { "false" });
    push_line(head, &v);
    let mut v: Vec<char> = Vec::new();
    extend_str(&mut v, "append: ");
    extend_str(&mut v, if spec.append { "true" } else { "false" });
    push_line(head, &v);
    push_text(head, "plan:");
    push_text(head, "  - ensure compatible Herdr >= 0.7.5 / protocol 17 or 19 server");
    assert(strings_of(head@) =~= head_fixed(spec@, endpoint@));
}

fn push_step_lines(head: &mut Vec<String>, spec: &ProjectSpec)
    ensures
        strings_of(final(head)@) == strings_of(old(head)@) + head_steps(spec@),
{
    let ghost start = strings_of(head@);
    if spec.append {
        push_text(head, "  - require the active Herdr workspace and append tabs");
    } else {
        push_text(head, "  - resolve managed workspace by state ID");
        push_text(head, "  - recover only one exact label + root match; otherwise fail closed");
        push_text(head, "  - create workspace if no managed or adoptable workspace exists");
    }
    let ghost a = strings_of(head@);
    if spec.hooks.start.is_some() {
        push_text(head, "  - run on_project_start");
    }
    let ghost b = strings_of(head@);
    if spec.hooks.first_start.is_some() {
        push_text(head, "  - on create: run on_project_first_start");
    }
    let ghost c = strings_of(head@);
    if spec.hooks.restart.is_some() {
        push_text(head, "  - on reuse: run on_project_restart");
    }
    assert(strings_of(head@) =~= start + head_steps(spec@));
}

fn append_lines(lines: &mut Vec<String>, more: &Vec<String>)
    ensures
        strings_of(final(lines)@) == strings_of(old(lines)@) + strings_of(more@),
{
    let ghost start = strings_of(lines@);
    let mut i: usize = 0;
    assert(strings_of(more@).take(0) =~= Seq::<Seq<char>>::empty());
    assert(start + strings_of(more@).take(0) =~= start);
    while i < more.len()
        invariant
            i <= more@.len(),
            strings_of(lines@) == start + strings_of(more@).take(i as int),
        decreases more.len() - i,
    {
        let ghost before = lines@;
        lines.push(more[i].clone());
        assert(strings_of(more@).take(i + 1) =~= strings_of(more@).take(i as int).push(more@[i as int]@));
        assert(strings_of(lines@) =~= strings_of(before).push(more@[i as int]@));
        i += 1;
    }
    assert(strings_of(more@).take(more@.len() as int) =~= strings_of(more@));
}

fn push_head_lines(lines: &mut Vec<String>, spec: &ProjectSpec, endpoint: &crate::herdr::Endpoint)
    ensures
        strings_of(final(lines)@) == strings_of(old(lines)@) + plan_head(spec@, endpoint@),
{
    let mut head: Vec<String> = Vec::new();
    push_fixed_lines(&mut head, spec, endpoint);
    push_step_lines(&mut head, spec);
    append_lines(lines, &head);
    proof {
        vstd::seq_lib::lemma_concat_associative(strings_of(old(lines)@), head_fixed(spec@, endpoint@), head_steps(spec@));
    }
}

fn push_window_lines(
    lines: &mut Vec<String>,
    spec: &ProjectSpec,
    w: usize,
    layout: &Layout,
)
    requires
        w < spec.windows@.len(),
        spec_layout_tree(spec@.windows[w as int]) == Ok::<Layout, Seq<char>>(*layout),
    ensures
        strings_of(final(lines)@) == strings_of(old(lines)@) + window_lines(spec@, w as nat, spec@.windows[w as int], *layout),
{
    let window = &spec.windows[w];
    assert(spec@.windows[w as int] == window@);
    let ghost before = strings_of(lines@);
    let mut v: Vec<char> = Vec::new();
    extend_str(&mut v, "  - tab[");
    push_decimal(&mut v, w as u64);
    extend_str(&mut v, "] ");
    match &window.name {
        Some(n) => {
            extend_str(&mut v, "Some(");
            extend_str(&mut v, debug_quote(n.as_str()).as_str());
            extend_str(&mut v, ")");
        },
        None => extend_str(&mut v, "None"),
    }
    extend_str(&mut v, " cwd=");
    extend_str(&mut v, window.root.as_str());
    extend_str(&mut v, " panes=");
    push_decimal(&mut v, layout.pane_count() as u64);
    let ghost first = v@;
    assert(first == "  - tab["@ + decimal(w as nat) + "] "@ + opt_debug(window@.name) + " cwd="@ + window@.root
        + " panes="@ + decimal(layout_panes(*layout).len()));
    push_line(lines, &v);
    let ghost a = strings_of(lines@);
    assert(a =~= before + seq![first]);
    let mut indent: Vec<char> = Vec::new();
    extend_str(&mut indent, "      ");
    push_layout_lines(lines, layout, &indent);
    let ghost ll = layout_lines(*layout, "      "@);
    let prefix: usize = (if spec.pre_window.is_some() { 1 } else { 0 }) + (if window.pre.is_some() { 1 } else { 0 });
    let panes = window.effective_panes();
    push_panes_lines(lines, &panes, prefix);
    let ghost pl = panes_lines(spec_effective(window@.panes, window@.commands), prefix_count(spec@, window@));
    proof {
        vstd::seq_lib::lemma_concat_associative(before, seq![first], ll);
        vstd::seq_lib::lemma_concat_associative(before, seq![first] + ll, pl);
    }
}

fn push_tail_lines(lines: &mut Vec<String>, spec: &ProjectSpec)
    ensures
        strings_of(final(lines)@) == strings_of(old(lines)@) + plan_tail(spec@),
{
    let ghost before = strings_of(lines@);
    let startup_pane: usize = match spec.startup_pane {
        Some(q) => q,
        None => if spec.startup_window < spec.windows.len() {
            spec.windows[spec.startup_window].focused_pane
        } else {
            0
        },
    };
    let mut v: Vec<char> = Vec::new();
    extend_str(&mut v, "  - select tab[");
    push_decimal(&mut v, spec.startup_window as u64);
    extend_str(&mut v, "] pane[");
    push_decimal(&mut v, startup_pane as u64);
    extend_str(&mut v, "]");
    if spec.attach {
        extend_str(&mut v, " and attach/focus");
    } else {
        extend_str(&mut v, " without keeping global focus");
    }
    push_line(lines, &v);
    if spec.hooks.exit.is_some() {
        push_text(lines, "  - run on_project_exit");
    }
    assert(strings_of(lines@) =~= before + plan_tail(spec@));
}

/// The plan `debug` shows for the Herdr backend, from the project alone:
/// the checks of a start come first, and each tab shows its split tree and
/// what its panes are typed.
pub fn herdr_debug_plan(spec: &ProjectSpec, endpoint: &crate::herdr::Endpoint) -> (r: Result<String, String>)
    ensures
        r matches Ok(t) ==> (forall|i: int| 0 <= i < spec@.windows.len() ==> #[trigger] spec_layout_tree(
            spec@.windows[i],
        ) is Ok) && t@ == lines_text(plan_lines(spec@, endpoint@)),
        r matches Err(m) ==> crate::zellij_backend::spec_windows_check(spec@.windows, "Herdr"@) == Err::<
            (),
            Seq<char>,
        >(m@) || exists|i: int| 0 <= i < spec@.windows.len() && #[trigger] spec_layout_tree(spec@.windows[i]) == Err::<
            Layout,
            Seq<char>,
        >(m@),
{
    match preflight_spec(spec) {
        Ok(()) => {},
        Err(m) => {
            return Err(m);
        },
    }
    let ghost p = spec@;
    let mut lines: Vec<String> = Vec::new();
    push_warning_lines(&mut lines, spec);
    push_head_lines(&mut lines, spec, endpoint);
    let ghost before_windows = strings_of(lines@);
    let mut w: usize = 0;
    assert(p.windows.take(0) =~= Seq::<WindowView>::empty());
    assert(before_windows + windows_lines(p, p.windows.take(0)) =~= before_windows);
    while w < spec.windows.len()
        invariant
            w <= spec.windows@.len(),
            p == spec@,
            strings_of(lines@) == before_windows + windows_lines(p, p.windows.take(w as int)),
            forall|i: int| 0 <= i < w ==> #[trigger] spec_layout_tree(p.windows[i]) is Ok,
        decreases spec.windows.len() - w,
    {
        assert(p.windows[w as int] == spec.windows@[w as int]@);
        let layout = match layout_for(&spec.windows[w]) {
            Ok(l) => l,
            Err(m) => {
                return Err(m);
            },
        };
        let ghost t = p.windows.take(w + 1);
        assert(t.drop_last() == p.windows.take(w as int));
        assert(t.last() == p.windows[w as int]);
        let ghost before = strings_of(lines@);
        push_window_lines(&mut lines, spec, w, &layout);
        proof {
            vstd::seq_lib::lemma_concat_associative(
                before_windows,
                windows_lines(p, p.windows.take(w as int)),
                window_lines(p, w as nat, p.windows[w as int], layout),
            );
        }
        w += 1;
    }
    assert(p.windows.take(p.windows.len() as int) == p.windows);
    push_tail_lines(&mut lines, spec);
    let mut text: Vec<char> = Vec::new();
    let ghost all = strings_of(lines@);
    assert(all == plan_lines(p, endpoint@));
    let mut i: usize = 0;
    assert(all.take(0) =~= Seq::<Seq<char>>::empty());
    while i < lines.len()
        invariant
            i <= lines@.len(),
            all == strings_of(lines@),
            text@ == lines_text(all.take(i as int)),
        decreases lines.len() - i,
    {
        assert(all.take(i + 1).drop_last() == all.take(i as int));
        extend_str(&mut text, lines[i].as_str());
        extend_str(&mut text, "\n");
        i += 1;
    }
    assert(all.take(all.len() as int) == all);
    Ok(string_of(text.as_slice()))
}


/// A line without its leading spaces.
pub open spec fn strip_indent(line: Seq<char>) -> Seq<char>
    decreases line.len(),
{
    if line.len() > 0 && line[0] == ' ' {
        strip_indent(line.drop_first())
    } else {
        line
    }
}

/// Whether a sequence is made of spaces only.
pub open spec fn all_spaces(w: Seq<char>) -> bool {
    forall|i: int| 0 <= i < w.len() ==> w[i] == ' '
}

/// The pane entries among plan lines, in order, each without its indent:
/// the lines whose text starts with `p`.
pub open spec fn pane_entries(lines: Seq<Seq<char>>) -> Seq<Seq<char>>
    decreases lines.len(),
{
    if lines.len() == 0 {
        seq![]
    } else {
        let t = strip_indent(lines.last());
        pane_entries(lines.drop_last()) + if t.len() > 0 && t[0] == 'p' {
            seq![t]
        } else {
            seq![]
        }
    }
}

/// `pane[i]` for each pane index, in order.
pub open spec fn pane_names(panes: Seq<usize>) -> Seq<Seq<char>>
    decreases panes.len(),
{
    if panes.len() == 0 {
        seq![]
    } else {
        pane_names(panes.drop_last()) + seq!["pane["@ + decimal(panes.last() as nat) + "]"@]
    }
}

proof fn lemma_strip_indent(w: Seq<char>, x: Seq<char>)
    requires
        all_spaces(w),
        x.len() > 0,
        x[0] != ' ',
    ensures
        strip_indent(w + x) == x,
    decreases w.len(),
{
    if w.len() > 0 {
        assert((w + x).drop_first() == w.drop_first() + x);
        lemma_strip_indent(w.drop_first(), x);
    } else {
        assert(w + x == x);
    }
}

proof fn lemma_pane_entries_add(a: Seq<Seq<char>>, b: Seq<Seq<char>>)
    ensures
        pane_entries(a + b) == pane_entries(a) + pane_entries(b),
    decreases b.len(),
{
    if b.len() == 0 {
        assert(a + b == a);
    } else {
        assert((a + b).drop_last() == a + b.drop_last());
        assert((a + b).last() == b.last());
        lemma_pane_entries_add(a, b.drop_last());
    }
}

proof fn lemma_pane_names_add(a: Seq<usize>, b: Seq<usize>)
    ensures
        pane_names(a + b) == pane_names(a) + pane_names(b),
    decreases b.len(),
{
    if b.len() == 0 {
        assert(a + b == a);
    } else {
        assert((a + b).drop_last() == a + b.drop_last());
        assert((a + b).last() == b.last());
        lemma_pane_names_add(a, b.drop_last());
    }
}

/// The panes of a split tree appear in the plan in the tree's visual order
/// (left to right, top to bottom): the pane entries of its lines are
/// `pane[i]` for the indices `layout_panes` lists, in that order.
pub proof fn plan_lists_panes_in_layout_order(l: Layout, indent: Seq<char>)
    requires
        all_spaces(indent),
    ensures
        pane_entries(layout_lines(l, indent)) == pane_names(layout_panes(l)),
    decreases l,
{
    reveal_strlit("pane[");
    reveal_strlit("split ");
    match l {
        Layout::Pane(i) => {
            let x = "pane["@ + decimal(i as nat) + "]"@;
            assert(indent + "pane["@ + decimal(i as nat) + "]"@ == indent + x);
            assert(x[0] == "pane["@[0]);
            lemma_strip_indent(indent, x);
            let one = seq![indent + x];
            assert(one.drop_last() == Seq::<Seq<char>>::empty());
            assert(one.last() == indent + x);
            assert(pane_entries(Seq::<Seq<char>>::empty()) == Seq::<Seq<char>>::empty());
            assert(pane_names(Seq::<usize>::empty()) == Seq::<Seq<char>>::empty());
            assert(seq![i].last() == i);
            assert(seq![i].drop_last() == Seq::<usize>::empty());
            assert(pane_entries(seq![indent + x]) =~= seq![x]);
            assert(pane_names(seq![i]) =~= seq![x]);
        },
        Layout::Split { direction, ratio, first, second } => {
            let inner = indent + "  "@;
            assert(all_spaces(inner)) by {
                reveal_strlit("  ");
            }
            plan_lists_panes_in_layout_order(*first, inner);
            plan_lists_panes_in_layout_order(*second, inner);
            let x = "split "@ + crate::layout::spec_direction_name(direction) + " ratio="@ + ratio_text(ratio);
            let head = indent + "split "@ + crate::layout::spec_direction_name(direction) + " ratio="@
                + ratio_text(ratio);
            assert(head == indent + x);
            assert(x[0] == "split "@[0]);
            lemma_strip_indent(indent, x);
            assert(pane_entries(Seq::<Seq<char>>::empty()) == Seq::<Seq<char>>::empty());
            let h = seq![head];
            assert(h.drop_last() == Seq::<Seq<char>>::empty());
            assert(h.last() == indent + x);
            assert(pane_entries(h) =~= Seq::<Seq<char>>::empty());
            let a = layout_lines(*first, inner);
            let b = layout_lines(*second, inner);
            assert(layout_lines(l, indent) == h + a + b);
            lemma_pane_entries_add(h + a, b);
            lemma_pane_entries_add(h, a);
            assert(pane_entries(h) + pane_entries(a) =~= pane_entries(a));
            lemma_pane_names_add(layout_panes(*first), layout_panes(*second));
        },
    }
}

} // verus!
