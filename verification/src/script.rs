//! The shell scripts that start and stop a tmux project, in the layout of
//! tmuxinator's templates: a slot line keeps its indentation even when its
//! value is empty.

use vstd::prelude::*;
use crate::herdr_backend::opt_view;
use crate::pane::{
    spec_main_command, spec_pane_pre_window_command, spec_pre_command, spec_set_title_command,
    spec_split_command, Pane, TmuxPaneView,
};
use crate::project::{
    name_or_empty, spec_hook, spec_kill_session_command, spec_new_session_command,
    spec_pane_title_position, spec_position_command, spec_format_command, spec_position_valid,
    spec_position_warning, spec_pre_window, spec_name, spec_project_attach, spec_root, spec_startup_pane,
    spec_startup_window, spec_titles_enabled, spec_tmux, Project, HOOK_ON_PROJECT_EXIT, HOOK_ON_PROJECT_FIRST_START,
    HOOK_ON_PROJECT_RESTART, HOOK_ON_PROJECT_START, HOOK_ON_PROJECT_STOP,
};
use crate::project_spec::opt_str;
use crate::text::{extend_str, string_of};
use crate::window::{
    spec_commands, spec_focus_pane_command, spec_layout_command, spec_new_window_command,
    spec_synchronize_command, spec_tiled_layout_command, spec_window_pre_window_command,
    spec_window_target, tmux_windows_view, Synchronize, TmuxWindowView, Window,
};
use crate::yaml_ext::{spec_get, spec_truthy};

verus! {

pub open spec fn nl() -> Seq<char> {
    "\n"@
}

pub open spec fn line(s: Seq<char>) -> Seq<char> {
    s + nl()
}

/// A template slot: the indentation, the value if there is one, a newline.
pub open spec fn slot(indent: Seq<char>, content: Option<Seq<char>>) -> Seq<char> {
    indent + match content {
        Some(c) => c,
        None => seq![],
    } + nl()
}

pub open spec fn when(cond: bool, s: Seq<char>) -> Seq<char> {
    if cond {
        s
    } else {
        seq![]
    }
}

pub open spec fn command_slots(
    p: &Project,
    w: TmuxWindowView,
    pane: TmuxPaneView,
    cmds: Seq<Option<Seq<char>>>,
) -> Seq<char>
    decreases cmds.len(),
{
    if cmds.len() == 0 {
        seq![]
    } else {
        command_slots(p, w, pane, cmds.drop_last()) + slot(
            "  "@,
            Some(spec_main_command(p, w, pane, cmds.last())),
        )
    }
}

/// What a pane contributes to its window's part of the start script.
#[verifier::opaque]
pub open spec fn pane_block(p: &Project, w: TmuxWindowView, pane: TmuxPaneView) -> Seq<char> {
    slot("  "@, spec_set_title_command(p, w, pane)) + when(
        spec_pre_window(p) is Some,
        slot("  "@, spec_pane_pre_window_command(p, w, pane)),
    ) + when(w.pre_value is Some, slot("  "@, spec_pre_command(p, w, pane))) + command_slots(
        p,
        w,
        pane,
        pane.commands,
    ) + nl() + when(
        !(pane.index + 1 == w.panes.len()),
        slot("  "@, Some(spec_split_command(p, w, pane))),
    ) + when(!w.pane_chain, slot("  "@, Some(spec_tiled_layout_command(p, w))))
}

pub open spec fn pane_blocks(p: &Project, w: TmuxWindowView, panes: Seq<TmuxPaneView>) -> Seq<char>
    decreases panes.len(),
{
    if panes.len() == 0 {
        seq![]
    } else {
        pane_blocks(p, w, panes.drop_last()) + pane_block(p, w, panes.last())
    }
}

pub open spec fn lines_slots(items: Seq<Seq<char>>) -> Seq<char>
    decreases items.len(),
{
    if items.len() == 0 {
        seq![]
    } else {
        lines_slots(items.drop_last()) + slot("  "@, Some(items.last()))
    }
}

/// A window's commands: its own lines when it has no panes, else its
/// panes, its layout and its focus.
#[verifier::opaque]
pub open spec fn window_body(p: &Project, w: TmuxWindowView) -> Seq<char> {
    if w.panes.len() == 0 {
        when(spec_pre_window(p) is Some, slot("  "@, spec_window_pre_window_command(p, w)))
            + lines_slots(spec_commands(p, w))
    } else {
        pane_blocks(p, w, w.panes) + nl() + when(
            !w.pane_chain,
            slot("  "@, Some(spec_layout_command(p, w))),
        ) + slot("  "@, Some(spec_focus_pane_command(p, w)))
    }
}

/// A window's part of the start script.
#[verifier::opaque]
pub open spec fn window_block(p: &Project, w: TmuxWindowView) -> Seq<char> {
    nl() + line(
        "  # Window \""@ + match w.name {
            Some(n) => n,
            None => seq![],
        } + "\""@,
    ) + when(
        w.synchronize == Synchronize::Before,
        slot("  "@, Some(spec_synchronize_command(p, w))),
    ) + nl() + when(
        spec_titles_enabled(p),
        slot("  "@, Some(spec_position_command(p, spec_window_target(p, w)))) + slot(
            "  "@,
            Some(spec_format_command(p, spec_window_target(p, w))),
        ),
    ) + nl() + window_body(p, w) + nl() + when(
        w.synchronize == Synchronize::After,
        slot("  "@, Some(spec_synchronize_command(p, w))),
    )
}

pub open spec fn window_blocks(p: &Project, ws: Seq<TmuxWindowView>) -> Seq<char>
    decreases ws.len(),
{
    if ws.len() == 0 {
        seq![]
    } else {
        window_blocks(p, ws.drop_last()) + window_block(p, ws.last())
    }
}

pub open spec fn new_window_slots(p: &Project, ws: Seq<TmuxWindowView>) -> Seq<char>
    decreases ws.len(),
{
    if ws.len() == 0 {
        seq![]
    } else {
        new_window_slots(p, ws.drop_last()) + slot("  "@, Some(spec_new_window_command(p, ws.last())))
    }
}

/// The warning the start script prints about an invalid pane title
/// position, when pane titles are on.
pub open spec fn title_warning_part(p: &Project) -> Seq<char> {
    when(
        spec_titles_enabled(p) && spec_pane_title_position(p) is Some && !spec_position_valid(p),
        slot("  "@, Some(spec_position_warning(p))),
    )
}

/// With pane titles on, the start script warns about the pane title
/// position exactly when one is set and it is none of `top`, `bottom` and
/// `off`.
pub proof fn title_warning_law(p: &Project)
    ensures
        title_warning_part(p) == if spec_titles_enabled(p) && (spec_pane_title_position(p) matches Some(t)
            && t != "top"@ && t != "bottom"@ && t != "off"@) {
            slot("  "@, Some(spec_position_warning(p)))
        } else {
            Seq::<char>::empty()
        },
{
}

/// The part of the start script that creates the session and its windows.
#[verifier::opaque]
pub open spec fn creation_part(p: &Project) -> Seq<char> {
    let ws = tmux_windows_view(p.windows@);
    nl() + line("  # Run pre command."@) + slot("  "@, None) + nl() + line(
        "  # Run on_project_first_start command."@,
    ) + slot("  "@, spec_hook(p, HOOK_ON_PROJECT_FIRST_START@)) + nl() + slot(
        "  "@,
        spec_new_session_command(p),
    ) + nl() + nl() + title_warning_part(p) + nl() + line("  # Create windows."@) + new_window_slots(p, ws) + nl() + window_blocks(p, ws)
        + nl() + line("  "@ + spec_tmux(p) + " select-window -t "@ + spec_startup_window(p)) + line(
        "  "@ + spec_tmux(p) + " select-pane -t "@ + spec_startup_pane(p),
    )
}

pub open spec fn restart_part(p: &Project) -> Seq<char> {
    line("  # Run on_project_restart command."@) + slot("  "@, spec_hook(p, HOOK_ON_PROJECT_RESTART@))
}

#[verifier::opaque]
pub open spec fn attach_part(p: &Project) -> Seq<char> {
    when(
        spec_project_attach(p) && !p.opts.append,
        line("  if [ -z \"$TMUX\" ]; then"@) + line(
            "    "@ + spec_tmux(p) + " -u attach-session -t "@ + name_or_empty(p),
        ) + line("  else"@) + line("    "@ + spec_tmux(p) + " -u switch-client -t "@ + name_or_empty(p))
            + line("  fi"@),
    )
}

pub open spec fn shebang(p: &Project) -> Seq<char> {
    line("#!"@ + crate::env::spec_shell_or_default(p.env.shell))
}

pub open spec fn root_or_dot(p: &Project) -> Seq<char> {
    match spec_root(p) {
        Some(r) => r,
        None => "."@,
    }
}

/// The script that starts (or restarts) a project.
#[verifier::opaque]
pub open spec fn spec_render_start(p: &Project) -> Seq<char> {
    shebang(p) + nl() + nl() + when(
        !p.opts.append,
        line("  # Clear rbenv variables before starting tmux"@) + line("  unset RBENV_VERSION"@)
            + line("  unset RBENV_DIR"@) + nl() + line("  "@ + spec_tmux(p) + " start-server;"@),
    ) + nl() + line("cd "@ + root_or_dot(p)) + nl() + line("# Run on_project_start command."@) + slot(
        seq![],
        spec_hook(p, HOOK_ON_PROJECT_START@),
    ) + nl() + (if p.opts.append || !p.facts.session_exists {
        creation_part(p)
    } else {
        restart_part(p)
    }) + nl() + attach_part(p) + nl() + slot(seq![], None) + nl() + line(
        "# Run on_project_exit command."@,
    ) + slot(seq![], spec_hook(p, HOOK_ON_PROJECT_EXIT@))
}

/// The script that stops a project: nothing but the shebang when its
/// session does not exist.
#[verifier::opaque]
pub open spec fn spec_render_stop(p: &Project) -> Seq<char> {
    shebang(p) + nl() + when(
        p.facts.session_exists,
        line("  cd "@ + root_or_dot(p)) + nl() + line("  # Run on_project_stop command"@) + slot(
            "  "@,
            spec_hook(p, HOOK_ON_PROJECT_STOP@),
        ) + nl() + line("  "@ + spec_kill_session_command(p)),
    )
}

proof fn lemma_push(start: Seq<char>, x: Seq<char>, atom: Seq<char>)
    ensures
        (start + x) + atom == start + (x + atom),
{
    vstd::seq_lib::lemma_concat_associative(start, x, atom);
}

proof fn lemma_skip(start: Seq<char>, x: Seq<char>, s: Seq<char>)
    ensures
        start + x == start + (x + when(false, s)),
{
    assert(x + when(false, s) =~= x);
}

fn push_nl(out: &mut Vec<char>)
    ensures
        final(out)@ == old(out)@ + nl(),
{
    extend_str(out, "\n");
}

fn push_line(out: &mut Vec<char>, s: &str)
    ensures
        final(out)@ == old(out)@ + line(s@),
{
    let ghost start = out@;
    extend_str(out, s);
    extend_str(out, "\n");
    proof {
        lemma_push(start, s@, nl());
    }
}

fn push_slot(out: &mut Vec<char>, indent: &str, content: Option<&str>)
    ensures
        final(out)@ == old(out)@ + slot(indent@, opt_view(content)),
{
    let ghost start = out@;
    extend_str(out, indent);
    match content {
        Some(c) => extend_str(out, c),
        None => {},
    }
    extend_str(out, "\n");
    assert(out@ =~= start + slot(indent@, opt_view(content)));
}

fn opt_as_str(o: &Option<String>) -> (r: Option<&str>)
    ensures
        opt_view(r) == opt_str(*o),
{
    match o {
        Some(s) => Some(s.as_str()),
        None => None,
    }
}

fn push_command_slots(out: &mut Vec<char>, project: &Project, window: &Window, pane: &Pane)
    ensures
        final(out)@ == old(out)@ + command_slots(project, window@, pane@, pane@.commands),
{
    let ghost start = out@;
    let ghost p = project;
    let ghost w = window@;
    let ghost pv = pane@;
    let mut i: usize = 0;
    assert(pv.commands.take(0) =~= Seq::<Option<Seq<char>>>::empty());
    assert(start + command_slots(p, w, pv, pv.commands.take(0)) =~= start);
    while i < pane.commands.len()
        invariant
            i <= pane.commands@.len(),
            pv == pane@,
            w == window@,
            p == project,
            out@ == start + command_slots(p, w, pv, pv.commands.take(i as int)),
        decreases pane.commands.len() - i,
    {
        let ghost t = pv.commands.take(i + 1);
        assert(t.drop_last() == pv.commands.take(i as int));
        assert(t.last() == opt_str(pane.commands@[i as int]));
        let command: Option<&str> = opt_as_str(&pane.commands[i]);
        let line_text = pane.main_command(command, window, project);
        push_slot(out, "  ", Some(line_text.as_str()));
        proof {
            lemma_push(start, command_slots(p, w, pv, pv.commands.take(i as int)), slot("  "@, Some(line_text@)));
            assert(opt_view(command) == t.last());
            assert(t.len() > 0);
            assert(line_text@ == spec_main_command(p, w, pv, t.last()));
            assert(command_slots(p, w, pv, t) == command_slots(p, w, pv, t.drop_last()) + slot(
                "  "@,
                Some(spec_main_command(p, w, pv, t.last())),
            ));
            assert(command_slots(p, w, pv, t) == command_slots(p, w, pv, pv.commands.take(i as int)) + slot(
                "  "@,
                Some(line_text@),
            ));
        }
        i += 1;
    }
    assert(pv.commands.take(pv.commands.len() as int) == pv.commands);
}

fn push_pane_block(out: &mut Vec<char>, project: &Project, window: &Window, pane: &Pane)
    ensures
        final(out)@ == old(out)@ + pane_block(project, window@, pane@),
{
    let ghost start = out@;
    let ghost p = project;
    let ghost w = window@;
    let ghost pv = pane@;
    push_slot(out, "  ", opt_as_str(&pane.set_title_command(window, project)));
    let ghost mut x = slot("  "@, spec_set_title_command(p, w, pv));
    let ghost a2 = slot("  "@, spec_pane_pre_window_command(p, w, pv));
    if project.pre_window().is_some() {
        push_slot(out, "  ", opt_as_str(&pane.pre_window_command(window, project)));
        proof { lemma_push(start, x, a2); }
    } else {
        proof { lemma_skip(start, x, a2); }
    }
    proof { x = x + when(spec_pre_window(p) is Some, a2); }
    let ghost a3 = slot("  "@, spec_pre_command(p, w, pv));
    if window.pre().is_some() {
        push_slot(out, "  ", opt_as_str(&pane.pre_command(window, project)));
        proof { lemma_push(start, x, a3); }
    } else {
        proof { lemma_skip(start, x, a3); }
    }
    proof { x = x + when(w.pre_value is Some, a3); }
    push_command_slots(out, project, window, pane);
    proof {
        lemma_push(start, x, command_slots(p, w, pv, pv.commands));
        x = x + command_slots(p, w, pv, pv.commands);
    }
    push_nl(out);
    proof {
        lemma_push(start, x, nl());
        x = x + nl();
    }
    let ghost a4 = slot("  "@, Some(spec_split_command(p, w, pv)));
    if !pane.is_last(window) {
        push_slot(out, "  ", Some(pane.split_command(window, project).as_str()));
        proof { lemma_push(start, x, a4); }
    } else {
        proof { lemma_skip(start, x, a4); }
    }
    proof { x = x + when(!(pv.index + 1 == w.panes.len()), a4); }
    let ghost a5 = slot("  "@, Some(spec_tiled_layout_command(p, w)));
    if !window.is_pane_chain() {
        push_slot(out, "  ", Some(window.tiled_layout_command(project).as_str()));
        proof { lemma_push(start, x, a5); }
    } else {
        proof { lemma_skip(start, x, a5); }
    }
    proof {
        x = x + when(!w.pane_chain, a5);
        reveal(pane_block);
        assert(x == pane_block(p, w, pv));
    }
}

fn push_pane_blocks(out: &mut Vec<char>, project: &Project, window: &Window)
    ensures
        final(out)@ == old(out)@ + pane_blocks(project, window@, window@.panes),
{
    let ghost start = out@;
    let ghost w = window@;
    let mut i: usize = 0;
    assert(w.panes.take(0) =~= Seq::<TmuxPaneView>::empty());
    assert(start + pane_blocks(project, w, w.panes.take(0)) =~= start);
    while i < window.panes.len()
        invariant
            i <= window.panes@.len(),
            w == window@,
            out@ == start + pane_blocks(project, w, w.panes.take(i as int)),
        decreases window.panes.len() - i,
    {
        let ghost t = w.panes.take(i + 1);
        assert(t.drop_last() == w.panes.take(i as int));
        assert(t.last() == window.panes@[i as int]@);
        push_pane_block(out, project, window, &window.panes[i]);
        proof {
            lemma_push(start, pane_blocks(project, w, w.panes.take(i as int)), pane_block(project, w, window.panes@[i as int]@));
        }
        i += 1;
    }
    assert(w.panes.take(w.panes.len() as int) == w.panes);
}

fn push_lines_slots(out: &mut Vec<char>, lines: &Vec<String>)
    ensures
        final(out)@ == old(out)@ + lines_slots(lines@.map_values(|s: String| s@)),
{
    let ghost start = out@;
    let ghost items = lines@.map_values(|s: String| s@);
    let mut i: usize = 0;
    assert(items.take(0) =~= Seq::<Seq<char>>::empty());
    assert(start + lines_slots(items.take(0)) =~= start);
    while i < lines.len()
        invariant
            i <= lines@.len(),
            items == lines@.map_values(|s: String| s@),
            out@ == start + lines_slots(items.take(i as int)),
        decreases lines.len() - i,
    {
        let ghost t = items.take(i + 1);
        assert(t.drop_last() == items.take(i as int));
        assert(t.last() == lines@[i as int]@);
        push_slot(out, "  ", Some(lines[i].as_str()));
        proof {
            lemma_push(start, lines_slots(items.take(i as int)), slot("  "@, Some(lines@[i as int]@)));
        }
        i += 1;
    }
    assert(items.take(items.len() as int) == items);
}

fn push_window_body(out: &mut Vec<char>, project: &Project, window: &Window)
    ensures
        final(out)@ == old(out)@ + window_body(project, window@),
{
    let ghost start = out@;
    let ghost p = project;
    let ghost w = window@;
    if !window.has_panes() {
        let ghost a1 = slot("  "@, spec_window_pre_window_command(p, w));
        if project.pre_window().is_some() {
            push_slot(out, "  ", opt_as_str(&window.pre_window_command(project)));
        } else {
            assert(when(false, a1) =~= Seq::<char>::empty());
            assert(start + when(false, a1) =~= start);
        }
        let ghost x = when(spec_pre_window(p) is Some, a1);
        let lines = window.commands(project);
        push_lines_slots(out, &lines);
        proof {
            lemma_push(start, x, lines_slots(spec_commands(p, w)));
            reveal(window_body);
        }
    } else {
        push_pane_blocks(out, project, window);
        let ghost mut x = pane_blocks(p, w, w.panes);
        push_nl(out);
        proof {
            lemma_push(start, x, nl());
            x = x + nl();
        }
        let ghost a2 = slot("  "@, Some(spec_layout_command(p, w)));
        if !window.is_pane_chain() {
            push_slot(out, "  ", Some(window.layout_command(project).as_str()));
            proof { lemma_push(start, x, a2); }
        } else {
            proof { lemma_skip(start, x, a2); }
        }
        proof { x = x + when(!w.pane_chain, a2); }
        let ghost a3 = slot("  "@, Some(spec_focus_pane_command(p, w)));
        push_slot(out, "  ", Some(window.focus_pane_command(project).as_str()));
        proof {
            lemma_push(start, x, a3);
            x = x + a3;
            reveal(window_body);
            assert(x == window_body(p, w));
        }
    }
}

fn push_window_block(out: &mut Vec<char>, project: &Project, window: &Window)
    ensures
        final(out)@ == old(out)@ + window_block(project, window@),
{
    let ghost start = out@;
    let ghost p = project;
    let ghost w = window@;
    push_nl(out);
    let ghost mut x = nl();
    let mut title: Vec<char> = Vec::new();
    extend_str(&mut title, "  # Window \"");
    match &window.name {
        Some(n) => extend_str(&mut title, n.as_str()),
        None => {},
    }
    extend_str(&mut title, "\"");
    let title = string_of(title.as_slice());
    let ghost a1 = line(
        "  # Window \""@ + match w.name {
            Some(n) => n,
            None => seq![],
        } + "\""@,
    );
    assert(line(title@) == a1);
    push_line(out, title.as_str());
    proof {
        lemma_push(start, x, a1);
        x = x + a1;
    }
    let ghost a2 = slot("  "@, Some(spec_synchronize_command(p, w)));
    if window.synchronize_before() {
        push_slot(out, "  ", Some(window.synchronize_command(project).as_str()));
        proof { lemma_push(start, x, a2); }
    } else {
        proof { lemma_skip(start, x, a2); }
    }
    proof { x = x + when(w.synchronize == Synchronize::Before, a2); }
    push_nl(out);
    proof {
        lemma_push(start, x, nl());
        x = x + nl();
    }
    let ghost a3 = slot("  "@, Some(spec_position_command(p, spec_window_target(p, w)))) + slot(
        "  "@,
        Some(spec_format_command(p, spec_window_target(p, w))),
    );
    if project.enable_pane_titles() {
        let target = window.target(project);
        let ghost mid = out@;
        push_slot(out, "  ", Some(project.set_pane_title_position_command(target.as_str()).as_str()));
        push_slot(out, "  ", Some(project.set_pane_title_format_command(target.as_str()).as_str()));
        proof {
            vstd::seq_lib::lemma_concat_associative(
                mid,
                slot("  "@, Some(spec_position_command(p, spec_window_target(p, w)))),
                slot("  "@, Some(spec_format_command(p, spec_window_target(p, w)))),
            );
            lemma_push(start, x, a3);
        }
    } else {
        proof { lemma_skip(start, x, a3); }
    }
    proof { x = x + when(spec_titles_enabled(p), a3); }
    push_nl(out);
    proof {
        lemma_push(start, x, nl());
        x = x + nl();
    }
    push_window_body(out, project, window);
    proof {
        lemma_push(start, x, window_body(p, w));
        x = x + window_body(p, w);
    }
    push_nl(out);
    proof {
        lemma_push(start, x, nl());
        x = x + nl();
    }
    if window.synchronize_after() {
        push_slot(out, "  ", Some(window.synchronize_command(project).as_str()));
        proof { lemma_push(start, x, a2); }
    } else {
        proof { lemma_skip(start, x, a2); }
    }
    proof {
        x = x + when(w.synchronize == Synchronize::After, a2);
        reveal(window_block);
        assert(x == window_block(p, w));
    }
}

fn push_window_blocks(out: &mut Vec<char>, project: &Project)
    ensures
        final(out)@ == old(out)@ + window_blocks(project, tmux_windows_view(project.windows@)),
{
    let ghost start = out@;
    let ghost ws = tmux_windows_view(project.windows@);
    let mut i: usize = 0;
    assert(ws.take(0) =~= Seq::<TmuxWindowView>::empty());
    assert(start + window_blocks(project, ws.take(0)) =~= start);
    while i < project.windows.len()
        invariant
            i <= project.windows@.len(),
            ws == tmux_windows_view(project.windows@),
            out@ == start + window_blocks(project, ws.take(i as int)),
        decreases project.windows.len() - i,
    {
        let ghost t = ws.take(i + 1);
        assert(t.drop_last() == ws.take(i as int));
        assert(t.last() == project.windows@[i as int]@);
        push_window_block(out, project, &project.windows[i]);
        proof {
            lemma_push(start, window_blocks(project, ws.take(i as int)), window_block(project, ws[i as int]));
        }
        i += 1;
    }
    assert(ws.take(ws.len() as int) == ws);
}

fn push_new_window_slots(out: &mut Vec<char>, project: &Project)
    ensures
        final(out)@ == old(out)@ + new_window_slots(project, tmux_windows_view(project.windows@)),
{
    let ghost start = out@;
    let ghost ws = tmux_windows_view(project.windows@);
    let mut i: usize = 0;
    assert(ws.take(0) =~= Seq::<TmuxWindowView>::empty());
    assert(start + new_window_slots(project, ws.take(0)) =~= start);
    while i < project.windows.len()
        invariant
            i <= project.windows@.len(),
            ws == tmux_windows_view(project.windows@),
            out@ == start + new_window_slots(project, ws.take(i as int)),
        decreases project.windows.len() - i,
    {
        let ghost t = ws.take(i + 1);
        assert(t.drop_last() == ws.take(i as int));
        assert(t.last() == project.windows@[i as int]@);
        push_slot(out, "  ", Some(project.windows[i].new_window_command(project).as_str()));
        proof {
            lemma_push(
                start,
                new_window_slots(project, ws.take(i as int)),
                slot("  "@, Some(spec_new_window_command(project, ws[i as int]))),
            );
        }
        i += 1;
    }
    assert(ws.take(ws.len() as int) == ws);
}

/// `  <tmux><middle><tail>` as a line.
fn push_tmux_line(out: &mut Vec<char>, tmux: &str, middle: &str, tail: &str)
    ensures
        final(out)@ == old(out)@ + line("  "@ + tmux@ + middle@ + tail@),
{
    let mut l: Vec<char> = Vec::new();
    extend_str(&mut l, "  ");
    extend_str(&mut l, tmux);
    extend_str(&mut l, middle);
    extend_str(&mut l, tail);
    let l = string_of(l.as_slice());
    push_line(out, l.as_str());
}

fn push_creation_part(out: &mut Vec<char>, project: &Project)
    ensures
        final(out)@ == old(out)@ + creation_part(project),
{
    let ghost start = out@;
    let ghost p = project;
    let ghost ws = tmux_windows_view(project.windows@);
    let mut head: Vec<char> = Vec::new();
    push_nl(&mut head);
    push_line(&mut head, "  # Run pre command.");
    push_slot(&mut head, "  ", None);
    push_nl(&mut head);
    push_line(&mut head, "  # Run on_project_first_start command.");
    push_slot(&mut head, "  ", opt_as_str(&project.hook(HOOK_ON_PROJECT_FIRST_START)));
    push_nl(&mut head);
    push_slot(&mut head, "  ", opt_as_str(&project.new_session_command()));
    push_nl(&mut head);
    push_nl(&mut head);
    let ghost h = nl() + line("  # Run pre command."@) + slot("  "@, None) + nl() + line(
        "  # Run on_project_first_start command."@,
    ) + slot("  "@, spec_hook(p, HOOK_ON_PROJECT_FIRST_START@)) + nl() + slot(
        "  "@,
        spec_new_session_command(p),
    ) + nl() + nl();
    assert(head@ =~= h);
    crate::text::extend_chars(out, head.as_slice());
    let ghost mut x = h;
    let ghost a1 = slot("  "@, Some(spec_position_warning(p)));
    if project.enable_pane_titles() && project.pane_title_position().is_some()
        && !project.pane_title_position_valid() {
        push_slot(out, "  ", Some(project.pane_title_position_warning().as_str()));
        proof { lemma_push(start, x, a1); }
    } else {
        proof { lemma_skip(start, x, a1); }
    }
    proof {
        x = x + title_warning_part(p);
    }
    push_nl(out);
    proof {
        lemma_push(start, x, nl());
        x = x + nl();
    }
    push_line(out, "  # Create windows.");
    proof {
        lemma_push(start, x, line("  # Create windows."@));
        x = x + line("  # Create windows."@);
    }
    push_new_window_slots(out, project);
    proof {
        lemma_push(start, x, new_window_slots(p, ws));
        x = x + new_window_slots(p, ws);
    }
    push_nl(out);
    proof {
        lemma_push(start, x, nl());
        x = x + nl();
    }
    push_window_blocks(out, project);
    proof {
        lemma_push(start, x, window_blocks(p, ws));
        x = x + window_blocks(p, ws);
    }
    push_nl(out);
    proof {
        lemma_push(start, x, nl());
        x = x + nl();
    }
    let tmux = project.tmux();
    push_tmux_line(out, tmux.as_str(), " select-window -t ", project.startup_window().as_str());
    proof {
        let a = line("  "@ + spec_tmux(p) + " select-window -t "@ + spec_startup_window(p));
        lemma_push(start, x, a);
        x = x + a;
    }
    push_tmux_line(out, tmux.as_str(), " select-pane -t ", project.startup_pane().as_str());
    proof {
        let a = line("  "@ + spec_tmux(p) + " select-pane -t "@ + spec_startup_pane(p));
        lemma_push(start, x, a);
        x = x + a;
        reveal(creation_part);
        assert(x == creation_part(p));
    }
}

fn push_attach_part(out: &mut Vec<char>, project: &Project)
    ensures
        final(out)@ == old(out)@ + attach_part(project),
{
    let ghost start = out@;
    proof {
        reveal(attach_part);
    }
    if project.attach() && !project.opts.append {
        let tmux = project.tmux();
        let name = match project.name() {
            Some(n) => n,
            None => String::new(),
        };
        proof {
            if spec_name(project) is None {
                assert(name@ =~= Seq::<char>::empty());
            }
        }
        let mut buf: Vec<char> = Vec::new();
        push_line(&mut buf, "  if [ -z \"$TMUX\" ]; then");
        let mut l: Vec<char> = Vec::new();
        extend_str(&mut l, "    ");
        extend_str(&mut l, tmux.as_str());
        extend_str(&mut l, " -u attach-session -t ");
        extend_str(&mut l, name.as_str());
        push_line(&mut buf, string_of(l.as_slice()).as_str());
        push_line(&mut buf, "  else");
        let mut l: Vec<char> = Vec::new();
        extend_str(&mut l, "    ");
        extend_str(&mut l, tmux.as_str());
        extend_str(&mut l, " -u switch-client -t ");
        extend_str(&mut l, name.as_str());
        push_line(&mut buf, string_of(l.as_slice()).as_str());
        push_line(&mut buf, "  fi");
        assert(buf@ =~= attach_part(project));
        crate::text::extend_chars(out, buf.as_slice());
    } else {
        assert(attach_part(project) =~= Seq::<char>::empty());
        assert(out@ =~= start + attach_part(project));
    }
}

fn push_rbenv_part(out: &mut Vec<char>, project: &Project)
    ensures
        final(out)@ == old(out)@ + (line("  # Clear rbenv variables before starting tmux"@) + line(
            "  unset RBENV_VERSION"@,
        ) + line("  unset RBENV_DIR"@) + nl() + line("  "@ + spec_tmux(project) + " start-server;"@)),
{
    let mut buf: Vec<char> = Vec::new();
    push_line(&mut buf, "  # Clear rbenv variables before starting tmux");
    push_line(&mut buf, "  unset RBENV_VERSION");
    push_line(&mut buf, "  unset RBENV_DIR");
    push_nl(&mut buf);
    let mut l: Vec<char> = Vec::new();
    extend_str(&mut l, "  ");
    extend_str(&mut l, project.tmux().as_str());
    extend_str(&mut l, " start-server;");
    push_line(&mut buf, string_of(l.as_slice()).as_str());
    assert(buf@ =~= line("  # Clear rbenv variables before starting tmux"@) + line("  unset RBENV_VERSION"@)
        + line("  unset RBENV_DIR"@) + nl() + line("  "@ + spec_tmux(project) + " start-server;"@));
    crate::text::extend_chars(out, buf.as_slice());
}

fn push_cd_line(out: &mut Vec<char>, project: &Project, prefix: &str)
    ensures
        final(out)@ == old(out)@ + line(prefix@ + root_or_dot(project)),
{
    let mut l: Vec<char> = Vec::new();
    extend_str(&mut l, prefix);
    match project.root() {
        Some(r) => extend_str(&mut l, r.as_str()),
        None => extend_str(&mut l, "."),
    }
    push_line(out, string_of(l.as_slice()).as_str());
}

fn push_restart_part(out: &mut Vec<char>, project: &Project)
    ensures
        final(out)@ == old(out)@ + restart_part(project),
{
    let ghost start = out@;
    push_line(out, "  # Run on_project_restart command.");
    push_slot(out, "  ", opt_as_str(&project.hook(HOOK_ON_PROJECT_RESTART)));
    proof {
        lemma_push(start, line("  # Run on_project_restart command."@), slot("  "@, spec_hook(project, HOOK_ON_PROJECT_RESTART@)));
    }
}

/// The script that starts (or restarts) a project.
pub fn render_start(project: &Project) -> (r: String)
    ensures
        r@ == spec_render_start(project),
{
    let ghost p = project;
    let ghost start: Seq<char> = seq![];
    let mut out: Vec<char> = Vec::new();
    let mut head: Vec<char> = Vec::new();
    extend_str(&mut head, "#!");
    extend_str(&mut head, project.env.shell_or_default());
    let head = string_of(head.as_slice());
    push_line(&mut out, head.as_str());
    let ghost mut x = shebang(p);
    assert(out@ =~= start + x);
    push_nl(&mut out);
    proof { lemma_push(start, x, nl()); x = x + nl(); }
    push_nl(&mut out);
    proof { lemma_push(start, x, nl()); x = x + nl(); }
    let ghost a1 = line("  # Clear rbenv variables before starting tmux"@) + line("  unset RBENV_VERSION"@)
        + line("  unset RBENV_DIR"@) + nl() + line("  "@ + spec_tmux(p) + " start-server;"@);
    if !project.opts.append {
        push_rbenv_part(&mut out, project);
        proof { lemma_push(start, x, a1); }
    } else {
        proof { lemma_skip(start, x, a1); }
    }
    proof { x = x + when(!p.opts.append, a1); }
    push_nl(&mut out);
    proof { lemma_push(start, x, nl()); x = x + nl(); }
    push_cd_line(&mut out, project, "cd ");
    proof { lemma_push(start, x, line("cd "@ + root_or_dot(p))); x = x + line("cd "@ + root_or_dot(p)); }
    push_nl(&mut out);
    proof { lemma_push(start, x, nl()); x = x + nl(); }
    push_line(&mut out, "# Run on_project_start command.");
    proof {
        lemma_push(start, x, line("# Run on_project_start command."@));
        x = x + line("# Run on_project_start command."@);
    }
    proof {
        reveal_strlit("");
        assert(""@ =~= Seq::<char>::empty());
    }
    push_slot(&mut out, "", opt_as_str(&project.hook(HOOK_ON_PROJECT_START)));
    proof {
        lemma_push(start, x, slot(seq![], spec_hook(p, HOOK_ON_PROJECT_START@)));
        x = x + slot(seq![], spec_hook(p, HOOK_ON_PROJECT_START@));
    }
    push_nl(&mut out);
    proof { lemma_push(start, x, nl()); x = x + nl(); }
    let ghost a3 = if p.opts.append || !p.facts.session_exists {
        creation_part(p)
    } else {
        restart_part(p)
    };
    if project.opts.append || !project.has_session() {
        push_creation_part(&mut out, project);
    } else {
        push_restart_part(&mut out, project);
    }
    proof { lemma_push(start, x, a3); x = x + a3; }
    push_nl(&mut out);
    proof { lemma_push(start, x, nl()); x = x + nl(); }
    push_attach_part(&mut out, project);
    proof { lemma_push(start, x, attach_part(p)); x = x + attach_part(p); }
    push_nl(&mut out);
    proof { lemma_push(start, x, nl()); x = x + nl(); }
    push_slot(&mut out, "", None);
    proof { lemma_push(start, x, slot(seq![], None)); x = x + slot(seq![], None); }
    push_nl(&mut out);
    proof { lemma_push(start, x, nl()); x = x + nl(); }
    push_line(&mut out, "# Run on_project_exit command.");
    proof {
        lemma_push(start, x, line("# Run on_project_exit command."@));
        x = x + line("# Run on_project_exit command."@);
    }
    push_slot(&mut out, "", opt_as_str(&project.hook(HOOK_ON_PROJECT_EXIT)));
    proof {
        lemma_push(start, x, slot(seq![], spec_hook(p, HOOK_ON_PROJECT_EXIT@)));
        x = x + slot(seq![], spec_hook(p, HOOK_ON_PROJECT_EXIT@));
        reveal(spec_render_start);
        assert(x == spec_render_start(p));
        assert(start + x =~= x);
    }
    string_of(out.as_slice())
}

/// The script that stops a project.
pub fn render_stop(project: &Project) -> (r: String)
    ensures
        r@ == spec_render_stop(project),
{
    let ghost p = project;
    let mut out: Vec<char> = Vec::new();
    let mut head: Vec<char> = Vec::new();
    extend_str(&mut head, "#!");
    extend_str(&mut head, project.env.shell_or_default());
    let head = string_of(head.as_slice());
    push_line(&mut out, head.as_str());
    push_nl(&mut out);
    let ghost x = shebang(p) + nl();
    assert(out@ =~= x);
    let ghost a1 = line("  cd "@ + root_or_dot(p)) + nl() + line("  # Run on_project_stop command"@) + slot(
        "  "@,
        spec_hook(p, HOOK_ON_PROJECT_STOP@),
    ) + nl() + line("  "@ + spec_kill_session_command(p));
    if project.has_session() {
        let mut buf: Vec<char> = Vec::new();
        let mut l: Vec<char> = Vec::new();
        extend_str(&mut l, "  cd ");
        match project.root() {
            Some(r) => extend_str(&mut l, r.as_str()),
            None => extend_str(&mut l, "."),
        }
        push_line(&mut buf, string_of(l.as_slice()).as_str());
        push_nl(&mut buf);
        push_line(&mut buf, "  # Run on_project_stop command");
        push_slot(&mut buf, "  ", opt_as_str(&project.hook(HOOK_ON_PROJECT_STOP)));
        push_nl(&mut buf);
        let mut l: Vec<char> = Vec::new();
        extend_str(&mut l, "  ");
        extend_str(&mut l, project.kill_session_command().as_str());
        push_line(&mut buf, string_of(l.as_slice()).as_str());
        assert(buf@ =~= a1);
        crate::text::extend_chars(&mut out, buf.as_slice());
    }
    proof {
        reveal(spec_render_stop);
        assert(out@ =~= spec_render_stop(p));
    }
    string_of(out.as_slice())
}

} // verus!
