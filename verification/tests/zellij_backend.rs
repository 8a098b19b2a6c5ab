use bootmux::layout::{Layout, Ratio, SplitDirection};
use bootmux::project_spec::{Hooks, PaneSpec, ProjectSpec, WindowSpec};
use bootmux::env::Env;
use bootmux::process::{CommandOutput, CommandRunner, Invocation};
use bootmux::zellij::{PaneInfo, Zellij};
use bootmux::zellij_backend::{
    check_windows, focus_session, focus_step, group_panes, rollback_tabs, run_pane_commands,
    session_name, tab_panes, tab_panes_message, validate_ratios, FocusStep,
    MAX_SESSION_NAME_LENGTH,
};
use std::collections::VecDeque;
use std::io;
use std::sync::Mutex;

#[derive(Default)]
struct FakeRunner {
    outputs: Mutex<VecDeque<CommandOutput>>,
    invocations: Mutex<Vec<Invocation>>,
}

impl FakeRunner {
    fn with(outputs: Vec<CommandOutput>) -> Self {
        Self {
            outputs: Mutex::new(outputs.into()),
            invocations: Mutex::new(Vec::new()),
        }
    }

    /// The action arguments of each call, after `--session NAME action`.
    fn actions(&self) -> Vec<Vec<String>> {
        self.invocations
            .lock()
            .unwrap()
            .iter()
            .map(|invocation| {
                let start = invocation
                    .args
                    .iter()
                    .position(|arg| arg == "action")
                    .map(|i| i + 1)
                    .unwrap_or(0);
                invocation.args[start..].to_vec()
            })
            .collect()
    }
}

impl CommandRunner for FakeRunner {
    fn run(&self, invocation: &Invocation) -> io::Result<CommandOutput> {
        self.invocations.lock().unwrap().push(invocation.clone());
        self.outputs
            .lock()
            .unwrap()
            .pop_front()
            .ok_or_else(|| io::Error::other("no fake output"))
    }

    fn spawn_detached(&self, invocation: &Invocation) -> io::Result<u32> {
        self.invocations.lock().unwrap().push(invocation.clone());
        Ok(42)
    }

    fn error_envelope(&self, _output: &[u8]) -> Option<(String, String)> {
        None
    }
}

fn ok(stdout: &str) -> CommandOutput {
    CommandOutput {
        success: true,
        code: Some(0),
        stdout: stdout.as_bytes().to_vec(),
        stderr: Vec::new(),
    }
}

fn failed(stderr: &str) -> CommandOutput {
    CommandOutput {
        success: false,
        code: Some(2),
        stdout: Vec::new(),
        stderr: stderr.as_bytes().to_vec(),
    }
}

fn pane(id: u32, tab_position: u32, x: u32, y: u32) -> PaneInfo {
    PaneInfo {
        id,
        is_plugin: false,
        is_floating: false,
        is_suppressed: false,
        title: String::new(),
        tab_id: tab_position,
        tab_position,
        tab_name: "t".to_string(),
        pane_x: x,
        pane_y: y,
    }
}

fn env_with_session(name: &str) -> Env {
    Env {
        all: vec![("ZELLIJ_SESSION_NAME".to_string(), name.to_string())],
        ..Env::default()
    }
}

fn window(layout: Option<&str>, pane_count: usize) -> WindowSpec {
    WindowSpec {
        name: None,
        root: "/tmp".into(),
        pre: None,
        commands: Vec::new(),
        panes: (0..pane_count)
            .map(|_| PaneSpec {
                title: None,
                commands: Vec::new(),
                split: None,
            })
            .collect(),
        layout: layout.map(str::to_string),
        pane_chain: false,
        focused_pane: 0,
    }
}

fn spec_named(name: &str) -> ProjectSpec {
    ProjectSpec {
        source_path: "/tmp/a.yml".into(),
        name: name.into(),
        root: "/tmp".into(),
        attach: false,
        append: false,
        socket_name: None,
        socket_path: None,
        startup_window: 0,
        startup_pane: None,
        pre_window: None,
        hooks: Hooks::default(),
        windows: vec![window(None, 0)],
        warnings: Vec::new(),
    }
}

#[test]
fn session_names_keep_characters_tmux_would_rewrite() {
    // The tmux backend replaces `.` and `:`; zellij has no such target
    // syntax, so the project name is used verbatim.
    assert_eq!(
        session_name(&spec_named("api.dev:one")).unwrap(),
        "api.dev:one"
    );
    assert_eq!(session_name(&spec_named("  padded  ")).unwrap(), "padded");
}

#[test]
fn session_names_that_zellij_cannot_hold_are_rejected_with_a_fix() {
    let long = "x".repeat(MAX_SESSION_NAME_LENGTH + 1);
    let error = session_name(&spec_named(&long)).unwrap_err();
    assert!(error.contains("37 characters"), "{error}");
    assert!(error.contains("-n NAME"), "{error}");

    assert!(session_name(&spec_named(&"x".repeat(MAX_SESSION_NAME_LENGTH))).is_ok());
    assert!(session_name(&spec_named("a/b")).unwrap_err().contains('/'));
    assert!(session_name(&spec_named("a\nb")).is_err());
    assert!(session_name(&spec_named("   ")).is_err());
    assert_eq!(
        session_name(&spec_named("a\u{1b}b")).unwrap_err(),
        "zellij session name \"a\\u{1b}b\" cannot contain the control character '\\u{1b}'."
    );
}

#[test]
fn ratios_outside_the_representable_range_fail_instead_of_clamping() {
    let layout = Layout::Split {
        direction: SplitDirection::Right,
        ratio: Ratio { first: 5, whole: 100 },
        first: Box::new(Layout::Pane(0)),
        second: Box::new(Layout::Pane(1)),
    };
    assert!(validate_ratios(&layout)
        .unwrap_err()
        .contains("cannot be represented"));
    assert!(validate_ratios(&Layout::even_horizontal(9).unwrap()).is_ok());
}

#[test]
fn window_checks_compare_layout_and_configured_pane_counts() {
    let mut spec = spec_named("api");
    spec.windows = vec![window(Some("tiled"), 3), window(Some("nonsense"), 2)];
    let error = check_windows(&spec, "zellij").unwrap_err();
    assert!(error.starts_with("invalid tmux serialized layout `nonsense`"), "{error}");

    spec.windows = vec![window(Some("main-vertical"), 2)];
    spec.windows[0].name = Some("editor".into());
    assert!(check_windows(&spec, "zellij").is_ok());
}

#[test]
fn panes_are_grouped_by_tab_and_ordered_by_geometry() {
    // Reported out of order, and with a plugin and a floating pane mixed in.
    let mut plugin = pane(9, 0, 0, 0);
    plugin.is_plugin = true;
    plugin.title = "tab-bar".to_string();
    let mut floating = pane(8, 0, 0, 0);
    floating.is_floating = true;
    floating.title = "float".to_string();
    let panes = vec![
        plugin,
        floating,
        pane(3, 1, 0, 0),
        pane(2, 0, 25, 30),
        pane(0, 0, 0, 0),
        pane(1, 0, 0, 30),
    ];
    assert_eq!(
        group_panes(panes),
        vec![
            vec![
                "terminal_0".to_string(),
                "terminal_1".to_string(),
                "terminal_2".to_string()
            ],
            vec!["terminal_3".to_string()],
        ]
    );
}

#[test]
fn pane_commands_run_pre_window_then_window_pre_then_the_panes_own() {
    let mut spec = spec_named("order");
    spec.pre_window = Some("nvm use".to_string());
    spec.windows = vec![WindowSpec {
        name: Some("app".to_string()),
        root: "/work".into(),
        pre: Some("source .env".to_string()),
        commands: Vec::new(),
        panes: vec![
            PaneSpec {
                title: Some("one".to_string()),
                commands: vec!["echo first".to_string()],
                split: None,
            },
            PaneSpec {
                title: Some("two".to_string()),
                commands: vec!["echo a".to_string(), "echo b".to_string()],
                split: None,
            },
        ],
        layout: None,
        pane_chain: false,
        focused_pane: 0,
    }];
    // Two write-chars/send-keys pairs per command: 3 for pane 0, 4 for pane 1.
    let client = Zellij::with_runner("zellij".to_string(), FakeRunner::with(vec![ok(""); (3 + 4) * 2]));

    run_pane_commands(
        &client,
        "api",
        &spec,
        0,
        &vec!["terminal_0".to_string(), "terminal_1".to_string()],
    )
    .unwrap();

    let typed: Vec<String> = client
        .runner()
        .actions()
        .into_iter()
        .filter(|action| action.first().map(String::as_str) == Some("write-chars"))
        .map(|action| format!("{} {}", action[2], action[3]))
        .collect();
    assert_eq!(
        typed,
        vec![
            "terminal_0 nvm use",
            "terminal_0 source .env",
            "terminal_0 echo first",
            "terminal_1 nvm use",
            "terminal_1 source .env",
            "terminal_1 echo a",
            "terminal_1 echo b",
        ]
    );
    // Each typed command is submitted with Enter, matching tmux's C-m.
    let submitted = client
        .runner()
        .actions()
        .into_iter()
        .filter(|action| action.first().map(String::as_str) == Some("send-keys"))
        .count();
    assert_eq!(submitted, typed.len());
}

#[test]
fn a_tab_whose_pane_count_never_matches_reports_both_counts() {
    // The layout only ever yields one pane, but two are configured.
    let found = tab_panes(vec![pane(0, 0, 0, 0)], 0, 2).unwrap_err();
    let error = tab_panes_message(0, found, 2);
    assert!(error.contains("1 panes"), "{error}");
    assert!(error.contains("2 are configured"), "{error}");
}

#[test]
fn an_appended_tab_lists_its_panes_top_to_bottom_then_left_to_right() {
    let panes = vec![pane(5, 2, 40, 0), pane(6, 2, 0, 20), pane(4, 2, 0, 0), pane(7, 1, 0, 0)];
    assert_eq!(
        tab_panes(panes, 2, 3).unwrap(),
        vec!["terminal_4", "terminal_5", "terminal_6"]
    );
}

#[test]
fn append_rollback_closes_tabs_newest_first_and_reports_what_it_could_not_close() {
    let client = Zellij::with_runner("zellij".to_string(), FakeRunner::with(vec![ok(""), ok("")]));
    assert_eq!(rollback_tabs(&client, "api", &[4, 7]), None);
    assert_eq!(
        client
            .runner()
            .actions()
            .iter()
            .map(|action| action.join(" "))
            .collect::<Vec<_>>(),
        vec!["close-tab --tab-id 7", "close-tab --tab-id 4"]
    );

    let stubborn = Zellij::with_runner(
        "zellij".to_string(),
        FakeRunner::with(vec![failed("tab is busy"), ok("")]),
    );
    let detail = rollback_tabs(&stubborn, "api", &[4, 7]).unwrap();
    assert!(detail.contains("rollback was incomplete"), "{detail}");
    assert!(detail.contains("tab 7"), "{detail}");
}

#[test]
fn focus_is_skipped_when_the_project_does_not_attach() {
    let client = Zellij::with_runner("zellij".to_string(), FakeRunner::default());
    assert_eq!(focus_session(&Env::default(), &client, "api", false), Ok(false));
    assert!(client.runner().actions().is_empty());
}

#[test]
fn attaching_from_another_session_switches_instead_of_nesting() {
    let env = env_with_session("other");
    let client = Zellij::with_runner("zellij".to_string(), FakeRunner::with(vec![ok("")]));
    assert_eq!(focus_session(&env, &client, "api", true), Ok(false));
    assert_eq!(
        client.runner().actions(),
        vec![vec!["switch-session".to_string(), "api".to_string()]]
    );

    // Already inside the project's own session, nothing to do.
    let same = env_with_session("api");
    let client = Zellij::with_runner("zellij".to_string(), FakeRunner::default());
    assert_eq!(focus_session(&same, &client, "api", true), Ok(false));
    assert!(client.runner().actions().is_empty());
}

#[test]
fn outside_zellij_the_terminal_attaches() {
    assert_eq!(focus_step(&Env::default(), "api", true), FocusStep::Attach);
    assert_eq!(focus_step(&env_with_session(""), "api", true), FocusStep::Attach);
    assert_eq!(
        focus_step(&env_with_session("other"), "api", true),
        FocusStep::Switch("other".to_string())
    );
    assert_eq!(focus_step(&env_with_session("other"), "api", false), FocusStep::Stay);
}

#[test]
fn a_command_that_cannot_be_typed_is_named_with_its_pane() {
    let mut spec = spec_named("order");
    spec.pre_window = Some("nvm use".to_string());
    let client = Zellij::with_runner("zellij".to_string(), FakeRunner::with(vec![failed("no such pane")]));
    let error = run_pane_commands(&client, "api", &spec, 0, &vec!["terminal_0".to_string()]).unwrap_err();
    assert_eq!(error, "failed to run `nvm use` in tab 0 pane 0");

    // Nothing to type: no call is made and it succeeds.
    let quiet = spec_named("quiet");
    let client = Zellij::with_runner("zellij".to_string(), FakeRunner::default());
    assert_eq!(run_pane_commands(&client, "api", &quiet, 0, &vec!["terminal_0".to_string()]), Ok(()));
    assert!(client.runner().actions().is_empty());
}
