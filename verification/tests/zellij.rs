use std::collections::VecDeque;
use std::io;
use std::sync::Mutex;

use bootmux::process::{CommandOutput, CommandRunner, Invocation};
use bootmux::zellij::{
    combined, minimum_version, parse_session_listing, tab_id_from_output, LayoutFile, PaneInfo,
    Zellij, ZellijError, ZellijVersion,
};

#[derive(Default)]
struct FakeRunner {
    outputs: Mutex<VecDeque<CommandOutput>>,
    invocations: Mutex<Vec<Invocation>>,
}

impl FakeRunner {
    fn with(outputs: Vec<CommandOutput>) -> Self {
        Self {
            outputs: Mutex::new(outputs.into()),
            invocations: Mutex::new(Vec::new()),
        }
    }

    fn args(&self, index: usize) -> Vec<String> {
        self.invocations.lock().unwrap()[index].args.clone()
    }
}

impl CommandRunner for FakeRunner {
    fn run(&self, invocation: &Invocation) -> io::Result<CommandOutput> {
        self.invocations.lock().unwrap().push(invocation.clone());
        self.outputs
            .lock()
            .unwrap()
            .pop_front()
            .ok_or_else(|| io::Error::other("no fake output"))
    }

    fn spawn_detached(&self, invocation: &Invocation) -> io::Result<u32> {
        self.invocations.lock().unwrap().push(invocation.clone());
        Ok(42)
    }

    fn error_envelope(&self, _output: &[u8]) -> Option<(String, String)> {
        None
    }
}

fn ok(stdout: &str) -> CommandOutput {
    CommandOutput {
        success: true,
        code: Some(0),
        stdout: stdout.as_bytes().to_vec(),
        stderr: Vec::new(),
    }
}

fn failed(code: i32, stderr: &str) -> CommandOutput {
    CommandOutput {
        success: false,
        code: Some(code),
        stdout: Vec::new(),
        stderr: stderr.as_bytes().to_vec(),
    }
}

#[test]
fn version_parsing_tolerates_prefixes_and_suffixes() {
    assert_eq!(
        ZellijVersion::parse("zellij 0.44.3\n"),
        Some(ZellijVersion {
            major: 0,
            minor: 44,
            patch: 3
        })
    );
    assert_eq!(
        ZellijVersion::parse("zellij 1.0"),
        Some(ZellijVersion {
            major: 1,
            minor: 0,
            patch: 0
        })
    );
    assert_eq!(
        ZellijVersion::parse("zellij 0.45.0-alpha.1+deadbeef"),
        Some(ZellijVersion {
            major: 0,
            minor: 45,
            patch: 0
        })
    );
    assert_eq!(ZellijVersion::parse("zellij unknown"), None);

    assert!(!ZellijVersion::parse("zellij 0.43.9").unwrap().supported());
    assert!(ZellijVersion::parse("zellij 0.44.0").unwrap().supported());
    assert!(ZellijVersion::parse("zellij 0.44.3").unwrap().supported());
    assert!(ZellijVersion::parse("zellij 1.2.0").unwrap().supported());
}

#[test]
fn an_old_zellij_is_rejected_with_both_versions_named() {
    let runner = FakeRunner::with(vec![ok("zellij 0.43.1\n")]);
    let error = Zellij::with_runner("zellij".to_string(), runner)
        .require_supported_version()
        .unwrap_err()
        .message();
    assert!(error.contains("0.43.1"), "{error}");
    assert!(error.contains("0.44.0"), "{error}");
}

#[test]
fn session_listing_skips_resurrectable_sessions_and_survives_an_empty_list() {
    let runner = FakeRunner::with(vec![ok(
        "api [Created 2s ago] \nold [Created 16days ago] (EXITED - attach to resurrect)\nweb [Created 1m ago] \n",
    )]);
    let client = Zellij::with_runner("zellij".to_string(), runner);
    assert_eq!(client.sessions().unwrap(), vec!["api", "web"]);
    assert_eq!(
        client.runner().args(0),
        vec!["list-sessions".to_string(), "--no-formatting".to_string()]
    );

    // zellij exits non-zero when nothing is running, which is not a failure.
    let empty = Zellij::with_runner(
        "zellij".to_string(),
        FakeRunner::with(vec![failed(1, "No active zellij sessions found.")]),
    );
    assert!(empty.sessions().unwrap().is_empty());

    let broken = Zellij::with_runner(
        "zellij".to_string(),
        FakeRunner::with(vec![failed(2, "permission denied")]),
    );
    assert!(broken
        .sessions()
        .unwrap_err()
        .message()
        .contains("permission denied"));
}

#[test]
fn topology_commands_pin_the_session_and_use_documented_cli_shapes() {
    let runner = FakeRunner::with(vec![
        ok(""),
        ok("2\n"),
        ok(""),
        ok(""),
        ok(""),
        ok(""),
        ok(""),
        ok(""),
    ]);
    let client = Zellij::with_runner("zellij".to_string(), runner);

    let layout = LayoutFile::at("/tmp/bootmux-layout-test.kdl".to_string());
    client.create_background_session("api", &layout).unwrap();
    let tab = client.new_tab("api", Some("editor"), &layout).unwrap();
    assert_eq!(tab, 2);
    client.rename_pane("api", "terminal_3", "vim").unwrap();
    client
        .run_in_pane("api", "terminal_3", "npm run dev")
        .unwrap();
    client.focus_pane("api", "terminal_3").unwrap();
    client.go_to_tab("api", 1).unwrap();
    client.close_tab("api", 2).unwrap();

    let runner = client.runner();
    let created = runner.args(0);
    assert_eq!(created[0], "--layout");
    assert!(
        created[1].ends_with(".kdl"),
        "the layout must be handed over as a file: {created:?}"
    );
    assert_eq!(created[2..], ["attach", "--create-background", "api"]);
    let appended = runner.args(1);
    assert_eq!(
        appended[..6],
        ["--session", "api", "action", "new-tab", "--name", "editor"]
    );
    assert_eq!(appended[6], "--layout");
    assert!(
        appended[7].ends_with(".kdl"),
        "the appended layout must be handed over as a file: {appended:?}"
    );
    assert_eq!(
        runner.args(2),
        vec![
            "--session",
            "api",
            "action",
            "rename-pane",
            "--pane-id",
            "terminal_3",
            "vim",
        ]
    );
    // A pane command is typed and then submitted, exactly like tmux's
    // `send-keys … C-m`.
    assert_eq!(
        runner.args(3),
        vec![
            "--session",
            "api",
            "action",
            "write-chars",
            "--pane-id",
            "terminal_3",
            "npm run dev",
        ]
    );
    assert_eq!(
        runner.args(4),
        vec![
            "--session",
            "api",
            "action",
            "send-keys",
            "--pane-id",
            "terminal_3",
            "Enter",
        ]
    );
    assert_eq!(
        runner.args(5),
        vec!["--session", "api", "action", "focus-pane-id", "terminal_3"]
    );
    assert_eq!(
        runner.args(6),
        vec!["--session", "api", "action", "go-to-tab", "1"]
    );
    assert_eq!(
        runner.args(7),
        vec!["--session", "api", "action", "close-tab", "--tab-id", "2"]
    );
}

#[test]
fn a_new_tab_that_does_not_report_an_id_is_an_error() {
    let client = Zellij::with_runner(
        "zellij".to_string(),
        FakeRunner::with(vec![ok("Session not found")]),
    );
    let layout = LayoutFile::at("/tmp/layout.kdl".to_string());
    let error = client.new_tab("api", None, &layout).unwrap_err();
    assert!(error.message().contains("instead of a tab id"), "{error:?}");
}

#[test]
fn panes_are_addressed_as_terminals_and_classified() {
    let pane = PaneInfo {
        id: 0,
        is_plugin: false,
        is_floating: false,
        is_suppressed: false,
        title: "vim".to_string(),
        tab_id: 0,
        tab_position: 0,
        tab_name: "editor".to_string(),
        pane_x: 0,
        pane_y: 0,
    };
    assert_eq!(pane.target(), "terminal_0");
    assert!(pane.is_ordinary_terminal());
    let plugin = PaneInfo { id: 7, is_plugin: true, ..pane.clone() };
    assert_eq!(plugin.target(), "terminal_7");
    assert!(!plugin.is_ordinary_terminal());
    let floating = PaneInfo { is_floating: true, ..pane.clone() };
    assert!(!floating.is_ordinary_terminal());
}

#[test]
fn command_output_is_read_exactly() {
    assert_eq!(combined(" out \n", " err "), "err; out");
    assert_eq!(combined("", " err "), "err");
    assert_eq!(combined("out", ""), "out");
    assert_eq!(
        parse_session_listing("  \nalpha beta\n(EXITED x\ngamma"),
        vec!["alpha", "gamma"]
    );
    assert_eq!(tab_id_from_output("zellij".to_string(), " 17\n").unwrap(), 17);
    let error = tab_id_from_output("zellij x".to_string(), "nope").unwrap_err();
    assert_eq!(error.message(), "`zellij x` returned \"nope\" instead of a tab id");
    assert_eq!(
        minimum_version(),
        ZellijVersion { major: 0, minor: 44, patch: 0 }
    );
    let failed = ZellijError::CommandFailed {
        invocation: "zellij kill-session api".to_string(),
        code: Some(2),
        output: "boom".to_string(),
    };
    assert_eq!(
        failed.message(),
        "`zellij kill-session api` failed with exit status 2: boom"
    );
    assert!(matches!(
        ZellijVersion::from_output("nothing".to_string()),
        Err(ZellijError::UnparsableVersion { .. })
    ));
}

#[test]
fn a_failed_action_names_its_command_line() {
    let client = Zellij::with_runner("zellij".to_string(), FakeRunner::with(vec![failed(1, "busy")]));
    match client.close_tab("api", 7) {
        Err(ZellijError::CommandFailed { invocation, .. }) => {
            assert_eq!(invocation, "zellij \"--session\" \"api\" \"action\" \"close-tab\" \"--tab-id\" \"7\"");
        }
        other => panic!("unexpected {other:?}"),
    }
}

#[test]
fn a_session_is_running_when_the_listing_names_it() {
    let listing = "api [Created 2s ago] \nold [Created 16days ago] (EXITED - attach to resurrect)\nweb [Created 1m ago] \n";
    for (name, expected) in [("api", true), ("web", true), ("old", false)] {
        let client = Zellij::with_runner("zellij".to_string(), FakeRunner::with(vec![ok(listing)]));
        assert_eq!(client.has_session(name).unwrap(), expected, "{name}");
    }
    let client = Zellij::with_runner(
        "zellij".to_string(),
        FakeRunner::with(vec![failed(1, "No active zellij sessions found.")]),
    );
    assert!(!client.has_session("api").unwrap());
    let client = Zellij::with_runner("zellij".to_string(), FakeRunner::with(vec![failed(2, "permission denied")]));
    assert!(client.has_session("api").unwrap_err().message().contains("permission denied"));
}
