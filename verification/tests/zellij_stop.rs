use bootmux::zellij::ZellijError;
use bootmux::zellij_backend::stop_outcome;

#[test]
fn a_stop_reports_the_hook_failure_first_and_then_the_kill() {
    assert_eq!(stop_outcome("demo", Ok(()), Ok(())), Ok(()));
    assert_eq!(
        stop_outcome("demo", Err("exit 3".to_string()), Err("gone".to_string())),
        Err("on_project_stop hook failed: exit 3".to_string())
    );
    assert_eq!(
        stop_outcome("demo", Ok(()), Err("gone".to_string())),
        Err("failed to stop zellij session \"demo\": gone".to_string())
    );
}

#[test]
fn a_failed_spawn_names_the_command_it_ran() {
    let error = ZellijError::Spawn {
        invocation: "zellij list-sessions".to_string(),
        source: std::io::Error::new(std::io::ErrorKind::NotFound, "no such file"),
    };
    assert_eq!(error.message(), "failed to run `zellij list-sessions`: no such file");
    let layout = ZellijError::LayoutFile {
        path: "/tmp/a b.kdl".to_string(),
        source: std::io::Error::new(std::io::ErrorKind::PermissionDenied, "denied"),
    };
    assert_eq!(layout.message(), "could not write the zellij layout \"/tmp/a b.kdl\": denied");
}
