use bootmux::session_project::project_from_session;
use bootmux::yaml_ext::Yaml;

fn s(text: &str) -> Yaml {
    Yaml::String(text.to_string())
}

fn window(name: &str, layout: &str, panes: &[&str]) -> Yaml {
    Yaml::Mapping(vec![(
        s(name),
        Yaml::Mapping(vec![
            (s("layout"), s(layout)),
            (s("panes"), Yaml::Sequence(panes.iter().map(|p| s(p)).collect())),
        ]),
    )])
}

#[test]
fn a_session_becomes_a_project_rooted_at_its_active_window() {
    let windows = "editor even-horizontal 0 /home/a\nlogs tiled 1 /var/log\nbroken line\n";
    let panes = "editor /home/a\neditor /home/a/src\nlogs /var/log\n";
    let options = "status on\n";
    let project = project_from_session("demo", windows, panes, options);
    let expected = Yaml::Mapping(vec![
        (s("name"), s("demo")),
        (s("project_root"), s("/var/log")),
        (
            s("windows"),
            Yaml::Sequence(vec![
                window("editor", "even-horizontal", &["cd /home/a", "cd /home/a/src"]),
                window("logs", "tiled", &["cd /var/log"]),
            ]),
        ),
    ]);
    assert_eq!(project, expected);
}

#[test]
fn the_session_default_path_wins_over_the_active_window() {
    let windows = "main main-vertical 1 /srv/app\n";
    let panes = "other /tmp\n";
    let options = "status on\ndefault-path \"/srv\"\n";
    let project = project_from_session("svc", windows, panes, options);
    let expected = Yaml::Mapping(vec![
        (s("name"), s("svc")),
        (s("project_root"), s("/srv")),
        (s("windows"), Yaml::Sequence(vec![window("main", "main-vertical", &[])])),
    ]);
    assert_eq!(project, expected);
}

#[test]
fn a_session_without_active_window_or_default_path_has_no_root() {
    let project = project_from_session("empty", "", "", "");
    let expected = Yaml::Mapping(vec![
        (s("name"), s("empty")),
        (s("project_root"), Yaml::Null),
        (s("windows"), Yaml::Sequence(vec![])),
    ]);
    assert_eq!(project, expected);
}
