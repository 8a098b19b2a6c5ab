use bootmux::commands::manage::{config_path, edit};
use bootmux::commands::run::StartParams;
use bootmux::config::{
    config_file_basenames, configs, default_project, directories, directory, find_project_file,
    global_project, home_dir, local_project, project, project_in, resolve, sort_names, xdg_dir,
    ConfigDirs, ProjectFileQuery, NO_LOCAL_FILE_MSG,
};
use bootmux::env::Env;

fn env() -> Env {
    Env {
        home: "/home/test".into(),
        cwd: "/work".into(),
        ..Env::default()
    }
}

fn strings(items: &[&str]) -> Vec<String> {
    items.iter().map(|s| s.to_string()).collect()
}

#[test]
fn configuration_directories_follow_tmuxinator() {
    let mut e = env();
    assert_eq!(home_dir(&e), "/home/test/.tmuxinator");
    assert_eq!(xdg_dir(&e), "/home/test/.config/tmuxinator");
    e.xdg_config_home = Some("conf".into());
    assert_eq!(xdg_dir(&e), "/work/conf/tmuxinator");
}

#[test]
fn the_environment_directory_wins_then_the_first_existing_one() {
    let e = env();
    let set = ConfigDirs {
        environment: Some("/custom".into()),
        xdg_is_dir: true,
        home_is_dir: true,
    };
    assert_eq!(directory(&e, &set), "/custom");
    assert_eq!(directories(&e, &set), strings(&["/custom"]));

    let home_only = ConfigDirs {
        environment: None,
        xdg_is_dir: false,
        home_is_dir: true,
    };
    assert_eq!(directory(&e, &home_only), "/home/test/.tmuxinator");
    assert_eq!(directories(&e, &home_only), strings(&["/home/test/.tmuxinator"]));

    let none = ConfigDirs {
        environment: None,
        xdg_is_dir: false,
        home_is_dir: false,
    };
    assert_eq!(directory(&e, &none), "/home/test/.config/tmuxinator");
    assert!(directories(&e, &none).is_empty());

    let both = ConfigDirs {
        environment: None,
        xdg_is_dir: true,
        home_is_dir: true,
    };
    assert_eq!(
        directories(&e, &both),
        strings(&["/home/test/.config/tmuxinator", "/home/test/.tmuxinator"])
    );
}

#[test]
fn project_files_are_found_by_stem_among_yaml_files() {
    let files = strings(&[
        "/c/notes.txt",
        "/c/api.json",
        "/c/api.yaml",
        "/c/sub/api.yml",
        "/c/web.yml",
    ]);
    assert_eq!(project_in(&files, "api").as_deref(), Some("/c/api.yaml"));
    assert_eq!(project_in(&files, "web").as_deref(), Some("/c/web.yml"));
    assert_eq!(project_in(&files, "notes"), None);

    let searches = vec![Vec::new(), strings(&["/x/web.yml"]), strings(&["/h/web.yml", "/h/db.yml"])];
    assert_eq!(global_project(&searches, "web").as_deref(), Some("/x/web.yml"));
    assert_eq!(global_project(&searches, "db").as_deref(), Some("/h/db.yml"));
    assert_eq!(global_project(&searches, "gone"), None);
}

#[test]
fn a_named_project_falls_back_to_the_local_file_then_a_new_one() {
    assert_eq!(local_project(&[false, true]).as_deref(), Some("./.tmuxinator.yaml"));
    assert_eq!(local_project(&[true, true]).as_deref(), Some("./.tmuxinator.yml"));
    assert_eq!(local_project(&[false, false]), None);
    assert_eq!(default_project("/d", "api"), "/d/api.yml");
    assert_eq!(
        project(None, Some("./.tmuxinator.yml".into()), "/d/api.yml".into()),
        "./.tmuxinator.yml"
    );
    assert_eq!(project(Some("/x/api.yml".into()), None, "/d/api.yml".into()), "/x/api.yml");
    assert_eq!(project(None, None, "/d/api.yml".into()), "/d/api.yml");
    assert_eq!(resolve("/work", "a.yml"), "/work/a.yml");
    assert_eq!(resolve("/work", "/etc/a.yml"), "/etc/a.yml");
}

#[test]
fn configs_are_filtered_by_running_sessions() {
    let names = strings(&["api", "db", "api", "web"]);
    let sessions = strings(&["api", "web", "other"]);
    assert_eq!(configs(names.clone(), Some((true, &sessions))), strings(&["api", "web"]));
    assert_eq!(configs(names.clone(), Some((false, &sessions))), strings(&["db"]));
    assert_eq!(configs(names.clone(), None), names);
}

#[test]
fn listed_names_are_relative_sorted_and_lose_every_yml() {
    let listing = vec![
        (
            "/c".to_string(),
            strings(&["/c/zeta.yml", "/c/a.yml.yml", "/c/team/b.yml", "/c/skip.yaml"]),
        ),
        ("/h".to_string(), strings(&["/h/M.yml"])),
    ];
    assert_eq!(
        config_file_basenames(&listing),
        strings(&["M", "a", "team/b", "zeta"])
    );
    assert_eq!(
        sort_names(strings(&["b", "a", "ab", "é", "B"])),
        strings(&["B", "a", "ab", "b", "é"])
    );
}

#[test]
fn the_project_file_follows_the_query_precedence() {
    let by_path = ProjectFileQuery {
        name: Some("ignored"),
        project_config: Some("p.yml"),
    };
    assert_eq!(find_project_file(&by_path, true, None, String::new(), false).unwrap(), "p.yml");
    assert_eq!(
        find_project_file(&by_path, false, None, String::new(), false).unwrap_err(),
        "Project config (p.yml) doesn't exist."
    );
    let local = ProjectFileQuery {
        name: None,
        project_config: None,
    };
    assert_eq!(
        find_project_file(&local, false, Some("./.tmuxinator.yml".into()), String::new(), false)
            .unwrap(),
        "./.tmuxinator.yml"
    );
    assert_eq!(
        find_project_file(&local, false, None, String::new(), false).unwrap_err(),
        NO_LOCAL_FILE_MSG
    );
    let named = ProjectFileQuery {
        name: Some("api"),
        project_config: None,
    };
    assert_eq!(
        find_project_file(&named, false, None, "/c/api.yml".into(), true).unwrap(),
        "/c/api.yml"
    );
    assert_eq!(
        find_project_file(&named, false, None, "/c/api.yml".into(), false).unwrap_err(),
        "Project api doesn't exist."
    );
}

#[test]
fn start_params_put_a_name_given_with_a_path_into_the_arguments() {
    let params = StartParams {
        project: Some("api".into()),
        args: strings(&["x=1"]),
        attach: Some(false),
        custom_name: Some("renamed".into()),
        project_config: Some("p.yml".into()),
        append: true,
        no_pre_window: false,
    };
    let normalized = params.normalized();
    assert_eq!(normalized.project, None);
    assert_eq!(normalized.args, strings(&["api", "x=1"]));
    let opts = normalized.load_options();
    assert!(!opts.force_attach);
    assert!(opts.force_detach);
    assert!(opts.append);
    assert_eq!(opts.custom_name.as_deref(), Some("renamed"));

    let plain = StartParams {
        project: Some("api".into()),
        args: Vec::new(),
        attach: None,
        custom_name: None,
        project_config: None,
        append: false,
        no_pre_window: true,
    }
    .normalized();
    assert_eq!(plain.project.as_deref(), Some("api"));
    assert!(plain.args.is_empty());
    let opts = plain.load_options();
    assert!(!opts.force_attach && !opts.force_detach && opts.no_pre_window);
}

#[test]
fn edit_needs_a_name_and_an_existing_file() {
    assert_eq!(config_path("/d", "api", false), "/d/api.yml");
    assert_eq!(config_path("/d", "api", true), "./.tmuxinator.yml");
    assert_eq!(
        edit(None, false, true).unwrap_err(),
        "`bootmux edit` requires a project name (or --local)."
    );
    assert_eq!(edit(Some("api"), false, true), Ok(()));
    assert_eq!(edit(Some("api"), false, false).unwrap_err(), "Project api doesn't exist!");
    assert_eq!(edit(None, true, false).unwrap_err(), NO_LOCAL_FILE_MSG);
}

#[test]
fn the_least_path_names_the_project_whatever_the_listing_order() {
    let files = strings(&["/c/z/api.yml", "/c/a-b/api.yml", "/c/a/api.yml", "/c/api.yaml"]);
    assert_eq!(project_in(&files, "api").as_deref(), Some("/c/a/api.yml"));
    let files = strings(&["/c/b.d/web.yml", "/c/b/web.yml"]);
    assert_eq!(project_in(&files, "web").as_deref(), Some("/c/b/web.yml"));
}
