use bootmux::util::{blank, color_code, expand_path, file_stem_matches, yes_no, Color};

#[test]
fn expands_tilde_and_relative_paths() {
    assert_eq!(expand_path("~", "/cwd", "/home/u"), "/home/u");
    assert_eq!(expand_path("~/test", "/cwd", "/home/u"), "/home/u/test");
    assert_eq!(expand_path("/abs/path", "/cwd", "/home/u"), "/abs/path");
    assert_eq!(expand_path("rel", "/cwd", "/home/u"), "/cwd/rel");
    assert_eq!(
        expand_path(".", "/workspace/basic", "/h"),
        "/workspace/basic"
    );
    assert_eq!(
        expand_path("app", "/workspace/basic", "/h"),
        "/workspace/basic/app"
    );
    assert_eq!(expand_path("../x", "/a/b", "/h"), "/a/x");
    assert_eq!(expand_path("a/./b//c", "/", "/h"), "/a/b/c");
}

#[test]
fn small_helpers_give_their_documented_values() {
    assert!(blank(None));
    assert!(blank(Some("")));
    assert!(!blank(Some(" ")));
    assert_eq!(color_code(Color::Red), "31");
    assert_eq!(color_code(Color::Green), "32");
    assert_eq!(color_code(Color::Yellow), "33");
    assert_eq!(yes_no(true), ("Yes", Color::Green));
    assert_eq!(yes_no(false), ("No", Color::Red));
}

#[test]
fn file_stems_drop_the_directory_and_extension() {
    assert!(file_stem_matches("/configs/web.yml", "web"));
    assert!(!file_stem_matches("/configs/web.yml", "web.yml"));
    assert!(!file_stem_matches("/configs/web.yml", "configs"));
    assert!(!file_stem_matches("/", ""));
}
