use bootmux::shellwords::{escape, is_safe, split, unescape};

#[test]
fn escapes_like_ruby_shellwords() {
    assert_eq!(escape(""), "''");
    assert_eq!(escape("simple"), "simple");
    assert_eq!(escape("bundle exec vim"), "bundle\\ exec\\ vim");
    assert_eq!(escape("it's"), "it\\'s");
    assert_eq!(escape("a$b"), "a\\$b");
    assert_eq!(escape("path/to.file:x,y+z@h_-"), "path/to.file:x,y+z@h_-");
    assert_eq!(escape("🍩"), "\\🍩");
    assert_eq!(escape("a\nb"), "a'\n'b");
    assert_eq!(escape("echo \"hi\""), "echo\\ \\\"hi\\\"");
}

#[test]
fn unescape_reverses_escape() {
    for original in ["bundle exec vim", "🍩", "it's", "home_arpa_lab"] {
        assert_eq!(unescape(&escape(original)), original);
    }
}

#[test]
fn split_reads_quotes_and_an_unmatched_quote_gives_no_words() {
    assert_eq!(split("a 'b c' \"d e\""), vec!["a", "b c", "d e"]);
    assert_eq!(split("\"open"), Vec::<String>::new());
    assert_eq!(split(""), Vec::<String>::new());
    assert_eq!(unescape("a\\ b c"), "a bc");
    assert!(is_safe('_'));
    assert!(!is_safe(' '));
}
