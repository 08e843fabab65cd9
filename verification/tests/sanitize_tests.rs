use asset_pipeline::sanitize::{sanitize_file_name, sanitize_git_path_component};

#[test]
fn file_name_keeps_allowed_characters() {
    assert_eq!(sanitize_file_name("my file.png"), "my file.png");
    assert_eq!(sanitize_file_name("A-Z_0.9"), "A-Z_0.9");
}

#[test]
fn file_name_replaces_disallowed_characters() {
    assert_eq!(sanitize_file_name("a/b\\c:d"), "a_b_c_d");
    assert_eq!(sanitize_file_name("h\u{e9}llo"), "h_llo");
    assert_eq!(sanitize_file_name("a?b"), "a_b");
}

#[test]
fn file_name_trims_spaces_and_falls_back() {
    assert_eq!(sanitize_file_name("  spaced  "), "spaced");
    assert_eq!(sanitize_file_name(""), "file");
    assert_eq!(sanitize_file_name("   "), "file");
}

#[test]
fn file_name_trims_edge_filler() {
    assert_eq!(sanitize_file_name("?"), "file");
    assert_eq!(sanitize_file_name("???"), "file");
    assert_eq!(sanitize_file_name("_a_"), "a");
    assert_eq!(sanitize_file_name(" _mixed_ "), "mixed");
    assert_eq!(sanitize_file_name("\u{0}\u{1}name\u{2}"), "name");
}

#[test]
fn file_name_sanitizing_is_idempotent() {
    for input in ["", "  a b  ", "x/y:z", "\u{1f600}\u{1f600}", "plain.txt", "   "] {
        let once = sanitize_file_name(input);
        let twice = sanitize_file_name(&once);
        assert_eq!(once, twice);
        assert!(!once.is_empty());
    }
}

#[test]
fn file_name_output_stays_in_class() {
    for input in ["a b", "\u{0}\u{1}", "tab\there", "q%$#w"] {
        let out = sanitize_file_name(input);
        assert!(!out.is_empty());
        assert!(out
            .chars()
            .all(|c| c.is_ascii_alphanumeric() || matches!(c, '.' | '-' | '_' | ' ')));
    }
}

#[test]
fn path_component_replaces_and_trims_underscores() {
    assert_eq!(sanitize_git_path_component("my pic"), "my_pic");
    assert_eq!(sanitize_git_path_component("__inner__"), "inner");
    assert_eq!(sanitize_git_path_component("a b c"), "a_b_c");
}

#[test]
fn path_component_falls_back_when_empty() {
    assert_eq!(sanitize_git_path_component(""), "file");
    assert_eq!(sanitize_git_path_component("___"), "file");
    assert_eq!(sanitize_git_path_component("? ?"), "file");
}

#[test]
fn path_component_sanitizing_is_idempotent() {
    for input in ["", "___", "a b", "x.y-z", "\u{e9}t\u{e9}"] {
        let once = sanitize_git_path_component(input);
        let twice = sanitize_git_path_component(&once);
        assert_eq!(once, twice);
        assert!(!once.is_empty());
    }
}

#[test]
fn path_component_output_stays_in_class() {
    for input in ["a b", "\u{0}\u{1}", "q%$#w", " x "] {
        let out = sanitize_git_path_component(input);
        assert!(!out.is_empty());
        assert!(out
            .chars()
            .all(|c| c.is_ascii_alphanumeric() || matches!(c, '.' | '-' | '_')));
    }
}
