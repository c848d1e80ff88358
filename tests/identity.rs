use axec::{parse_appimage_name, sanitize_filename};

fn id_of(path: &str) -> String {
    sanitize_filename(&parse_appimage_name(path))
}

#[test]
fn display_name_of_versioned_bundle() {
    assert_eq!(parse_appimage_name("MyApp-1.2.3_x86_64.AppImage"), "MyApp-1 2 3_x86_64");
}

#[test]
fn id_of_versioned_bundle() {
    assert_eq!(id_of("MyApp-1.2.3_x86_64.AppImage"), "myapp-1-2-3_x86_64");
}

#[test]
fn display_name_takes_last_component() {
    assert_eq!(parse_appimage_name("/home/u/Downloads/Cool Tool (beta).AppImage"), "Cool Tool beta");
}

#[test]
fn display_name_collapses_spaces() {
    assert_eq!(parse_appimage_name("  a...b  c.AppImage"), "a b c");
}

#[test]
fn display_name_of_hidden_file_keeps_dot_stem() {
    assert_eq!(parse_appimage_name("/x/.hidden"), "hidden");
}

#[test]
fn display_name_without_file_is_default() {
    assert_eq!(parse_appimage_name("/"), "appimage");
    assert_eq!(parse_appimage_name(""), "appimage");
    assert_eq!(parse_appimage_name("dir/.."), "appimage");
}

#[test]
fn display_name_ignores_trailing_slash() {
    assert_eq!(parse_appimage_name("/opt/Tool.AppImage/"), "Tool");
}

#[test]
fn display_name_of_symbols_only_is_empty() {
    assert_eq!(parse_appimage_name("!!!.AppImage"), "");
    assert_eq!(id_of("!!!.AppImage"), "");
}

#[test]
fn sanitize_replaces_and_trims() {
    assert_eq!(sanitize_filename("Hello World!"), "hello-world");
    assert_eq!(sanitize_filename("--Ab_C--"), "ab_c");
    assert_eq!(sanitize_filename(""), "");
    assert_eq!(sanitize_filename("é x"), "x");
}

#[test]
fn sanitize_output_is_valid_id() {
    for s in ["A b-C_d", "--x--", "Ünïcode App 2", " . ", "UPPER"] {
        let id = sanitize_filename(s);
        assert!(id.chars().all(|c| c.is_ascii_lowercase() || c.is_ascii_digit() || c == '-' || c == '_'));
        assert!(!id.starts_with('-') && !id.ends_with('-'));
    }
}

#[test]
fn same_display_name_same_id() {
    let a = "/one/My App.AppImage";
    let b = "/two/My...App.appimage";
    assert_eq!(parse_appimage_name(a), parse_appimage_name(b));
    assert_eq!(id_of(a), id_of(b));
}

#[test]
fn id_is_fixed_point() {
    let id = id_of("Some Tool-2.0.AppImage");
    assert_eq!(id, "some-tool-2-0");
    assert_eq!(sanitize_filename(&parse_appimage_name(&format!("/s/{id}.AppImage"))), id);
}

#[test]
fn display_name_ignores_trailing_dot_components() {
    assert_eq!(parse_appimage_name("dir/Tool.AppImage/."), "Tool");
    assert_eq!(parse_appimage_name("a/."), parse_appimage_name("a"));
    assert_eq!(parse_appimage_name("a/./"), "a");
    assert_eq!(parse_appimage_name("+/."), "");
}

#[test]
fn display_name_of_current_or_root_dir_is_default() {
    assert_eq!(parse_appimage_name("."), "appimage");
    assert_eq!(parse_appimage_name("./"), "appimage");
    assert_eq!(parse_appimage_name("/."), "appimage");
}
