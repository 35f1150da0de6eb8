use open_english::agents::{
    allowed_dirs, decode_file_content, encode_file_content, is_within_allowed, remote_read_command,
    remote_write_command, server_token, shell_quote, status, urlencode, validate_read_path, validate_remote_path,
    validate_write_path,
};

fn comps(parts: &[&str]) -> Vec<String> {
    parts.iter().map(|p| p.to_string()).collect()
}

#[test]
fn shell_quote_escapes_single_quotes() {
    assert_eq!(shell_quote("it's a path"), "'it'\"'\"'s a path'");
}

#[test]
fn rejects_paths_outside_allowed_dirs_without_env() {
    let allowed = allowed_dirs(None);
    assert!(validate_remote_path("/etc/passwd", &allowed).is_err());
}

#[test]
fn rejects_dotdot_traversal() {
    let allowed = allowed_dirs(Some("/home/deploy/app"));
    assert!(validate_remote_path("/home/deploy/app/../../etc/passwd", &allowed).is_err());
}

#[test]
fn accepts_paths_within_allowed_dir() {
    let allowed = allowed_dirs(Some("/home/deploy/app"));
    assert!(validate_remote_path("/home/deploy/app/src/main.rs", &allowed).is_ok());
}

#[test]
fn disabled_by_default_when_env_unset() {
    let allowed = allowed_dirs(None);
    assert!(allowed.is_empty());
    let r = validate_read_path("C:\\Windows\\win.ini", &allowed, &Ok(comps(&["C:", "Windows", "win.ini"])), &vec![]);
    assert!(r.is_err());
}

#[test]
fn allowed_dirs_are_trimmed_and_blank_entries_dropped() {
    assert_eq!(allowed_dirs(Some(" /a ; ;/b/c;")), vec!["/a".to_string(), "/b/c".to_string()]);
    assert!(allowed_dirs(Some("  ")).is_empty());
}

#[test]
fn component_prefix_is_not_string_prefix() {
    let allowed = vec![comps(&["/", "home", "me"])];
    assert!(is_within_allowed(&comps(&["/", "home", "me", "a.txt"]), &allowed));
    assert!(is_within_allowed(&comps(&["/", "home", "me"]), &allowed));
    assert!(!is_within_allowed(&comps(&["/", "home", "meow", "a.txt"]), &allowed));
    assert!(!is_within_allowed(&comps(&["/", "home"]), &allowed));
}

#[test]
fn local_read_and_write_decisions() {
    let allowed = allowed_dirs(Some("/srv/data"));
    let allowed_resolved = vec![comps(&["/", "srv", "data"])];
    assert!(validate_read_path("/srv/data/x", &allowed, &Ok(comps(&["/", "srv", "data", "x"])), &allowed_resolved).is_ok());
    let e = validate_read_path("/etc/x", &allowed, &Ok(comps(&["/", "etc", "x"])), &allowed_resolved).unwrap_err();
    assert_eq!(e, "path \"/etc/x\" is outside the allowed directories / 許可ディレクトリの範囲外です");
    let e = validate_read_path("/nope", &allowed, &Err("No such file or directory (os error 2)".to_string()), &allowed_resolved).unwrap_err();
    assert_eq!(e, "failed to resolve path \"/nope\": No such file or directory (os error 2)");
    assert!(validate_write_path("/srv/data/new.txt", &allowed, &Some(Ok(comps(&["/", "srv", "data"]))), true, &allowed_resolved).is_ok());
    assert!(validate_write_path("/", &allowed, &None, false, &allowed_resolved).unwrap_err().contains("has no parent directory"));
    assert!(validate_write_path("/srv/data/..", &allowed, &Some(Ok(comps(&["/", "srv"]))), false, &allowed_resolved)
        .unwrap_err()
        .contains("has no file name"));
}

#[test]
fn remote_commands_are_fixed() {
    assert_eq!(remote_read_command("/a b/c'd"), "cat '/a b/c'\"'\"'d'");
    assert_eq!(remote_write_command("/x"), "cat > '/x'");
}

#[test]
fn github_content_decoding() {
    let f = decode_file_content("aGVs\nbG8=\n", "base64", "abc123").expect("decodes");
    assert_eq!(f.content, "hello");
    assert_eq!(f.sha, "abc123");
    assert!(decode_file_content("aGVsbG8=", "utf-8", "x").unwrap_err().starts_with("unexpected encoding from GitHub API: utf-8"));
    assert!(decode_file_content("!!!", "base64", "x").unwrap_err().starts_with("failed to base64-decode file content"));
    assert!(decode_file_content("/w==", "base64", "x").unwrap_err().starts_with("file content is not valid UTF-8"));
    assert_eq!(encode_file_content("hello"), "aGVsbG8=");
    assert_eq!(urlencode("feature/x y"), "feature%2Fx%20y");
}

#[test]
fn server_token_order_and_status() {
    assert_eq!(server_token(Some("  tok  "), Some("file"), None), Some("tok".to_string()));
    assert_eq!(server_token(Some(" "), Some(" file-tok\n"), Some("d")), Some("file-tok".to_string()));
    assert_eq!(server_token(None, None, Some("dflt")), Some("dflt".to_string()));
    assert_eq!(server_token(None, Some(""), None), None);
    assert!(status(&Some("t".to_string())).configured);
    assert!(!status(&None).configured);
}

#[test]
fn committed_content_reads_back() {
    for text in ["", "hello", "日本語\nline two\n", "a+b/c=="] {
        let encoded = encode_file_content(text);
        let f = decode_file_content(&encoded, "base64", "sha").expect("decodes");
        assert_eq!(f.content, text);
    }
}

#[test]
fn rejects_paths_outside_allowed_dirs() {
    // The allowed directory and the requested files, as resolved paths.
    let allowed = allowed_dirs(Some("/tmp/open-english-local-agent-test"));
    let allowed_resolved = vec![comps(&["/", "tmp", "open-english-local-agent-test"])];
    let inside = Ok(comps(&["/", "tmp", "open-english-local-agent-test", "ok.txt"]));
    let outside = Ok(comps(&["/", "tmp", "open-english-local-agent-outside", "secret.txt"]));
    assert!(validate_read_path("/tmp/open-english-local-agent-test/ok.txt", &allowed, &inside, &allowed_resolved).is_ok());
    assert!(validate_read_path(
        "/tmp/open-english-local-agent-outside/secret.txt",
        &allowed,
        &outside,
        &allowed_resolved
    )
    .is_err());
}
