use codex_remote::version::parse_codex_version;

#[test]
fn parses_codex_cli_version_output() {
    assert_eq!(
        parse_codex_version("codex 1.2.3\n").expect("version"),
        "1.2.3"
    );
}

#[test]
fn rejects_malformed_codex_cli_version_output() {
    assert!(parse_codex_version("codex\n").is_err());
}

#[test]
fn version_is_the_second_word() {
    assert_eq!(
        parse_codex_version("  codex\t 1.2.3 (abc)\n"),
        Ok("1.2.3".to_string())
    );
    assert_eq!(
        parse_codex_version(""),
        Err("version output is malformed: ".to_string())
    );
}
