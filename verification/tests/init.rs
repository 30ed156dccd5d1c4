use arbor::commands::init::{
    already_configured, config_file_path, eval_line, shell_from_env, with_integration, InitError,
    Shell,
};

#[test]
fn shell_parse_known_names() {
    assert_eq!(Shell::parse("bash"), Ok(Shell::Bash));
    assert_eq!(Shell::parse("zsh"), Ok(Shell::Zsh));
    assert_eq!(Shell::parse("fish"), Ok(Shell::Fish));
}

#[test]
fn shell_parse_unknown_name() {
    let err = Shell::parse("tcsh").unwrap_err();
    assert_eq!(err, InitError::UnsupportedShell { name: "tcsh".to_string() });
    assert_eq!(err.message(), "Unsupported shell: tcsh (supported: bash, zsh, fish)");
}

#[test]
fn shell_names_round_trip() {
    for s in [Shell::Bash, Shell::Zsh, Shell::Fish] {
        assert_eq!(Shell::parse(s.name()), Ok(s));
    }
}

#[test]
fn shell_detected_from_program_path() {
    assert_eq!(shell_from_env(Some("/bin/zsh")), Ok(Shell::Zsh));
    assert_eq!(shell_from_env(Some("/usr/local/bin/fish")), Ok(Shell::Fish));
    assert_eq!(shell_from_env(Some("bash")), Ok(Shell::Bash));
}

#[test]
fn shell_detection_failures() {
    assert_eq!(shell_from_env(None), Err(InitError::ShellNotDetected));
    assert_eq!(shell_from_env(Some("")), Err(InitError::ShellNotDetected));
    let err = shell_from_env(Some("/bin/tcsh")).unwrap_err();
    assert_eq!(err, InitError::UnsupportedDetectedShell { name: "tcsh".to_string() });
    assert_eq!(
        err.message(),
        "Unsupported shell: tcsh. Specify it explicitly: arbor init bash|zsh|fish"
    );
    assert_eq!(
        InitError::ShellNotDetected.message(),
        "Could not detect shell. Specify it explicitly: arbor init bash|zsh|fish"
    );
}

#[test]
fn startup_files_under_home() {
    assert_eq!(config_file_path(Shell::Bash, "/home/u"), "/home/u/.bashrc");
    assert_eq!(config_file_path(Shell::Zsh, "/home/u"), "/home/u/.zshrc");
    assert_eq!(config_file_path(Shell::Fish, "/home/u"), "/home/u/.config/fish/config.fish");
}

#[test]
fn eval_lines_per_shell() {
    assert_eq!(eval_line(Shell::Bash), "eval \"$(arbor init bash)\"");
    assert_eq!(eval_line(Shell::Zsh), "eval \"$(arbor init zsh)\"");
    assert_eq!(eval_line(Shell::Fish), "arbor init fish | source");
}

#[test]
fn detects_existing_integration() {
    assert!(!already_configured(None, Shell::Zsh));
    assert!(!already_configured(Some(""), Shell::Zsh));
    assert!(already_configured(Some("export A=1\neval \"$(arbor init zsh)\"\n"), Shell::Zsh));
    assert!(!already_configured(Some("eval \"$(arbor init zsh)\"\n"), Shell::Bash));
}

#[test]
fn commented_integration_is_ignored() {
    assert!(!already_configured(Some("  # eval \"$(arbor init bash)\"\n"), Shell::Bash));
    assert!(already_configured(Some("# arbor\n  eval \"$(arbor init bash)\""), Shell::Bash));
}

#[test]
fn integration_appended_on_its_own_lines() {
    assert_eq!(with_integration("", "L"), "# arbor\nL\n");
    assert_eq!(with_integration("a\n", "L"), "a\n# arbor\nL\n");
    assert_eq!(with_integration("a", "L"), "a\n# arbor\nL\n");
}

#[test]
fn appended_integration_is_detected() {
    for s in [Shell::Bash, Shell::Zsh, Shell::Fish] {
        for content in ["", "x", "export PATH=a\n", "# eval \"$(arbor init zsh)\""] {
            let updated = with_integration(content, eval_line(s));
            assert!(already_configured(Some(updated.as_str()), s));
        }
    }
}

#[test]
fn integration_keeps_existing_content() {
    for content in ["", "export A=1", "x\ny\n"] {
        assert!(with_integration(content, "L").starts_with(content));
    }
}
