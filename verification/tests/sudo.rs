use deploy::sudo::{split_legacy_sudo, SudoCommand, SudoParseError, SudoSetting};

fn args(list: &[&str]) -> Vec<String> {
    list.iter().map(|s| s.to_string()).collect()
}

#[test]
fn parses_legacy_sudo_string() {
    let sudo = SudoCommand::parse_legacy("sudo -u").unwrap();
    assert_eq!(sudo.argv(), &["sudo".to_string(), "-u".to_string()]);
}

#[test]
fn supports_combined_short_user_flag() {
    let sudo = SudoCommand::parse_legacy("sudo -iu").unwrap();
    assert_eq!(sudo.argv(), &["sudo".to_string(), "-iu".to_string()]);
    assert_eq!(
        sudo.argv_for_user("root", false),
        vec!["sudo".to_string(), "-iu".to_string(), "root".to_string()]
    );
}

#[test]
fn parses_legacy_quotes() {
    let sudo = SudoCommand::parse_legacy("sudo -S -p \"\" -u").unwrap();
    assert_eq!(
        sudo.argv(),
        &[
            "sudo".to_string(),
            "-S".to_string(),
            "-p".to_string(),
            String::new(),
            "-u".to_string(),
        ]
    );
}

#[test]
fn rejects_shell_syntax() {
    assert_eq!(
        SudoCommand::parse_legacy("sudo -u root; rm -rf /").unwrap_err(),
        SudoParseError::ComplexSyntax(';')
    );
}

#[test]
fn deserializes_structured_argv() {
    let argv: Vec<String> = serde_json::from_str(r#"["doas","-u"]"#).unwrap();
    let sudo = SudoCommand::from_setting(SudoSetting::Argv(argv)).unwrap();
    assert_eq!(sudo.argv(), &["doas".to_string(), "-u".to_string()]);
}

#[test]
fn serializes_as_argv_array() {
    let sudo = SudoCommand::new(vec!["sudo".to_string(), "-u".to_string()]).unwrap();
    assert_eq!(serde_json::to_string(sudo.argv()).unwrap(), r#"["sudo","-u"]"#);
}

#[test]
fn adds_user_flag_for_bare_sudo_command() {
    let sudo = SudoCommand::new(vec!["sudo".to_string()]).unwrap();
    assert_eq!(sudo.argv(), &["sudo".to_string(), "-u".to_string()]);
}

#[test]
fn adds_user_flag_for_sudo_with_flags() {
    let sudo = SudoCommand::parse_legacy("sudo -H").unwrap();
    assert_eq!(
        sudo.argv(),
        &["sudo".to_string(), "-H".to_string(), "-u".to_string(),]
    );
}

#[test]
fn rejects_sudo_when_user_slot_is_not_last() {
    assert_eq!(
        SudoCommand::new(vec![
            "env".to_string(),
            "sudo".to_string(),
            "-u".to_string(),
            "-H".to_string(),
        ])
        .unwrap_err(),
        SudoParseError::MissingUserFlag
    );
}

#[test]
fn treats_full_path_sudo_as_sudo_for_interactive_mode() {
    let sudo =
        SudoCommand::new(vec!["/run/wrappers/bin/sudo".to_string(), "-u".to_string()]).unwrap();

    assert_eq!(
        sudo.argv_for_user("root", true),
        vec![
            "/run/wrappers/bin/sudo".to_string(),
            "-S".to_string(),
            "-p".to_string(),
            String::new(),
            "-u".to_string(),
            "root".to_string(),
        ]
    );
}

#[test]
fn treats_wrapped_sudo_as_sudo_for_interactive_mode() {
    let sudo = SudoCommand::new(vec![
        "env".to_string(),
        "sudo".to_string(),
        "-u".to_string(),
    ])
    .unwrap();

    assert_eq!(
        sudo.argv_for_user("root", true),
        vec![
            "env".to_string(),
            "sudo".to_string(),
            "-S".to_string(),
            "-p".to_string(),
            String::new(),
            "-u".to_string(),
            "root".to_string(),
        ]
    );
}

#[test]
fn test_sudo_deserializes_structured_argv() {
    let argv: Vec<String> = serde_json::from_str(r#"["sudo","-u"]"#).unwrap();
    let sudo = SudoCommand::from_setting(SudoSetting::Argv(argv)).unwrap();
    assert_eq!(sudo.argv(), &["sudo".to_string(), "-u".to_string()]);
}

#[test]
fn test_sudo_deserializes_legacy_string() {
    let input: String = serde_json::from_str(r#""doas -u""#).unwrap();
    let sudo = SudoCommand::from_setting(SudoSetting::Legacy(input)).unwrap();
    assert_eq!(sudo.argv(), &["doas".to_string(), "-u".to_string()]);
}

#[test]
fn test_sudo_rejects_legacy_shell_syntax() {
    let input: String = serde_json::from_str(r#""sudo -u root; sh""#).unwrap();
    let err = SudoCommand::from_setting(SudoSetting::Legacy(input)).unwrap_err();
    assert!(err.message().contains("structured sudo"));
}

#[test]
fn every_sudo_parse_error_comes_up() {
    assert_eq!(SudoCommand::new(vec![]).unwrap_err(), SudoParseError::Empty);
    assert_eq!(SudoCommand::parse_legacy("  \t ").unwrap_err(), SudoParseError::Empty);
    assert_eq!(
        SudoCommand::parse_legacy("sudo 'x").unwrap_err(),
        SudoParseError::UnterminatedQuote
    );
    assert_eq!(
        SudoCommand::parse_legacy("sudo \\").unwrap_err(),
        SudoParseError::DanglingEscape
    );
    assert_eq!(
        SudoCommand::parse_legacy("sudo $HOME").unwrap_err(),
        SudoParseError::ComplexSyntax('$')
    );
    assert_eq!(
        SudoCommand::parse_legacy("sudo -u root -H").unwrap_err(),
        SudoParseError::MissingUserFlag
    );
}

#[test]
fn error_messages_are_spelled_out() {
    assert_eq!(SudoParseError::Empty.message(), "sudo command must not be empty");
    assert_eq!(
        SudoParseError::ComplexSyntax(';').message(),
        "legacy sudo string contains shell syntax `;`; use structured sudo = [\"program\", \"arg\", ...] instead"
    );
    assert!(SudoParseError::UnterminatedQuote.message().contains("unterminated quote"));
    assert!(SudoParseError::DanglingEscape.message().contains("dangling escape"));
    assert!(SudoParseError::MissingUserFlag.message().contains("`--user`"));
}

#[test]
fn splits_by_the_quoting_rules() {
    assert_eq!(
        split_legacy_sudo("a 'b c' \"d 'e\" f\\ g ''").unwrap(),
        args(&["a", "b c", "d 'e", "f g", ""])
    );
    assert_eq!(split_legacy_sudo("'a;b' \"c|d\"").unwrap(), args(&["a;b", "c|d"]));
    assert_eq!(split_legacy_sudo("x\u{2003}y").unwrap(), args(&["x", "y"]));
}

#[test]
fn plain_words_are_read_back() {
    let words = args(&["env", "FOO=bar", "/usr/bin/sudo", "-u"]);
    assert_eq!(split_legacy_sudo(&words.join(" ")).unwrap(), words);
}

#[test]
fn configured_command_is_stable() {
    let once = SudoCommand::parse_legacy("env sudo -H").unwrap();
    let twice = SudoCommand::new(once.argv().to_vec()).unwrap();
    assert_eq!(once, twice);
}

#[test]
fn recognizes_sudo_by_the_last_path_component() {
    let is_sudo = |arg: &str| SudoCommand::new(args(&[arg, "-u"])).unwrap().is_sudo();
    for arg in ["sudo", "/usr/bin/sudo", "sudo/", "./sudo", "bin//sudo/.", "a/../sudo"] {
        assert!(is_sudo(arg), "{}", arg);
        assert_eq!(std::path::Path::new(arg).file_name().unwrap(), "sudo");
    }
    for arg in ["sudoedit", "sudo/..", "", ".", "..", "/", "/sudo/x"] {
        assert!(!is_sudo(arg), "{}", arg);
        assert!(std::path::Path::new(arg).file_name().map_or(true, |name| name != "sudo"));
    }
}

#[test]
fn user_flags_that_are_present_are_not_added_again() {
    for last in ["-u", "--user", "-iu"] {
        let sudo = SudoCommand::new(args(&["sudo", last])).unwrap();
        assert_eq!(sudo.argv(), args(&["sudo", last]).as_slice());
    }
    for flag in ["--user=root", "-uroot", "-un", "-ui"] {
        assert_eq!(
            SudoCommand::new(args(&["sudo", flag, "-H"])).unwrap_err(),
            SudoParseError::MissingUserFlag
        );
    }
    let doas = SudoCommand::new(args(&["doas"])).unwrap();
    assert_eq!(doas.argv(), args(&["doas"]).as_slice());
    assert_eq!(doas.argv_for_user("root", true), args(&["doas", "root"]));
}

#[test]
fn interactive_flags_are_added_only_where_they_are_missing() {
    let sudo = SudoCommand::new(args(&["sudo", "--stdin", "--prompt=x", "-u"])).unwrap();
    assert_eq!(
        sudo.argv_for_user("root", true),
        args(&["sudo", "--stdin", "--prompt=x", "-u", "root"])
    );
    let sudo = SudoCommand::new(args(&["env", "-p", "sudo", "-S", "-u"])).unwrap();
    assert_eq!(
        sudo.argv_for_user("root", true),
        args(&["env", "-p", "sudo", "-p", "", "-S", "-u", "root"])
    );
    assert_eq!(
        SudoCommand::default_sudo().argv_for_user("deploy", false),
        args(&["sudo", "-u", "deploy"])
    );
}
