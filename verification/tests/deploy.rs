use deploy::data::{GenericSettings, Node, NodeSettings, Profile, ProfileSettings};
use deploy::deploy::{
    deploy_request, interpret_confirm_exit, interpret_remote_session_completion, is_event_line,
    profile_target, remote_activate_rs_command, revoke_request, shell_quote,
    ssh_opts_without_control_master, start_confirmation, start_remote_operation,
    DeployProfileError, RemoteCommandError, RemoteConfirmError, RemoteSession, RemoteSessionError,
    RevokeProfileError, SessionStep,
};
use deploy::deployment::{
    make_deploy_data, CmdOverrides, DeployData, DeployDataDefsError, DeployDefs, ProfileInfo,
};
use deploy::names::NameMap;
use deploy::command::Stream;
use deploy::remote_protocol::{
    ProfileTarget, RemoteEvent, RemoteOperation, REMOTE_PROTOCOL_VERSION,
};
use deploy::sudo::{split_legacy_sudo, SudoCommand};

fn strings(list: &[&str]) -> Vec<String> {
    list.iter().map(|s| s.to_string()).collect()
}

fn empty_settings() -> GenericSettings {
    GenericSettings {
        ssh_user: None,
        user: None,
        ssh_opts: vec![],
        fast_connection: None,
        auto_rollback: None,
        confirm_timeout: None,
        activation_timeout: None,
        temp_path: None,
        magic_rollback: None,
        sudo: None,
        remote_build: None,
        interactive_sudo: None,
    }
}

fn empty_cmd_overrides() -> CmdOverrides {
    CmdOverrides {
        ssh_user: None,
        profile_user: None,
        ssh_opts: None,
        fast_connection: None,
        auto_rollback: None,
        hostname: None,
        magic_rollback: None,
        temp_path: None,
        confirm_timeout: None,
        activation_timeout: None,
        sudo: None,
        interactive_sudo: None,
        dry_activate: false,
        remote_build: false,
    }
}

fn node() -> Node {
    Node {
        generic_settings: empty_settings(),
        node_settings: NodeSettings {
            hostname: "example.com".to_string(),
            profiles: NameMap::new(),
            profiles_order: vec![],
        },
    }
}

fn profile() -> Profile {
    Profile {
        profile_settings: ProfileSettings {
            path: "/nix/store/abc-profile".to_string(),
            profile_path: Some("/p".to_string()),
            tags: vec![],
            drv_path: None,
            output_name: "out".to_string(),
        },
        generic_settings: empty_settings(),
    }
}

fn defs() -> DeployDefs {
    DeployDefs {
        ssh_user: "admin".to_string(),
        profile_user: "root".to_string(),
        sudo: Some(SudoCommand::default_sudo()),
        sudo_password: Some("secret".to_string()),
    }
}

fn deploy_data<'a>(
    node: &'a Node,
    profile: &'a Profile,
    overrides: &'a CmdOverrides,
    settings: GenericSettings,
) -> DeployData<'a> {
    DeployData {
        node_name: "node1",
        node,
        profile_name: "system",
        profile,
        cmd_overrides: overrides,
        merged_settings: settings,
        debug_logs: true,
        log_dir: Some("/var/log"),
    }
}

fn no_user() -> DeployDataDefsError {
    DeployDataDefsError::NoProfileUser("p".to_string(), "n".to_string())
}

#[test]
fn quotes_remote_activate_rs_path() {
    assert_eq!(
        remote_activate_rs_command("/nix/store/abc-profile", "bootstrap-session").unwrap(),
        "'/nix/store/abc-profile/activate-rs' bootstrap-session"
    );
}

#[test]
fn rejects_non_store_remote_path() {
    assert!(matches!(
        remote_activate_rs_command("/tmp/profile", "bootstrap-session"),
        Err(RemoteCommandError::NotStorePath(_))
    ));
}

#[test]
fn remote_session_prefers_finished_error_over_exit_code() {
    let err =
        interpret_remote_session_completion(Some((false, "boom".to_string())), false, Some(1))
            .unwrap_err();

    assert!(matches!(
        err,
        RemoteSessionError::RemoteFailed(message) if message == "boom"
    ));
}

#[test]
fn session_completion_covers_all_cases() {
    let done = Some((true, "fine".to_string()));
    assert!(interpret_remote_session_completion(done.clone(), true, Some(0)).is_ok());
    assert!(matches!(
        interpret_remote_session_completion(done, false, Some(3)),
        Err(RemoteSessionError::RemoteExit(Some(3)))
    ));
    assert!(matches!(
        interpret_remote_session_completion(None, false, None),
        Err(RemoteSessionError::RemoteExit(None))
    ));
    assert!(matches!(
        interpret_remote_session_completion(None, true, Some(0)),
        Err(RemoteSessionError::MissingFinished)
    ));
}

#[test]
fn rejects_closures_with_a_nul_character() {
    let err = remote_activate_rs_command("/nix/store/a\0b", "x").unwrap_err();
    assert!(matches!(err, RemoteCommandError::NulByte));
    assert_eq!(err.message(), "remote closure path contains an unsupported NUL byte");
    let err = remote_activate_rs_command("/tmp/profile", "x").unwrap_err();
    assert_eq!(
        err.message(),
        "remote closure path must be an absolute /nix/store path: /tmp/profile"
    );
}

#[test]
fn quoted_values_are_one_word() {
    assert_eq!(shell_quote("it's"), "'it'\\''s'");
    assert_eq!(shell_quote(""), "''");
    for value in ["plain", "a b", "'", "''", "$(rm -rf /); `x`", "back\\slash", "\"q\"", "a\nb"] {
        assert_eq!(split_legacy_sudo(&shell_quote(value)).unwrap(), vec![value.to_string()]);
    }
}

#[test]
fn quoted_values_are_read_back_together() {
    let values = ["plain", "a b", "'", "", "$(x); `y`", "back\\slash", "\"q\"", "a\nb", " "];
    let quoted: Vec<String> = values.iter().map(|value| shell_quote(value)).collect();
    assert_eq!(split_legacy_sudo(&quoted.join(" ")).unwrap(), strings(&values));
}

#[test]
fn activation_command_is_two_words() {
    let line = remote_activate_rs_command("/nix/store/it's a; path", "confirm-session").unwrap();
    assert_eq!(
        split_legacy_sudo(&line).unwrap(),
        strings(&["/nix/store/it's a; path/activate-rs", "confirm-session"])
    );
}

#[test]
fn control_options_are_taken_out() {
    let opts = strings(&[
        "-p",
        "22",
        "-o",
        "ControlPath=/tmp/x",
        "-oControlMaster=auto",
        "-o",
        "User=me",
        "ControlMaster",
        "-o",
    ]);
    let kept = strings(&["-p", "22", "-o", "User=me", "-o"]);
    assert_eq!(ssh_opts_without_control_master(&opts), kept);
    assert_eq!(ssh_opts_without_control_master(&kept), kept);
    assert_eq!(
        ssh_opts_without_control_master(&strings(&["-o", "-o", "ControlPath=a"])),
        strings(&["-o"])
    );
    assert!(ssh_opts_without_control_master(&[]).is_empty());
}

#[test]
fn profile_infos_become_targets() {
    assert!(matches!(
        profile_target(ProfileInfo::ProfilePath { profile_path: "/p".to_string() }),
        ProfileTarget::ProfilePath { profile_path } if profile_path == "/p"
    ));
    assert!(matches!(
        profile_target(ProfileInfo::ProfileUserAndName {
            profile_user: "u".to_string(),
            profile_name: "n".to_string(),
        }),
        ProfileTarget::ProfileUserAndName { profile_user, profile_name }
            if profile_user == "u" && profile_name == "n"
    ));
}

#[test]
fn deploy_request_has_the_defaults() {
    let (node, profile, overrides) = (node(), profile(), empty_cmd_overrides());
    let data = deploy_data(&node, &profile, &overrides, empty_settings());
    let request = deploy_request(&data, &defs(), false, true, true).unwrap();
    assert_eq!(request.closure, "/nix/store/abc-profile");
    assert_eq!(request.profile_user, "root");
    assert!(request.review_changes && request.boot && !request.dry_activate);
    assert!(request.auto_rollback && request.magic_rollback && request.debug_logs);
    assert_eq!(request.confirm_timeout, 30);
    assert_eq!(request.activation_timeout, None);
    assert_eq!(request.temp_path, "/tmp");
    assert_eq!(request.log_dir.as_deref(), Some("/var/log"));
}

#[test]
fn requests_take_the_settings() {
    let (node, profile, overrides) = (node(), profile(), empty_cmd_overrides());
    let mut settings = empty_settings();
    settings.auto_rollback = Some(false);
    settings.magic_rollback = Some(false);
    settings.confirm_timeout = Some(7);
    settings.activation_timeout = Some(9);
    settings.temp_path = Some("/scratch".to_string());
    let data = deploy_data(&node, &profile, &overrides, settings);
    let request = deploy_request(&data, &defs(), true, false, false).unwrap();
    assert!(request.dry_activate && !request.auto_rollback && !request.magic_rollback);
    assert_eq!(request.confirm_timeout, 7);
    assert_eq!(request.activation_timeout, Some(9));
    assert_eq!(request.temp_path, "/scratch");
    let request = revoke_request(&data, &defs()).unwrap();
    assert_eq!(request.closure, "/nix/store/abc-profile");
    assert_eq!(request.temp_path, "/scratch");
    assert!(matches!(request.profile, ProfileTarget::ProfilePath { profile_path } if profile_path == "/p"));
}

#[test]
fn remote_operation_runs_ssh() {
    let (node, profile, mut overrides) = (node(), profile(), empty_cmd_overrides());
    let mut settings = empty_settings();
    settings.ssh_opts = strings(&["-p", "2222", "-o", "ControlPath=/c"]);
    settings.interactive_sudo = Some(true);
    overrides.hostname = Some("other.net".to_string());
    let data = deploy_data(&node, &profile, &overrides, settings);
    let operation = RemoteOperation::Revoke(revoke_request(&data, &defs()).unwrap());
    assert_eq!(operation.closure(), "/nix/store/abc-profile");
    assert_eq!(operation.profile_user(), "root");
    assert_eq!(operation.temp_path(), "/tmp");
    assert!(operation.debug_logs());
    assert_eq!(operation.log_dir(), Some("/var/log"));

    let (request, command) = start_remote_operation(&data, &defs(), operation).unwrap();
    assert_eq!(request.protocol_version, REMOTE_PROTOCOL_VERSION);
    assert!(request.interactive_sudo);
    assert_eq!(request.sudo_password.as_deref(), Some("secret"));
    assert_eq!(request.sudo, Some(SudoCommand::default_sudo()));
    assert_eq!(command.program, "ssh");
    assert_eq!(
        command.args,
        strings(&[
            "admin@other.net",
            "-p",
            "2222",
            "-o",
            "ControlPath=/c",
            "'/nix/store/abc-profile/activate-rs' bootstrap-session",
        ])
    );
    assert_eq!(
        (command.stdin, command.stdout, command.stderr),
        (Some(Stream::Piped), Some(Stream::Piped), Some(Stream::Inherit))
    );

    let (request, command) = start_confirmation(
        &data,
        &defs(),
        "/nix/store/abc-profile",
        "/tmp",
        "id".to_string(),
        "nonce".to_string(),
        true,
    )
    .unwrap();
    assert_eq!((request.session_id.as_str(), request.nonce.as_str()), ("id", "nonce"));
    assert_eq!(request.profile_user, "root");
    assert_eq!(
        command.args,
        strings(&[
            "admin@other.net",
            "-p",
            "2222",
            "-o",
            "ControlPath=none",
            "'/nix/store/abc-profile/activate-rs' confirm-session",
        ])
    );
    let (_, command) = start_confirmation(
        &data,
        &defs(),
        "/nix/store/abc-profile",
        "/tmp",
        "id".to_string(),
        "nonce".to_string(),
        false,
    )
    .unwrap();
    assert_eq!(command.args[3..5], strings(&["-o", "ControlPath=/c"])[..]);
    assert_eq!((command.stdin, command.stdout), (Some(Stream::Piped), None));
}

#[test]
fn operations_on_other_closures_are_rejected() {
    let (node, mut profile, overrides) = (node(), profile(), empty_cmd_overrides());
    profile.profile_settings.path = "/tmp/x".to_string();
    let data = deploy_data(&node, &profile, &overrides, empty_settings());
    let operation = RemoteOperation::Revoke(revoke_request(&data, &defs()).unwrap());
    let err = start_remote_operation(&data, &defs(), operation).unwrap_err();
    assert!(matches!(&err, RemoteSessionError::RemoteCommand(RemoteCommandError::NotStorePath(p)) if p == "/tmp/x"));
    assert_eq!(
        DeployProfileError::RemoteSession(err).message(),
        "Error running remote deployment session: failed to build remote command: remote closure path must be an absolute /nix/store path: /tmp/x"
    );
    let err = start_confirmation(
        &data, &defs(), "/tmp/x", "/tmp", "i".to_string(), "n".to_string(), true,
    )
    .unwrap_err();
    assert!(matches!(err, RemoteConfirmError::RemoteCommand(RemoteCommandError::NotStorePath(_))));
}

#[test]
fn a_session_is_listened_to() {
    let mut session = RemoteSession::new();
    let hello = RemoteEvent::Hello { protocol_version: REMOTE_PROTOCOL_VERSION };
    assert!(matches!(session.event(hello), Ok(SessionStep::Listen)));
    let awaiting = RemoteEvent::AwaitingConfirm {
        session_id: "s".to_string(),
        nonce: "n".to_string(),
    };
    assert!(matches!(
        session.event(awaiting),
        Ok(SessionStep::Confirm { session_id, nonce }) if session_id == "s" && nonce == "n"
    ));
    for (ok, message) in [(false, "first"), (true, "second")] {
        let finished = RemoteEvent::Finished {
            ok,
            rolled_back: false,
            message: message.to_string(),
        };
        assert!(matches!(session.event(finished), Ok(SessionStep::Listen)));
    }
    assert!(session.complete(true, Some(0)).is_ok());
}

#[test]
fn a_session_reports_its_failure() {
    let mut session = RemoteSession::new();
    let finished = RemoteEvent::Finished {
        ok: false,
        rolled_back: true,
        message: "boom".to_string(),
    };
    assert!(session.event(finished).is_ok());
    let err = session.complete(true, Some(0)).unwrap_err();
    assert_eq!(err.message(), "remote session failed: boom");
    assert_eq!(
        RevokeProfileError::RemoteSession(err).message(),
        "Error running remote revoke session: remote session failed: boom"
    );
}

#[test]
fn another_version_of_the_protocol_ends_a_session() {
    let mut session = RemoteSession::new();
    let err = session.event(RemoteEvent::Hello { protocol_version: 2 }).unwrap_err();
    assert!(matches!(err, RemoteSessionError::ProtocolVersion { local: 1, remote: 2 }));
    assert_eq!(err.message(), "remote protocol version mismatch: local=1, remote=2");
}

#[test]
fn blank_lines_hold_no_event() {
    assert!(!is_event_line(""));
    assert!(!is_event_line(" \t\u{2003}"));
    assert!(is_event_line(" {} "));
}

#[test]
fn confirmations_are_judged_by_their_exit() {
    assert!(interpret_confirm_exit(true, Some(0)).is_ok());
    let err = interpret_confirm_exit(false, Some(-1)).unwrap_err();
    assert_eq!(err.message(), "remote confirm exited with a bad exit code: Some(-1)");
}

#[test]
fn messages_of_sessions_are_spelled_out() {
    let decode = RemoteSessionError::DecodeEvent {
        line: "{".to_string(),
        source: "EOF".to_string(),
    };
    assert_eq!(decode.message(), "failed to decode remote session event `{`: EOF");
    assert_eq!(
        RemoteSessionError::RemoteExit(None).message(),
        "remote session exited with a bad exit code: None"
    );
    assert_eq!(
        RemoteSessionError::Confirm(RemoteConfirmError::MissingStdin).message(),
        "failed to confirm activation over SSH: failed to open stdin for remote confirm"
    );
    assert_eq!(
        DeployProfileError::InvalidDeployDataDefs(no_user()).message(),
        "Deployment data invalid: Neither `user` nor `sshUser` are set for profile p of node n"
    );
}

#[test]
fn profiles_without_a_path_are_found_by_user_and_name() {
    let (node, mut profile, overrides) = (node(), profile(), empty_cmd_overrides());
    profile.profile_settings.profile_path = None;
    let data = deploy_data(&node, &profile, &overrides, empty_settings());
    let err = deploy_request(&data, &defs(), false, false, false).unwrap_err();
    assert!(matches!(
        err,
        DeployProfileError::InvalidDeployDataDefs(DeployDataDefsError::NoProfileUser(p, n))
            if p == data.profile_name && n == data.node_name
    ));
    assert!(revoke_request(&data, &defs()).is_err());
    let mut settings = empty_settings();
    settings.ssh_user = Some("me".to_string());
    let data = deploy_data(&node, &profile, &overrides, settings);
    let request = deploy_request(&data, &defs(), false, false, false).unwrap();
    assert!(matches!(
        request.profile,
        ProfileTarget::ProfileUserAndName { profile_user, profile_name }
            if profile_user == "me" && profile_name == data.profile_name
    ));
}

#[test]
fn the_nearest_setting_wins() {
    let (mut node, mut profile, mut overrides) = (node(), profile(), empty_cmd_overrides());
    let mut top = empty_settings();
    top.user = Some("top".to_string());
    top.ssh_opts = strings(&["3"]);
    top.confirm_timeout = Some(3);
    top.remote_build = Some(false);
    node.generic_settings.user = Some("node".to_string());
    node.generic_settings.ssh_opts = strings(&["2"]);
    node.generic_settings.auto_rollback = Some(false);
    profile.generic_settings.ssh_user = Some("profile".to_string());
    profile.generic_settings.ssh_opts = strings(&["1"]);
    profile.generic_settings.auto_rollback = Some(true);
    {
        let data = make_deploy_data(&top, &node, "n", &profile, "p", &overrides, true, Some("/l"));
        assert_eq!((data.node_name, data.profile_name), ("n", "p"));
        assert_eq!((data.debug_logs, data.log_dir), (true, Some("/l")));
        let settings = &data.merged_settings;
        assert_eq!(settings.user.as_deref(), Some("node"));
        assert_eq!(settings.ssh_user.as_deref(), Some("profile"));
        assert_eq!(settings.ssh_opts, strings(&["1", "2", "3"]));
        assert_eq!((settings.auto_rollback, settings.confirm_timeout), (Some(true), Some(3)));
        assert_eq!((settings.remote_build, settings.fast_connection), (Some(false), None));
    }
    overrides.profile_user = Some("given".to_string());
    overrides.ssh_opts = Some("-p 22".to_string());
    overrides.auto_rollback = Some(false);
    overrides.remote_build = true;
    overrides.temp_path = Some("/t".to_string());
    overrides.sudo = Some(SudoCommand::parse_legacy("doas -u").unwrap());
    let data = make_deploy_data(&top, &node, "n", &profile, "p", &overrides, false, None);
    let settings = &data.merged_settings;
    assert_eq!(settings.user.as_deref(), Some("given"));
    assert_eq!(settings.ssh_user.as_deref(), Some("profile"));
    assert_eq!(settings.ssh_opts, strings(&["-p", "22"]));
    assert_eq!((settings.auto_rollback, settings.remote_build), (Some(false), Some(true)));
    assert_eq!(settings.temp_path.as_deref(), Some("/t"));
    assert_eq!(settings.sudo.as_ref().unwrap().argv(), strings(&["doas", "-u"]).as_slice());
}

#[test]
fn sudo_is_used_for_another_user_only() {
    let (node, profile, overrides) = (node(), profile(), empty_cmd_overrides());
    let defs_of = |user: Option<&str>, ssh_user: Option<&str>| {
        let mut settings = empty_settings();
        settings.user = user.map(str::to_string);
        settings.ssh_user = ssh_user.map(str::to_string);
        deploy_data(&node, &profile, &overrides, settings).defs("me")
    };
    let defs = defs_of(Some("root"), Some("admin")).unwrap();
    assert_eq!((defs.ssh_user.as_str(), defs.profile_user.as_str()), ("admin", "root"));
    assert_eq!(defs.sudo, Some(SudoCommand::default_sudo()));
    assert_eq!(defs.sudo_password, None);
    let defs = defs_of(Some("root"), None).unwrap();
    assert_eq!((defs.ssh_user.as_str(), defs.sudo.is_some()), ("me", true));
    let defs = defs_of(None, Some("admin")).unwrap();
    assert_eq!((defs.profile_user.as_str(), defs.sudo), ("admin", None));
    assert!(matches!(defs_of(None, None), Err(DeployDataDefsError::NoProfileUser(_, _))));
}
