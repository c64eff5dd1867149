use deploy::activation::{
    danger_zone, deactivate, deactivate_command, is_canary, last_generation, lists_generation,
    make_lock_path, script_command, set_profile_command, wait_seconds, ActivateError, ActivateStage, Activation,
    ActivationConfirmationError, DangerZoneError, DeactivateError, DeactivateStage,
    GenerationFault, WaitError, WatchOutcome,
};
use deploy::command::{Command, Output, Stream};
use deploy::profile::{
    get_profile_path, profile_path_from_target, render_dry_diff, render_no_generation,
    user_profiles_dir, DryDiffError, GetProfilePathError, ProfileEnv, SizeChange,
};
use deploy::remote_protocol::{
    BootstrapRequest, ConfirmRequest, ProfileTarget, RemoteDeployRequest, RemoteEvent,
    RemoteOperation, RemoteRevokeRequest,
};
use deploy::session::{
    check_existing_confirmation, check_version, conclude_privileged, conclude_revoke,
    conclude_sudo_check, confirm_path, confirmation_contents, confirmation_step,
    deactivate_session, deployed_message, finished_event, hello_event, no_confirmation_dir,
    no_profile_path, password_line, privileged_command, request_path, rolled_back, session_dir,
    sudo_check_command, token, unconfirmed, CommandFault, ConfirmOutcome, ConfirmationRead,
    ConfirmationStep, DeploySession, SessionError, SessionStage,
};
use deploy::sudo::SudoCommand;

fn get_args(cmd: &Command) -> Vec<String> {
    std::iter::once(cmd.program.clone())
        .chain(cmd.args.iter().cloned())
        .collect()
}

fn env() -> ProfileEnv {
    ProfileEnv {
        nix_state_dir: None,
        state_home: None,
        home: None,
        has_user_profiles_dir: false,
    }
}

fn path_of(user: &str, name: &str, env: &ProfileEnv) -> Result<String, GetProfilePathError> {
    get_profile_path(None, Some(user.to_string()), Some(name.to_string()), env)
}

#[test]
fn test_get_profile_path_for_root_system_profile() {
    assert_eq!(
        path_of("root", "system", &env()).unwrap(),
        "/nix/var/nix/profiles/system"
    );
}

#[test]
fn test_get_profile_path_for_root_system_manager_profile() {
    assert_eq!(
        path_of("root", "system-manager", &env()).unwrap(),
        "/nix/var/nix/profiles/system-manager-profiles/system-manager"
    );
}

#[test]
fn test_get_profile_path_for_other_root_profile() {
    assert_eq!(
        path_of("root", "custom-profile", &env()).unwrap(),
        "/nix/var/nix/profiles/per-user/root/custom-profile"
    );
}

#[test]
fn profiles_of_users_are_found() {
    let old = ProfileEnv {
        nix_state_dir: Some("/state".to_string()),
        has_user_profiles_dir: true,
        ..env()
    };
    assert_eq!(path_of("me", "p", &old).unwrap(), "/state/profiles/per-user/me/p");
    assert_eq!(user_profiles_dir(Some("/state"), "me"), "/state/profiles/per-user/me");
    assert_eq!(user_profiles_dir(None, "me"), "/nix/var/nix/profiles/per-user/me");
    let home = ProfileEnv { home: Some("/home/me".to_string()), ..env() };
    assert_eq!(path_of("me", "p", &home).unwrap(), "/home/me/.local/state/nix/profiles/p");
    let state = ProfileEnv { state_home: Some("/s".to_string()), ..home };
    assert_eq!(path_of("me", "p", &state).unwrap(), "/s/nix/profiles/p");
    let err = path_of("me", "p", &env()).unwrap_err();
    assert_eq!(err.message(), "Failed to deduce HOME directory for user me");
    assert_eq!(
        DryDiffError::ProfilePath(err).message(),
        "Failed to resolve profile path: Failed to deduce HOME directory for user me"
    );
}

#[test]
fn profiles_are_found_by_their_target() {
    let path = ProfileTarget::ProfilePath { profile_path: "/p".to_string() };
    assert_eq!(profile_path_from_target(path, &env()).unwrap(), "/p");
    let named = || ProfileTarget::ProfileUserAndName {
        profile_user: "root".to_string(),
        profile_name: "x".to_string(),
    };
    assert_eq!(
        profile_path_from_target(named(), &env()).unwrap(),
        "/nix/var/nix/profiles/per-user/root/x"
    );
    assert_eq!(
        get_profile_path(Some("/q".to_string()), None, None, &env()).unwrap(),
        "/q"
    );
}

#[test]
fn changes_are_shown() {
    assert_eq!(
        render_no_generation("/p"),
        "No existing generation found at /p, skipping derivation diff.\n"
    );
    let size = SizeChange::Differs("SIZE: 1 -> 2\n".to_string());
    assert_eq!(
        render_dry_diff("/p", "a\n", 1, &size),
        "Derivation changes for /p:\na\n\nSIZE: 1 -> 2\n"
    );
    assert_eq!(
        render_dry_diff("/p", "", 0, &size),
        "Derivation changes for /p:\nSIZE: 1 -> 2\n"
    );
    assert_eq!(
        render_dry_diff("/p", "", 0, &SizeChange::Same),
        "Derivation changes for /p:\nNo version or size changes.\n"
    );
    assert_eq!(
        render_dry_diff("/p", "a\n", 1, &SizeChange::Same),
        "Derivation changes for /p:\na\n"
    );
    assert_eq!(
        render_dry_diff("/p", "", 0, &SizeChange::Unknown),
        "Derivation changes for /p:\n"
    );
}

#[test]
fn the_last_generation_is_found() {
    let list = "   1   2024-01-01 10:00:00   \n  12   2024-02-01 10:00:00   (current)\n";
    assert_eq!(last_generation(list).unwrap(), "12");
    assert_eq!(last_generation("").unwrap_err(), GenerationFault::NoLine);
    assert_eq!(last_generation("1 x\n \t\n").unwrap_err(), GenerationFault::NoId);
    assert!(lists_generation(list.as_bytes()));
    assert!(!lists_generation(b""));
    assert!(lists_generation(b"\xff"));
}

fn output(code: Option<i32>, stdout: &[u8]) -> Result<Output, String> {
    Ok(Output { code, stdout: stdout.to_vec(), stderr: vec![] })
}

#[test]
fn going_back_takes_its_course() {
    let shown = |stage: &DeactivateStage| deactivate_command("/p", stage).map(|c| get_args(&c));
    let mut stage = DeactivateStage::Rollback;
    assert_eq!(shown(&stage).unwrap(), vec!["nix-env", "-p", "/p", "--rollback"]);
    stage = deactivate(stage, output(Some(0), b"")).unwrap();
    assert_eq!(shown(&stage).unwrap(), vec!["nix-env", "-p", "/p", "--list-generations"]);
    stage = deactivate(stage, output(Some(0), b" 4  x\n 5  y\n")).unwrap();
    assert_eq!(
        shown(&stage).unwrap(),
        vec!["nix-env", "-p", "/p", "--delete-generations", "5"]
    );
    stage = deactivate(stage, output(Some(0), b"")).unwrap();
    let command = deactivate_command("/p", &stage).unwrap();
    assert_eq!(get_args(&command), vec!["/p/deploy-rx-activate"]);
    assert_eq!(command.env_value("PROFILE").as_deref(), Some("/p"));
    assert_eq!(command.dir.as_deref(), Some("/p"));
    stage = deactivate(stage, output(Some(0), b"")).unwrap();
    assert!(matches!(stage, DeactivateStage::Done));
    assert!(shown(&stage).is_none());
}

#[test]
fn going_back_reports_each_failure() {
    let delete = || DeactivateStage::DeleteGeneration("5".to_string());
    assert!(matches!(
        deactivate(DeactivateStage::Rollback, output(Some(1), b"")),
        Err(DeactivateError::RollbackExit(Some(1)))
    ));
    assert!(matches!(
        deactivate(DeactivateStage::Rollback, Err("e".to_string())),
        Err(DeactivateError::Rollback(e)) if e == "e"
    ));
    assert!(matches!(
        deactivate(DeactivateStage::ListGenerations, output(None, b"")),
        Err(DeactivateError::ListGenExit(None))
    ));
    assert!(matches!(
        deactivate(DeactivateStage::ListGenerations, Err("e".to_string())),
        Err(DeactivateError::ListGen(_))
    ));
    assert!(matches!(
        deactivate(DeactivateStage::ListGenerations, output(Some(0), b"\xff")),
        Err(DeactivateError::DecodeListGenUtf8(fault))
            if fault == "invalid utf-8 sequence of 1 bytes from index 0"
    ));
    assert!(matches!(
        deactivate(delete(), output(Some(2), b"")),
        Err(DeactivateError::DeleteGenExit(Some(2)))
    ));
    assert!(matches!(
        deactivate(delete(), Err("e".to_string())),
        Err(DeactivateError::DeleteGen(_))
    ));
    assert!(matches!(
        deactivate(DeactivateStage::Reactivate, output(Some(3), b"")),
        Err(DeactivateError::ReactivateExit(Some(3)))
    ));
    let err = deactivate(DeactivateStage::Reactivate, Err("e".to_string())).unwrap_err();
    assert_eq!(
        ActivateError::Deactivate(err).message(),
        "There was an error de-activating after an error was encountered: Failed to run command for re-activating the last generation: e"
    );
}

#[test]
fn going_back_in_a_session_gives_messages() {
    let fail = |stage, outcome| deactivate_session(stage, outcome).unwrap_err();
    assert_eq!(
        fail(DeactivateStage::Rollback, output(Some(1), b"")),
        "rollback resulted in a bad exit code: Some(1)"
    );
    assert_eq!(fail(DeactivateStage::Rollback, Err("why".to_string())), "why");
    assert_eq!(
        fail(DeactivateStage::ListGenerations, output(None, b"")),
        "listing generations resulted in a bad exit code: None"
    );
    assert_eq!(
        fail(DeactivateStage::ListGenerations, output(Some(0), b"")),
        "expected to find a generation in list"
    );
    assert_eq!(
        fail(DeactivateStage::ListGenerations, output(Some(0), b" \n")),
        "expected to get ID from generation entry"
    );
    assert_eq!(
        fail(DeactivateStage::ListGenerations, output(Some(0), b"a\xff")),
        "failed to decode generations list: invalid utf-8 sequence of 1 bytes from index 1"
    );
    assert_eq!(
        fail(DeactivateStage::DeleteGeneration("1".to_string()), output(Some(9), b"")),
        "deleting generations resulted in a bad exit code: Some(9)"
    );
    assert_eq!(
        fail(DeactivateStage::Reactivate, output(Some(-9), b"")),
        "re-activating the last generation resulted in a bad exit code: Some(-9)"
    );
    assert!(matches!(
        deactivate_session(DeactivateStage::ListGenerations, output(Some(0), b"7 x")),
        Ok(DeactivateStage::DeleteGeneration(id)) if id == "7"
    ));
    assert!(matches!(
        deactivate_session(DeactivateStage::Reactivate, output(Some(0), b"")),
        Ok(DeactivateStage::Done)
    ));
}

#[test]
fn scripts_are_run_where_they_belong() {
    assert_eq!(
        get_args(&set_profile_command("/p", "/c")),
        vec!["nix-env", "-p", "/p", "--set", "/c"]
    );
    let command = script_command("/p", "/c", false, true);
    assert_eq!(get_args(&command), vec!["/p/deploy-rx-activate"]);
    assert_eq!(command.env_value("PROFILE").as_deref(), Some("/p"));
    assert_eq!(command.env_value("DRY_ACTIVATE").as_deref(), Some("0"));
    assert_eq!(command.env_value("BOOT").as_deref(), Some("1"));
    assert_eq!(command.dir.as_deref(), Some("/p"));
    let command = script_command("/p", "/c", true, false);
    assert_eq!(get_args(&command), vec!["/c/deploy-rx-activate"]);
    assert_eq!(command.env_value("DRY_ACTIVATE").as_deref(), Some("1"));
    assert_eq!(command.dir.as_deref(), Some("/c"));
}

fn activation(auto_rollback: bool, dry_activate: bool) -> Activation {
    Activation { auto_rollback, magic_rollback: true, dry_activate, boot: false }
}

#[test]
fn an_activation_takes_its_course() {
    let activation = activation(true, false);
    assert!(matches!(activation.start(), ActivateStage::SetProfile));
    assert!(matches!(activation.profile_set(Ok(Some(0))), Ok(ActivateStage::RunScript)));
    assert!(matches!(activation.script_run(Ok(Some(0))), Ok(ActivateStage::Confirm)));
    assert!(matches!(activation.confirmation_awaited(Ok(())), ActivateStage::Done));
    let boot = Activation { boot: true, ..activation };
    assert!(matches!(boot.script_run(Ok(Some(0))), Ok(ActivateStage::Done)));
}

#[test]
fn a_failed_activation_is_taken_back_where_asked() {
    let (asked, not) = (activation(true, false), activation(false, false));
    assert!(matches!(
        asked.profile_set(Ok(Some(1))),
        Ok(ActivateStage::RollBack(ActivateError::SetProfileExit(Some(1))))
    ));
    assert!(matches!(
        not.profile_set(Ok(Some(1))),
        Err(ActivateError::SetProfileExit(Some(1)))
    ));
    assert!(matches!(asked.profile_set(Err("e".to_string())), Err(ActivateError::SetProfile(_))));
    assert!(matches!(
        asked.script_run(Ok(None)),
        Ok(ActivateStage::RollBack(ActivateError::RunActivateExit(None)))
    ));
    assert!(matches!(
        asked.script_run(Err("e".to_string())),
        Ok(ActivateStage::RollBack(ActivateError::RunActivate(_)))
    ));
    assert!(matches!(not.script_run(Err("e".to_string())), Err(ActivateError::RunActivate(_))));
    let reason = match not.confirmation_awaited(Err(ActivationConfirmationError::WaitingError(
        DangerZoneError::TimesUp,
    ))) {
        ActivateStage::RollBack(reason) => reason,
        other => panic!("{:?}", other),
    };
    let err = asked.rolled_back(reason, Ok(()));
    assert_eq!(
        err.message(),
        "Failed to get activation confirmation: Error waiting for confirmation event: Timeout elapsed for confirmation"
    );
    assert!(matches!(
        asked.rolled_back(err, Err(DeactivateError::RollbackExit(Some(1)))),
        ActivateError::Deactivate(DeactivateError::RollbackExit(Some(1)))
    ));
}

#[test]
fn a_dry_activation_changes_nothing() {
    let dry = activation(true, true);
    assert!(matches!(dry.start(), ActivateStage::RunScript));
    for code in [Some(0), Some(1), None] {
        assert!(matches!(dry.script_run(Ok(code)), Ok(ActivateStage::Done)));
    }
    assert!(matches!(dry.script_run(Err("e".to_string())), Err(ActivateError::RunActivate(_))));
}

#[test]
fn waiting_is_judged() {
    assert!(danger_zone(WatchOutcome::Event).is_ok());
    assert!(matches!(danger_zone(WatchOutcome::Ended), Err(DangerZoneError::NoConfirmation)));
    assert!(matches!(danger_zone(WatchOutcome::TimedOut), Err(DangerZoneError::TimesUp)));
    let err = danger_zone(WatchOutcome::Failed("x".to_string())).unwrap_err();
    assert_eq!(
        WaitError::Waiting(err).message(),
        "Error waiting for activation: inotify encountered an error: x"
    );
    assert_eq!((wait_seconds(None), wait_seconds(Some(3))), (240, 3));
    let paths = vec!["/t/lock".to_string()];
    assert!(is_canary(&paths, Some("/t/lock")));
    assert!(!is_canary(&paths, Some("/t/other")));
    assert!(!is_canary(&paths, None));
    assert!(!is_canary(&[], Some("/t/lock")));
    assert!(!is_canary(&[paths[0].clone(), paths[0].clone()], Some("/t/lock")));
}

#[test]
fn the_canary_is_found_by_its_components() {
    for path in ["/t//lock", "/t/./lock", "/t/lock/", "//t/lock/."] {
        assert!(is_canary(&[path.to_string()], Some("/t/lock")), "{}", path);
    }
    for path in ["t/lock", "./t/lock", "/t/../t/lock", "/t/lock/x", "/t", ""] {
        assert!(!is_canary(&[path.to_string()], Some("/t/lock")), "{}", path);
    }
}

fn request() -> RemoteDeployRequest {
    RemoteDeployRequest {
        closure: "/nix/store/c".to_string(),
        profile: ProfileTarget::ProfilePath { profile_path: "/p".to_string() },
        profile_user: "root".to_string(),
        review_changes: true,
        dry_activate: false,
        boot: false,
        auto_rollback: true,
        magic_rollback: true,
        confirm_timeout: 30,
        activation_timeout: Some(5),
        temp_path: "/tmp".to_string(),
        debug_logs: true,
        log_dir: Some("/log".to_string()),
    }
}

#[test]
fn a_deployment_takes_its_course() {
    let session = DeploySession::new(&request());
    assert!(matches!(session.start(), SessionStage::Review));
    assert!(matches!(session.reviewed(), SessionStage::SetProfile));
    assert!(matches!(session.profile_set(Ok(Some(0))), Ok(SessionStage::RunScript)));
    assert_eq!(session.script_timeout(), Some(5));
    assert!(matches!(session.script_run(Ok(Some(0))), Ok(SessionStage::Confirm)));
    assert!(matches!(
        session.confirmation_awaited(ConfirmOutcome::Confirmed),
        Ok(SessionStage::Done)
    ));
    assert_eq!(deployed_message(), "deployment finished");
    let boot = DeploySession { boot: true, review_changes: false, ..session };
    assert!(matches!(boot.start(), SessionStage::SetProfile));
    assert_eq!(boot.script_timeout(), None);
    assert!(matches!(boot.script_run(Ok(Some(0))), Ok(SessionStage::Done)));
}

#[test]
fn a_failed_deployment_is_taken_back_where_asked() {
    let asked = DeploySession::new(&request());
    let not = DeploySession { auto_rollback: false, ..asked };
    assert!(matches!(
        asked.profile_set(Ok(Some(2))),
        Ok(SessionStage::RollBack { message })
            if message == "setting profile resulted in a bad exit code: Some(2)"
    ));
    assert!(matches!(
        asked.script_run(Err("timed out".to_string())),
        Ok(SessionStage::RollBack { message }) if message == "timed out"
    ));
    let err = not.script_run(Ok(None)).unwrap_err();
    assert_eq!(err.message(), "activation script resulted in a bad exit code: None");
    assert!(!err.did_rollback());
    assert!(not.profile_set(Err("x".to_string())).is_err());
    let err = rolled_back("boom".to_string());
    assert!(err.did_rollback());
    assert!(matches!(
        finished_event(Err(err)),
        RemoteEvent::Finished { ok: false, rolled_back: true, message } if message == "boom"
    ));
}

#[test]
fn an_unconfirmed_deployment_is_taken_back() {
    let session = DeploySession { auto_rollback: false, ..DeploySession::new(&request()) };
    assert!(matches!(
        session.confirmation_awaited(ConfirmOutcome::Unconfirmed("late".to_string())),
        Ok(SessionStage::RollBackUnconfirmed { why }) if why == "late"
    ));
    let err = unconfirmed("late".to_string(), Ok(()));
    assert_eq!((err.message().as_str(), err.did_rollback()), ("confirmation failed: late", true));
    assert_eq!(
        unconfirmed("late".to_string(), Err("stuck".to_string())).message(),
        "confirmation failed: late; rollback also failed: stuck"
    );
    for (outcome, message) in [
        (ConfirmOutcome::NoSessionId("e".to_string()), "failed to generate session id: e"),
        (ConfirmOutcome::NoNonce("e".to_string()), "failed to generate nonce: e"),
        (ConfirmOutcome::NotSent("e".to_string()), "failed to send confirmation event: e"),
    ] {
        let err = session.confirmation_awaited(outcome).unwrap_err();
        assert_eq!((err.message().as_str(), err.did_rollback()), (message, false));
    }
}

#[test]
fn a_dry_deployment_changes_nothing() {
    let dry = DeploySession { dry_activate: true, ..DeploySession::new(&request()) };
    assert!(matches!(dry.reviewed(), SessionStage::RunScript));
    assert_eq!(dry.script_timeout(), None);
    assert!(matches!(dry.script_run(Ok(Some(1))), Ok(SessionStage::Done)));
    assert!(matches!(dry.script_run(Err("e".to_string())), Ok(SessionStage::Done)));
}

#[test]
fn sessions_report() {
    assert!(matches!(hello_event(), RemoteEvent::Hello { protocol_version: 1 }));
    assert!(matches!(
        finished_event(conclude_revoke(Ok(()))),
        RemoteEvent::Finished { ok: true, rolled_back: false, message }
            if message == "revoke finished"
    ));
    assert!(matches!(
        finished_event(conclude_revoke(Err("x".to_string()))),
        RemoteEvent::Finished { ok: false, rolled_back: false, message } if message == "x"
    ));
    assert_eq!(no_profile_path("x").message(), "failed to resolve profile path: x");
    assert!(!SessionError::failed("x".to_string()).did_rollback());
}

#[test]
fn what_is_written_as_a_confirmation_is_accepted() {
    let bytes: Vec<u8> = (0..16).map(|i| i * 17).collect();
    let nonce = token(&bytes);
    assert_eq!(nonce, "00112233445566778899aabbccddeeff");
    let contents = confirmation_contents(&nonce);
    assert_eq!(contents, format!("{}\n", nonce));
    let read = |text: &str| ConfirmationRead::Contents(text.to_string());
    assert!(matches!(
        confirmation_step(read(&contents), &nonce, true),
        ConfirmationStep::Confirmed
    ));
    assert!(matches!(
        confirmation_step(read(&contents), "other", false),
        ConfirmationStep::Failed(m) if m == "confirmation nonce did not match"
    ));
    assert!(check_existing_confirmation(&contents, &nonce).is_ok());
    assert_eq!(
        check_existing_confirmation(&contents, "other").unwrap_err(),
        "existing confirmation file has a different nonce"
    );
    assert!(matches!(
        confirmation_step(ConfirmationRead::NotFound, &nonce, false),
        ConfirmationStep::LookAgain
    ));
    assert!(matches!(
        confirmation_step(ConfirmationRead::NotFound, &nonce, true),
        ConfirmationStep::Failed(m) if m == "timeout elapsed for confirmation"
    ));
    assert!(matches!(
        confirmation_step(ConfirmationRead::Failed("e".to_string()), &nonce, false),
        ConfirmationStep::Failed(m) if m == "failed to read confirmation file: e"
    ));
    assert_eq!(
        no_confirmation_dir("e"),
        "failed to create confirmation directory: e"
    );
    assert_eq!(confirm_path("/tmp", "id"), "/tmp/deploy-rx-confirm-id");
    assert_eq!(confirm_path("/tmp/", "id"), "/tmp/deploy-rx-confirm-id");
}

fn bootstrap(sudo: Option<SudoCommand>, interactive_sudo: bool) -> BootstrapRequest {
    BootstrapRequest {
        protocol_version: 1,
        sudo,
        sudo_password: None,
        interactive_sudo,
        operation: RemoteOperation::Deploy(request()),
    }
}

#[test]
fn operations_are_carried_out_as_the_user_of_the_profile() {
    let request = bootstrap(Some(SudoCommand::default_sudo()), false);
    assert!(check_version(&request).is_ok());
    let command = privileged_command(&request, "/exe", "/tmp/s/request.json");
    assert_eq!(
        get_args(&command),
        vec![
            "sudo",
            "-u",
            "root",
            "/exe",
            "--debug-logs",
            "--log-dir",
            "/log",
            "privileged-session",
            "--request-path",
            "/tmp/s/request.json"
        ]
    );
    assert_eq!(
        (command.stdin, command.stdout, command.stderr),
        (Some(Stream::Null), Some(Stream::Inherit), Some(Stream::Inherit))
    );
    let request = bootstrap(Some(SudoCommand::default_sudo()), true);
    let command = privileged_command(&request, "/exe", "/r");
    assert_eq!(get_args(&command)[..6], ["sudo", "-S", "-p", "", "-u", "root"]);
    assert_eq!(command.stdin, Some(Stream::Piped));
    let mut request = bootstrap(None, false);
    request.operation = RemoteOperation::Revoke(RemoteRevokeRequest {
        closure: "/nix/store/c".to_string(),
        profile: ProfileTarget::ProfilePath { profile_path: "/p".to_string() },
        profile_user: "me".to_string(),
        temp_path: "/tmp".to_string(),
        debug_logs: false,
        log_dir: None,
    });
    assert_eq!(
        get_args(&privileged_command(&request, "/exe", "/r")),
        vec!["/exe", "privileged-session", "--request-path", "/r"]
    );
}

#[test]
fn sessions_have_a_place_of_their_own() {
    let dir = session_dir("/tmp", 42, "ab");
    assert_eq!(dir, "/tmp/deploy-rx-session-42-ab");
    assert_eq!(request_path(&dir), "/tmp/deploy-rx-session-42-ab/request.json");
    let mut request = bootstrap(None, false);
    request.protocol_version = 3;
    assert_eq!(
        check_version(&request).unwrap_err(),
        "remote protocol version mismatch: local request=3, remote=1"
    );
}

#[test]
fn sudo_is_checked_before_confirming() {
    let mut request = ConfirmRequest {
        temp_path: "/tmp".to_string(),
        session_id: "s".to_string(),
        nonce: "n".to_string(),
        sudo: Some(SudoCommand::default_sudo()),
        sudo_password: Some("pw".to_string()),
        interactive_sudo: true,
        profile_user: "me".to_string(),
    };
    let command = sudo_check_command(&request, "/exe").unwrap();
    assert_eq!(
        get_args(&command),
        vec!["sudo", "-S", "-p", "", "-u", "me", "/exe", "sudo-check"]
    );
    assert_eq!(
        (command.stdin, command.stdout, command.stderr),
        (Some(Stream::Piped), Some(Stream::Null), Some(Stream::Inherit))
    );
    assert_eq!(password_line(&request.sudo_password), "pw\n");
    assert_eq!(password_line(&None), "\n");
    request.sudo = None;
    assert!(sudo_check_command(&request, "/exe").is_none());
    assert!(conclude_sudo_check(true, Some(0)).is_ok());
    assert_eq!(
        conclude_sudo_check(false, Some(1)).unwrap_err(),
        "sudo confirmation check failed with status Some(1)"
    );
    assert!(conclude_privileged(true, Some(0)).is_ok());
    assert_eq!(
        conclude_privileged(false, None).unwrap_err(),
        "privileged session exited with status None"
    );
}

#[test]
fn faults_of_commands_are_spelled_out() {
    assert_eq!(CommandFault::TimedOut(65535).message(), "command timed out after 65535 seconds");
    assert_eq!(CommandFault::Spawn("e".to_string()).message(), "failed to spawn command: e");
    assert_eq!(CommandFault::Run("e".to_string()).message(), "failed to run command: e");
    assert_eq!(CommandFault::Wait("e".to_string()).message(), "failed to wait for command: e");
    assert_eq!(
        CommandFault::ForwardStdout("e".to_string()).message(),
        "failed to forward command stdout: e"
    );
    assert_eq!(
        CommandFault::ForwardStderr("e".to_string()).message(),
        "failed to forward command stderr: e"
    );
}

#[test]
fn canary_files_are_named_by_the_hash() {
    assert_eq!(
        make_lock_path("/tmp", "/nix/store/abc123-profile-1.0"),
        "/tmp/deploy-rx-canary-abc123"
    );
    assert_eq!(make_lock_path("/tmp/", "plain"), "/tmp/deploy-rx-canary-plain");
}
