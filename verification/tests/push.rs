use deploy::builds::{
    after_show_derivation, conclude_tree_build, deriver_for_build, gather_closures,
    installable_after_path_info, installable_by_path_info, nom_check_command, plan_build_run,
    remote_closure, resolve_derivation, shown_deriver, split_builds, BuildRun, LocalBuild,
    Resolution,
};
use deploy::command::{conclude, Command, CommandError, HasCommandError, Output, Stream};
use deploy::copy::{
    copy_group_command, copy_group_error, copy_group_key, copy_group_labels, copy_group_nodes,
    copy_groups, make_copy_command, CopyGroupKey,
};
use deploy::data::{GenericSettings, Node, NodeSettings, Profile, ProfileSettings};
use deploy::deployment::{CmdOverrides, DeployData, DeployDefs};
use deploy::json::Json;
use deploy::names::NameMap;
use deploy::push::{
    activation_files, check_listing, check_profile, check_remote_listing, decode_ssh_opts,
    encode_ssh_opts, make_build_command, make_remote_build_command, make_remote_derivation_copy_command,
    make_remote_sign_command, make_remote_store_ls_command, make_sign_command,
    remote_build_commands, remote_check_command, remote_sign_command, remote_store,
    BuildCommandInfo, BuildError, CopyError, PathInfoError, PushProfileData, PushProfileError,
    ShowDerivationError, SignError, StoreLsError,
};
use deploy::results::{
    assign_outputs, json_drv_path, parse_build_json, parse_build_out_paths,
};

fn strings(list: &[&str]) -> Vec<String> {
    list.iter().map(|s| s.to_string()).collect()
}

fn get_args(cmd: &Command) -> Vec<String> {
    std::iter::once(cmd.program.clone())
        .chain(cmd.args.iter().cloned())
        .collect()
}

#[test]
fn ssh_option_encoding_preserves_argument_boundaries() {
    let options = vec![
        "-o".to_string(),
        "ProxyCommand=ssh jump host -W %h:%p".to_string(),
        "-i".to_string(),
        "/keys/user's key".to_string(),
    ];

    let encoded = encode_ssh_opts(&options).unwrap();
    assert_eq!(shlex::split(&encoded).unwrap(), options);
}

#[test]
fn test_make_build_command_flakes_single_derivation() {
    let cmd = make_build_command(true, false, None, &[], &["/nix/store/abc.drv^out"], &[]);
    assert_eq!(
        get_args(&cmd),
        vec![
            "nix",
            "build",
            "--json",
            "/nix/store/abc.drv^out",
            "--no-link"
        ]
    );
}

#[test]
fn test_make_build_command_flakes_multiple_derivations() {
    let cmd = make_build_command(
        true,
        false,
        None,
        &[],
        &["/nix/store/abc.drv^out", "/nix/store/def.drv^out"],
        &[],
    );
    assert_eq!(
        get_args(&cmd),
        vec![
            "nix",
            "build",
            "--json",
            "/nix/store/abc.drv^out",
            "/nix/store/def.drv^out",
            "--no-link"
        ]
    );
}

#[test]
fn test_make_build_command_no_flakes_multiple_derivations() {
    let cmd = make_build_command(
        false,
        false,
        None,
        &[],
        &["/nix/store/abc.drv", "/nix/store/def.drv"],
        &[],
    );
    assert_eq!(
        get_args(&cmd),
        vec![
            "nix-build",
            "/nix/store/abc.drv",
            "/nix/store/def.drv",
            "--no-out-link"
        ]
    );
}

#[test]
fn test_nested_remote_commands_copy_outer_drv_and_build_full_installable() {
    let derivation = "/nix/store/outer.drv^out^out";
    let copy = make_remote_derivation_copy_command(
        "ssh-ng://deploy@example.com",
        "-p 2222",
        derivation,
    );
    let build =
        make_remote_build_command("ssh-ng://deploy@example.com", "-p 2222", derivation, &[]);

    assert_eq!(
        get_args(&copy),
        vec![
            "nix",
            "--experimental-features",
            "nix-command",
            "copy",
            "-s",
            "--to",
            "ssh-ng://deploy@example.com",
            "--derivation",
            "/nix/store/outer.drv",
        ]
    );
    assert_eq!(
        get_args(&build),
        vec![
            "nix",
            "--experimental-features",
            "nix-command",
            "build",
            "/nix/store/outer.drv^out^out",
            "--eval-store",
            "auto",
            "--store",
            "ssh-ng://deploy@example.com",
            "--json",
        ]
    );
}

#[test]
fn test_remote_profile_check_and_sign_commands_use_remote_store() {
    let store = "ssh-ng://deploy@example.com";
    let ssh_opts = "-p 2222";
    let closure = "/nix/store/abc-profile";
    let check =
        make_remote_store_ls_command(store, ssh_opts, "/nix/store/abc-profile/activate-rs");
    let sign = make_remote_sign_command(store, ssh_opts, "/keys/cache.sec", closure);

    assert_eq!(
        get_args(&check),
        vec![
            "nix",
            "--experimental-features",
            "nix-command",
            "store",
            "ls",
            "--json",
            "--store",
            "ssh-ng://deploy@example.com",
            "/nix/store/abc-profile/activate-rs",
        ]
    );
    assert_eq!(
        get_args(&sign),
        vec![
            "nix",
            "--experimental-features",
            "nix-command",
            "store",
            "sign",
            "--store",
            "ssh-ng://deploy@example.com",
            "--recursive",
            "--key-file",
            "/keys/cache.sec",
            "/nix/store/abc-profile",
        ]
    );
}

#[test]
fn test_make_build_command_keep_result() {
    let profiles = vec![BuildCommandInfo {
        node_name: "node1",
        profile_name: "system",
    }];
    let cmd = make_build_command(
        true,
        true,
        Some("./results"),
        &[],
        &["/nix/store/abc.drv^out"],
        &profiles,
    );
    assert_eq!(
        get_args(&cmd),
        vec![
            "nix",
            "build",
            "--json",
            "/nix/store/abc.drv^out",
            "--out-link",
            "./results/node1/system",
        ]
    );
}

#[test]
fn test_make_build_command_keep_result_multiple_profiles_uses_shared_out_link() {
    let profiles = vec![
        BuildCommandInfo {
            node_name: "node1",
            profile_name: "logs",
        },
        BuildCommandInfo {
            node_name: "node1",
            profile_name: "metrics",
        },
    ];
    let cmd = make_build_command(
        true,
        true,
        Some("./results"),
        &[],
        &["/nix/store/abc.drv^out", "/nix/store/def.drv^out"],
        &profiles,
    );
    assert_eq!(
        get_args(&cmd),
        vec![
            "nix",
            "build",
            "--json",
            "/nix/store/abc.drv^out",
            "/nix/store/def.drv^out",
            "--out-link",
            "./results/profiles",
        ]
    );
}

#[test]
fn test_make_build_command_keep_result_default_path() {
    let profiles = vec![BuildCommandInfo {
        node_name: "mynode",
        profile_name: "web",
    }];
    let cmd = make_build_command(
        true,
        true,
        None,
        &[],
        &["/nix/store/abc.drv^out"],
        &profiles,
    );
    assert_eq!(
        get_args(&cmd),
        vec![
            "nix",
            "build",
            "--json",
            "/nix/store/abc.drv^out",
            "--out-link",
            "./.deploy-gc/mynode/web",
        ]
    );
}

#[test]
fn test_make_build_command_extra_args() {
    let extra = vec!["--option".to_string(), "foo".to_string(), "bar".to_string()];
    let cmd = make_build_command(true, false, None, &extra, &["/nix/store/abc.drv^out"], &[]);
    assert_eq!(
        get_args(&cmd),
        vec![
            "nix",
            "build",
            "--json",
            "/nix/store/abc.drv^out",
            "--no-link",
            "--option",
            "foo",
            "bar"
        ]
    );
}

#[test]
fn parse_build_out_paths_returns_batch_in_order() {
    let stdout = b"/nix/store/abc123-example\n/nix/store/def456-example\n";
    let paths = parse_build_out_paths(stdout, 2).expect("two-line stdout must parse");
    assert_eq!(
        paths,
        vec![
            "/nix/store/abc123-example".to_string(),
            "/nix/store/def456-example".to_string()
        ]
    );
}

#[test]
fn parse_build_out_paths_rejects_empty_output() {
    let err = parse_build_out_paths(b"", 1).expect_err("empty stdout must error");
    assert!(matches!(err, PushProfileError::BuildStdoutEmpty));
}

#[test]
fn parse_build_out_paths_rejects_wrong_number_of_outputs() {
    let stdout = b"/nix/store/a\n/nix/store/b\n";
    let err = parse_build_out_paths(stdout, 1).expect_err("wrong path count must error");
    assert!(matches!(
        err,
        PushProfileError::BuildStdoutPathCount {
            actual: 2,
            expected: 1,
            ..
        }
    ));
}

#[test]
fn parse_build_json_matches_reordered_results_by_drv_path() {
    let stdout = br#"[
        {"drvPath":"/nix/store/b.drv","outputs":{"out":"/nix/store/b"}},
        {"drvPath":"/nix/store/a.drv","outputs":{"out":"/nix/store/a"}}
    ]"#;
    let paths = parse_build_json(stdout, &["/nix/store/a.drv^out", "/nix/store/b.drv^out"])
        .expect("JSON results must be associated by drvPath");

    assert_eq!(paths, vec!["/nix/store/a", "/nix/store/b"]);
}

#[test]
fn parse_build_json_matches_nested_dynamic_drv_path() {
    let stdout = br#"[{
        "drvPath": {
            "drvPath": "/nix/store/outer.drv",
            "output": "out",
            "outputPath": "/nix/store/generated.drv"
        },
        "outputs": {"out":"/nix/store/final"}
    }]"#;
    let paths = parse_build_json(stdout, &["/nix/store/outer.drv^out^out"])
        .expect("recursive drvPath identity must match nested installable");

    assert_eq!(paths, vec!["/nix/store/final"]);
}

#[test]
fn parse_build_json_selects_requested_output() {
    let stdout = br#"[{
        "drvPath":"/nix/store/a.drv",
        "outputs":{
            "out":"/nix/store/a",
            "dev":"/nix/store/a-dev"
        }
    }]"#;
    let paths = parse_build_json(stdout, &["/nix/store/a.drv^dev"])
        .expect("the requested non-default output must be selected");

    assert_eq!(paths, vec!["/nix/store/a-dev"]);
}

#[test]
fn parse_build_json_selects_nested_dynamic_non_default_output() {
    let stdout = br#"[{
        "drvPath": {
            "drvPath": "/nix/store/outer.drv",
            "output": "out",
            "outputPath": "/nix/store/generated.drv"
        },
        "outputs": {
            "out":"/nix/store/final",
            "dev":"/nix/store/final-dev"
        }
    }]"#;
    let paths = parse_build_json(stdout, &["/nix/store/outer.drv^out^dev"])
        .expect("the final output of a nested derivation must be selected");

    assert_eq!(paths, vec!["/nix/store/final-dev"]);
}

#[test]
fn parse_build_json_rejects_missing_derivation() {
    let stdout = br#"[{"drvPath":"/nix/store/a.drv","outputs":{"out":"/nix/store/a"}}]"#;
    let err = parse_build_json(stdout, &["/nix/store/b.drv^out"])
        .expect_err("missing derivation identity must error");

    assert!(matches!(
        err,
        PushProfileError::BuildStdoutMissingDerivation(path)
            if path == "/nix/store/b.drv^out"
    ));
}

#[test]
fn test_make_copy_command_multiple_paths() {
    let key = CopyGroupKey {
        hostname: "example.com".to_string(),
        ssh_user: "deploy".to_string(),
        ssh_opts: "-p 2222".to_string(),
        fast_connection: Some(false),
        check_sigs: false,
    };
    let cmd = make_copy_command(&key, &["/nix/store/abc-profile", "/nix/store/def-profile"]);

    assert_eq!(
        get_args(&cmd),
        vec![
            "nix",
            "copy",
            "--substitute-on-destination",
            "--no-check-sigs",
            "--to",
            "ssh://deploy@example.com",
            "/nix/store/abc-profile",
            "/nix/store/def-profile",
        ]
    );

    let nix_sshopts = cmd.env_value("NIX_SSHOPTS");
    assert_eq!(nix_sshopts, Some("-p 2222".to_string()));
}

#[test]
fn test_make_copy_command_fast_connection_and_check_sigs() {
    let key = CopyGroupKey {
        hostname: "example.com".to_string(),
        ssh_user: "deploy".to_string(),
        ssh_opts: String::new(),
        fast_connection: Some(true),
        check_sigs: true,
    };
    let cmd = make_copy_command(&key, &["/nix/store/abc-profile"]);

    assert_eq!(
        get_args(&cmd),
        vec![
            "nix",
            "copy",
            "--to",
            "ssh://deploy@example.com",
            "/nix/store/abc-profile",
        ]
    );
}

#[test]
fn legacy_build_rejects_non_default_output() {
    let err = deriver_for_build("/nix/store/a.drv".to_string(), "dev", false)
        .expect_err("nix-build cannot reliably select a non-default output");

    assert!(matches!(
        err,
        PushProfileError::LegacyNonDefaultOutput(output) if output == "dev"
    ));
}

#[test]
fn nom_draws_a_build_where_it_is_available() {
    let command = Command::new("/bin/nix").arg("build").env("PATH", "/some/bin");
    let check = nom_check_command(&command);
    assert_eq!(get_args(&check), vec!["nom", "--version"]);
    assert_eq!(check.env_value("PATH").as_deref(), Some("/some/bin"));
    assert_eq!((check.stdout, check.stderr), (Some(Stream::Null), Some(Stream::Null)));
    match plan_build_run(command, true, true) {
        BuildRun::Tree { nix, nom } => {
            assert_eq!(
                get_args(&nix),
                vec!["/bin/nix", "build", "--log-format", "internal-json", "--verbose"]
            );
            assert_eq!((nix.stdout, nix.stderr), (Some(Stream::Piped), Some(Stream::Piped)));
            assert_eq!(get_args(&nom), vec!["nom", "--json"]);
            assert_eq!(nom.env_value("PATH").as_deref(), Some("/some/bin"));
            assert_eq!(
                (nom.stdin, nom.stdout, nom.stderr),
                (Some(Stream::Piped), Some(Stream::Inherit), Some(Stream::Inherit))
            );
        }
        BuildRun::Plain(_) => panic!("the build must be drawn"),
    }
}

#[test]
fn a_build_is_run_plainly_without_nom() {
    for (tree, nom) in [(true, false), (false, true), (false, false)] {
        let command = Command::new("/bin/nix").arg("build");
        match plan_build_run(command, tree, nom) {
            BuildRun::Plain(command) => {
                assert_eq!(get_args(&command), vec!["/bin/nix", "build"]);
                assert_eq!(
                    (command.stdout, command.stderr),
                    (Some(Stream::Piped), Some(Stream::Inherit))
                );
            }
            BuildRun::Tree { .. } => panic!("the build must not be drawn"),
        }
    }
}

#[test]
fn drawn_builds_are_judged_by_nix_alone() {
    assert_eq!(conclude_tree_build(Some(0), b"out".to_vec()).unwrap(), b"out".to_vec());
    for (code, shown) in [(Some(1), "Some(1)"), (None, "None")] {
        let err = conclude_tree_build(code, vec![]).unwrap_err();
        assert_eq!(
            err.message(),
            format!(
                "Failed to run Nix build command: Nix build command resulted in a bad exit code: {}",
                shown
            )
        );
    }
}

fn empty_settings() -> GenericSettings {
    GenericSettings {
        ssh_user: None,
        user: None,
        ssh_opts: vec![],
        fast_connection: None,
        auto_rollback: None,
        confirm_timeout: None,
        activation_timeout: None,
        temp_path: None,
        magic_rollback: None,
        sudo: None,
        remote_build: None,
        interactive_sudo: None,
    }
}

fn empty_cmd_overrides() -> CmdOverrides {
    CmdOverrides {
        ssh_user: None,
        profile_user: None,
        ssh_opts: None,
        fast_connection: None,
        auto_rollback: None,
        hostname: None,
        magic_rollback: None,
        temp_path: None,
        confirm_timeout: None,
        activation_timeout: None,
        sudo: None,
        interactive_sudo: None,
        dry_activate: false,
        remote_build: false,
    }
}

fn test_node() -> Node {
    Node {
        generic_settings: empty_settings(),
        node_settings: NodeSettings {
            hostname: "example.com".to_string(),
            profiles: NameMap::new(),
            profiles_order: vec![],
        },
    }
}

fn test_deploy_defs() -> DeployDefs {
    DeployDefs {
        ssh_user: "root".to_string(),
        profile_user: "root".to_string(),
        sudo: None,
        sudo_password: None,
    }
}

fn test_profile() -> Profile {
    Profile {
        profile_settings: ProfileSettings {
            path: "/nix/store/abc-profile".to_string(),
            profile_path: None,
            tags: vec![],
            drv_path: None,
            output_name: "out".to_string(),
        },
        generic_settings: empty_settings(),
    }
}

fn check_files(closure: &str) -> Result<(), PushProfileError> {
    let (deploy_rx_activate, activate_rs) = activation_files(closure);
    check_profile(
        std::path::Path::new(&deploy_rx_activate).exists(),
        std::path::Path::new(&activate_rs).exists(),
    )
}

#[test]
fn test_check_and_sign_profile_missing_deploy_rx_activate() {
    let result = check_files("/nonexistent/path");
    assert!(matches!(
        result,
        Err(PushProfileError::DeployRsActivateDoesntExist)
    ));
}

#[test]
fn closures_without_the_activation_program_are_rejected() {
    let result = check_profile(true, false);
    assert!(matches!(
        result,
        Err(PushProfileError::ActivateRsDoesntExist)
    ));
}

#[test]
fn complete_closures_are_accepted_and_signed() {
    assert!(check_profile(true, true).is_ok());
    assert_eq!(
        activation_files("/nix/store/x"),
        (
            "/nix/store/x/deploy-rx-activate".to_string(),
            "/nix/store/x/activate-rs".to_string()
        )
    );
    assert_eq!(
        get_args(&make_sign_command("/key", "/nix/store/x")),
        vec!["nix", "sign-paths", "-r", "-k", "/key", "/nix/store/x"]
    );
}

/// A profile to be built and copied, with what tells it apart from others.
struct Given {
    node: Node,
    profile: Profile,
    overrides: CmdOverrides,
    defs: DeployDefs,
}

fn given() -> Given {
    Given {
        node: test_node(),
        profile: test_profile(),
        overrides: empty_cmd_overrides(),
        defs: test_deploy_defs(),
    }
}

fn deploy_data<'a>(
    given: &'a Given,
    node_name: &'a str,
    profile_name: &'a str,
    merged_settings: GenericSettings,
) -> DeployData<'a> {
    DeployData {
        node_name,
        node: &given.node,
        profile_name,
        profile: &given.profile,
        cmd_overrides: &given.overrides,
        merged_settings,
        debug_logs: false,
        log_dir: None,
    }
}

fn push_data<'a>(given: &'a Given, deploy_data: &'a DeployData<'a>) -> PushProfileData<'a> {
    PushProfileData {
        supports_flakes: true,
        check_sigs: false,
        repo: ".",
        deploy_data,
        deploy_defs: &given.defs,
        keep_result: false,
        result_path: None,
        extra_build_args: &[],
        build_tree: false,
    }
}

#[test]
fn encoded_ssh_options_are_decoded_again() {
    let options = strings(&[
        "", "-o", "a b", "'", "\"", "it's \"q\"", "\\", "a\\", "#c", "^", "a^b!", "$x `y`", "a\nb",
        "\t", "\r", "h\u{e4}\u{a0}", "~", "{a,b}", "%h:%p", "\u{7f}",
    ]);
    let encoded = encode_ssh_opts(&options).unwrap();
    assert_eq!(decode_ssh_opts(&encoded).unwrap(), options);
    for option in &options {
        let encoded = encode_ssh_opts(&[option.clone()]).unwrap();
        assert_eq!(decode_ssh_opts(&encoded).unwrap(), vec![option.clone()]);
    }
    assert_eq!(encode_ssh_opts(&[]).unwrap(), "");
    assert!(decode_ssh_opts("").unwrap().is_empty());
    assert_eq!(decode_ssh_opts("a  'b c' # d").unwrap(), strings(&["a", "b c"]));
    assert_eq!(decode_ssh_opts("'open"), None);
    assert_eq!(decode_ssh_opts("open\\"), None);
}

#[test]
fn ssh_options_with_a_nul_character_cannot_be_encoded() {
    let err = encode_ssh_opts(&strings(&["-o", "a\0b"])).unwrap_err();
    assert!(matches!(err, PushProfileError::SshOptionsQuote(_)));
    assert_eq!(
        err.message(),
        "Failed to encode SSH options: cannot shell-quote string containing nul byte"
    );
    assert_eq!(encode_ssh_opts(&[]).unwrap(), "");
    assert_eq!(encode_ssh_opts(&strings(&["-p", "22 3"])).unwrap(), "-p '22 3'");
    for words in [strings(&["", "a\nb", "#x", "it's", "\\", "^!`$"]), strings(&["\u{a0}"])] {
        let encoded = encode_ssh_opts(&words).unwrap();
        assert_eq!(shlex::split(&encoded).unwrap(), words);
    }
}

#[test]
fn remote_stores_are_addressed_by_user_and_host() {
    let mut given = given();
    let mut settings = empty_settings();
    settings.ssh_opts = strings(&["-p", "2222"]);
    let data = deploy_data(&given, "n", "p", settings);
    let (address, opts) = remote_store(&push_data(&given, &data)).unwrap();
    assert_eq!((address.as_str(), opts.as_str()), ("ssh-ng://root@example.com", "-p 2222"));
    given.overrides.hostname = Some("other".to_string());
    let mut settings = empty_settings();
    settings.ssh_opts = strings(&["\0"]);
    let data = deploy_data(&given, "n", "p", settings);
    let data = push_data(&given, &data);
    assert!(matches!(remote_store(&data), Err(PushProfileError::SshOptionsQuote(_))));
    assert!(matches!(
        remote_build_commands(&data, "x.drv"),
        Err(PushProfileError::SshOptionsQuote(_))
    ));
    assert!(remote_check_command(&data, "/c").is_err());
    assert!(remote_sign_command(&data, "/k", "/c").is_err());
}

#[test]
fn remote_builds_copy_then_build() {
    let mut given = given();
    given.overrides.hostname = Some("other".to_string());
    let data = deploy_data(&given, "n", "p", empty_settings());
    let extra = strings(&["--impure"]);
    let mut data = push_data(&given, &data);
    data.extra_build_args = &extra;
    let (copy, build) = remote_build_commands(&data, "/nix/store/a.drv^out^dev").unwrap();
    assert_eq!(copy.args.last().unwrap(), "/nix/store/a.drv");
    assert_eq!(copy.stdout, Some(Stream::Null));
    assert_eq!(copy.env_value("NIX_SSHOPTS").as_deref(), Some(""));
    assert_eq!(build.args[3], "/nix/store/a.drv^out^dev");
    assert_eq!(build.args[7], "ssh-ng://root@other");
    assert_eq!(build.args.last().unwrap(), "--impure");
    let check = remote_check_command(&data, "/nix/store/c").unwrap();
    assert_eq!(check.args[6..], strings(&["ssh-ng://root@other", "/nix/store/c"])[..]);
    let sign = remote_sign_command(&data, "/key", "/nix/store/c").unwrap();
    assert_eq!(sign.args[8..], strings(&["/key", "/nix/store/c"])[..]);
}

#[test]
fn remote_listings_are_checked() {
    let both = br#"{"type":"directory","entries":{"activate-rs":{},"deploy-rx-activate":{}}}"#;
    assert!(check_remote_listing(both).is_ok());
    assert!(matches!(
        check_remote_listing(br#"{"entries":{"activate-rs":{}}}"#),
        Err(PushProfileError::DeployRsActivateDoesntExist)
    ));
    assert!(matches!(
        check_remote_listing(br#"{"entries":{"deploy-rx-activate":null}}"#),
        Err(PushProfileError::ActivateRsDoesntExist)
    ));
    for odd in ["{}", "[]", r#"{"entries":[]}"#] {
        assert!(matches!(
            check_remote_listing(odd.as_bytes()),
            Err(PushProfileError::DeployRsActivateDoesntExist)
        ));
    }
    let err = check_remote_listing(b"").unwrap_err();
    assert!(matches!(err, PushProfileError::StoreLsParse(_)));
    assert_eq!(
        err.message(),
        "Failed to parse the JSON output of nix store ls: EOF while parsing a value at line 1 column 0"
    );
    let entry = |name: &str| (name.to_string(), Json::Null);
    let listing = Json::Object(vec![(
        "entries".to_string(),
        Json::Object(vec![entry("activate-rs"), entry("deploy-rx-activate")]),
    )]);
    assert!(check_listing(&listing).is_ok());
}

#[test]
fn parse_build_out_paths_trims_and_counts() {
    assert_eq!(
        parse_build_out_paths(b" \r\n /a \r\n\t/b \n\n", 2).unwrap(),
        strings(&["/a", "/b"])
    );
    assert!(matches!(
        parse_build_out_paths(b"\xff", 1),
        Err(PushProfileError::BuildStdoutUtf8(fault))
            if fault == "invalid utf-8 sequence of 1 bytes from index 0"
    ));
    let err = parse_build_out_paths(b"/a\n\n/b", 2).unwrap_err();
    assert_eq!(
        err.message(),
        "Nix build command printed 3 output paths, expected 2: /a\n\n/b"
    );
    assert!(matches!(
        parse_build_out_paths(b" \n", 0),
        Err(PushProfileError::BuildStdoutEmpty)
    ));
}

#[test]
fn parse_build_json_reports_what_is_wrong() {
    let parse = |text: &str| parse_build_json(text.as_bytes(), &["/a.drv^out"]).unwrap_err();
    for text in ["", "{}", "[", "3"] {
        let fault = serde_json::from_str::<Vec<serde_json::Value>>(text).unwrap_err();
        match parse(text) {
            PushProfileError::BuildStdoutParse(shown) => assert_eq!(shown, fault.to_string()),
            other => panic!("{:?}", other),
        }
        assert!(matches!(
            remote_closure(text.as_bytes(), "/a.drv^out"),
            Err(PushProfileError::BuildStdoutParse(shown)) if shown == fault.to_string()
        ));
    }
    for text in [
        "[1]",
        "[{}]",
        r#"[{"drvPath":1,"outputs":{}}]"#,
        r#"[{"drvPath":{"drvPath":"/a.drv"},"outputs":{}}]"#,
        r#"[{"drvPath":{"drvPath":"/a.drv","output":2},"outputs":{}}]"#,
        r#"[{"drvPath":{"output":"out"},"outputs":{}}]"#,
    ] {
        assert!(
            matches!(parse(text), PushProfileError::BuildStdoutInvalidDerivation),
            "{}",
            text
        );
    }
    for text in [
        r#"[{"drvPath":"/b.drv"}]"#,
        r#"[{"drvPath":"/b.drv","outputs":[]}]"#,
        r#"[{"drvPath":"/b.drv","outputs":{"out":null}}]"#,
    ] {
        assert!(
            matches!(
                parse(text),
                PushProfileError::BuildStdoutMissingDerivation(d) if d == "/b.drv"
            ),
            "{}",
            text
        );
    }
}

#[test]
fn parse_build_json_takes_the_default_output_and_the_last_path() {
    let stdout = br#"[
        {"drvPath":"/a.drv","outputs":{"out":"/first"}},
        {"drvPath":"/a.drv","outputs":{"out":"/second"}}
    ]"#;
    assert_eq!(
        parse_build_json(stdout, &["/a.drv", "/a.drv^out"]).unwrap(),
        strings(&["/second", "/second"])
    );
    assert!(parse_build_json(b"[]", &[]).unwrap().is_empty());
    assert_eq!(
        remote_closure(stdout, "/a.drv^out").unwrap(),
        "/second"
    );
    assert!(matches!(
        remote_closure(stdout, "/a.drv^dev"),
        Err(PushProfileError::BuildStdoutMissingDerivation(d)) if d == "/a.drv^dev"
    ));
}

#[test]
fn the_order_of_results_does_not_matter() {
    let result = |drv: &str, path: &str| {
        Json::Object(vec![
            ("drvPath".to_string(), Json::Text(drv.to_string())),
            (
                "outputs".to_string(),
                Json::Object(vec![("out".to_string(), Json::Text(path.to_string()))]),
            ),
        ])
    };
    let one = vec![result("/a", "/1"), result("/b", "/2"), result("/c", "/3")];
    let other = vec![
        result("/c", "/3"),
        result("/a", "/1"),
        result("/b", "/2"),
        result("/a", "/1"),
    ];
    let wanted = ["/b^out", "/a", "/c^out"];
    assert_eq!(assign_outputs(&one, &wanted).unwrap(), strings(&["/2", "/1", "/3"]));
    assert_eq!(assign_outputs(&other, &wanted).unwrap(), strings(&["/2", "/1", "/3"]));
}

#[test]
fn identities_of_dynamic_derivations_nest() {
    let text = |t: &str| Json::Text(t.to_string());
    let nested = |inner: Json, output: &str| {
        Json::Object(vec![
            ("drvPath".to_string(), inner),
            ("output".to_string(), text(output)),
        ])
    };
    assert_eq!(json_drv_path(&text("/a.drv")).unwrap(), "/a.drv");
    assert_eq!(
        json_drv_path(&nested(nested(text("/a.drv"), "x"), "y")).unwrap(),
        "/a.drv^x^y"
    );
    assert!(json_drv_path(&Json::Bool(true)).is_err());
    assert!(json_drv_path(&nested(Json::Number, "x")).is_err());
    assert!(json_drv_path(&Json::Array(vec![])).is_err());
}

#[test]
fn derivations_are_resolved_step_by_step() {
    let mut given = given();
    given.profile.profile_settings.output_name = "dev".to_string();
    {
        let data = deploy_data(&given, "n", "p", empty_settings());
        let data = push_data(&given, &data);
        match resolve_derivation(&data).unwrap() {
            Resolution::ShowDerivation(command) => assert_eq!(
                get_args(&command),
                vec![
                    "nix",
                    "--experimental-features",
                    "nix-command",
                    "show-derivation",
                    "/nix/store/abc-profile"
                ]
            ),
            other => panic!("{:?}", other),
        }
        let shown = br#"{"version":4,"derivations":{"abc.drv":{}}}"#;
        match after_show_derivation(&data, shown).unwrap() {
            Resolution::PathInfo { deriver, command } => {
                assert_eq!(deriver, "/nix/store/abc.drv");
                assert_eq!(command.args[2..], strings(&["path-info", "/nix/store/abc.drv"])[..]);
            }
            other => panic!("{:?}", other),
        }
    }
    given.profile.profile_settings.drv_path = Some("/nix/store/d.drv".to_string());
    let data = deploy_data(&given, "n", "p", empty_settings());
    let mut data = push_data(&given, &data);
    assert!(matches!(
        resolve_derivation(&data),
        Ok(Resolution::PathInfo { deriver, .. }) if deriver == "/nix/store/d.drv"
    ));
    data.supports_flakes = false;
    assert!(matches!(
        resolve_derivation(&data),
        Err(PushProfileError::LegacyNonDefaultOutput(output)) if output == "dev"
    ));
    let mut settings = empty_settings();
    settings.remote_build = Some(true);
    let remote = deploy_data(&given, "n", "p", settings);
    data.deploy_data = &remote;
    assert!(matches!(resolve_derivation(&data), Ok(Resolution::PathInfo { .. })));
    assert!(matches!(
        deriver_for_build("/d.drv".to_string(), "out", false),
        Ok(Resolution::Installable(name)) if name == "/d.drv"
    ));
}

#[test]
fn path_info_decides_on_the_installable() {
    let deriver = || "/nix/store/d.drv".to_string();
    assert_eq!(
        installable_by_path_info(deriver(), "dev", b" /nix/store/d.drv\n").unwrap(),
        "/nix/store/d.drv^dev"
    );
    assert_eq!(
        installable_by_path_info(deriver(), "out", b"/nix/store/d\n").unwrap(),
        "/nix/store/d.drv"
    );
    assert_eq!(
        installable_by_path_info(deriver(), "out", b"\xff").unwrap(),
        "/nix/store/d.drv"
    );
    assert!(matches!(
        installable_by_path_info(deriver(), "dev", b""),
        Err(PushProfileError::LegacyNonDefaultOutput(output)) if output == "dev"
    ));
}

#[test]
fn failing_path_info_is_that_of_an_older_nix() {
    let deriver = || "/nix/store/d.drv".to_string();
    let left = |code: i32, stdout: &[u8]| Output {
        code: Some(code),
        stdout: stdout.to_vec(),
        stderr: b"error: path is not valid".to_vec(),
    };
    let exit = || Err(CommandError::Exit(left(1, b""), "nix path-info".to_string()));
    assert_eq!(
        installable_after_path_info(deriver(), "dev", Ok(left(0, b"/nix/store/d.drv\n"))).unwrap(),
        "/nix/store/d.drv^dev"
    );
    assert_eq!(
        installable_after_path_info(deriver(), "out", Ok(left(0, b"/nix/store/d\n"))).unwrap(),
        "/nix/store/d.drv"
    );
    assert_eq!(
        installable_after_path_info(deriver(), "out", exit()).unwrap(),
        "/nix/store/d.drv"
    );
    assert!(matches!(
        installable_after_path_info(deriver(), "dev", exit()),
        Err(PushProfileError::LegacyNonDefaultOutput(output)) if output == "dev"
    ));
    assert!(matches!(
        installable_after_path_info(
            deriver(),
            "out",
            Err(CommandError::RunError("no nix".to_string())),
        ),
        Err(PushProfileError::PathInfo(CommandError::RunError(why))) if why == "no nix"
    ));
    assert!(matches!(
        installable_after_path_info(
            deriver(),
            "out",
            Err(CommandError::OtherError(PathInfoError::Other("odd".to_string()))),
        ),
        Err(PushProfileError::PathInfo(CommandError::OtherError(PathInfoError::Other(why))))
            if why == "odd"
    ));
}

#[test]
fn show_derivation_output_is_looked_into() {
    let given = given();
    let data = deploy_data(&given, "n", "p", empty_settings());
    let data = push_data(&given, &data);
    let fault = |stdout: &[u8]| match after_show_derivation(&data, stdout).unwrap_err() {
        PushProfileError::ShowDerivation(CommandError::OtherError(fault)) => fault,
        other => panic!("{:?}", other),
    };
    assert!(matches!(
        fault(b"\xff"),
        ShowDerivationError::Utf8(shown)
            if shown == "invalid utf-8 sequence of 1 bytes from index 0"
    ));
    assert!(matches!(
        fault(b"{"),
        ShowDerivationError::Parse(shown)
            if shown == "EOF while parsing an object at line 1 column 1"
    ));
    assert!(matches!(fault(b"[]"), ShowDerivationError::Invalid));
    assert!(matches!(fault(b"{}"), ShowDerivationError::Empty));
    assert!(matches!(fault(br#"{"derivations":3}"#), ShowDerivationError::Invalid));
    assert_eq!(fault(b"{}").message(), "Nix show-derivation output is empty");
    let object = |name: &str| Json::Object(vec![(name.to_string(), Json::Null)]);
    assert_eq!(shown_deriver(&object("/nix/store/x.drv")).unwrap(), "/nix/store/x.drv");
    assert_eq!(shown_deriver(&object("x.drv")).unwrap(), "/nix/store/x.drv");
}

#[test]
fn local_builds_build_each_derivation_once() {
    let given = given();
    let first = deploy_data(&given, "n1", "p", empty_settings());
    let second = deploy_data(&given, "n2", "p", empty_settings());
    let (first, second) = (push_data(&given, &first), push_data(&given, &second));
    let items = vec![
        (&first, "/b.drv^out"),
        (&second, "/a.drv^out"),
        (&first, "/b.drv^out"),
    ];
    let (build, command) = LocalBuild::plan(&items).unwrap();
    assert_eq!(
        get_args(&command),
        vec!["nix", "build", "--json", "/b.drv^out", "/a.drv^out", "--no-link"]
    );
    let stdout = br#"[
        {"drvPath":"/a.drv","outputs":{"out":"/a"}},
        {"drvPath":"/b.drv","outputs":{"out":"/b"}}
    ]"#;
    assert_eq!(build.closures(stdout).unwrap(), strings(&["/b", "/a", "/b"]));
    assert!(matches!(
        build.closures(b"[]"),
        Err(PushProfileError::BuildStdoutMissingDerivation(d)) if d == "/b.drv^out"
    ));
    assert!(LocalBuild::plan(&[]).is_none());
}

#[test]
fn local_builds_without_flakes_read_paths() {
    let given = given();
    let data = deploy_data(&given, "n1", "p", empty_settings());
    let mut data = push_data(&given, &data);
    data.supports_flakes = false;
    data.keep_result = true;
    let items = vec![(&data, "/b.drv"), (&data, "/a.drv"), (&data, "/a.drv")];
    let (build, command) = LocalBuild::plan(&items).unwrap();
    assert_eq!(
        get_args(&command),
        vec!["nix-build", "/b.drv", "/a.drv", "--out-link", "./.deploy-gc/profiles"]
    );
    assert_eq!(build.closures(b"/b\n/a\n").unwrap(), strings(&["/b", "/a", "/a"]));
    assert!(matches!(
        build.closures(b"/b\n"),
        Err(PushProfileError::BuildStdoutPathCount { actual: 1, expected: 2, .. })
    ));
    let (_, command) = LocalBuild::plan(&items[..1]).unwrap();
    assert_eq!(command.args.last().unwrap(), "./.deploy-gc/n1/p");
}

#[test]
fn profiles_are_built_where_they_belong() {
    let given = given();
    let datas: Vec<DeployData> = [None, Some(true), Some(false), Some(true)]
        .into_iter()
        .map(|remote_build| {
            let mut settings = empty_settings();
            settings.remote_build = remote_build;
            deploy_data(&given, "n", "p", settings)
        })
        .collect();
    let datas: Vec<PushProfileData> = datas.iter().map(|d| push_data(&given, d)).collect();
    assert_eq!(split_builds(&datas), (vec![1, 3], vec![0, 2]));
    assert_eq!(
        gather_closures(&datas, strings(&["r1", "r3"]), strings(&["l0", "l2"])),
        strings(&["l0", "r1", "l2", "r3"])
    );
    assert!(gather_closures(&[], vec![], vec![]).is_empty());
}

#[test]
fn closures_are_copied_in_groups() {
    let given = given();
    let settings = |remote: bool, opts: &[&str], fast: Option<bool>| {
        let mut settings = empty_settings();
        settings.remote_build = Some(remote);
        settings.ssh_opts = strings(opts);
        settings.fast_connection = fast;
        settings
    };
    let datas = vec![
        deploy_data(&given, "n1", "a", settings(false, &["-p", "1"], None)),
        deploy_data(&given, "n2", "b", settings(true, &["\0"], None)),
        deploy_data(&given, "n3", "c", settings(false, &["-p 1"], None)),
        deploy_data(&given, "n4", "d", settings(false, &["-p", "1"], None)),
        deploy_data(&given, "n1", "e", settings(false, &["-p", "1"], None)),
        deploy_data(&given, "n1", "f", settings(false, &["-p", "1"], Some(true))),
    ];
    let datas: Vec<PushProfileData> = datas.iter().map(|d| push_data(&given, d)).collect();
    let groups = copy_groups(&datas).unwrap();
    let indexes: Vec<Vec<usize>> = groups.iter().map(|g| g.indexes.clone()).collect();
    assert_eq!(indexes, vec![vec![0, 3, 4], vec![2], vec![5]]);
    assert_eq!(copy_group_nodes(&datas, &groups[0]), "n1, n4");
    assert_eq!(copy_group_labels(&datas, &groups[0]), "`n1.a`, `n4.d`, `n1.e`");
    let closures = strings(&["/0", "/1", "/2", "/3", "/4", "/5"]);
    let command = copy_group_command(&datas, &groups[0], &closures);
    assert_eq!(
        get_args(&command),
        vec![
            "nix",
            "copy",
            "--substitute-on-destination",
            "--no-check-sigs",
            "--to",
            "ssh://root@example.com",
            "/0",
            "/3",
            "/4"
        ]
    );
    assert_eq!(command.env_value("NIX_SSHOPTS").as_deref(), Some("-p 1"));
    let source = CommandError::RunError("gone".to_string());
    let err = copy_group_error(&datas, &groups[1], source);
    assert_eq!(err.node_context(), Some("n3"));
    assert_eq!(
        err.message(),
        "Failed to run Nix copy command to ssh://root@example.com for `n3.c`: Failed to run Nix copy command: gone"
    );
    assert_eq!(PushProfileError::BuildStdoutEmpty.node_context(), None);
    assert_eq!(copy_group_key(&datas[0]).unwrap().ssh_opts, "-p 1");
    let bad = deploy_data(&given, "n", "p", settings(false, &["\0"], None));
    assert!(matches!(
        copy_groups(&[push_data(&given, &bad)]),
        Err(PushProfileError::SshOptionsQuote(why))
            if why == "cannot shell-quote string containing nul byte"
    ));
    assert!(copy_groups(&[]).unwrap().is_empty());
}

#[test]
fn commands_are_concluded_by_their_exit_code() {
    let output = |code| Output {
        code,
        stdout: b"out".to_vec(),
        stderr: b"err".to_vec(),
    };
    assert_eq!(
        conclude::<BuildError>(Ok(output(Some(0))), "nix".to_string()).unwrap().stdout,
        b"out".to_vec()
    );
    let err = conclude::<PathInfoError>(Ok(output(Some(7))), "\"nix\" \\\"x\\\"".to_string())
        .unwrap_err();
    assert_eq!(
        err.message(),
        "Nix path-info command resulted in a bad exit code: Some(7).\nThe failed command is provided below:\n\"nix\" \"x\"\nThe stderr output is provided below:\nerr"
    );
    let err = conclude::<SignError>(Err("no such file".to_string()), "nix".to_string()).unwrap_err();
    assert_eq!(err.message(), "Failed to run Nix sign command: no such file");
    let err = conclude::<StoreLsError>(
        Ok(Output { code: None, stdout: vec![], stderr: vec![255, 10] }),
        "bad \\q".to_string(),
    )
    .unwrap_err();
    assert_eq!(
        err.message(),
        "Nix store ls command resulted in a bad exit code: None.\nThe failed command is provided below:\nbad \\q\nThe stderr output is provided below:\n[255, 10]"
    );
    let other: CommandError<CopyError> =
        CommandError::OtherError(CopyError::Other("odd".to_string()));
    assert_eq!(other.message(), "odd");
    assert_eq!(BuildError::title(), "Nix build");
    assert_eq!(ShowDerivationError::title(), "Nix show derivation");
}

#[test]
fn the_last_value_of_a_variable_counts() {
    let command = Command::new("x").env("A", "1").env("B", "2").env("A", "3");
    assert_eq!(command.env_value("A").as_deref(), Some("3"));
    assert_eq!(command.env_value("C"), None);
}

#[test]
fn messages_of_builds_are_spelled_out() {
    assert_eq!(
        PushProfileError::DeployRsActivateDoesntExist.message(),
        "Activation script deploy-rx-activate does not exist in profile.\nDid you forget to use deploy-rx#lib.<...>.activate.<...> on your profile path?"
    );
    assert_eq!(
        PushProfileError::LegacyNonDefaultOutput("dev".to_string()).message(),
        "The legacy nix-build command cannot build the non-default `dev` derivation output"
    );
    assert_eq!(
        PushProfileError::BuildStdoutMissingDerivation("/a".to_string()).message(),
        "Nix build JSON output did not contain the requested derivation output /a"
    );
}
