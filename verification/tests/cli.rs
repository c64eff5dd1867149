use deploy::cli::{
    check_command, check_deployment, first_stage, flake_support_command, next_check,
    CheckDeploymentError, GetDeploymentDataError, Opts, PromptDeploymentError, RunDeployError,
    RunError, RunStage,
};
use deploy::command::Stream;
use deploy::data::{Data, GenericSettings, Node, NodeSettings, Profile, ProfileSettings};
use deploy::deploy::{DeployProfileError, RevokeProfileError};
use deploy::deployment::{
    CmdOverrides, DeployData, DeployDataDefsError, DeployDefs, DeployFlake,
};
use deploy::names::{NameMap, NameSet};
use deploy::prompt::{
    conclude_prompt, first_answer, make_push_profile_datas, password_prompt, prompt_parts, react,
    second_answer, PasswordPrompt, PushProfileDataOptions, Reaction,
};
use deploy::push::PushProfileError;
use deploy::requests::{
    build_repo_reqs, data_of_targets, evaluated_text, evaluation_command, targets_label,
};
use deploy::rollout::{Rollout, Stage};
use deploy::targets::{parse_file, parse_flake, ParseFlakeError};
use deploy::selection::{
    collect_to_deploy, ordered_profiles_for_node, profile_matches_tags, select_to_deploy, ToDeploy,
};
use deploy::sudo::{SudoCommand, SudoParseError};

fn strings(list: &[&str]) -> Vec<String> {
    list.iter().map(|s| s.to_string()).collect()
}

fn set(names: &[&str]) -> NameSet {
    let mut set = NameSet::new();
    for name in names {
        set.insert(name.to_string());
    }
    set
}

fn empty_generic_settings() -> GenericSettings {
    GenericSettings {
        ssh_user: None,
        user: None,
        ssh_opts: vec![],
        fast_connection: None,
        auto_rollback: None,
        confirm_timeout: None,
        activation_timeout: None,
        temp_path: None,
        magic_rollback: None,
        sudo: None,
        remote_build: None,
        interactive_sudo: None,
    }
}

fn profile_with_tags(tags: &[&str]) -> Profile {
    Profile {
        profile_settings: ProfileSettings {
            path: "/nix/store/test-profile".to_string(),
            profile_path: None,
            tags: tags.iter().map(|tag| tag.to_string()).collect(),
            drv_path: None,
            output_name: "out".to_string(),
        },
        generic_settings: empty_generic_settings(),
    }
}

fn second_node_with_profiles() -> Node {
    let mut profiles = NameMap::new();
    profiles.insert("api".to_string(), profile_with_tags(&["edge", "prod"]));
    profiles.insert("batch".to_string(), profile_with_tags(&["batch"]));

    Node {
        generic_settings: empty_generic_settings(),
        node_settings: NodeSettings {
            hostname: "example.net".to_string(),
            profiles,
            profiles_order: vec!["api".to_string()],
        },
    }
}

fn data_with_nodes() -> Data {
    let mut nodes = NameMap::new();
    nodes.insert("node1".to_string(), node_with_profiles());
    nodes.insert("node2".to_string(), second_node_with_profiles());

    Data {
        generic_settings: empty_generic_settings(),
        nodes,
    }
}

fn empty_cmd_overrides() -> CmdOverrides {
    CmdOverrides {
        ssh_user: None,
        profile_user: None,
        ssh_opts: None,
        fast_connection: None,
        auto_rollback: None,
        hostname: None,
        magic_rollback: None,
        temp_path: None,
        confirm_timeout: None,
        activation_timeout: None,
        sudo: None,
        interactive_sudo: None,
        dry_activate: false,
        remote_build: false,
    }
}

fn node_with_profiles() -> Node {
    let mut profiles = NameMap::new();
    profiles.insert("system".to_string(), profile_with_tags(&["core", "prod"]));
    profiles.insert("metrics".to_string(), profile_with_tags(&["observability"]));
    profiles.insert(
        "logs".to_string(),
        profile_with_tags(&["observability", "prod"]),
    );

    Node {
        generic_settings: empty_generic_settings(),
        node_settings: NodeSettings {
            hostname: "example.com".to_string(),
            profiles,
            profiles_order: vec!["logs".to_string(), "system".to_string()],
        },
    }
}

fn names<'a>(to_deploy: &ToDeploy<'a>) -> Vec<(&'a str, &'a str)> {
    to_deploy
        .iter()
        .map(|(_, _, (node_name, _), (profile_name, _))| (*node_name, *profile_name))
        .collect()
}

#[test]
fn test_build_repo_reqs_single_target() {
    let flakes = vec![DeployFlake {
        repo: "repo1",
        node: Some("node1".to_string()),
        profile: Some("profile1".to_string()),
    }];
    let reqs = build_repo_reqs(&flakes).unwrap();

    assert_eq!(reqs.len(), 1);
    let req = reqs.get("repo1").unwrap();
    assert!(!req.all_nodes);
    assert_eq!(req.nodes.len(), 1);
    let n_req = req.nodes.get("node1").unwrap();
    assert!(!n_req.all_profiles);
    assert_eq!(n_req.profiles.names(), strings(&["profile1"]).as_slice());
}

#[test]
fn test_build_repo_reqs_multiple_targets_same_repo() {
    let flakes = vec![
        DeployFlake {
            repo: "repo1",
            node: Some("node1".to_string()),
            profile: Some("profile1".to_string()),
        },
        DeployFlake {
            repo: "repo1",
            node: Some("node1".to_string()),
            profile: Some("profile2".to_string()),
        },
        DeployFlake {
            repo: "repo1",
            node: Some("node2".to_string()),
            profile: None,
        },
    ];
    let reqs = build_repo_reqs(&flakes).unwrap();

    assert_eq!(reqs.len(), 1);
    let req = reqs.get("repo1").unwrap();
    assert_eq!(req.nodes.len(), 2);

    let n1_req = req.nodes.get("node1").unwrap();
    assert_eq!(n1_req.profiles.len(), 2);
    assert!(n1_req.profiles.contains("profile1"));
    assert!(n1_req.profiles.contains("profile2"));

    let n2_req = req.nodes.get("node2").unwrap();
    assert!(n2_req.all_profiles);
}

#[test]
fn test_build_repo_reqs_all_nodes() {
    let flakes = vec![DeployFlake {
        repo: "repo1",
        node: None,
        profile: None,
    }];
    let reqs = build_repo_reqs(&flakes).unwrap();

    assert_eq!(reqs.len(), 1);
    let req = reqs.get("repo1").unwrap();
    assert!(req.all_nodes);
}

#[test]
fn test_build_repo_reqs_multiple_repos() {
    let flakes = vec![
        DeployFlake {
            repo: "repo1",
            node: Some("node1".to_string()),
            profile: None,
        },
        DeployFlake {
            repo: "repo2",
            node: Some("node2".to_string()),
            profile: None,
        },
    ];
    let reqs = build_repo_reqs(&flakes).unwrap();

    assert_eq!(reqs.len(), 2);
    assert!(reqs.contains_key("repo1"));
    assert!(reqs.contains_key("repo2"));
}

#[test]
fn test_build_repo_reqs_invalid_profile_no_node() {
    let flakes = vec![DeployFlake {
        repo: "repo1",
        node: None,
        profile: Some("profile1".to_string()),
    }];
    let res = build_repo_reqs(&flakes);
    assert!(matches!(res, Err(GetDeploymentDataError::ProfileNoNode)));
}

#[test]
fn test_ordered_profiles_for_node_filters_tags_and_preserves_order() {
    let node = node_with_profiles();
    let tags = set(&["observability"]);

    let profiles = ordered_profiles_for_node(&node, &tags).unwrap();
    let names: Vec<_> = profiles.into_iter().map(|(name, _)| name).collect();

    assert_eq!(names, vec!["logs", "metrics"]);
}

#[test]
fn test_ordered_profiles_for_node_without_tags_returns_all_profiles_once() {
    let node = node_with_profiles();

    let profiles = ordered_profiles_for_node(&node, &NameSet::new()).unwrap();
    let names: Vec<_> = profiles.into_iter().map(|(name, _)| name).collect();

    assert_eq!(names, vec!["logs", "system", "metrics"]);
}

#[test]
fn test_profile_matches_tags_supports_empty_matching_all_matching_and_non_matching_sets() {
    let profile = profile_with_tags(&["prod", "blue"]);

    assert!(profile_matches_tags(&profile, &NameSet::new()));
    assert!(profile_matches_tags(&profile, &set(&["prod"])));
    assert!(profile_matches_tags(&profile, &set(&["blue", "prod"])));
    assert!(!profile_matches_tags(&profile, &set(&["missing", "blue"])));
    assert!(!profile_matches_tags(&profile, &set(&["missing"])));
}

#[test]
fn test_ordered_profiles_for_node_errors_when_profiles_order_references_missing_profile() {
    let mut node = node_with_profiles();
    node.node_settings
        .profiles_order
        .push("missing".to_string());

    let result = ordered_profiles_for_node(&node, &NameSet::new());

    assert!(matches!(
        result,
        Err(RunDeployError::ProfileNotFound(name)) if name == "missing"
    ));
}

#[test]
fn test_collect_to_deploy_explicit_profile_matches_tag() {
    let deploy_flakes = vec![DeployFlake {
        repo: "repo1",
        node: Some("node1".to_string()),
        profile: Some("system".to_string()),
    }];
    let data = vec![data_with_nodes()];
    let tags = vec!["prod".to_string()];

    let to_deploy = collect_to_deploy(&deploy_flakes, &data, &tags).unwrap();

    assert_eq!(names(&to_deploy), vec![("node1", "system")]);
}

#[test]
fn test_collect_to_deploy_explicit_profile_errors_on_missing_node() {
    let deploy_flakes = vec![DeployFlake {
        repo: "repo1",
        node: Some("missing-node".to_string()),
        profile: Some("system".to_string()),
    }];
    let data = vec![data_with_nodes()];
    let tags = vec!["prod".to_string()];

    let result = collect_to_deploy(&deploy_flakes, &data, &tags);

    assert!(matches!(
        result,
        Err(RunDeployError::NodeNotFound(name)) if name == "missing-node"
    ));
}

#[test]
fn test_collect_to_deploy_explicit_profile_errors_on_missing_profile() {
    let deploy_flakes = vec![DeployFlake {
        repo: "repo1",
        node: Some("node1".to_string()),
        profile: Some("missing-profile".to_string()),
    }];
    let data = vec![data_with_nodes()];
    let tags = vec!["prod".to_string()];

    let result = collect_to_deploy(&deploy_flakes, &data, &tags);

    assert!(matches!(
        result,
        Err(RunDeployError::ProfileNotFound(name)) if name == "missing-profile"
    ));
}

#[test]
fn test_collect_to_deploy_node_target_filters_profiles_by_tag() {
    let deploy_flakes = vec![DeployFlake {
        repo: "repo1",
        node: Some("node1".to_string()),
        profile: None,
    }];
    let data = vec![data_with_nodes()];
    let tags = vec!["observability".to_string()];

    let to_deploy = collect_to_deploy(&deploy_flakes, &data, &tags).unwrap();

    assert_eq!(names(&to_deploy), vec![("node1", "logs"), ("node1", "metrics")]);
}

#[test]
fn test_collect_to_deploy_node_target_errors_on_missing_node() {
    let deploy_flakes = vec![DeployFlake {
        repo: "repo1",
        node: Some("missing-node".to_string()),
        profile: None,
    }];
    let data = vec![data_with_nodes()];
    let tags = vec!["observability".to_string()];

    let result = collect_to_deploy(&deploy_flakes, &data, &tags);

    assert!(matches!(
        result,
        Err(RunDeployError::NodeNotFound(name)) if name == "missing-node"
    ));
}

#[test]
fn test_collect_to_deploy_all_nodes_filters_matching_profiles_across_nodes() {
    let deploy_flakes = vec![DeployFlake {
        repo: "repo1",
        node: None,
        profile: None,
    }];
    let data = vec![data_with_nodes()];
    let tags = vec!["prod".to_string()];

    let to_deploy = collect_to_deploy(&deploy_flakes, &data, &tags).unwrap();
    let mut names = names(&to_deploy);
    names.sort();

    assert_eq!(
        names,
        vec![("node1", "logs"), ("node1", "system"), ("node2", "api")]
    );
}

#[test]
fn test_collect_to_deploy_rejects_profile_without_node() {
    let deploy_flakes = vec![DeployFlake {
        repo: "repo1",
        node: None,
        profile: Some("system".to_string()),
    }];
    let data = vec![data_with_nodes()];

    let result = collect_to_deploy(&deploy_flakes, &data, &[]);

    assert!(matches!(result, Err(RunDeployError::ProfileWithoutNode)));
}

#[test]
fn test_run_deploy_errors_when_tags_match_no_profiles() {
    let deploy_flakes = vec![DeployFlake {
        repo: "repo1",
        node: Some("node1".to_string()),
        profile: Some("system".to_string()),
    }];
    let data = vec![data_with_nodes()];
    let tags = vec!["staging".to_string()];

    let result = select_to_deploy(&deploy_flakes, &data, &tags);

    assert!(matches!(
        result,
        Err(RunDeployError::NoProfilesMatchedTags(requested)) if requested == "staging"
    ));
}

#[test]
fn nothing_to_deploy_is_no_error_without_tags() {
    let data: Vec<Data> = vec![Data {
        generic_settings: empty_generic_settings(),
        nodes: NameMap::new(),
    }];
    let flakes = vec![DeployFlake { repo: "r", node: None, profile: None }];
    assert!(select_to_deploy(&flakes, &data, &[]).unwrap().is_empty());
    assert!(matches!(
        select_to_deploy(&flakes, &data, &strings(&["a", "b"])),
        Err(RunDeployError::NoProfilesMatchedTags(tags)) if tags == "a, b"
    ));
}

#[test]
fn targets_are_collected_one_after_the_other() {
    let flakes = vec![
        DeployFlake {
            repo: "r",
            node: Some("node2".to_string()),
            profile: Some("batch".to_string()),
        },
        DeployFlake { repo: "r", node: Some("node1".to_string()), profile: None },
    ];
    let data = vec![data_with_nodes(), data_with_nodes()];
    assert_eq!(
        names(&collect_to_deploy(&flakes, &data, &[]).unwrap()),
        vec![("node2", "batch"), ("node1", "logs"), ("node1", "system"), ("node1", "metrics")]
    );
    // A target without data is passed over.
    assert_eq!(
        names(&collect_to_deploy(&flakes, &data[..1], &[]).unwrap()),
        vec![("node2", "batch")]
    );
    let twice = strings(&["prod", "prod"]);
    assert_eq!(
        names(&collect_to_deploy(&flakes, &data, &twice).unwrap()),
        vec![("node1", "logs"), ("node1", "system")]
    );
}

#[test]
fn profiles_that_the_order_lists_twice_come_once() {
    let mut node = node_with_profiles();
    node.node_settings.profiles_order = strings(&["metrics", "metrics", "logs"]);
    let profiles = ordered_profiles_for_node(&node, &NameSet::new()).unwrap();
    let names: Vec<_> = profiles.into_iter().map(|(name, _)| name).collect();
    assert_eq!(names, vec!["metrics", "logs", "system"]);
}

#[test]
fn evaluation_asks_for_what_is_wanted() {
    let command = evaluation_command(true, "path:.", "{\"all_nodes\":true}", &strings(&["--x"]));
    assert_eq!(command.program, "nix");
    assert_eq!(
        command.args[..8],
        strings(&[
            "--extra-experimental-features",
            "nix-command",
            "--extra-experimental-features",
            "flakes",
            "eval",
            "--json",
            "path:.#deploy",
            "--apply",
        ])[..]
    );
    assert!(command.args[8].starts_with("(\nreq: deploy:\nlet\n  filterNode = name: node:\n"));
    assert!(command.args[8].ends_with("\n) (builtins.fromJSON ''{\"all_nodes\":true}'')"));
    assert_eq!(command.args[9], "--x");
    assert_eq!(command.stdout, Some(Stream::Piped));
    let command = evaluation_command(false, "/repo", "", &[]);
    assert_eq!(command.program, "nix-instantiate");
    assert_eq!(
        command.args,
        strings(&[
            "--strict",
            "--read-write-mode",
            "--json",
            "--eval",
            "-E",
            "let r = import /repo/.; in if builtins.isFunction r then (r {}).deploy else r.deploy",
        ])
    );
}

#[test]
fn evaluations_are_judged_by_exit_code_and_encoding() {
    assert_eq!(evaluated_text(Some(0), b"{}").unwrap(), "{}");
    assert!(matches!(
        evaluated_text(Some(1), b"{}"),
        Err(GetDeploymentDataError::NixEvalExit(Some(1)))
    ));
    assert!(matches!(
        evaluated_text(None, b"\xff"),
        Err(GetDeploymentDataError::NixEvalExit(None))
    ));
    assert!(matches!(
        evaluated_text(Some(0), b"\xff"),
        Err(GetDeploymentDataError::DecodeUtf8(fault))
            if fault == "invalid utf-8 sequence of 1 bytes from index 0"
    ));
}

#[test]
fn targets_share_the_data_of_their_flake() {
    let flakes = vec![
        DeployFlake { repo: "b", node: Some("n".to_string()), profile: Some("p".to_string()) },
        DeployFlake { repo: "a", node: Some("n".to_string()), profile: None },
        DeployFlake { repo: "b", node: None, profile: None },
    ];
    let mut datas: NameMap<Data> = NameMap::new();
    datas.insert("a".to_string(), data_with_nodes());
    datas.insert(
        "b".to_string(),
        Data { generic_settings: empty_generic_settings(), nodes: NameMap::new() },
    );
    let lens: Vec<usize> = data_of_targets(&flakes, &datas).iter().map(|d| d.nodes.len()).collect();
    assert_eq!(lens, vec![0, 2, 0]);
    assert_eq!(targets_label(&flakes), "`b#n.p`, `a#n`, `b`");
    let reqs = build_repo_reqs(&flakes).unwrap();
    assert_eq!(reqs.len(), 2);
    assert!(reqs.get("b").unwrap().all_nodes);
    assert!(reqs.get("b").unwrap().nodes.get("n").unwrap().profiles.contains("p"));
    assert!(!reqs.get("b").unwrap().nodes.get("n").unwrap().all_profiles);
}

fn opts() -> Opts {
    Opts {
        target: None,
        targets: None,
        tags: vec![],
        file: None,
        checksigs: false,
        interactive: false,
        build_tree: true,
        no_build_tree: false,
        review_changes: true,
        no_review_changes: false,
        extra_build_args: vec![],
        debug_logs: false,
        log_dir: None,
        keep_result: false,
        result_path: None,
        skip_checks: false,
        remote_build: false,
        ssh_user: None,
        profile_user: None,
        ssh_opts: None,
        fast_connection: None,
        auto_rollback: None,
        hostname: None,
        magic_rollback: None,
        confirm_timeout: None,
        activation_timeout: None,
        temp_path: None,
        dry_activate: false,
        boot: false,
        rollback_succeeded: None,
        sudo: None,
        interactive_sudo: None,
        no_ssh_multiplexing: false,
        no_rollback_fresh_connection: false,
    }
}

#[test]
fn arguments_name_the_targets() {
    assert_eq!(opts().deploys(), strings(&["."]));
    assert_eq!(Opts { target: Some("x".to_string()), ..opts() }.deploys(), strings(&["x"]));
    let targets = Some(strings(&["a", "b"]));
    assert_eq!(
        Opts { target: Some("x".to_string()), targets, ..opts() }.deploys(),
        strings(&["a", "b"])
    );
}

#[test]
fn arguments_override_settings() {
    let given = Opts {
        ssh_user: Some("u".to_string()),
        confirm_timeout: Some(3),
        sudo: Some("doas".to_string()),
        remote_build: true,
        ..opts()
    };
    let overrides = given.cmd_overrides().unwrap();
    assert_eq!(overrides.ssh_user.as_deref(), Some("u"));
    assert_eq!(overrides.confirm_timeout, Some(3));
    assert_eq!(overrides.sudo, Some(SudoCommand::parse_legacy("doas").unwrap()));
    assert!(overrides.remote_build && overrides.hostname.is_none());
    let wrong = Opts { sudo: Some("sudo | x".to_string()), ..opts() };
    assert_eq!(wrong.cmd_overrides().unwrap_err(), SudoParseError::ComplexSyntax('|'));
}

#[test]
fn arguments_decide_on_the_run() {
    let flags = opts().run_flags(true);
    assert!(flags.using_flakes && flags.run_checks && flags.build_tree && flags.review_changes);
    assert!(flags.rollback_succeeded && flags.ssh_multiplexing && flags.rollback_fresh_connection);
    assert!(!opts().run_flags(false).using_flakes);
    let flags = Opts {
        file: Some("f".to_string()),
        skip_checks: true,
        no_build_tree: true,
        no_review_changes: true,
        rollback_succeeded: Some(false),
        no_ssh_multiplexing: true,
        no_rollback_fresh_connection: true,
        ..opts()
    }
    .run_flags(true);
    assert!(!flags.using_flakes && !flags.run_checks && !flags.build_tree && !flags.review_changes);
    assert!(!flags.rollback_succeeded && !flags.ssh_multiplexing);
    assert!(!flags.rollback_fresh_connection);
}

#[test]
fn targets_are_checked_in_order_before_the_evaluation() {
    let flags = opts().run_flags(true);
    assert_eq!(first_stage(&flags, 3), RunStage::Check(0));
    assert_eq!(next_check(&flags, 3, 0, Ok(())).unwrap(), RunStage::Check(1));
    assert_eq!(next_check(&flags, 3, 1, Ok(())).unwrap(), RunStage::Check(2));
    assert_eq!(next_check(&flags, 3, 2, Ok(())).unwrap(), RunStage::Evaluate);
    assert_eq!(next_check(&flags, 3, usize::MAX, Ok(())).unwrap(), RunStage::Evaluate);
    assert_eq!(first_stage(&flags, 0), RunStage::Evaluate);
    for done in [0, 2] {
        assert!(matches!(
            next_check(&flags, 3, done, check_deployment(Some(1))),
            Err(RunError::CheckDeployment(CheckDeploymentError::NixCheckExit(Some(1))))
        ));
    }
    assert!(matches!(
        next_check(&flags, 3, 1, Err(CheckDeploymentError::NixCheck("no nix".to_string()))),
        Err(RunError::CheckDeployment(CheckDeploymentError::NixCheck(why))) if why == "no nix"
    ));
    let flags = Opts { skip_checks: true, ..opts() }.run_flags(true);
    assert_eq!(first_stage(&flags, 3), RunStage::Evaluate);
    assert_eq!(next_check(&flags, 3, 0, Ok(())).unwrap(), RunStage::Evaluate);
}

#[test]
fn checks_are_run_with_and_without_flakes() {
    let command = check_command(true, "path:.", &strings(&["--impure"]));
    assert_eq!(command.program, "nix");
    assert_eq!(command.args[4..], strings(&["flake", "check", "path:.", "--impure"])[..]);
    let command = check_command(false, "/r", &[]);
    assert_eq!(command.program, "nix-build");
    assert_eq!(
        command.args,
        strings(&[
            "-E",
            "--no-out-link",
            "let r = import /r/.; x = (if builtins.isFunction r then (r {}) else r); in if x ? checks then x.checks.${builtins.currentSystem} else {}",
        ])
    );
    assert!(check_deployment(Some(0)).is_ok());
    let err = check_deployment(Some(2)).unwrap_err();
    assert!(matches!(err, CheckDeploymentError::NixCheckExit(Some(2))));
    assert_eq!(err.message(), "Nix checking command resulted in a bad exit code: Some(2)");
    let command = flake_support_command();
    assert_eq!(command.args[4..], strings(&["eval", "--expr", "builtins.getFlake"])[..]);
    assert_eq!((command.stdout, command.stderr), (Some(Stream::Null), Some(Stream::Null)));
}

#[test]
fn answers_are_taken_as_meant() {
    assert_eq!(first_answer("yes\n"), Reaction::Deploy);
    assert_eq!(first_answer("Yes, please\n"), Reaction::Deploy);
    assert_eq!(first_answer("really y\n"), Reaction::AskAgain);
    assert_eq!(first_answer("no\n"), Reaction::Cancel { unclear: false });
    assert_eq!(first_answer("perhaps\n"), Reaction::Cancel { unclear: true });
    assert!(second_answer("yes\n").is_ok());
    assert!(matches!(second_answer("really y\n"), Err(PromptDeploymentError::Cancelled)));
    assert_eq!(react(true, false, true), Reaction::Deploy);
    assert_eq!(react(false, true, true), Reaction::AskAgain);
    assert!(conclude_prompt(true).is_ok());
    assert_eq!(
        conclude_prompt(false).unwrap_err().message(),
        "User cancelled deployment"
    );
}

fn defs(user: &str) -> DeployDefs {
    DeployDefs {
        ssh_user: user.to_string(),
        profile_user: "root".to_string(),
        sudo: Some(SudoCommand::default_sudo()),
        sudo_password: None,
    }
}

#[test]
fn parts_are_shown_by_node_and_profile() {
    let (node, profile) = (node_with_profiles(), profile_with_tags(&["a"]));
    let overrides = empty_cmd_overrides();
    let flake = DeployFlake { repo: "repo1", node: None, profile: None };
    let data = |node_name, profile_name| DeployData {
        node_name,
        node: &node,
        profile_name,
        profile: &profile,
        cmd_overrides: &overrides,
        merged_settings: empty_generic_settings(),
        debug_logs: false,
        log_dir: None,
    };
    let parts = vec![
        (&flake, data("n1", "p"), defs("first")),
        (&flake, data("n2", "p"), defs("second")),
        (&flake, data("n1", "q"), defs("third")),
        (&flake, data("n1", "p"), defs("fourth")),
    ];
    let shown = prompt_parts(&parts);
    assert_eq!(shown.len(), 2);
    assert_eq!(shown.get("n1").unwrap().len(), 2);
    let part = shown.get("n1").unwrap().get("p").unwrap();
    assert_eq!((part.user, part.ssh_user), ("root", "fourth"));
    assert_eq!((part.path, part.hostname), ("/nix/store/test-profile", "example.com"));
    assert_eq!(part.tags, strings(&["a"]).as_slice());
    assert!(part.ssh_opts.is_empty());
    assert_eq!(shown.get("n2").unwrap().get("p").unwrap().ssh_user, "second");
    assert!(shown.get("n2").unwrap().get("q").is_none());

    let extra = strings(&["--x"]);
    let options = PushProfileDataOptions {
        supports_flakes: true,
        check_sigs: false,
        keep_result: true,
        result_path: Some("./r"),
        extra_build_args: &extra,
        build_tree: true,
    };
    let datas = make_push_profile_datas(&parts, &options);
    assert_eq!(datas.len(), 4);
    assert!(datas[2].supports_flakes && !datas[2].check_sigs && datas[2].keep_result);
    assert_eq!((datas[2].repo, datas[2].result_path), ("repo1", Some("./r")));
    assert_eq!(datas[2].deploy_data.profile_name, "q");
    assert_eq!(datas[2].deploy_defs.ssh_user, "third");
    assert_eq!(datas[2].extra_build_args, extra.as_slice());
}

#[test]
fn passwords_are_asked_where_sudo_is_interactive() {
    let (node, profile) = (node_with_profiles(), profile_with_tags(&[]));
    let overrides = empty_cmd_overrides();
    let mut data = DeployData {
        node_name: "n",
        node: &node,
        profile_name: "p",
        profile: &profile,
        cmd_overrides: &overrides,
        merged_settings: empty_generic_settings(),
        debug_logs: false,
        log_dir: None,
    };
    let mut defs = defs("u");
    assert!(matches!(password_prompt(&data, &defs), PasswordPrompt::Skip));
    data.merged_settings.interactive_sudo = Some(true);
    assert!(matches!(
        password_prompt(&data, &defs),
        PasswordPrompt::Ask { prompt, custom_command: false }
            if prompt == "(sudo for example.com) Password: "
    ));
    defs.sudo = Some(SudoCommand::parse_legacy("doas").unwrap());
    assert!(matches!(
        password_prompt(&data, &defs),
        PasswordPrompt::Ask { custom_command: true, .. }
    ));
    defs.sudo = None;
    assert!(matches!(password_prompt(&data, &defs), PasswordPrompt::Skip));
}

fn rollout(auto: &[Option<bool>], all: Option<bool>, succeeded: bool, multiplexing: bool) -> Rollout {
    let (node, profile) = (node_with_profiles(), profile_with_tags(&[]));
    let mut overrides = empty_cmd_overrides();
    overrides.auto_rollback = all;
    let flake = DeployFlake { repo: "repo1", node: None, profile: None };
    let names = ["a", "b", "c", "d"];
    let parts: Vec<_> = auto
        .iter()
        .enumerate()
        .map(|(i, auto)| {
            let mut settings = empty_generic_settings();
            settings.auto_rollback = *auto;
            let data = DeployData {
                node_name: names[i],
                node: &node,
                profile_name: "p",
                profile: &profile,
                cmd_overrides: &overrides,
                merged_settings: settings,
                debug_logs: false,
                log_dir: None,
            };
            (&flake, data, defs("u"))
        })
        .collect();
    Rollout::new(&parts, &overrides, succeeded, multiplexing)
}

fn no_user() -> DeployDataDefsError {
    DeployDataDefsError::NoProfileUser("p".to_string(), "n".to_string())
}

fn failure() -> Result<(), DeployProfileError> {
    Err(DeployProfileError::InvalidDeployDataDefs(no_user()))
}

#[test]
fn a_rollout_takes_its_course() {
    let rollout = rollout(&[None, None], None, true, true);
    assert_eq!(rollout.start(), Stage::Agree);
    assert!(matches!(rollout.agreed(Ok(())), Ok(Stage::Build)));
    assert!(matches!(rollout.shown(Ok(())), Ok(Stage::Build)));
    assert!(matches!(rollout.built(Ok(())), Ok(Stage::Connect(0))));
    assert!(matches!(rollout.connected(0, Ok(())), Ok(Stage::Connect(1))));
    assert!(matches!(rollout.connected(1, Ok(())), Ok(Stage::Push)));
    assert!(matches!(rollout.pushed(Ok(())), Ok(Stage::Deploy(0))));
    assert!(matches!(rollout.deployed(0, Ok(())), Ok(Stage::Deploy(1))));
    assert!(matches!(rollout.deployed(1, Ok(())), Ok(Stage::Done)));
}

#[test]
fn a_rollout_of_nothing_is_done() {
    let rollout = rollout(&[], None, true, true);
    assert!(matches!(rollout.built(Ok(())), Ok(Stage::Push)));
    assert!(matches!(rollout.pushed(Ok(())), Ok(Stage::Done)));
}

#[test]
fn a_failure_revokes_what_was_deployed_and_may_be_revoked() {
    let rollout = rollout(&[None, Some(false), Some(true), None], None, true, false);
    assert!(matches!(rollout.built(Ok(())), Ok(Stage::Push)));
    assert!(matches!(
        rollout.deployed(3, failure()),
        Ok(Stage::Revoke { failed: 3, profile: 0 })
    ));
    assert!(matches!(
        rollout.revoked(3, 0, Ok(())),
        Ok(Stage::Revoke { failed: 3, profile: 2 })
    ));
    assert!(matches!(
        rollout.revoked(3, 2, Ok(())),
        Err(RunDeployError::Rollback(node)) if node == "d"
    ));
    assert!(matches!(
        rollout.revoked(3, 0, Err(RevokeProfileError::InvalidDeployDataDefs(no_user()))),
        Err(RunDeployError::RevokeProfile(node, _)) if node == "a"
    ));
    assert!(matches!(
        rollout.deployed(0, failure()),
        Err(RunDeployError::Rollback(node)) if node == "a"
    ));
}

#[test]
fn a_failure_revokes_nothing_where_that_is_not_wanted() {
    for (all, succeeded) in [(Some(false), true), (None, false)] {
        let rollout = rollout(&[None, None], all, succeeded, false);
        let err = rollout.deployed(1, failure()).unwrap_err();
        assert!(matches!(&err, RunDeployError::DeployProfile(node, _) if node == "b"));
        assert_eq!(
            err.message(),
            "Failed to deploy profile to node b: Deployment data invalid: Neither `user` nor `sshUser` are set for profile p of node n"
        );
    }
    let rollout = rollout(&[None, None], Some(true), true, false);
    assert!(matches!(rollout.deployed(1, failure()), Ok(Stage::Revoke { .. })));
}

#[test]
fn errors_of_a_rollout_name_the_nodes() {
    let rollout = rollout(&[None, None], None, true, true);
    let err = rollout.built(Err(PushProfileError::BuildStdoutEmpty)).unwrap_err();
    assert_eq!(
        err.message(),
        "Failed to build profile on node a, b: Nix build command succeeded but printed no output path"
    );
    assert!(matches!(
        rollout.pushed(Err(PushProfileError::BuildStdoutEmpty)),
        Err(RunDeployError::PushProfile(nodes, _)) if nodes == "a, b"
    ));
    let copy = PushProfileError::CopyGroup {
        nodes: "b".to_string(),
        target: "ssh://u@h".to_string(),
        profiles: "`b.p`".to_string(),
        source: Box::new(deploy::command::CommandError::RunError("gone".to_string())),
    };
    assert!(matches!(
        rollout.pushed(Err(copy)),
        Err(RunDeployError::PushProfile(nodes, _)) if nodes == "b"
    ));
    assert!(matches!(
        rollout.connected(0, Err("refused".to_string())),
        Err(RunDeployError::SshControlMaster(e)) if e == "refused"
    ));
    assert!(matches!(
        rollout.agreed(Err(PromptDeploymentError::Cancelled)),
        Err(RunDeployError::PromptDeployment(PromptDeploymentError::Cancelled))
    ));
    assert!(matches!(
        rollout.shown(Err("t".to_string())),
        Err(RunDeployError::TomlFormat(e)) if e == "t"
    ));
}

#[test]
fn messages_of_runs_are_spelled_out() {
    assert_eq!(
        RunDeployError::ProfileNotFound("x".to_string()).message(),
        "No profile named `x` was found"
    );
    assert_eq!(
        RunDeployError::PromptSudoPassword("h".to_string(), "e".to_string()).message(),
        "Failed to prompt for sudo password for h: e"
    );
    assert_eq!(
        RunDeployError::Rollback("n".to_string()).message(),
        "Deployment to node n failed, rolled back to previous generation"
    );
    assert_eq!(
        RunError::SudoParse(SudoParseError::Empty).message(),
        "Error parsing sudo configuration: sudo command must not be empty"
    );
    assert_eq!(
        RunError::RunDeploy(RunDeployError::ProfileWithoutNode).message(),
        "Profile was provided without a node name"
    );
    assert_eq!(
        RunError::GetDeploymentData(GetDeploymentDataError::ProfileNoNode).message(),
        "Failed to evaluate deployment data: Impossible happened: profile is set but node is not"
    );
}

#[test]
fn targets_are_read() {
    let read = |text: &str| {
        parse_flake(text).map(|t| (t.repo.to_string(), t.node.clone(), t.profile.clone()))
    };
    let some = |name: &str| Some(name.to_string());
    assert_eq!(read(".").unwrap(), (".".to_string(), None, None));
    assert_eq!(read("").unwrap(), ("".to_string(), None, None));
    assert_eq!(read("github:x/y#").unwrap(), ("github:x/y".to_string(), None, None));
    assert_eq!(read("r#node").unwrap(), ("r".to_string(), some("node"), None));
    assert_eq!(read("\u{e4}#n.p").unwrap(), ("\u{e4}".to_string(), some("n"), some("p")));
    assert_eq!(
        read("r#\"my.host\".\"a#b\"").unwrap(),
        ("r".to_string(), some("my.host"), some("a#b"))
    );
    assert_eq!(read("r#a.b.c").unwrap_err(), ParseFlakeError::PathTooLong);
    assert_eq!(read("r#a.").unwrap_err(), ParseFlakeError::EmptyName);
    assert_eq!(read("r#.a").unwrap_err(), ParseFlakeError::EmptyName);
    assert_eq!(read("r#\"a").unwrap_err(), ParseFlakeError::UnterminatedQuote);
    let target = parse_file("./deploy.nix", "n.p").unwrap();
    assert_eq!(target.repo, "./deploy.nix");
    assert_eq!((target.node, target.profile), (some("n"), some("p")));
    assert_eq!(
        parse_file("f", "a.b.c").unwrap_err().message(),
        "The given path was too long, did you mean to put something in quotes?"
    );
    let target = parse_file("f", "").unwrap();
    assert_eq!((target.node, target.profile), (None, None));
}
