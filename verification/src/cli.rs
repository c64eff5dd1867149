//! The command line: what its arguments decide, and what can go wrong between
//! reading it and having deployed.
use vstd::prelude::*;

use crate::command::{command_line, Command, CommandLine, Stream};
use crate::deploy::{
    deploy_profile_error_text, revoke_profile_error_text, DeployProfileError, RevokeProfileError,
};
use crate::deployment::{
    deploy_data_defs_error_text, switch, switched, CmdOverrides, DeployDataDefsError,
};
use crate::push::{push_profile_error_text, PushProfileError};
use crate::requests::{add_nix_command_and_flakes, flake_options};
use crate::sudo::{configured_legacy, sudo_error_text, SudoCommand, SudoParseError};
use crate::targets::{parse_flake_error_text, ParseFlakeError};
use crate::text::{
    clone_opt_text, clone_texts, code_text, lemma_ends_in, lemma_ends_in_parts, shown_code, texts,
};

verus! {

/// Why the checks of a flake did not pass.
#[derive(Debug)]
pub enum CheckDeploymentError {
    NixCheck(String),
    NixCheckExit(Option<i32>),
}

/// What is shown of a `CheckDeploymentError`.
pub open spec fn check_deployment_error_text(e: CheckDeploymentError) -> Seq<char> {
    match e {
        CheckDeploymentError::NixCheck(err) => "Failed to execute Nix checking command: "@ + err@,
        CheckDeploymentError::NixCheckExit(code) =>
            "Nix checking command resulted in a bad exit code: "@ + shown_code(code),
    }
}

impl CheckDeploymentError {
    /// The message for this error.
    pub fn message(&self) -> (r: String)
        ensures
            r@ == check_deployment_error_text(*self),
    {
        match self {
            CheckDeploymentError::NixCheck(err) => {
                "Failed to execute Nix checking command: ".to_string().concat(err.as_str())
            },
            CheckDeploymentError::NixCheckExit(code) => {
                "Nix checking command resulted in a bad exit code: ".to_string()
                    .concat(code_text(*code).as_str())
            },
        }
    }
}

/// Why a flake could not be evaluated.
#[derive(Debug)]
pub enum GetDeploymentDataError {
    NixEval(String),
    NixEvalOut(String),
    NixEvalExit(Option<i32>),
    DecodeUtf8(String),
    DecodeJson(String),
    ProfileNoNode,
}

/// What is shown of a `GetDeploymentDataError`.
pub open spec fn get_deployment_data_error_text(e: GetDeploymentDataError) -> Seq<char> {
    match e {
        GetDeploymentDataError::NixEval(err) => "Failed to execute nix eval command: "@ + err@,
        GetDeploymentDataError::NixEvalOut(err) =>
            "Failed to read output from evaluation: "@ + err@,
        GetDeploymentDataError::NixEvalExit(code) =>
            "Evaluation resulted in a bad exit code: "@ + shown_code(code),
        GetDeploymentDataError::DecodeUtf8(err) =>
            "Error converting evaluation output to utf8: "@ + err@,
        GetDeploymentDataError::DecodeJson(err) =>
            "Error decoding the JSON from evaluation: "@ + err@,
        GetDeploymentDataError::ProfileNoNode =>
            "Impossible happened: profile is set but node is not"@,
    }
}

impl GetDeploymentDataError {
    /// The message for this error.
    pub fn message(&self) -> (r: String)
        ensures
            r@ == get_deployment_data_error_text(*self),
    {
        match self {
            GetDeploymentDataError::NixEval(err) => {
                "Failed to execute nix eval command: ".to_string().concat(err.as_str())
            },
            GetDeploymentDataError::NixEvalOut(err) => {
                "Failed to read output from evaluation: ".to_string().concat(err.as_str())
            },
            GetDeploymentDataError::NixEvalExit(code) => {
                "Evaluation resulted in a bad exit code: ".to_string()
                    .concat(code_text(*code).as_str())
            },
            GetDeploymentDataError::DecodeUtf8(err) => {
                "Error converting evaluation output to utf8: ".to_string().concat(err.as_str())
            },
            GetDeploymentDataError::DecodeJson(err) => {
                "Error decoding the JSON from evaluation: ".to_string().concat(err.as_str())
            },
            GetDeploymentDataError::ProfileNoNode => {
                "Impossible happened: profile is set but node is not".to_string()
            },
        }
    }
}

/// Why a deployment was not agreed to.
#[derive(Debug)]
pub enum PromptDeploymentError {
    TomlFormat(String),
    StdoutFlush(String),
    StdinRead(String),
    Cancelled,
}

/// What is shown of a `PromptDeploymentError`.
pub open spec fn prompt_deployment_error_text(e: PromptDeploymentError) -> Seq<char> {
    match e {
        PromptDeploymentError::TomlFormat(err) =>
            "Failed to make printable TOML of deployment: "@ + err@,
        PromptDeploymentError::StdoutFlush(err) =>
            "Failed to flush stdout prior to query: "@ + err@,
        PromptDeploymentError::StdinRead(err) => "Failed to read line from stdin: "@ + err@,
        PromptDeploymentError::Cancelled => "User cancelled deployment"@,
    }
}

impl PromptDeploymentError {
    /// The message for this error.
    pub fn message(&self) -> (r: String)
        ensures
            r@ == prompt_deployment_error_text(*self),
    {
        match self {
            PromptDeploymentError::TomlFormat(err) => {
                "Failed to make printable TOML of deployment: ".to_string().concat(err.as_str())
            },
            PromptDeploymentError::StdoutFlush(err) => {
                "Failed to flush stdout prior to query: ".to_string().concat(err.as_str())
            },
            PromptDeploymentError::StdinRead(err) => {
                "Failed to read line from stdin: ".to_string().concat(err.as_str())
            },
            PromptDeploymentError::Cancelled => "User cancelled deployment".to_string(),
        }
    }
}

/// Why profiles were not deployed.
#[derive(Debug)]
pub enum RunDeployError {
    DeployProfile(String, DeployProfileError),
    BuildProfile(String, PushProfileError),
    PushProfile(String, PushProfileError),
    ProfileNotFound(String),
    NodeNotFound(String),
    ProfileWithoutNode,
    DeployDataDefs(DeployDataDefsError),
    TomlFormat(String),
    PromptDeployment(PromptDeploymentError),
    RevokeProfile(String, RevokeProfileError),
    Rollback(String),
    SshControlMaster(String),
    NoProfilesMatchedTags(String),
    PromptSudoPassword(String, String),
}

/// What is shown of a `RunDeployError`.
pub open spec fn run_deploy_error_text(e: RunDeployError) -> Seq<char> {
    match e {
        RunDeployError::DeployProfile(node, err) =>
            "Failed to deploy profile to node "@ + node@ + ": "@ + deploy_profile_error_text(err),
        RunDeployError::BuildProfile(node, err) =>
            "Failed to build profile on node "@ + node@ + ": "@ + push_profile_error_text(err),
        RunDeployError::PushProfile(node, err) =>
            "Failed to push profile to node "@ + node@ + ": "@ + push_profile_error_text(err),
        RunDeployError::ProfileNotFound(name) => "No profile named `"@ + name@ + "` was found"@,
        RunDeployError::NodeNotFound(name) => "No node named `"@ + name@ + "` was found"@,
        RunDeployError::ProfileWithoutNode => "Profile was provided without a node name"@,
        RunDeployError::DeployDataDefs(err) =>
            "Error processing deployment definitions: "@ + deploy_data_defs_error_text(err),
        RunDeployError::TomlFormat(err) => "Failed to make printable TOML of deployment: "@ + err@,
        RunDeployError::PromptDeployment(err) => prompt_deployment_error_text(err),
        RunDeployError::RevokeProfile(node, err) =>
            "Failed to revoke profile for node "@ + node@ + ": "@ + revoke_profile_error_text(err),
        RunDeployError::Rollback(node) =>
            "Deployment to node "@ + node@ + " failed, rolled back to previous generation"@,
        RunDeployError::SshControlMaster(err) => "Failed to establish SSH control master: "@ + err@,
        RunDeployError::NoProfilesMatchedTags(tags) =>
            "No profiles matched the requested tags: "@ + tags@,
        RunDeployError::PromptSudoPassword(host, err) =>
            "Failed to prompt for sudo password for "@ + host@ + ": "@ + err@,
    }
}

impl RunDeployError {
    /// The message for this error.
    pub fn message(&self) -> (r: String)
        ensures
            r@ == run_deploy_error_text(*self),
    {
        match self {
            RunDeployError::DeployProfile(node, err) => {
                "Failed to deploy profile to node ".to_string()
                    .concat(node.as_str())
                    .concat(": ")
                    .concat(err.message().as_str())
            },
            RunDeployError::BuildProfile(node, err) => {
                "Failed to build profile on node ".to_string()
                    .concat(node.as_str())
                    .concat(": ")
                    .concat(err.message().as_str())
            },
            RunDeployError::PushProfile(node, err) => {
                "Failed to push profile to node ".to_string()
                    .concat(node.as_str())
                    .concat(": ")
                    .concat(err.message().as_str())
            },
            RunDeployError::ProfileNotFound(name) => {
                "No profile named `".to_string().concat(name.as_str()).concat("` was found")
            },
            RunDeployError::NodeNotFound(name) => {
                "No node named `".to_string().concat(name.as_str()).concat("` was found")
            },
            RunDeployError::ProfileWithoutNode => {
                "Profile was provided without a node name".to_string()
            },
            RunDeployError::DeployDataDefs(err) => {
                "Error processing deployment definitions: ".to_string()
                    .concat(err.message().as_str())
            },
            RunDeployError::TomlFormat(err) => {
                "Failed to make printable TOML of deployment: ".to_string().concat(err.as_str())
            },
            RunDeployError::PromptDeployment(err) => err.message(),
            RunDeployError::RevokeProfile(node, err) => {
                "Failed to revoke profile for node ".to_string()
                    .concat(node.as_str())
                    .concat(": ")
                    .concat(err.message().as_str())
            },
            RunDeployError::Rollback(node) => {
                "Deployment to node ".to_string()
                    .concat(node.as_str())
                    .concat(" failed, rolled back to previous generation")
            },
            RunDeployError::SshControlMaster(err) => {
                "Failed to establish SSH control master: ".to_string().concat(err.as_str())
            },
            RunDeployError::NoProfilesMatchedTags(tags) => {
                "No profiles matched the requested tags: ".to_string().concat(tags.as_str())
            },
            RunDeployError::PromptSudoPassword(host, err) => {
                "Failed to prompt for sudo password for ".to_string()
                    .concat(host.as_str())
                    .concat(": ")
                    .concat(err.as_str())
            },
        }
    }
}

/// Why a run did not come to its end.
#[derive(Debug)]
pub enum RunError {
    DeployProfile(DeployProfileError),
    PushProfile(PushProfileError),
    FlakeTest(String),
    CheckDeployment(CheckDeploymentError),
    GetDeploymentData(GetDeploymentDataError),
    ParseFlake(ParseFlakeError),
    ParseArgs(String),
    SudoParse(SudoParseError),
    Logger(String),
    RunDeploy(RunDeployError),
}

/// What is shown of a `RunError`.
pub open spec fn run_error_text(e: RunError) -> Seq<char> {
    match e {
        RunError::DeployProfile(err) =>
            "Failed to deploy profile: "@ + deploy_profile_error_text(err),
        RunError::PushProfile(err) => "Failed to push profile: "@ + push_profile_error_text(err),
        RunError::FlakeTest(err) => "Failed to test for flake support: "@ + err@,
        RunError::CheckDeployment(err) =>
            "Failed to check deployment: "@ + check_deployment_error_text(err),
        RunError::GetDeploymentData(err) =>
            "Failed to evaluate deployment data: "@ + get_deployment_data_error_text(err),
        RunError::ParseFlake(err) => "Error parsing flake: "@ + parse_flake_error_text(err),
        RunError::ParseArgs(err) => "Error parsing arguments: "@ + err@,
        RunError::SudoParse(err) => "Error parsing sudo configuration: "@ + sudo_error_text(err),
        RunError::Logger(err) => "Error initiating logger: "@ + err@,
        RunError::RunDeploy(err) => run_deploy_error_text(err),
    }
}

impl RunError {
    /// The message for this error.
    pub fn message(&self) -> (r: String)
        ensures
            r@ == run_error_text(*self),
    {
        match self {
            RunError::DeployProfile(err) => {
                "Failed to deploy profile: ".to_string().concat(err.message().as_str())
            },
            RunError::PushProfile(err) => {
                "Failed to push profile: ".to_string().concat(err.message().as_str())
            },
            RunError::FlakeTest(err) => {
                "Failed to test for flake support: ".to_string().concat(err.as_str())
            },
            RunError::CheckDeployment(err) => {
                "Failed to check deployment: ".to_string().concat(err.message().as_str())
            },
            RunError::GetDeploymentData(err) => {
                "Failed to evaluate deployment data: ".to_string().concat(err.message().as_str())
            },
            RunError::ParseFlake(err) => {
                "Error parsing flake: ".to_string().concat(err.message().as_str())
            },
            RunError::ParseArgs(err) => {
                "Error parsing arguments: ".to_string().concat(err.as_str())
            },
            RunError::SudoParse(err) => {
                "Error parsing sudo configuration: ".to_string().concat(err.message().as_str())
            },
            RunError::Logger(err) => "Error initiating logger: ".to_string().concat(err.as_str()),
            RunError::RunDeploy(err) => err.message(),
        }
    }
}

/// The arguments of the command line.
#[derive(Debug)]
pub struct Opts {
    /// The flake to deploy.
    pub target: Option<String>,
    /// A list of flakes to deploy alternatively.
    pub targets: Option<Vec<String>>,
    /// Only deploy profiles with all of these tags.
    pub tags: Vec<String>,
    /// Treat targets as files instead of flakes.
    pub file: Option<String>,
    /// Check signatures when copying.
    pub checksigs: bool,
    /// Ask before deploying.
    pub interactive: bool,
    /// Draw builds as trees, where that is possible.
    pub build_tree: bool,
    /// Do not draw builds as trees.
    pub no_build_tree: bool,
    /// Review changes on the target host before activating.
    pub review_changes: bool,
    /// Do not review changes.
    pub no_review_changes: bool,
    /// Further arguments for builds.
    pub extra_build_args: Vec<String>,
    /// Log debug messages.
    pub debug_logs: bool,
    /// The directory that logs are written to.
    pub log_dir: Option<String>,
    /// Keep the outputs of builds.
    pub keep_result: bool,
    /// Where outputs of builds are kept.
    pub result_path: Option<String>,
    /// Skip the checks before building.
    pub skip_checks: bool,
    /// Build on the remote hosts.
    pub remote_build: bool,
    /// Overrides the SSH user.
    pub ssh_user: Option<String>,
    /// Overrides the user of profiles.
    pub profile_user: Option<String>,
    /// Overrides the SSH options.
    pub ssh_opts: Option<String>,
    /// Overrides whether connections are fast.
    pub fast_connection: Option<bool>,
    /// Overrides whether to roll back where activation fails.
    pub auto_rollback: Option<bool>,
    /// Overrides the host name of nodes.
    pub hostname: Option<String>,
    /// Overrides whether activation waits for a confirmation.
    pub magic_rollback: Option<bool>,
    /// How long activation waits for a confirmation.
    pub confirm_timeout: Option<u16>,
    /// How long activation may take.
    pub activation_timeout: Option<u16>,
    /// Where temporary files are stored.
    pub temp_path: Option<String>,
    /// Show what would be activated.
    pub dry_activate: bool,
    /// Activate on the next boot only.
    pub boot: bool,
    /// Revoke what was deployed where another profile fails.
    pub rollback_succeeded: Option<bool>,
    /// The sudo command.
    pub sudo: Option<String>,
    /// Ask for the password of sudo.
    pub interactive_sudo: Option<bool>,
    /// Use a connection of its own for each thing.
    pub no_ssh_multiplexing: bool,
    /// Let the confirmation of an activation reuse a connection.
    pub no_rollback_fresh_connection: bool,
}

/// What of the arguments decides on the course of a run.
#[derive(Debug, Clone, Copy, PartialEq, Eq, Structural)]
pub struct RunFlags {
    pub using_flakes: bool,
    pub run_checks: bool,
    pub build_tree: bool,
    pub review_changes: bool,
    pub rollback_succeeded: bool,
    pub ssh_multiplexing: bool,
    pub rollback_fresh_connection: bool,
}

impl Opts {
    /// The targets that are named, or the flake in the current directory.
    pub open spec fn target_texts(&self) -> Seq<Seq<char>> {
        match self.targets {
            Some(targets) => texts(targets@),
            None => seq![
                match self.target {
                    Some(target) => target@,
                    None => "."@,
                },
            ],
        }
    }

    /// The targets that are named, or the flake in the current directory.
    pub fn deploys(&self) -> (r: Vec<String>)
        ensures
            texts(r@) == self.target_texts(),
    {
        match &self.targets {
            Some(targets) => clone_texts(targets.as_slice()),
            None => {
                let target = match &self.target {
                    Some(target) => target.clone(),
                    None => ".".to_string(),
                };
                let mut r: Vec<String> = Vec::new();
                r.push(target);
                assert(texts(r@) =~= seq![target@]);
                r
            },
        }
    }

    /// The settings that win over those of the flake. Only the sudo command can
    /// be wrong.
    pub fn cmd_overrides(&self) -> (r: Result<CmdOverrides, SudoParseError>)
        ensures
            match r {
                Ok(o) => {
                    &&& o.ssh_user == self.ssh_user
                    &&& o.profile_user == self.profile_user
                    &&& o.ssh_opts == self.ssh_opts
                    &&& o.fast_connection == self.fast_connection
                    &&& o.auto_rollback == self.auto_rollback
                    &&& o.hostname == self.hostname
                    &&& o.magic_rollback == self.magic_rollback
                    &&& o.temp_path == self.temp_path
                    &&& o.confirm_timeout == self.confirm_timeout
                    &&& o.activation_timeout == self.activation_timeout
                    &&& o.dry_activate == self.dry_activate
                    &&& o.remote_build == self.remote_build
                    &&& o.interactive_sudo == self.interactive_sudo
                    &&& match self.sudo {
                        Some(sudo) => o.sudo matches Some(command) && configured_legacy(sudo@)
                            == Ok::<_, SudoParseError>(command@),
                        None => o.sudo is None,
                    }
                },
                Err(e) => self.sudo matches Some(sudo) && configured_legacy(sudo@) == Err::<
                    Seq<Seq<char>>,
                    _,
                >(e),
            },
    {
        let sudo = match &self.sudo {
            Some(sudo) => match SudoCommand::parse_legacy(sudo.as_str()) {
                Ok(command) => Some(command),
                Err(e) => return Err(e),
            },
            None => None,
        };
        Ok(
            CmdOverrides {
                ssh_user: clone_opt_text(&self.ssh_user),
                profile_user: clone_opt_text(&self.profile_user),
                ssh_opts: clone_opt_text(&self.ssh_opts),
                fast_connection: self.fast_connection,
                auto_rollback: self.auto_rollback,
                hostname: clone_opt_text(&self.hostname),
                magic_rollback: self.magic_rollback,
                temp_path: clone_opt_text(&self.temp_path),
                confirm_timeout: self.confirm_timeout,
                activation_timeout: self.activation_timeout,
                dry_activate: self.dry_activate,
                remote_build: self.remote_build,
                sudo,
                interactive_sudo: self.interactive_sudo,
            },
        )
    }

    /// What decides on the course of the run, with a Nix that supports flakes or
    /// does not.
    pub fn run_flags(&self, supports_flakes: bool) -> (r: RunFlags)
        ensures
            r == (RunFlags {
                using_flakes: supports_flakes && self.file is None,
                run_checks: !self.skip_checks,
                build_tree: self.build_tree && !self.no_build_tree,
                review_changes: self.review_changes && !self.no_review_changes,
                rollback_succeeded: switched(self.rollback_succeeded, true),
                ssh_multiplexing: !self.no_ssh_multiplexing,
                rollback_fresh_connection: !self.no_rollback_fresh_connection,
            }),
    {
        RunFlags {
            using_flakes: supports_flakes && self.file.is_none(),
            run_checks: !self.skip_checks,
            build_tree: self.build_tree && !self.no_build_tree,
            review_changes: self.review_changes && !self.no_review_changes,
            rollback_succeeded: switch(self.rollback_succeeded, true),
            ssh_multiplexing: !self.no_ssh_multiplexing,
            rollback_fresh_connection: !self.no_rollback_fresh_connection,
        }
    }
}

/// The command that succeeds exactly if Nix supports flakes.
pub fn flake_support_command() -> (r: Command)
    ensures
        r@ == command_line(
            "nix"@,
            flake_options() + seq!["eval"@, "--expr"@, "builtins.getFlake"@],
        ).with_streams(None, Some(Stream::Null), Some(Stream::Null)),
{
    let r = add_nix_command_and_flakes(Command::new("nix")).arg("eval").arg("--expr").arg(
        "builtins.getFlake",
    ).streams(None, Some(Stream::Null), Some(Stream::Null));
    assert(r@.args =~= flake_options() + seq!["eval"@, "--expr"@, "builtins.getFlake"@]);
    r
}

/// The command line that runs the checks of a flake, or of what stands in its
/// place without flakes.
pub open spec fn check_line(
    supports_flakes: bool,
    repo: Seq<char>,
    extra_build_args: Seq<Seq<char>>,
) -> CommandLine {
    if supports_flakes {
        command_line(
            "nix"@,
            flake_options() + seq!["flake"@, "check"@, repo] + extra_build_args,
        )
    } else {
        command_line(
            "nix-build"@,
            seq![
                "-E"@,
                "--no-out-link"@,
                "let r = import "@ + repo
                    + "/.; x = (if builtins.isFunction r then (r {}) else r); in if x ? checks then x.checks.${builtins.currentSystem} else {}"@,
            ] + extra_build_args,
        )
    }
}

/// The command that runs the checks of a flake.
pub fn check_command(supports_flakes: bool, repo: &str, extra_build_args: &[String]) -> (r: Command)
    ensures
        r@ == check_line(supports_flakes, repo@, texts(extra_build_args@)),
{
    let command = if supports_flakes {
        add_nix_command_and_flakes(Command::new("nix")).arg("flake").arg("check").arg(repo)
    } else {
        let expr = "let r = import ".to_string().concat(repo).concat(
            "/.; x = (if builtins.isFunction r then (r {}) else r); in if x ? checks then x.checks.${builtins.currentSystem} else {}",
        );
        Command::new("nix-build").arg("-E").arg("--no-out-link").arg(expr.as_str())
    };
    let r = command.args(extra_build_args);
    assert(r@.args =~= check_line(supports_flakes, repo@, texts(extra_build_args@)).args);
    r
}

/// What the checks of a flake come to, by how they exited.
pub fn check_deployment(code: Option<i32>) -> (r: Result<(), CheckDeploymentError>)
    ensures
        r == (if code == Some(0i32) {
            Ok::<(), CheckDeploymentError>(())
        } else {
            Err(CheckDeploymentError::NixCheckExit(code))
        }),
{
    match code {
        Some(0) => Ok(()),
        code => Err(CheckDeploymentError::NixCheckExit(code)),
    }
}

/// How far a run is before profiles are looked at.
#[derive(Debug, Clone, Copy, PartialEq, Eq, Structural)]
pub enum RunStage {
    /// The checks of the target at this place are run.
    Check(usize),
    /// The targets are evaluated.
    Evaluate,
}

/// The stage at which `checked` targets have passed their checks: the next one is
/// checked, in the order in which they were named, and after the last one they are
/// evaluated. Where no checks are asked for that comes first.
pub open spec fn stage_after(flags: RunFlags, n_targets: usize, checked: int) -> RunStage {
    if flags.run_checks && checked < n_targets {
        RunStage::Check(checked as usize)
    } else {
        RunStage::Evaluate
    }
}

/// The stage that follows on the checks of the target at place `done`, by what they
/// came to.
pub open spec fn after_check(
    flags: RunFlags,
    n_targets: usize,
    done: usize,
    outcome: Result<(), CheckDeploymentError>,
) -> Result<RunStage, RunError> {
    if !flags.run_checks {
        Ok(RunStage::Evaluate)
    } else {
        match outcome {
            Ok(_) => Ok(stage_after(flags, n_targets, done + 1)),
            Err(e) => Err(RunError::CheckDeployment(e)),
        }
    }
}

/// The stage at which a run starts.
pub fn first_stage(flags: &RunFlags, n_targets: usize) -> (r: RunStage)
    ensures
        r == stage_after(*flags, n_targets, 0),
{
    if flags.run_checks && n_targets > 0 {
        RunStage::Check(0)
    } else {
        RunStage::Evaluate
    }
}

/// The stage that follows on the checks of the target at place `done`: the checks of
/// the target behind it, or the evaluation where it is the last one. Checks that did
/// not pass end the run.
pub fn next_check(
    flags: &RunFlags,
    n_targets: usize,
    done: usize,
    outcome: Result<(), CheckDeploymentError>,
) -> (r: Result<RunStage, RunError>)
    ensures
        r == after_check(*flags, n_targets, done, outcome),
{
    if !flags.run_checks {
        return Ok(RunStage::Evaluate);
    }
    match outcome {
        Ok(()) => if done < n_targets && n_targets - done > 1 {
            Ok(RunStage::Check(done + 1))
        } else {
            Ok(RunStage::Evaluate)
        },
        Err(e) => Err(RunError::CheckDeployment(e)),
    }
}

/// What a run has come to after the checks of its targets, by what they came to, one
/// after the other. Once no check is next, no further one counts.
pub open spec fn run_course(
    flags: RunFlags,
    n_targets: usize,
    outcomes: Seq<Result<(), CheckDeploymentError>>,
) -> Result<RunStage, RunError>
    decreases outcomes.len(),
{
    if outcomes.len() == 0 {
        Ok(stage_after(flags, n_targets, 0))
    } else {
        match run_course(flags, n_targets, outcomes.drop_last()) {
            Ok(RunStage::Check(done)) => after_check(flags, n_targets, done, outcomes.last()),
            settled => settled,
        }
    }
}

/// While all checks pass, the targets are checked in order, each one once, and the
/// evaluation comes after the last one.
pub proof fn law_targets_are_checked_in_order(
    flags: RunFlags,
    n_targets: usize,
    outcomes: Seq<Result<(), CheckDeploymentError>>,
)
    requires
        forall|i: int| 0 <= i < outcomes.len() ==> (#[trigger] outcomes[i]) is Ok,
    ensures
        run_course(flags, n_targets, outcomes) == Ok::<_, RunError>(
            if flags.run_checks && outcomes.len() < n_targets {
                RunStage::Check(outcomes.len() as usize)
            } else {
                RunStage::Evaluate
            },
        ),
    decreases outcomes.len(),
{
    if outcomes.len() > 0 {
        let init = outcomes.drop_last();
        assert forall|i: int| 0 <= i < init.len() implies (#[trigger] init[i]) is Ok by {
            assert(outcomes[i] is Ok);
        }
        law_targets_are_checked_in_order(flags, n_targets, init);
        assert(outcomes[outcomes.len() - 1] is Ok);
    }
}

/// With checks, nothing is evaluated before every target has passed its own.
pub proof fn law_evaluation_comes_after_all_checks(
    flags: RunFlags,
    n_targets: usize,
    outcomes: Seq<Result<(), CheckDeploymentError>>,
)
    requires
        flags.run_checks,
        run_course(flags, n_targets, outcomes) == Ok::<_, RunError>(RunStage::Evaluate),
    ensures
        outcomes.len() >= n_targets,
        forall|i: int| 0 <= i < n_targets ==> (#[trigger] outcomes[i]) is Ok,
{
    if exists|k: int| 0 <= k < outcomes.len() && k < n_targets && outcomes[k] is Err {
        let k = lemma_first_failure(outcomes, n_targets as int);
        law_first_failing_check_ends_the_run(flags, n_targets, outcomes, k);
    } else if outcomes.len() < n_targets {
        law_targets_are_checked_in_order(flags, n_targets, outcomes);
    }
}

/// With checks, the first ones that do not pass end the run with their error,
/// whatever follows.
pub proof fn law_first_failing_check_ends_the_run(
    flags: RunFlags,
    n_targets: usize,
    outcomes: Seq<Result<(), CheckDeploymentError>>,
    failing: int,
)
    requires
        flags.run_checks,
        0 <= failing < outcomes.len(),
        failing < n_targets,
        outcomes[failing] is Err,
        forall|i: int| 0 <= i < failing ==> (#[trigger] outcomes[i]) is Ok,
    ensures
        run_course(flags, n_targets, outcomes) == Err::<RunStage, _>(
            RunError::CheckDeployment(outcomes[failing]->Err_0),
        ),
    decreases outcomes.len(),
{
    let init = outcomes.drop_last();
    if failing < init.len() {
        law_first_failing_check_ends_the_run(flags, n_targets, init, failing);
    } else {
        law_targets_are_checked_in_order(flags, n_targets, init);
    }
}

/// Without checks the evaluation comes first.
pub proof fn law_skipped_checks_are_not_waited_for(
    flags: RunFlags,
    n_targets: usize,
    outcomes: Seq<Result<(), CheckDeploymentError>>,
)
    requires
        !flags.run_checks,
    ensures
        run_course(flags, n_targets, outcomes) == Ok::<_, RunError>(RunStage::Evaluate),
    decreases outcomes.len(),
{
    if outcomes.len() > 0 {
        law_skipped_checks_are_not_waited_for(flags, n_targets, outcomes.drop_last());
    }
}

proof fn lemma_first_failure(
    outcomes: Seq<Result<(), CheckDeploymentError>>,
    bound: int,
) -> (k: int)
    requires
        exists|k: int| 0 <= k < outcomes.len() && k < bound && outcomes[k] is Err,
    ensures
        0 <= k < outcomes.len(),
        k < bound,
        outcomes[k] is Err,
        forall|i: int| 0 <= i < k ==> (#[trigger] outcomes[i]) is Ok,
    decreases bound,
{
    let k = choose|k: int| 0 <= k < outcomes.len() && k < bound && outcomes[k] is Err;
    if exists|j: int| 0 <= j < outcomes.len() && j < k && outcomes[j] is Err {
        lemma_first_failure(outcomes, k)
    } else {
        k
    }
}

/// The targets that are deployed are those that are named as such, and otherwise the one
/// that is, and otherwise the flake in the current directory: never none by default.
pub proof fn law_current_directory_is_the_default(opts: Opts, r: Vec<String>)
    requires
        call_ensures(Opts::deploys, (&opts,), r),
    ensures
        opts.targets matches Some(targets) ==> texts(r@) == texts(targets@),
        opts.targets is None ==> r@.len() == 1,
        opts.targets is None && opts.target is Some ==> r@[0]@ == opts.target->0@,
        opts.targets is None && opts.target is None ==> r@[0]@ == "."@,
{
    if opts.targets is None {
        assert(texts(r@).len() == r@.len());
        assert(texts(r@)[0] == r@[0]@);
    }
}

/// What the command line gives is what wins, each setting in its own place; only a sudo
/// command that is not understood is refused.
pub proof fn law_overrides_are_those_given(
    opts: Opts,
    r: Result<CmdOverrides, SudoParseError>,
    sudo: &str,
    parsed: Result<SudoCommand, SudoParseError>,
)
    requires
        call_ensures(Opts::cmd_overrides, (&opts,), r),
        call_ensures(SudoCommand::parse_legacy, (sudo,), parsed),
        opts.sudo matches Some(text) ==> text@ == sudo@,
    ensures
        opts.sudo is None ==> r is Ok && r->Ok_0.sudo is None,
        opts.sudo is Some ==> {
            &&& r is Ok <==> parsed is Ok
            &&& r is Ok ==> r->Ok_0.sudo is Some && r->Ok_0.sudo->0@ == parsed->Ok_0@
            &&& r is Err ==> r->Err_0 == parsed->Err_0
        },
        r matches Ok(o) ==> {
            &&& o.ssh_user == opts.ssh_user
            &&& o.profile_user == opts.profile_user
            &&& o.ssh_opts == opts.ssh_opts
            &&& o.fast_connection == opts.fast_connection
            &&& o.auto_rollback == opts.auto_rollback
            &&& o.hostname == opts.hostname
            &&& o.magic_rollback == opts.magic_rollback
            &&& o.temp_path == opts.temp_path
            &&& o.confirm_timeout == opts.confirm_timeout
            &&& o.activation_timeout == opts.activation_timeout
            &&& o.dry_activate == opts.dry_activate
            &&& o.remote_build == opts.remote_build
            &&& o.interactive_sudo == opts.interactive_sudo
        },
{
}

/// What a run does beyond deploying is switched on unless it is switched off: checks,
/// the sharing of connections, a fresh connection for the confirmation, and taking back
/// what was deployed. Flakes are used where Nix knows them and no file is given. What
/// has two switches is on only where the second one does not turn it off again.
pub proof fn law_switches_decide_on_the_run(opts: Opts, supports_flakes: bool, r: RunFlags)
    requires
        call_ensures(Opts::run_flags, (&opts, supports_flakes), r),
    ensures
        r.using_flakes <==> supports_flakes && opts.file is None,
        r.run_checks <==> !opts.skip_checks,
        r.build_tree <==> opts.build_tree && !opts.no_build_tree,
        r.review_changes <==> opts.review_changes && !opts.no_review_changes,
        r.rollback_succeeded <==> opts.rollback_succeeded != Some(false),
        r.ssh_multiplexing <==> !opts.no_ssh_multiplexing,
        r.rollback_fresh_connection <==> !opts.no_rollback_fresh_connection,
{
}

/// The checks of a flake are those of that flake, with the arguments that are given
/// last, and pass exactly if they exit with zero.
pub proof fn law_checks_are_those_of_the_flake(
    supports_flakes: bool,
    repo: &str,
    extra_build_args: &[String],
    r: Command,
    code: Option<i32>,
    judged: Result<(), CheckDeploymentError>,
)
    requires
        call_ensures(check_command, (supports_flakes, repo, extra_build_args), r),
        call_ensures(check_deployment, (code,), judged),
    ensures
        supports_flakes ==> {
            &&& r.program@ == "nix"@
            &&& r@.args.take(4) == seq![
                "--extra-experimental-features"@,
                "nix-command"@,
                "--extra-experimental-features"@,
                "flakes"@,
            ]
            &&& r@.args[4] == "flake"@
            &&& r@.args[5] == "check"@
            &&& r@.args[6] == repo@
            &&& r@.args.skip(7) == texts(extra_build_args@)
        },
        !supports_flakes ==> {
            &&& r.program@ == "nix-build"@
            &&& r@.args.take(2) == seq!["-E"@, "--no-out-link"@]
            &&& ("let r = import "@ + repo@ + "/.;"@).is_prefix_of(r@.args[2])
            &&& r@.args.skip(3) == texts(extra_build_args@)
        },
        judged is Ok <==> code == Some(0i32),
        code != Some(0i32) ==> (judged matches Err(CheckDeploymentError::NixCheckExit(c)) && c
            == code),
{
    if supports_flakes {
        assert(r@.args.skip(7) =~= texts(extra_build_args@));
    } else {
        assert(r@.args.skip(3) =~= texts(extra_build_args@));
        reveal_strlit("/.;");
        reveal_strlit(
            "/.; x = (if builtins.isFunction r then (r {}) else r); in if x ? checks then x.checks.${builtins.currentSystem} else {}",
        );
        let start = "let r = import "@ + repo@ + "/.;"@;
        assert(r@.args[2].subrange(0, start.len() as int) =~= start);
    }
}

/// A run starts with the checks of the first target, and after the checks of a target
/// come those of the next one, or the evaluation after the last; checks that failed end
/// the run, and without checks there is nothing to wait for.
pub proof fn law_next_target_is_checked(
    flags: RunFlags,
    n_targets: usize,
    done: usize,
    outcome: Result<(), CheckDeploymentError>,
    first: RunStage,
    r: Result<RunStage, RunError>,
)
    requires
        call_ensures(first_stage, (&flags, n_targets), first),
        call_ensures(next_check, (&flags, n_targets, done, outcome), r),
    ensures
        flags.run_checks && n_targets > 0 ==> first == RunStage::Check(0),
        !flags.run_checks || n_targets == 0 ==> first is Evaluate,
        !flags.run_checks ==> r is Ok && r->Ok_0 is Evaluate,
        flags.run_checks && outcome is Ok && done + 1 < n_targets ==> (r matches Ok(
            RunStage::Check(next),
        ) && next == done + 1),
        flags.run_checks && outcome is Ok && done + 1 >= n_targets ==> r is Ok && r->Ok_0
            is Evaluate,
        flags.run_checks && outcome is Err ==> (r matches Err(RunError::CheckDeployment(e)) && e
            == outcome->Err_0),
{
}

/// What is said of an evaluation that failed ends in why it did.
pub proof fn law_evaluation_says_why_it_failed(e: GetDeploymentDataError, r: String)
    requires
        call_ensures(GetDeploymentDataError::message, (&e,), r),
    ensures
        match e {
            GetDeploymentDataError::NixEval(why) => why@.is_suffix_of(r@),
            GetDeploymentDataError::NixEvalOut(why) => why@.is_suffix_of(r@),
            GetDeploymentDataError::NixEvalExit(code) => shown_code(code).is_suffix_of(r@),
            GetDeploymentDataError::DecodeUtf8(why) => why@.is_suffix_of(r@),
            GetDeploymentDataError::DecodeJson(why) => why@.is_suffix_of(r@),
            _ => true,
        },
{
    match e {
        GetDeploymentDataError::NixEval(why) => {
            lemma_ends_in(why@);
        },
        GetDeploymentDataError::NixEvalOut(why) => {
            lemma_ends_in(why@);
        },
        GetDeploymentDataError::NixEvalExit(code) => {
            lemma_ends_in(shown_code(code));
        },
        GetDeploymentDataError::DecodeUtf8(why) => {
            lemma_ends_in(why@);
        },
        GetDeploymentDataError::DecodeJson(why) => {
            lemma_ends_in(why@);
        },
        _ => {},
    }
}

/// What is said of a check that failed ends in why it did.
pub proof fn law_check_says_why_it_failed(e: CheckDeploymentError, r: String)
    requires
        call_ensures(CheckDeploymentError::message, (&e,), r),
    ensures
        match e {
            CheckDeploymentError::NixCheck(why) => why@.is_suffix_of(r@),
            CheckDeploymentError::NixCheckExit(code) => shown_code(code).is_suffix_of(r@),
        },
{
    match e {
        CheckDeploymentError::NixCheck(why) => {
            lemma_ends_in(why@);
        },
        CheckDeploymentError::NixCheckExit(code) => {
            lemma_ends_in(shown_code(code));
        },
    }
}

/// What is said of a rollout that failed ends in where it failed and why.
pub proof fn law_rollout_says_what_failed_where(e: RunDeployError, r: String)
    requires
        call_ensures(RunDeployError::message, (&e,), r),
    ensures
        match e {
            RunDeployError::DeployProfile(node, why) =>
                (node@ + ": "@ + deploy_profile_error_text(why)).is_suffix_of(r@),
            RunDeployError::BuildProfile(node, why) =>
                (node@ + ": "@ + push_profile_error_text(why)).is_suffix_of(r@),
            RunDeployError::PushProfile(node, why) =>
                (node@ + ": "@ + push_profile_error_text(why)).is_suffix_of(r@),
            RunDeployError::ProfileNotFound(name) => (name@ + "` was found"@).is_suffix_of(r@),
            RunDeployError::NodeNotFound(name) => (name@ + "` was found"@).is_suffix_of(r@),
            RunDeployError::DeployDataDefs(why) =>
                deploy_data_defs_error_text(why).is_suffix_of(r@),
            RunDeployError::TomlFormat(why) => why@.is_suffix_of(r@),
            RunDeployError::PromptDeployment(why) => r@ == prompt_deployment_error_text(why),
            RunDeployError::RevokeProfile(node, why) =>
                (node@ + ": "@ + revoke_profile_error_text(why)).is_suffix_of(r@),
            RunDeployError::Rollback(node) =>
                (node@ + " failed, rolled back to previous generation"@).is_suffix_of(r@),
            RunDeployError::SshControlMaster(why) => why@.is_suffix_of(r@),
            RunDeployError::NoProfilesMatchedTags(tags) => tags@.is_suffix_of(r@),
            RunDeployError::PromptSudoPassword(host, why) =>
                (host@ + ": "@ + why@).is_suffix_of(r@),
            _ => true,
        },
{
    match e {
        RunDeployError::DeployProfile(node, why) => {
            lemma_ends_in_parts(node@, ": "@, deploy_profile_error_text(why));
        },
        RunDeployError::BuildProfile(node, why) => {
            lemma_ends_in_parts(node@, ": "@, push_profile_error_text(why));
        },
        RunDeployError::PushProfile(node, why) => {
            lemma_ends_in_parts(node@, ": "@, push_profile_error_text(why));
        },
        RunDeployError::ProfileNotFound(name) => {
            lemma_ends_in_parts(name@, "` was found"@, Seq::empty());
        },
        RunDeployError::NodeNotFound(name) => {
            lemma_ends_in_parts(name@, "` was found"@, Seq::empty());
        },
        RunDeployError::DeployDataDefs(why) => {
            lemma_ends_in(deploy_data_defs_error_text(why));
        },
        RunDeployError::TomlFormat(why) => {
            lemma_ends_in(why@);
        },
        RunDeployError::PromptDeployment(why) => {
            
        },
        RunDeployError::RevokeProfile(node, why) => {
            lemma_ends_in_parts(node@, ": "@, revoke_profile_error_text(why));
        },
        RunDeployError::Rollback(node) => {
            lemma_ends_in_parts(node@, " failed, rolled back to previous generation"@, Seq::empty());
        },
        RunDeployError::SshControlMaster(why) => {
            lemma_ends_in(why@);
        },
        RunDeployError::NoProfilesMatchedTags(tags) => {
            lemma_ends_in(tags@);
        },
        RunDeployError::PromptSudoPassword(host, why) => {
            lemma_ends_in_parts(host@, ": "@, why@);
        },
        _ => {},
    }
}

/// What is said of a run that failed ends in why it did.
pub proof fn law_run_says_why_it_failed(e: RunError, r: String)
    requires
        call_ensures(RunError::message, (&e,), r),
    ensures
        match e {
            RunError::DeployProfile(why) => deploy_profile_error_text(why).is_suffix_of(r@),
            RunError::PushProfile(why) => push_profile_error_text(why).is_suffix_of(r@),
            RunError::FlakeTest(why) => why@.is_suffix_of(r@),
            RunError::CheckDeployment(why) => check_deployment_error_text(why).is_suffix_of(r@),
            RunError::GetDeploymentData(why) =>
                get_deployment_data_error_text(why).is_suffix_of(r@),
            RunError::ParseFlake(why) => parse_flake_error_text(why).is_suffix_of(r@),
            RunError::ParseArgs(why) => why@.is_suffix_of(r@),
            RunError::SudoParse(why) => sudo_error_text(why).is_suffix_of(r@),
            RunError::Logger(why) => why@.is_suffix_of(r@),
            RunError::RunDeploy(why) => r@ == run_deploy_error_text(why),
        },
{
    match e {
        RunError::DeployProfile(why) => {
            lemma_ends_in(deploy_profile_error_text(why));
        },
        RunError::PushProfile(why) => {
            lemma_ends_in(push_profile_error_text(why));
        },
        RunError::FlakeTest(why) => {
            lemma_ends_in(why@);
        },
        RunError::CheckDeployment(why) => {
            lemma_ends_in(check_deployment_error_text(why));
        },
        RunError::GetDeploymentData(why) => {
            lemma_ends_in(get_deployment_data_error_text(why));
        },
        RunError::ParseFlake(why) => {
            lemma_ends_in(parse_flake_error_text(why));
        },
        RunError::ParseArgs(why) => {
            lemma_ends_in(why@);
        },
        RunError::SudoParse(why) => {
            lemma_ends_in(sudo_error_text(why));
        },
        RunError::Logger(why) => {
            lemma_ends_in(why@);
        },
        RunError::RunDeploy(why) => {
            
        },
    }
}

} // verus!
