//! Activating a profile on the machine that it is for, and going back to the
//! generation before where that fails.
use vstd::prelude::*;
use vstd::utf8::{decode_utf8, valid_utf8};

use crate::bytes::{utf8_fault, utf8_text};
use crate::command::{command_line, last_value, Command, CommandLine, Output};
use crate::text::{
    before_first, code_text, file_name, file_name_of, first_word, first_word_of, is_space,
    join_path, law_blank_text_has_no_word, law_file_name_is_the_last_component,
    law_first_word_is_found, law_last_line_is_found, law_paths_are_the_same_by_their_names,
    law_prefix_ends_at_the_first, lemma_ends_in, line_texts, lines_of, opt_text, path_under, pieces, prefix_before, same_components, same_path,
    shown_code, texts,
};

verus! {

/// Why it was not possible to go back to the generation before.
#[derive(Debug)]
pub enum DeactivateError {
    Rollback(String),
    RollbackExit(Option<i32>),
    ListGen(String),
    ListGenExit(Option<i32>),
    DecodeListGenUtf8(String),
    DeleteGen(String),
    DeleteGenExit(Option<i32>),
    Reactivate(String),
    ReactivateExit(Option<i32>),
}

/// What is shown of a `DeactivateError`.
pub open spec fn deactivate_error_text(e: DeactivateError) -> Seq<char> {
    match e {
        DeactivateError::Rollback(err) => "Failed to execute the rollback command: "@ + err@,
        DeactivateError::RollbackExit(code) =>
            "The rollback resulted in a bad exit code: "@ + shown_code(code),
        DeactivateError::ListGen(err) => "Failed to run command for listing generations: "@ + err@,
        DeactivateError::ListGenExit(code) =>
            "Command for listing generations resulted in a bad exit code: "@ + shown_code(code),
        DeactivateError::DecodeListGenUtf8(err) =>
            "Error converting generation list output to utf8: "@ + err@,
        DeactivateError::DeleteGen(err) =>
            "Failed to run command for deleting generation: "@ + err@,
        DeactivateError::DeleteGenExit(code) =>
            "Command for deleting generations resulted in a bad exit code: "@ + shown_code(code),
        DeactivateError::Reactivate(err) =>
            "Failed to run command for re-activating the last generation: "@ + err@,
        DeactivateError::ReactivateExit(code) =>
            "Command for re-activating the last generation resulted in a bad exit code: "@
                + shown_code(code),
    }
}

impl DeactivateError {
    /// The message for this error.
    pub fn message(&self) -> (r: String)
        ensures
            r@ == deactivate_error_text(*self),
    {
        match self {
            DeactivateError::Rollback(err) => {
                "Failed to execute the rollback command: ".to_string().concat(err.as_str())
            },
            DeactivateError::RollbackExit(code) => {
                "The rollback resulted in a bad exit code: ".to_string()
                    .concat(code_text(*code).as_str())
            },
            DeactivateError::ListGen(err) => {
                "Failed to run command for listing generations: ".to_string().concat(err.as_str())
            },
            DeactivateError::ListGenExit(code) => {
                "Command for listing generations resulted in a bad exit code: ".to_string()
                    .concat(code_text(*code).as_str())
            },
            DeactivateError::DecodeListGenUtf8(err) => {
                "Error converting generation list output to utf8: ".to_string().concat(err.as_str())
            },
            DeactivateError::DeleteGen(err) => {
                "Failed to run command for deleting generation: ".to_string().concat(err.as_str())
            },
            DeactivateError::DeleteGenExit(code) => {
                "Command for deleting generations resulted in a bad exit code: ".to_string()
                    .concat(code_text(*code).as_str())
            },
            DeactivateError::Reactivate(err) => {
                "Failed to run command for re-activating the last generation: ".to_string()
                    .concat(err.as_str())
            },
            DeactivateError::ReactivateExit(code) => {
                "Command for re-activating the last generation resulted in a bad exit code: ".to_string()
                    .concat(code_text(*code).as_str())
            },
        }
    }
}

/// What is wrong with a list of generations.
#[derive(Debug, Clone, Copy, PartialEq, Eq, Structural)]
pub enum GenerationFault {
    /// It is empty.
    NoLine,
    /// Its last line is blank.
    NoId,
}

/// The id of the last generation in a list: the first word of the last line.
pub open spec fn last_generation_id(list: Seq<char>) -> Result<Seq<char>, GenerationFault> {
    let lines = line_texts(list);
    if lines.len() == 0 {
        Err(GenerationFault::NoLine)
    } else if first_word_of(lines.last()).len() == 0 {
        Err(GenerationFault::NoId)
    } else {
        Ok(first_word_of(lines.last()))
    }
}

/// The id of the last generation in a list.
pub fn last_generation(list: &str) -> (r: Result<String, GenerationFault>)
    ensures
        match r {
            Ok(id) => last_generation_id(list@) == Ok::<_, GenerationFault>(id@),
            Err(fault) => last_generation_id(list@) == Err::<Seq<char>, _>(fault),
        },
{
    let lines = lines_of(list);
    assert(texts(lines@).len() == lines@.len());
    let n: usize = lines.len();
    if n == 0 {
        return Err(GenerationFault::NoLine);
    }
    assert(texts(lines@).last() == lines@[n - 1]@);
    match first_word(lines[n - 1].as_str()) {
        Some(id) => Ok(id),
        None => Err(GenerationFault::NoId),
    }
}

/// How far going back is. The command for each stage is `deactivate_command`.
#[derive(Debug)]
pub enum DeactivateStage {
    /// The profile is set to the generation before.
    Rollback,
    /// The generations are listed, to find the one that was left.
    ListGenerations,
    /// The generation that was left is deleted.
    DeleteGeneration(String),
    /// The generation before is activated.
    Reactivate,
    /// All is done.
    Done,
}

/// The command line for a stage of going back.
pub open spec fn deactivate_line(profile_path: Seq<char>, stage: DeactivateStage) -> Option<
    CommandLine,
> {
    match stage {
        DeactivateStage::Rollback => Some(
            command_line("nix-env"@, seq!["-p"@, profile_path, "--rollback"@]),
        ),
        DeactivateStage::ListGenerations => Some(
            command_line("nix-env"@, seq!["-p"@, profile_path, "--list-generations"@]),
        ),
        DeactivateStage::DeleteGeneration(id) => Some(
            command_line("nix-env"@, seq!["-p"@, profile_path, "--delete-generations"@, id@]),
        ),
        DeactivateStage::Reactivate => Some(
            command_line(profile_path + "/deploy-rx-activate"@, Seq::empty()).with_env(
                "PROFILE"@,
                profile_path,
            ).within(profile_path),
        ),
        DeactivateStage::Done => None,
    }
}

/// The command for a stage of going back.
pub fn deactivate_command(profile_path: &str, stage: &DeactivateStage) -> (r: Option<Command>)
    ensures
        match r {
            Some(command) => deactivate_line(profile_path@, *stage) == Some(command@),
            None => deactivate_line(profile_path@, *stage) is None,
        },
{
    match stage {
        DeactivateStage::Rollback => {
            let r = Command::new("nix-env").arg("-p").arg(profile_path).arg("--rollback");
            assert(r@.args =~= seq!["-p"@, profile_path@, "--rollback"@]);
            Some(r)
        },
        DeactivateStage::ListGenerations => {
            let r = Command::new("nix-env").arg("-p").arg(profile_path).arg("--list-generations");
            assert(r@.args =~= seq!["-p"@, profile_path@, "--list-generations"@]);
            Some(r)
        },
        DeactivateStage::DeleteGeneration(id) => {
            let r = Command::new("nix-env").arg("-p").arg(profile_path).arg(
                "--delete-generations",
            ).arg(id.as_str());
            assert(r@.args =~= seq!["-p"@, profile_path@, "--delete-generations"@, id@]);
            Some(r)
        },
        DeactivateStage::Reactivate => {
            let program = profile_path.to_string().concat("/deploy-rx-activate");
            Some(
                Command::new(program.as_str()).env("PROFILE", profile_path).current_dir(
                    profile_path,
                ),
            )
        },
        DeactivateStage::Done => None,
    }
}

/// A stage of going back can be concluded on by what its command left behind:
/// there is a command, and a list of generations names one.
pub open spec fn can_conclude(stage: DeactivateStage, outcome: Result<Output, String>) -> bool {
    match stage {
        DeactivateStage::ListGenerations => match outcome {
            Ok(output) => output.code == Some(0i32) && valid_utf8(output.stdout@)
                ==> last_generation_id(decode_utf8(output.stdout@)) is Ok,
            Err(_) => true,
        },
        DeactivateStage::Done => false,
        _ => true,
    }
}

/// What follows on a stage of going back, by what its command left behind.
pub open spec fn is_after_deactivate_stage(
    stage: DeactivateStage,
    outcome: Result<Output, String>,
    r: Result<DeactivateStage, DeactivateError>,
) -> bool {
    match (stage, outcome) {
        (DeactivateStage::Rollback, Ok(output)) => r == (if output.code == Some(0i32) {
            Ok::<_, DeactivateError>(DeactivateStage::ListGenerations)
        } else {
            Err(DeactivateError::RollbackExit(output.code))
        }),
        (DeactivateStage::Rollback, Err(e)) => r == Err::<DeactivateStage, _>(
            DeactivateError::Rollback(e),
        ),
        (DeactivateStage::ListGenerations, Ok(output)) => if output.code != Some(0i32) {
            r == Err::<DeactivateStage, _>(DeactivateError::ListGenExit(output.code))
        } else if !valid_utf8(output.stdout@) {
            r matches Err(DeactivateError::DecodeListGenUtf8(fault)) && fault@ == utf8_fault(
                output.stdout@,
            )
        } else {
            r matches Ok(DeactivateStage::DeleteGeneration(id)) && last_generation_id(
                decode_utf8(output.stdout@),
            ) == Ok::<_, GenerationFault>(id@)
        },
        (DeactivateStage::ListGenerations, Err(e)) => r == Err::<DeactivateStage, _>(
            DeactivateError::ListGen(e),
        ),
        (DeactivateStage::DeleteGeneration(_), Ok(output)) => r == (if output.code == Some(0i32) {
            Ok::<_, DeactivateError>(DeactivateStage::Reactivate)
        } else {
            Err(DeactivateError::DeleteGenExit(output.code))
        }),
        (DeactivateStage::DeleteGeneration(_), Err(e)) => r == Err::<DeactivateStage, _>(
            DeactivateError::DeleteGen(e),
        ),
        (DeactivateStage::Reactivate, Ok(output)) => r == (if output.code == Some(0i32) {
            Ok::<_, DeactivateError>(DeactivateStage::Done)
        } else {
            Err(DeactivateError::ReactivateExit(output.code))
        }),
        (DeactivateStage::Reactivate, Err(e)) => r == Err::<DeactivateStage, _>(
            DeactivateError::Reactivate(e),
        ),
        (DeactivateStage::Done, _) => false,
    }
}

/// What follows on a stage of going back, by what its command left behind.
pub fn deactivate(stage: DeactivateStage, outcome: Result<Output, String>) -> (r: Result<
    DeactivateStage,
    DeactivateError,
>)
    requires
        can_conclude(stage, outcome),
    ensures
        is_after_deactivate_stage(stage, outcome, r),
{
    match stage {
        DeactivateStage::Rollback => match outcome {
            Ok(output) => match output.code {
                Some(0) => Ok(DeactivateStage::ListGenerations),
                code => Err(DeactivateError::RollbackExit(code)),
            },
            Err(e) => Err(DeactivateError::Rollback(e)),
        },
        DeactivateStage::ListGenerations => match outcome {
            Ok(output) => {
                match output.code {
                    Some(0) => {},
                    code => return Err(DeactivateError::ListGenExit(code)),
                }
                let list = match utf8_text(output.stdout.as_slice()) {
                    Ok(list) => list,
                    Err(e) => return Err(DeactivateError::DecodeListGenUtf8(e)),
                };
                let id = last_generation(list.as_str());
                Ok(DeactivateStage::DeleteGeneration(id.unwrap()))
            },
            Err(e) => Err(DeactivateError::ListGen(e)),
        },
        DeactivateStage::DeleteGeneration(_) => match outcome {
            Ok(output) => match output.code {
                Some(0) => Ok(DeactivateStage::Reactivate),
                code => Err(DeactivateError::DeleteGenExit(code)),
            },
            Err(e) => Err(DeactivateError::DeleteGen(e)),
        },
        DeactivateStage::Reactivate => match outcome {
            Ok(output) => match output.code {
                Some(0) => Ok(DeactivateStage::Done),
                code => Err(DeactivateError::ReactivateExit(code)),
            },
            Err(e) => Err(DeactivateError::Reactivate(e)),
        },
        DeactivateStage::Done => Ok(DeactivateStage::Done),
    }
}

/// Whether a list of generations, as it was printed, names one: going back by
/// `deactivate` needs that.
pub fn lists_generation(stdout: &[u8]) -> (r: bool)
    ensures
        r == (valid_utf8(stdout@) ==> last_generation_id(decode_utf8(stdout@)) is Ok),
{
    match utf8_text(stdout) {
        Ok(list) => last_generation(list.as_str()).is_ok(),
        Err(_) => true,
    }
}

/// Why a confirmation did not come.
#[derive(Debug)]
pub enum DangerZoneError {
    TimesUp,
    NoConfirmation,
    Watch(String),
}

/// What is shown of a `DangerZoneError`.
pub open spec fn danger_zone_error_text(e: DangerZoneError) -> Seq<char> {
    match e {
        DangerZoneError::TimesUp => "Timeout elapsed for confirmation"@,
        DangerZoneError::NoConfirmation => "inotify stream ended without activation confirmation"@,
        DangerZoneError::Watch(err) => "inotify encountered an error: "@ + err@,
    }
}

impl DangerZoneError {
    /// The message for this error.
    pub fn message(&self) -> (r: String)
        ensures
            r@ == danger_zone_error_text(*self),
    {
        match self {
            DangerZoneError::TimesUp => "Timeout elapsed for confirmation".to_string(),
            DangerZoneError::NoConfirmation => {
                "inotify stream ended without activation confirmation".to_string()
            },
            DangerZoneError::Watch(err) => {
                "inotify encountered an error: ".to_string().concat(err.as_str())
            },
        }
    }
}

/// What came of waiting for a file system event.
#[derive(Debug)]
pub enum WatchOutcome {
    /// The event came.
    Event,
    /// Watching failed.
    Failed(String),
    /// Watching ended.
    Ended,
    /// The time was up.
    TimedOut,
}

/// What waiting for a confirmation comes to.
pub fn danger_zone(outcome: WatchOutcome) -> (r: Result<(), DangerZoneError>)
    ensures
        r == (match outcome {
            WatchOutcome::Event => Ok::<(), DangerZoneError>(()),
            WatchOutcome::Failed(e) => Err(DangerZoneError::Watch(e)),
            WatchOutcome::Ended => Err(DangerZoneError::NoConfirmation),
            WatchOutcome::TimedOut => Err(DangerZoneError::TimesUp),
        }),
{
    match outcome {
        WatchOutcome::Event => Ok(()),
        WatchOutcome::Failed(e) => Err(DangerZoneError::Watch(e)),
        WatchOutcome::Ended => Err(DangerZoneError::NoConfirmation),
        WatchOutcome::TimedOut => Err(DangerZoneError::TimesUp),
    }
}

/// The file that stands for an activation of a closure that waits for its
/// confirmation: it is named by the hash of the closure.
pub open spec fn canary_file(temp_path: Seq<char>, closure: Seq<char>) -> Seq<char> {
    let name = match file_name_of(closure) {
        Some(name) => name,
        None => Seq::empty(),
    };
    path_under(temp_path, "deploy-rx-canary-"@ + before_first(name, '-'))
}

/// The file that stands for an activation of a closure that waits for its
/// confirmation.
pub fn make_lock_path(temp_path: &str, closure: &str) -> (r: String)
    ensures
        r@ == canary_file(temp_path@, closure@),
{
    let name = match file_name(closure) {
        Some(name) => name,
        None => String::new(),
    };
    let hash = prefix_before(name.as_str(), '-');
    join_path(temp_path, "deploy-rx-canary-".to_string().concat(hash.as_str()).as_str())
}

/// Whether the creation of files is that of the canary file, of which `lock_path`
/// is the canonical path where it is there. Paths are compared by their components.
pub fn is_canary(paths: &[String], lock_path: Option<&str>) -> (r: bool)
    ensures
        r == (paths@.len() == 1 && lock_path is Some && same_components(
            paths@[0]@,
            lock_path->0@,
        )),
{
    if paths.len() != 1 {
        return false;
    }
    match lock_path {
        Some(lock_path) => same_path(paths[0].as_str(), lock_path),
        None => false,
    }
}

/// How long an activation is waited for, in seconds.
pub fn wait_seconds(activation_timeout: Option<u16>) -> (r: u16)
    ensures
        r == (match activation_timeout {
            Some(seconds) => seconds,
            None => 240u16,
        }),
{
    match activation_timeout {
        Some(seconds) => seconds,
        None => 240,
    }
}

/// Why an activation was not confirmed.
#[derive(Debug)]
pub enum ActivationConfirmationError {
    CreateConfirmDir(String),
    CreateConfirmFile(String),
    Watcher(String),
    WaitingError(DangerZoneError),
}

/// What is shown of a `ActivationConfirmationError`.
pub open spec fn activation_confirmation_error_text(e: ActivationConfirmationError) -> Seq<char> {
    match e {
        ActivationConfirmationError::CreateConfirmDir(err) =>
            "Failed to create activation confirmation directory: "@ + err@,
        ActivationConfirmationError::CreateConfirmFile(err) =>
            "Failed to create activation confirmation file: "@ + err@,
        ActivationConfirmationError::Watcher(err) =>
            "Could not watch for activation sentinel: "@ + err@,
        ActivationConfirmationError::WaitingError(err) =>
            "Error waiting for confirmation event: "@ + danger_zone_error_text(err),
    }
}

impl ActivationConfirmationError {
    /// The message for this error.
    pub fn message(&self) -> (r: String)
        ensures
            r@ == activation_confirmation_error_text(*self),
    {
        match self {
            ActivationConfirmationError::CreateConfirmDir(err) => {
                "Failed to create activation confirmation directory: ".to_string()
                    .concat(err.as_str())
            },
            ActivationConfirmationError::CreateConfirmFile(err) => {
                "Failed to create activation confirmation file: ".to_string().concat(err.as_str())
            },
            ActivationConfirmationError::Watcher(err) => {
                "Could not watch for activation sentinel: ".to_string().concat(err.as_str())
            },
            ActivationConfirmationError::WaitingError(err) => {
                "Error waiting for confirmation event: ".to_string().concat(err.message().as_str())
            },
        }
    }
}

/// Why an activation was waited for in vain.
#[derive(Debug)]
pub enum WaitError {
    Watcher(String),
    Waiting(DangerZoneError),
}

/// What is shown of a `WaitError`.
pub open spec fn wait_error_text(e: WaitError) -> Seq<char> {
    match e {
        WaitError::Watcher(err) => "Error creating watcher for activation: "@ + err@,
        WaitError::Waiting(err) => "Error waiting for activation: "@ + danger_zone_error_text(err),
    }
}

impl WaitError {
    /// The message for this error.
    pub fn message(&self) -> (r: String)
        ensures
            r@ == wait_error_text(*self),
    {
        match self {
            WaitError::Watcher(err) => {
                "Error creating watcher for activation: ".to_string().concat(err.as_str())
            },
            WaitError::Waiting(err) => {
                "Error waiting for activation: ".to_string().concat(err.message().as_str())
            },
        }
    }
}

/// Why a profile was not activated.
#[derive(Debug)]
pub enum ActivateError {
    SetProfile(String),
    SetProfileExit(Option<i32>),
    RunActivate(String),
    RunActivateExit(Option<i32>),
    Deactivate(DeactivateError),
    ActivationConfirmation(ActivationConfirmationError),
}

/// What is shown of a `ActivateError`.
pub open spec fn activate_error_text(e: ActivateError) -> Seq<char> {
    match e {
        ActivateError::SetProfile(err) =>
            "Failed to execute the command for setting profile: "@ + err@,
        ActivateError::SetProfileExit(code) =>
            "The command for setting profile resulted in a bad exit code: "@ + shown_code(code),
        ActivateError::RunActivate(err) => "Failed to execute the activation script: "@ + err@,
        ActivateError::RunActivateExit(code) =>
            "The activation script resulted in a bad exit code: "@ + shown_code(code),
        ActivateError::Deactivate(err) =>
            "There was an error de-activating after an error was encountered: "@
                + deactivate_error_text(err),
        ActivateError::ActivationConfirmation(err) =>
            "Failed to get activation confirmation: "@ + activation_confirmation_error_text(err),
    }
}

impl ActivateError {
    /// The message for this error.
    pub fn message(&self) -> (r: String)
        ensures
            r@ == activate_error_text(*self),
    {
        match self {
            ActivateError::SetProfile(err) => {
                "Failed to execute the command for setting profile: ".to_string()
                    .concat(err.as_str())
            },
            ActivateError::SetProfileExit(code) => {
                "The command for setting profile resulted in a bad exit code: ".to_string()
                    .concat(code_text(*code).as_str())
            },
            ActivateError::RunActivate(err) => {
                "Failed to execute the activation script: ".to_string().concat(err.as_str())
            },
            ActivateError::RunActivateExit(code) => {
                "The activation script resulted in a bad exit code: ".to_string()
                    .concat(code_text(*code).as_str())
            },
            ActivateError::Deactivate(err) => {
                "There was an error de-activating after an error was encountered: ".to_string()
                    .concat(err.message().as_str())
            },
            ActivateError::ActivationConfirmation(err) => {
                "Failed to get activation confirmation: ".to_string().concat(err.message().as_str())
            },
        }
    }
}

/// The command line that sets a profile to a closure.
pub open spec fn set_profile_line(profile_path: Seq<char>, closure: Seq<char>) -> CommandLine {
    command_line("nix-env"@, seq!["-p"@, profile_path, "--set"@, closure])
}

/// The command that sets a profile to a closure.
pub fn set_profile_command(profile_path: &str, closure: &str) -> (r: Command)
    ensures
        r@ == set_profile_line(profile_path@, closure@),
{
    let r = Command::new("nix-env").arg("-p").arg(profile_path).arg("--set").arg(closure);
    assert(r@.args =~= seq!["-p"@, profile_path@, "--set"@, closure@]);
    r
}

/// A switch, as it is passed to the activation script.
pub open spec fn switch_text(on: bool) -> Seq<char> {
    if on {
        "1"@
    } else {
        "0"@
    }
}

fn switch_str(on: bool) -> (r: &'static str)
    ensures
        r@ == switch_text(on),
{
    if on {
        "1"
    } else {
        "0"
    }
}

/// The command line that runs the activation script: that of the closure itself
/// where nothing is to be changed, and that of the profile otherwise.
pub open spec fn script_line(
    profile_path: Seq<char>,
    closure: Seq<char>,
    dry_activate: bool,
    boot: bool,
) -> CommandLine {
    let location = if dry_activate {
        closure
    } else {
        profile_path
    };
    command_line(location + "/deploy-rx-activate"@, Seq::empty()).with_env(
        "PROFILE"@,
        location,
    ).with_env("DRY_ACTIVATE"@, switch_text(dry_activate)).with_env(
        "BOOT"@,
        switch_text(boot),
    ).within(location)
}

/// The command that runs the activation script.
pub fn script_command(profile_path: &str, closure: &str, dry_activate: bool, boot: bool) -> (r:
    Command)
    ensures
        r@ == script_line(profile_path@, closure@, dry_activate, boot),
{
    let location = if dry_activate {
        closure
    } else {
        profile_path
    };
    let program = location.to_string().concat("/deploy-rx-activate");
    Command::new(program.as_str()).env("PROFILE", location).env(
        "DRY_ACTIVATE",
        switch_str(dry_activate),
    ).env("BOOT", switch_str(boot)).current_dir(location)
}

/// How a profile is activated.
#[derive(Debug, Clone, Copy, PartialEq, Eq, Structural)]
pub struct Activation {
    pub auto_rollback: bool,
    pub magic_rollback: bool,
    pub dry_activate: bool,
    pub boot: bool,
}

/// How far an activation is.
#[derive(Debug)]
pub enum ActivateStage {
    /// The profile is set to the closure.
    SetProfile,
    /// The activation script is run.
    RunScript,
    /// A confirmation is waited for.
    Confirm,
    /// Going back to the generation before, because of an error.
    RollBack(ActivateError),
    /// All is done.
    Done,
}

impl Activation {
    /// What is done first.
    pub open spec fn first_stage(self) -> ActivateStage {
        if self.dry_activate {
            ActivateStage::RunScript
        } else {
            ActivateStage::SetProfile
        }
    }

    /// What follows on a failure.
    pub open spec fn on_failure(self, e: ActivateError) -> Result<ActivateStage, ActivateError> {
        if self.auto_rollback && !self.dry_activate {
            Ok(ActivateStage::RollBack(e))
        } else {
            Err(e)
        }
    }

    /// What follows on setting the profile.
    pub open spec fn after_set_profile(self, outcome: Result<Option<i32>, String>) -> Result<
        ActivateStage,
        ActivateError,
    > {
        match outcome {
            Ok(code) => if code == Some(0i32) {
                Ok(ActivateStage::RunScript)
            } else {
                self.on_failure(ActivateError::SetProfileExit(code))
            },
            Err(e) => Err(ActivateError::SetProfile(e)),
        }
    }

    /// What follows on the activation script. How it exits does not count where
    /// nothing is to be changed.
    pub open spec fn after_script(self, outcome: Result<Option<i32>, String>) -> Result<
        ActivateStage,
        ActivateError,
    > {
        match outcome {
            Ok(code) => if self.dry_activate {
                Ok(ActivateStage::Done)
            } else if code != Some(0i32) {
                self.on_failure(ActivateError::RunActivateExit(code))
            } else if self.magic_rollback && !self.boot {
                Ok(ActivateStage::Confirm)
            } else {
                Ok(ActivateStage::Done)
            },
            Err(e) => self.on_failure(ActivateError::RunActivate(e)),
        }
    }

    /// What follows on waiting for a confirmation: without one the activation is
    /// taken back, whatever is set otherwise.
    pub open spec fn after_confirmation(
        self,
        outcome: Result<(), ActivationConfirmationError>,
    ) -> ActivateStage {
        match outcome {
            Ok(()) => ActivateStage::Done,
            Err(e) => ActivateStage::RollBack(ActivateError::ActivationConfirmation(e)),
        }
    }

    /// What is done first.
    pub fn start(&self) -> (r: ActivateStage)
        ensures
            r == self.first_stage(),
    {
        if self.dry_activate {
            ActivateStage::RunScript
        } else {
            ActivateStage::SetProfile
        }
    }

    fn fail(&self, e: ActivateError) -> (r: Result<ActivateStage, ActivateError>)
        ensures
            r == self.on_failure(e),
    {
        if self.auto_rollback && !self.dry_activate {
            Ok(ActivateStage::RollBack(e))
        } else {
            Err(e)
        }
    }

    /// What follows on setting the profile.
    pub fn profile_set(&self, outcome: Result<Option<i32>, String>) -> (r: Result<
        ActivateStage,
        ActivateError,
    >)
        ensures
            r == self.after_set_profile(outcome),
    {
        match outcome {
            Ok(code) => match code {
                Some(0) => Ok(ActivateStage::RunScript),
                code => self.fail(ActivateError::SetProfileExit(code)),
            },
            Err(e) => Err(ActivateError::SetProfile(e)),
        }
    }

    /// What follows on the activation script.
    pub fn script_run(&self, outcome: Result<Option<i32>, String>) -> (r: Result<
        ActivateStage,
        ActivateError,
    >)
        ensures
            r == self.after_script(outcome),
    {
        match outcome {
            Ok(code) => {
                if self.dry_activate {
                    return Ok(ActivateStage::Done);
                }
                match code {
                    Some(0) => {},
                    code => return self.fail(ActivateError::RunActivateExit(code)),
                }
                if self.magic_rollback && !self.boot {
                    Ok(ActivateStage::Confirm)
                } else {
                    Ok(ActivateStage::Done)
                }
            },
            Err(e) => self.fail(ActivateError::RunActivate(e)),
        }
    }

    /// What follows on waiting for a confirmation.
    pub fn confirmation_awaited(&self, outcome: Result<(), ActivationConfirmationError>) -> (r:
        ActivateStage)
        ensures
            r == self.after_confirmation(outcome),
    {
        match outcome {
            Ok(()) => ActivateStage::Done,
            Err(e) => ActivateStage::RollBack(ActivateError::ActivationConfirmation(e)),
        }
    }

    /// The error that an activation ends with that was taken back because of
    /// `reason`: that it could not be taken back is the graver one.
    pub fn rolled_back(
        &self,
        reason: ActivateError,
        outcome: Result<(), DeactivateError>,
    ) -> (r: ActivateError)
        ensures
            r == (match outcome {
                Ok(()) => reason,
                Err(e) => ActivateError::Deactivate(e),
            }),
    {
        match outcome {
            Ok(()) => reason,
            Err(e) => ActivateError::Deactivate(e),
        }
    }
}

/// A dry activation neither sets the profile nor takes anything back nor waits
/// for a confirmation, whatever the activation script does.
pub proof fn law_dry_activation_changes_nothing(
    activation: Activation,
    outcome: Result<Option<i32>, String>,
)
    requires
        activation.dry_activate,
    ensures
        activation.first_stage() is RunScript,
        activation.after_script(outcome) matches Ok(stage) ==> stage is Done,
{
}

/// Before the confirmation, an activation is taken back only where that is
/// asked for, and only because something went wrong.
pub proof fn law_rolls_back_only_where_asked(
    activation: Activation,
    outcome: Result<Option<i32>, String>,
)
    ensures
        activation.after_set_profile(outcome) matches Ok(ActivateStage::RollBack(_)) ==> {
            &&& activation.auto_rollback
            &&& !activation.dry_activate
            &&& outcome != Ok::<_, String>(Some(0i32))
        },
        activation.after_script(outcome) matches Ok(ActivateStage::RollBack(_)) ==> {
            &&& activation.auto_rollback
            &&& !activation.dry_activate
            &&& outcome != Ok::<_, String>(Some(0i32))
        },
{
}

/// An activation that changes something is done only after its script exited
/// with zero, and where a confirmation is due only after that came.
pub proof fn law_done_means_activated(
    activation: Activation,
    outcome: Result<Option<i32>, String>,
    confirmation: Result<(), ActivationConfirmationError>,
)
    requires
        !activation.dry_activate,
    ensures
        activation.after_script(outcome) matches Ok(ActivateStage::Done) ==> {
            &&& outcome == Ok::<_, String>(Some(0i32))
            &&& !activation.magic_rollback || activation.boot
        },
        activation.after_confirmation(confirmation) is Done ==> confirmation is Ok,
{
}

/// The generation that is named is the one on the last line of the list, however
/// many lines stand before it: the first word of that line.
pub proof fn law_last_line_names_the_generation(
    list: &str,
    r: Result<String, GenerationFault>,
    before: Seq<char>,
    lead: Seq<char>,
    id: Seq<char>,
    rest: Seq<char>,
    ended: bool,
)
    requires
        call_ensures(last_generation, (list,), r),
        list@ == before + (lead + id + rest) + (if ended {
            seq!['\n']
        } else {
            Seq::<char>::empty()
        }),
        before.len() == 0 || before.last() == '\n',
        !lead.contains('\n'),
        forall|i: int| 0 <= i < lead.len() ==> is_space(#[trigger] lead[i]),
        id.len() > 0,
        forall|i: int| 0 <= i < id.len() ==> !is_space(#[trigger] id[i]),
        rest.len() == 0 || is_space(rest[0]),
        !rest.contains('\n'),
    ensures
        r matches Ok(named) && named@ == id,
{
    let line = lead + id + rest;
    assert(!line.contains('\n')) by {
        if line.contains('\n') {
            let i = choose|i: int| 0 <= i < line.len() && line[i] == '\n';
            if i < lead.len() {
                assert(lead.contains(lead[i]));
            } else if i < lead.len() + id.len() {
                assert(!is_space(id[i - lead.len()]));
            } else {
                assert(rest.contains(rest[i - lead.len() - id.len()]));
            }
        }
    }
    law_last_line_is_found(before, line, ended);
    law_first_word_is_found(lead, id, rest);
}

/// No generation is named by a list that is empty, nor by one whose last line is
/// blank.
pub proof fn law_blank_last_line_names_nothing(
    list: &str,
    r: Result<String, GenerationFault>,
    before: Seq<char>,
    line: Seq<char>,
    ended: bool,
)
    requires
        call_ensures(last_generation, (list,), r),
        list@ == before + line + (if ended {
            seq!['\n']
        } else {
            Seq::<char>::empty()
        }),
        before.len() == 0 || before.last() == '\n',
        !line.contains('\n'),
        forall|i: int| 0 <= i < line.len() ==> is_space(#[trigger] line[i]),
    ensures
        line.len() > 0 || ended ==> r == Err::<String, _>(GenerationFault::NoId),
        list@.len() == 0 ==> r == Err::<String, _>(GenerationFault::NoLine),
{
    if line.len() > 0 || ended {
        law_last_line_is_found(before, line, ended);
        law_blank_text_has_no_word(line);
    }
    if list@.len() == 0 {
        assert(list@ =~= Seq::<char>::empty());
        assert(pieces(list@, '\n') == seq![Seq::<char>::empty()]);
        assert(seq![Seq::<char>::empty()].drop_last() =~= Seq::<Seq<char>>::empty());
    }
}

/// Going back takes its stages in order, each one only after the command of the one
/// before exited with zero, and the generation that is deleted is the one that the
/// list names.
pub proof fn law_going_back_takes_all_stages(
    stage: DeactivateStage,
    outcome: Result<Output, String>,
    r: Result<DeactivateStage, DeactivateError>,
    list: &str,
    named: Result<String, GenerationFault>,
)
    requires
        can_conclude(stage, outcome),
        call_ensures(deactivate, (stage, outcome), r),
        call_ensures(last_generation, (list,), named),
    ensures
        r is Ok ==> outcome is Ok && outcome->Ok_0.code == Some(0i32),
        stage is Rollback && r is Ok ==> r->Ok_0 is ListGenerations,
        stage is ListGenerations && r is Ok ==> r->Ok_0 is DeleteGeneration,
        stage is DeleteGeneration && r is Ok ==> r->Ok_0 is Reactivate,
        stage is Reactivate && r is Ok ==> r->Ok_0 is Done,
        outcome is Ok && outcome->Ok_0.code == Some(0i32) && !(stage is ListGenerations)
            ==> r is Ok,
        outcome is Ok && outcome->Ok_0.code == Some(0i32) && stage is ListGenerations
            && valid_utf8(outcome->Ok_0.stdout@) && decode_utf8(outcome->Ok_0.stdout@) == list@
            ==> {
            &&& named is Ok
            &&& r matches Ok(DeactivateStage::DeleteGeneration(id)) && id@ == named->Ok_0@
        },
{
}

/// Each stage of going back works on the profile itself: the generation before is
/// gone back to, the generations are listed, the one that was named is deleted, and
/// the profile is activated where it is.
pub proof fn law_going_back_works_on_the_profile(
    profile_path: &str,
    stage: DeactivateStage,
    r: Option<Command>,
)
    requires
        call_ensures(deactivate_command, (profile_path, &stage), r),
    ensures
        r is None <==> stage is Done,
        r matches Some(command) ==> match stage {
            DeactivateStage::Rollback => {
                &&& command.program@ == "nix-env"@
                &&& texts(command.args@) == seq!["-p"@, profile_path@, "--rollback"@]
            },
            DeactivateStage::ListGenerations => {
                &&& command.program@ == "nix-env"@
                &&& texts(command.args@) == seq!["-p"@, profile_path@, "--list-generations"@]
            },
            DeactivateStage::DeleteGeneration(id) => {
                &&& command.program@ == "nix-env"@
                &&& texts(command.args@) == seq![
                    "-p"@,
                    profile_path@,
                    "--delete-generations"@,
                    id@,
                ]
            },
            DeactivateStage::Reactivate => {
                &&& command.program@ == profile_path@ + "/deploy-rx-activate"@
                &&& command.args@.len() == 0
                &&& command@.env_value("PROFILE"@) == Some(profile_path@)
                &&& opt_text(command.dir) == Some(profile_path@)
            },
            DeactivateStage::Done => false,
        },
{
    if r is Some {
        let command = r->0;
        let line = deactivate_line(profile_path@, stage)->0;
        assert(command@ == line);
        assert(command@.args.len() == command.args@.len());
        if stage is Reactivate {
            let envs = command@.envs;
            assert(envs.last() == ("PROFILE"@, profile_path@));
        }
    }
}

/// What an activation comes to by its script, for every combination of switches: a
/// dry one is done however the script exits, one that failed is taken back or
/// reported, and one that succeeded waits for its confirmation exactly where it can
/// still be taken back and does not only count from the next boot on.
pub proof fn law_script_decides_on_the_activation(
    activation: Activation,
    code: Option<i32>,
    r: Result<ActivateStage, ActivateError>,
)
    requires
        call_ensures(Activation::script_run, (&activation, Ok(code)), r),
    ensures
        activation.dry_activate ==> r matches Ok(ActivateStage::Done),
        !activation.dry_activate && code == Some(0i32) && activation.magic_rollback
            && !activation.boot ==> r matches Ok(ActivateStage::Confirm),
        !activation.dry_activate && code == Some(0i32) && (!activation.magic_rollback
            || activation.boot) ==> r matches Ok(ActivateStage::Done),
        !activation.dry_activate && code != Some(0i32) && activation.auto_rollback ==> (r
            matches Ok(ActivateStage::RollBack(ActivateError::RunActivateExit(c))) && c == code),
        !activation.dry_activate && code != Some(0i32) && !activation.auto_rollback ==> (r
            matches Err(ActivateError::RunActivateExit(c)) && c == code),
{
}

/// A script that could not be run at all is a failure, which is taken back exactly
/// where that is asked for and something was changed.
pub proof fn law_unrun_script_is_a_failure(
    activation: Activation,
    why: String,
    r: Result<ActivateStage, ActivateError>,
)
    requires
        call_ensures(Activation::script_run, (&activation, Err(why)), r),
    ensures
        activation.auto_rollback && !activation.dry_activate ==> (r matches Ok(
            ActivateStage::RollBack(ActivateError::RunActivate(w)),
        ) && w == why),
        !(activation.auto_rollback && !activation.dry_activate) ==> (r matches Err(
            ActivateError::RunActivate(w),
        ) && w == why),
{
}

/// A profile that was set is activated by its script, whatever else is asked for,
/// and a profile that was not set is not.
pub proof fn law_set_profile_is_activated(
    activation: Activation,
    outcome: Result<Option<i32>, String>,
    first: ActivateStage,
    r: Result<ActivateStage, ActivateError>,
)
    requires
        call_ensures(Activation::start, (&activation,), first),
        call_ensures(Activation::profile_set, (&activation, outcome), r),
    ensures
        first is SetProfile <==> !activation.dry_activate,
        first is RunScript <==> activation.dry_activate,
        outcome == Ok::<_, String>(Some(0i32)) <==> r matches Ok(ActivateStage::RunScript),
        outcome matches Ok(code) && code != Some(0i32) && activation.auto_rollback
            && !activation.dry_activate ==> (r matches Ok(
            ActivateStage::RollBack(ActivateError::SetProfileExit(c)),
        ) && c == outcome->Ok_0),
        outcome matches Ok(code) && code != Some(0i32) && !(activation.auto_rollback
            && !activation.dry_activate) ==> (r matches Err(ActivateError::SetProfileExit(c)) && c
            == outcome->Ok_0),
        outcome matches Err(why) ==> (r matches Err(ActivateError::SetProfile(w)) && w
            == outcome->Err_0),
{
}

/// An activation without its confirmation is taken back, whatever is set otherwise,
/// and the error that is reported is the reason, unless going back failed.
pub proof fn law_unconfirmed_activation_is_taken_back(
    activation: Activation,
    outcome: Result<(), ActivationConfirmationError>,
    r: ActivateStage,
    reason: ActivateError,
    back: Result<(), DeactivateError>,
    reported: ActivateError,
)
    requires
        call_ensures(Activation::confirmation_awaited, (&activation, outcome), r),
        call_ensures(Activation::rolled_back, (&activation, reason, back), reported),
    ensures
        outcome is Ok ==> r is Done,
        outcome matches Err(e) ==> (r matches ActivateStage::RollBack(
            ActivateError::ActivationConfirmation(why),
        ) && why == outcome->Err_0),
        back is Ok ==> reported == reason,
        back matches Err(e) ==> (reported matches ActivateError::Deactivate(why) && why
            == back->Err_0),
{
}

/// The activation script is told in its environment whether it is only tried and
/// whether it is for the next boot. It is the one of the closure where it is only
/// tried, and otherwise that of the profile, and it runs where it is.
pub proof fn law_script_is_told_what_to_do(
    profile_path: &str,
    closure: &str,
    dry_activate: bool,
    boot: bool,
    r: Command,
)
    requires
        call_ensures(script_command, (profile_path, closure, dry_activate, boot), r),
    ensures
        r@.env_value("DRY_ACTIVATE"@) == Some(
            if dry_activate {
                "1"@
            } else {
                "0"@
            },
        ),
        r@.env_value("BOOT"@) == Some(
            if boot {
                "1"@
            } else {
                "0"@
            },
        ),
        ({
            let place = if dry_activate {
                closure@
            } else {
                profile_path@
            };
            &&& r.program@ == place + "/deploy-rx-activate"@
            &&& r@.env_value("PROFILE"@) == Some(place)
            &&& opt_text(r.dir) == Some(place)
            &&& r.args@.len() == 0
        }),
{
    reveal_strlit("PROFILE");
    reveal_strlit("DRY_ACTIVATE");
    reveal_strlit("BOOT");
    assert("PROFILE"@.len() == 7 && "DRY_ACTIVATE"@.len() == 12 && "BOOT"@.len() == 4);
    let line = script_line(profile_path@, closure@, dry_activate, boot);
    assert(r@ == line);
    let envs = line.envs;
    assert(envs.len() == 3);
    assert(r@.args.len() == r.args@.len());
    assert(envs.drop_last().last() == envs[1]);
    assert(envs.drop_last().drop_last().last() == envs[0]);
    assert(last_value(envs, "DRY_ACTIVATE"@) == last_value(envs.drop_last(), "DRY_ACTIVATE"@));
    assert(last_value(envs, "PROFILE"@) == last_value(envs.drop_last(), "PROFILE"@));
    assert(last_value(envs.drop_last(), "PROFILE"@) == last_value(
        envs.drop_last().drop_last(),
        "PROFILE"@,
    ));
}

/// The profile that is set is the given one, to the given closure.
pub proof fn law_profile_is_set_to_the_closure(profile_path: &str, closure: &str, r: Command)
    requires
        call_ensures(set_profile_command, (profile_path, closure), r),
    ensures
        r.program@ == "nix-env"@,
        texts(r.args@) == seq!["-p"@, profile_path@, "--set"@, closure@],
        r.envs@.len() == 0,
        r.dir is None,
{
    assert(r@.envs.len() == r.envs@.len());
}

/// Activations of a closure wait for one and the same file wherever its store is
/// seen, named by the hash of the closure: closures with another hash wait for
/// another file.
pub proof fn law_canary_is_named_by_the_hash(
    temp_path: &str,
    closure: &str,
    r: String,
    store: Seq<char>,
    hash: Seq<char>,
    name: Seq<char>,
)
    requires
        call_ensures(make_lock_path, (temp_path, closure), r),
        closure@ == store + (hash + "-"@ + name),
        store.len() == 0 || store.last() == '/',
        !hash.contains('/'),
        !hash.contains('-'),
        !name.contains('/'),
    ensures
        r@ == path_under(temp_path@, "deploy-rx-canary-"@ + hash),
{
    reveal_strlit("-");
    reveal_strlit(".");
    reveal_strlit("..");
    let file = hash + "-"@ + name;
    assert(file[hash.len() as int] == '-');
    assert(!file.contains('/')) by {
        if file.contains('/') {
            let i = choose|i: int| 0 <= i < file.len() && file[i] == '/';
            if i < hash.len() {
                assert(hash.contains(hash[i]));
            } else if i > hash.len() {
                assert(name.contains(name[i - hash.len() - 1]));
            }
        }
    }
    assert(file != "."@) by {
        if file == "."@ {
            assert(file.len() == 1);
            assert("."@[0] == '.');
        }
    }
    assert(file != ".."@) by {
        if file == ".."@ {
            assert(file.len() == 2);
            assert(".."@[0] == '.' && ".."@[1] == '.');
        }
    }
    law_file_name_is_the_last_component(store, file);
    assert(file =~= hash + seq!['-'] + name);
    law_prefix_ends_at_the_first(hash, '-', name);
}

/// An activation is confirmed by its file being removed, and by nothing else that
/// comes of watching it.
pub proof fn law_only_an_event_confirms(outcome: WatchOutcome, r: Result<(), DangerZoneError>)
    requires
        call_ensures(danger_zone, (outcome,), r),
    ensures
        r is Ok <==> outcome is Event,
        outcome is TimedOut ==> r matches Err(DangerZoneError::TimesUp),
        outcome is Ended ==> r matches Err(DangerZoneError::NoConfirmation),
        outcome matches WatchOutcome::Failed(why) ==> (r matches Err(DangerZoneError::Watch(w))
            && w == outcome->Failed_0),
{
}

/// The creation of a file is that of the canary only where it is the only one and
/// the canary is there, and always where its path is that of the canary.
pub proof fn law_canary_is_known_by_its_path(paths: &[String], lock_path: Option<&str>, r: bool)
    requires
        call_ensures(is_canary, (paths, lock_path), r),
    ensures
        r ==> paths@.len() == 1 && lock_path is Some,
        paths@.len() == 1 && lock_path is Some && paths@[0]@ == lock_path->0@ ==> r,
{
}

/// A wait lasts as long as was asked for, and four minutes where nothing was.
pub proof fn law_wait_lasts_as_asked(activation_timeout: Option<u16>, r: u16)
    requires
        call_ensures(wait_seconds, (activation_timeout,), r),
    ensures
        activation_timeout matches Some(seconds) ==> r == seconds,
        activation_timeout is None ==> r == 240,
{
}

/// A stage of going back that failed is the one that is reported, with its exit code or
/// with why it could not be run.
pub proof fn law_failed_stage_is_reported(
    stage: DeactivateStage,
    outcome: Result<Output, String>,
    r: Result<DeactivateStage, DeactivateError>,
)
    requires
        can_conclude(stage, outcome),
        call_ensures(deactivate, (stage, outcome), r),
    ensures
        outcome matches Err(why) ==> match stage {
            DeactivateStage::Rollback => r == Err::<DeactivateStage, _>(
                DeactivateError::Rollback(why),
            ),
            DeactivateStage::ListGenerations => r == Err::<DeactivateStage, _>(
                DeactivateError::ListGen(why),
            ),
            DeactivateStage::DeleteGeneration(_) => r == Err::<DeactivateStage, _>(
                DeactivateError::DeleteGen(why),
            ),
            _ => r == Err::<DeactivateStage, _>(DeactivateError::Reactivate(why)),
        },
        outcome is Ok && outcome->Ok_0.code != Some(0i32) ==> match stage {
            DeactivateStage::Rollback => r == Err::<DeactivateStage, _>(
                DeactivateError::RollbackExit(outcome->Ok_0.code),
            ),
            DeactivateStage::ListGenerations => r == Err::<DeactivateStage, _>(
                DeactivateError::ListGenExit(outcome->Ok_0.code),
            ),
            DeactivateStage::DeleteGeneration(_) => r == Err::<DeactivateStage, _>(
                DeactivateError::DeleteGenExit(outcome->Ok_0.code),
            ),
            _ => r == Err::<DeactivateStage, _>(
                DeactivateError::ReactivateExit(outcome->Ok_0.code),
            ),
        },
        outcome is Ok && outcome->Ok_0.code == Some(0i32) && stage is ListGenerations
            && !valid_utf8(outcome->Ok_0.stdout@) ==> r is Err && r->Err_0 is DecodeListGenUtf8,
{
}

/// The file for a closure whose name holds no `-` is named by the whole of it.
pub proof fn law_canary_is_named_by_the_whole_name(
    temp_path: &str,
    closure: &str,
    r: String,
    store: Seq<char>,
    name: Seq<char>,
)
    requires
        call_ensures(make_lock_path, (temp_path, closure), r),
        closure@ == store + name,
        store.len() == 0 || store.last() == '/',
        !name.contains('/'),
        !name.contains('-'),
        name.len() > 0,
        name != "."@,
        name != ".."@,
    ensures
        r@ == path_under(temp_path@, "deploy-rx-canary-"@ + name),
{
    law_file_name_is_the_last_component(store, name);
    law_prefix_ends_at_the_first(name, '-', Seq::empty());
}

/// Whether a list names a generation is what finding it comes to, and a list that is no
/// text is not asked.
pub proof fn law_lists_that_name_none_are_told_apart(
    stdout: &[u8],
    r: bool,
    list: &str,
    named: Result<String, GenerationFault>,
)
    requires
        call_ensures(lists_generation, (stdout,), r),
        call_ensures(last_generation, (list,), named),
    ensures
        !valid_utf8(stdout@) ==> r,
        valid_utf8(stdout@) && decode_utf8(stdout@) == list@ ==> (r <==> named is Ok),
{
}

/// What is said of going back that failed ends in why it did.
pub proof fn law_going_back_says_why_it_failed(e: DeactivateError, r: String)
    requires
        call_ensures(DeactivateError::message, (&e,), r),
    ensures
        match e {
            DeactivateError::Rollback(why) => why@.is_suffix_of(r@),
            DeactivateError::RollbackExit(code) => shown_code(code).is_suffix_of(r@),
            DeactivateError::ListGen(why) => why@.is_suffix_of(r@),
            DeactivateError::ListGenExit(code) => shown_code(code).is_suffix_of(r@),
            DeactivateError::DecodeListGenUtf8(why) => why@.is_suffix_of(r@),
            DeactivateError::DeleteGen(why) => why@.is_suffix_of(r@),
            DeactivateError::DeleteGenExit(code) => shown_code(code).is_suffix_of(r@),
            DeactivateError::Reactivate(why) => why@.is_suffix_of(r@),
            DeactivateError::ReactivateExit(code) => shown_code(code).is_suffix_of(r@),
        },
{
    match e {
        DeactivateError::Rollback(why) => {
            lemma_ends_in(why@);
        },
        DeactivateError::RollbackExit(code) => {
            lemma_ends_in(shown_code(code));
        },
        DeactivateError::ListGen(why) => {
            lemma_ends_in(why@);
        },
        DeactivateError::ListGenExit(code) => {
            lemma_ends_in(shown_code(code));
        },
        DeactivateError::DecodeListGenUtf8(why) => {
            lemma_ends_in(why@);
        },
        DeactivateError::DeleteGen(why) => {
            lemma_ends_in(why@);
        },
        DeactivateError::DeleteGenExit(code) => {
            lemma_ends_in(shown_code(code));
        },
        DeactivateError::Reactivate(why) => {
            lemma_ends_in(why@);
        },
        DeactivateError::ReactivateExit(code) => {
            lemma_ends_in(shown_code(code));
        },
    }
}

/// What is said of an activation that failed ends in why it did.
pub proof fn law_activation_says_why_it_failed(e: ActivateError, r: String)
    requires
        call_ensures(ActivateError::message, (&e,), r),
    ensures
        match e {
            ActivateError::SetProfile(why) => why@.is_suffix_of(r@),
            ActivateError::SetProfileExit(code) => shown_code(code).is_suffix_of(r@),
            ActivateError::RunActivate(why) => why@.is_suffix_of(r@),
            ActivateError::RunActivateExit(code) => shown_code(code).is_suffix_of(r@),
            ActivateError::Deactivate(why) => deactivate_error_text(why).is_suffix_of(r@),
            ActivateError::ActivationConfirmation(why) =>
                activation_confirmation_error_text(why).is_suffix_of(r@),
        },
{
    match e {
        ActivateError::SetProfile(why) => {
            lemma_ends_in(why@);
        },
        ActivateError::SetProfileExit(code) => {
            lemma_ends_in(shown_code(code));
        },
        ActivateError::RunActivate(why) => {
            lemma_ends_in(why@);
        },
        ActivateError::RunActivateExit(code) => {
            lemma_ends_in(shown_code(code));
        },
        ActivateError::Deactivate(why) => {
            lemma_ends_in(deactivate_error_text(why));
        },
        ActivateError::ActivationConfirmation(why) => {
            lemma_ends_in(activation_confirmation_error_text(why));
        },
    }
}

/// What is said of a confirmation that failed ends in why it did.
pub proof fn law_confirmation_says_why_it_failed(e: ActivationConfirmationError, r: String)
    requires
        call_ensures(ActivationConfirmationError::message, (&e,), r),
    ensures
        match e {
            ActivationConfirmationError::CreateConfirmDir(why) => why@.is_suffix_of(r@),
            ActivationConfirmationError::CreateConfirmFile(why) => why@.is_suffix_of(r@),
            ActivationConfirmationError::Watcher(why) => why@.is_suffix_of(r@),
            ActivationConfirmationError::WaitingError(why) =>
                danger_zone_error_text(why).is_suffix_of(r@),
        },
{
    match e {
        ActivationConfirmationError::CreateConfirmDir(why) => {
            lemma_ends_in(why@);
        },
        ActivationConfirmationError::CreateConfirmFile(why) => {
            lemma_ends_in(why@);
        },
        ActivationConfirmationError::Watcher(why) => {
            lemma_ends_in(why@);
        },
        ActivationConfirmationError::WaitingError(why) => {
            lemma_ends_in(danger_zone_error_text(why));
        },
    }
}

/// What is said of waiting that failed ends in why it did.
pub proof fn law_waiting_says_why_it_failed(e: WaitError, r: String)
    requires
        call_ensures(WaitError::message, (&e,), r),
    ensures
        match e {
            WaitError::Watcher(why) => why@.is_suffix_of(r@),
            WaitError::Waiting(why) => danger_zone_error_text(why).is_suffix_of(r@),
        },
{
    match e {
        WaitError::Watcher(why) => {
            lemma_ends_in(why@);
        },
        WaitError::Waiting(why) => {
            lemma_ends_in(danger_zone_error_text(why));
        },
    }
}

/// Only the creation of the file with the name of the canary file, in the same directory,
/// is that of the canary file, however often a `/` is written.
pub proof fn law_other_files_are_not_the_canary(
    paths: &[String],
    lock_path: Option<&str>,
    r: bool,
    dir: Seq<char>,
    name: Seq<char>,
    other: Seq<char>,
)
    requires
        call_ensures(is_canary, (paths, lock_path), r),
        paths@.len() == 1,
        lock_path is Some,
        lock_path->0@ == dir + seq!['/'] + name,
        dir.len() > 0,
        !name.contains('/') && name.len() > 0 && name != "."@,
        !other.contains('/') && other.len() > 0 && other != "."@,
    ensures
        paths@[0]@ == dir + seq!['/'] + other ==> (r <==> name == other),
        paths@[0]@ == dir + seq!['/', '/'] + name ==> r,
        paths@[0]@ == dir + seq!['/', '.', '/'] + name ==> r,
{
    law_paths_are_the_same_by_their_names(dir, name, other, name);
}

} // verus!
