//! The remote side of a session: a request comes in, is carried out with the
//! rights that it needs, and what came of it is reported.
use vstd::prelude::*;
use vstd::utf8::{decode_utf8, valid_utf8};

use crate::activation::{last_generation, last_generation_id, DeactivateStage, GenerationFault};
use crate::bytes::{utf8_fault, utf8_text};
use crate::command::{command_line, Command, CommandLine, Output, Stream};
use crate::data::opt_sudo;
use crate::remote_protocol::{
    BootstrapRequest, ConfirmRequest, RemoteDeployRequest, RemoteEvent, RemoteOperation,
    REMOTE_PROTOCOL_VERSION,
};
use crate::sudo::{for_user, SudoCommand};
use crate::text::{
    code_text, decimal, decimal_text, hex_of, hex_text, is_space, join_path, law_hex_has_no_space,
    law_hex_is_injective, law_hex_length, law_only_ends_are_trimmed, law_trimmed_line,
    lemma_ends_in, lemma_ends_in_parts, opt_text, path_under, same_text, shown_code, texts, trim,
    trimmed, trimmed_end, trimmed_start,
};

verus! {

/// Why a command of a session left no exit code behind.
#[derive(Debug)]
pub enum CommandFault {
    Spawn(String),
    Run(String),
    Wait(String),
    TimedOut(u16),
    ForwardStdout(String),
    ForwardStderr(String),
}

/// What is shown of a `CommandFault`.
pub open spec fn command_fault_text(e: CommandFault) -> Seq<char> {
    match e {
        CommandFault::Spawn(err) => "failed to spawn command: "@ + err@,
        CommandFault::Run(err) => "failed to run command: "@ + err@,
        CommandFault::Wait(err) => "failed to wait for command: "@ + err@,
        CommandFault::TimedOut(seconds) => "command timed out after "@ + decimal(seconds as nat)
            + " seconds"@,
        CommandFault::ForwardStdout(err) => "failed to forward command stdout: "@ + err@,
        CommandFault::ForwardStderr(err) => "failed to forward command stderr: "@ + err@,
    }
}

impl CommandFault {
    /// The message for this fault.
    pub fn message(&self) -> (r: String)
        ensures
            r@ == command_fault_text(*self),
    {
        match self {
            CommandFault::Spawn(err) => {
                "failed to spawn command: ".to_string().concat(err.as_str())
            },
            CommandFault::Run(err) => "failed to run command: ".to_string().concat(err.as_str()),
            CommandFault::Wait(err) => {
                "failed to wait for command: ".to_string().concat(err.as_str())
            },
            CommandFault::TimedOut(seconds) => {
                "command timed out after ".to_string().concat(
                    decimal_text(*seconds as u64).as_str(),
                ).concat(" seconds")
            },
            CommandFault::ForwardStdout(err) => {
                "failed to forward command stdout: ".to_string().concat(err.as_str())
            },
            CommandFault::ForwardStderr(err) => {
                "failed to forward command stderr: ".to_string().concat(err.as_str())
            },
        }
    }
}

/// Why a session failed.
#[derive(Debug)]
pub enum SessionError {
    Failed { message: String, rolled_back: bool },
}

impl SessionError {
    /// What is shown of the error, and whether anything was taken back.
    pub open spec fn view(&self) -> (Seq<char>, bool) {
        match *self {
            SessionError::Failed { message, rolled_back } => (message@, rolled_back),
        }
    }

    /// A failure after which nothing was taken back.
    pub fn failed(message: String) -> (r: Self)
        ensures
            r@ == (message@, false),
    {
        SessionError::Failed { message, rolled_back: false }
    }

    /// A failure after which the generation before was gone back to.
    pub fn rolled_back(message: String) -> (r: Self)
        ensures
            r@ == (message@, true),
    {
        SessionError::Failed { message, rolled_back: true }
    }

    /// Whether anything was taken back.
    pub fn did_rollback(&self) -> (r: bool)
        ensures
            r == self@.1,
    {
        match self {
            SessionError::Failed { rolled_back, .. } => *rolled_back,
        }
    }

    /// The message for this error.
    pub fn message(&self) -> (r: String)
        ensures
            r@ == self@.0,
    {
        match self {
            SessionError::Failed { message, .. } => message.clone(),
        }
    }
}

/// How far going back is, without what it is going back from.
pub enum BackStage {
    Rollback,
    ListGenerations,
    DeleteGeneration(Seq<char>),
    Reactivate,
    Done,
}

/// What a `DeactivateStage` is.
pub open spec fn back_stage(stage: DeactivateStage) -> BackStage {
    match stage {
        DeactivateStage::Rollback => BackStage::Rollback,
        DeactivateStage::ListGenerations => BackStage::ListGenerations,
        DeactivateStage::DeleteGeneration(id) => BackStage::DeleteGeneration(id@),
        DeactivateStage::Reactivate => BackStage::Reactivate,
        DeactivateStage::Done => BackStage::Done,
    }
}

/// What a stage, or the message about a failure, is.
pub open spec fn back_result(r: Result<DeactivateStage, String>) -> Result<BackStage, Seq<char>> {
    match r {
        Ok(stage) => Ok(back_stage(stage)),
        Err(message) => Err(message@),
    }
}

/// What follows on a stage of going back in a session, by what its command left
/// behind.
pub open spec fn after_back_stage(
    stage: DeactivateStage,
    outcome: Result<Output, String>,
) -> Result<BackStage, Seq<char>> {
    match outcome {
        Err(message) => Err(message@),
        Ok(output) => match stage {
            DeactivateStage::Rollback => if output.code == Some(0i32) {
                Ok(BackStage::ListGenerations)
            } else {
                Err("rollback resulted in a bad exit code: "@ + shown_code(output.code))
            },
            DeactivateStage::ListGenerations => if output.code != Some(0i32) {
                Err("listing generations resulted in a bad exit code: "@ + shown_code(output.code))
            } else if !valid_utf8(output.stdout@) {
                Err("failed to decode generations list: "@ + utf8_fault(output.stdout@))
            } else {
                match last_generation_id(decode_utf8(output.stdout@)) {
                    Ok(id) => Ok(BackStage::DeleteGeneration(id)),
                    Err(GenerationFault::NoLine) => Err("expected to find a generation in list"@),
                    Err(GenerationFault::NoId) => Err("expected to get ID from generation entry"@),
                }
            },
            DeactivateStage::DeleteGeneration(_) => if output.code == Some(0i32) {
                Ok(BackStage::Reactivate)
            } else {
                Err("deleting generations resulted in a bad exit code: "@ + shown_code(output.code))
            },
            DeactivateStage::Reactivate => if output.code == Some(0i32) {
                Ok(BackStage::Done)
            } else {
                Err(
                    "re-activating the last generation resulted in a bad exit code: "@
                        + shown_code(output.code),
                )
            },
            DeactivateStage::Done => Ok(BackStage::Done),
        },
    }
}

/// What follows on a stage of going back in a session, by what its command left
/// behind or why it could not be run.
pub fn deactivate_session(stage: DeactivateStage, outcome: Result<Output, String>) -> (r: Result<
    DeactivateStage,
    String,
>)
    ensures
        back_result(r) == after_back_stage(stage, outcome),
{
    match outcome {
        Err(message) => Err(message),
        Ok(output) => match stage {
            DeactivateStage::Rollback => match output.code {
                Some(0) => Ok(DeactivateStage::ListGenerations),
                code => Err(
                    "rollback resulted in a bad exit code: ".to_string().concat(
                        code_text(code).as_str(),
                    ),
                ),
            },
            DeactivateStage::ListGenerations => match output.code {
                Some(0) => match utf8_text(output.stdout.as_slice()) {
                    Ok(list) => match last_generation(list.as_str()) {
                        Ok(id) => Ok(DeactivateStage::DeleteGeneration(id)),
                        Err(GenerationFault::NoLine) => Err(
                            "expected to find a generation in list".to_string(),
                        ),
                        Err(GenerationFault::NoId) => Err(
                            "expected to get ID from generation entry".to_string(),
                        ),
                    },
                    Err(err) => Err(
                        "failed to decode generations list: ".to_string().concat(err.as_str()),
                    ),
                },
                code => Err(
                    "listing generations resulted in a bad exit code: ".to_string().concat(
                        code_text(code).as_str(),
                    ),
                ),
            },
            DeactivateStage::DeleteGeneration(_) => match output.code {
                Some(0) => Ok(DeactivateStage::Reactivate),
                code => Err(
                    "deleting generations resulted in a bad exit code: ".to_string().concat(
                        code_text(code).as_str(),
                    ),
                ),
            },
            DeactivateStage::Reactivate => match output.code {
                Some(0) => Ok(DeactivateStage::Done),
                code => Err(
                    "re-activating the last generation resulted in a bad exit code: ".to_string()
                        .concat(
                    code_text(code).as_str()),
                ),
            },
            DeactivateStage::Done => Ok(DeactivateStage::Done),
        },
    }
}

/// How far the deployment of a profile is.
#[derive(Debug)]
pub enum SessionStage {
    /// What is going to change is shown.
    Review,
    /// The profile is set to the closure.
    SetProfile,
    /// The activation script is run.
    RunScript,
    /// A confirmation over a fresh connection is waited for.
    Confirm,
    /// Going back to the generation before, because of an error; whether that
    /// works is not reported.
    RollBack { message: String },
    /// Going back to the generation before, because no confirmation came.
    RollBackUnconfirmed { why: String },
    /// All is done.
    Done,
}

/// How far the deployment of a profile is.
pub enum DeployStage {
    Review,
    SetProfile,
    RunScript,
    Confirm,
    RollBack(Seq<char>),
    RollBackUnconfirmed(Seq<char>),
    Done,
}

/// A stage, or the message of a failure and whether anything was taken back.
pub type StageResult = Result<DeployStage, (Seq<char>, bool)>;

impl SessionStage {
    /// What this stage is.
    pub open spec fn view(&self) -> DeployStage {
        match *self {
            SessionStage::Review => DeployStage::Review,
            SessionStage::SetProfile => DeployStage::SetProfile,
            SessionStage::RunScript => DeployStage::RunScript,
            SessionStage::Confirm => DeployStage::Confirm,
            SessionStage::RollBack { message } => DeployStage::RollBack(message@),
            SessionStage::RollBackUnconfirmed { why } => DeployStage::RollBackUnconfirmed(why@),
            SessionStage::Done => DeployStage::Done,
        }
    }
}

/// What the stage, or the error, is.
pub open spec fn stage_result(r: Result<SessionStage, SessionError>) -> StageResult {
    match r {
        Ok(stage) => Ok(stage@),
        Err(e) => Err(e@),
    }
}

/// What of a request decides on the course of a deployment.
#[derive(Debug, Clone, Copy, PartialEq, Eq, Structural)]
pub struct DeploySession {
    pub review_changes: bool,
    pub dry_activate: bool,
    pub boot: bool,
    pub auto_rollback: bool,
    pub magic_rollback: bool,
    pub activation_timeout: Option<u16>,
}

/// What came of running a command in a session: its exit code, or a message.
pub open spec fn failure_text(what: Seq<char>, outcome: Result<Option<i32>, String>) -> Seq<char> {
    match outcome {
        Ok(code) => what + shown_code(code),
        Err(message) => message@,
    }
}

/// What came of asking for a confirmation.
#[derive(Debug)]
pub enum ConfirmOutcome {
    NoSessionId(String),
    NoNonce(String),
    NotSent(String),
    Confirmed,
    Unconfirmed(String),
}

impl DeploySession {
    /// The course of the deployment that is asked for.
    pub fn new(request: &RemoteDeployRequest) -> (r: Self)
        ensures
            r == (DeploySession {
                review_changes: request.review_changes,
                dry_activate: request.dry_activate,
                boot: request.boot,
                auto_rollback: request.auto_rollback,
                magic_rollback: request.magic_rollback,
                activation_timeout: request.activation_timeout,
            }),
    {
        DeploySession {
            review_changes: request.review_changes,
            dry_activate: request.dry_activate,
            boot: request.boot,
            auto_rollback: request.auto_rollback,
            magic_rollback: request.magic_rollback,
            activation_timeout: request.activation_timeout,
        }
    }

    /// A confirmation is due after the activation.
    pub open spec fn needs_confirmation(self) -> bool {
        self.magic_rollback && !self.boot && !self.dry_activate
    }

    /// What is done first.
    pub open spec fn first_stage(self) -> DeployStage {
        if self.review_changes {
            DeployStage::Review
        } else {
            self.after_review()
        }
    }

    /// What follows on showing the changes.
    pub open spec fn after_review(self) -> DeployStage {
        if self.dry_activate {
            DeployStage::RunScript
        } else {
            DeployStage::SetProfile
        }
    }

    /// What follows on a failure.
    pub open spec fn on_failure(self, message: Seq<char>) -> StageResult {
        if self.auto_rollback {
            Ok(DeployStage::RollBack(message))
        } else {
            Err((message, false))
        }
    }

    /// What follows on setting the profile.
    pub open spec fn after_set_profile(self, outcome: Result<Option<i32>, String>) -> StageResult {
        if outcome == Ok::<_, String>(Some(0i32)) {
            Ok(DeployStage::RunScript)
        } else {
            self.on_failure(
                failure_text("setting profile resulted in a bad exit code: "@, outcome),
            )
        }
    }

    /// What follows on the activation script. What becomes of it does not count
    /// where nothing is to be changed.
    pub open spec fn after_script(self, outcome: Result<Option<i32>, String>) -> StageResult {
        if self.dry_activate {
            Ok(DeployStage::Done)
        } else if outcome != Ok::<_, String>(Some(0i32)) {
            self.on_failure(
                failure_text("activation script resulted in a bad exit code: "@, outcome),
            )
        } else if self.needs_confirmation() {
            Ok(DeployStage::Confirm)
        } else {
            Ok(DeployStage::Done)
        }
    }

    /// What follows on asking for a confirmation. What was activated is taken
    /// back only where the question was asked.
    pub open spec fn after_confirmation(self, outcome: ConfirmOutcome) -> StageResult {
        match outcome {
            ConfirmOutcome::NoSessionId(err) => Err(
                ("failed to generate session id: "@ + err@, false),
            ),
            ConfirmOutcome::NoNonce(err) => Err(("failed to generate nonce: "@ + err@, false)),
            ConfirmOutcome::NotSent(err) => Err(
                ("failed to send confirmation event: "@ + err@, false),
            ),
            ConfirmOutcome::Confirmed => Ok(DeployStage::Done),
            ConfirmOutcome::Unconfirmed(err) => Ok(DeployStage::RollBackUnconfirmed(err@)),
        }
    }

    /// What is done first.
    pub fn start(&self) -> (r: SessionStage)
        ensures
            r@ == self.first_stage(),
    {
        if self.review_changes {
            SessionStage::Review
        } else {
            self.reviewed()
        }
    }

    /// What follows on showing the changes, also where they could not be shown.
    pub fn reviewed(&self) -> (r: SessionStage)
        ensures
            r@ == self.after_review(),
    {
        if self.dry_activate {
            SessionStage::RunScript
        } else {
            SessionStage::SetProfile
        }
    }

    fn fail(&self, message: String) -> (r: Result<SessionStage, SessionError>)
        ensures
            stage_result(r) == self.on_failure(message@),
    {
        if self.auto_rollback {
            return Ok(SessionStage::RollBack { message });
        }
        Err(SessionError::failed(message))
    }

    /// What follows on setting the profile.
    pub fn profile_set(&self, outcome: Result<Option<i32>, String>) -> (r: Result<
        SessionStage,
        SessionError,
    >)
        ensures
            stage_result(r) == self.after_set_profile(outcome),
    {
        match outcome {
            Ok(code) => match code {
                Some(0) => Ok(SessionStage::RunScript),
                code => self.fail(
                    "setting profile resulted in a bad exit code: ".to_string().concat(
                        code_text(code).as_str(),
                    ),
                ),
            },
            Err(message) => self.fail(message),
        }
    }

    /// How long the activation script may take, in seconds, where that is limited:
    /// where a confirmation is due.
    pub fn script_timeout(&self) -> (r: Option<u16>)
        ensures
            r == (if self.needs_confirmation() {
                self.activation_timeout
            } else {
                None
            }),
    {
        if self.magic_rollback && !self.dry_activate && !self.boot {
            self.activation_timeout
        } else {
            None
        }
    }

    /// What follows on the activation script.
    pub fn script_run(&self, outcome: Result<Option<i32>, String>) -> (r: Result<
        SessionStage,
        SessionError,
    >)
        ensures
            stage_result(r) == self.after_script(outcome),
    {
        if self.dry_activate {
            return Ok(SessionStage::Done);
        }
        match outcome {
            Ok(code) => match code {
                Some(0) => {},
                code => return self.fail(
                    "activation script resulted in a bad exit code: ".to_string().concat(
                        code_text(code).as_str(),
                    ),
                ),
            },
            Err(message) => return self.fail(message),
        }
        if self.magic_rollback && !self.boot {
            Ok(SessionStage::Confirm)
        } else {
            Ok(SessionStage::Done)
        }
    }

    /// What follows on asking for a confirmation.
    pub fn confirmation_awaited(&self, outcome: ConfirmOutcome) -> (r: Result<
        SessionStage,
        SessionError,
    >)
        ensures
            stage_result(r) == self.after_confirmation(outcome),
    {
        match outcome {
            ConfirmOutcome::NoSessionId(err) => Err(
                SessionError::failed(
                    "failed to generate session id: ".to_string().concat(err.as_str()),
                ),
            ),
            ConfirmOutcome::NoNonce(err) => Err(
                SessionError::failed("failed to generate nonce: ".to_string().concat(err.as_str())),
            ),
            ConfirmOutcome::NotSent(err) => Err(
                SessionError::failed(
                    "failed to send confirmation event: ".to_string().concat(err.as_str()),
                ),
            ),
            ConfirmOutcome::Confirmed => Ok(SessionStage::Done),
            ConfirmOutcome::Unconfirmed(err) => Ok(SessionStage::RollBackUnconfirmed { why: err }),
        }
    }
}

/// The error that a deployment ends with that was taken back because of an error
/// with the given message.
pub fn rolled_back(message: String) -> (r: SessionError)
    ensures
        r@ == (message@, true),
{
    SessionError::rolled_back(message)
}

/// What is shown of a deployment that was taken back because no confirmation
/// came.
pub open spec fn unconfirmed_text(why: Seq<char>, outcome: Result<(), String>) -> Seq<char> {
    match outcome {
        Ok(()) => "confirmation failed: "@ + why,
        Err(err) => "confirmation failed: "@ + why + "; rollback also failed: "@ + err@,
    }
}

/// The error that a deployment ends with that was taken back because no
/// confirmation came, by what came of taking it back.
pub fn unconfirmed(why: String, outcome: Result<(), String>) -> (r: SessionError)
    ensures
        r@ == (unconfirmed_text(why@, outcome), true),
{
    let message = "confirmation failed: ".to_string().concat(why.as_str());
    SessionError::rolled_back(
        match outcome {
            Ok(()) => message,
            Err(err) => message.concat("; rollback also failed: ").concat(err.as_str()),
        },
    )
}

/// The message that a deployment ends with that is done.
pub fn deployed_message() -> (r: String)
    ensures
        r@ == "deployment finished"@,
{
    "deployment finished".to_string()
}

/// What a request to revoke a profile comes to, by what came of going back.
pub fn conclude_revoke(outcome: Result<(), String>) -> (r: Result<String, SessionError>)
    ensures
        match outcome {
            Ok(()) => r matches Ok(message) && message@ == "revoke finished"@,
            Err(err) => r matches Err(e) && e@ == (err@, false),
        },
{
    match outcome {
        Ok(()) => Ok("revoke finished".to_string()),
        Err(err) => Err(SessionError::failed(err)),
    }
}

/// The error of a session for a profile whose path is not known.
pub fn no_profile_path(err: &str) -> (r: SessionError)
    ensures
        r@ == ("failed to resolve profile path: "@ + err@, false),
{
    SessionError::failed("failed to resolve profile path: ".to_string().concat(err))
}

/// What a session says first.
pub fn hello_event() -> (r: RemoteEvent)
    ensures
        r == (RemoteEvent::Hello { protocol_version: REMOTE_PROTOCOL_VERSION }),
{
    RemoteEvent::Hello { protocol_version: REMOTE_PROTOCOL_VERSION }
}

/// What a session reports at its end.
pub fn finished_event(result: Result<String, SessionError>) -> (r: RemoteEvent)
    ensures
        r matches RemoteEvent::Finished { ok, rolled_back, message } && match result {
            Ok(text) => ok && !rolled_back && message == text,
            Err(e) => !ok && (message@, rolled_back) == e@,
        },
{
    match result {
        Ok(message) => RemoteEvent::Finished { ok: true, rolled_back: false, message },
        Err(err) => RemoteEvent::Finished {
            ok: false,
            rolled_back: err.did_rollback(),
            message: err.message(),
        },
    }
}

/// A dry deployment neither sets the profile nor takes anything back nor asks for
/// a confirmation, whatever the activation script does, and does not fail.
pub proof fn law_dry_deployment_changes_nothing(
    session: DeploySession,
    outcome: Result<Option<i32>, String>,
)
    requires
        session.dry_activate,
    ensures
        session.first_stage() is Review || session.first_stage() is RunScript,
        session.after_review() is RunScript,
        session.after_script(outcome) matches Ok(stage) && stage is Done,
{
}

/// A failed deployment is taken back exactly where that is asked for, with the
/// message of the failure, and otherwise reported as not taken back.
pub proof fn law_failures_are_taken_back_where_asked(
    session: DeploySession,
    outcome: Result<Option<i32>, String>,
)
    requires
        !session.dry_activate,
        outcome != Ok::<_, String>(Some(0i32)),
    ensures
        ({
            let message = failure_text("setting profile resulted in a bad exit code: "@, outcome);
            session.after_set_profile(outcome) == (if session.auto_rollback {
                Ok::<_, (Seq<char>, bool)>(DeployStage::RollBack(message))
            } else {
                Err((message, false))
            })
        }),
        ({
            let message = failure_text(
                "activation script resulted in a bad exit code: "@,
                outcome,
            );
            session.after_script(outcome) == (if session.auto_rollback {
                Ok::<_, (Seq<char>, bool)>(DeployStage::RollBack(message))
            } else {
                Err((message, false))
            })
        }),
{
}

/// A deployment that changes something is done only after its script exited with
/// zero, and where a confirmation is due only after that came. Without it the
/// deployment is taken back, whatever is set otherwise.
pub proof fn law_done_means_confirmed(
    session: DeploySession,
    outcome: Result<Option<i32>, String>,
    confirmation: ConfirmOutcome,
)
    requires
        !session.dry_activate,
    ensures
        session.after_script(outcome) matches Ok(DeployStage::Done) ==> {
            &&& outcome == Ok::<_, String>(Some(0i32))
            &&& !session.needs_confirmation()
        },
        session.after_confirmation(confirmation) matches Ok(DeployStage::Done) ==> confirmation
            is Confirmed,
        confirmation is Unconfirmed ==> (session.after_confirmation(confirmation) matches Ok(
            stage,
        ) && stage is RollBackUnconfirmed),
{
}

/// Where the confirmation of a session is put down.
pub open spec fn confirmation_file(temp_path: Seq<char>, session_id: Seq<char>) -> Seq<char> {
    path_under(temp_path, "deploy-rx-confirm-"@ + session_id)
}

/// Where the confirmation of a session is put down.
pub fn confirm_path(temp_path: &str, session_id: &str) -> (r: String)
    ensures
        r@ == confirmation_file(temp_path@, session_id@),
{
    join_path(temp_path, "deploy-rx-confirm-".to_string().concat(session_id).as_str())
}

/// A token that is made of the given bytes, which are random.
pub fn token(bytes: &[u8]) -> (r: String)
    ensures
        r@ == hex_of(bytes@),
{
    hex_text(bytes)
}

/// What was found where a confirmation is put down.
#[derive(Debug)]
pub enum ConfirmationRead {
    Contents(String),
    NotFound,
    Failed(String),
}

/// What follows on looking for a confirmation.
#[derive(Debug)]
pub enum ConfirmationStep {
    /// It is there.
    Confirmed,
    /// To look again a little later.
    LookAgain,
    /// It will not come.
    Failed(String),
}

/// What is written down is the confirmation with the given nonce.
pub open spec fn confirms(contents: Seq<char>, nonce: Seq<char>) -> bool {
    trimmed(contents) == nonce
}

/// What follows on looking for a confirmation with the given nonce, by whether
/// the time is up.
pub fn confirmation_step(read: ConfirmationRead, nonce: &str, time_is_up: bool) -> (r:
    ConfirmationStep)
    ensures
        match read {
            ConfirmationRead::Contents(contents) => if confirms(contents@, nonce@) {
                r is Confirmed
            } else {
                r matches ConfirmationStep::Failed(m) && m@ == "confirmation nonce did not match"@
            },
            ConfirmationRead::NotFound => if time_is_up {
                r matches ConfirmationStep::Failed(m) && m@ == "timeout elapsed for confirmation"@
            } else {
                r is LookAgain
            },
            ConfirmationRead::Failed(err) => r matches ConfirmationStep::Failed(m) && m@
                == "failed to read confirmation file: "@ + err@,
        },
{
    match read {
        ConfirmationRead::Contents(contents) => {
            if same_text(trim(contents.as_str()).as_str(), nonce) {
                ConfirmationStep::Confirmed
            } else {
                ConfirmationStep::Failed("confirmation nonce did not match".to_string())
            }
        },
        ConfirmationRead::NotFound => {
            if time_is_up {
                ConfirmationStep::Failed("timeout elapsed for confirmation".to_string())
            } else {
                ConfirmationStep::LookAgain
            }
        },
        ConfirmationRead::Failed(err) => ConfirmationStep::Failed(
            "failed to read confirmation file: ".to_string().concat(err.as_str()),
        ),
    }
}

/// The message where the directory for confirmations could not be made.
pub fn no_confirmation_dir(err: &str) -> (r: String)
    ensures
        r@ == "failed to create confirmation directory: "@ + err@,
{
    "failed to create confirmation directory: ".to_string().concat(err)
}

/// What is written down as the confirmation with a nonce.
pub open spec fn confirmation_text(nonce: Seq<char>) -> Seq<char> {
    nonce + "\n"@
}

/// What is written down as the confirmation with a nonce.
pub fn confirmation_contents(nonce: &str) -> (r: String)
    ensures
        r@ == confirmation_text(nonce@),
{
    nonce.to_string().concat("\n")
}

/// Whether a confirmation that is there already will do.
pub fn check_existing_confirmation(existing: &str, nonce: &str) -> (r: Result<(), String>)
    ensures
        if confirms(existing@, nonce@) {
            r is Ok
        } else {
            r matches Err(m) && m@ == "existing confirmation file has a different nonce"@
        },
{
    if !same_text(trim(existing).as_str(), nonce) {
        return Err("existing confirmation file has a different nonce".to_string());
    }
    Ok(())
}

/// What is written down as the confirmation with a nonce confirms that nonce, and
/// no other one, as long as the nonce has no white space at its ends.
pub proof fn law_confirmation_is_accepted(nonce: Seq<char>, other: Seq<char>)
    requires
        trimmed(nonce) == nonce,
    ensures
        confirms(confirmation_text(nonce), other) <==> other == nonce,
{
    reveal_strlit("\n");
    lemma_no_space_at_ends(nonce);
    law_trimmed_line(nonce, "\n"@);
}

/// A text that stays the same when white space at its ends is taken off has none.
proof fn lemma_no_space_at_ends(text: Seq<char>)
    requires
        trimmed(text) == text,
    ensures
        text.len() > 0 ==> !is_space(text[0]) && !is_space(text.last()),
{
    if text.len() > 0 {
        lemma_trimmed_lengths(text);
        lemma_trimmed_lengths(trimmed_start(text));
    }
}

proof fn lemma_trimmed_lengths(text: Seq<char>)
    ensures
        trimmed_start(text).len() <= text.len(),
        trimmed_end(text).len() <= text.len(),
        text.len() > 0 && is_space(text[0]) ==> trimmed_start(text).len() < text.len(),
        text.len() > 0 && is_space(text.last()) ==> trimmed_end(text).len() < text.len(),
    decreases text.len(),
{
    if text.len() > 0 {
        if is_space(text[0]) {
            lemma_trimmed_lengths(text.drop_first());
        }
        if is_space(text.last()) {
            lemma_trimmed_lengths(text.drop_last());
        }
    }
}

/// A token, written down as a confirmation, confirms itself.
pub proof fn law_token_is_accepted(bytes: Seq<u8>)
    ensures
        confirms(confirmation_text(hex_of(bytes)), hex_of(bytes)),
{
    reveal_strlit("\n");
    law_hex_has_no_space(bytes);
    let t = hex_of(bytes);
    if t.len() > 0 {
        assert(!is_space(t[0]));
        assert(!is_space(t[t.len() - 1]));
    }
    law_trimmed_line(t, "\n"@);
}

/// Whether both sides of a session speak the same version of the protocol.
pub fn check_version(request: &BootstrapRequest) -> (r: Result<(), String>)
    ensures
        if request.protocol_version == REMOTE_PROTOCOL_VERSION {
            r is Ok
        } else {
            r matches Err(m) && m@ == "remote protocol version mismatch: local request="@
                + decimal(request.protocol_version as nat) + ", remote="@ + decimal(
                REMOTE_PROTOCOL_VERSION as nat,
            )
        },
{
    if request.protocol_version != REMOTE_PROTOCOL_VERSION {
        return Err(
            "remote protocol version mismatch: local request=".to_string().concat(
                decimal_text(request.protocol_version as u64).as_str(),
            ).concat(", remote=").concat(decimal_text(REMOTE_PROTOCOL_VERSION as u64).as_str()),
        );
    }
    Ok(())
}

/// The directory of a session, by the process that runs it and a token.
pub fn session_dir(temp_path: &str, process_id: u32, token: &str) -> (r: String)
    ensures
        r@ == path_under(
            temp_path@,
            "deploy-rx-session-"@ + decimal(process_id as nat) + "-"@ + token@,
        ),
{
    let name = "deploy-rx-session-".to_string().concat(
        decimal_text(process_id as u64).as_str(),
    ).concat("-").concat(token);
    join_path(temp_path, name.as_str())
}

/// The file in the directory of a session that holds the operation.
pub fn request_path(session_dir: &str) -> (r: String)
    ensures
        r@ == path_under(session_dir@, "request.json"@),
{
    join_path(session_dir, "request.json")
}

/// The arguments with which the program runs itself for an operation.
pub open spec fn child_arguments(operation: RemoteOperation, request_path: Seq<char>) -> Seq<
    Seq<char>,
> {
    let (debug_logs, log_dir) = match operation {
        RemoteOperation::Deploy(request) => (request.debug_logs, opt_text(request.log_dir)),
        RemoteOperation::Revoke(request) => (request.debug_logs, opt_text(request.log_dir)),
    };
    (if debug_logs {
        seq!["--debug-logs"@]
    } else {
        Seq::empty()
    }) + (match log_dir {
        Some(dir) => seq!["--log-dir"@, dir],
        None => Seq::empty(),
    }) + seq!["privileged-session"@, "--request-path"@, request_path]
}

/// The user to whom the profile of an operation belongs.
pub open spec fn operation_user(operation: RemoteOperation) -> Seq<char> {
    match operation {
        RemoteOperation::Deploy(request) => request.profile_user@,
        RemoteOperation::Revoke(request) => request.profile_user@,
    }
}

/// The command line that runs a program as another user, or as it is where no
/// sudo command is given.
pub open spec fn as_user(
    sudo: Option<Seq<Seq<char>>>,
    user: Seq<char>,
    interactive: bool,
    program: Seq<char>,
    args: Seq<Seq<char>>,
) -> CommandLine {
    match sudo {
        Some(argv) => {
            let all = for_user(argv, user, interactive);
            command_line(all[0], all.skip(1).push(program) + args)
        },
        None => command_line(program, args),
    }
}

/// Where the standard input of a command that runs as another user comes from: a
/// password is written to it where one is asked for.
pub open spec fn password_stream(interactive: bool) -> Option<Stream> {
    if interactive {
        Some(Stream::Piped)
    } else {
        Some(Stream::Null)
    }
}

fn stdin_stream(interactive: bool) -> (r: Option<Stream>)
    ensures
        r == password_stream(interactive),
{
    if interactive {
        Some(Stream::Piped)
    } else {
        Some(Stream::Null)
    }
}

/// The command that runs a program as another user, without its arguments.
fn sudo_command(sudo: &SudoCommand, user: &str, interactive: bool, program: &str) -> (r: Command)
    ensures
        r@ == as_user(Some(sudo@), user@, interactive, program@, Seq::empty()),
{
    let argv = sudo.argv_for_user(user, interactive);
    let ghost all = texts(argv@);
    proof {
        assert(all == for_user(sudo@, user@, interactive));
        assert(all.len() > 0);
    }
    let mut command = Command::new(argv[0].as_str());
    let mut i: usize = 1;
    assert(all.subrange(1, 1) =~= Seq::empty());
    while i < argv.len()
        invariant
            1 <= i <= argv@.len(),
            all == texts(argv@),
            command@ == command_line(all[0], all.subrange(1, i as int)),
        decreases argv@.len() - i,
    {
        command = command.arg(argv[i].as_str());
        assert(all.subrange(1, i + 1) =~= all.subrange(1, i as int).push(all[i as int]));
        i += 1;
    }
    assert(all.subrange(1, all.len() as int) =~= all.skip(1));
    let r = command.arg(program);
    assert(r@.args =~= all.skip(1).push(program@) + Seq::empty());
    r
}

/// The command that carries out an operation: the program runs itself, as the
/// user to whom the profile belongs where a sudo command is given.
pub fn privileged_command(request: &BootstrapRequest, program: &str, request_path: &str) -> (r:
    Command)
    ensures
        r@ == as_user(
            opt_sudo(request.sudo),
            operation_user(request.operation),
            request.interactive_sudo,
            program@,
            child_arguments(request.operation, request_path@),
        ).with_streams(
            password_stream(request.interactive_sudo),
            Some(Stream::Inherit),
            Some(Stream::Inherit),
        ),
{
    let start = match &request.sudo {
        Some(sudo) => sudo_command(
            sudo,
            request.operation.profile_user(),
            request.interactive_sudo,
            program,
        ),
        None => Command::new(program),
    };
    let ghost before = start@.args;
    let mut command = start;
    if request.operation.debug_logs() {
        command = command.arg("--debug-logs");
    }
    if let Some(log_dir) = request.operation.log_dir() {
        command = command.arg("--log-dir").arg(log_dir);
    }
    let r = command.arg("privileged-session").arg("--request-path").arg(request_path).streams(
        stdin_stream(request.interactive_sudo),
        Some(Stream::Inherit),
        Some(Stream::Inherit),
    );
    assert(r@.args =~= before + child_arguments(request.operation, request_path@));
    assert(r@.args =~= as_user(
        opt_sudo(request.sudo),
        operation_user(request.operation),
        request.interactive_sudo,
        program@,
        child_arguments(request.operation, request_path@),
    ).args);
    r
}

/// The command that finds out whether sudo works for a confirmation, where a sudo
/// command is given.
pub fn sudo_check_command(request: &ConfirmRequest, program: &str) -> (r: Option<Command>)
    ensures
        match request.sudo {
            Some(sudo) => r matches Some(command) && command@ == as_user(
                Some(sudo@),
                request.profile_user@,
                request.interactive_sudo,
                program@,
                seq!["sudo-check"@],
            ).with_streams(
                password_stream(request.interactive_sudo),
                Some(Stream::Null),
                Some(Stream::Inherit),
            ),
            None => r is None,
        },
{
    match &request.sudo {
        Some(sudo) => {
            let command = sudo_command(
                sudo,
                request.profile_user.as_str(),
                request.interactive_sudo,
                program,
            );
            let ghost before = command@.args;
            let r = command.arg("sudo-check").streams(
                stdin_stream(request.interactive_sudo),
                Some(Stream::Null),
                Some(Stream::Inherit),
            );
            proof {
                let all = for_user(sudo@, request.profile_user@, request.interactive_sudo);
                assert(r@.args =~= all.skip(1).push(program@) + seq!["sudo-check"@]);
            }
            Some(r)
        },
        None => None,
    }
}

/// What is written to a command that asks for a password.
pub fn password_line(password: &Option<String>) -> (r: String)
    ensures
        r@ == (match opt_text(*password) {
            Some(text) => text,
            None => Seq::empty(),
        }) + "\n"@,
{
    match password {
        Some(text) => text.clone().concat("\n"),
        None => String::new().concat("\n"),
    }
}

/// What carrying out an operation comes to, by how the command for it exited.
pub fn conclude_privileged(success: bool, code: Option<i32>) -> (r: Result<(), String>)
    ensures
        if success {
            r is Ok
        } else {
            r matches Err(m) && m@ == "privileged session exited with status "@ + shown_code(code)
        },
{
    if !success {
        return Err(
            "privileged session exited with status ".to_string().concat(code_text(code).as_str()),
        );
    }
    Ok(())
}

/// What finding out whether sudo works comes to, by how the command for it exited.
pub fn conclude_sudo_check(success: bool, code: Option<i32>) -> (r: Result<(), String>)
    ensures
        if success {
            r is Ok
        } else {
            r matches Err(m) && m@ == "sudo confirmation check failed with status "@ + shown_code(
                code,
            )
        },
{
    if !success {
        return Err(
            "sudo confirmation check failed with status ".to_string().concat(
                code_text(code).as_str(),
            ),
        );
    }
    Ok(())
}

/// A session takes over from its request what it is asked for.
pub proof fn law_session_is_what_was_requested(request: RemoteDeployRequest, r: DeploySession)
    requires
        call_ensures(DeploySession::new, (&request,), r),
    ensures
        r.review_changes == request.review_changes,
        r.dry_activate == request.dry_activate,
        r.boot == request.boot,
        r.auto_rollback == request.auto_rollback,
        r.magic_rollback == request.magic_rollback,
        r.activation_timeout == request.activation_timeout,
{
}

/// A session that is not dry sets the profile, and runs the activation script once
/// that is set, whatever else is asked for: up to the script it is not done, nor
/// does it wait for a confirmation. Changes are shown first exactly where that is
/// asked for.
pub proof fn law_set_profile_is_followed_by_the_script(
    session: DeploySession,
    first: SessionStage,
    reviewed: SessionStage,
    outcome: Result<Option<i32>, String>,
    r: Result<SessionStage, SessionError>,
)
    requires
        call_ensures(DeploySession::start, (&session,), first),
        call_ensures(DeploySession::reviewed, (&session,), reviewed),
        call_ensures(DeploySession::profile_set, (&session, outcome), r),
    ensures
        session.review_changes <==> first is Review,
        !session.review_changes ==> first@ == reviewed@,
        !session.dry_activate <==> reviewed is SetProfile,
        session.dry_activate <==> reviewed is RunScript,
        outcome == Ok::<_, String>(Some(0i32)) <==> (r is Ok && r->Ok_0 is RunScript),
        outcome != Ok::<_, String>(Some(0i32)) ==> if session.auto_rollback {
            r is Ok && r->Ok_0 is RollBack
        } else {
            r is Err && !(r->Err_0->rolled_back)
        },
{
}

/// A session that is not dry is done with its script only where that exited with
/// zero; where it can then be taken back it waits for its confirmation, and it does
/// so nowhere else. A dry session is done, whatever its script did.
pub proof fn law_script_decides_on_the_session(
    session: DeploySession,
    outcome: Result<Option<i32>, String>,
    r: Result<SessionStage, SessionError>,
)
    requires
        call_ensures(DeploySession::script_run, (&session, outcome), r),
    ensures
        session.dry_activate ==> r is Ok && r->Ok_0 is Done,
        !session.dry_activate && outcome == Ok::<_, String>(Some(0i32)) ==> {
            &&& r is Ok
            &&& session.magic_rollback && !session.boot ==> r->Ok_0 is Confirm
            &&& !session.magic_rollback || session.boot ==> r->Ok_0 is Done
        },
        !session.dry_activate && outcome != Ok::<_, String>(Some(0i32)) ==> if session.auto_rollback {
            r is Ok && r->Ok_0 is RollBack
        } else {
            r is Err && !(r->Err_0->rolled_back)
        },
{
}

/// A failure is reported with what went wrong: with the exit code, or with the reason
/// why there is none. Nothing is added where it is taken back.
pub proof fn law_failures_say_what_went_wrong(
    session: DeploySession,
    outcome: Result<Option<i32>, String>,
    set: Result<SessionStage, SessionError>,
    run: Result<SessionStage, SessionError>,
)
    requires
        call_ensures(DeploySession::profile_set, (&session, outcome), set),
        call_ensures(DeploySession::script_run, (&session, outcome), run),
        !session.dry_activate,
        outcome != Ok::<_, String>(Some(0i32)),
    ensures
        ({
            let said = if session.auto_rollback {
                set->Ok_0->RollBack_message@
            } else {
                set->Err_0->message@
            };
            match outcome {
                Ok(code) => said == "setting profile resulted in a bad exit code: "@ + shown_code(
                    code,
                ),
                Err(why) => said == why@,
            }
        }),
        ({
            let said = if session.auto_rollback {
                run->Ok_0->RollBack_message@
            } else {
                run->Err_0->message@
            };
            match outcome {
                Ok(code) => said == "activation script resulted in a bad exit code: "@
                    + shown_code(code),
                Err(why) => said == why@,
            }
        }),
{
}

/// The script may take as long as is asked for exactly where its session can still be
/// taken back for want of a confirmation, and as long as it likes elsewhere.
pub proof fn law_script_is_limited_where_it_is_confirmed(
    session: DeploySession,
    limit: Option<u16>,
    r: Result<SessionStage, SessionError>,
)
    requires
        call_ensures(DeploySession::script_timeout, (&session,), limit),
        call_ensures(DeploySession::script_run, (&session, Ok(Some(0i32))), r),
    ensures
        r is Ok && r->Ok_0 is Confirm ==> limit == session.activation_timeout,
        !(r is Ok && r->Ok_0 is Confirm) ==> limit is None,
{
}

/// A session ends well by its confirmation alone. Where the question was asked and no
/// answer came it is taken back; where it could not be asked it is not, and the
/// reason is reported.
pub proof fn law_confirmation_decides_on_the_session(
    session: DeploySession,
    outcome: ConfirmOutcome,
    r: Result<SessionStage, SessionError>,
)
    requires
        call_ensures(DeploySession::confirmation_awaited, (&session, outcome), r),
    ensures
        outcome is Confirmed <==> (r is Ok && r->Ok_0 is Done),
        outcome matches ConfirmOutcome::Unconfirmed(why) ==> (r matches Ok(
            SessionStage::RollBackUnconfirmed { why: reason },
        ) && reason@ == outcome->Unconfirmed_0@),
        outcome matches ConfirmOutcome::NoSessionId(why) ==> (r matches Err(
            SessionError::Failed { message, rolled_back },
        ) && !rolled_back && message@ == "failed to generate session id: "@
            + outcome->NoSessionId_0@),
        outcome matches ConfirmOutcome::NoNonce(why) ==> (r matches Err(
            SessionError::Failed { message, rolled_back },
        ) && !rolled_back && message@ == "failed to generate nonce: "@ + outcome->NoNonce_0@),
        outcome matches ConfirmOutcome::NotSent(why) ==> (r matches Err(
            SessionError::Failed { message, rolled_back },
        ) && !rolled_back && message@ == "failed to send confirmation event: "@
            + outcome->NotSent_0@),
{
}

/// What was taken back is reported as taken back, with the reason for it, and so is
/// what could not be taken back for want of a confirmation.
pub proof fn law_taking_back_is_reported(
    message: String,
    why: String,
    back: Result<(), String>,
    failed: SessionError,
    unanswered: SessionError,
)
    requires
        call_ensures(rolled_back, (message,), failed),
        call_ensures(unconfirmed, (why, back), unanswered),
    ensures
        failed->rolled_back && failed->message@ == message@,
        unanswered->rolled_back,
        back is Ok ==> unanswered->message@ == "confirmation failed: "@ + why@,
        back is Err ==> unanswered->message@ == "confirmation failed: "@ + why@
            + "; rollback also failed: "@ + back->Err_0@,
{
}

/// What a session reports at its end tells success from failure, and says whether
/// anything was taken back only of a failure, with the message of either.
pub proof fn law_end_is_reported_as_it_is(
    result: Result<String, SessionError>,
    r: RemoteEvent,
    back: Result<(), String>,
    revoked: Result<String, SessionError>,
)
    requires
        call_ensures(finished_event, (result,), r),
        call_ensures(conclude_revoke, (back,), revoked),
    ensures
        r matches RemoteEvent::Finished { ok, rolled_back, message } && match result {
            Ok(text) => ok && !rolled_back && message@ == text@,
            Err(SessionError::Failed { message: why, rolled_back: back }) => {
                !ok && rolled_back == back && message@ == why@
            },
        },
        back is Ok <==> revoked is Ok,
        back matches Err(why) ==> (revoked matches Err(
            SessionError::Failed { message, rolled_back },
        ) && !rolled_back && message@ == back->Err_0@),
{
}

/// Going back in a session takes its stages in order, each one only after the command
/// of the one before exited with zero, and the generation that is deleted is the one
/// that the list names. Nothing is deleted by a list that names none.
pub proof fn law_session_goes_back_in_order(
    stage: DeactivateStage,
    outcome: Result<Output, String>,
    r: Result<DeactivateStage, String>,
    list: &str,
    named: Result<String, GenerationFault>,
)
    requires
        call_ensures(deactivate_session, (stage, outcome), r),
        call_ensures(last_generation, (list,), named),
        !(stage is Done),
    ensures
        r is Ok ==> outcome is Ok && outcome->Ok_0.code == Some(0i32),
        r is Ok ==> match stage {
            DeactivateStage::Rollback => r->Ok_0 is ListGenerations,
            DeactivateStage::ListGenerations => r->Ok_0 is DeleteGeneration,
            DeactivateStage::DeleteGeneration(_) => r->Ok_0 is Reactivate,
            _ => r->Ok_0 is Done,
        },
        outcome is Ok && outcome->Ok_0.code == Some(0i32) && !(stage is ListGenerations)
            ==> r is Ok,
        outcome is Ok && outcome->Ok_0.code == Some(0i32) && stage is ListGenerations
            && valid_utf8(outcome->Ok_0.stdout@) && decode_utf8(outcome->Ok_0.stdout@) == list@
            ==> {
            &&& r is Ok <==> named is Ok
            &&& r matches Ok(DeactivateStage::DeleteGeneration(id)) ==> id@ == named->Ok_0@
        },
        outcome matches Err(why) ==> (r matches Err(message) && message@ == outcome->Err_0@),
{
}

/// A confirmation is there where what was put down holds the nonce, with white space
/// around it or without; anything else that was put down is none and ends the wait. A
/// confirmation that is not there yet is waited for until the time is up.
pub proof fn law_only_the_nonce_confirms(
    lead: Seq<char>,
    text: Seq<char>,
    end: Seq<char>,
    contents: String,
    nonce: &str,
    time_is_up: bool,
    found: ConfirmationStep,
    missing: ConfirmationStep,
)
    requires
        contents@ == lead + text + end,
        forall|i: int| 0 <= i < lead.len() ==> is_space(#[trigger] lead[i]),
        text.len() > 0 ==> !is_space(text[0]) && !is_space(text.last()),
        forall|i: int| 0 <= i < end.len() ==> is_space(#[trigger] end[i]),
        call_ensures(
            confirmation_step,
            (ConfirmationRead::Contents(contents), nonce, time_is_up),
            found,
        ),
        call_ensures(confirmation_step, (ConfirmationRead::NotFound, nonce, time_is_up), missing),
    ensures
        text == nonce@ ==> found is Confirmed,
        text != nonce@ ==> found is Failed,
        time_is_up ==> missing is Failed,
        !time_is_up ==> missing is LookAgain,
{
    law_only_ends_are_trimmed(lead, text, end);
}

/// A confirmation that is there already will do exactly where it would be accepted.
pub proof fn law_existing_confirmation_will_do_where_accepted(
    existing: &str,
    contents: String,
    nonce: &str,
    time_is_up: bool,
    found: ConfirmationStep,
    r: Result<(), String>,
)
    requires
        contents@ == existing@,
        call_ensures(
            confirmation_step,
            (ConfirmationRead::Contents(contents), nonce, time_is_up),
            found,
        ),
        call_ensures(check_existing_confirmation, (existing, nonce), r),
    ensures
        r is Ok <==> found is Confirmed,
{
}

/// The confirmation that is put down with a nonce is accepted by whoever waits for
/// that nonce, in the file that both sides know by the session.
pub proof fn law_confirmation_reaches_its_session(
    nonce: &str,
    contents: String,
    time_is_up: bool,
    found: ConfirmationStep,
)
    requires
        nonce@.len() > 0 ==> !is_space(nonce@[0]) && !is_space(nonce@.last()),
        call_ensures(confirmation_contents, (nonce,), contents),
        call_ensures(
            confirmation_step,
            (ConfirmationRead::Contents(contents), nonce, time_is_up),
            found,
        ),
    ensures
        found is Confirmed,
{
    reveal_strlit("\n");
    law_trimmed_line(nonce@, "\n"@);
}

/// Sessions with different ids wait for different files in the same directory, which
/// stand in that directory.
pub proof fn law_sessions_wait_for_their_own_files(
    temp_path: &str,
    session_id: &str,
    other_id: &str,
    r: String,
    other: String,
)
    requires
        call_ensures(confirm_path, (temp_path, session_id), r),
        call_ensures(confirm_path, (temp_path, other_id), other),
    ensures
        r@ == other@ ==> session_id@ == other_id@,
        temp_path@.is_prefix_of(r@),
        session_id@.is_suffix_of(r@),
        temp_path@.len() > 0 && temp_path@.last() != '/' ==> r@ == temp_path@
            + "/deploy-rx-confirm-"@ + session_id@,
{
    reveal_strlit("deploy-rx-confirm-");
    reveal_strlit("/deploy-rx-confirm-");
    let name = "deploy-rx-confirm-"@ + session_id@;
    let other_name = "deploy-rx-confirm-"@ + other_id@;
    assert(name[0] == 'd' && other_name[0] == 'd');
    let n = r@.len() - session_id@.len();
    assert(r@.skip(n) =~= session_id@);
    if r@ == other@ {
        assert(other@.skip(other@.len() - other_id@.len()) =~= other_id@);
        assert(session_id@.len() == other_id@.len());
    }
    assert(r@.subrange(0, temp_path@.len() as int) =~= temp_path@);
    assert(r@.subrange(n, r@.len() as int) =~= session_id@);
    if temp_path@.len() > 0 && temp_path@.last() != '/' {
        assert(r@ =~= temp_path@ + "/deploy-rx-confirm-"@ + session_id@);
    }
}

/// Only requests of the same version of the protocol are carried out.
pub proof fn law_versions_have_to_agree(request: BootstrapRequest, r: Result<(), String>)
    requires
        call_ensures(check_version, (&request,), r),
    ensures
        r is Ok <==> request.protocol_version == 1,
{
}

/// An operation is carried out as the user to whom its profile belongs exactly where
/// a sudo command is given, and by the program itself otherwise. The password can be
/// written to it where one is asked for.
pub proof fn law_operation_runs_as_its_user(
    request: BootstrapRequest,
    program: &str,
    request_path: &str,
    r: Command,
    user: &str,
)
    requires
        call_ensures(privileged_command, (&request, program, request_path), r),
        call_ensures(RemoteOperation::profile_user, (&request.operation,), user),
    ensures
        request.sudo is None ==> r.program@ == program@,
        request.sudo is Some ==> {
            let argv = for_user(request.sudo->0@, user@, request.interactive_sudo);
            &&& r.program@ == argv[0]
            &&& argv.skip(1).push(program@).is_prefix_of(texts(r.args@))
        },
        r.args@.len() >= 3,
        r.args@.last()@ == request_path@,
        r.args@[r.args@.len() - 2]@ == "--request-path"@,
        r.args@[r.args@.len() - 3]@ == "privileged-session"@,
        r.stdin == Some(
            if request.interactive_sudo {
                Stream::Piped
            } else {
                Stream::Null
            },
        ),
        r.stdout == Some(Stream::Inherit),
        r.stderr == Some(Stream::Inherit),
{
    let line = r@;
    let n = line.args.len() as int;
    let child = child_arguments(request.operation, request_path@);
    let m = child.len() as int;
    assert(child.len() >= 3);
    assert(child[m - 1] == request_path@);
    assert(child[m - 2] == "--request-path"@);
    assert(child[m - 3] == "privileged-session"@);
    assert(line.args.len() == r.args@.len());
    assert(line.args[n - 1] == child[m - 1]);
    assert(line.args[n - 2] == child[m - 2]);
    assert(line.args[n - 3] == child[m - 3]);
    if request.sudo is Some {
        let start = for_user(request.sudo->0@, user@, request.interactive_sudo).skip(1).push(
            program@,
        );
        assert(texts(r.args@).subrange(0, start.len() as int) =~= start);
    }
}

/// The program is told to log as it does itself: debug messages exactly where they are
/// asked for, and to the directory that is given.
pub proof fn law_logging_is_handed_on(operation: RemoteOperation, request_path: Seq<char>)
    ensures
        ({
            let args = child_arguments(operation, request_path);
            let (debug_logs, log_dir) = match operation {
                RemoteOperation::Deploy(request) => (request.debug_logs, request.log_dir),
                RemoteOperation::Revoke(request) => (request.debug_logs, request.log_dir),
            };
            &&& debug_logs <==> args[0] == "--debug-logs"@
            &&& log_dir matches Some(dir) ==> exists|i: int|
                0 <= i < args.len() - 1 && #[trigger] args[i] == "--log-dir"@ && args[i + 1]
                    == dir@
            &&& log_dir is None ==> args.len() == (if debug_logs {
                4int
            } else {
                3int
            })
        }),
{
    reveal_strlit("--debug-logs");
    reveal_strlit("--log-dir");
    reveal_strlit("privileged-session");
    assert("--debug-logs"@.len() == 12);
    assert("--log-dir"@.len() == 9);
    assert("privileged-session"@.len() == 18);
    let args = child_arguments(operation, request_path);
    let (debug_logs, log_dir) = match operation {
        RemoteOperation::Deploy(request) => (request.debug_logs, request.log_dir),
        RemoteOperation::Revoke(request) => (request.debug_logs, request.log_dir),
    };
    if log_dir is Some {
        let i: int = if debug_logs {
            1
        } else {
            0
        };
        assert(args[i] == "--log-dir"@);
        assert(args[i + 1] == log_dir->0@);
    }
}

/// Whether sudo works is found out by the same sudo command and as the same user as
/// the operation itself is carried out, and not at all without a sudo command.
pub proof fn law_sudo_is_tried_as_it_is_used(
    request: ConfirmRequest,
    program: &str,
    r: Option<Command>,
)
    requires
        call_ensures(sudo_check_command, (&request, program), r),
    ensures
        r is Some <==> request.sudo is Some,
        r matches Some(command) ==> {
            let argv = for_user(request.sudo->0@, request.profile_user@, request.interactive_sudo);
            &&& command.program@ == argv[0]
            &&& texts(command.args@) == argv.skip(1).push(program@).push("sudo-check"@)
            &&& command.stdin == Some(
                if request.interactive_sudo {
                    Stream::Piped
                } else {
                    Stream::Null
                },
            )
        },
{
    if request.sudo is Some {
        let argv = for_user(request.sudo->0@, request.profile_user@, request.interactive_sudo);
        assert(texts(r->0.args@) =~= argv.skip(1).push(program@).push("sudo-check"@));
    }
}

/// A password is written as one line; without one that line is empty.
pub proof fn law_password_is_one_line(password: Option<String>, r: String)
    requires
        call_ensures(password_line, (&password,), r),
    ensures
        r@.len() > 0 && r@.last() == '\n',
        password matches Some(text) ==> r@.drop_last() == text@,
        password is None ==> r@.len() == 1,
{
    reveal_strlit("\n");
    if password is Some {
        assert(r@.drop_last() =~= password->0@);
    }
}

/// What runs as another user has succeeded exactly where its command did.
pub proof fn law_success_is_that_of_the_command(
    success: bool,
    code: Option<i32>,
    carried_out: Result<(), String>,
    tried: Result<(), String>,
)
    requires
        call_ensures(conclude_privileged, (success, code), carried_out),
        call_ensures(conclude_sudo_check, (success, code), tried),
    ensures
        carried_out is Ok <==> success,
        tried is Ok <==> success,
{
}

/// A stage of going back in a session that failed is reported with its exit code, and
/// output that is no text with what is wrong with it.
pub proof fn law_failed_going_back_is_reported(
    stage: DeactivateStage,
    output: Output,
    r: Result<DeactivateStage, String>,
)
    requires
        call_ensures(deactivate_session, (stage, Ok(output)), r),
        !(stage is Done),
    ensures
        output.code != Some(0i32) ==> r is Err && shown_code(output.code).is_suffix_of(
            r->Err_0@,
        ),
        output.code != Some(0i32) ==> match stage {
            DeactivateStage::Rollback => "rollback"@.is_prefix_of(r->Err_0@),
            DeactivateStage::ListGenerations => "listing generations"@.is_prefix_of(r->Err_0@),
            DeactivateStage::DeleteGeneration(_) => "deleting generations"@.is_prefix_of(
                r->Err_0@,
            ),
            _ => "re-activating"@.is_prefix_of(r->Err_0@),
        },
        output.code == Some(0i32) && stage is ListGenerations && !valid_utf8(output.stdout@) ==> r
            is Err && utf8_fault(output.stdout@).is_suffix_of(r->Err_0@),
{
    if output.code != Some(0i32) {
        let message = r->Err_0@;
        let code = shown_code(output.code);
        let n = message.len() - code.len();
        assert(message.subrange(n, message.len() as int) =~= code);
        match stage {
            DeactivateStage::Rollback => {
                reveal_strlit("rollback");
                reveal_strlit("rollback resulted in a bad exit code: ");
                assert(message.subrange(0, 8) =~= "rollback"@);
            },
            DeactivateStage::ListGenerations => {
                reveal_strlit("listing generations");
                reveal_strlit("listing generations resulted in a bad exit code: ");
                assert(message.subrange(0, 19) =~= "listing generations"@);
            },
            DeactivateStage::DeleteGeneration(_) => {
                reveal_strlit("deleting generations");
                reveal_strlit("deleting generations resulted in a bad exit code: ");
                assert(message.subrange(0, 20) =~= "deleting generations"@);
            },
            _ => {
                reveal_strlit("re-activating");
                reveal_strlit("re-activating the last generation resulted in a bad exit code: ");
                assert(message.subrange(0, 13) =~= "re-activating"@);
            },
        }
    } else if stage is ListGenerations && !valid_utf8(output.stdout@) {
        let message = r->Err_0@;
        let fault = utf8_fault(output.stdout@);
        assert(message.subrange(message.len() - fault.len(), message.len() as int) =~= fault);
    }
}

/// The directory of a session stands in the one for temporary files, and is named by the
/// process and the token; what is asked stands in a file in it.
pub proof fn law_session_has_a_directory_of_its_own(
    temp_path: &str,
    process_id: u32,
    token: &str,
    dir: String,
    session_dir_text: &str,
    file: String,
)
    requires
        call_ensures(session_dir, (temp_path, process_id, token), dir),
        session_dir_text@ == dir@,
        call_ensures(request_path, (session_dir_text,), file),
        temp_path@.len() > 0 && temp_path@.last() != '/',
        token@.len() > 0 && token@.last() != '/',
    ensures
        dir@ == temp_path@ + "/deploy-rx-session-"@ + decimal(process_id as nat) + "-"@ + token@,
        file@ == dir@ + "/request.json"@,
{
    reveal_strlit("deploy-rx-session-");
    reveal_strlit("/deploy-rx-session-");
    reveal_strlit("request.json");
    reveal_strlit("/request.json");
    assert(dir@ =~= temp_path@ + "/deploy-rx-session-"@ + decimal(process_id as nat) + "-"@
        + token@);
    assert(dir@.last() == token@.last());
    assert(file@ =~= dir@ + "/request.json"@);
}

/// A session greets with the version of the protocol that it accepts.
pub proof fn law_greeting_is_in_the_accepted_version(
    r: RemoteEvent,
    request: BootstrapRequest,
    accepted: Result<(), String>,
)
    requires
        call_ensures(hello_event, (), r),
        call_ensures(check_version, (&request,), accepted),
    ensures
        r is Hello,
        accepted is Ok <==> request.protocol_version == r->protocol_version,
{
}

/// Different random bytes make different tokens, with two digits for each byte.
pub proof fn law_tokens_differ(bytes: &[u8], others: &[u8], r: String, other: String)
    requires
        call_ensures(token, (bytes,), r),
        call_ensures(token, (others,), other),
    ensures
        r@ == other@ ==> bytes@ == others@,
        r@.len() == 2 * bytes@.len(),
{
    law_hex_length(bytes@);
    if r@ == other@ {
        law_hex_is_injective(bytes@, others@);
    }
}

/// What is said of a command that failed ends in why it did.
pub proof fn law_command_says_why_it_failed(e: CommandFault, r: String)
    requires
        call_ensures(CommandFault::message, (&e,), r),
    ensures
        match e {
            CommandFault::Spawn(why) => why@.is_suffix_of(r@),
            CommandFault::Run(why) => why@.is_suffix_of(r@),
            CommandFault::Wait(why) => why@.is_suffix_of(r@),
            CommandFault::TimedOut(seconds) =>
                (decimal(seconds as nat) + " seconds"@).is_suffix_of(r@),
            CommandFault::ForwardStdout(why) => why@.is_suffix_of(r@),
            CommandFault::ForwardStderr(why) => why@.is_suffix_of(r@),
        },
{
    match e {
        CommandFault::Spawn(why) => {
            lemma_ends_in(why@);
        },
        CommandFault::Run(why) => {
            lemma_ends_in(why@);
        },
        CommandFault::Wait(why) => {
            lemma_ends_in(why@);
        },
        CommandFault::TimedOut(seconds) => {
            lemma_ends_in_parts(decimal(seconds as nat), " seconds"@, Seq::empty());
        },
        CommandFault::ForwardStdout(why) => {
            lemma_ends_in(why@);
        },
        CommandFault::ForwardStderr(why) => {
            lemma_ends_in(why@);
        },
    }
}

/// What went wrong before or beside the activation is said with why it did, and is
/// reported as not taken back.
pub proof fn law_early_failures_say_why(
    err: &str,
    request: BootstrapRequest,
    code: Option<i32>,
    path: SessionError,
    dir: String,
    version: Result<(), String>,
    privileged: Result<(), String>,
    checked: Result<(), String>,
)
    requires
        call_ensures(no_profile_path, (err,), path),
        call_ensures(no_confirmation_dir, (err,), dir),
        call_ensures(check_version, (&request,), version),
        call_ensures(conclude_privileged, (false, code), privileged),
        call_ensures(conclude_sudo_check, (false, code), checked),
    ensures
        err@.is_suffix_of(path->message@) && !path->rolled_back,
        err@.is_suffix_of(dir@),
        version is Err ==> (decimal(request.protocol_version as nat) + ", remote="@ + decimal(
            1,
        )).is_suffix_of(version->Err_0@),
        privileged is Err && shown_code(code).is_suffix_of(privileged->Err_0@),
        checked is Err && shown_code(code).is_suffix_of(checked->Err_0@),
{
    lemma_ends_in(err@);
    lemma_ends_in(shown_code(code));
    lemma_ends_in_parts(decimal(request.protocol_version as nat), ", remote="@, decimal(1));
}

} // verus!
