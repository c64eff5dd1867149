//! What the deploying machine and the machine that is deployed to tell each
//! other.
use vstd::prelude::*;

use crate::sudo::SudoCommand;
use crate::text::{opt_str, opt_text};

verus! {

/// The version of the protocol that both sides have to speak.
pub const REMOTE_PROTOCOL_VERSION: u16 = 1;

/// The profile that is to be set.
#[derive(Debug, Clone)]
pub enum ProfileTarget {
    ProfilePath { profile_path: String },
    ProfileUserAndName { profile_user: String, profile_name: String },
}

/// A request to activate a profile.
#[derive(Debug, Clone)]
pub struct RemoteDeployRequest {
    pub closure: String,
    pub profile: ProfileTarget,
    pub profile_user: String,
    pub review_changes: bool,
    pub dry_activate: bool,
    pub boot: bool,
    pub auto_rollback: bool,
    pub magic_rollback: bool,
    pub confirm_timeout: u16,
    pub activation_timeout: Option<u16>,
    pub temp_path: String,
    pub debug_logs: bool,
    pub log_dir: Option<String>,
}

/// A request to go back to the generation before the last one.
#[derive(Debug, Clone)]
pub struct RemoteRevokeRequest {
    pub closure: String,
    pub profile: ProfileTarget,
    pub profile_user: String,
    pub temp_path: String,
    pub debug_logs: bool,
    pub log_dir: Option<String>,
}

/// What the remote machine is asked to do.
#[derive(Debug, Clone)]
pub enum RemoteOperation {
    Deploy(RemoteDeployRequest),
    Revoke(RemoteRevokeRequest),
}

impl RemoteOperation {
    /// The closure that the operation is about.
    pub fn closure(&self) -> (r: &str)
        ensures
            r@ == (match *self {
                RemoteOperation::Deploy(request) => request.closure@,
                RemoteOperation::Revoke(request) => request.closure@,
            }),
    {
        match self {
            RemoteOperation::Deploy(request) => request.closure.as_str(),
            RemoteOperation::Revoke(request) => request.closure.as_str(),
        }
    }

    /// The user to whom the profile belongs.
    pub fn profile_user(&self) -> (r: &str)
        ensures
            r@ == (match *self {
                RemoteOperation::Deploy(request) => request.profile_user@,
                RemoteOperation::Revoke(request) => request.profile_user@,
            }),
    {
        match self {
            RemoteOperation::Deploy(request) => request.profile_user.as_str(),
            RemoteOperation::Revoke(request) => request.profile_user.as_str(),
        }
    }

    /// The directory for temporary files.
    pub fn temp_path(&self) -> (r: &str)
        ensures
            r@ == (match *self {
                RemoteOperation::Deploy(request) => request.temp_path@,
                RemoteOperation::Revoke(request) => request.temp_path@,
            }),
    {
        match self {
            RemoteOperation::Deploy(request) => request.temp_path.as_str(),
            RemoteOperation::Revoke(request) => request.temp_path.as_str(),
        }
    }

    /// Whether debug messages are logged.
    pub fn debug_logs(&self) -> (r: bool)
        ensures
            r == (match *self {
                RemoteOperation::Deploy(request) => request.debug_logs,
                RemoteOperation::Revoke(request) => request.debug_logs,
            }),
    {
        match self {
            RemoteOperation::Deploy(request) => request.debug_logs,
            RemoteOperation::Revoke(request) => request.debug_logs,
        }
    }

    /// The directory that logs are written to.
    pub fn log_dir(&self) -> (r: Option<&str>)
        ensures
            opt_str(r) == (match *self {
                RemoteOperation::Deploy(request) => opt_text(request.log_dir),
                RemoteOperation::Revoke(request) => opt_text(request.log_dir),
            }),
    {
        let log_dir = match self {
            RemoteOperation::Deploy(request) => &request.log_dir,
            RemoteOperation::Revoke(request) => &request.log_dir,
        };
        match log_dir {
            Some(dir) => Some(dir.as_str()),
            None => None,
        }
    }
}

/// What a session on the remote machine starts with.
#[derive(Debug, Clone)]
pub struct BootstrapRequest {
    pub protocol_version: u16,
    pub sudo: Option<SudoCommand>,
    pub sudo_password: Option<String>,
    pub interactive_sudo: bool,
    pub operation: RemoteOperation,
}

/// What confirms an activation that waits for it.
#[derive(Debug, Clone)]
pub struct ConfirmRequest {
    pub temp_path: String,
    pub session_id: String,
    pub nonce: String,
    pub sudo: Option<SudoCommand>,
    pub sudo_password: Option<String>,
    pub interactive_sudo: bool,
    pub profile_user: String,
}

/// What the remote machine reports.
#[derive(Debug, Clone)]
pub enum RemoteEvent {
    Hello { protocol_version: u16 },
    AwaitingConfirm { session_id: String, nonce: String },
    Finished { ok: bool, rolled_back: bool, message: String },
}

/// What is known of an operation is what its own request says.
pub proof fn law_operation_is_its_request(
    deploy: RemoteDeployRequest,
    revoke: RemoteRevokeRequest,
    operation: RemoteOperation,
    closure: &str,
    user: &str,
    temp_path: &str,
    debug_logs: bool,
    log_dir: Option<&str>,
)
    requires
        call_ensures(RemoteOperation::closure, (&operation,), closure),
        call_ensures(RemoteOperation::profile_user, (&operation,), user),
        call_ensures(RemoteOperation::temp_path, (&operation,), temp_path),
        call_ensures(RemoteOperation::debug_logs, (&operation,), debug_logs),
        call_ensures(RemoteOperation::log_dir, (&operation,), log_dir),
    ensures
        operation == RemoteOperation::Deploy(deploy) ==> {
            &&& closure@ == deploy.closure@
            &&& user@ == deploy.profile_user@
            &&& temp_path@ == deploy.temp_path@
            &&& debug_logs == deploy.debug_logs
            &&& opt_str(log_dir) == opt_text(deploy.log_dir)
        },
        operation == RemoteOperation::Revoke(revoke) ==> {
            &&& closure@ == revoke.closure@
            &&& user@ == revoke.profile_user@
            &&& temp_path@ == revoke.temp_path@
            &&& debug_logs == revoke.debug_logs
            &&& opt_str(log_dir) == opt_text(revoke.log_dir)
        },
{
}

} // verus!
