//! The deploying side of a session on a remote machine: what is run there over
//! SSH, what it is asked, and what its events mean.
use vstd::prelude::*;

use crate::command::{command_line, Command, Stream};
use crate::data::opt_sudo;
use crate::deployment::{
    deploy_data_defs_error_text, switch, switched, DeployData, DeployDataDefsError, DeployDefs,
    ProfileInfo,
};
use crate::remote_protocol::{
    BootstrapRequest, ConfirmRequest, ProfileTarget, RemoteDeployRequest, RemoteEvent,
    RemoteOperation, RemoteRevokeRequest, REMOTE_PROTOCOL_VERSION,
};
use crate::sudo::{
    clone_opt_sudo, is_plain_word, legacy_words, lemma_plain_word, split_from, Quote,
    SudoParseError,
};
use crate::text::{
    clone_opt_text, code_text, decimal, decimal_text, has_char, has_text, is_space, joined,
    law_only_ends_are_trimmed, lemma_ends_in, lemma_ends_in_parts, occurs_in, opt_str, opt_text,
    replace_char, same_text, shown_code, starts_with, texts, trim, trimmed, with_replaced,
};

verus! {

/// The profile that a remote machine is to set.
pub fn profile_target(profile_info: ProfileInfo) -> (r: ProfileTarget)
    ensures
        r == (match profile_info {
            ProfileInfo::ProfilePath { profile_path } => ProfileTarget::ProfilePath {
                profile_path,
            },
            ProfileInfo::ProfileUserAndName { profile_user, profile_name } =>
                ProfileTarget::ProfileUserAndName { profile_user, profile_name },
        }),
{
    match profile_info {
        ProfileInfo::ProfilePath { profile_path } => ProfileTarget::ProfilePath { profile_path },
        ProfileInfo::ProfileUserAndName { profile_user, profile_name } => {
            ProfileTarget::ProfileUserAndName { profile_user, profile_name }
        },
    }
}

/// `value` in single quotes, where a single quote inside is written as an
/// escaped one between two quoted parts.
pub open spec fn shell_quoted(value: Seq<char>) -> Seq<char> {
    "'"@ + with_replaced(value, '\'', "'\\''"@) + "'"@
}

/// `value` as one word of a shell command.
pub fn shell_quote(value: &str) -> (r: String)
    ensures
        r@ == shell_quoted(value@),
{
    "'".to_string().concat(replace_char(value, '\'', "'\\''").as_str()).concat("'")
}

/// What stands between single quotes, read inside of them up to `rest`.
proof fn lemma_replaced_is_read(
    value: Seq<char>,
    rest: Seq<char>,
    text: Seq<char>,
    words: Seq<Seq<char>>,
)
    ensures
        split_from(
            with_replaced(value, '\'', "'\\''"@) + rest,
            Quote::Single,
            Some(text),
            words,
        ) == split_from(rest, Quote::Single, Some(text + value), words),
    decreases value.len(),
{
    reveal_strlit("'\\''");
    let by = "'\\''"@;
    if value.len() == 0 {
        assert(with_replaced(value, '\'', by) + rest == rest);
        assert(text + value == text);
    } else {
        let init = value.drop_last();
        let c = value.last();
        let last = if c == '\'' {
            by
        } else {
            seq![c]
        };
        assert(with_replaced(value, '\'', by) + rest == with_replaced(init, '\'', by) + (last
            + rest));
        lemma_replaced_is_read(init, last + rest, text, words);
        let read = text + init;
        assert(read.push(c) == text + value);
        let r0 = last + rest;
        assert(r0[0] == last[0]);
        if c == '\'' {
            let r1 = r0.drop_first();
            assert(r1 == seq!['\\', '\'', '\''] + rest);
            let r2 = r1.drop_first().drop_first();
            assert(r1.drop_first()[0] == '\'');
            assert(r2 == seq!['\''] + rest);
            assert(r2.drop_first() == rest);
            assert(split_from(r0, Quote::Single, Some(read), words) == split_from(
                r1,
                Quote::No,
                Some(read),
                words,
            ));
            assert(split_from(r1, Quote::No, Some(read), words) == split_from(
                r2,
                Quote::No,
                Some(read.push('\'')),
                words,
            ));
        } else {
            assert(r0.drop_first() == rest);
        }
    }
}

/// A quoted value begins a word that holds it.
proof fn lemma_quoted_is_read(value: Seq<char>, rest: Seq<char>, words: Seq<Seq<char>>)
    ensures
        split_from(shell_quoted(value) + rest, Quote::No, None, words) == split_from(
            rest,
            Quote::No,
            Some(value),
            words,
        ),
{
    reveal_strlit("'");
    let by = "'\\''"@;
    let inner = with_replaced(value, '\'', by);
    let all = shell_quoted(value) + rest;
    assert(all[0] == '\'');
    assert(all.drop_first() == inner + ("'"@ + rest));
    lemma_replaced_is_read(value, "'"@ + rest, Seq::empty(), words);
    assert(Seq::<char>::empty() + value == value);
    assert(("'"@ + rest)[0] == '\'');
    assert(("'"@ + rest).drop_first() == rest);
}

/// Whatever a value holds, its quoted form is one word by the rules of quoting in
/// `legacy_words`, and that word is the value.
pub proof fn law_quoted_is_one_word(value: Seq<char>)
    ensures
        legacy_words(shell_quoted(value)) == Ok::<_, SudoParseError>(seq![value]),
{
    lemma_quoted_is_read(value, Seq::empty(), Seq::empty());
    assert(shell_quoted(value) + Seq::<char>::empty() == shell_quoted(value));
    assert(Seq::<Seq<char>>::empty().push(value) == seq![value]);
}

/// Values in their quoted forms.
pub open spec fn all_quoted(values: Seq<Seq<char>>) -> Seq<Seq<char>> {
    values.map_values(|value: Seq<char>| shell_quoted(value))
}

/// Quoted values with spaces between them are words that hold them, of which the
/// last is still open.
proof fn lemma_all_quoted_are_read(values: Seq<Seq<char>>, rest: Seq<char>)
    requires
        values.len() > 0,
    ensures
        split_from(joined(all_quoted(values), " "@) + rest, Quote::No, None, Seq::empty())
            == split_from(rest, Quote::No, Some(values.last()), values.drop_last()),
    decreases values.len(),
{
    reveal_strlit(" ");
    if values.len() == 1 {
        assert(values.drop_last() == Seq::<Seq<char>>::empty());
        lemma_quoted_is_read(values[0], rest, Seq::empty());
    } else {
        let init = values.drop_last();
        let tail = shell_quoted(values.last()) + rest;
        assert(all_quoted(values).drop_last() == all_quoted(init));
        assert(joined(all_quoted(values), " "@) + rest == joined(all_quoted(init), " "@) + (" "@
            + tail));
        lemma_all_quoted_are_read(init, " "@ + tail);
        assert((" "@ + tail)[0] == ' ');
        assert((" "@ + tail).drop_first() == tail);
        assert(init.drop_last().push(init.last()) == init);
        lemma_quoted_is_read(values.last(), rest, init);
    }
}

/// Whatever values hold, their quoted forms with spaces between them are read back
/// as the values, each one a word, by the rules of quoting in `legacy_words`.
pub proof fn law_quoted_words_are_read_back(values: Seq<Seq<char>>)
    requires
        values.len() > 0,
    ensures
        legacy_words(joined(all_quoted(values), " "@)) == Ok::<_, SudoParseError>(values),
{
    lemma_all_quoted_are_read(values, Seq::empty());
    assert(joined(all_quoted(values), " "@) + Seq::<char>::empty() == joined(
        all_quoted(values),
        " "@,
    ));
    assert(values.drop_last().push(values.last()) == values);
}

/// Why a command cannot be run on a remote machine.
#[derive(Debug)]
pub enum RemoteCommandError {
    NotStorePath(String),
    NulByte,
}

/// What is shown of a `RemoteCommandError`.
pub open spec fn remote_command_error_text(e: RemoteCommandError) -> Seq<char> {
    match e {
        RemoteCommandError::NotStorePath(path) =>
            "remote closure path must be an absolute /nix/store path: "@ + path@,
        RemoteCommandError::NulByte => "remote closure path contains an unsupported NUL byte"@,
    }
}

impl RemoteCommandError {
    /// The message for this error.
    pub fn message(&self) -> (r: String)
        ensures
            r@ == remote_command_error_text(*self),
    {
        match self {
            RemoteCommandError::NotStorePath(path) => {
                "remote closure path must be an absolute /nix/store path: ".to_string().concat(
                    path.as_str(),
                )
            },
            RemoteCommandError::NulByte => {
                "remote closure path contains an unsupported NUL byte".to_string()
            },
        }
    }
}

/// The shell command that runs a subcommand of the activation program in
/// `closure`.
pub open spec fn activate_rs_line(closure: Seq<char>, subcommand: Seq<char>) -> Seq<char> {
    shell_quoted(closure + "/activate-rs"@) + " "@ + subcommand
}

/// The shell command that runs a subcommand of the activation program in
/// `closure`, which has to be a store path without a NUL character.
pub fn remote_activate_rs_command(closure: &str, subcommand: &str) -> (r: Result<
    String,
    RemoteCommandError,
>)
    ensures
        match r {
            Ok(line) => {
                &&& "/nix/store/"@.is_prefix_of(closure@)
                &&& !closure@.contains('\0')
                &&& line@ == activate_rs_line(closure@, subcommand@)
            },
            Err(RemoteCommandError::NotStorePath(path)) => {
                &&& !"/nix/store/"@.is_prefix_of(closure@)
                &&& path@ == closure@
            },
            Err(RemoteCommandError::NulByte) => {
                &&& "/nix/store/"@.is_prefix_of(closure@)
                &&& closure@.contains('\0')
            },
        },
{
    if !starts_with(closure, "/nix/store/") {
        return Err(RemoteCommandError::NotStorePath(closure.to_string()));
    }
    if has_char(closure, '\0') {
        return Err(RemoteCommandError::NulByte);
    }
    let program = closure.to_string().concat("/activate-rs");
    Ok(shell_quote(program.as_str()).concat(" ").concat(subcommand))
}

/// By the rules of quoting in `legacy_words` the command is two words, the
/// activation program of the closure and the subcommand, whatever characters the
/// closure holds.
pub proof fn law_activate_rs_line_is_two_words(closure: Seq<char>, subcommand: Seq<char>)
    requires
        is_plain_word(subcommand),
    ensures
        legacy_words(activate_rs_line(closure, subcommand)) == Ok::<_, SudoParseError>(
            seq![closure + "/activate-rs"@, subcommand],
        ),
{
    reveal_strlit(" ");
    let program = closure + "/activate-rs"@;
    let line = activate_rs_line(closure, subcommand);
    assert(line == shell_quoted(program) + (" "@ + subcommand));
    lemma_quoted_is_read(program, " "@ + subcommand, Seq::empty());
    assert((" "@ + subcommand)[0] == ' ');
    assert((" "@ + subcommand).drop_first() == subcommand);
    let one = Seq::<Seq<char>>::empty().push(program);
    lemma_plain_word(subcommand, Seq::empty(), one);
    assert(subcommand + Seq::<char>::empty() == subcommand);
    assert(one.push(subcommand) == seq![program, subcommand]);
}

/// An SSH option about sharing connections.
pub open spec fn is_control_opt(opt: Seq<char>) -> bool {
    occurs_in("ControlPath"@, opt) || occurs_in("ControlMaster"@, opt)
}

/// The SSH options without those about sharing connections, each with the `-o`
/// before it.
pub open spec fn without_control(opts: Seq<Seq<char>>) -> Seq<Seq<char>>
    decreases opts.len(),
{
    if opts.len() == 0 {
        opts
    } else if opts[0] == "-o"@ && opts.len() > 1 && is_control_opt(opts[1]) {
        without_control(opts.skip(2))
    } else if is_control_opt(opts[0]) {
        without_control(opts.skip(1))
    } else {
        seq![opts[0]] + without_control(opts.skip(1))
    }
}

fn control_opt(opt: &str) -> (r: bool)
    ensures
        r == is_control_opt(opt@),
{
    has_text(opt, "ControlPath") || has_text(opt, "ControlMaster")
}

/// The SSH options without those about sharing connections, each with the `-o`
/// before it.
pub fn ssh_opts_without_control_master(ssh_opts: &[String]) -> (r: Vec<String>)
    ensures
        texts(r@) == without_control(texts(ssh_opts@)),
{
    let ghost all = texts(ssh_opts@);
    let mut filtered: Vec<String> = Vec::new();
    let mut i: usize = 0;
    assert(all.skip(0) == all);
    assert(texts(filtered@) + without_control(all.skip(0)) =~= without_control(all));
    while i < ssh_opts.len()
        invariant
            i <= ssh_opts@.len(),
            all == texts(ssh_opts@),
            texts(filtered@) + without_control(all.skip(i as int)) == without_control(all),
        decreases ssh_opts@.len() - i,
    {
        let ghost rest = all.skip(i as int);
        assert(rest.skip(1) == all.skip(i + 1));
        assert(rest[0] == ssh_opts@[i as int]@);
        let left: usize = ssh_opts.len() - i;
        if left > 1 && same_text(ssh_opts[i].as_str(), "-o") && control_opt(
            ssh_opts[i + 1].as_str(),
        ) {
            assert(rest[1] == ssh_opts@[i + 1]@);
            assert(rest.skip(2) == all.skip(i + 2));
            i += 2;
            continue;
        }
        assert(left > 1 ==> rest[1] == ssh_opts@[i + 1]@);
        if control_opt(ssh_opts[i].as_str()) {
            i += 1;
            continue;
        }
        let ghost before = texts(filtered@);
        filtered.push(ssh_opts[i].clone());
        assert(texts(filtered@) =~= before.push(rest[0]));
        assert(before + (seq![rest[0]] + without_control(rest.skip(1))) =~= before.push(rest[0])
            + without_control(rest.skip(1)));
        i += 1;
    }
    assert(all.skip(i as int) =~= Seq::<Seq<char>>::empty());
    assert(texts(filtered@) + Seq::<Seq<char>>::empty() =~= texts(filtered@));
    filtered
}

/// No option about sharing connections is left.
pub proof fn law_no_control_opt_is_left(opts: Seq<Seq<char>>)
    ensures
        forall|i: int|
            0 <= i < without_control(opts).len() ==> !is_control_opt(
                #[trigger] without_control(opts)[i],
            ),
    decreases opts.len(),
{
    if opts.len() > 0 {
        if opts[0] == "-o"@ && opts.len() > 1 && is_control_opt(opts[1]) {
            law_no_control_opt_is_left(opts.skip(2));
            assert(without_control(opts) == without_control(opts.skip(2)));
        } else {
            law_no_control_opt_is_left(opts.skip(1));
            let rest = without_control(opts.skip(1));
            if is_control_opt(opts[0]) {
                assert(without_control(opts) == rest);
            } else {
                assert(without_control(opts) == seq![opts[0]] + rest);
                assert forall|i: int| 0 <= i < without_control(opts).len() implies !is_control_opt(
                    #[trigger] without_control(opts)[i],
                ) by {
                    if i > 0 {
                        assert(without_control(opts)[i] == rest[i - 1]);
                    }
                }
            }
        }
    }
}

/// Options that say nothing about sharing connections are left alone.
pub proof fn law_other_opts_are_kept(opts: Seq<Seq<char>>)
    requires
        forall|i: int| 0 <= i < opts.len() ==> !is_control_opt(#[trigger] opts[i]),
    ensures
        without_control(opts) == opts,
    decreases opts.len(),
{
    if opts.len() > 0 {
        let rest = opts.skip(1);
        assert forall|i: int| 0 <= i < rest.len() implies !is_control_opt(#[trigger] rest[i]) by {
            assert(!is_control_opt(opts[i + 1]));
        }
        law_other_opts_are_kept(rest);
        assert(seq![opts[0]] + rest =~= opts);
        assert(!is_control_opt(opts[0]));
        assert(opts.len() > 1 ==> !is_control_opt(opts[1]));
    }
}

/// Taking the options out a second time changes nothing.
pub proof fn law_taking_control_opts_out_is_idempotent(opts: Seq<Seq<char>>)
    ensures
        without_control(without_control(opts)) == without_control(opts),
{
    law_no_control_opt_is_left(opts);
    law_other_opts_are_kept(without_control(opts));
}

/// Why a waiting activation could not be confirmed.
#[derive(Debug)]
pub enum RemoteConfirmError {
    RemoteCommand(RemoteCommandError),
    Serialize(String),
    Spawn(String),
    MissingStdin,
    WriteRequest(String),
    Exit(Option<i32>),
    Wait(String),
}

/// What is shown of a `RemoteConfirmError`.
pub open spec fn remote_confirm_error_text(e: RemoteConfirmError) -> Seq<char> {
    match e {
        RemoteConfirmError::RemoteCommand(err) =>
            "failed to build remote confirm command: "@ + remote_command_error_text(err),
        RemoteConfirmError::Serialize(err) =>
            "failed to serialize remote confirm request: "@ + err@,
        RemoteConfirmError::Spawn(err) => "failed to spawn remote confirm over SSH: "@ + err@,
        RemoteConfirmError::MissingStdin => "failed to open stdin for remote confirm"@,
        RemoteConfirmError::WriteRequest(err) => "failed to write remote confirm request: "@ + err@,
        RemoteConfirmError::Exit(code) =>
            "remote confirm exited with a bad exit code: "@ + shown_code(code),
        RemoteConfirmError::Wait(err) => "failed to wait for remote confirm: "@ + err@,
    }
}

impl RemoteConfirmError {
    /// The message for this error.
    pub fn message(&self) -> (r: String)
        ensures
            r@ == remote_confirm_error_text(*self),
    {
        match self {
            RemoteConfirmError::RemoteCommand(err) => {
                "failed to build remote confirm command: ".to_string()
                    .concat(err.message().as_str())
            },
            RemoteConfirmError::Serialize(err) => {
                "failed to serialize remote confirm request: ".to_string().concat(err.as_str())
            },
            RemoteConfirmError::Spawn(err) => {
                "failed to spawn remote confirm over SSH: ".to_string().concat(err.as_str())
            },
            RemoteConfirmError::MissingStdin => {
                "failed to open stdin for remote confirm".to_string()
            },
            RemoteConfirmError::WriteRequest(err) => {
                "failed to write remote confirm request: ".to_string().concat(err.as_str())
            },
            RemoteConfirmError::Exit(code) => {
                "remote confirm exited with a bad exit code: ".to_string()
                    .concat(code_text(*code).as_str())
            },
            RemoteConfirmError::Wait(err) => {
                "failed to wait for remote confirm: ".to_string().concat(err.as_str())
            },
        }
    }
}

/// Why a session on a remote machine failed.
#[derive(Debug)]
pub enum RemoteSessionError {
    RemoteCommand(RemoteCommandError),
    Serialize(String),
    Spawn(String),
    MissingStdin,
    MissingStdout,
    WriteRequest(String),
    ReadEvent(String),
    DecodeEvent { line: String, source: String },
    ProtocolVersion { local: u16, remote: u16 },
    Confirm(RemoteConfirmError),
    RemoteFailed(String),
    RemoteExit(Option<i32>),
    MissingFinished,
    Wait(String),
}

/// What is shown of a `RemoteSessionError`.
pub open spec fn remote_session_error_text(e: RemoteSessionError) -> Seq<char> {
    match e {
        RemoteSessionError::RemoteCommand(err) =>
            "failed to build remote command: "@ + remote_command_error_text(err),
        RemoteSessionError::Serialize(err) =>
            "failed to serialize remote session request: "@ + err@,
        RemoteSessionError::Spawn(err) => "failed to spawn remote session over SSH: "@ + err@,
        RemoteSessionError::MissingStdin => "failed to open stdin for remote session"@,
        RemoteSessionError::MissingStdout => "failed to open stdout for remote session"@,
        RemoteSessionError::WriteRequest(err) => "failed to write remote session request: "@ + err@,
        RemoteSessionError::ReadEvent(err) => "failed to read remote session event: "@ + err@,
        RemoteSessionError::DecodeEvent { line, source } =>
            "failed to decode remote session event `"@ + line@ + "`: "@ + source@,
        RemoteSessionError::ProtocolVersion { local, remote } =>
            "remote protocol version mismatch: local="@ + decimal(local as nat) + ", remote="@
                + decimal(remote as nat),
        RemoteSessionError::Confirm(err) =>
            "failed to confirm activation over SSH: "@ + remote_confirm_error_text(err),
        RemoteSessionError::RemoteFailed(message) => "remote session failed: "@ + message@,
        RemoteSessionError::RemoteExit(code) =>
            "remote session exited with a bad exit code: "@ + shown_code(code),
        RemoteSessionError::MissingFinished => "remote session ended without a final status"@,
        RemoteSessionError::Wait(err) => "failed to wait for remote session: "@ + err@,
    }
}

impl RemoteSessionError {
    /// The message for this error.
    pub fn message(&self) -> (r: String)
        ensures
            r@ == remote_session_error_text(*self),
    {
        match self {
            RemoteSessionError::RemoteCommand(err) => {
                "failed to build remote command: ".to_string().concat(err.message().as_str())
            },
            RemoteSessionError::Serialize(err) => {
                "failed to serialize remote session request: ".to_string().concat(err.as_str())
            },
            RemoteSessionError::Spawn(err) => {
                "failed to spawn remote session over SSH: ".to_string().concat(err.as_str())
            },
            RemoteSessionError::MissingStdin => {
                "failed to open stdin for remote session".to_string()
            },
            RemoteSessionError::MissingStdout => {
                "failed to open stdout for remote session".to_string()
            },
            RemoteSessionError::WriteRequest(err) => {
                "failed to write remote session request: ".to_string().concat(err.as_str())
            },
            RemoteSessionError::ReadEvent(err) => {
                "failed to read remote session event: ".to_string().concat(err.as_str())
            },
            RemoteSessionError::DecodeEvent { line, source } => {
                "failed to decode remote session event `".to_string()
                    .concat(line.as_str())
                    .concat("`: ")
                    .concat(source.as_str())
            },
            RemoteSessionError::ProtocolVersion { local, remote } => {
                "remote protocol version mismatch: local=".to_string()
                    .concat(decimal_text(*local as u64).as_str())
                    .concat(", remote=")
                    .concat(decimal_text(*remote as u64).as_str())
            },
            RemoteSessionError::Confirm(err) => {
                "failed to confirm activation over SSH: ".to_string().concat(err.message().as_str())
            },
            RemoteSessionError::RemoteFailed(message) => {
                "remote session failed: ".to_string().concat(message.as_str())
            },
            RemoteSessionError::RemoteExit(code) => {
                "remote session exited with a bad exit code: ".to_string()
                    .concat(code_text(*code).as_str())
            },
            RemoteSessionError::MissingFinished => {
                "remote session ended without a final status".to_string()
            },
            RemoteSessionError::Wait(err) => {
                "failed to wait for remote session: ".to_string().concat(err.as_str())
            },
        }
    }
}

/// What a session that ended comes to, by the last report of the remote side
/// and by how its process exited. A report of failure comes before the exit
/// code.
pub fn interpret_remote_session_completion(
    finished: Option<(bool, String)>,
    exit_success: bool,
    exit_code: Option<i32>,
) -> (r: Result<(), RemoteSessionError>)
    ensures
        r == (match finished {
            Some((false, message)) => Err::<(), _>(RemoteSessionError::RemoteFailed(message)),
            _ if !exit_success => Err(RemoteSessionError::RemoteExit(exit_code)),
            Some((true, _)) => Ok(()),
            None => Err(RemoteSessionError::MissingFinished),
        }),
{
    match finished {
        Some((true, _)) => {
            if !exit_success {
                return Err(RemoteSessionError::RemoteExit(exit_code));
            }
            Ok(())
        },
        Some((false, message)) => Err(RemoteSessionError::RemoteFailed(message)),
        None => {
            if !exit_success {
                return Err(RemoteSessionError::RemoteExit(exit_code));
            }
            Err(RemoteSessionError::MissingFinished)
        },
    }
}

/// What has been heard of a session so far.
#[derive(Debug)]
pub struct RemoteSession {
    finished: Option<(bool, String)>,
}

/// What an event of a session asks for.
#[derive(Debug)]
pub enum SessionStep {
    /// To go on listening.
    Listen,
    /// To confirm the activation over a connection of its own.
    Confirm { session_id: String, nonce: String },
}

/// The report on how a session went, as far as there is one.
pub type Report = Option<(bool, Seq<char>)>;

/// The last report after an event, or the version of the protocol that the
/// remote side speaks where that is another one.
pub open spec fn after_event(report: Report, event: RemoteEvent) -> Result<Report, u16> {
    match event {
        RemoteEvent::Hello { protocol_version } if protocol_version != REMOTE_PROTOCOL_VERSION =>
            Err(protocol_version),
        RemoteEvent::Finished { ok, rolled_back: _, message } => Ok(Some((ok, message@))),
        _ => Ok(report),
    }
}

/// What an event asks for.
pub open spec fn asked_step(event: RemoteEvent) -> SessionStep {
    match event {
        RemoteEvent::AwaitingConfirm { session_id, nonce } => SessionStep::Confirm {
            session_id,
            nonce,
        },
        _ => SessionStep::Listen,
    }
}

/// The last report after all events, or the first version that differs.
pub open spec fn after_events(events: Seq<RemoteEvent>) -> Result<Report, u16>
    decreases events.len(),
{
    if events.len() == 0 {
        Ok(None)
    } else {
        match after_events(events.drop_last()) {
            Ok(report) => after_event(report, events.last()),
            Err(version) => Err(version),
        }
    }
}

impl RemoteSession {
    /// The last report of the session.
    pub closed spec fn view(&self) -> Report {
        match self.finished {
            Some((ok, message)) => Some((ok, message@)),
            None => None,
        }
    }

    /// A session of which nothing has been heard.
    pub fn new() -> (r: Self)
        ensures
            r@ is None,
    {
        RemoteSession { finished: None }
    }

    /// Takes note of an event, and says what it asks for.
    pub fn event(&mut self, event: RemoteEvent) -> (r: Result<SessionStep, RemoteSessionError>)
        ensures
            match after_event(old(self)@, event) {
                Ok(report) => final(self)@ == report && r == Ok::<SessionStep, RemoteSessionError>(
                    asked_step(event),
                ),
                Err(remote) => final(self)@ == old(self)@ && r == Err::<SessionStep, _>(
                    RemoteSessionError::ProtocolVersion { local: REMOTE_PROTOCOL_VERSION, remote },
                ),
            },
    {
        match event {
            RemoteEvent::Hello { protocol_version } => {
                if protocol_version != REMOTE_PROTOCOL_VERSION {
                    return Err(
                        RemoteSessionError::ProtocolVersion {
                            local: REMOTE_PROTOCOL_VERSION,
                            remote: protocol_version,
                        },
                    );
                }
                Ok(SessionStep::Listen)
            },
            RemoteEvent::AwaitingConfirm { session_id, nonce } => Ok(
                SessionStep::Confirm { session_id, nonce },
            ),
            RemoteEvent::Finished { ok, rolled_back: _, message } => {
                self.finished = Some((ok, message));
                Ok(SessionStep::Listen)
            },
        }
    }

    /// What the session comes to, once its process has exited.
    pub fn complete(self, exit_success: bool, exit_code: Option<i32>) -> (r: Result<
        (),
        RemoteSessionError,
    >)
        ensures
            match self@ {
                Some((false, message)) => r matches Err(RemoteSessionError::RemoteFailed(m)) && m@
                    == message,
                _ if !exit_success => r == Err::<(), _>(RemoteSessionError::RemoteExit(exit_code)),
                Some((true, _)) => r is Ok,
                None => r == Err::<(), _>(RemoteSessionError::MissingFinished),
            },
    {
        interpret_remote_session_completion(self.finished, exit_success, exit_code)
    }
}

/// A session is listened to up to its end exactly if each greeting gives the
/// local version of the protocol, and then the report is that of the last event
/// that holds one.
pub proof fn law_last_report_counts(events: Seq<RemoteEvent>)
    ensures
        after_events(events) is Ok <==> forall|i: int|
            0 <= i < events.len() ==> ((#[trigger] events[i]) matches RemoteEvent::Hello {
                protocol_version,
            } ==> protocol_version == REMOTE_PROTOCOL_VERSION),
        match after_events(events) {
            Ok(Some((ok, message))) => exists|i: int|
                0 <= i < events.len() && ((#[trigger] events[i]) matches RemoteEvent::Finished {
                    ok: said,
                    rolled_back: _,
                    message: text,
                } && said == ok && text@ == message) && forall|j: int|
                    i < j < events.len() ==> (#[trigger] events[j]) !is Finished,
            Ok(None) => forall|j: int| 0 <= j < events.len() ==> (#[trigger] events[j]) !is Finished,
            Err(version) => version != REMOTE_PROTOCOL_VERSION,
        },
    decreases events.len(),
{
    if events.len() > 0 {
        let init = events.drop_last();
        law_last_report_counts(init);
        assert forall|i: int| 0 <= i < init.len() implies #[trigger] init[i] == events[i] by {}
        let last = events.last();
        assert(last == events[events.len() - 1]);
        match after_events(init) {
            Ok(report) => {
                match report {
                    Some((ok, message)) => {
                        let i = choose|i: int|
                            0 <= i < init.len() && ((#[trigger] init[i]) matches RemoteEvent::Finished {
                                ok: said,
                                rolled_back: _,
                                message: text,
                            } && said == ok && text@ == message) && forall|j: int|
                                i < j < init.len() ==> (#[trigger] init[j]) !is Finished;
                        assert(events[i] == init[i]);
                        assert forall|j: int| i < j < events.len() - 1 implies (
                        #[trigger] events[j]) !is Finished by {
                            assert(init[j] !is Finished);
                        }
                    },
                    None => {
                        assert forall|j: int| 0 <= j < events.len() - 1 implies (
                        #[trigger] events[j]) !is Finished by {
                            assert(init[j] !is Finished);
                        }
                    },
                }
                assert forall|i: int| 0 <= i < events.len() - 1 implies ((
                #[trigger] events[i]) matches RemoteEvent::Hello { protocol_version }
                    ==> protocol_version == REMOTE_PROTOCOL_VERSION) by {
                    assert(init[i] == events[i]);
                }
            },
            Err(version) => {
                let i = choose|i: int|
                    0 <= i < init.len() && !((#[trigger] init[i]) matches RemoteEvent::Hello {
                        protocol_version,
                    } ==> protocol_version == REMOTE_PROTOCOL_VERSION);
                assert(events[i] == init[i]);
            },
        }
    }
}

/// Whether a line of a session holds an event.
pub fn is_event_line(line: &str) -> (r: bool)
    ensures
        r == (trimmed(line@).len() > 0),
{
    !trim(line).as_str().is_empty()
}

/// Why a profile was not deployed.
#[derive(Debug)]
pub enum DeployProfileError {
    RemoteSession(RemoteSessionError),
    InvalidDeployDataDefs(DeployDataDefsError),
}

/// What is shown of a `DeployProfileError`.
pub open spec fn deploy_profile_error_text(e: DeployProfileError) -> Seq<char> {
    match e {
        DeployProfileError::RemoteSession(err) =>
            "Error running remote deployment session: "@ + remote_session_error_text(err),
        DeployProfileError::InvalidDeployDataDefs(err) => "Deployment data invalid: "@
            + deploy_data_defs_error_text(err),
    }
}

impl DeployProfileError {
    /// The message for this error.
    pub fn message(&self) -> (r: String)
        ensures
            r@ == deploy_profile_error_text(*self),
    {
        match self {
            DeployProfileError::RemoteSession(err) => {
                "Error running remote deployment session: ".to_string()
                    .concat(err.message().as_str())
            },
            DeployProfileError::InvalidDeployDataDefs(err) => {
                "Deployment data invalid: ".to_string().concat(err.message().as_str())
            },
        }
    }
}

/// Why a profile was not revoked.
#[derive(Debug)]
pub enum RevokeProfileError {
    RemoteSession(RemoteSessionError),
    InvalidDeployDataDefs(DeployDataDefsError),
}

/// What is shown of a `RevokeProfileError`.
pub open spec fn revoke_profile_error_text(e: RevokeProfileError) -> Seq<char> {
    match e {
        RevokeProfileError::RemoteSession(err) =>
            "Error running remote revoke session: "@ + remote_session_error_text(err),
        RevokeProfileError::InvalidDeployDataDefs(err) => "Deployment data invalid: "@
            + deploy_data_defs_error_text(err),
    }
}

impl RevokeProfileError {
    /// The message for this error.
    pub fn message(&self) -> (r: String)
        ensures
            r@ == revoke_profile_error_text(*self),
    {
        match self {
            RevokeProfileError::RemoteSession(err) => {
                "Error running remote revoke session: ".to_string().concat(err.message().as_str())
            },
            RevokeProfileError::InvalidDeployDataDefs(err) => {
                "Deployment data invalid: ".to_string().concat(err.message().as_str())
            },
        }
    }
}

/// The directory for temporary files on a remote machine.
pub open spec fn remote_temp_path(temp_path: Option<String>) -> Seq<char> {
    match temp_path {
        Some(path) => path@,
        None => "/tmp"@,
    }
}

fn temp_path_of(deploy_data: &DeployData<'_>) -> (r: String)
    ensures
        r@ == remote_temp_path(deploy_data.merged_settings.temp_path),
{
    match &deploy_data.merged_settings.temp_path {
        Some(path) => path.clone(),
        None => "/tmp".to_string(),
    }
}

fn log_dir_of(deploy_data: &DeployData<'_>) -> (r: Option<String>)
    ensures
        opt_text(r) == opt_str(deploy_data.log_dir),
{
    match deploy_data.log_dir {
        Some(dir) => Some(dir.to_string()),
        None => None,
    }
}

/// The target is the profile: by its path where one is given, and otherwise by
/// its user and its name.
pub open spec fn is_target_of(target: ProfileTarget, deploy_data: DeployData<'_>) -> bool {
    match deploy_data.profile.profile_settings.profile_path {
        Some(path) => target matches ProfileTarget::ProfilePath { profile_path } && profile_path@
            == path@,
        None => target matches ProfileTarget::ProfileUserAndName { profile_user, profile_name }
            && deploy_data.owner() == Some(profile_user@) && profile_name@
            == deploy_data.profile_name@,
    }
}

/// The profile cannot be found on its node, for the reason `e`: neither its path
/// nor its user is known.
pub open spec fn is_untraceable(deploy_data: DeployData<'_>, e: DeployDataDefsError) -> bool {
    deploy_data.profile.profile_settings.profile_path is None && deploy_data.is_ownerless(e)
}

/// What a remote machine is asked in order to activate a profile.
pub fn deploy_request(
    deploy_data: &DeployData<'_>,
    deploy_defs: &DeployDefs,
    dry_activate: bool,
    boot: bool,
    review_changes: bool,
) -> (r: Result<RemoteDeployRequest, DeployProfileError>)
    ensures
        match r {
            Ok(request) => {
                let settings = deploy_data.merged_settings;
                &&& request.closure@ == deploy_data.profile.profile_settings.path@
                &&& is_target_of(request.profile, *deploy_data)
                &&& request.profile_user@ == deploy_defs.profile_user@
                &&& request.review_changes == review_changes
                &&& request.dry_activate == dry_activate
                &&& request.boot == boot
                &&& request.auto_rollback == switched(settings.auto_rollback, true)
                &&& request.magic_rollback == switched(settings.magic_rollback, true)
                &&& request.confirm_timeout == (match settings.confirm_timeout {
                    Some(seconds) => seconds,
                    None => 30u16,
                })
                &&& request.activation_timeout == settings.activation_timeout
                &&& request.temp_path@ == remote_temp_path(settings.temp_path)
                &&& request.debug_logs == deploy_data.debug_logs
                &&& opt_text(request.log_dir) == opt_str(deploy_data.log_dir)
            },
            Err(e) => e matches DeployProfileError::InvalidDeployDataDefs(why) && is_untraceable(
                *deploy_data,
                why,
            ),
        },
{
    let profile_info = match deploy_data.get_profile_info() {
        Ok(profile_info) => profile_info,
        Err(e) => return Err(DeployProfileError::InvalidDeployDataDefs(e)),
    };
    Ok(
        RemoteDeployRequest {
            closure: deploy_data.profile.profile_settings.path.clone(),
            profile: profile_target(profile_info),
            profile_user: deploy_defs.profile_user.clone(),
            review_changes,
            dry_activate,
            boot,
            auto_rollback: switch(deploy_data.merged_settings.auto_rollback, true),
            magic_rollback: switch(deploy_data.merged_settings.magic_rollback, true),
            confirm_timeout: match deploy_data.merged_settings.confirm_timeout {
                Some(seconds) => seconds,
                None => 30,
            },
            activation_timeout: deploy_data.merged_settings.activation_timeout,
            temp_path: temp_path_of(deploy_data),
            debug_logs: deploy_data.debug_logs,
            log_dir: log_dir_of(deploy_data),
        },
    )
}

/// What a remote machine is asked in order to revoke a profile.
pub fn revoke_request(deploy_data: &DeployData<'_>, deploy_defs: &DeployDefs) -> (r: Result<
    RemoteRevokeRequest,
    RevokeProfileError,
>)
    ensures
        match r {
            Ok(request) => {
                &&& request.closure@ == deploy_data.profile.profile_settings.path@
                &&& is_target_of(request.profile, *deploy_data)
                &&& request.profile_user@ == deploy_defs.profile_user@
                &&& request.temp_path@ == remote_temp_path(deploy_data.merged_settings.temp_path)
                &&& request.debug_logs == deploy_data.debug_logs
                &&& opt_text(request.log_dir) == opt_str(deploy_data.log_dir)
            },
            Err(e) => e matches RevokeProfileError::InvalidDeployDataDefs(why) && is_untraceable(
                *deploy_data,
                why,
            ),
        },
{
    let profile_info = match deploy_data.get_profile_info() {
        Ok(profile_info) => profile_info,
        Err(e) => return Err(RevokeProfileError::InvalidDeployDataDefs(e)),
    };
    Ok(
        RemoteRevokeRequest {
            closure: deploy_data.profile.profile_settings.path.clone(),
            profile: profile_target(profile_info),
            profile_user: deploy_defs.profile_user.clone(),
            temp_path: temp_path_of(deploy_data),
            debug_logs: deploy_data.debug_logs,
            log_dir: log_dir_of(deploy_data),
        },
    )
}

/// What a session for an operation starts with.
pub fn bootstrap_request(
    deploy_data: &DeployData<'_>,
    deploy_defs: &DeployDefs,
    operation: RemoteOperation,
) -> (r: BootstrapRequest)
    ensures
        r.protocol_version == REMOTE_PROTOCOL_VERSION,
        opt_sudo(r.sudo) == opt_sudo(deploy_defs.sudo),
        r.sudo_password == deploy_defs.sudo_password,
        r.interactive_sudo == switched(deploy_data.merged_settings.interactive_sudo, false),
        r.operation == operation,
{
    BootstrapRequest {
        protocol_version: REMOTE_PROTOCOL_VERSION,
        sudo: clone_opt_sudo(&deploy_defs.sudo),
        sudo_password: clone_opt_text(&deploy_defs.sudo_password),
        interactive_sudo: switch(deploy_data.merged_settings.interactive_sudo, false),
        operation,
    }
}

/// What confirms an activation that waits under the given session and nonce.
pub fn confirm_request(
    deploy_data: &DeployData<'_>,
    deploy_defs: &DeployDefs,
    temp_path: &str,
    session_id: String,
    nonce: String,
) -> (r: ConfirmRequest)
    ensures
        r.temp_path@ == temp_path@,
        r.session_id == session_id,
        r.nonce == nonce,
        opt_sudo(r.sudo) == opt_sudo(deploy_defs.sudo),
        r.sudo_password == deploy_defs.sudo_password,
        r.interactive_sudo == switched(deploy_data.merged_settings.interactive_sudo, false),
        r.profile_user@ == deploy_defs.profile_user@,
{
    ConfirmRequest {
        temp_path: temp_path.to_string(),
        session_id,
        nonce,
        sudo: clone_opt_sudo(&deploy_defs.sudo),
        sudo_password: clone_opt_text(&deploy_defs.sudo_password),
        interactive_sudo: switch(deploy_data.merged_settings.interactive_sudo, false),
        profile_user: deploy_defs.profile_user.clone(),
    }
}

/// The arguments of `ssh` for running a command on a host.
pub open spec fn ssh_args(
    user: Seq<char>,
    host: Seq<char>,
    opts: Seq<Seq<char>>,
    remote_command: Seq<char>,
) -> Seq<Seq<char>> {
    (seq![user + "@"@ + host] + opts).push(remote_command)
}

/// The command that starts a session on the machine of a profile: it reads the
/// request from its standard input, and its events are read from its standard
/// output.
pub fn session_command(
    deploy_data: &DeployData<'_>,
    deploy_defs: &DeployDefs,
    remote_command: &str,
) -> (r: Command)
    ensures
        r@ == command_line(
            "ssh"@,
            ssh_args(
                deploy_defs.ssh_user@,
                deploy_data.host(),
                deploy_data.merged_settings@.ssh_opts,
                remote_command@,
            ),
        ).with_streams(Some(Stream::Piped), Some(Stream::Piped), Some(Stream::Inherit)),
{
    let address = deploy_defs.ssh_user.clone().concat("@").concat(deploy_data.hostname());
    Command::new("ssh").arg(address.as_str()).streams(
        Some(Stream::Piped),
        Some(Stream::Piped),
        Some(Stream::Inherit),
    ).args(deploy_data.merged_settings.ssh_opts.as_slice()).arg(remote_command)
}

/// The SSH options for a confirmation: as they are, or so that no connection is
/// shared with the session.
pub open spec fn confirm_opts(opts: Seq<Seq<char>>, fresh_connection: bool) -> Seq<Seq<char>> {
    if fresh_connection {
        without_control(opts) + seq!["-o"@, "ControlPath=none"@]
    } else {
        opts
    }
}

/// The command that confirms an activation on the machine of a profile: it
/// reads the request from its standard input.
pub fn confirm_command(
    deploy_data: &DeployData<'_>,
    deploy_defs: &DeployDefs,
    remote_command: &str,
    fresh_connection: bool,
) -> (r: Command)
    ensures
        r@ == command_line(
            "ssh"@,
            ssh_args(
                deploy_defs.ssh_user@,
                deploy_data.host(),
                confirm_opts(deploy_data.merged_settings@.ssh_opts, fresh_connection),
                remote_command@,
            ),
        ).with_streams(Some(Stream::Piped), None, None),
{
    let address = deploy_defs.ssh_user.clone().concat("@").concat(deploy_data.hostname());
    let command = Command::new("ssh").arg(address.as_str()).streams(
        Some(Stream::Piped),
        None,
        None,
    );
    let ssh_opts = deploy_data.merged_settings.ssh_opts.as_slice();
    if fresh_connection {
        let r = command.args(ssh_opts_without_control_master(ssh_opts).as_slice()).arg("-o").arg(
            "ControlPath=none",
        ).arg(remote_command);
        proof {
            let kept = without_control(texts(ssh_opts@));
            assert(seq![address@] + (kept + seq!["-o"@, "ControlPath=none"@]) =~= (seq![address@]
                + kept).push("-o"@).push("ControlPath=none"@));
        }
        r
    } else {
        command.args(ssh_opts).arg(remote_command)
    }
}

/// A confirmation that uses a connection of its own names no other connection
/// to share than none.
pub proof fn law_fresh_confirmation_shares_no_connection(opts: Seq<Seq<char>>)
    ensures
        ({
            let all = confirm_opts(opts, true);
            forall|i: int|
                0 <= i < all.len() && is_control_opt(#[trigger] all[i]) ==> all[i]
                    == "ControlPath=none"@
        }),
{
    law_no_control_opt_is_left(opts);
    let kept = without_control(opts);
    let all = confirm_opts(opts, true);
    assert(!is_control_opt("-o"@)) by {
        reveal_strlit("-o");
        reveal_strlit("ControlPath");
        reveal_strlit("ControlMaster");
    }
    assert forall|i: int| 0 <= i < all.len() && is_control_opt(#[trigger] all[i]) implies all[i]
        == "ControlPath=none"@ by {
        if i < kept.len() {
            assert(all[i] == kept[i]);
        }
    }
}

/// What comes of confirming, once the process that did it has exited.
pub fn interpret_confirm_exit(success: bool, code: Option<i32>) -> (r: Result<
    (),
    RemoteConfirmError,
>)
    ensures
        r == (if success {
            Ok::<(), RemoteConfirmError>(())
        } else {
            Err(RemoteConfirmError::Exit(code))
        }),
{
    if !success {
        return Err(RemoteConfirmError::Exit(code));
    }
    Ok(())
}

/// A closure that a command can be run from on a remote machine.
pub open spec fn is_remote_closure(closure: Seq<char>) -> bool {
    "/nix/store/"@.is_prefix_of(closure) && !closure.contains('\0')
}

/// The closure that an operation is about.
pub open spec fn operation_closure(operation: RemoteOperation) -> Seq<char> {
    match operation {
        RemoteOperation::Deploy(request) => request.closure@,
        RemoteOperation::Revoke(request) => request.closure@,
    }
}

/// What a remote operation takes: the request that its session starts with, and
/// the command that the request is written to.
pub fn start_remote_operation(
    deploy_data: &DeployData<'_>,
    deploy_defs: &DeployDefs,
    operation: RemoteOperation,
) -> (r: Result<(BootstrapRequest, Command), RemoteSessionError>)
    ensures
        match r {
            Ok((request, command)) => {
                &&& is_remote_closure(operation_closure(operation))
                &&& request.protocol_version == REMOTE_PROTOCOL_VERSION
                &&& opt_sudo(request.sudo) == opt_sudo(deploy_defs.sudo)
                &&& request.sudo_password == deploy_defs.sudo_password
                &&& request.interactive_sudo == switched(
                    deploy_data.merged_settings.interactive_sudo,
                    false,
                )
                &&& request.operation == operation
                &&& command@ == command_line(
                    "ssh"@,
                    ssh_args(
                        deploy_defs.ssh_user@,
                        deploy_data.host(),
                        deploy_data.merged_settings@.ssh_opts,
                        activate_rs_line(operation_closure(operation), "bootstrap-session"@),
                    ),
                ).with_streams(Some(Stream::Piped), Some(Stream::Piped), Some(Stream::Inherit))
            },
            Err(e) => {
                &&& !is_remote_closure(operation_closure(operation))
                &&& e matches RemoteSessionError::RemoteCommand(why) && match why {
                    RemoteCommandError::NotStorePath(path) => path@ == operation_closure(operation)
                        && !"/nix/store/"@.is_prefix_of(path@),
                    RemoteCommandError::NulByte => "/nix/store/"@.is_prefix_of(
                        operation_closure(operation),
                    ),
                }
            },
        },
{
    match remote_activate_rs_command(operation.closure(), "bootstrap-session") {
        Ok(line) => {
            let command = session_command(deploy_data, deploy_defs, line.as_str());
            Ok((bootstrap_request(deploy_data, deploy_defs, operation), command))
        },
        Err(why) => Err(RemoteSessionError::RemoteCommand(why)),
    }
}

/// What it takes to confirm an activation of `closure` that waits under the
/// given session and nonce: the request, and the command that it is written to.
pub fn start_confirmation(
    deploy_data: &DeployData<'_>,
    deploy_defs: &DeployDefs,
    closure: &str,
    temp_path: &str,
    session_id: String,
    nonce: String,
    fresh_connection: bool,
) -> (r: Result<(ConfirmRequest, Command), RemoteConfirmError>)
    ensures
        match r {
            Ok((request, command)) => {
                &&& is_remote_closure(closure@)
                &&& request.temp_path@ == temp_path@
                &&& request.session_id == session_id
                &&& request.nonce == nonce
                &&& opt_sudo(request.sudo) == opt_sudo(deploy_defs.sudo)
                &&& request.sudo_password == deploy_defs.sudo_password
                &&& request.interactive_sudo == switched(
                    deploy_data.merged_settings.interactive_sudo,
                    false,
                )
                &&& request.profile_user@ == deploy_defs.profile_user@
                &&& command@ == command_line(
                    "ssh"@,
                    ssh_args(
                        deploy_defs.ssh_user@,
                        deploy_data.host(),
                        confirm_opts(deploy_data.merged_settings@.ssh_opts, fresh_connection),
                        activate_rs_line(closure@, "confirm-session"@),
                    ),
                ).with_streams(Some(Stream::Piped), None, None)
            },
            Err(e) => {
                &&& !is_remote_closure(closure@)
                &&& e matches RemoteConfirmError::RemoteCommand(why) && match why {
                    RemoteCommandError::NotStorePath(path) => path@ == closure@
                        && !"/nix/store/"@.is_prefix_of(path@),
                    RemoteCommandError::NulByte => "/nix/store/"@.is_prefix_of(closure@),
                }
            },
        },
{
    match remote_activate_rs_command(closure, "confirm-session") {
        Ok(line) => {
            let command = confirm_command(
                deploy_data,
                deploy_defs,
                line.as_str(),
                fresh_connection,
            );
            Ok(
                (
                    confirm_request(deploy_data, deploy_defs, temp_path, session_id, nonce),
                    command,
                ),
            )
        },
        Err(why) => Err(RemoteConfirmError::RemoteCommand(why)),
    }
}

/// The last word of a session is understood: a report that follows on events
/// with the local version of the protocol is what the session comes to.
pub proof fn law_finished_is_understood(
    events: Seq<RemoteEvent>,
    ok: bool,
    rolled_back: bool,
    message: String,
)
    requires
        after_events(events) is Ok,
    ensures
        after_events(events.push(RemoteEvent::Finished { ok, rolled_back, message })) == Ok::<
            Report,
            u16,
        >(Some((ok, message@))),
{
    let event = RemoteEvent::Finished { ok, rolled_back, message };
    assert(events.push(event).drop_last() =~= events);
}

/// What is asked of a remote machine about a profile is what the settings of the
/// profile say: activations are taken back and waited for unless that is switched off,
/// for half a minute unless another time is set.
pub proof fn law_request_follows_the_settings(
    deploy_data: DeployData<'_>,
    deploy_defs: DeployDefs,
    dry_activate: bool,
    boot: bool,
    review_changes: bool,
    r: Result<RemoteDeployRequest, DeployProfileError>,
)
    requires
        call_ensures(
            deploy_request,
            (&deploy_data, &deploy_defs, dry_activate, boot, review_changes),
            r,
        ),
        r is Ok,
    ensures
        r->Ok_0.closure@ == deploy_data.profile.profile_settings.path@,
        r->Ok_0.profile_user@ == deploy_defs.profile_user@,
        r->Ok_0.dry_activate == dry_activate,
        r->Ok_0.boot == boot,
        r->Ok_0.review_changes == review_changes,
        r->Ok_0.auto_rollback <==> deploy_data.merged_settings.auto_rollback != Some(false),
        r->Ok_0.magic_rollback <==> deploy_data.merged_settings.magic_rollback != Some(false),
        deploy_data.merged_settings.confirm_timeout is Some ==> r->Ok_0.confirm_timeout
            == deploy_data.merged_settings.confirm_timeout->0,
        deploy_data.merged_settings.confirm_timeout is None ==> r->Ok_0.confirm_timeout == 30,
        r->Ok_0.activation_timeout == deploy_data.merged_settings.activation_timeout,
        deploy_data.merged_settings.temp_path is Some ==> r->Ok_0.temp_path@
            == deploy_data.merged_settings.temp_path->0@,
        deploy_data.merged_settings.temp_path is None ==> r->Ok_0.temp_path@ == "/tmp"@,
        r->Ok_0.debug_logs == deploy_data.debug_logs,
        opt_text(r->Ok_0.log_dir) == opt_str(deploy_data.log_dir),
{
}

/// A profile is revoked where it was deployed: the same profile of the same user, by the
/// program of the same closure and with the same directory for temporary files.
pub proof fn law_revoked_is_what_was_deployed(
    deploy_data: DeployData<'_>,
    deploy_defs: DeployDefs,
    dry_activate: bool,
    boot: bool,
    review_changes: bool,
    deployed: Result<RemoteDeployRequest, DeployProfileError>,
    revoked: Result<RemoteRevokeRequest, RevokeProfileError>,
)
    requires
        call_ensures(
            deploy_request,
            (&deploy_data, &deploy_defs, dry_activate, boot, review_changes),
            deployed,
        ),
        call_ensures(revoke_request, (&deploy_data, &deploy_defs), revoked),
    ensures
        deployed is Ok <==> revoked is Ok,
        deployed is Ok ==> {
            &&& deployed->Ok_0.closure@ == revoked->Ok_0.closure@
            &&& deployed->Ok_0.profile_user@ == revoked->Ok_0.profile_user@
            &&& deployed->Ok_0.temp_path@ == revoked->Ok_0.temp_path@
            &&& deployed->Ok_0.debug_logs == revoked->Ok_0.debug_logs
            &&& opt_text(deployed->Ok_0.log_dir) == opt_text(revoked->Ok_0.log_dir)
            &&& match (deployed->Ok_0.profile, revoked->Ok_0.profile) {
                (
                    ProfileTarget::ProfilePath { profile_path: a },
                    ProfileTarget::ProfilePath { profile_path: b },
                ) => a@ == b@,
                (
                    ProfileTarget::ProfileUserAndName { profile_user: a, profile_name: n },
                    ProfileTarget::ProfileUserAndName { profile_user: b, profile_name: m },
                ) => a@ == b@ && n@ == m@,
                _ => false,
            }
        },
{
}

/// The profile that is asked for is the one at the path that is given for it, and
/// otherwise the one with its name of its own user, or of the SSH user where it has
/// none.
pub proof fn law_requested_profile_is_the_one_configured(
    deploy_data: DeployData<'_>,
    deploy_defs: DeployDefs,
    r: Result<RemoteRevokeRequest, RevokeProfileError>,
)
    requires
        call_ensures(revoke_request, (&deploy_data, &deploy_defs), r),
    ensures
        r is Err <==> deploy_data.profile.profile_settings.profile_path is None
            && deploy_data.merged_settings.user is None && deploy_data.merged_settings.ssh_user
            is None,
        r is Ok && deploy_data.profile.profile_settings.profile_path is Some ==> (
        r->Ok_0.profile matches ProfileTarget::ProfilePath { profile_path } && profile_path@
            == deploy_data.profile.profile_settings.profile_path->0@),
        r is Ok && deploy_data.profile.profile_settings.profile_path is None ==> (
        r->Ok_0.profile matches ProfileTarget::ProfileUserAndName { profile_user, profile_name }
            && profile_name@ == deploy_data.profile_name@ && profile_user@ == (
        match deploy_data.merged_settings.user {
            Some(user) => user@,
            None => deploy_data.merged_settings.ssh_user->0@,
        })),
{
}

/// A session runs on the host of its profile, as the user that connects and with all SSH
/// options of the profile: the host of the command line where one is given there, and
/// else that of the node. The last argument is what is run there.
pub proof fn law_session_runs_on_the_host_of_the_profile(
    deploy_data: DeployData<'_>,
    deploy_defs: DeployDefs,
    remote_command: &str,
    host: &str,
    r: Command,
)
    requires
        call_ensures(session_command, (&deploy_data, &deploy_defs, remote_command), r),
        call_ensures(DeployData::hostname, (&deploy_data,), host),
    ensures
        r.program@ == "ssh"@,
        texts(r.args@) == seq![deploy_defs.ssh_user@ + "@"@ + host@] + texts(
            deploy_data.merged_settings.ssh_opts@,
        ) + seq![remote_command@],
        deploy_data.cmd_overrides.hostname is Some ==> host@
            == deploy_data.cmd_overrides.hostname->0@,
        deploy_data.cmd_overrides.hostname is None ==> host@
            == deploy_data.node.node_settings.hostname@,
        r.stdin == Some(Stream::Piped),
        r.stdout == Some(Stream::Piped),
        r.stderr == Some(Stream::Inherit),
{
    assert(texts(r.args@) =~= seq![deploy_defs.ssh_user@ + "@"@ + host@] + texts(
        deploy_data.merged_settings.ssh_opts@,
    ) + seq![remote_command@]);
}

/// A confirmation is given on the host of the session and as the same user: with the same
/// options where it may share the connection, and otherwise with those that do not speak
/// of sharing, and the order not to share.
pub proof fn law_confirmation_is_given_on_the_same_host(
    deploy_data: DeployData<'_>,
    deploy_defs: DeployDefs,
    remote_command: &str,
    fresh_connection: bool,
    kept: Vec<String>,
    session: Command,
    r: Command,
)
    requires
        call_ensures(session_command, (&deploy_data, &deploy_defs, remote_command), session),
        call_ensures(
            confirm_command,
            (&deploy_data, &deploy_defs, remote_command, fresh_connection),
            r,
        ),
        texts(kept@) == without_control(texts(deploy_data.merged_settings.ssh_opts@)),
    ensures
        r.program@ == session.program@,
        r@.args[0] == session@.args[0],
        r@.args.last() == remote_command@,
        !fresh_connection ==> texts(r.args@) == texts(session.args@),
        fresh_connection ==> texts(r.args@) == seq![session@.args[0]] + texts(kept@) + seq![
            "-o"@,
            "ControlPath=none"@,
            remote_command@,
        ],
        r.stdin == Some(Stream::Piped),
{
    if fresh_connection {
        assert(texts(r.args@) =~= seq![session@.args[0]] + texts(kept@) + seq![
            "-o"@,
            "ControlPath=none"@,
            remote_command@,
        ]);
    }
}

/// Options about sharing connections are taken out one by one, each with the `-o` before
/// it, and nothing else is: what becomes of a list is what becomes of its parts, unless
/// they are cut between the two.
pub proof fn law_control_opts_are_taken_out_one_by_one(
    before: Seq<Seq<char>>,
    after: Seq<Seq<char>>,
    control: Seq<char>,
    other: Seq<char>,
)
    requires
        occurs_in("ControlPath"@, control) || occurs_in("ControlMaster"@, control),
        !occurs_in("ControlPath"@, other) && !occurs_in("ControlMaster"@, other),
    ensures
        !(before.len() > 0 && before.last() == "-o"@ && after.len() > 0 && is_control_opt(
            after[0],
        )) ==> without_control(before + after) == without_control(before) + without_control(
            after,
        ),
        without_control(seq!["-o"@, control]) == Seq::<Seq<char>>::empty(),
        without_control(seq![control]) == Seq::<Seq<char>>::empty(),
        without_control(seq!["-o"@, other]) == seq!["-o"@, other],
        without_control(seq![other]) == seq![other],
    decreases before.len(),
{
    let none = Seq::<Seq<char>>::empty();
    assert(without_control(none) == none);
    assert(!is_control_opt("-o"@)) by {
        reveal_strlit("-o");
        reveal_strlit("ControlPath");
        reveal_strlit("ControlMaster");
    }
    assert(seq!["-o"@, control].skip(2) =~= none);
    assert(seq![control].skip(1) =~= none);
    assert(seq![other].skip(1) =~= none);
    assert(seq!["-o"@, other].skip(1) =~= seq![other]);
    if seq![control][0] == "-o"@ {
        assert(is_control_opt(control));
    }
    assert(without_control(seq![control]) == without_control(none));
    assert(without_control(seq![other]) =~= seq![other]);
    assert(without_control(seq!["-o"@, other]) =~= seq!["-o"@, other]);
    if !(before.len() > 0 && before.last() == "-o"@ && after.len() > 0 && is_control_opt(
        after[0],
    )) {
        let all = before + after;
        if before.len() == 0 {
            assert(all =~= after);
            assert(without_control(before) + without_control(after) =~= without_control(after));
        } else {
            assert(all[0] == before[0]);
            if before[0] == "-o"@ && before.len() > 1 && is_control_opt(before[1]) {
                assert(all[1] == before[1]);
                let rest = before.skip(2);
                assert(rest.len() > 0 ==> rest.last() == before.last());
                law_control_opts_are_taken_out_one_by_one(rest, after, control, other);
                assert(all.skip(2) =~= rest + after);
            } else {
                let rest = before.skip(1);
                assert(rest.len() > 0 ==> rest.last() == before.last());
                law_control_opts_are_taken_out_one_by_one(rest, after, control, other);
                assert(all.skip(1) =~= rest + after);
                if all.len() > 1 {
                    if before.len() > 1 {
                        assert(all[1] == before[1]);
                    } else {
                        assert(all[1] == after[0]);
                        assert(before.last() == before[0]);
                    }
                }
                assert(seq![before[0]] + (without_control(rest) + without_control(after))
                    =~= seq![before[0]] + without_control(rest) + without_control(after));
            }
        }
    }
}

/// The program that is run on a remote machine is that of the closure of the operation,
/// which has to be a store path; operations start a session with it, and confirmations
/// confirm one.
pub proof fn law_operations_use_the_program_of_their_closure(
    closure: &str,
    subcommand: &str,
    r: Result<String, RemoteCommandError>,
    path: Seq<char>,
)
    requires
        call_ensures(remote_activate_rs_command, (closure, subcommand), r),
        is_plain_word(subcommand@),
    ensures
        closure@ == "/nix/store/"@ + path && !closure@.contains('\0') ==> r is Ok
            && legacy_words(r->Ok_0@) == Ok::<_, SudoParseError>(
            seq![closure@ + "/activate-rs"@, subcommand@],
        ),
        closure@ == "/nix/store/"@ + path && closure@.contains('\0') ==> r matches Err(
            RemoteCommandError::NulByte,
        ),
        !"/nix/store/"@.is_prefix_of(closure@) ==> (r matches Err(
            RemoteCommandError::NotStorePath(named),
        ) && named@ == closure@),
{
    law_activate_rs_line_is_two_words(closure@, subcommand@);
    if closure@ == "/nix/store/"@ + path {
        assert(closure@.subrange(0, "/nix/store/"@.len() as int) =~= "/nix/store/"@);
    }
}

/// A remote operation is started with the request for it, by the version of the protocol
/// that is spoken here and with the sudo command and password of the profile, over the
/// same connection as any session of the profile.
pub proof fn law_operation_is_handed_over_whole(
    deploy_data: DeployData<'_>,
    deploy_defs: DeployDefs,
    operation: RemoteOperation,
    closure: &str,
    remote_command: &str,
    line: Result<String, RemoteCommandError>,
    subcommand: &str,
    session: Command,
    r: Result<(BootstrapRequest, Command), RemoteSessionError>,
)
    requires
        call_ensures(start_remote_operation, (&deploy_data, &deploy_defs, operation), r),
        call_ensures(RemoteOperation::closure, (&operation,), closure),
        subcommand@ == "bootstrap-session"@,
        call_ensures(remote_activate_rs_command, (closure, subcommand), line),
        line matches Ok(text) ==> remote_command@ == text@,
        call_ensures(session_command, (&deploy_data, &deploy_defs, remote_command), session),
    ensures
        r is Ok <==> line is Ok,
        r matches Ok((request, command)) ==> {
            &&& request.operation == operation
            &&& request.protocol_version == 1
            &&& opt_sudo(request.sudo) == opt_sudo(deploy_defs.sudo)
            &&& request.sudo_password == deploy_defs.sudo_password
            &&& request.interactive_sudo <==> deploy_data.merged_settings.interactive_sudo == Some(
                true,
            )
            &&& texts(command.args@) == texts(session.args@)
            &&& command.program@ == session.program@
        },
{
}

/// A confirmation carries the session and the nonce that were asked for, each in its own
/// place, to the directory in which the session waits.
pub proof fn law_confirmation_is_for_the_session_that_asked(
    deploy_data: DeployData<'_>,
    deploy_defs: DeployDefs,
    closure: &str,
    temp_path: &str,
    session_id: String,
    nonce: String,
    fresh_connection: bool,
    r: Result<(ConfirmRequest, Command), RemoteConfirmError>,
)
    requires
        call_ensures(
            start_confirmation,
            (
                &deploy_data,
                &deploy_defs,
                closure,
                temp_path,
                session_id,
                nonce,
                fresh_connection,
            ),
            r,
        ),
    ensures
        r is Ok <==> "/nix/store/"@.is_prefix_of(closure@) && !closure@.contains('\0'),
        r matches Ok((request, command)) ==> {
            &&& request.session_id@ == session_id@
            &&& request.nonce@ == nonce@
            &&& request.temp_path@ == temp_path@
            &&& request.profile_user@ == deploy_defs.profile_user@
            &&& opt_sudo(request.sudo) == opt_sudo(deploy_defs.sudo)
            &&& request.sudo_password == deploy_defs.sudo_password
            &&& request.interactive_sudo <==> deploy_data.merged_settings.interactive_sudo == Some(
                true,
            )
            &&& legacy_words(command@.args.last()) == Ok::<_, SudoParseError>(
                seq![closure@ + "/activate-rs"@, "confirm-session"@],
            )
        },
{
    if r is Ok {
        reveal_strlit("confirm-session");
        assert(is_plain_word("confirm-session"@));
        law_activate_rs_line_is_two_words(closure@, "confirm-session"@);
    }
}

/// A session has gone well exactly if the remote side reported so and its process exited
/// well. A failure that was reported is the one that counts, then how the process
/// exited.
pub proof fn law_session_went_well_only_if_reported(
    finished: Option<(bool, String)>,
    exit_success: bool,
    exit_code: Option<i32>,
    r: Result<(), RemoteSessionError>,
)
    requires
        call_ensures(
            interpret_remote_session_completion,
            (finished, exit_success, exit_code),
            r,
        ),
    ensures
        r is Ok <==> exit_success && (finished matches Some((true, _))),
        finished matches Some((false, message)) ==> (r matches Err(
            RemoteSessionError::RemoteFailed(m),
        ) && m == message),
        !(finished matches Some((false, _))) && !exit_success ==> (r matches Err(
            RemoteSessionError::RemoteExit(code),
        ) && code == exit_code),
        finished is None && exit_success ==> r matches Err(RemoteSessionError::MissingFinished),
{
}

/// What a session comes to is what its last report and its exit come to.
pub proof fn law_session_comes_to_its_last_report(
    session: RemoteSession,
    finished: Option<(bool, String)>,
    exit_success: bool,
    exit_code: Option<i32>,
    r: Result<(), RemoteSessionError>,
    judged: Result<(), RemoteSessionError>,
)
    requires
        call_ensures(RemoteSession::complete, (session, exit_success, exit_code), r),
        call_ensures(
            interpret_remote_session_completion,
            (finished, exit_success, exit_code),
            judged,
        ),
        session@ == (match finished {
            Some((ok, message)) => Some((ok, message@)),
            None => None,
        }),
    ensures
        r is Ok <==> judged is Ok,
        r is Err && judged is Err ==> match (r->Err_0, judged->Err_0) {
            (RemoteSessionError::RemoteFailed(a), RemoteSessionError::RemoteFailed(b)) => a@ == b@,
            (RemoteSessionError::RemoteExit(a), RemoteSessionError::RemoteExit(b)) => a == b,
            (RemoteSessionError::MissingFinished, RemoteSessionError::MissingFinished) => true,
            _ => false,
        },
{
}

/// Only a greeting in another version of the protocol ends a session early, and only a
/// report changes what is known of how it went.
pub proof fn law_events_change_only_the_report(report: Report, event: RemoteEvent)
    ensures
        after_event(report, event) is Err <==> event is Hello && event->protocol_version != 1,
        event is AwaitingConfirm ==> after_event(report, event) == Ok::<Report, u16>(report),
        event is Hello && event->protocol_version == 1 ==> after_event(report, event) == Ok::<
            Report,
            u16,
        >(report),
        event matches RemoteEvent::Finished { ok, rolled_back, message } ==> after_event(
            report,
            event,
        ) == Ok::<Report, u16>(Some((event->ok, event->message@))),
{
}

/// A line holds an event exactly if it is not blank.
pub proof fn law_blank_lines_hold_no_event(
    line: &str,
    r: bool,
    lead: Seq<char>,
    text: Seq<char>,
    end: Seq<char>,
)
    requires
        call_ensures(is_event_line, (line,), r),
        line@ == lead + text + end,
        forall|i: int| 0 <= i < lead.len() ==> is_space(#[trigger] lead[i]),
        text.len() > 0 ==> !is_space(text[0]) && !is_space(text.last()),
        forall|i: int| 0 <= i < end.len() ==> is_space(#[trigger] end[i]),
    ensures
        r <==> text.len() > 0,
{
    law_only_ends_are_trimmed(lead, text, end);
}

/// A confirmation has been given exactly if its process exited well.
pub proof fn law_confirmed_if_the_process_exited_well(
    success: bool,
    code: Option<i32>,
    r: Result<(), RemoteConfirmError>,
)
    requires
        call_ensures(interpret_confirm_exit, (success, code), r),
    ensures
        r is Ok <==> success,
        !success ==> (r matches Err(RemoteConfirmError::Exit(c)) && c == code),
{
}

/// The profile that a machine is to set is found there in the way in which it is known
/// here.
pub proof fn law_target_is_the_profile_that_is_known(info: ProfileInfo, r: ProfileTarget)
    requires
        call_ensures(profile_target, (info,), r),
    ensures
        match (info, r) {
            (
                ProfileInfo::ProfilePath { profile_path: a },
                ProfileTarget::ProfilePath { profile_path: b },
            ) => a@ == b@,
            (
                ProfileInfo::ProfileUserAndName { profile_user: a, profile_name: n },
                ProfileTarget::ProfileUserAndName { profile_user: b, profile_name: m },
            ) => a@ == b@ && n@ == m@,
            _ => false,
        },
{
}

/// A session is confirmed exactly where it asks for that, by the id and the nonce that it
/// gives.
pub proof fn law_confirmed_as_asked_for(event: RemoteEvent)
    ensures
        asked_step(event) is Confirm <==> event is AwaitingConfirm,
        asked_step(event) is Listen <==> !(event is AwaitingConfirm),
        event is AwaitingConfirm ==> asked_step(event)->session_id == event->session_id
            && asked_step(event)->nonce == event->nonce,
{
}

/// What is said of a remote confirmation that failed ends in why it did.
pub proof fn law_remote_confirmation_says_why_it_failed(e: RemoteConfirmError, r: String)
    requires
        call_ensures(RemoteConfirmError::message, (&e,), r),
    ensures
        match e {
            RemoteConfirmError::RemoteCommand(why) =>
                remote_command_error_text(why).is_suffix_of(r@),
            RemoteConfirmError::Serialize(why) => why@.is_suffix_of(r@),
            RemoteConfirmError::Spawn(why) => why@.is_suffix_of(r@),
            RemoteConfirmError::WriteRequest(why) => why@.is_suffix_of(r@),
            RemoteConfirmError::Exit(code) => shown_code(code).is_suffix_of(r@),
            RemoteConfirmError::Wait(why) => why@.is_suffix_of(r@),
            _ => true,
        },
{
    match e {
        RemoteConfirmError::RemoteCommand(why) => {
            lemma_ends_in(remote_command_error_text(why));
        },
        RemoteConfirmError::Serialize(why) => {
            lemma_ends_in(why@);
        },
        RemoteConfirmError::Spawn(why) => {
            lemma_ends_in(why@);
        },
        RemoteConfirmError::WriteRequest(why) => {
            lemma_ends_in(why@);
        },
        RemoteConfirmError::Exit(code) => {
            lemma_ends_in(shown_code(code));
        },
        RemoteConfirmError::Wait(why) => {
            lemma_ends_in(why@);
        },
        _ => {},
    }
}

/// What is said of a remote session that failed ends in why it did. Of two versions that
/// differ both are named, the own one first.
pub proof fn law_remote_session_says_why_it_failed(e: RemoteSessionError, r: String)
    requires
        call_ensures(RemoteSessionError::message, (&e,), r),
    ensures
        match e {
            RemoteSessionError::RemoteCommand(why) =>
                remote_command_error_text(why).is_suffix_of(r@),
            RemoteSessionError::Serialize(why) => why@.is_suffix_of(r@),
            RemoteSessionError::Spawn(why) => why@.is_suffix_of(r@),
            RemoteSessionError::WriteRequest(why) => why@.is_suffix_of(r@),
            RemoteSessionError::ReadEvent(why) => why@.is_suffix_of(r@),
            RemoteSessionError::DecodeEvent { line, source } =>
                (line@ + "`: "@ + source@).is_suffix_of(r@),
            RemoteSessionError::ProtocolVersion { local, remote } =>
                (decimal(local as nat) + ", remote="@ + decimal(remote as nat)).is_suffix_of(r@),
            RemoteSessionError::Confirm(why) => remote_confirm_error_text(why).is_suffix_of(r@),
            RemoteSessionError::RemoteFailed(why) => why@.is_suffix_of(r@),
            RemoteSessionError::RemoteExit(code) => shown_code(code).is_suffix_of(r@),
            RemoteSessionError::Wait(why) => why@.is_suffix_of(r@),
            _ => true,
        },
{
    match e {
        RemoteSessionError::RemoteCommand(why) => {
            lemma_ends_in(remote_command_error_text(why));
        },
        RemoteSessionError::Serialize(why) => {
            lemma_ends_in(why@);
        },
        RemoteSessionError::Spawn(why) => {
            lemma_ends_in(why@);
        },
        RemoteSessionError::WriteRequest(why) => {
            lemma_ends_in(why@);
        },
        RemoteSessionError::ReadEvent(why) => {
            lemma_ends_in(why@);
        },
        RemoteSessionError::DecodeEvent { line, source } => {
            lemma_ends_in_parts(line@, "`: "@, source@);
        },
        RemoteSessionError::ProtocolVersion { local, remote } => {
            lemma_ends_in_parts(decimal(local as nat), ", remote="@, decimal(remote as nat));
        },
        RemoteSessionError::Confirm(why) => {
            lemma_ends_in(remote_confirm_error_text(why));
        },
        RemoteSessionError::RemoteFailed(why) => {
            lemma_ends_in(why@);
        },
        RemoteSessionError::RemoteExit(code) => {
            lemma_ends_in(shown_code(code));
        },
        RemoteSessionError::Wait(why) => {
            lemma_ends_in(why@);
        },
        _ => {},
    }
}

/// What is said of deploying that failed ends in why it did.
pub proof fn law_deploying_says_why_it_failed(e: DeployProfileError, r: String)
    requires
        call_ensures(DeployProfileError::message, (&e,), r),
    ensures
        match e {
            DeployProfileError::RemoteSession(why) =>
                remote_session_error_text(why).is_suffix_of(r@),
            DeployProfileError::InvalidDeployDataDefs(why) =>
                deploy_data_defs_error_text(why).is_suffix_of(r@),
        },
{
    match e {
        DeployProfileError::RemoteSession(why) => {
            lemma_ends_in(remote_session_error_text(why));
        },
        DeployProfileError::InvalidDeployDataDefs(why) => {
            lemma_ends_in(deploy_data_defs_error_text(why));
        },
    }
}

/// What is said of revoking that failed ends in why it did.
pub proof fn law_revoking_says_why_it_failed(e: RevokeProfileError, r: String)
    requires
        call_ensures(RevokeProfileError::message, (&e,), r),
    ensures
        match e {
            RevokeProfileError::RemoteSession(why) =>
                remote_session_error_text(why).is_suffix_of(r@),
            RevokeProfileError::InvalidDeployDataDefs(why) =>
                deploy_data_defs_error_text(why).is_suffix_of(r@),
        },
{
    match e {
        RevokeProfileError::RemoteSession(why) => {
            lemma_ends_in(remote_session_error_text(why));
        },
        RevokeProfileError::InvalidDeployDataDefs(why) => {
            lemma_ends_in(deploy_data_defs_error_text(why));
        },
    }
}

} // verus!
