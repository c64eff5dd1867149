//! Building profiles, and bringing what was built to the machines that it is
//! for.
use vstd::prelude::*;

use crate::command::{
    command_error_text, command_line, Command, CommandError, HasCommandError, Stream,
};
use crate::deployment::{DeployData, DeployDefs};
use crate::json::{json_of_bytes, parse_bytes, Json, JsonValue};
use crate::names::{lemma_position_of, lookup};
use crate::text::{
    before_first, decimal, decimal_text, is_shown_as, join_path, law_prefix_ends_at_the_first,
    opt_str, path_under, prefix_before, strs, texts,
};

verus! {

/// What can be wrong with the output of `nix show-derivation`.
#[derive(Debug)]
pub enum ShowDerivationError {
    Utf8(String),
    Parse(String),
    Invalid,
    Empty,
}

impl HasCommandError for ShowDerivationError {
    open spec fn title_text() -> Seq<char> {
        "Nix show derivation"@
    }

    open spec fn error_text(&self) -> Seq<char> {
        match *self {
            ShowDerivationError::Utf8(err) =>
                "Nix show-derivation command output contained an invalid UTF-8 sequence: "@ + err@,
            ShowDerivationError::Parse(err) =>
                "Failed to parse the output of nix show-derivation: "@ + err@,
            ShowDerivationError::Invalid => "Nix show derivation output is not an object"@,
            ShowDerivationError::Empty => "Nix show-derivation output is empty"@,
        }
    }

    fn title() -> (r: String) {
        "Nix show derivation".to_string()
    }

    fn message(&self) -> (r: String) {
        match self {
            ShowDerivationError::Utf8(err) => {
                "Nix show-derivation command output contained an invalid UTF-8 sequence: ".to_string()
                    .concat(
                err.as_str())
            },
            ShowDerivationError::Parse(err) => {
                "Failed to parse the output of nix show-derivation: ".to_string().concat(
                    err.as_str(),
                )
            },
            ShowDerivationError::Invalid => {
                "Nix show derivation output is not an object".to_string()
            },
            ShowDerivationError::Empty => "Nix show-derivation output is empty".to_string(),
        }
    }
}

/// What can be wrong with the output of `nix build`, which is not looked into for
/// errors: a message from elsewhere.
#[derive(Debug)]
pub enum BuildError {
    Other(String),
}

impl HasCommandError for BuildError {
    open spec fn title_text() -> Seq<char> {
        "Nix build"@
    }

    open spec fn error_text(&self) -> Seq<char> {
        match *self {
            BuildError::Other(err) => err@,
        }
    }

    fn title() -> (r: String) {
        "Nix build".to_string()
    }

    fn message(&self) -> (r: String) {
        match self {
            BuildError::Other(err) => err.clone(),
        }
    }
}

/// What can be wrong with the output of `nix copy`, which is not looked into for
/// errors: a message from elsewhere.
#[derive(Debug)]
pub enum CopyError {
    Other(String),
}

impl HasCommandError for CopyError {
    open spec fn title_text() -> Seq<char> {
        "Nix copy"@
    }

    open spec fn error_text(&self) -> Seq<char> {
        match *self {
            CopyError::Other(err) => err@,
        }
    }

    fn title() -> (r: String) {
        "Nix copy".to_string()
    }

    fn message(&self) -> (r: String) {
        match self {
            CopyError::Other(err) => err.clone(),
        }
    }
}

/// What can be wrong with the output of signing a profile, which is not looked into for
/// errors: a message from elsewhere.
#[derive(Debug)]
pub enum SignError {
    Other(String),
}

impl HasCommandError for SignError {
    open spec fn title_text() -> Seq<char> {
        "Nix sign"@
    }

    open spec fn error_text(&self) -> Seq<char> {
        match *self {
            SignError::Other(err) => err@,
        }
    }

    fn title() -> (r: String) {
        "Nix sign".to_string()
    }

    fn message(&self) -> (r: String) {
        match self {
            SignError::Other(err) => err.clone(),
        }
    }
}

/// What can be wrong with the output of `nix path-info`, which is not looked into for
/// errors: a message from elsewhere.
#[derive(Debug)]
pub enum PathInfoError {
    Other(String),
}

impl HasCommandError for PathInfoError {
    open spec fn title_text() -> Seq<char> {
        "Nix path-info"@
    }

    open spec fn error_text(&self) -> Seq<char> {
        match *self {
            PathInfoError::Other(err) => err@,
        }
    }

    fn title() -> (r: String) {
        "Nix path-info".to_string()
    }

    fn message(&self) -> (r: String) {
        match self {
            PathInfoError::Other(err) => err.clone(),
        }
    }
}

/// What can be wrong with the output of `nix store ls`, which is not looked into for
/// errors: a message from elsewhere.
#[derive(Debug)]
pub enum StoreLsError {
    Other(String),
}

impl HasCommandError for StoreLsError {
    open spec fn title_text() -> Seq<char> {
        "Nix store ls"@
    }

    open spec fn error_text(&self) -> Seq<char> {
        match *self {
            StoreLsError::Other(err) => err@,
        }
    }

    fn title() -> (r: String) {
        "Nix store ls".to_string()
    }

    fn message(&self) -> (r: String) {
        match self {
            StoreLsError::Other(err) => err.clone(),
        }
    }
}

/// Why profiles were not built or not brought to their machines.
#[derive(Debug)]
pub enum PushProfileError {
    ShowDerivation(CommandError<ShowDerivationError>),
    Build(CommandError<BuildError>),
    DeployRsActivateDoesntExist,
    ActivateRsDoesntExist,
    Sign(CommandError<SignError>),
    Copy(CommandError<CopyError>),
    CopyGroup {
        nodes: String,
        target: String,
        profiles: String,
        source: Box<CommandError<CopyError>>,
    },
    PathInfo(CommandError<PathInfoError>),
    StoreLs(CommandError<StoreLsError>),
    StoreLsParse(String),
    BuildStdoutUtf8(String),
    BuildStdoutEmpty,
    BuildStdoutPathCount { actual: usize, expected: usize, paths: String },
    BuildStdoutParse(String),
    BuildStdoutMissingDerivation(String),
    BuildStdoutInvalidDerivation,
    LegacyNonDefaultOutput(String),
    SshOptionsQuote(String),
}

/// What is shown of a `PushProfileError`.
pub open spec fn push_profile_error_text(e: PushProfileError) -> Seq<char> {
    match e {
        PushProfileError::ShowDerivation(err) => command_error_text(err),
        PushProfileError::Build(err) => command_error_text(err),
        PushProfileError::DeployRsActivateDoesntExist =>
            "Activation script deploy-rx-activate does not exist in profile.\nDid you forget to use deploy-rx#lib.<...>.activate.<...> on your profile path?"@,
        PushProfileError::ActivateRsDoesntExist =>
            "Activation script activate-rs does not exist in profile.\nIs there a mismatch in deploy-rx used in the flake you're deploying and deploy-rx command you're running?"@,
        PushProfileError::Sign(err) => command_error_text(err),
        PushProfileError::Copy(err) => command_error_text(err),
        PushProfileError::CopyGroup { nodes: _, target, profiles, source } =>
            "Failed to run Nix copy command to "@ + target@ + " for "@ + profiles@ + ": "@
                + command_error_text(*source),
        PushProfileError::PathInfo(err) => command_error_text(err),
        PushProfileError::StoreLs(err) => command_error_text(err),
        PushProfileError::StoreLsParse(err) =>
            "Failed to parse the JSON output of nix store ls: "@ + err@,
        PushProfileError::BuildStdoutUtf8(err) =>
            "Nix build command output contained an invalid UTF-8 sequence: "@ + err@,
        PushProfileError::BuildStdoutEmpty =>
            "Nix build command succeeded but printed no output path"@,
        PushProfileError::BuildStdoutPathCount { actual, expected, paths } =>
            "Nix build command printed "@ + decimal(actual as nat) + " output paths, expected "@
                + decimal(expected as nat) + ": "@ + paths@,
        PushProfileError::BuildStdoutParse(err) =>
            "Failed to parse the JSON output of nix build: "@ + err@,
        PushProfileError::BuildStdoutMissingDerivation(derivation) =>
            "Nix build JSON output did not contain the requested derivation output "@ + derivation@,
        PushProfileError::BuildStdoutInvalidDerivation =>
            "Nix build JSON output contained an invalid derivation identity"@,
        PushProfileError::LegacyNonDefaultOutput(output) =>
            "The legacy nix-build command cannot build the non-default `"@ + output@
                + "` derivation output"@,
        PushProfileError::SshOptionsQuote(err) => "Failed to encode SSH options: "@ + err@,
    }
}

impl PushProfileError {
    /// The message for this error.
    pub fn message(&self) -> (r: String)
        ensures
            r@ == push_profile_error_text(*self),
    {
        match self {
            PushProfileError::ShowDerivation(err) => err.message(),
            PushProfileError::Build(err) => err.message(),
            PushProfileError::DeployRsActivateDoesntExist => {
                "Activation script deploy-rx-activate does not exist in profile.\nDid you forget to use deploy-rx#lib.<...>.activate.<...> on your profile path?".to_string()
            },
            PushProfileError::ActivateRsDoesntExist => {
                "Activation script activate-rs does not exist in profile.\nIs there a mismatch in deploy-rx used in the flake you're deploying and deploy-rx command you're running?".to_string()
            },
            PushProfileError::Sign(err) => err.message(),
            PushProfileError::Copy(err) => err.message(),
            PushProfileError::CopyGroup { nodes: _, target, profiles, source } => {
                "Failed to run Nix copy command to ".to_string()
                    .concat(target.as_str())
                    .concat(" for ")
                    .concat(profiles.as_str())
                    .concat(": ")
                    .concat(source.message().as_str())
            },
            PushProfileError::PathInfo(err) => err.message(),
            PushProfileError::StoreLs(err) => err.message(),
            PushProfileError::StoreLsParse(err) => {
                "Failed to parse the JSON output of nix store ls: ".to_string().concat(err.as_str())
            },
            PushProfileError::BuildStdoutUtf8(err) => {
                "Nix build command output contained an invalid UTF-8 sequence: ".to_string()
                    .concat(err.as_str())
            },
            PushProfileError::BuildStdoutEmpty => {
                "Nix build command succeeded but printed no output path".to_string()
            },
            PushProfileError::BuildStdoutPathCount { actual, expected, paths } => {
                "Nix build command printed ".to_string()
                    .concat(decimal_text(*actual as u64).as_str())
                    .concat(" output paths, expected ")
                    .concat(decimal_text(*expected as u64).as_str())
                    .concat(": ")
                    .concat(paths.as_str())
            },
            PushProfileError::BuildStdoutParse(err) => {
                "Failed to parse the JSON output of nix build: ".to_string().concat(err.as_str())
            },
            PushProfileError::BuildStdoutMissingDerivation(derivation) => {
                "Nix build JSON output did not contain the requested derivation output ".to_string()
                    .concat(derivation.as_str())
            },
            PushProfileError::BuildStdoutInvalidDerivation => {
                "Nix build JSON output contained an invalid derivation identity".to_string()
            },
            PushProfileError::LegacyNonDefaultOutput(output) => {
                "The legacy nix-build command cannot build the non-default `".to_string()
                    .concat(output.as_str())
                    .concat("` derivation output")
            },
            PushProfileError::SshOptionsQuote(err) => {
                "Failed to encode SSH options: ".to_string().concat(err.as_str())
            },
        }
    }
}

impl PushProfileError {
    /// The nodes that the error is about, where it is about certain ones.
    pub fn node_context(&self) -> (r: Option<&str>)
        ensures
            opt_str(r) == (match *self {
                PushProfileError::CopyGroup { nodes, .. } => Some(nodes@),
                _ => None,
            }),
    {
        match self {
            PushProfileError::CopyGroup { nodes, .. } => Some(nodes.as_str()),
            _ => None,
        }
    }
}

/// A profile that is to be built and brought to its machine, and how.
pub struct PushProfileData<'a> {
    pub supports_flakes: bool,
    pub check_sigs: bool,
    pub repo: &'a str,
    pub deploy_data: &'a DeployData<'a>,
    pub deploy_defs: &'a DeployDefs,
    pub keep_result: bool,
    pub result_path: Option<&'a str>,
    pub extra_build_args: &'a [String],
    pub build_tree: bool,
}

/// The command that copies a derivation to a remote store. A nested dynamic
/// installable such as `outer.drv^out^out` has to be resolved on the machine
/// that builds it, so only the outer derivation is copied.
pub fn make_remote_derivation_copy_command(
    store_address: &str,
    ssh_opts: &str,
    derivation_name: &str,
) -> (r: Command)
    ensures
        r@ == command_line(
            "nix"@,
            seq![
                "--experimental-features"@,
                "nix-command"@,
                "copy"@,
                "-s"@,
                "--to"@,
                store_address@,
                "--derivation"@,
                before_first(derivation_name@, '^'),
            ],
        ).with_env("NIX_SSHOPTS"@, ssh_opts@).with_streams(None, Some(Stream::Null), None),
{
    let outer_derivation = prefix_before(derivation_name, '^');
    Command::new("nix").arg("--experimental-features").arg("nix-command").arg("copy").arg("-s").arg(
        "--to",
    ).arg(store_address).arg("--derivation").arg(outer_derivation.as_str()).env(
        "NIX_SSHOPTS",
        ssh_opts,
    ).streams(None, Some(Stream::Null), None)
}

/// The command that builds a derivation in a remote store.
pub fn make_remote_build_command(
    store_address: &str,
    ssh_opts: &str,
    derivation_name: &str,
    extra_build_args: &[String],
) -> (r: Command)
    ensures
        r@ == command_line(
            "nix"@,
            seq![
                "--experimental-features"@,
                "nix-command"@,
                "build"@,
                derivation_name@,
                "--eval-store"@,
                "auto"@,
                "--store"@,
                store_address@,
                "--json"@,
            ] + texts(extra_build_args@),
        ).with_env("NIX_SSHOPTS"@, ssh_opts@),
{
    Command::new("nix").arg("--experimental-features").arg("nix-command").arg("build").arg(
        derivation_name,
    ).arg("--eval-store").arg("auto").arg("--store").arg(store_address).arg("--json").args(
        extra_build_args,
    ).env("NIX_SSHOPTS", ssh_opts)
}

/// The command that lists a path of a remote store.
pub fn make_remote_store_ls_command(store_address: &str, ssh_opts: &str, path: &str) -> (r: Command)
    ensures
        r@ == command_line(
            "nix"@,
            seq![
                "--experimental-features"@,
                "nix-command"@,
                "store"@,
                "ls"@,
                "--json"@,
                "--store"@,
                store_address@,
                path@,
            ],
        ).with_env("NIX_SSHOPTS"@, ssh_opts@).with_streams(None, Some(Stream::Null), None),
{
    Command::new("nix").arg("--experimental-features").arg("nix-command").arg("store").arg(
        "ls",
    ).arg("--json").arg("--store").arg(store_address).arg(path).env("NIX_SSHOPTS", ssh_opts).streams(
        None,
        Some(Stream::Null),
        None,
    )
}

/// The command that signs a closure in a remote store.
pub fn make_remote_sign_command(
    store_address: &str,
    ssh_opts: &str,
    key_file: &str,
    closure: &str,
) -> (r: Command)
    ensures
        r@ == command_line(
            "nix"@,
            seq![
                "--experimental-features"@,
                "nix-command"@,
                "store"@,
                "sign"@,
                "--store"@,
                store_address@,
                "--recursive"@,
                "--key-file"@,
                key_file@,
                closure@,
            ],
        ).with_env("NIX_SSHOPTS"@, ssh_opts@),
{
    Command::new("nix").arg("--experimental-features").arg("nix-command").arg("store").arg(
        "sign",
    ).arg("--store").arg(store_address).arg("--recursive").arg("--key-file").arg(key_file).arg(
        closure,
    ).env("NIX_SSHOPTS", ssh_opts)
}

/// The command that signs a closure in the local store.
pub fn make_sign_command(key_file: &str, closure: &str) -> (r: Command)
    ensures
        r@ == command_line("nix"@, seq!["sign-paths"@, "-r"@, "-k"@, key_file@, closure@]),
{
    Command::new("nix").arg("sign-paths").arg("-r").arg("-k").arg(key_file).arg(closure)
}

/// The error of `shlex::try_join`.
#[verifier::external_type_specification]
#[verifier::external_body]
pub struct ExQuoteError(shlex::QuoteError);

/// The shell text that `shlex::try_join` makes of words.
pub uninterp spec fn shell_joined(words: Seq<Seq<char>>) -> Seq<char>;

/// Some word holds a NUL character.
pub open spec fn has_nul(words: Seq<Seq<char>>) -> bool {
    exists|i: int| 0 <= i < words.len() && (#[trigger] words[i]).contains('\0')
}

/// The words that `shlex::split` finds in a shell text; none where a quotation or
/// an escape in it is not closed.
pub uninterp spec fn shell_split(text: Seq<char>) -> Option<Seq<Seq<char>>>;

/// `shlex::split` of the crate `shlex`: the words of a shell text, and none where
/// it is malformed. Which words those are is left to the name `shell_split`.
pub assume_specification[ shlex::split ](in_str: &str) -> (r: Option<Vec<String>>)
    ensures
        match r {
            Some(words) => shell_split(in_str@) == Some(texts(words@)),
            None => shell_split(in_str@) is None,
        },
;

/// What is shown of the error for a word that holds a NUL character.
pub open spec fn nul_fault() -> Seq<char> {
    "cannot shell-quote string containing nul byte"@
}

/// `shlex::try_join` of the crate `shlex`: the words, quoted where that is
/// necessary, with a space between each two, and an error exactly where a word
/// holds a NUL character. The text itself is left to the name `shell_joined`;
/// it is stated that `shlex::split` finds the same words in it again, and how the
/// error is shown.
#[verifier::external_body]
fn shell_join(words: &[String]) -> (r: Result<String, shlex::QuoteError>)
    ensures
        match r {
            Ok(text) => {
                &&& !has_nul(texts(words@))
                &&& text@ == shell_joined(texts(words@))
                &&& shell_split(text@) == Some(texts(words@))
            },
            Err(error) => has_nul(texts(words@)) && is_shown_as(error, nul_fault()),
        },
{
    shlex::try_join(words.iter().map(String::as_str))
}

/// `e` is the error for SSH options of which one holds a NUL character.
pub open spec fn is_nul_error(e: PushProfileError) -> bool {
    e matches PushProfileError::SshOptionsQuote(fault) && fault@ == nul_fault()
}

/// `text` is the encoding of SSH options, in which each of them is found again as a
/// word of its own.
pub open spec fn is_encoding(text: Seq<char>, ssh_opts: Seq<Seq<char>>) -> bool {
    &&& text == shell_joined(ssh_opts)
    &&& shell_split(text) == Some(ssh_opts)
}

/// The SSH options as one text, in which each of them is a word of its own: options
/// without a NUL character are encoded, and `decode_ssh_opts` gives them back.
pub fn encode_ssh_opts(ssh_opts: &[String]) -> (r: Result<String, PushProfileError>)
    ensures
        !has_nul(texts(ssh_opts@)) ==> r is Ok,
        match r {
            Ok(text) => !has_nul(texts(ssh_opts@)) && is_encoding(text@, texts(ssh_opts@)),
            Err(e) => has_nul(texts(ssh_opts@)) && is_nul_error(e),
        },
{
    match shell_join(ssh_opts) {
        Ok(text) => Ok(text),
        Err(err) => Err(PushProfileError::SshOptionsQuote(err.to_string())),
    }
}

/// The SSH options that an encoding holds, word by word.
pub fn decode_ssh_opts(text: &str) -> (r: Option<Vec<String>>)
    ensures
        match r {
            Some(ssh_opts) => shell_split(text@) == Some(texts(ssh_opts@)),
            None => shell_split(text@) is None,
        },
        forall|ssh_opts: Seq<Seq<char>>|
            #![trigger is_encoding(text@, ssh_opts)]
            is_encoding(text@, ssh_opts) ==> (r matches Some(words) && texts(words@) == ssh_opts),
{
    shlex::split(text)
}

/// An encoding holds the boundaries of the options: it is that of one list of
/// options alone.
pub proof fn law_encoding_is_of_one_list(
    text: Seq<char>,
    ssh_opts: Seq<Seq<char>>,
    other: Seq<Seq<char>>,
)
    requires
        is_encoding(text, ssh_opts),
        is_encoding(text, other),
    ensures
        ssh_opts == other,
{
}

impl<'a> PushProfileData<'a> {
    /// The SSH options that hold for the profile.
    pub open spec fn ssh_opts(&self) -> Seq<Seq<char>> {
        self.deploy_data.merged_settings@.ssh_opts
    }

    /// The address of the store on the machine of the profile.
    pub open spec fn store_address(&self) -> Seq<char> {
        "ssh-ng://"@ + self.deploy_defs.ssh_user@ + "@"@ + self.deploy_data.host()
    }
}

/// The address of the store on the machine of a profile, and the encoded SSH
/// options with which it is reached.
pub fn remote_store(data: &PushProfileData<'_>) -> (r: Result<(String, String), PushProfileError>)
    ensures
        match r {
            Ok((address, opts)) => {
                &&& !has_nul(data.ssh_opts())
                &&& address@ == data.store_address()
                &&& is_encoding(opts@, data.ssh_opts())
            },
            Err(e) => has_nul(data.ssh_opts()) && is_nul_error(e),
        },
{
    let address = "ssh-ng://".to_string().concat(data.deploy_defs.ssh_user.as_str()).concat(
        "@",
    ).concat(data.deploy_data.hostname());
    match encode_ssh_opts(data.deploy_data.merged_settings.ssh_opts.as_slice()) {
        Ok(opts) => Ok((address, opts)),
        Err(e) => Err(e),
    }
}

/// The names of a profile that is built.
pub struct BuildCommandInfo<'a> {
    pub node_name: &'a str,
    pub profile_name: &'a str,
}

/// The names of a node and of a profile on it.
pub type ProfileNames = (Seq<char>, Seq<char>);

/// The names of the profiles that are built.
pub open spec fn info_names(profiles: Seq<BuildCommandInfo<'_>>) -> Seq<ProfileNames> {
    profiles.map_values(|info: BuildCommandInfo<'_>| (info.node_name@, info.profile_name@))
}

/// Where the links to what is built go: one profile has a place of its own,
/// several ones share one.
pub open spec fn out_link(result_path: Option<Seq<char>>, profiles: Seq<ProfileNames>) -> Seq<
    char,
> {
    let base = match result_path {
        Some(path) => path,
        None => "./.deploy-gc"@,
    };
    if profiles.len() == 1 {
        path_under(path_under(base, profiles[0].0), profiles[0].1)
    } else {
        path_under(base, "profiles"@)
    }
}

/// The arguments of a local build.
pub open spec fn build_args(
    supports_flakes: bool,
    keep_result: bool,
    result_path: Option<Seq<char>>,
    extra_build_args: Seq<Seq<char>>,
    derivations: Seq<Seq<char>>,
    profiles: Seq<ProfileNames>,
) -> Seq<Seq<char>> {
    let start = if supports_flakes {
        seq!["build"@, "--json"@]
    } else {
        Seq::empty()
    };
    let links = if keep_result {
        seq!["--out-link"@, out_link(result_path, profiles)]
    } else if supports_flakes {
        seq!["--no-link"@]
    } else {
        seq!["--no-out-link"@]
    };
    start + derivations + links + extra_build_args
}

/// The command that builds derivations locally. What is built is reported as
/// JSON, together with the derivation that it belongs to, or by `nix-build` as
/// plain paths.
pub fn make_build_command(
    supports_flakes: bool,
    keep_result: bool,
    result_path: Option<&str>,
    extra_build_args: &[String],
    derivations: &[&str],
    profiles: &[BuildCommandInfo<'_>],
) -> (r: Command)
    ensures
        r@ == command_line(
            if supports_flakes {
                "nix"@
            } else {
                "nix-build"@
            },
            build_args(
                supports_flakes,
                keep_result,
                opt_str(result_path),
                texts(extra_build_args@),
                strs(derivations@),
                info_names(profiles@),
            ),
        ),
{
    let command = if supports_flakes {
        Command::new("nix").arg("build").arg("--json")
    } else {
        Command::new("nix-build")
    };
    let ghost start = command@.args;
    assert(start =~= (if supports_flakes {
        seq!["build"@, "--json"@]
    } else {
        Seq::empty()
    }));
    let command = command.arg_strs(derivations);
    let command = if !keep_result {
        if supports_flakes {
            command.arg("--no-link")
        } else {
            command.arg("--no-out-link")
        }
    } else {
        let result_path = match result_path {
            Some(path) => path,
            None => "./.deploy-gc",
        };
        let out_link = if profiles.len() == 1 {
            let node_path = join_path(result_path, profiles[0].node_name);
            join_path(node_path.as_str(), profiles[0].profile_name)
        } else {
            join_path(result_path, "profiles")
        };
        command.arg("--out-link").arg(out_link.as_str())
    };
    let r = command.args(extra_build_args);
    assert(r@.args =~= build_args(
        supports_flakes,
        keep_result,
        opt_str(result_path),
        texts(extra_build_args@),
        strs(derivations@),
        info_names(profiles@),
    ));
    r
}

/// The commands that build a derivation on the machine of a profile: the first
/// one brings the derivation there, the second one builds it.
pub fn remote_build_commands(data: &PushProfileData<'_>, derivation_name: &str) -> (r: Result<
    (Command, Command),
    PushProfileError,
>)
    ensures
        match r {
            Ok((copy, build)) => {
                &&& !has_nul(data.ssh_opts())
                &&& copy@ == command_line(
                    "nix"@,
                    seq![
                        "--experimental-features"@,
                        "nix-command"@,
                        "copy"@,
                        "-s"@,
                        "--to"@,
                        data.store_address(),
                        "--derivation"@,
                        before_first(derivation_name@, '^'),
                    ],
                ).with_env("NIX_SSHOPTS"@, shell_joined(data.ssh_opts())).with_streams(
                    None,
                    Some(Stream::Null),
                    None,
                )
                &&& build@ == command_line(
                    "nix"@,
                    seq![
                        "--experimental-features"@,
                        "nix-command"@,
                        "build"@,
                        derivation_name@,
                        "--eval-store"@,
                        "auto"@,
                        "--store"@,
                        data.store_address(),
                        "--json"@,
                    ] + texts(data.extra_build_args@),
                ).with_env("NIX_SSHOPTS"@, shell_joined(data.ssh_opts()))
            },
            Err(e) => has_nul(data.ssh_opts()) && is_nul_error(e),
        },
{
    match remote_store(data) {
        Ok((store_address, ssh_opts)) => Ok(
            (
                make_remote_derivation_copy_command(
                    store_address.as_str(),
                    ssh_opts.as_str(),
                    derivation_name,
                ),
                make_remote_build_command(
                    store_address.as_str(),
                    ssh_opts.as_str(),
                    derivation_name,
                    data.extra_build_args,
                ),
            ),
        ),
        Err(e) => Err(e),
    }
}

/// The command that lists a closure in the store on the machine of a profile.
pub fn remote_check_command(data: &PushProfileData<'_>, closure: &str) -> (r: Result<
    Command,
    PushProfileError,
>)
    ensures
        match r {
            Ok(command) => {
                &&& !has_nul(data.ssh_opts())
                &&& command@ == command_line(
                    "nix"@,
                    seq![
                        "--experimental-features"@,
                        "nix-command"@,
                        "store"@,
                        "ls"@,
                        "--json"@,
                        "--store"@,
                        data.store_address(),
                        closure@,
                    ],
                ).with_env("NIX_SSHOPTS"@, shell_joined(data.ssh_opts())).with_streams(
                    None,
                    Some(Stream::Null),
                    None,
                )
            },
            Err(e) => has_nul(data.ssh_opts()) && is_nul_error(e),
        },
{
    match remote_store(data) {
        Ok((store_address, ssh_opts)) => Ok(
            make_remote_store_ls_command(store_address.as_str(), ssh_opts.as_str(), closure),
        ),
        Err(e) => Err(e),
    }
}

/// The command that signs a closure in the store on the machine of a profile.
pub fn remote_sign_command(data: &PushProfileData<'_>, key_file: &str, closure: &str) -> (r: Result<
    Command,
    PushProfileError,
>)
    ensures
        match r {
            Ok(command) => {
                &&& !has_nul(data.ssh_opts())
                &&& command@ == command_line(
                    "nix"@,
                    seq![
                        "--experimental-features"@,
                        "nix-command"@,
                        "store"@,
                        "sign"@,
                        "--store"@,
                        data.store_address(),
                        "--recursive"@,
                        "--key-file"@,
                        key_file@,
                        closure@,
                    ],
                ).with_env("NIX_SSHOPTS"@, shell_joined(data.ssh_opts()))
            },
            Err(e) => has_nul(data.ssh_opts()) && is_nul_error(e),
        },
{
    match remote_store(data) {
        Ok((store_address, ssh_opts)) => Ok(
            make_remote_sign_command(
                store_address.as_str(),
                ssh_opts.as_str(),
                key_file,
                closure,
            ),
        ),
        Err(e) => Err(e),
    }
}

/// A listing of a closure names a file right below it.
pub open spec fn lists(listing: JsonValue, file: Seq<char>) -> bool {
    match listing.get("entries"@) {
        Some(JsonValue::Object(entries)) => lookup(entries, file) is Some,
        _ => false,
    }
}

fn listed(listing: &Json, file: &str) -> (r: bool)
    ensures
        r == lists(listing.value(), file@),
{
    match listing.get("entries") {
        Some(entries) => entries.get(file).is_some(),
        None => false,
    }
}

/// What it means for a closure to have, or not to have, the two programs that
/// activate it.
pub fn check_profile(has_deploy_rx_activate: bool, has_activate_rs: bool) -> (r: Result<
    (),
    PushProfileError,
>)
    ensures
        r == (if !has_deploy_rx_activate {
            Err::<(), _>(PushProfileError::DeployRsActivateDoesntExist)
        } else if !has_activate_rs {
            Err(PushProfileError::ActivateRsDoesntExist)
        } else {
            Ok(())
        }),
{
    if !has_deploy_rx_activate {
        return Err(PushProfileError::DeployRsActivateDoesntExist);
    }
    if !has_activate_rs {
        return Err(PushProfileError::ActivateRsDoesntExist);
    }
    Ok(())
}

/// Checks, by the listing of a closure, that it has the two programs that
/// activate it.
pub fn check_listing(listing: &Json) -> (r: Result<(), PushProfileError>)
    ensures
        r == (if !lists(listing.value(), "deploy-rx-activate"@) {
            Err::<(), _>(PushProfileError::DeployRsActivateDoesntExist)
        } else if !lists(listing.value(), "activate-rs"@) {
            Err(PushProfileError::ActivateRsDoesntExist)
        } else {
            Ok(())
        }),
{
    check_profile(listed(listing, "deploy-rx-activate"), listed(listing, "activate-rs"))
}

/// Checks, by what `nix store ls --json` printed of a closure, that it has the
/// two programs that activate it.
pub fn check_remote_listing(stdout: &[u8]) -> (r: Result<(), PushProfileError>)
    ensures
        match json_of_bytes(stdout@) {
            Ok(listing) => r == (if !lists(listing, "deploy-rx-activate"@) {
                Err::<(), _>(PushProfileError::DeployRsActivateDoesntExist)
            } else if !lists(listing, "activate-rs"@) {
                Err(PushProfileError::ActivateRsDoesntExist)
            } else {
                Ok(())
            }),
            Err(why) => r matches Err(PushProfileError::StoreLsParse(fault)) && fault@ == why,
        },
{
    match parse_bytes(stdout) {
        Ok(listing) => check_listing(&listing),
        Err(err) => Err(PushProfileError::StoreLsParse(err.to_string())),
    }
}

/// The files that a closure in the local store has to have to be activated.
pub fn activation_files(closure: &str) -> (r: (String, String))
    ensures
        r.0@ == closure@ + "/deploy-rx-activate"@,
        r.1@ == closure@ + "/activate-rs"@,
{
    (
        closure.to_string().concat("/deploy-rx-activate"),
        closure.to_string().concat("/activate-rs"),
    )
}

/// The store on the machine of a profile is that of the user that connects, on the
/// host on which the profile is deployed: the one of the command line where one is
/// given there, and else that of the node.
pub proof fn law_remote_store_is_that_of_the_host(
    data: PushProfileData<'_>,
    r: Result<(String, String), PushProfileError>,
)
    requires
        call_ensures(remote_store, (&data,), r),
        r is Ok,
    ensures
        r->Ok_0.0@ == "ssh-ng://"@ + data.deploy_defs.ssh_user@ + "@"@ + (
        match data.deploy_data.cmd_overrides.hostname {
            Some(host) => host@,
            None => data.deploy_data.node.node_settings.hostname@,
        }),
        is_encoding(r->Ok_0.1@, texts(data.deploy_data.merged_settings.ssh_opts@)),
{
}

/// A remote build copies the derivation to the store in which it is then built, and
/// both reach it with the same SSH options. What is copied is the outermost derivation,
/// what is built is the whole of it, and arguments that are given come last.
pub proof fn law_derivation_is_built_where_it_is_copied(
    data: PushProfileData<'_>,
    derivation_name: &str,
    store: Result<(String, String), PushProfileError>,
    r: Result<(Command, Command), PushProfileError>,
    outer: Seq<char>,
    inner: Seq<char>,
)
    requires
        call_ensures(remote_store, (&data,), store),
        call_ensures(remote_build_commands, (&data, derivation_name), r),
        derivation_name@ == outer || derivation_name@ == outer + "^"@ + inner,
        !outer.contains('^'),
    ensures
        store is Ok <==> r is Ok,
        r matches Ok((copy, build)) ==> {
            &&& copy.program@ == "nix"@
            &&& copy.args@.len() == 8
            &&& copy@.args[2] == "copy"@
            &&& copy@.args[3] == "-s"@
            &&& copy@.args[4] == "--to"@
            &&& copy.args@[5]@ == store->Ok_0.0@
            &&& copy@.args[6] == "--derivation"@
            &&& copy.args@[7]@ == outer
            &&& build.program@ == "nix"@
            &&& build@.args[2] == "build"@
            &&& build@.args[4] == "--eval-store"@
            &&& build@.args[5] == "auto"@
            &&& build@.args[6] == "--store"@
            &&& build@.args[8] == "--json"@
            &&& copy@.env_value("NIX_SSHOPTS"@) == Some(store->Ok_0.1@)
            &&& build.args@.len() == 9 + data.extra_build_args@.len()
            &&& build.args@[3]@ == derivation_name@
            &&& build.args@[7]@ == store->Ok_0.0@
            &&& build@.args.skip(9) == texts(data.extra_build_args@)
            &&& build@.env_value("NIX_SSHOPTS"@) == Some(store->Ok_0.1@)
        },
{
    reveal_strlit("^");
    assert("^"@ =~= seq!['^']);
    law_prefix_ends_at_the_first(outer, '^', inner);
    if r is Ok {
        let (copy, build) = r->Ok_0;
        assert(copy@.args.len() == copy.args@.len());
        assert(build@.args.len() == build.args@.len());
        assert(copy@.args[5] == copy.args@[5]@ && copy@.args[7] == copy.args@[7]@);
        assert(build@.args[3] == build.args@[3]@ && build@.args[7] == build.args@[7]@);
        assert(build@.args.skip(9) =~= texts(data.extra_build_args@));
        assert(copy@.envs.last() == ("NIX_SSHOPTS"@, shell_joined(data.ssh_opts())));
        assert(build@.envs.last() == ("NIX_SSHOPTS"@, shell_joined(data.ssh_opts())));
    }
}

/// A closure on the machine of a profile is listed and signed in the store of that
/// machine.
pub proof fn law_remote_closure_is_checked_in_its_store(
    data: PushProfileData<'_>,
    key_file: &str,
    closure: &str,
    store: Result<(String, String), PushProfileError>,
    check: Result<Command, PushProfileError>,
    sign: Result<Command, PushProfileError>,
)
    requires
        call_ensures(remote_store, (&data,), store),
        call_ensures(remote_check_command, (&data, closure), check),
        call_ensures(remote_sign_command, (&data, key_file, closure), sign),
    ensures
        store is Ok <==> check is Ok,
        store is Ok <==> sign is Ok,
        check matches Ok(command) ==> {
            &&& command@.args.len() == 8
            &&& command@.args.subrange(2, 7) == seq![
                "store"@,
                "ls"@,
                "--json"@,
                "--store"@,
                store->Ok_0.0@,
            ]
            &&& command@.args.last() == closure@
            &&& command@.env_value("NIX_SSHOPTS"@) == Some(store->Ok_0.1@)
        },
        sign matches Ok(command) ==> {
            &&& command@.args.len() == 10
            &&& command@.args.subrange(2, 9) == seq![
                "store"@,
                "sign"@,
                "--store"@,
                store->Ok_0.0@,
                "--recursive"@,
                "--key-file"@,
                key_file@,
            ]
            &&& command@.args.last() == closure@
            &&& command@.env_value("NIX_SSHOPTS"@) == Some(store->Ok_0.1@)
        },
{
    if store is Ok {
        assert(check->Ok_0@.args[6] == store->Ok_0.0@);
        assert(check->Ok_0@.envs.last() == ("NIX_SSHOPTS"@, shell_joined(data.ssh_opts())));
        assert(sign->Ok_0@.envs.last() == ("NIX_SSHOPTS"@, shell_joined(data.ssh_opts())));
    }
}

/// A local build is asked for exactly the derivations that are wanted, in order, and
/// with the arguments that are given last. Links to what is built are made exactly
/// where the result is kept.
pub proof fn law_local_build_is_for_the_derivations(
    supports_flakes: bool,
    keep_result: bool,
    result_path: Option<&str>,
    extra_build_args: &[String],
    derivations: &[&str],
    profiles: &[BuildCommandInfo<'_>],
    r: Command,
)
    requires
        call_ensures(
            make_build_command,
            (
                supports_flakes,
                keep_result,
                result_path,
                extra_build_args,
                derivations,
                profiles,
            ),
            r,
        ),
    ensures
        ({
            let args = r@.args;
            let start: int = if supports_flakes {
                2
            } else {
                0
            };
            let links: int = if keep_result {
                2
            } else {
                1
            };
            let n = derivations@.len() as int;
            &&& r.program@ == (if supports_flakes {
                "nix"@
            } else {
                "nix-build"@
            })
            &&& args.len() == start + n + links + extra_build_args@.len()
            &&& supports_flakes ==> args[0] == "build"@ && args[1] == "--json"@
            &&& args.subrange(start, start + n) == strs(derivations@)
            &&& keep_result ==> args[start + n] == "--out-link"@ && args[start + n + 1]
                == out_link(opt_str(result_path), info_names(profiles@))
            &&& !keep_result && supports_flakes ==> args[start + n] == "--no-link"@
            &&& !keep_result && !supports_flakes ==> args[start + n] == "--no-out-link"@
            &&& args.skip(start + n + links) == texts(extra_build_args@)
        }),
{
    let args = r@.args;
    let start: int = if supports_flakes {
        2
    } else {
        0
    };
    let links: int = if keep_result {
        2
    } else {
        1
    };
    let n = derivations@.len() as int;
    assert(args.subrange(start, start + n) =~= strs(derivations@));
    assert(args.skip(start + n + links) =~= texts(extra_build_args@));
}

/// The result of one profile is linked to below the directory of results, by its node
/// and its name; the results of several ones share a place.
pub proof fn law_results_are_linked_by_name(
    result_path: Option<Seq<char>>,
    node: Seq<char>,
    profile: Seq<char>,
    several: Seq<ProfileNames>,
)
    requires
        result_path matches Some(path) ==> path.len() > 0 && path.last() != '/',
        node.len() > 0,
        node[0] != '/',
        node.last() != '/',
        profile.len() > 0 ==> profile[0] != '/',
        several.len() != 1,
    ensures
        ({
            let base = match result_path {
                Some(path) => path,
                None => "./.deploy-gc"@,
            };
            &&& out_link(result_path, seq![(node, profile)]) == base + "/"@ + node + "/"@
                + profile
            &&& out_link(result_path, several) == base + "/profiles"@
        }),
{
    reveal_strlit("./.deploy-gc");
    reveal_strlit("/");
    reveal_strlit("/profiles");
    reveal_strlit("profiles");
    let base = match result_path {
        Some(path) => path,
        None => "./.deploy-gc"@,
    };
    let below = base.push('/') + node;
    assert(below.last() == node.last());
    assert(path_under(base, node) == below);
    assert(below.push('/') + profile =~= base + "/"@ + node + "/"@ + profile);
    assert(base.push('/') + "profiles"@ =~= base + "/profiles"@);
}

/// A closure can be activated exactly if it has both programs for that, and the one
/// that is wanting is named, the activation script first.
pub proof fn law_closure_needs_both_programs(
    script: bool,
    program: bool,
    r: Result<(), PushProfileError>,
)
    requires
        call_ensures(check_profile, (script, program), r),
    ensures
        r is Ok <==> script && program,
        !script ==> r matches Err(PushProfileError::DeployRsActivateDoesntExist),
        script && !program ==> r matches Err(PushProfileError::ActivateRsDoesntExist),
{
}

/// A listing says of a closure what its own entries are: both programs have to be
/// among them, whatever else is there.
pub proof fn law_listing_needs_both_programs(
    listing: Json,
    r: Result<(), PushProfileError>,
    fields: Seq<(Seq<char>, JsonValue)>,
    files: Seq<(Seq<char>, JsonValue)>,
)
    requires
        call_ensures(check_listing, (&listing,), r),
        listing.value() == JsonValue::Object(fields),
        lookup(fields, "entries"@) == Some(JsonValue::Object(files)),
    ensures
        r is Ok <==> {
            &&& exists|i: int|
                0 <= i < files.len() && (#[trigger] files[i]).0 == "deploy-rx-activate"@
            &&& exists|i: int| 0 <= i < files.len() && (#[trigger] files[i]).0 == "activate-rs"@
        },
{
    lemma_position_of(files, "deploy-rx-activate"@);
    lemma_position_of(files, "activate-rs"@);
}

/// A listing without entries is that of a closure that cannot be activated, and what is
/// printed is judged as the listing that it holds.
pub proof fn law_listing_without_entries_is_refused(
    stdout: &[u8],
    printed: Result<(), PushProfileError>,
    listing: Json,
    r: Result<(), PushProfileError>,
)
    requires
        call_ensures(check_remote_listing, (stdout,), printed),
        call_ensures(check_listing, (&listing,), r),
        json_of_bytes(stdout@) == Ok::<_, Seq<char>>(listing.value()),
    ensures
        printed == r,
        !(listing.value().get("entries"@) matches Some(JsonValue::Object(_))) ==> r is Err,
{
}

/// The programs of a closure in the local store are looked for right below it.
pub proof fn law_programs_are_below_the_closure(closure: &str, r: (String, String))
    requires
        call_ensures(activation_files, (closure,), r),
    ensures
        r.0@ == closure@ + "/deploy-rx-activate"@,
        r.1@ == closure@ + "/activate-rs"@,
{
}

/// A closure in the local store is signed, with all that it needs, by the given key.
pub proof fn law_closure_is_signed_by_the_key(key_file: &str, closure: &str, r: Command)
    requires
        call_ensures(make_sign_command, (key_file, closure), r),
    ensures
        r.program@ == "nix"@,
        texts(r.args@) == seq!["sign-paths"@, "-r"@, "-k"@, key_file@, closure@],
{
}

/// SSH options are encoded exactly if none holds a NUL character, and decoding gives
/// them back.
pub proof fn law_options_survive_encoding(
    ssh_opts: &[String],
    text: &str,
    encoded: Result<String, PushProfileError>,
    decoded: Option<Vec<String>>,
)
    requires
        call_ensures(encode_ssh_opts, (ssh_opts,), encoded),
        call_ensures(decode_ssh_opts, (text,), decoded),
        encoded matches Ok(t) ==> text@ == t@,
    ensures
        encoded is Err <==> exists|i: int|
            0 <= i < ssh_opts@.len() && (#[trigger] ssh_opts@[i])@.contains('\0'),
        encoded is Ok ==> decoded is Some && texts(decoded->0@) == texts(ssh_opts@),
{
    let words = texts(ssh_opts@);
    if has_nul(words) {
        let i = choose|i: int| 0 <= i < words.len() && (#[trigger] words[i]).contains('\0');
        assert(ssh_opts@[i]@.contains('\0'));
    }
    if exists|i: int| 0 <= i < ssh_opts@.len() && (#[trigger] ssh_opts@[i])@.contains('\0') {
        let i = choose|i: int| 0 <= i < ssh_opts@.len() && (#[trigger] ssh_opts@[i])@.contains(
            '\0',
        );
        assert(words[i].contains('\0'));
    }
}

/// Only an error about a group of profiles is about certain nodes.
pub proof fn law_only_groups_name_their_nodes(e: PushProfileError, r: Option<&str>)
    requires
        call_ensures(PushProfileError::node_context, (&e,), r),
    ensures
        r is Some <==> e is CopyGroup,
        e matches PushProfileError::CopyGroup { nodes, .. } ==> r->0@ == nodes@,
{
}

} // verus!
