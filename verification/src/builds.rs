//! Building profiles: which derivation is built under which name, how a build
//! is run, and which closure belongs to which profile.
use vstd::prelude::*;
use vstd::utf8::{decode_utf8, valid_utf8};

use crate::bytes::{utf8_fault, utf8_text};
use crate::command::{
    command_line, law_last_value_counts, Command, CommandError, CommandLine, Output, Stream,
};
use crate::json::{
    json_list_fault, json_of_bytes, json_of_text, lemma_json_entries, parse_text, Json, JsonValue,
};
use crate::names::lookup;
use crate::push::{
    build_args, info_names, make_build_command, BuildCommandInfo, PathInfoError, ProfileNames,
    PushProfileData, PushProfileError, ShowDerivationError,
};
use crate::results::{
    is_assignment, is_paths_error, law_installable_is_read_back, parse_build_json,
    parse_build_out_paths, printed_paths, realised_outputs, realised_path, wanted_output, BuildFault,
    OutputId,
};
use crate::text::{
    code_text, distinct, is_space, law_distinct, law_only_ends_are_trimmed,
    law_text_is_split_at_the_last, opt_str, opt_text, same_text, shown_code, starts_with, strs,
    texts, trim, trimmed,
};

verus! {

/// A build that was planned, by whether its progress is drawn as a tree.
#[derive(Debug)]
pub enum BuildRun {
    /// The command is run as it is.
    Plain(Command),
    /// What the build reports is piped into `nom`, which draws it.
    Tree { nix: Command, nom: Command },
}

/// A command that runs `nom`, in the search path that is given for the build.
pub open spec fn nom_line(path: Option<Seq<char>>, arg: Seq<char>) -> CommandLine {
    let line = command_line("nom"@, seq![arg]);
    match path {
        Some(p) => line.with_env("PATH"@, p),
        None => line,
    }
}

fn nom_command(path: Option<String>, arg: &str) -> (r: Command)
    ensures
        r@ == nom_line(opt_text(path), arg@),
{
    let command = Command::new("nom").arg(arg);
    match path {
        Some(path) => command.env("PATH", path.as_str()),
        None => command,
    }
}

/// The command that finds out whether `nom` can be run for a build: it can if
/// this one can.
pub fn nom_check_command(build_command: &Command) -> (r: Command)
    ensures
        r@ == nom_line(build_command@.env_value("PATH"@), "--version"@).with_streams(
            None,
            Some(Stream::Null),
            Some(Stream::Null),
        ),
{
    nom_command(build_command.env_value("PATH"), "--version").streams(
        None,
        Some(Stream::Null),
        Some(Stream::Null),
    )
}

/// How a build is run: with `nom` where a tree is asked for and `nom` is there,
/// and plainly otherwise.
pub fn plan_build_run(build_command: Command, build_tree: bool, nom_available: bool) -> (r: BuildRun)
    ensures
        match r {
            BuildRun::Tree { nix, nom } => {
                &&& build_tree && nom_available
                &&& nix@ == build_command@.with_args(
                    seq!["--log-format"@, "internal-json"@, "--verbose"@],
                ).with_streams(
                    build_command.stdin,
                    Some(Stream::Piped),
                    Some(Stream::Piped),
                )
                &&& nom@ == nom_line(build_command@.env_value("PATH"@), "--json"@).with_streams(
                    Some(Stream::Piped),
                    Some(Stream::Inherit),
                    Some(Stream::Inherit),
                )
            },
            BuildRun::Plain(command) => {
                &&& !(build_tree && nom_available)
                &&& command@ == build_command@.with_streams(
                    build_command.stdin,
                    Some(Stream::Piped),
                    Some(Stream::Inherit),
                )
            },
        },
{
    let stdin = build_command.stdin;
    if build_tree && nom_available {
        let path = build_command.env_value("PATH");
        let nix = build_command.arg("--log-format").arg("internal-json").arg("--verbose").streams(
            stdin,
            Some(Stream::Piped),
            Some(Stream::Piped),
        );
        assert(nix@.args =~= build_command@.args + seq![
            "--log-format"@,
            "internal-json"@,
            "--verbose"@,
        ]);
        let nom = nom_command(path, "--json").streams(
            Some(Stream::Piped),
            Some(Stream::Inherit),
            Some(Stream::Inherit),
        );
        BuildRun::Tree { nix, nom }
    } else {
        BuildRun::Plain(build_command.streams(stdin, Some(Stream::Piped), Some(Stream::Inherit)))
    }
}

/// What a build that was drawn as a tree comes to. How `nom` itself exited does
/// not count.
pub fn conclude_tree_build(nix_code: Option<i32>, stdout: Vec<u8>) -> (r: Result<
    Vec<u8>,
    PushProfileError,
>)
    ensures
        match r {
            Ok(out) => nix_code == Some(0i32) && out == stdout,
            Err(e) => {
                &&& nix_code != Some(0i32)
                &&& e matches PushProfileError::Build(CommandError::RunError(why)) && why@
                    == "Nix build command resulted in a bad exit code: "@ + shown_code(nix_code)
            },
        },
{
    match nix_code {
        Some(0) => Ok(stdout),
        code => Err(
            PushProfileError::Build(
                CommandError::RunError(
                    "Nix build command resulted in a bad exit code: ".to_string().concat(
                        code_text(code).as_str(),
                    ),
                ),
            ),
        ),
    }
}

/// How far the derivation of a profile is resolved.
#[derive(Debug)]
pub enum Resolution {
    /// The derivation has to be looked up: the output of the command is handed
    /// to `after_show_derivation`.
    ShowDerivation(Command),
    /// The derivation is known, and the form in which it is built depends on the
    /// version of Nix: what the command comes to is handed to
    /// `installable_after_path_info`.
    PathInfo { deriver: String, command: Command },
    /// The derivation can be built under this name.
    Installable(String),
}

/// What `deriver_for_build` comes to before any command is run.
pub open spec fn is_deriver_step(
    deriver: Seq<char>,
    output_name: Seq<char>,
    supports_caret: bool,
    r: Result<Resolution, PushProfileError>,
) -> bool {
    if supports_caret {
        r matches Ok(Resolution::PathInfo { deriver: d, command }) && d@ == deriver && command@
            == command_line(
            "nix"@,
            seq!["--experimental-features"@, "nix-command"@, "path-info"@, deriver],
        )
    } else if output_name == "out"@ {
        r matches Ok(Resolution::Installable(name)) && name@ == deriver
    } else {
        r matches Err(PushProfileError::LegacyNonDefaultOutput(output)) && output@ == output_name
    }
}

/// The form in which a derivation is built, as far as it is known without
/// asking Nix. From version 2.15 on Nix wants the output to be selected by `^`;
/// before, it does not know `^`. Which of the two holds is found out by
/// `nix path-info`: from version 2.15 on it prints the derivation itself; before,
/// it prints the output, or fails where the output is not built yet. Where `^` is
/// not supported at all only the default output can be built.
pub fn deriver_for_build(deriver: String, output_name: &str, supports_caret: bool) -> (r: Result<
    Resolution,
    PushProfileError,
>)
    ensures
        is_deriver_step(deriver@, output_name@, supports_caret, r),
{
    if !supports_caret {
        if !same_text(output_name, "out") {
            return Err(PushProfileError::LegacyNonDefaultOutput(output_name.to_string()));
        }
        return Ok(Resolution::Installable(deriver));
    }
    let command = Command::new("nix").arg("--experimental-features").arg("nix-command").arg(
        "path-info",
    ).arg(deriver.as_str());
    assert(command@ =~= command_line(
        "nix"@,
        seq!["--experimental-features"@, "nix-command"@, "path-info"@, deriver@],
    ));
    Ok(Resolution::PathInfo { deriver, command })
}

/// What a derivation is built under where `^` is not known.
pub open spec fn is_legacy_installable(
    deriver: Seq<char>,
    output_name: Seq<char>,
    r: Result<String, PushProfileError>,
) -> bool {
    if output_name == "out"@ {
        r matches Ok(name) && name@ == deriver
    } else {
        r matches Err(PushProfileError::LegacyNonDefaultOutput(output)) && output@ == output_name
    }
}

fn legacy_installable(deriver: String, output_name: &str) -> (r: Result<String, PushProfileError>)
    ensures
        is_legacy_installable(deriver@, output_name@, r),
{
    if !same_text(output_name, "out") {
        return Err(PushProfileError::LegacyNonDefaultOutput(output_name.to_string()));
    }
    Ok(deriver)
}

/// The name under which an output of a derivation is built, by what
/// `nix path-info` printed for the derivation: where that is the derivation
/// itself, the output has to be selected, and otherwise only the default output
/// can be built.
pub fn installable_by_path_info(deriver: String, output_name: &str, stdout: &[u8]) -> (r: Result<
    String,
    PushProfileError,
>)
    ensures
        if valid_utf8(stdout@) && trimmed(decode_utf8(stdout@)) == deriver@ {
            r matches Ok(name) && name@ == deriver@ + "^"@ + output_name@
        } else {
            is_legacy_installable(deriver@, output_name@, r)
        },
{
    let echoed = match utf8_text(stdout) {
        Ok(text) => same_text(trim(text.as_str()).as_str(), deriver.as_str()),
        Err(_) => false,
    };
    if echoed {
        Ok(deriver.concat("^").concat(output_name))
    } else {
        legacy_installable(deriver, output_name)
    }
}

/// The name under which an output of a derivation is built, by what
/// `nix path-info` came to for the derivation. Where it exited with an error Nix is
/// older than version 2.15, and only the default output can be built; where it could
/// not be run at all nothing is known.
pub fn installable_after_path_info(
    deriver: String,
    output_name: &str,
    outcome: Result<Output, CommandError<PathInfoError>>,
) -> (r: Result<String, PushProfileError>)
    ensures
        match outcome {
            Ok(output) => if valid_utf8(output.stdout@) && trimmed(decode_utf8(output.stdout@))
                == deriver@ {
                r matches Ok(name) && name@ == deriver@ + "^"@ + output_name@
            } else {
                is_legacy_installable(deriver@, output_name@, r)
            },
            Err(CommandError::Exit(..)) => is_legacy_installable(deriver@, output_name@, r),
            Err(e) => r == Err::<String, _>(PushProfileError::PathInfo(e)),
        },
{
    match outcome {
        Ok(output) => installable_by_path_info(deriver, output_name, output.stdout.as_slice()),
        Err(CommandError::Exit(_, _)) => legacy_installable(deriver, output_name),
        Err(e) => Err(PushProfileError::PathInfo(e)),
    }
}

impl<'a> PushProfileData<'a> {
    /// Outputs are selected by `^` when the profile is built.
    pub open spec fn selects_by_caret(&self) -> bool {
        self.supports_flakes || self.deploy_data.builds_remotely()
    }
}

/// The first step of resolving the derivation of a profile: where the
/// evaluation gave the derivation it is used, and otherwise it is looked up by
/// the path of the profile.
pub fn resolve_derivation(data: &PushProfileData<'_>) -> (r: Result<Resolution, PushProfileError>)
    ensures
        match data.deploy_data.profile.profile_settings.drv_path {
            Some(drv_path) => is_deriver_step(
                drv_path@,
                data.deploy_data.profile.profile_settings.output_name@,
                data.selects_by_caret(),
                r,
            ),
            None => r matches Ok(Resolution::ShowDerivation(command)) && command@ == command_line(
                "nix"@,
                seq![
                    "--experimental-features"@,
                    "nix-command"@,
                    "show-derivation"@,
                    data.deploy_data.profile.profile_settings.path@,
                ],
            ),
        },
{
    let profile_settings = &data.deploy_data.profile.profile_settings;
    let supports_caret = data.supports_flakes || data.deploy_data.remote_build();
    if let Some(drv_path) = &profile_settings.drv_path {
        return deriver_for_build(
            drv_path.clone(),
            profile_settings.output_name.as_str(),
            supports_caret,
        );
    }
    Ok(
        Resolution::ShowDerivation(
            Command::new("nix").arg("--experimental-features").arg("nix-command").arg(
                "show-derivation",
            ).arg(profile_settings.path.as_str()),
        ),
    )
}

/// The object that holds the derivations in the output of
/// `nix show-derivation`: newer versions of Nix put it under a name of its own.
pub open spec fn shown_derivations(value: JsonValue) -> JsonValue {
    match value.get("derivations"@) {
        Some(derivations) => derivations,
        None => value,
    }
}

/// The path of a derivation by the name under which it is shown: newer versions
/// of Nix leave out the directory of the store.
pub open spec fn store_path(name: Seq<char>) -> Seq<char> {
    if "/nix/store/"@.is_prefix_of(name) {
        name
    } else {
        "/nix/store/"@ + name
    }
}

/// The derivation that the output of `nix show-derivation` is about.
pub fn shown_deriver(value: &Json) -> (r: Result<String, ShowDerivationError>)
    ensures
        match shown_derivations(value.value()) {
            JsonValue::Object(entries) => if entries.len() > 0 {
                r matches Ok(deriver) && deriver@ == store_path(entries[0].0)
            } else {
                r matches Err(ShowDerivationError::Empty)
            },
            _ => r matches Err(ShowDerivationError::Invalid),
        },
{
    let derivations = match value.get("derivations") {
        Some(derivations) => derivations,
        None => value,
    };
    let entries = match derivations.as_entries() {
        Some(entries) => entries,
        None => return Err(ShowDerivationError::Invalid),
    };
    proof {
        lemma_json_entries(entries@);
    }
    if entries.len() == 0 {
        return Err(ShowDerivationError::Empty);
    }
    let name = entries[0].0.as_str();
    if starts_with(name, "/nix/store/") {
        Ok(name.to_string())
    } else {
        Ok("/nix/store/".to_string().concat(name))
    }
}

/// The step of resolving a derivation that follows on `nix show-derivation`, by
/// what that printed.
pub fn after_show_derivation(data: &PushProfileData<'_>, stdout: &[u8]) -> (r: Result<
    Resolution,
    PushProfileError,
>)
    ensures
        if !valid_utf8(stdout@) {
            r matches Err(
                PushProfileError::ShowDerivation(
                    CommandError::OtherError(ShowDerivationError::Utf8(fault)),
                ),
            ) && fault@ == utf8_fault(stdout@)
        } else {
            match json_of_text(decode_utf8(stdout@)) {
                Ok(value) => match shown_derivations(value) {
                    JsonValue::Object(entries) => if entries.len() > 0 {
                        is_deriver_step(
                            store_path(entries[0].0),
                            data.deploy_data.profile.profile_settings.output_name@,
                            data.selects_by_caret(),
                            r,
                        )
                    } else {
                        r matches Err(
                            PushProfileError::ShowDerivation(
                                CommandError::OtherError(ShowDerivationError::Empty),
                            ),
                        )
                    },
                    _ => r matches Err(
                        PushProfileError::ShowDerivation(
                            CommandError::OtherError(ShowDerivationError::Invalid),
                        ),
                    ),
                },
                Err(why) => r matches Err(
                    PushProfileError::ShowDerivation(
                        CommandError::OtherError(ShowDerivationError::Parse(fault)),
                    ),
                ) && fault@ == why,
            }
        },
{
    let text = match utf8_text(stdout) {
        Ok(text) => text,
        Err(err) => return Err(
            PushProfileError::ShowDerivation(
                CommandError::OtherError(ShowDerivationError::Utf8(err)),
            ),
        ),
    };
    let value = match parse_text(text.as_str()) {
        Ok(value) => value,
        Err(err) => return Err(
            PushProfileError::ShowDerivation(
                CommandError::OtherError(ShowDerivationError::Parse(err.to_string())),
            ),
        ),
    };
    match shown_deriver(&value) {
        Ok(deriver) => {
            let profile_settings = &data.deploy_data.profile.profile_settings;
            let supports_caret = data.supports_flakes || data.deploy_data.remote_build();
            deriver_for_build(deriver, profile_settings.output_name.as_str(), supports_caret)
        },
        Err(err) => Err(PushProfileError::ShowDerivation(CommandError::OtherError(err))),
    }
}

/// The derivations that are wanted for profiles.
pub open spec fn item_derivations(items: Seq<(&PushProfileData<'_>, &str)>) -> Seq<Seq<char>> {
    items.map_values(|item: (&PushProfileData<'_>, &str)| item.1@)
}

/// The names of profiles that are to be built.
pub open spec fn item_names(items: Seq<(&PushProfileData<'_>, &str)>) -> Seq<ProfileNames> {
    items.map_values(
        |item: (&PushProfileData<'_>, &str)|
            (item.0.deploy_data.node_name@, item.0.deploy_data.profile_name@),
    )
}

/// A build of profiles in the local store, in which each derivation is built
/// once, however many profiles want it.
pub struct LocalBuild<'a> {
    supports_flakes: bool,
    derivations: Vec<&'a str>,
    indexes: Vec<usize>,
}

impl<'a> LocalBuild<'a> {
    /// Each profile has a derivation among those that are built.
    #[verifier::type_invariant]
    pub closed spec fn wf(&self) -> bool {
        forall|i: int| 0 <= i < self.indexes@.len() ==> self.indexes@[i] < self.derivations@.len()
    }

    /// What is built is reported as JSON.
    pub closed spec fn reports_json(&self) -> bool {
        self.supports_flakes
    }

    /// The derivations that are built.
    pub closed spec fn built(&self) -> Seq<&'a str> {
        self.derivations@
    }

    /// For each profile, the place of its derivation among those that are built.
    pub closed spec fn places(&self) -> Seq<usize> {
        self.indexes@
    }

    /// Each of the wanted derivations is built, at the place that is kept for it.
    pub open spec fn serves(&self, wanted: Seq<Seq<char>>) -> bool {
        &&& self.places().len() == wanted.len()
        &&& forall|i: int|
            0 <= i < wanted.len() ==> (#[trigger] self.places()[i]) < self.built().len()
                && self.built()[self.places()[i] as int]@ == wanted[i]
    }

    /// The closures are the paths of what was built, at the place that is kept
    /// for each.
    pub open spec fn are_closures(
        &self,
        closures: Seq<Seq<char>>,
        outputs: Seq<(OutputId, Seq<char>)>,
    ) -> bool {
        &&& closures.len() == self.places().len()
        &&& forall|i: int|
            0 <= i < closures.len() ==> realised_path(
                outputs,
                wanted_output(self.built()[#[trigger] self.places()[i] as int]@),
            ) == Some(closures[i])
    }

    /// Each profile gets the closure of its own derivation, also where several
    /// profiles want the same one.
    pub proof fn law_profiles_get_their_own_closures(
        &self,
        wanted: Seq<Seq<char>>,
        closures: Seq<Seq<char>>,
        outputs: Seq<(OutputId, Seq<char>)>,
    )
        requires
            self.serves(wanted),
            self.are_closures(closures, outputs),
        ensures
            closures.len() == wanted.len(),
            forall|i: int|
                0 <= i < wanted.len() ==> realised_path(
                    outputs,
                    wanted_output(#[trigger] wanted[i]),
                ) == Some(closures[i]),
    {
        assert forall|i: int| 0 <= i < wanted.len() implies realised_path(
            outputs,
            wanted_output(#[trigger] wanted[i]),
        ) == Some(closures[i]) by {
            let k = self.places()[i];
            assert(self.built()[k as int]@ == wanted[i]);
        }
    }

    /// The build of the given profiles, each with its derivation, and the command
    /// that does it. All of them are built with the options of the first one;
    /// without any profile there is nothing to build.
    pub fn plan(items: &[(&'a PushProfileData<'a>, &'a str)]) -> (r: Option<
        (LocalBuild<'a>, Command),
    >)
        ensures
            r is None <==> items@.len() == 0,
            r matches Some((build, command)) ==> {
                let data = items@[0].0;
                &&& build.reports_json() == data.supports_flakes
                &&& strs(build.built()) == distinct(item_derivations(items@))
                &&& build.serves(item_derivations(items@))
                &&& command@ == command_line(
                    if data.supports_flakes {
                        "nix"@
                    } else {
                        "nix-build"@
                    },
                    build_args(
                        data.supports_flakes,
                        data.keep_result,
                        opt_str(data.result_path),
                        texts(data.extra_build_args@),
                        distinct(item_derivations(items@)),
                        item_names(items@),
                    ),
                )
            },
    {
        if items.len() == 0 {
            return None;
        }
        let ghost wanted = item_derivations(items@);
        let data = items[0].0;
        let mut derivations: Vec<&'a str> = Vec::new();
        let mut indexes: Vec<usize> = Vec::new();
        let mut profiles: Vec<BuildCommandInfo<'a>> = Vec::new();
        let mut i: usize = 0;
        assert(strs(derivations@) =~= Seq::empty());
        assert(wanted.take(0) =~= Seq::empty());
        while i < items.len()
            invariant
                i <= items@.len(),
                wanted == item_derivations(items@),
                indexes@.len() == i,
                profiles@.len() == i,
                strs(derivations@) == distinct(wanted.take(i as int)),
                forall|j: int|
                    0 <= j < i ==> (#[trigger] indexes@[j]) < derivations@.len()
                        && derivations@[indexes@[j] as int]@ == items@[j].1@,
                forall|j: int|
                    0 <= j < i ==> (#[trigger] profiles@[j]).node_name@
                        == items@[j].0.deploy_data.node_name@ && profiles@[j].profile_name@
                        == items@[j].0.deploy_data.profile_name@,
            decreases items@.len() - i,
        {
            let (d, derivation) = items[i];
            assert(wanted.take(i + 1).drop_last() =~= wanted.take(i as int));
            assert(wanted.take(i + 1).last() == derivation@);
            let ghost before = derivations@;
            let mut k: usize = 0;
            while k < derivations.len() && !same_text(derivations[k], derivation)
                invariant
                    k <= derivations@.len(),
                    derivations@ == before,
                    forall|j: int| 0 <= j < k ==> (#[trigger] derivations@[j])@ != derivation@,
                decreases derivations@.len() - k,
            {
                k += 1;
            }
            if k == derivations.len() {
                derivations.push(derivation);
                assert(strs(derivations@) =~= strs(before).push(derivation@));
                assert(!strs(before).contains(derivation@)) by {
                    assert forall|j: int| 0 <= j < before.len() implies strs(before)[j]
                        != derivation@ by {
                        assert(before[j]@ != derivation@);
                    }
                }
            } else {
                assert(strs(before)[k as int] == derivation@);
            }
            assert(derivations@[k as int]@ == derivation@);
            indexes.push(k);
            profiles.push(
                BuildCommandInfo {
                    node_name: d.deploy_data.node_name,
                    profile_name: d.deploy_data.profile_name,
                },
            );
            i += 1;
        }
        assert(wanted.take(i as int) =~= wanted);
        assert(info_names(profiles@) =~= item_names(items@));
        let command = make_build_command(
            data.supports_flakes,
            data.keep_result,
            data.result_path,
            data.extra_build_args,
            derivations.as_slice(),
            profiles.as_slice(),
        );
        Some((LocalBuild { supports_flakes: data.supports_flakes, derivations, indexes }, command))
    }

    /// The closures of the profiles, by what the build printed to its standard
    /// output: each profile gets what its own derivation came to.
    pub fn closures(&self, stdout: &[u8]) -> (r: Result<Vec<String>, PushProfileError>)
        ensures
            self.reports_json() ==> match json_of_bytes(stdout@) {
                Ok(JsonValue::Array(results)) => match r {
                    Ok(closures) => realised_outputs(results) matches Ok(outputs)
                        && self.are_closures(texts(closures@), outputs),
                    Err(e) => is_assignment(results, self.built(), Err(e)),
                },
                _ => r matches Err(PushProfileError::BuildStdoutParse(fault)) && fault@
                    == json_list_fault(stdout@),
            },
            !self.reports_json() ==> match r {
                Ok(closures) => {
                    let printed = printed_paths(decode_utf8(stdout@));
                    &&& valid_utf8(stdout@)
                    &&& trimmed(decode_utf8(stdout@)).len() > 0
                    &&& printed.len() == self.built().len()
                    &&& closures@.len() == self.places().len()
                    &&& forall|i: int|
                        0 <= i < closures@.len() ==> closures@[i]@ == printed[
                        #[trigger] self.places()[i] as int]
                },
                Err(e) => is_paths_error(stdout@, self.built().len() as int, e),
            },
    {
        proof {
            use_type_invariant(self);
        }
        let built = if self.supports_flakes {
            match parse_build_json(stdout, self.derivations.as_slice()) {
                Ok(built) => built,
                Err(e) => return Err(e),
            }
        } else {
            match parse_build_out_paths(stdout, self.derivations.len()) {
                Ok(built) => built,
                Err(e) => return Err(e),
            }
        };
        assert(built@.len() == self.derivations@.len());
        let mut closures: Vec<String> = Vec::new();
        let mut i: usize = 0;
        while i < self.indexes.len()
            invariant
                i <= self.indexes@.len(),
                closures@.len() == i,
                self.wf(),
                built@.len() == self.derivations@.len(),
                forall|j: int|
                    0 <= j < i ==> closures@[j] == built@[#[trigger] self.indexes@[j] as int],
            decreases self.indexes@.len() - i,
        {
            closures.push(built[self.indexes[i]].clone());
            i += 1;
        }
        proof {
            if self.supports_flakes {
                let outputs = realised_outputs(json_of_bytes(stdout@)->Ok_0->Array_0)->Ok_0;
                assert forall|i: int| 0 <= i < closures@.len() implies realised_path(
                    outputs,
                    wanted_output(self.built()[#[trigger] self.places()[i] as int]@),
                ) == Some(closures@[i]@) by {
                    let k = self.indexes@[i] as int;
                    assert(realised_path(outputs, wanted_output(self.derivations@[k]@)) == Some(
                        built@[k]@,
                    ));
                }
            } else {
                let printed = printed_paths(decode_utf8(stdout@));
                assert forall|i: int| 0 <= i < closures@.len() implies closures@[i]@ == printed[
                #[trigger] self.places()[i] as int] by {
                    let k = self.indexes@[i] as int;
                    assert(texts(built@)[k] == built@[k]@);
                }
            }
        }
        Ok(closures)
    }
}

/// The positions at which a flag has the given value.
pub open spec fn positions(flags: Seq<bool>, value: bool) -> Seq<int>
    decreases flags.len(),
{
    if flags.len() == 0 {
        Seq::empty()
    } else {
        let before = positions(flags.drop_last(), value);
        if flags.last() == value {
            before.push(flags.len() - 1)
        } else {
            before
        }
    }
}

/// Whether each profile is built on its own machine.
pub open spec fn remote_flags(datas: Seq<PushProfileData<'_>>) -> Seq<bool> {
    datas.map_values(|data: PushProfileData<'_>| data.deploy_data.builds_remotely())
}

/// The profiles that are built on their own machines, one by one, and those that
/// are built together in the local store.
pub fn split_builds(datas: &[PushProfileData<'_>]) -> (r: (Vec<usize>, Vec<usize>))
    ensures
        r.0@.map_values(|i: usize| i as int) == positions(remote_flags(datas@), true),
        r.1@.map_values(|i: usize| i as int) == positions(remote_flags(datas@), false),
{
    let ghost flags = remote_flags(datas@);
    let mut remote: Vec<usize> = Vec::new();
    let mut local: Vec<usize> = Vec::new();
    let mut i: usize = 0;
    while i < datas.len()
        invariant
            i <= datas@.len(),
            flags == remote_flags(datas@),
            remote@.map_values(|i: usize| i as int) == positions(flags.take(i as int), true),
            local@.map_values(|i: usize| i as int) == positions(flags.take(i as int), false),
        decreases datas@.len() - i,
    {
        assert(flags.take(i + 1).drop_last() =~= flags.take(i as int));
        assert(flags.take(i + 1).last() == datas@[i as int].deploy_data.builds_remotely());
        let ghost remote_before = remote@.map_values(|i: usize| i as int);
        let ghost local_before = local@.map_values(|i: usize| i as int);
        if datas[i].deploy_data.remote_build() {
            remote.push(i);
            assert(remote@.map_values(|i: usize| i as int) =~= remote_before.push(i as int));
        } else {
            local.push(i);
            assert(local@.map_values(|i: usize| i as int) =~= local_before.push(i as int));
        }
        i += 1;
    }
    assert(flags.take(i as int) =~= flags);
    (remote, local)
}

/// Each profile is built exactly once: on its own machine or locally, and in
/// the order in which the profiles are given.
pub proof fn law_every_profile_is_built_once(flags: Seq<bool>)
    ensures
        positions(flags, true).no_duplicates(),
        positions(flags, false).no_duplicates(),
        forall|i: int| #[trigger]
            positions(flags, true).contains(i) <==> 0 <= i < flags.len() && flags[i],
        forall|i: int| #[trigger]
            positions(flags, false).contains(i) <==> 0 <= i < flags.len() && !flags[i],
        forall|i: int, j: int|
            0 <= i < j < positions(flags, true).len() ==> (#[trigger] positions(flags, true)[i]) < (
            #[trigger] positions(flags, true)[j]),
        forall|i: int, j: int|
            0 <= i < j < positions(flags, false).len() ==> (#[trigger] positions(flags, false)[i])
                < (#[trigger] positions(flags, false)[j]),
{
    lemma_positions(flags, true);
    lemma_positions(flags, false);
}

proof fn lemma_positions(flags: Seq<bool>, value: bool)
    ensures
        positions(flags, value).no_duplicates(),
        forall|i: int| #[trigger]
            positions(flags, value).contains(i) <==> 0 <= i < flags.len() && flags[i] == value,
        forall|i: int, j: int|
            0 <= i < j < positions(flags, value).len() ==> (#[trigger] positions(flags, value)[i])
                < (#[trigger] positions(flags, value)[j]),
    decreases flags.len(),
{
    if flags.len() > 0 {
        let init = flags.drop_last();
        let before = positions(init, value);
        let all = positions(flags, value);
        lemma_positions(init, value);
        let n = flags.len() - 1;
        assert(!before.contains(n));
        assert forall|i: int| #[trigger] all.contains(i) <==> 0 <= i < flags.len() && flags[i]
            == value by {
            if all.contains(i) {
                let k = choose|k: int| 0 <= k < all.len() && all[k] == i;
                if k < before.len() {
                    assert(before[k] == i);
                    assert(before.contains(i));
                }
            }
            if 0 <= i < flags.len() && flags[i] == value {
                if i < n {
                    assert(before.contains(i));
                    let k = choose|k: int| 0 <= k < before.len() && before[k] == i;
                    assert(all[k] == i);
                } else {
                    assert(all[all.len() - 1] == i);
                }
            }
        }
        assert forall|i: int, j: int| 0 <= i < j < all.len() implies (#[trigger] all[i]) < (
        #[trigger] all[j]) by {
            assert(before.contains(before[i]));
            if j < before.len() {
                assert(before[i] < before[j]);
            }
        }
    }
}

/// The closures of all profiles, in order, from those that were built on their
/// own machines and those that were built locally.
pub fn gather_closures(
    datas: &[PushProfileData<'_>],
    remote_closures: Vec<String>,
    local_closures: Vec<String>,
) -> (r: Vec<String>)
    requires
        remote_closures@.len() == positions(remote_flags(datas@), true).len(),
        local_closures@.len() == positions(remote_flags(datas@), false).len(),
    ensures
        r@.len() == datas@.len(),
        forall|k: int|
            0 <= k < remote_closures@.len() ==> r@[#[trigger] positions(
                remote_flags(datas@),
                true,
            )[k]] == remote_closures@[k],
        forall|k: int|
            0 <= k < local_closures@.len() ==> r@[#[trigger] positions(
                remote_flags(datas@),
                false,
            )[k]] == local_closures@[k],
{
    let ghost flags = remote_flags(datas@);
    let mut closures: Vec<String> = Vec::new();
    let mut from_remote: usize = 0;
    let mut from_local: usize = 0;
    let mut i: usize = 0;
    while i < datas.len()
        invariant
            i <= datas@.len(),
            flags == remote_flags(datas@),
            closures@.len() == i,
            from_remote == positions(flags.take(i as int), true).len(),
            from_local == positions(flags.take(i as int), false).len(),
            remote_closures@.len() == positions(flags, true).len(),
            local_closures@.len() == positions(flags, false).len(),
            forall|k: int|
                0 <= k < from_remote ==> 0 <= #[trigger] positions(flags.take(i as int), true)[k]
                    < i && closures@[positions(flags.take(i as int), true)[k]]
                    == remote_closures@[k],
            forall|k: int|
                0 <= k < from_local ==> 0 <= #[trigger] positions(flags.take(i as int), false)[k]
                    < i && closures@[positions(flags.take(i as int), false)[k]]
                    == local_closures@[k],
        decreases datas@.len() - i,
    {
        proof {
            assert(flags.take(i + 1).drop_last() =~= flags.take(i as int));
            assert(flags.take(i + 1).last() == datas@[i as int].deploy_data.builds_remotely());
            lemma_fewer_positions(flags, i + 1, true);
            lemma_fewer_positions(flags, i + 1, false);
        }
        if datas[i].deploy_data.remote_build() {
            assert(from_remote < remote_closures.len());
            closures.push(remote_closures[from_remote].clone());
            from_remote += 1;
        } else {
            assert(from_local < local_closures.len());
            closures.push(local_closures[from_local].clone());
            from_local += 1;
        }
        i += 1;
    }
    assert(flags.take(i as int) =~= flags);
    closures
}

proof fn lemma_fewer_positions(flags: Seq<bool>, n: int, value: bool)
    requires
        0 <= n <= flags.len(),
    ensures
        positions(flags.take(n), value).len() <= positions(flags, value).len(),
    decreases flags.len() - n,
{
    if n == flags.len() {
        assert(flags.take(n) =~= flags);
    } else {
        assert(flags.take(n + 1).drop_last() =~= flags.take(n));
        lemma_fewer_positions(flags, n + 1, value);
    }
}

/// The closure of a profile that was built on its own machine, by what the build
/// printed to its standard output.
pub fn remote_closure(stdout: &[u8], derivation_name: &str) -> (r: Result<String, PushProfileError>)
    ensures
        match json_of_bytes(stdout@) {
            Ok(JsonValue::Array(results)) => match realised_outputs(results) {
                Ok(outputs) => match realised_path(outputs, wanted_output(derivation_name@)) {
                    Some(path) => r matches Ok(closure) && closure@ == path,
                    None => r matches Err(PushProfileError::BuildStdoutMissingDerivation(d)) && d@
                        == derivation_name@,
                },
                Err(BuildFault::Invalid) => r matches Err(
                    PushProfileError::BuildStdoutInvalidDerivation,
                ),
                Err(BuildFault::Missing(identity)) => r matches Err(
                    PushProfileError::BuildStdoutMissingDerivation(d),
                ) && d@ == identity,
            },
            _ => r matches Err(PushProfileError::BuildStdoutParse(fault)) && fault@
                == json_list_fault(stdout@),
        },
{
    let derivations = [derivation_name];
    match parse_build_json(stdout, derivations.as_slice()) {
        Ok(paths) => {
            assert(derivations@[0]@ == derivation_name@);
            Ok(paths[0].clone())
        },
        Err(e) => Err(e),
    }
}

/// A build is drawn as a tree exactly where that is asked for and can be done. It runs
/// the same program on the same arguments, in the same environment and directory,
/// whichever way, and only reports in another form.
pub proof fn law_drawing_does_not_change_the_build(
    build_command: Command,
    build_tree: bool,
    nom_available: bool,
    r: BuildRun,
)
    requires
        call_ensures(plan_build_run, (build_command, build_tree, nom_available), r),
    ensures
        r is Tree <==> build_tree && nom_available,
        ({
            let run = match r {
                BuildRun::Plain(command) => command,
                BuildRun::Tree { nix, nom } => nix,
            };
            &&& run.program@ == build_command.program@
            &&& texts(build_command.args@).is_prefix_of(texts(run.args@))
            &&& run@.envs == build_command@.envs
            &&& run@.dir == build_command@.dir
            &&& run.stdin == build_command.stdin
            &&& run.stdout == Some(Stream::Piped)
            &&& r is Plain ==> texts(run.args@) == texts(build_command.args@)
            &&& r is Tree ==> texts(run.args@).skip(build_command.args@.len() as int) == seq![
                "--log-format"@,
                "internal-json"@,
                "--verbose"@,
            ]
        }),
        r matches BuildRun::Tree { nix, nom } ==> {
            &&& nom.program@ == "nom"@
            &&& texts(nom.args@) == seq!["--json"@]
            &&& nix.stderr == Some(Stream::Piped)
            &&& nom.stdin == Some(Stream::Piped)
        },
{
    let run = match r {
        BuildRun::Plain(command) => command,
        BuildRun::Tree { nix, nom } => nix,
    };
    let before = texts(build_command.args@);
    assert(texts(run.args@) == run@.args);
    assert(texts(run.args@).subrange(0, before.len() as int) =~= before);
    if r is Tree {
        assert(texts(run.args@).skip(before.len() as int) =~= seq![
            "--log-format"@,
            "internal-json"@,
            "--verbose"@,
        ]);
        assert(r->nom@.args =~= seq!["--json"@]);
    }
}

/// A build that was drawn as a tree is judged by how the build exited, and what it
/// printed is handed on as it is.
pub proof fn law_drawn_build_is_judged_by_its_exit(
    nix_code: Option<i32>,
    stdout: Vec<u8>,
    r: Result<Vec<u8>, PushProfileError>,
)
    requires
        call_ensures(conclude_tree_build, (nix_code, stdout), r),
    ensures
        r is Ok <==> nix_code == Some(0i32),
        r matches Ok(out) ==> out@ == stdout@,
{
}

/// A derivation that the evaluation gave is used, and one that it did not give is
/// looked up by the path of the profile.
pub proof fn law_given_derivation_is_used(
    data: PushProfileData<'_>,
    r: Result<Resolution, PushProfileError>,
)
    requires
        call_ensures(resolve_derivation, (&data,), r),
    ensures
        data.deploy_data.profile.profile_settings.drv_path is None ==> (r matches Ok(
            Resolution::ShowDerivation(command),
        ) && command.program@ == "nix"@ && command@.args.last()
            == data.deploy_data.profile.profile_settings.path@ && command@.args.contains(
            "show-derivation"@,
        )),
        data.deploy_data.profile.profile_settings.drv_path matches Some(drv) ==> {
            let caret = data.supports_flakes
                || data.deploy_data.merged_settings.remote_build == Some(true);
            let output = data.deploy_data.profile.profile_settings.output_name@;
            &&& caret ==> (r matches Ok(Resolution::PathInfo { deriver: d, command }) && d@ == drv@
                && command@.args.last() == drv@ && command@.args.contains("path-info"@))
            &&& !caret && output == "out"@ ==> (r matches Ok(Resolution::Installable(name))
                && name@ == drv@)
            &&& !caret && output != "out"@ ==> (r matches Err(
                PushProfileError::LegacyNonDefaultOutput(o),
            ) && o@ == output)
        },
{
    if r is Ok {
        match r->Ok_0 {
            Resolution::ShowDerivation(command) => {
                assert(command@.args[2] == "show-derivation"@);
            },
            Resolution::PathInfo { deriver: d, command } => {
                assert(command@.args[2] == "path-info"@);
            },
            Resolution::Installable(_) => {},
        }
    }
}

/// Where `nix path-info` prints the derivation itself, with white space around it or
/// without, the output is selected by `^`; where it prints anything else or fails,
/// `^` is not used, and only the default output can be built. Where it could not be
/// run at all nothing is built.
pub proof fn law_output_is_selected_by_newer_versions(
    deriver: String,
    output_name: &str,
    output: Output,
    shown: String,
    lead: Seq<char>,
    text: Seq<char>,
    end: Seq<char>,
    printed: Result<String, PushProfileError>,
    failed: Result<String, PushProfileError>,
)
    requires
        call_ensures(installable_after_path_info, (deriver, output_name, Ok(output)), printed),
        call_ensures(
            installable_after_path_info,
            (deriver, output_name, Err(CommandError::Exit(output, shown))),
            failed,
        ),
        valid_utf8(output.stdout@),
        decode_utf8(output.stdout@) == lead + text + end,
        forall|i: int| 0 <= i < lead.len() ==> is_space(#[trigger] lead[i]),
        text.len() > 0 ==> !is_space(text[0]) && !is_space(text.last()),
        forall|i: int| 0 <= i < end.len() ==> is_space(#[trigger] end[i]),
    ensures
        text == deriver@ ==> (printed matches Ok(name) && name@ == deriver@ + "^"@
            + output_name@),
        text != deriver@ && output_name@ == "out"@ ==> (printed matches Ok(name) && name@
            == deriver@),
        text != deriver@ && output_name@ != "out"@ ==> (printed matches Err(
            PushProfileError::LegacyNonDefaultOutput(o),
        ) && o@ == output_name@),
        output_name@ == "out"@ ==> (failed matches Ok(name) && name@ == deriver@),
        output_name@ != "out"@ ==> (failed matches Err(
            PushProfileError::LegacyNonDefaultOutput(o),
        ) && o@ == output_name@),
{
    law_only_ends_are_trimmed(lead, text, end);
}

/// A path that is reported for an installable is read back as the one that it selects,
/// so that what is built under the name that was chosen is what is then looked for.
pub proof fn law_selected_output_is_looked_for(
    deriver: String,
    output_name: &str,
    outcome: Result<Output, CommandError<PathInfoError>>,
    r: Result<String, PushProfileError>,
)
    requires
        call_ensures(installable_after_path_info, (deriver, output_name, outcome), r),
        !deriver@.contains('^'),
        !output_name@.contains('^'),
        r is Ok,
    ensures
        wanted_output(r->Ok_0@) == (deriver@, output_name@),
{
    law_installable_is_read_back(deriver@, output_name@);
    law_text_is_split_at_the_last(Seq::empty(), '^', deriver@);
}

/// The derivation that is shown is the first one that is named, below the name that
/// newer versions of Nix put it under and without it, and always with the directory of
/// the store.
pub proof fn law_shown_derivation_is_found(
    value: Json,
    fields: Seq<(Seq<char>, JsonValue)>,
    derivations: Seq<(Seq<char>, JsonValue)>,
    r: Result<String, ShowDerivationError>,
)
    requires
        call_ensures(shown_deriver, (&value,), r),
        value.value() == JsonValue::Object(fields),
        lookup(fields, "derivations"@) == Some(JsonValue::Object(derivations)) || (lookup(
            fields,
            "derivations"@,
        ) is None && fields == derivations),
    ensures
        derivations.len() == 0 ==> r matches Err(ShowDerivationError::Empty),
        derivations.len() > 0 ==> {
            &&& r is Ok
            &&& "/nix/store/"@.is_prefix_of(derivations[0].0) ==> r->Ok_0@ == derivations[0].0
            &&& !"/nix/store/"@.is_prefix_of(derivations[0].0) ==> r->Ok_0@ == "/nix/store/"@
                + derivations[0].0
        },
{
}

/// Each derivation is built once, however many profiles want it, all with the options
/// of the first profile, and the command that is run is for exactly those.
pub proof fn law_each_derivation_is_built_once(
    items: &[(&PushProfileData<'_>, &str)],
    r: Option<(LocalBuild<'_>, Command)>,
)
    requires
        call_ensures(LocalBuild::plan, (items,), r),
    ensures
        r is None <==> items@.len() == 0,
        r matches Some((build, command)) ==> {
            &&& strs(build.built()).no_duplicates()
            &&& forall|i: int|
                0 <= i < items@.len() ==> strs(build.built()).contains(
                    (#[trigger] items@[i]).1@,
                )
            &&& forall|k: int|
                0 <= k < build.built().len() ==> exists|i: int|
                    0 <= i < items@.len() && items@[i].1@ == (#[trigger] build.built()[k])@
            &&& build.serves(item_derivations(items@))
            &&& build.reports_json() == items@[0].0.supports_flakes
        },
{
    if r is Some {
        let (build, command) = r->0;
        let wanted = item_derivations(items@);
        law_distinct(wanted);
        assert forall|i: int| 0 <= i < items@.len() implies strs(build.built()).contains(
            (#[trigger] items@[i]).1@,
        ) by {
            assert(wanted[i] == items@[i].1@);
            assert(wanted.contains(wanted[i]));
        }
        assert forall|k: int| 0 <= k < build.built().len() implies exists|i: int|
            0 <= i < items@.len() && items@[i].1@ == (#[trigger] build.built()[k])@ by {
            assert(strs(build.built())[k] == build.built()[k]@);
            assert(strs(build.built()).contains(build.built()[k]@));
            assert(wanted.contains(build.built()[k]@));
            let i = choose|i: int| 0 <= i < wanted.len() && wanted[i] == build.built()[k]@;
            assert(items@[i].1@ == build.built()[k]@);
        }
    }
}

/// A profile is built on its own machine exactly where its settings say so, and its
/// closure is found in its own place again, whichever way it was built.
pub proof fn law_closures_find_their_profiles(
    datas: &[PushProfileData<'_>],
    parts: (Vec<usize>, Vec<usize>),
    remote: Vec<String>,
    local: Vec<String>,
    r: Vec<String>,
)
    requires
        call_ensures(split_builds, (datas,), parts),
        remote@.len() == parts.0@.len(),
        local@.len() == parts.1@.len(),
        call_ensures(gather_closures, (datas, remote, local), r),
    ensures
        forall|k: int|
            0 <= k < parts.0@.len() ==> {
                &&& (#[trigger] parts.0@[k]) < datas@.len()
                &&& datas@[parts.0@[k] as int].deploy_data.merged_settings.remote_build == Some(
                    true,
                )
                &&& r@[parts.0@[k] as int] == remote@[k]
            },
        forall|k: int|
            0 <= k < parts.1@.len() ==> {
                &&& (#[trigger] parts.1@[k]) < datas@.len()
                &&& datas@[parts.1@[k] as int].deploy_data.merged_settings.remote_build != Some(
                    true,
                )
                &&& r@[parts.1@[k] as int] == local@[k]
            },
        parts.0@.len() + parts.1@.len() == datas@.len(),
        r@.len() == datas@.len(),
{
    let flags = remote_flags(datas@);
    law_every_profile_is_built_once(flags);
    lemma_positions_add_up(flags);
    let far = positions(flags, true);
    let near = positions(flags, false);
    assert(parts.0@.map_values(|i: usize| i as int).len() == parts.0@.len());
    assert(parts.1@.map_values(|i: usize| i as int).len() == parts.1@.len());
    assert forall|k: int| 0 <= k < parts.0@.len() implies {
        &&& (#[trigger] parts.0@[k]) < datas@.len()
        &&& datas@[parts.0@[k] as int].deploy_data.merged_settings.remote_build == Some(true)
        &&& r@[parts.0@[k] as int] == remote@[k]
    } by {
        assert(parts.0@.map_values(|i: usize| i as int)[k] == parts.0@[k] as int);
        assert(far[k] == parts.0@[k] as int);
        assert(far.contains(far[k]));
        assert(flags[far[k]] == datas@[far[k]].deploy_data.builds_remotely());
    }
    assert forall|k: int| 0 <= k < parts.1@.len() implies {
        &&& (#[trigger] parts.1@[k]) < datas@.len()
        &&& datas@[parts.1@[k] as int].deploy_data.merged_settings.remote_build != Some(true)
        &&& r@[parts.1@[k] as int] == local@[k]
    } by {
        assert(parts.1@.map_values(|i: usize| i as int)[k] == parts.1@[k] as int);
        assert(near[k] == parts.1@[k] as int);
        assert(near.contains(near[k]));
        assert(flags[near[k]] == datas@[near[k]].deploy_data.builds_remotely());
    }
}

proof fn lemma_positions_add_up(flags: Seq<bool>)
    ensures
        positions(flags, true).len() + positions(flags, false).len() == flags.len(),
    decreases flags.len(),
{
    if flags.len() > 0 {
        lemma_positions_add_up(flags.drop_last());
    }
}

/// Whether builds can be drawn is found out by the program that draws them, in the search
/// path of the build.
pub proof fn law_drawing_is_tried_in_the_path_of_the_build(build_command: Command, r: Command)
    requires
        call_ensures(nom_check_command, (&build_command,), r),
    ensures
        r.program@ == "nom"@,
        texts(r.args@) == seq!["--version"@],
        r@.env_value("PATH"@) == build_command@.env_value("PATH"@),
        r.stdout == Some(Stream::Null),
        r.stderr == Some(Stream::Null),
{
    let line = command_line("nom"@, seq!["--version"@]);
    let path = build_command@.env_value("PATH"@);
    if path is Some {
        law_last_value_counts(line, "PATH"@, path->0, "PATH"@);
        assert(r@.envs == line.with_env("PATH"@, path->0).envs);
    } else {
        assert(r@.envs == line.envs);
    }
}

/// Each profile of a local build gets the path of its own derivation, by what was
/// reported for it, and profiles with the same derivation get the same.
pub proof fn law_local_build_gives_each_profile_its_own(
    items: &[(&PushProfileData<'_>, &str)],
    build: LocalBuild<'_>,
    command: Command,
    stdout: &[u8],
    r: Result<Vec<String>, PushProfileError>,
    results: Seq<JsonValue>,
    i: int,
    j: int,
)
    requires
        call_ensures(LocalBuild::plan, (items,), Some((build, command))),
        call_ensures(LocalBuild::closures, (&build, stdout), r),
        r is Ok,
        0 <= i < items@.len(),
        0 <= j < items@.len(),
    ensures
        r->Ok_0@.len() == items@.len(),
        items@[0].0.supports_flakes && json_of_bytes(stdout@) == Ok::<_, Seq<char>>(
            JsonValue::Array(results),
        ) ==> realised_outputs(results) is Ok && realised_path(
            realised_outputs(results)->Ok_0,
            wanted_output(items@[i].1@),
        ) == Some(r->Ok_0@[i]@),
        items@[i].1@ == items@[j].1@ ==> r->Ok_0@[i]@ == r->Ok_0@[j]@,
{
    let wanted = item_derivations(items@);
    assert(wanted[i] == items@[i].1@);
    assert(wanted[j] == items@[j].1@);
    let closures = texts(r->Ok_0@);
    if build.reports_json() {
        match json_of_bytes(stdout@) {
            Ok(JsonValue::Array(found)) => {
                let outputs = realised_outputs(found)->Ok_0;
                build.law_profiles_get_their_own_closures(wanted, closures, outputs);
                assert(closures[i] == r->Ok_0@[i]@);
                assert(closures[j] == r->Ok_0@[j]@);
            },
            _ => {},
        }
    } else {
        law_distinct(wanted);
        let a = build.places()[i] as int;
        let b = build.places()[j] as int;
        assert(build.built()[a]@ == wanted[i]);
        assert(build.built()[b]@ == wanted[j]);
        assert(strs(build.built())[a] == wanted[i]);
        assert(strs(build.built())[b] == wanted[j]);
    }
}

/// A build without flakes prints a path for each derivation, in the order in which they
/// were asked for: a profile gets the one at the place of its derivation.
pub proof fn law_printed_paths_belong_to_the_derivations_in_order(
    items: &[(&PushProfileData<'_>, &str)],
    build: LocalBuild<'_>,
    command: Command,
    stdout: &[u8],
    r: Result<Vec<String>, PushProfileError>,
    i: int,
    place: int,
)
    requires
        call_ensures(LocalBuild::plan, (items,), Some((build, command))),
        call_ensures(LocalBuild::closures, (&build, stdout), r),
        r is Ok,
        !items@[0].0.supports_flakes,
        0 <= i < items@.len(),
        0 <= place < build.built().len(),
        build.built()[place]@ == items@[i].1@,
    ensures
        r->Ok_0@[i]@ == printed_paths(decode_utf8(stdout@))[place],
        printed_paths(decode_utf8(stdout@)).len() == build.built().len(),
{
    let wanted = item_derivations(items@);
    assert(wanted[i] == items@[i].1@);
    law_distinct(wanted);
    let own = build.places()[i] as int;
    assert(build.built()[own]@ == wanted[i]);
    assert(strs(build.built())[own] == strs(build.built())[place]);
    assert(own == place);
}

/// What is built on the machine of a profile is found in what was printed as it is in a
/// local build of that one derivation.
pub proof fn law_remote_closure_is_found_alike(
    stdout: &[u8],
    derivation_name: &str,
    derivations: &[&str],
    r: Result<String, PushProfileError>,
    list: Result<Vec<String>, PushProfileError>,
)
    requires
        call_ensures(remote_closure, (stdout, derivation_name), r),
        call_ensures(parse_build_json, (stdout, derivations), list),
        derivations@.len() == 1,
        derivations@[0]@ == derivation_name@,
    ensures
        r is Ok <==> list is Ok,
        r is Ok ==> r->Ok_0@ == list->Ok_0@[0]@,
{
    if let Ok(JsonValue::Array(results)) = json_of_bytes(stdout@) {
        if realised_outputs(results) is Ok {
            let outputs = realised_outputs(results)->Ok_0;
            if list is Ok {
                assert(realised_path(outputs, wanted_output(derivations@[0]@)) == Some(
                    list->Ok_0@[0]@,
                ));
            }
        }
    }
}

/// A derivation that was looked up is built as one that was given is.
pub proof fn law_looked_up_derivation_is_used(
    data: PushProfileData<'_>,
    stdout: &[u8],
    value: Json,
    shown: Result<String, ShowDerivationError>,
    r: Result<Resolution, PushProfileError>,
)
    requires
        call_ensures(after_show_derivation, (&data, stdout), r),
        call_ensures(shown_deriver, (&value,), shown),
        valid_utf8(stdout@) ==> json_of_text(decode_utf8(stdout@)) == Ok::<_, Seq<char>>(
            value.value(),
        ),
    ensures
        !valid_utf8(stdout@) || shown is Err ==> (r matches Err(
            PushProfileError::ShowDerivation(CommandError::OtherError(_)),
        )),
        valid_utf8(stdout@) && shown is Ok ==> {
            let drv = shown->Ok_0@;
            let caret = data.supports_flakes
                || data.deploy_data.merged_settings.remote_build == Some(true);
            let output = data.deploy_data.profile.profile_settings.output_name@;
            &&& caret ==> (r matches Ok(Resolution::PathInfo { deriver: d, command }) && d@ == drv
                && command@.args.last() == drv && command@.args[2] == "path-info"@)
            &&& !caret && output == "out"@ ==> (r matches Ok(Resolution::Installable(name))
                && name@ == drv)
            &&& !caret && output != "out"@ ==> (r matches Err(
                PushProfileError::LegacyNonDefaultOutput(o),
            ) && o@ == output)
        },
{
}

/// The derivation is asked about exactly where outputs can be selected, and only the
/// default output is built where they cannot.
pub proof fn law_derivation_is_asked_about_where_outputs_are_selected(
    deriver: String,
    output_name: &str,
    supports_caret: bool,
    r: Result<Resolution, PushProfileError>,
)
    requires
        call_ensures(deriver_for_build, (deriver, output_name, supports_caret), r),
    ensures
        supports_caret <==> (r matches Ok(Resolution::PathInfo { .. })),
        r matches Ok(Resolution::PathInfo { deriver: d, command }) ==> d@ == deriver@
            && command.program@ == "nix"@ && command@.args.subrange(2, 4) == seq![
            "path-info"@,
            deriver@,
        ],
        r matches Ok(Resolution::Installable(name)) ==> name@ == deriver@ && output_name@
            == "out"@,
        r is Err <==> !supports_caret && output_name@ != "out"@,
{
    if supports_caret {
        let command = r->Ok_0->PathInfo_command;
        assert(command@.args.subrange(2, 4) =~= seq!["path-info"@, deriver@]);
    }
}

/// What was printed about a derivation is judged in the same way by itself and with how
/// the command exited.
pub proof fn law_printed_derivation_is_judged_alike(
    deriver: String,
    output_name: &str,
    stdout: &[u8],
    output: Output,
    printed: Result<String, PushProfileError>,
    r: Result<String, PushProfileError>,
)
    requires
        call_ensures(installable_by_path_info, (deriver, output_name, stdout), printed),
        call_ensures(installable_after_path_info, (deriver, output_name, Ok(output)), r),
        output.stdout@ == stdout@,
    ensures
        printed is Ok <==> r is Ok,
        printed is Ok ==> printed->Ok_0@ == r->Ok_0@,
        printed is Err ==> printed->Err_0 is LegacyNonDefaultOutput && output_name@ != "out"@,
        !valid_utf8(stdout@) && output_name@ == "out"@ ==> printed is Ok && printed->Ok_0@
            == deriver@,
{
}

} // verus!
