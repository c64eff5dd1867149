//! Where a profile is found on a machine.
use vstd::prelude::*;

use crate::remote_protocol::ProfileTarget;
use crate::text::{lemma_ends_in, opt_str, opt_text, same_text};

verus! {

/// Why the path of a profile is not known.
#[derive(Debug)]
pub enum GetProfilePathError {
    NoUserHome(String),
}

/// What is shown of a `GetProfilePathError`.
pub open spec fn get_profile_path_error_text(e: GetProfilePathError) -> Seq<char> {
    match e {
        GetProfilePathError::NoUserHome(user) =>
            "Failed to deduce HOME directory for user "@ + user@,
    }
}

impl GetProfilePathError {
    /// The message for this error.
    pub fn message(&self) -> (r: String)
        ensures
            r@ == get_profile_path_error_text(*self),
    {
        match self {
            GetProfilePathError::NoUserHome(user) => {
                "Failed to deduce HOME directory for user ".to_string().concat(user.as_str())
            },
        }
    }
}

/// What the machine says of where profiles are kept: the environment variables
/// `NIX_STATE_DIR` and `XDG_STATE_HOME`, the home directory, and whether the
/// user has a directory below that of Nix.
#[derive(Debug)]
pub struct ProfileEnv {
    pub nix_state_dir: Option<String>,
    pub state_home: Option<String>,
    pub home: Option<String>,
    pub has_user_profiles_dir: bool,
}

/// The directory in which Nix keeps its state.
pub open spec fn nix_state(nix_state_dir: Option<Seq<char>>) -> Seq<char> {
    match nix_state_dir {
        Some(dir) => dir,
        None => "/nix/var/nix"@,
    }
}

/// The directory of a user below that of Nix.
pub open spec fn user_profiles(nix_state_dir: Option<Seq<char>>, user: Seq<char>) -> Seq<char> {
    nix_state(nix_state_dir) + "/profiles/per-user/"@ + user
}

/// The directory of a user below that of Nix, where profiles were kept by older
/// versions of Nix, and still are where it is there.
pub fn user_profiles_dir(nix_state_dir: Option<&str>, user: &str) -> (r: String)
    ensures
        r@ == user_profiles(opt_str(nix_state_dir), user@),
{
    let dir = match nix_state_dir {
        Some(dir) => dir,
        None => "/nix/var/nix",
    };
    dir.to_string().concat("/profiles/per-user/").concat(user)
}

/// The path of the profile with a name that belongs to a user, where it is
/// known.
pub open spec fn profile_location(user: Seq<char>, name: Seq<char>, env: ProfileEnv) -> Option<
    Seq<char>,
> {
    let dir = nix_state(opt_text(env.nix_state_dir));
    if user == "root"@ {
        if name == "system"@ {
            Some(dir + "/profiles/system"@)
        } else if name == "system-manager"@ {
            Some(dir + "/profiles/system-manager-profiles/system-manager"@)
        } else {
            Some(dir + "/profiles/per-user/root/"@ + name)
        }
    } else if env.has_user_profiles_dir {
        Some(user_profiles(opt_text(env.nix_state_dir), user) + "/"@ + name)
    } else {
        match (opt_text(env.state_home), opt_text(env.home)) {
            (Some(state), _) => Some(state + "/nix/profiles/"@ + name),
            (None, Some(home)) => Some(home + "/.local/state"@ + "/nix/profiles/"@ + name),
            (None, None) => None,
        }
    }
}

/// The path of the profile with a name that belongs to a user.
fn locate_profile(user: String, name: &str, env: &ProfileEnv) -> (r: Result<
    String,
    GetProfilePathError,
>)
    ensures
        match profile_location(user@, name@, *env) {
            Some(path) => r matches Ok(p) && p@ == path,
            None => r == Err::<String, _>(GetProfilePathError::NoUserHome(user)),
        },
{
    let nix_state_dir = match &env.nix_state_dir {
        Some(dir) => dir.clone(),
        None => "/nix/var/nix".to_string(),
    };
    if same_text(user.as_str(), "root") {
        if same_text(name, "system") {
            Ok(nix_state_dir.concat("/profiles/system"))
        } else if same_text(name, "system-manager") {
            Ok(nix_state_dir.concat("/profiles/system-manager-profiles/system-manager"))
        } else {
            Ok(nix_state_dir.concat("/profiles/per-user/root/").concat(name))
        }
    } else if env.has_user_profiles_dir {
        let dir = user_profiles_dir(Some(nix_state_dir.as_str()), user.as_str());
        Ok(dir.concat("/").concat(name))
    } else {
        let state_dir = match (&env.state_home, &env.home) {
            (Some(state), _) => state.clone(),
            (None, Some(home)) => home.clone().concat("/.local/state"),
            (None, None) => return Err(GetProfilePathError::NoUserHome(user)),
        };
        Ok(state_dir.concat("/nix/profiles/").concat(name))
    }
}

/// The path of a profile that is given by its path, or by its user and its name.
pub fn get_profile_path(
    profile_path: Option<String>,
    profile_user: Option<String>,
    profile_name: Option<String>,
    env: &ProfileEnv,
) -> (r: Result<String, GetProfilePathError>)
    requires
        profile_path is Some ==> profile_user is None && profile_name is None,
        profile_path is None ==> profile_user is Some && profile_name is Some,
    ensures
        match (profile_path, profile_user, profile_name) {
            (Some(path), _, _) => r == Ok::<_, GetProfilePathError>(path),
            (None, Some(user), Some(name)) => match profile_location(user@, name@, *env) {
                Some(path) => r matches Ok(p) && p@ == path,
                None => r == Err::<String, _>(GetProfilePathError::NoUserHome(user)),
            },
            _ => true,
        },
{
    match profile_path {
        Some(path) => Ok(path),
        None => {
            let user = profile_user.unwrap();
            let name = profile_name.unwrap();
            locate_profile(user, name.as_str(), env)
        },
    }
}

/// The path of the profile that a request is about.
pub fn profile_path_from_target(target: ProfileTarget, env: &ProfileEnv) -> (r: Result<
    String,
    GetProfilePathError,
>)
    ensures
        match target {
            ProfileTarget::ProfilePath { profile_path } => r == Ok::<_, GetProfilePathError>(
                profile_path,
            ),
            ProfileTarget::ProfileUserAndName { profile_user, profile_name } =>
                match profile_location(profile_user@, profile_name@, *env) {
                    Some(path) => r matches Ok(p) && p@ == path,
                    None => r == Err::<String, _>(GetProfilePathError::NoUserHome(profile_user)),
                },
        },
{
    match target {
        ProfileTarget::ProfilePath { profile_path } => {
            get_profile_path(Some(profile_path), None, None, env)
        },
        ProfileTarget::ProfileUserAndName { profile_user, profile_name } => {
            get_profile_path(None, Some(profile_user), Some(profile_name), env)
        },
    }
}

/// A profile of `root` is found whatever the machine says of home directories,
/// and so is any profile on a machine with a home directory.
pub proof fn law_profile_is_found(user: Seq<char>, name: Seq<char>, env: ProfileEnv)
    ensures
        profile_location(user, name, env) is None <==> {
            &&& user != "root"@
            &&& !env.has_user_profiles_dir
            &&& env.state_home is None
            &&& env.home is None
        },
{
}

/// What is compared before a profile is activated.
#[derive(Debug)]
pub struct DryDiffOpts {
    pub new_closure: String,
    pub profile_path: Option<String>,
    pub profile_user: Option<String>,
    pub profile_name: Option<String>,
}

/// Why changes could not be shown.
#[derive(Debug)]
pub enum DryDiffError {
    ProfilePath(GetProfilePathError),
    ReadProfile(String),
    SizeDiff(String),
    PackageDiff(String),
}

/// What is shown of a `DryDiffError`.
pub open spec fn dry_diff_error_text(e: DryDiffError) -> Seq<char> {
    match e {
        DryDiffError::ProfilePath(err) =>
            "Failed to resolve profile path: "@ + get_profile_path_error_text(err),
        DryDiffError::ReadProfile(err) => "Failed to read current profile: "@ + err@,
        DryDiffError::SizeDiff(err) => "Failed to compute closure size: "@ + err@,
        DryDiffError::PackageDiff(err) => "Failed to write package diff: "@ + err@,
    }
}

impl DryDiffError {
    /// The message for this error.
    pub fn message(&self) -> (r: String)
        ensures
            r@ == dry_diff_error_text(*self),
    {
        match self {
            DryDiffError::ProfilePath(err) => {
                "Failed to resolve profile path: ".to_string().concat(err.message().as_str())
            },
            DryDiffError::ReadProfile(err) => {
                "Failed to read current profile: ".to_string().concat(err.as_str())
            },
            DryDiffError::SizeDiff(err) => {
                "Failed to compute closure size: ".to_string().concat(err.as_str())
            },
            DryDiffError::PackageDiff(err) => {
                "Failed to write package diff: ".to_string().concat(err.as_str())
            },
        }
    }
}

/// How the sizes of two closures compare.
#[derive(Debug)]
pub enum SizeChange {
    /// They could not be found out.
    Unknown,
    /// They are the same.
    Same,
    /// They differ, with how the difference is shown.
    Differs(String),
}

/// What is shown of a profile that is not there yet.
pub open spec fn no_generation_text(profile_path: Seq<char>) -> Seq<char> {
    "No existing generation found at "@ + profile_path + ", skipping derivation diff.\n"@
}

/// What is shown of the changes of a profile, of which `package_diff` shows those
/// of `wrote` packages.
pub open spec fn changes_text(
    profile_path: Seq<char>,
    package_diff: Seq<char>,
    wrote: usize,
    size: SizeChange,
) -> Seq<char> {
    let changes = "Derivation changes for "@ + profile_path + ":\n"@ + package_diff;
    match size {
        SizeChange::Unknown => changes,
        SizeChange::Same => if wrote == 0 {
            changes + "No version or size changes.\n"@
        } else {
            changes
        },
        SizeChange::Differs(text) => if wrote > 0 {
            changes + "\n"@ + text@
        } else {
            changes + text@
        },
    }
}

/// What is shown of a profile that is not there yet.
pub fn render_no_generation(profile_path: &str) -> (r: String)
    ensures
        r@ == no_generation_text(profile_path@),
{
    "No existing generation found at ".to_string().concat(profile_path).concat(
        ", skipping derivation diff.\n",
    )
}

/// What is shown of the changes of a profile, of which `package_diff` shows those
/// of `wrote` packages.
pub fn render_dry_diff(
    profile_path: &str,
    package_diff: &str,
    wrote: usize,
    size: &SizeChange,
) -> (r: String)
    ensures
        r@ == changes_text(profile_path@, package_diff@, wrote, *size),
{
    let mut output = "Derivation changes for ".to_string().concat(profile_path).concat(
        ":\n",
    ).concat(package_diff);
    match size {
        SizeChange::Unknown => {},
        SizeChange::Same => {
            if wrote == 0 {
                output.append("No version or size changes.\n");
            }
        },
        SizeChange::Differs(text) => {
            if wrote > 0 {
                output.append("\n");
            }
            output.append(text.as_str());
        },
    }
    output
}

/// A user's own directory below that of Nix comes first: a profile of a user other
/// than root is in it where it is there, whatever home and state directories there
/// are.
pub proof fn law_user_directory_of_nix_comes_first(
    user: String,
    name: String,
    env: ProfileEnv,
    r: Result<String, GetProfilePathError>,
)
    requires
        call_ensures(get_profile_path, (None, Some(user), Some(name), &env), r),
        user@ != "root"@,
        env.has_user_profiles_dir,
    ensures
        r matches Ok(path) && path@ == (match env.nix_state_dir {
            Some(dir) => dir@,
            None => "/nix/var/nix"@,
        }) + "/profiles/per-user/"@ + user@ + "/"@ + name@,
{
}

/// Where a user other than root has no directory below that of Nix, the profile is in
/// the state directory, or else in the one below the home directory, wherever Nix
/// keeps its own state; where neither is known, the user is named.
pub proof fn law_state_directory_comes_next(
    user: String,
    name: String,
    env: ProfileEnv,
    r: Result<String, GetProfilePathError>,
)
    requires
        call_ensures(get_profile_path, (None, Some(user), Some(name), &env), r),
        user@ != "root"@,
        !env.has_user_profiles_dir,
    ensures
        env.state_home matches Some(state) ==> (r matches Ok(path) && path@ == env.state_home->0@
            + "/nix/profiles/"@ + name@),
        env.state_home is None && env.home is Some ==> (r matches Ok(path) && path@
            == env.home->0@ + "/.local/state"@ + "/nix/profiles/"@ + name@),
        env.state_home is None && env.home is None ==> (r matches Err(
            GetProfilePathError::NoUserHome(who),
        ) && who@ == user@),
{
}

/// The profiles of root are kept by Nix itself, whatever home and state directories
/// there are: that of the system and that of the system manager in places of their
/// own, and all others in the directory of root.
pub proof fn law_profiles_of_root_are_kept_by_nix(
    name: String,
    user: String,
    env: ProfileEnv,
    r: Result<String, GetProfilePathError>,
)
    requires
        call_ensures(get_profile_path, (None, Some(user), Some(name), &env), r),
        user@ == "root"@,
    ensures
        r is Ok,
        ({
            let state = match env.nix_state_dir {
                Some(dir) => dir@,
                None => "/nix/var/nix"@,
            };
            &&& name@ == "system"@ ==> r->Ok_0@ == state + "/profiles/system"@
            &&& name@ == "system-manager"@ ==> r->Ok_0@ == state
                + "/profiles/system-manager-profiles/system-manager"@
            &&& name@ != "system"@ && name@ != "system-manager"@ ==> r->Ok_0@ == state
                + "/profiles/per-user/root/"@ + name@
        }),
{
    reveal_strlit("system");
    reveal_strlit("system-manager");
    assert("system"@.len() == 6 && "system-manager"@.len() == 14);
}

/// A path that is given is taken as it is.
pub proof fn law_given_path_is_taken(
    path: String,
    env: ProfileEnv,
    r: Result<String, GetProfilePathError>,
    asked: Result<String, GetProfilePathError>,
)
    requires
        call_ensures(get_profile_path, (Some(path), None, None, &env), r),
        call_ensures(
            profile_path_from_target,
            (ProfileTarget::ProfilePath { profile_path: path }, &env),
            asked,
        ),
    ensures
        r matches Ok(found) && found@ == path@,
        asked matches Ok(found) && found@ == path@,
{
}

/// A request for a profile by its user and name is about the path that is found by
/// them.
pub proof fn law_request_is_about_the_path_of_the_profile(
    user: String,
    name: String,
    env: ProfileEnv,
    found: Result<String, GetProfilePathError>,
    asked: Result<String, GetProfilePathError>,
)
    requires
        call_ensures(get_profile_path, (None, Some(user), Some(name), &env), found),
        call_ensures(
            profile_path_from_target,
            (
                ProfileTarget::ProfileUserAndName { profile_user: user, profile_name: name },
                &env,
            ),
            asked,
        ),
    ensures
        found is Ok <==> asked is Ok,
        found is Ok ==> found->Ok_0@ == asked->Ok_0@,
{
}

/// Whether a user has a directory below that of Nix is asked about the directory in
/// which the profile would be.
pub proof fn law_directory_that_is_asked_about_is_the_one_used(
    user: String,
    name: String,
    env: ProfileEnv,
    r: Result<String, GetProfilePathError>,
    nix_state_dir: Option<&str>,
    asked_user: &str,
    dir: String,
)
    requires
        call_ensures(get_profile_path, (None, Some(user), Some(name), &env), r),
        call_ensures(user_profiles_dir, (nix_state_dir, asked_user), dir),
        opt_str(nix_state_dir) == opt_text(env.nix_state_dir),
        asked_user@ == user@,
        user@ != "root"@,
        env.has_user_profiles_dir,
    ensures
        r matches Ok(path) && path@ == dir@ + "/"@ + name@,
{
}

/// What is shown of changes starts with the profile and the packages, and says of
/// the sizes what is known: nothing, that nothing changed where no package did
/// either, or the difference, apart from the packages where there are any.
pub proof fn law_changes_are_shown_in_full(
    profile_path: &str,
    package_diff: &str,
    wrote: usize,
    size: SizeChange,
    r: String,
)
    requires
        call_ensures(render_dry_diff, (profile_path, package_diff, wrote, &size), r),
    ensures
        ({
            let start = "Derivation changes for "@ + profile_path@ + ":\n"@ + package_diff@;
            &&& start.is_prefix_of(r@)
            &&& size is Unknown ==> r@ == start
            &&& size is Same && wrote > 0 ==> r@ == start
            &&& size is Same && wrote == 0 ==> r@ == start + "No version or size changes.\n"@
            &&& size is Differs && wrote == 0 ==> r@ == start + size->Differs_0@
            &&& size is Differs && wrote > 0 ==> r@ == start + "\n"@ + size->Differs_0@
        }),
{
    let start = "Derivation changes for "@ + profile_path@ + ":\n"@ + package_diff@;
    assert(r@.subrange(0, start.len() as int) =~= start);
}

/// A profile that is not there yet is named, and nothing is compared.
pub proof fn law_missing_generation_is_named(profile_path: &str, r: String)
    requires
        call_ensures(render_no_generation, (profile_path,), r),
    ensures
        r@ == "No existing generation found at "@ + profile_path@
            + ", skipping derivation diff.\n"@,
{
}

/// What is said of a comparison that failed ends in why it did.
pub proof fn law_comparison_says_why_it_failed(e: DryDiffError, r: String)
    requires
        call_ensures(DryDiffError::message, (&e,), r),
    ensures
        match e {
            DryDiffError::ProfilePath(why) => get_profile_path_error_text(why).is_suffix_of(r@),
            DryDiffError::ReadProfile(why) => why@.is_suffix_of(r@),
            DryDiffError::SizeDiff(why) => why@.is_suffix_of(r@),
            DryDiffError::PackageDiff(why) => why@.is_suffix_of(r@),
        },
{
    match e {
        DryDiffError::ProfilePath(why) => {
            lemma_ends_in(get_profile_path_error_text(why));
        },
        DryDiffError::ReadProfile(why) => {
            lemma_ends_in(why@);
        },
        DryDiffError::SizeDiff(why) => {
            lemma_ends_in(why@);
        },
        DryDiffError::PackageDiff(why) => {
            lemma_ends_in(why@);
        },
    }
}

/// What is said of a user without a home names that user.
pub proof fn law_user_without_home_is_named(e: GetProfilePathError, r: String)
    requires
        call_ensures(GetProfilePathError::message, (&e,), r),
    ensures
        match e {
            GetProfilePathError::NoUserHome(user) => user@.is_suffix_of(r@),
        },
{
    match e {
        GetProfilePathError::NoUserHome(user) => {
            lemma_ends_in(user@);
        },
    }
}

} // verus!
