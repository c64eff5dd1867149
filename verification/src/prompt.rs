//! What is shown of a deployment before it starts, and what is asked.
use vstd::prelude::*;

use crate::cli::PromptDeploymentError;
use crate::deployment::{switch, switched, DeployData, DeployDefs};
use crate::names::{entry_set, law_lookup_after_set, lemma_position_of, lookup, NameMap};
use crate::push::PushProfileData;
use crate::rollout::DeployPart;
use crate::sudo::sudo_position;

verus! {

/// What `yn::yes` makes of an answer.
pub uninterp spec fn says_yes(answer: Seq<char>) -> bool;

/// What `yn::is_somewhat_yes` makes of an answer.
pub uninterp spec fn says_somewhat_yes(answer: Seq<char>) -> bool;

/// What `yn::no` makes of an answer.
pub uninterp spec fn says_no(answer: Seq<char>) -> bool;

/// `yn::yes` of the crate `yn`: whether the answer is a form of yes. Which
/// answers are, is left to the name `says_yes`.
#[verifier::external_body]
fn yes(answer: &str) -> (r: bool)
    ensures
        r == says_yes(answer@),
{
    yn::yes(answer)
}

/// `yn::is_somewhat_yes` of the crate `yn`: whether the answer sounds like yes.
/// Which answers do, is left to the name `says_somewhat_yes`.
#[verifier::external_body]
fn somewhat_yes(answer: &str) -> (r: bool)
    ensures
        r == says_somewhat_yes(answer@),
{
    yn::is_somewhat_yes(answer)
}

/// `yn::no` of the crate `yn`: whether the answer is a form of no. Which answers
/// are, is left to the name `says_no`.
#[verifier::external_body]
fn no(answer: &str) -> (r: bool)
    ensures
        r == says_no(answer@),
{
    yn::no(answer)
}

/// What follows on an answer to the question whether to deploy.
#[derive(Debug, Clone, Copy, PartialEq, Eq, Structural)]
pub enum Reaction {
    /// To deploy.
    Deploy,
    /// To ask again, because the answer only sounded like yes.
    AskAgain,
    /// Not to deploy, and to say so where the answer was not a clear no.
    Cancel { unclear: bool },
}

/// What follows on the first answer, by what it is taken for.
pub fn react(is_yes: bool, is_somewhat_yes: bool, is_no: bool) -> (r: Reaction)
    ensures
        r == (if is_yes {
            Reaction::Deploy
        } else if is_somewhat_yes {
            Reaction::AskAgain
        } else {
            Reaction::Cancel { unclear: !is_no }
        }),
{
    if is_yes {
        Reaction::Deploy
    } else if is_somewhat_yes {
        Reaction::AskAgain
    } else {
        Reaction::Cancel { unclear: !is_no }
    }
}

/// What follows on the first answer to the question whether to deploy.
pub fn first_answer(answer: &str) -> (r: Reaction)
    ensures
        r == (if says_yes(answer@) {
            Reaction::Deploy
        } else if says_somewhat_yes(answer@) {
            Reaction::AskAgain
        } else {
            Reaction::Cancel { unclear: !says_no(answer@) }
        }),
{
    react(yes(answer), somewhat_yes(answer), no(answer))
}

/// What follows on the second answer, by whether it is taken for a yes.
pub fn conclude_prompt(is_yes: bool) -> (r: Result<(), PromptDeploymentError>)
    ensures
        r == (if is_yes {
            Ok::<(), PromptDeploymentError>(())
        } else {
            Err(PromptDeploymentError::Cancelled)
        }),
{
    if !is_yes {
        return Err(PromptDeploymentError::Cancelled);
    }
    Ok(())
}

/// What follows on the second answer to the question whether to deploy.
pub fn second_answer(answer: &str) -> (r: Result<(), PromptDeploymentError>)
    ensures
        r == (if says_yes(answer@) {
            Ok::<(), PromptDeploymentError>(())
        } else {
            Err(PromptDeploymentError::Cancelled)
        }),
{
    conclude_prompt(yes(answer))
}

/// What is shown of a profile that is going to be deployed.
pub struct PromptPart<'a> {
    pub user: &'a str,
    pub ssh_user: &'a str,
    pub path: &'a str,
    pub hostname: &'a str,
    pub tags: &'a [String],
    pub ssh_opts: &'a [String],
}

/// What is shown is about the given profile.
pub open spec fn describes(shown: PromptPart<'_>, part: DeployPart<'_>) -> bool {
    &&& shown.user@ == part.2.profile_user@
    &&& shown.ssh_user@ == part.2.ssh_user@
    &&& shown.path@ == part.1.profile.profile_settings.path@
    &&& shown.hostname@ == part.1.node.node_settings.hostname@
    &&& shown.tags@ == part.1.profile.profile_settings.tags@
    &&& shown.ssh_opts@ == part.1.merged_settings.ssh_opts@
}

/// The profile has the given names.
pub open spec fn is_named(part: DeployPart<'_>, node: Seq<char>, profile: Seq<char>) -> bool {
    part.1.node_name@ == node && part.1.profile_name@ == profile
}

/// The last profile with the given names.
pub open spec fn last_named(
    parts: Seq<DeployPart<'_>>,
    node: Seq<char>,
    profile: Seq<char>,
) -> Option<int>
    decreases parts.len(),
{
    if parts.len() == 0 {
        None
    } else if is_named(parts.last(), node, profile) {
        Some(parts.len() - 1)
    } else {
        last_named(parts.drop_last(), node, profile)
    }
}

/// What a map of maps holds under two names.
pub open spec fn lookup_part<'a>(
    map: Seq<(Seq<char>, NameMap<PromptPart<'a>>)>,
    node: Seq<char>,
    profile: Seq<char>,
) -> Option<PromptPart<'a>> {
    match lookup(map, node) {
        Some(profiles) => lookup(profiles@, profile),
        None => None,
    }
}

/// What is shown under the names of a node and of a profile: the last profile
/// with these names, and nothing where there is none.
pub open spec fn shows(
    map: Seq<(Seq<char>, NameMap<PromptPart<'_>>)>,
    parts: Seq<DeployPart<'_>>,
    node: Seq<char>,
    profile: Seq<char>,
) -> bool {
    match last_named(parts, node, profile) {
        Some(i) => lookup_part(map, node, profile) matches Some(shown) && describes(
            shown,
            parts[i],
        ),
        None => lookup_part(map, node, profile) is None,
    }
}

/// Some profile is on the given node.
pub open spec fn is_node_of(parts: Seq<DeployPart<'_>>, node: Seq<char>) -> bool {
    exists|i: int| 0 <= i < parts.len() && (#[trigger] parts[i]).1.node_name@ == node
}

proof fn lemma_last_named(parts: Seq<DeployPart<'_>>, node: Seq<char>, profile: Seq<char>)
    ensures
        last_named(parts, node, profile) matches Some(i) ==> 0 <= i < parts.len(),
    decreases parts.len(),
{
    if parts.len() > 0 {
        lemma_last_named(parts.drop_last(), node, profile);
    }
}

/// What is shown of the profiles that are going to be deployed: for each node,
/// and for each profile on it.
pub fn prompt_parts<'a>(parts: &'a [DeployPart<'a>]) -> (r: NameMap<NameMap<PromptPart<'a>>>)
    ensures
        forall|node: Seq<char>| #[trigger] lookup(r@, node) is Some <==> is_node_of(parts@, node),
        forall|node: Seq<char>, profile: Seq<char>| #[trigger] shows(r@, parts@, node, profile),
{
    let mut part_map: NameMap<NameMap<PromptPart<'a>>> = NameMap::new();
    let mut i: usize = 0;
    proof {
        assert(parts@.take(0) =~= Seq::empty());
        assert forall|node: Seq<char>, profile: Seq<char>| #[trigger] shows(
            part_map@,
            parts@.take(0),
            node,
            profile,
        ) by {
            lemma_position_of(part_map@, node);
        }
        assert forall|node: Seq<char>| #[trigger] lookup(part_map@, node) is None by {
            lemma_position_of(part_map@, node);
        }
    }
    while i < parts.len()
        invariant
            i <= parts@.len(),
            forall|node: Seq<char>| #[trigger]
                lookup(part_map@, node) is Some <==> is_node_of(parts@.take(i as int), node),
            forall|node: Seq<char>, profile: Seq<char>| #[trigger]
                shows(part_map@, parts@.take(i as int), node, profile),
        decreases parts@.len() - i,
    {
        let part = &parts[i];
        let data = &part.1;
        let defs = &part.2;
        let ghost before = part_map@;
        let ghost node_name = data.node_name@;
        let ghost profile_name = data.profile_name@;
        proof {
            lemma_position_of(before, node_name);
        }
        let k = part_map.or_insert(data.node_name.to_string(), NameMap::new());
        proof {
            lemma_position_of(part_map@, node_name);
        }
        let profiles = part_map.value_at_mut(k);
        let ghost old_profiles = profiles@;
        let shown = PromptPart {
            user: defs.profile_user.as_str(),
            ssh_user: defs.ssh_user.as_str(),
            path: data.profile.profile_settings.path.as_str(),
            hostname: data.node.node_settings.hostname.as_str(),
            tags: data.profile.profile_settings.tags.as_slice(),
            ssh_opts: data.merged_settings.ssh_opts.as_slice(),
        };
        let ghost shown_part = shown;
        profiles.insert(data.profile_name.to_string(), shown);
        let ghost after = *profiles;
        proof {
            let all = parts@.take(i + 1);
            let done = parts@.take(i as int);
            assert(all.drop_last() =~= done);
            assert(all.last() == *part);
            assert(part_map@ =~= entry_set(before, node_name, after));
            assert(after@ == entry_set(old_profiles, profile_name, shown_part));
            assert forall|node: Seq<char>| #[trigger] lookup(part_map@, node) is Some
                <==> is_node_of(all, node) by {
                law_lookup_after_set(before, node_name, after, node);
                assert(lookup(before, node) is Some <==> is_node_of(done, node));
                if is_node_of(done, node) {
                    let k = choose|k: int|
                        0 <= k < done.len() && (#[trigger] done[k]).1.node_name@ == node;
                    assert(all[k].1.node_name@ == node);
                }
                if is_node_of(all, node) {
                    let k = choose|k: int|
                        0 <= k < all.len() && (#[trigger] all[k]).1.node_name@ == node;
                    if k < done.len() {
                        assert(done[k].1.node_name@ == node);
                    }
                }
                assert(all[all.len() - 1].1.node_name@ == node_name);
            }
            assert forall|node: Seq<char>, profile: Seq<char>| #[trigger] shows(
                part_map@,
                all,
                node,
                profile,
            ) by {
                assert(shows(before, done, node, profile));
                lemma_last_named(done, node, profile);
                law_lookup_after_set(before, node_name, after, node);
                law_lookup_after_set(old_profiles, profile_name, shown_part, profile);
                lemma_position_of(old_profiles, profile);
                if last_named(done, node, profile) is Some {
                    let n = last_named(done, node, profile)->0;
                    assert(all[n] == done[n]);
                }
                if is_named(*part, node, profile) {
                    assert(last_named(all, node, profile) == Some(all.len() - 1));
                    assert(describes(shown_part, *part));
                }
            }
        }
        i += 1;
    }
    assert(parts@.take(i as int) =~= parts@);
    part_map
}

/// What holds for the builds of all profiles.
pub struct PushProfileDataOptions<'a> {
    pub supports_flakes: bool,
    pub check_sigs: bool,
    pub keep_result: bool,
    pub result_path: Option<&'a str>,
    pub extra_build_args: &'a [String],
    pub build_tree: bool,
}

/// The profiles, as they are built and copied.
pub fn make_push_profile_datas<'a>(
    parts: &'a [DeployPart<'a>],
    options: &PushProfileDataOptions<'a>,
) -> (r: Vec<PushProfileData<'a>>)
    ensures
        r@.len() == parts@.len(),
        forall|i: int|
            0 <= i < r@.len() ==> (#[trigger] r@[i]) == (PushProfileData {
                supports_flakes: options.supports_flakes,
                check_sigs: options.check_sigs,
                repo: parts@[i].0.repo,
                deploy_data: &parts@[i].1,
                deploy_defs: &parts@[i].2,
                keep_result: options.keep_result,
                result_path: options.result_path,
                extra_build_args: options.extra_build_args,
                build_tree: options.build_tree,
            }),
{
    let mut datas: Vec<PushProfileData<'a>> = Vec::new();
    let mut i: usize = 0;
    while i < parts.len()
        invariant
            i <= parts@.len(),
            datas@.len() == i,
            forall|j: int|
                0 <= j < i ==> (#[trigger] datas@[j]) == (PushProfileData {
                    supports_flakes: options.supports_flakes,
                    check_sigs: options.check_sigs,
                    repo: parts@[j].0.repo,
                    deploy_data: &parts@[j].1,
                    deploy_defs: &parts@[j].2,
                    keep_result: options.keep_result,
                    result_path: options.result_path,
                    extra_build_args: options.extra_build_args,
                    build_tree: options.build_tree,
                }),
        decreases parts@.len() - i,
    {
        let part = &parts[i];
        datas.push(
            PushProfileData {
                supports_flakes: options.supports_flakes,
                check_sigs: options.check_sigs,
                repo: part.0.repo,
                deploy_data: &part.1,
                deploy_defs: &part.2,
                keep_result: options.keep_result,
                result_path: options.result_path,
                extra_build_args: options.extra_build_args,
                build_tree: options.build_tree,
            },
        );
        i += 1;
    }
    datas
}

/// What is asked before a profile is deployed.
#[derive(Debug)]
pub enum PasswordPrompt {
    /// Nothing.
    Skip,
    /// The password for sudo. A command other than `sudo` may not read it.
    Ask { prompt: String, custom_command: bool },
}

/// Whether the password for sudo is asked for a profile, and how.
pub fn password_prompt(deploy_data: &DeployData<'_>, deploy_defs: &DeployDefs) -> (r: PasswordPrompt)
    ensures
        match deploy_defs.sudo {
            Some(sudo) if switched(deploy_data.merged_settings.interactive_sudo, false) =>
                r matches PasswordPrompt::Ask { prompt, custom_command } && prompt@
                    == "(sudo for "@ + deploy_data.node.node_settings.hostname@ + ") Password: "@
                    && custom_command == (sudo_position(sudo@) is None),
            _ => r is Skip,
        },
{
    match &deploy_defs.sudo {
        Some(sudo) => {
            if !switch(deploy_data.merged_settings.interactive_sudo, false) {
                return PasswordPrompt::Skip;
            }
            let prompt = "(sudo for ".to_string().concat(
                deploy_data.node.node_settings.hostname.as_str(),
            ).concat(") Password: ");
            PasswordPrompt::Ask { prompt, custom_command: !sudo.is_sudo() }
        },
        None => PasswordPrompt::Skip,
    }
}

/// Nothing is deployed without a clear yes: an answer that only sounds like one leads to
/// a second question, to which only a clear yes will do, and anything else cancels.
pub proof fn law_only_a_clear_yes_deploys(
    is_yes: bool,
    is_somewhat_yes: bool,
    is_no: bool,
    first: Reaction,
    second: Result<(), PromptDeploymentError>,
)
    requires
        call_ensures(react, (is_yes, is_somewhat_yes, is_no), first),
        call_ensures(conclude_prompt, (is_yes,), second),
    ensures
        first is Deploy <==> is_yes,
        first is AskAgain <==> !is_yes && is_somewhat_yes,
        first is Cancel ==> (first->unclear <==> !is_no),
        second is Ok <==> is_yes,
        second is Err ==> second->Err_0 is Cancelled,
{
}

/// Both answers are judged in the same way.
pub proof fn law_both_answers_are_judged_alike(
    answer: &str,
    first: Reaction,
    second: Result<(), PromptDeploymentError>,
)
    requires
        call_ensures(first_answer, (answer,), first),
        call_ensures(second_answer, (answer,), second),
    ensures
        first is Deploy <==> second is Ok,
        first is Deploy <==> says_yes(answer@),
        first is AskAgain <==> !says_yes(answer@) && says_somewhat_yes(answer@),
        first is Cancel ==> (first->unclear <==> !says_no(answer@)),
{
}

/// A password is asked for exactly where sudo is used and the settings say that it asks
/// for one; the host is named, and it is said where the command is not `sudo` itself.
pub proof fn law_password_is_asked_for_where_sudo_wants_it(
    deploy_data: DeployData<'_>,
    deploy_defs: DeployDefs,
    r: PasswordPrompt,
)
    requires
        call_ensures(password_prompt, (&deploy_data, &deploy_defs), r),
    ensures
        r is Ask <==> deploy_defs.sudo is Some && deploy_data.merged_settings.interactive_sudo
            == Some(true),
        r is Ask ==> {
            &&& r->prompt@ == "(sudo for "@ + deploy_data.node.node_settings.hostname@
                + ") Password: "@
            &&& r->custom_command <==> sudo_position(deploy_defs.sudo->0@) is None
        },
{
}

/// Each profile is built and copied as what it is, in its own place, and all of them with
/// the same options.
pub proof fn law_profiles_keep_their_places(
    parts: &[DeployPart<'_>],
    options: PushProfileDataOptions<'_>,
    r: Vec<PushProfileData<'_>>,
    i: int,
)
    requires
        call_ensures(make_push_profile_datas, (parts, &options), r),
        0 <= i < parts@.len(),
    ensures
        r@.len() == parts@.len(),
        *r@[i].deploy_data == parts@[i].1,
        *r@[i].deploy_defs == parts@[i].2,
        r@[i].repo@ == parts@[i].0.repo@,
        r@[i].supports_flakes == options.supports_flakes,
        r@[i].check_sigs == options.check_sigs,
        r@[i].keep_result == options.keep_result,
        r@[i].result_path == options.result_path,
        r@[i].extra_build_args@ == options.extra_build_args@,
        r@[i].build_tree == options.build_tree,
{
}

/// A profile is shown under the name of its node and its own, with the users and the
/// path, host, tags and SSH options that are its own, unless another one with the same
/// names follows.
pub proof fn law_profiles_are_shown_under_their_names(
    parts: &[DeployPart<'_>],
    r: NameMap<NameMap<PromptPart<'_>>>,
    i: int,
)
    requires
        call_ensures(prompt_parts, (parts,), r),
        0 <= i < parts@.len(),
        forall|j: int|
            i < j < parts@.len() ==> (#[trigger] parts@[j]).1.node_name@ != parts@[i].1.node_name@
                || parts@[j].1.profile_name@ != parts@[i].1.profile_name@,
    ensures
        ({
            let part = parts@[i];
            let node = lookup(r@, part.1.node_name@);
            &&& node is Some
            &&& lookup(node->0@, part.1.profile_name@) matches Some(shown) && {
                &&& shown.user@ == part.2.profile_user@
                &&& shown.ssh_user@ == part.2.ssh_user@
                &&& shown.path@ == part.1.profile.profile_settings.path@
                &&& shown.hostname@ == part.1.node.node_settings.hostname@
                &&& shown.tags@ == part.1.profile.profile_settings.tags@
                &&& shown.ssh_opts@ == part.1.merged_settings.ssh_opts@
            }
        }),
{
    let part = parts@[i];
    lemma_last_named_is(parts@, part.1.node_name@, part.1.profile_name@, i);
    assert(shows(r@, parts@, part.1.node_name@, part.1.profile_name@));
}

proof fn lemma_last_named_is(
    parts: Seq<DeployPart<'_>>,
    node: Seq<char>,
    profile: Seq<char>,
    i: int,
)
    requires
        0 <= i < parts.len(),
        is_named(parts[i], node, profile),
        forall|j: int| i < j < parts.len() ==> !is_named(#[trigger] parts[j], node, profile),
    ensures
        last_named(parts, node, profile) == Some(i),
    decreases parts.len(),
{
    if i < parts.len() - 1 {
        let init = parts.drop_last();
        assert(!is_named(parts[parts.len() - 1], node, profile));
        assert forall|j: int| i < j < init.len() implies !is_named(
            #[trigger] init[j],
            node,
            profile,
        ) by {
            assert(!is_named(parts[j], node, profile));
        }
        lemma_last_named_is(init, node, profile, i);
    }
}

/// Nothing is shown but what is deployed: under each name there is a profile with that
/// name on a node with that name.
pub proof fn law_only_deployed_profiles_are_shown(
    parts: &[DeployPart<'_>],
    r: NameMap<NameMap<PromptPart<'_>>>,
    node: Seq<char>,
    profile: Seq<char>,
)
    requires
        call_ensures(prompt_parts, (parts,), r),
    ensures
        lookup(r@, node) is Some <==> exists|i: int|
            0 <= i < parts@.len() && (#[trigger] parts@[i]).1.node_name@ == node,
        lookup(r@, node) is Some && lookup(lookup(r@, node)->0@, profile) is Some ==> exists|i: int|
            0 <= i < parts@.len() && (#[trigger] parts@[i]).1.node_name@ == node
                && parts@[i].1.profile_name@ == profile,
{
    assert(shows(r@, parts@, node, profile));
    lemma_last_named(parts@, node, profile);
    lemma_last_named_at(parts@, node, profile);
    assert(lookup(r@, node) is Some <==> is_node_of(parts@, node));
}

proof fn lemma_last_named_at(parts: Seq<DeployPart<'_>>, node: Seq<char>, profile: Seq<char>)
    ensures
        last_named(parts, node, profile) matches Some(i) ==> 0 <= i < parts.len() && is_named(
            parts[i],
            node,
            profile,
        ),
    decreases parts.len(),
{
    if parts.len() > 0 {
        lemma_last_named_at(parts.drop_last(), node, profile);
    }
}

} // verus!
