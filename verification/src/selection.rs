//! Which profiles are deployed: those that the targets name, as far as they have
//! all of the tags that are asked for.
use vstd::prelude::*;

use crate::cli::RunDeployError;
use crate::data::{Data, Node, Profile};
use crate::deployment::DeployFlake;
use crate::names::{entry_names, lemma_position_is, lemma_position_of, lookup, NameSet};
use crate::text::{distinct, join_texts, joined, law_distinct, opt_text, same_text, texts};

verus! {

/// All of `tags` are among `own`.
pub open spec fn has_all_tags(own: Seq<Seq<char>>, tags: Seq<Seq<char>>) -> bool {
    forall|i: int| 0 <= i < tags.len() ==> own.contains(#[trigger] tags[i])
}

/// The tags of a profile.
pub open spec fn profile_tags(profile: Profile) -> Seq<Seq<char>> {
    texts(profile.profile_settings.tags@)
}

/// Whether a profile has all of the given tags.
pub fn profile_matches_tags(profile: &Profile, tags: &NameSet) -> (r: bool)
    ensures
        r == has_all_tags(profile_tags(*profile), tags@),
{
    let own = &profile.profile_settings.tags;
    let names = tags.names();
    let mut i: usize = 0;
    while i < names.len()
        invariant
            i <= names@.len(),
            texts(names@) == tags@,
            own@ == profile.profile_settings.tags@,
            forall|j: int| 0 <= j < i ==> texts(own@).contains(#[trigger] tags@[j]),
        decreases names@.len() - i,
    {
        assert(tags@[i as int] == names@[i as int]@);
        let mut k: usize = 0;
        while k < own.len() && !same_text(own[k].as_str(), names[i].as_str())
            invariant
                k <= own@.len(),
                i < names@.len(),
                forall|j: int| 0 <= j < k ==> (#[trigger] own@[j])@ != names@[i as int]@,
            decreases own@.len() - k,
        {
            k += 1;
        }
        if k == own.len() {
            assert(!texts(own@).contains(tags@[i as int])) by {
                assert forall|j: int| 0 <= j < own@.len() implies texts(own@)[j]
                    != tags@[i as int] by {
                    assert(own@[j]@ != names@[i as int]@);
                }
            }
            return false;
        }
        assert(texts(own@)[k as int] == tags@[i as int]);
        i += 1;
    }
    true
}

/// Asking for a tag twice is asking for it once.
pub proof fn law_repeated_tags_do_not_matter(own: Seq<Seq<char>>, tags: Seq<Seq<char>>)
    ensures
        has_all_tags(own, distinct(tags)) == has_all_tags(own, tags),
{
    law_distinct(tags);
    let once = distinct(tags);
    if has_all_tags(own, once) {
        assert forall|i: int| 0 <= i < tags.len() implies own.contains(#[trigger] tags[i]) by {
            assert(tags.contains(tags[i]));
            assert(once.contains(tags[i]));
            let k = choose|k: int| 0 <= k < once.len() && once[k] == tags[i];
            assert(own.contains(once[k]));
        }
    }
    if has_all_tags(own, tags) {
        assert forall|i: int| 0 <= i < once.len() implies own.contains(#[trigger] once[i]) by {
            assert(once.contains(once[i]));
            assert(tags.contains(once[i]));
            let k = choose|k: int| 0 <= k < tags.len() && tags[k] == once[i];
            assert(own.contains(tags[k]));
        }
    }
}

/// The profiles under the given names that have all tags, in order, or the first
/// name under which there is no profile.
pub open spec fn profiles_named(
    profiles: Seq<(Seq<char>, Profile)>,
    names: Seq<Seq<char>>,
    tags: Seq<Seq<char>>,
) -> Result<Seq<(Seq<char>, Profile)>, Seq<char>>
    decreases names.len(),
{
    if names.len() == 0 {
        Ok(Seq::empty())
    } else {
        match profiles_named(profiles, names.drop_last(), tags) {
            Ok(before) => match lookup(profiles, names.last()) {
                Some(profile) => if has_all_tags(profile_tags(profile), tags) {
                    Ok(before.push((names.last(), profile)))
                } else {
                    Ok(before)
                },
                None => Err(names.last()),
            },
            Err(name) => Err(name),
        }
    }
}

/// The names under which the profiles of a node are looked for: those that its
/// order lists first, then all others, each one once.
pub open spec fn profile_order(node: Node) -> Seq<Seq<char>> {
    distinct(
        texts(node.node_settings.profiles_order@) + entry_names(node.node_settings.profiles@),
    )
}

/// The profiles of a node that have all tags, in the order of the node, or the
/// first name in that order under which there is no profile.
pub open spec fn node_profiles(node: Node, tags: Seq<Seq<char>>) -> Result<
    Seq<(Seq<char>, Profile)>,
    Seq<char>,
> {
    profiles_named(node.node_settings.profiles@, profile_order(node), tags)
}

/// Profiles with their names.
pub open spec fn named(list: Seq<(&str, &Profile)>) -> Seq<(Seq<char>, Profile)> {
    list.map_values(|e: (&str, &Profile)| (e.0@, *e.1))
}

proof fn lemma_missing_name_stays(
    profiles: Seq<(Seq<char>, Profile)>,
    all: Seq<Seq<char>>,
    n: int,
    tags: Seq<Seq<char>>,
)
    requires
        0 <= n <= all.len(),
        profiles_named(profiles, distinct(all.take(n)), tags) is Err,
    ensures
        profiles_named(profiles, distinct(all), tags) == profiles_named(
            profiles,
            distinct(all.take(n)),
            tags,
        ),
    decreases all.len() - n,
{
    if n == all.len() {
        assert(all.take(n) =~= all);
    } else {
        assert(all.take(n + 1).drop_last() =~= all.take(n));
        let before = distinct(all.take(n));
        assert(before.push(all[n]).drop_last() =~= before);
        lemma_missing_name_stays(profiles, all, n + 1, tags);
    }
}

/// Takes a look at one name: where it is new, its profile is added to the list if
/// it has all tags.
fn visit_profile<'a>(
    node: &'a Node,
    tags: &NameSet,
    profile_name: &'a str,
    seen: &mut NameSet,
    list: &mut Vec<(&'a str, &'a Profile)>,
) -> (r: Result<(), RunDeployError>)
    requires
        profiles_named(node.node_settings.profiles@, old(seen)@, tags@) == Ok::<_, Seq<char>>(
            named(old(list)@),
        ),
    ensures
        final(seen)@ == (if old(seen)@.contains(profile_name@) {
            old(seen)@
        } else {
            old(seen)@.push(profile_name@)
        }),
        match profiles_named(node.node_settings.profiles@, final(seen)@, tags@) {
            Ok(all) => r is Ok && named(final(list)@) == all,
            Err(name) => r matches Err(RunDeployError::ProfileNotFound(n)) && n@ == name,
        },
{
    let ghost before = seen@;
    if seen.insert(profile_name.to_string()) {
        assert(seen@.drop_last() =~= before);
        let profile = match node.node_settings.profiles.get(profile_name) {
            Some(profile) => profile,
            None => return Err(RunDeployError::ProfileNotFound(profile_name.to_string())),
        };
        if profile_matches_tags(profile, tags) {
            let ghost list_before = named(list@);
            list.push((profile_name, profile));
            assert(named(list@) =~= list_before.push((profile_name@, *profile)));
        }
    }
    Ok(())
}

/// The profiles of a node that have all tags, in the order of the node.
pub fn ordered_profiles_for_node<'a>(node: &'a Node, tags: &NameSet) -> (r: Result<
    Vec<(&'a str, &'a Profile)>,
    RunDeployError,
>)
    ensures
        match node_profiles(*node, tags@) {
            Ok(list) => r matches Ok(profiles) && named(profiles@) == list,
            Err(name) => r matches Err(RunDeployError::ProfileNotFound(n)) && n@ == name,
        },
{
    let ghost order = texts(node.node_settings.profiles_order@);
    let ghost keys = entry_names(node.node_settings.profiles@);
    let ghost all = order + keys;
    let mut list: Vec<(&'a str, &'a Profile)> = Vec::new();
    let mut seen = NameSet::new();
    let mut i: usize = 0;
    assert(named(list@) =~= Seq::empty());
    assert(all.take(0) =~= Seq::empty());
    while i < node.node_settings.profiles_order.len()
        invariant
            i <= order.len(),
            order == texts(node.node_settings.profiles_order@),
            keys == entry_names(node.node_settings.profiles@),
            all == order + keys,
            seen@ == distinct(all.take(i as int)),
            profiles_named(node.node_settings.profiles@, seen@, tags@) == Ok::<_, Seq<char>>(
                named(list@),
            ),
        decreases order.len() - i,
    {
        assert(all.take(i + 1).drop_last() =~= all.take(i as int));
        assert(all.take(i + 1).last() == order[i as int]);
        let profile_name = node.node_settings.profiles_order[i].as_str();
        let visited = visit_profile(node, tags, profile_name, &mut seen, &mut list);
        if let Err(e) = visited {
            proof {
                lemma_missing_name_stays(node.node_settings.profiles@, all, i + 1, tags@);
            }
            return Err(e);
        }
        i += 1;
    }
    let mut k: usize = 0;
    while k < node.node_settings.profiles.len()
        invariant
            k <= keys.len(),
            keys.len() == node.node_settings.profiles@.len(),
            order == texts(node.node_settings.profiles_order@),
            keys == entry_names(node.node_settings.profiles@),
            all == order + keys,
            seen@ == distinct(all.take(order.len() + k)),
            profiles_named(node.node_settings.profiles@, seen@, tags@) == Ok::<_, Seq<char>>(
                named(list@),
            ),
        decreases keys.len() - k,
    {
        assert(all.take(order.len() + k + 1).drop_last() =~= all.take(order.len() + k));
        assert(all.take(order.len() + k + 1).last() == keys[k as int]);
        let profile_name = node.node_settings.profiles.name_at(k);
        let visited = visit_profile(node, tags, profile_name, &mut seen, &mut list);
        if let Err(e) = visited {
            proof {
                lemma_missing_name_stays(
                    node.node_settings.profiles@,
                    all,
                    order.len() + k + 1,
                    tags@,
                );
            }
            return Err(e);
        }
        k += 1;
    }
    assert(all.take(order.len() + k) =~= all);
    Ok(list)
}

/// A name under which there is a profile with all tags.
pub open spec fn is_selected(
    profiles: Seq<(Seq<char>, Profile)>,
    name: Seq<char>,
    tags: Seq<Seq<char>>,
) -> bool {
    match lookup(profiles, name) {
        Some(profile) => has_all_tags(profile_tags(profile), tags),
        None => false,
    }
}

/// Profiles are found by the given names exactly if there is one under each, and
/// what is found are those that have all tags, in the order of the names.
pub proof fn law_profiles_keep_the_order_of_names(
    profiles: Seq<(Seq<char>, Profile)>,
    names: Seq<Seq<char>>,
    tags: Seq<Seq<char>>,
)
    ensures
        profiles_named(profiles, names, tags) is Ok <==> forall|i: int|
            0 <= i < names.len() ==> lookup(profiles, #[trigger] names[i]) is Some,
        profiles_named(profiles, names, tags) matches Ok(list) ==> {
            &&& entry_names(list) == names.filter(
                |name: Seq<char>| is_selected(profiles, name, tags),
            )
            &&& forall|i: int|
                0 <= i < list.len() ==> lookup(profiles, (#[trigger] list[i]).0) == Some(list[i].1)
        },
    decreases names.len(),
{
    let pred = |name: Seq<char>| is_selected(profiles, name, tags);
    reveal(Seq::filter);
    if names.len() > 0 {
        let init = names.drop_last();
        law_profiles_keep_the_order_of_names(profiles, init, tags);
        assert forall|i: int| 0 <= i < init.len() implies #[trigger] init[i] == names[i] by {}
        assert(names[names.len() - 1] == names.last());
        match profiles_named(profiles, init, tags) {
            Ok(before) => {
                assert forall|i: int| 0 <= i < init.len() implies lookup(
                    profiles,
                    #[trigger] names[i],
                ) is Some by {
                    assert(lookup(profiles, init[i]) is Some);
                }
                if lookup(profiles, names.last()) is Some && pred(names.last()) {
                    let profile = lookup(profiles, names.last())->0;
                    let list = before.push((names.last(), profile));
                    assert(entry_names(list) =~= entry_names(before).push(names.last()));
                }
            },
            Err(_) => {
                let i = choose|i: int|
                    0 <= i < init.len() && !(lookup(profiles, #[trigger] init[i]) is Some);
                assert(!(lookup(profiles, names[i]) is Some));
            },
        }
    } else if profiles_named(profiles, names, tags) is Ok {
        assert(entry_names(profiles_named(profiles, names, tags)->Ok_0) =~= Seq::<Seq<char>>::empty());
    }
}

/// The profiles of a node come each one once: exactly those of its profiles that
/// have all tags. They can be had exactly if the order of the node lists no name
/// under which it has no profile.
pub proof fn law_node_profiles_come_once(node: Node, tags: Seq<Seq<char>>)
    ensures
        node_profiles(node, tags) is Ok <==> forall|i: int|
            0 <= i < node.node_settings.profiles_order@.len() ==> lookup(
                node.node_settings.profiles@,
                (#[trigger] node.node_settings.profiles_order@[i])@,
            ) is Some,
        node_profiles(node, tags) matches Ok(list) ==> {
            &&& entry_names(list).no_duplicates()
            &&& forall|name: Seq<char>| #[trigger]
                entry_names(list).contains(name) <==> is_selected(
                    node.node_settings.profiles@,
                    name,
                    tags,
                )
        },
{
    let profiles = node.node_settings.profiles@;
    let order = texts(node.node_settings.profiles_order@);
    let keys = entry_names(profiles);
    let all = order + keys;
    let names = distinct(all);
    law_distinct(all);
    law_profiles_keep_the_order_of_names(profiles, names, tags);
    let pred = |name: Seq<char>| is_selected(profiles, name, tags);
    assert forall|name: Seq<char>| lookup(profiles, name) is Some implies names.contains(
        name,
    ) by {
        lemma_position_of(profiles, name);
        let k = lemma_index(profiles, name);
        assert(all[order.len() + k] == name);
        assert(all.contains(name));
    }
    if node_profiles(node, tags) is Ok {
        assert forall|i: int| 0 <= i < node.node_settings.profiles_order@.len() implies lookup(
            profiles,
            (#[trigger] node.node_settings.profiles_order@[i])@,
        ) is Some by {
            assert(all[i] == node.node_settings.profiles_order@[i]@);
            assert(all.contains(all[i]));
            assert(names.contains(all[i]));
            let k = choose|k: int| 0 <= k < names.len() && names[k] == all[i];
            assert(lookup(profiles, names[k]) is Some);
        }
        let list = node_profiles(node, tags)->Ok_0;
        lemma_filter(names, pred);
        assert forall|name: Seq<char>| #[trigger] entry_names(list).contains(name) <==> is_selected(
            profiles,
            name,
            tags,
        ) by {
            assert(names.filter(pred).contains(name) <==> names.contains(name) && pred(name));
        }
    } else {
        let i = choose|i: int|
            0 <= i < names.len() && !(lookup(profiles, #[trigger] names[i]) is Some);
        assert(names.contains(names[i]));
        assert(all.contains(names[i]));
        let k = choose|k: int| 0 <= k < all.len() && all[k] == names[i];
        if k >= order.len() {
            let p = k - order.len();
            assert(keys[p] == profiles[p].0);
            lemma_position_of(profiles, names[i]);
            assert(profiles[p].0 == names[i]);
        } else {
            assert(node.node_settings.profiles_order@[k]@ == names[i]);
        }
    }
}

/// The position under which a map holds a name.
proof fn lemma_index(profiles: Seq<(Seq<char>, Profile)>, name: Seq<char>) -> (k: int)
    requires
        lookup(profiles, name) is Some,
    ensures
        0 <= k < profiles.len(),
        entry_names(profiles)[k] == name,
{
    lemma_position_of(profiles, name);
    choose|k: int| 0 <= k < profiles.len() && (#[trigger] profiles[k]).0 == name
}

proof fn lemma_filter(names: Seq<Seq<char>>, pred: spec_fn(Seq<char>) -> bool)
    requires
        names.no_duplicates(),
    ensures
        names.filter(pred).no_duplicates(),
        forall|name: Seq<char>| #[trigger]
            names.filter(pred).contains(name) <==> names.contains(name) && pred(name),
    decreases names.len(),
{
    reveal(Seq::filter);
    if names.len() > 0 {
        let init = names.drop_last();
        let last = names.last();
        lemma_filter(init, pred);
        let before = init.filter(pred);
        let all = names.filter(pred);
        assert(!init.contains(last)) by {
            if init.contains(last) {
                let k = choose|k: int| 0 <= k < init.len() && init[k] == last;
                assert(names[k] == names[names.len() - 1]);
            }
        }
        assert forall|name: Seq<char>| #[trigger] all.contains(name) <==> names.contains(name)
            && pred(name) by {
            if names.contains(name) && pred(name) {
                let k = choose|k: int| 0 <= k < names.len() && names[k] == name;
                if k < init.len() {
                    assert(init[k] == name);
                    assert(init.contains(name));
                    assert(before.contains(name));
                    let m = choose|m: int| 0 <= m < before.len() && before[m] == name;
                    assert(all[m] == name);
                } else {
                    assert(all[all.len() - 1] == name);
                }
            }
            if all.contains(name) {
                let k = choose|k: int| 0 <= k < all.len() && all[k] == name;
                if k < before.len() {
                    assert(before[k] == name);
                    assert(before.contains(name));
                    let m = choose|m: int| 0 <= m < init.len() && init[m] == name;
                    assert(names[m] == name);
                } else {
                    assert(names[names.len() - 1] == name);
                }
            }
        }
        assert(all.no_duplicates()) by {
            assert(!before.contains(last));
            assert forall|i: int, j: int|
                0 <= i < all.len() && 0 <= j < all.len() && i != j implies all[i] != all[j] by {
                if i < before.len() && j < before.len() {
                    assert(before[i] != before[j]);
                } else if i < before.len() {
                    assert(before.contains(before[i]));
                } else {
                    assert(before.contains(before[j]));
                }
            }
        }
    }
}

/// The profiles that are deployed: for each the target that asked for it, the
/// data of that target, the node, and the profile.
pub type ToDeploy<'a> = Vec<
    (&'a DeployFlake<'a>, &'a Data, (&'a str, &'a Node), (&'a str, &'a Profile)),
>;

/// A profile on a node, both with their names.
pub type Pick = ((Seq<char>, Node), (Seq<char>, Profile));

/// A profile on a node, with the target that asked for it and the data of that
/// target.
pub type Picked<'a> = (DeployFlake<'a>, Data, Pick);

/// Why profiles cannot be picked.
pub enum PickFault {
    NodeNotFound(Seq<char>),
    ProfileNotFound(Seq<char>),
    ProfileWithoutNode,
}

/// The profiles, on the given node.
pub open spec fn on_node(name: Seq<char>, node: Node, profiles: Seq<(Seq<char>, Profile)>) -> Seq<
    Pick,
> {
    profiles.map_values(|p: (Seq<char>, Profile)| ((name, node), p))
}

/// The profiles of a node, or what is wrong with them.
pub open spec fn picks_of_node(name: Seq<char>, node: Node, tags: Seq<Seq<char>>) -> Result<
    Seq<Pick>,
    PickFault,
> {
    match node_profiles(node, tags) {
        Ok(profiles) => Ok(on_node(name, node, profiles)),
        Err(missing) => Err(PickFault::ProfileNotFound(missing)),
    }
}

/// The profiles of several nodes, node by node.
pub open spec fn picks_of_nodes(nodes: Seq<(Seq<char>, Node)>, tags: Seq<Seq<char>>) -> Result<
    Seq<Pick>,
    PickFault,
>
    decreases nodes.len(),
{
    if nodes.len() == 0 {
        Ok(Seq::empty())
    } else {
        match picks_of_nodes(nodes.drop_last(), tags) {
            Ok(before) => match picks_of_node(nodes.last().0, nodes.last().1, tags) {
                Ok(more) => Ok(before + more),
                Err(fault) => Err(fault),
            },
            Err(fault) => Err(fault),
        }
    }
}

/// The profiles that a target asks for.
pub open spec fn picks_of_target(
    node: Option<Seq<char>>,
    profile: Option<Seq<char>>,
    data: Data,
    tags: Seq<Seq<char>>,
) -> Result<Seq<Pick>, PickFault> {
    match (node, profile) {
        (Some(node_name), Some(profile_name)) => match lookup(data.nodes@, node_name) {
            Some(node) => match lookup(node.node_settings.profiles@, profile_name) {
                Some(profile) => if has_all_tags(profile_tags(profile), tags) {
                    Ok(seq![((node_name, node), (profile_name, profile))])
                } else {
                    Ok(Seq::empty())
                },
                None => Err(PickFault::ProfileNotFound(profile_name)),
            },
            None => Err(PickFault::NodeNotFound(node_name)),
        },
        (Some(node_name), None) => match lookup(data.nodes@, node_name) {
            Some(node) => picks_of_node(node_name, node, tags),
            None => Err(PickFault::NodeNotFound(node_name)),
        },
        (None, None) => picks_of_nodes(data.nodes@, tags),
        (None, Some(_)) => Err(PickFault::ProfileWithoutNode),
    }
}

/// Profiles with the target that asked for them.
pub open spec fn for_target<'a>(flake: DeployFlake<'a>, data: Data, picks: Seq<Pick>) -> Seq<
    Picked<'a>,
> {
    picks.map_values(|p: Pick| (flake, data, p))
}

/// The targets, each with its own data.
pub open spec fn with_data<'a>(flakes: Seq<DeployFlake<'a>>, datas: Seq<Data>) -> Seq<
    (DeployFlake<'a>, Data),
> {
    let n = if flakes.len() <= datas.len() {
        flakes.len()
    } else {
        datas.len()
    };
    Seq::new(n, |i: int| (flakes[i], datas[i]))
}

/// The profiles that all targets ask for, target by target, or what is wrong with
/// the first target that has something wrong.
pub open spec fn picks_of_targets<'a>(
    targets: Seq<(DeployFlake<'a>, Data)>,
    tags: Seq<Seq<char>>,
) -> Result<Seq<Picked<'a>>, PickFault>
    decreases targets.len(),
{
    if targets.len() == 0 {
        Ok(Seq::empty())
    } else {
        match picks_of_targets(targets.drop_last(), tags) {
            Ok(before) => {
                let (flake, data) = targets.last();
                match picks_of_target(opt_text(flake.node), opt_text(flake.profile), data, tags) {
                    Ok(more) => Ok(before + for_target(flake, data, more)),
                    Err(fault) => Err(fault),
                }
            },
            Err(fault) => Err(fault),
        }
    }
}

/// The profiles in a list of those that are deployed.
pub open spec fn picked<'a>(
    list: Seq<(&'a DeployFlake<'a>, &'a Data, (&'a str, &'a Node), (&'a str, &'a Profile))>,
) -> Seq<Picked<'a>> {
    list.map_values(
        |e: (&'a DeployFlake<'a>, &'a Data, (&'a str, &'a Node), (&'a str, &'a Profile))|
            (*e.0, *e.1, ((e.2.0@, *e.2.1), (e.3.0@, *e.3.1))),
    )
}

/// `e` reports what is wrong.
pub open spec fn reports(e: RunDeployError, fault: PickFault) -> bool {
    match fault {
        PickFault::NodeNotFound(name) => e matches RunDeployError::NodeNotFound(n) && n@ == name,
        PickFault::ProfileNotFound(name) => e matches RunDeployError::ProfileNotFound(n) && n@
            == name,
        PickFault::ProfileWithoutNode => e is ProfileWithoutNode,
    }
}

/// Adds the profiles of a node to those that are deployed.
fn add_node<'a>(
    list: &mut ToDeploy<'a>,
    flake: &'a DeployFlake<'a>,
    data: &'a Data,
    node_name: &'a str,
    node: &'a Node,
    tags: &NameSet,
) -> (r: Result<(), RunDeployError>)
    ensures
        match picks_of_node(node_name@, *node, tags@) {
            Ok(more) => r is Ok && picked(final(list)@) == picked(old(list)@) + for_target(
                *flake,
                *data,
                more,
            ),
            Err(fault) => r matches Err(e) && reports(e, fault),
        },
{
    let profiles = match ordered_profiles_for_node(node, tags) {
        Ok(profiles) => profiles,
        Err(e) => return Err(e),
    };
    let ghost before = picked(list@);
    let ghost more = for_target(*flake, *data, on_node(node_name@, *node, named(profiles@)));
    let mut i: usize = 0;
    assert(more.take(0) =~= Seq::empty());
    assert(before + Seq::empty() =~= before);
    while i < profiles.len()
        invariant
            i <= profiles@.len() == more.len(),
            more == for_target(*flake, *data, on_node(node_name@, *node, named(profiles@))),
            picked(list@) == before + more.take(i as int),
        decreases profiles@.len() - i,
    {
        let ghost so_far = list@;
        let (profile_name, profile) = profiles[i];
        list.push((flake, data, (node_name, node), (profile_name, profile)));
        assert(picked(list@) =~= picked(so_far).push(more[i as int]));
        assert(more.take(i + 1) =~= more.take(i as int).push(more[i as int]));
        assert(before + more.take(i as int).push(more[i as int]) =~= (before + more.take(
            i as int,
        )).push(more[i as int]));
        i += 1;
    }
    assert(more.take(i as int) =~= more);
    Ok(())
}

proof fn lemma_node_fault_stays(nodes: Seq<(Seq<char>, Node)>, n: int, tags: Seq<Seq<char>>)
    requires
        0 <= n <= nodes.len(),
        picks_of_nodes(nodes.take(n), tags) is Err,
    ensures
        picks_of_nodes(nodes, tags) == picks_of_nodes(nodes.take(n), tags),
    decreases nodes.len() - n,
{
    if n == nodes.len() {
        assert(nodes.take(n) =~= nodes);
    } else {
        assert(nodes.take(n + 1).drop_last() =~= nodes.take(n));
        lemma_node_fault_stays(nodes, n + 1, tags);
    }
}

/// Adds the profiles of all nodes to those that are deployed.
fn add_all_nodes<'a>(
    list: &mut ToDeploy<'a>,
    flake: &'a DeployFlake<'a>,
    data: &'a Data,
    tags: &NameSet,
) -> (r: Result<(), RunDeployError>)
    ensures
        match picks_of_nodes(data.nodes@, tags@) {
            Ok(more) => r is Ok && picked(final(list)@) == picked(old(list)@) + for_target(
                *flake,
                *data,
                more,
            ),
            Err(fault) => r matches Err(e) && reports(e, fault),
        },
{
    let ghost nodes = data.nodes@;
    let ghost before = picked(list@);
    let ghost mut done: Seq<Pick> = Seq::empty();
    let mut i: usize = 0;
    assert(nodes.take(0) =~= Seq::empty());
    assert(before + for_target(*flake, *data, done) =~= before);
    while i < data.nodes.len()
        invariant
            i <= nodes.len(),
            nodes == data.nodes@,
            picks_of_nodes(nodes.take(i as int), tags@) == Ok::<_, PickFault>(done),
            picked(list@) == before + for_target(*flake, *data, done),
        decreases nodes.len() - i,
    {
        assert(nodes.take(i + 1).drop_last() =~= nodes.take(i as int));
        assert(nodes.take(i + 1).last() == nodes[i as int]);
        let node_name = data.nodes.name_at(i);
        let node = data.nodes.value_at(i);
        let added = add_node(list, flake, data, node_name, node, tags);
        if let Err(e) = added {
            proof {
                lemma_node_fault_stays(nodes, i + 1, tags@);
            }
            return Err(e);
        }
        proof {
            let more = picks_of_node(node_name@, *node, tags@)->Ok_0;
            assert(before + for_target(*flake, *data, done + more) =~= before + for_target(
                *flake,
                *data,
                done,
            ) + for_target(*flake, *data, more));
            done = done + more;
        }
        i += 1;
    }
    assert(nodes.take(i as int) =~= nodes);
    Ok(())
}

/// Adds the profiles that a target asks for to those that are deployed.
fn add_target<'a>(
    list: &mut ToDeploy<'a>,
    flake: &'a DeployFlake<'a>,
    data: &'a Data,
    tags: &NameSet,
) -> (r: Result<(), RunDeployError>)
    ensures
        match picks_of_target(opt_text(flake.node), opt_text(flake.profile), *data, tags@) {
            Ok(more) => r is Ok && picked(final(list)@) == picked(old(list)@) + for_target(
                *flake,
                *data,
                more,
            ),
            Err(fault) => r matches Err(e) && reports(e, fault),
        },
{
    match (&flake.node, &flake.profile) {
        (Some(node_name), Some(profile_name)) => {
            let node = match data.nodes.get(node_name.as_str()) {
                Some(node) => node,
                None => return Err(RunDeployError::NodeNotFound(node_name.clone())),
            };
            let profile = match node.node_settings.profiles.get(profile_name.as_str()) {
                Some(profile) => profile,
                None => return Err(RunDeployError::ProfileNotFound(profile_name.clone())),
            };
            let ghost before = list@;
            if profile_matches_tags(profile, tags) {
                list.push((flake, data, (node_name.as_str(), node), (profile_name.as_str(), profile)));
                assert(picked(list@) =~= picked(before) + for_target(
                    *flake,
                    *data,
                    seq![((node_name@, *node), (profile_name@, *profile))],
                ));
            } else {
                assert(picked(before) + for_target(*flake, *data, Seq::empty()) =~= picked(before));
            }
            Ok(())
        },
        (Some(node_name), None) => {
            let node = match data.nodes.get(node_name.as_str()) {
                Some(node) => node,
                None => return Err(RunDeployError::NodeNotFound(node_name.clone())),
            };
            add_node(list, flake, data, node_name.as_str(), node, tags)
        },
        (None, None) => add_all_nodes(list, flake, data, tags),
        (None, Some(_)) => Err(RunDeployError::ProfileWithoutNode),
    }
}

proof fn lemma_target_fault_stays<'a>(
    targets: Seq<(DeployFlake<'a>, Data)>,
    n: int,
    tags: Seq<Seq<char>>,
)
    requires
        0 <= n <= targets.len(),
        picks_of_targets(targets.take(n), tags) is Err,
    ensures
        picks_of_targets(targets, tags) == picks_of_targets(targets.take(n), tags),
    decreases targets.len() - n,
{
    if n == targets.len() {
        assert(targets.take(n) =~= targets);
    } else {
        assert(targets.take(n + 1).drop_last() =~= targets.take(n));
        lemma_target_fault_stays(targets, n + 1, tags);
    }
}

/// The set of the given tags.
fn tag_set(tags: &[String]) -> (r: NameSet)
    ensures
        r@ == distinct(texts(tags@)),
{
    let ghost all = texts(tags@);
    let mut set = NameSet::new();
    let mut i: usize = 0;
    assert(all.take(0) =~= Seq::empty());
    while i < tags.len()
        invariant
            i <= tags@.len(),
            all == texts(tags@),
            set@ == distinct(all.take(i as int)),
        decreases tags@.len() - i,
    {
        assert(all.take(i + 1).drop_last() =~= all.take(i as int));
        assert(all.take(i + 1).last() == tags@[i as int]@);
        let _new = set.insert(tags[i].clone());
        i += 1;
    }
    assert(all.take(i as int) =~= all);
    set
}

/// The profiles that the targets ask for, as far as they have all of the given
/// tags. The data at a position belongs to the target at the same position.
pub fn collect_to_deploy<'a>(
    deploy_flakes: &'a [DeployFlake<'a>],
    data: &'a [Data],
    tags: &[String],
) -> (r: Result<ToDeploy<'a>, RunDeployError>)
    ensures
        match picks_of_targets(with_data(deploy_flakes@, data@), distinct(texts(tags@))) {
            Ok(all) => r matches Ok(list) && picked(list@) == all,
            Err(fault) => r matches Err(e) && reports(e, fault),
        },
{
    let requested_tags = tag_set(tags);
    let ghost targets = with_data(deploy_flakes@, data@);
    let mut list: ToDeploy<'a> = Vec::new();
    let mut i: usize = 0;
    assert(targets.take(0) =~= Seq::empty());
    assert(picked(list@) =~= Seq::empty());
    while i < deploy_flakes.len() && i < data.len()
        invariant
            i <= targets.len(),
            targets == with_data(deploy_flakes@, data@),
            requested_tags@ == distinct(texts(tags@)),
            picks_of_targets(targets.take(i as int), requested_tags@) == Ok::<_, PickFault>(
                picked(list@),
            ),
        decreases targets.len() - i,
    {
        assert(targets.take(i + 1).drop_last() =~= targets.take(i as int));
        assert(targets.take(i + 1).last() == (deploy_flakes@[i as int], data@[i as int]));
        let added = add_target(&mut list, &deploy_flakes[i], &data[i], &requested_tags);
        if let Err(e) = added {
            proof {
                lemma_target_fault_stays(targets, i + 1, requested_tags@);
            }
            return Err(e);
        }
        i += 1;
    }
    assert(targets.take(i as int) =~= targets);
    Ok(list)
}

/// The profiles that are to be deployed. It is an error where tags are asked for
/// and no profile has all of them.
pub fn select_to_deploy<'a>(
    deploy_flakes: &'a [DeployFlake<'a>],
    data: &'a [Data],
    tags: &[String],
) -> (r: Result<ToDeploy<'a>, RunDeployError>)
    ensures
        match picks_of_targets(with_data(deploy_flakes@, data@), distinct(texts(tags@))) {
            Ok(all) => if all.len() == 0 && tags@.len() > 0 {
                r matches Err(RunDeployError::NoProfilesMatchedTags(t)) && t@ == joined(
                    texts(tags@),
                    ", "@,
                )
            } else {
                r matches Ok(list) && picked(list@) == all
            },
            Err(fault) => r matches Err(e) && reports(e, fault),
        },
{
    match collect_to_deploy(deploy_flakes, data, tags) {
        Ok(to_deploy) => {
            assert(picked(to_deploy@).len() == to_deploy@.len());
            if to_deploy.is_empty() && tags.len() > 0 {
                return Err(RunDeployError::NoProfilesMatchedTags(join_texts(tags, ", ")));
            }
            Ok(to_deploy)
        },
        Err(e) => Err(e),
    }
}

/// A target asks for a profile on a node.
pub open spec fn asks_for(
    node: Option<Seq<char>>,
    profile: Option<Seq<char>>,
    data: Data,
    tags: Seq<Seq<char>>,
    pick: Pick,
) -> bool {
    &&& node matches Some(name) ==> pick.0.0 == name
    &&& profile matches Some(name) ==> pick.1.0 == name
    &&& lookup(data.nodes@, pick.0.0) == Some(pick.0.1)
    &&& is_tagged_profile(pick.0.1, tags, pick.1)
}

/// A node has the profile under its name, and the profile has all tags.
pub open spec fn is_tagged_profile(
    node: Node,
    tags: Seq<Seq<char>>,
    profile: (Seq<char>, Profile),
) -> bool {
    &&& lookup(node.node_settings.profiles@, profile.0) == Some(profile.1)
    &&& has_all_tags(profile_tags(profile.1), tags)
}

proof fn lemma_picks_of_node(name: Seq<char>, node: Node, tags: Seq<Seq<char>>)
    ensures
        picks_of_node(name, node, tags) matches Ok(list) ==> forall|pick: Pick| #[trigger]
            list.contains(pick) <==> pick.0 == (name, node) && is_tagged_profile(
                node,
                tags,
                pick.1,
            ),
{
    if picks_of_node(name, node, tags) is Ok {
        let profiles = node_profiles(node, tags)->Ok_0;
        let list = picks_of_node(name, node, tags)->Ok_0;
        law_node_profiles_come_once(node, tags);
        law_profiles_keep_the_order_of_names(
            node.node_settings.profiles@,
            profile_order(node),
            tags,
        );
        assert forall|pick: Pick| #[trigger] list.contains(pick) <==> pick.0 == (name, node)
            && is_tagged_profile(node, tags, pick.1) by {
            if list.contains(pick) {
                let i = choose|i: int| 0 <= i < list.len() && list[i] == pick;
                assert(profiles[i] == pick.1);
                assert(entry_names(profiles)[i] == pick.1.0);
                assert(entry_names(profiles).contains(pick.1.0));
            }
            if pick.0 == (name, node) && is_tagged_profile(node, tags, pick.1) {
                assert(is_selected(node.node_settings.profiles@, pick.1.0, tags));
                assert(entry_names(profiles).contains(pick.1.0));
                let i = choose|i: int|
                    0 <= i < entry_names(profiles).len() && entry_names(profiles)[i] == pick.1.0;
                assert(profiles[i].0 == pick.1.0);
                assert(profiles[i] == pick.1);
                assert(list[i] == pick);
            }
        }
    }
}

proof fn lemma_picks_of_nodes(nodes: Seq<(Seq<char>, Node)>, tags: Seq<Seq<char>>)
    ensures
        picks_of_nodes(nodes, tags) matches Ok(list) ==> forall|pick: Pick| #[trigger]
            list.contains(pick) <==> nodes.contains(pick.0) && is_tagged_profile(
                pick.0.1,
                tags,
                pick.1,
            ),
    decreases nodes.len(),
{
    if nodes.len() > 0 && picks_of_nodes(nodes, tags) is Ok {
        let init = nodes.drop_last();
        let last = nodes.last();
        lemma_picks_of_nodes(init, tags);
        lemma_picks_of_node(last.0, last.1, tags);
        let before = picks_of_nodes(init, tags)->Ok_0;
        let more = picks_of_node(last.0, last.1, tags)->Ok_0;
        let list = before + more;
        assert forall|pick: Pick| #[trigger] list.contains(pick) <==> nodes.contains(pick.0)
            && is_tagged_profile(pick.0.1, tags, pick.1) by {
            if list.contains(pick) {
                let i = choose|i: int| 0 <= i < list.len() && list[i] == pick;
                if i < before.len() {
                    assert(before[i] == pick);
                    assert(before.contains(pick));
                    let k = choose|k: int| 0 <= k < init.len() && init[k] == pick.0;
                    assert(nodes[k] == pick.0);
                } else {
                    assert(more[i - before.len()] == pick);
                    assert(more.contains(pick));
                    assert(nodes[nodes.len() - 1] == pick.0);
                }
            }
            if nodes.contains(pick.0) && is_tagged_profile(pick.0.1, tags, pick.1) {
                let k = choose|k: int| 0 <= k < nodes.len() && nodes[k] == pick.0;
                if k < init.len() {
                    assert(init[k] == pick.0);
                    assert(init.contains(pick.0));
                    assert(before.contains(pick));
                    let i = choose|i: int| 0 <= i < before.len() && before[i] == pick;
                    assert(list[i] == pick);
                } else {
                    assert(more.contains(pick));
                    let i = choose|i: int| 0 <= i < more.len() && more[i] == pick;
                    assert(list[before.len() + i] == pick);
                }
            }
        }
    }
}

/// What is picked for a target is exactly what the target asks for: no other
/// profile, no profile without one of the tags, and none is left out.
pub proof fn law_targets_get_what_they_ask_for(
    node: Option<Seq<char>>,
    profile: Option<Seq<char>>,
    data: Data,
    tags: Seq<Seq<char>>,
)
    requires
        data.nodes.wf(),
    ensures
        picks_of_target(node, profile, data, tags) matches Ok(list) ==> forall|pick: Pick|
            #[trigger] list.contains(pick) <==> asks_for(node, profile, data, tags, pick),
{
    if picks_of_target(node, profile, data, tags) is Ok {
        let list = picks_of_target(node, profile, data, tags)->Ok_0;
        match (node, profile) {
            (Some(node_name), Some(profile_name)) => {
                assert forall|pick: Pick| #[trigger] list.contains(pick) <==> asks_for(
                    node,
                    profile,
                    data,
                    tags,
                    pick,
                ) by {
                    if asks_for(node, profile, data, tags, pick) {
                        assert(list[0] == pick);
                    }
                }
            },
            (Some(node_name), None) => {
                lemma_picks_of_node(node_name, lookup(data.nodes@, node_name)->0, tags);
            },
            (None, None) => {
                lemma_picks_of_nodes(data.nodes@, tags);
                data.nodes.law_no_name_twice();
                assert forall|pick: Pick| #[trigger] list.contains(pick) <==> asks_for(
                    node,
                    profile,
                    data,
                    tags,
                    pick,
                ) by {
                    lemma_entry_is_found(data.nodes@, pick.0.0, pick.0.1);
                }
            },
            (None, Some(_)) => {},
        }
    }
}

/// In a map without a name that occurs twice, an entry is what is found under its
/// name.
proof fn lemma_entry_is_found(nodes: Seq<(Seq<char>, Node)>, name: Seq<char>, node: Node)
    requires
        entry_names(nodes).no_duplicates(),
    ensures
        nodes.contains((name, node)) <==> lookup(nodes, name) == Some(node),
{
    lemma_position_of(nodes, name);
    if nodes.contains((name, node)) {
        let k = choose|k: int| 0 <= k < nodes.len() && nodes[k] == (name, node);
        assert(nodes[k].0 == name);
        assert(entry_names(nodes)[k] == name);
        assert forall|j: int| 0 <= j < k implies (#[trigger] nodes[j]).0 != name by {
            assert(entry_names(nodes)[j] != entry_names(nodes)[k]);
        }
        lemma_position_is(nodes, name, k);
    }
}

/// One of the tags of a profile is the given one.
pub open spec fn has_tag(profile: Profile, tag: Seq<char>) -> bool {
    exists|k: int|
        0 <= k < profile.profile_settings.tags@.len() && (
        #[trigger] profile.profile_settings.tags@[k])@ == tag
}

/// A profile is selected exactly if every tag that is asked for is one of its own: by
/// no tags every profile, and by any tag no profile without tags.
pub proof fn law_every_tag_is_needed(profile: Profile, tags: NameSet, r: bool)
    requires
        call_ensures(profile_matches_tags, (&profile, &tags), r),
    ensures
        r <==> forall|i: int| 0 <= i < tags@.len() ==> has_tag(profile, #[trigger] tags@[i]),
        tags@.len() == 0 ==> r,
        tags@.len() > 0 && profile.profile_settings.tags@.len() == 0 ==> !r,
{
    let own = profile.profile_settings.tags@;
    let all = texts(own);
    assert forall|i: int| 0 <= i < tags@.len() implies all.contains(#[trigger] tags@[i])
        == has_tag(profile, tags@[i]) by {
        if all.contains(tags@[i]) {
            let k = choose|k: int| 0 <= k < all.len() && all[k] == tags@[i];
            assert(own[k]@ == tags@[i]);
        }
        if has_tag(profile, tags@[i]) {
            let k = choose|k: int| 0 <= k < own.len() && (#[trigger] own[k])@ == tags@[i];
            assert(all[k] == tags@[i]);
        }
    }
    if r {
        assert forall|i: int| 0 <= i < tags@.len() implies has_tag(
            profile,
            #[trigger] tags@[i],
        ) by {
            assert(all.contains(tags@[i]));
        }
    } else {
        let i = choose|i: int| 0 <= i < tags@.len() && !all.contains(#[trigger] tags@[i]);
        assert(!has_tag(profile, tags@[i]));
    }
    if tags@.len() > 0 && own.len() == 0 {
        assert(!has_tag(profile, tags@[0]));
    }
}

/// Asking for more tags never selects a profile that was not selected before.
pub proof fn law_more_tags_select_less(
    profile: Profile,
    tags: NameSet,
    more: NameSet,
    few: bool,
    many: bool,
)
    requires
        call_ensures(profile_matches_tags, (&profile, &tags), few),
        call_ensures(profile_matches_tags, (&profile, &more), many),
        forall|i: int| 0 <= i < tags@.len() ==> more@.contains(#[trigger] tags@[i]),
    ensures
        many ==> few,
{
    if many {
        let own = profile_tags(profile);
        assert forall|i: int| 0 <= i < tags@.len() implies own.contains(
            #[trigger] tags@[i],
        ) by {
            let k = choose|k: int| 0 <= k < more@.len() && more@[k] == tags@[i];
            assert(own.contains(more@[k]));
        }
    }
}

/// What stands at a later place among distinct texts came later, too.
proof fn lemma_distinct_order(all: Seq<Seq<char>>, a: int, b: int, q: int) -> (p: int)
    requires
        0 <= a < b < distinct(all).len(),
        0 <= q < all.len(),
        all[q] == distinct(all)[b],
    ensures
        0 <= p < q,
        all[p] == distinct(all)[a],
    decreases all.len(),
{
    let init = all.drop_last();
    let before = distinct(init);
    law_distinct(init);
    if before.contains(all.last()) {
        assert(distinct(all) == before);
        if q < init.len() {
            lemma_distinct_order(init, a, b, q)
        } else {
            assert(before.contains(before[b]));
            assert(init.contains(before[b]));
            let first = choose|k: int| 0 <= k < init.len() && init[k] == before[b];
            lemma_distinct_order(init, a, b, first)
        }
    } else if b < before.len() {
        if q < init.len() {
            lemma_distinct_order(init, a, b, q)
        } else {
            assert(before.contains(before[b]));
            assert(before[b] == all.last());
            0
        }
    } else {
        assert(before.contains(before[a]));
        assert(init.contains(before[a]));
        let p = choose|k: int| 0 <= k < init.len() && init[k] == before[a];
        if q < init.len() {
            assert(init.contains(init[q]));
            assert(before.contains(init[q]));
        }
        assert(q == all.len() - 1);
        p
    }
}

/// What is kept of a list stands in the same order as in the list.
proof fn lemma_filter_order<A>(s: Seq<A>, pred: spec_fn(A) -> bool, i: int, j: int) -> (places: (
    int,
    int,
))
    requires
        0 <= i < j < s.filter(pred).len(),
    ensures
        0 <= places.0 < places.1 < s.len(),
        s[places.0] == s.filter(pred)[i],
        s[places.1] == s.filter(pred)[j],
    decreases s.len(),
{
    reveal(Seq::filter);
    let init = s.drop_last();
    let kept = init.filter(pred);
    if j < kept.len() {
        lemma_filter_order(init, pred, i, j)
    } else {
        assert(pred(s.last()));
        let a = lemma_filter_place(init, pred, i);
        (a, s.len() - 1)
    }
}

proof fn lemma_filter_place<A>(s: Seq<A>, pred: spec_fn(A) -> bool, i: int) -> (place: int)
    requires
        0 <= i < s.filter(pred).len(),
    ensures
        0 <= place < s.len(),
        s[place] == s.filter(pred)[i],
    decreases s.len(),
{
    reveal(Seq::filter);
    let init = s.drop_last();
    if i < init.filter(pred).len() {
        lemma_filter_place(init, pred, i)
    } else {
        s.len() - 1
    }
}

/// The profiles of a node come in the order that the node lists them in, and those
/// that it does not list behind all others: whatever comes earlier also stands
/// earlier in the list of the node, followed by the names of all its profiles.
pub proof fn law_profiles_come_in_the_order_of_the_node(
    node: Node,
    tags: NameSet,
    r: Result<Vec<(&str, &Profile)>, RunDeployError>,
    i: int,
    j: int,
    q: int,
)
    requires
        call_ensures(ordered_profiles_for_node, (&node, &tags), r),
        r is Ok,
        0 <= i < j < r->Ok_0@.len(),
        ({
            let all = texts(node.node_settings.profiles_order@) + entry_names(
                node.node_settings.profiles@,
            );
            0 <= q < all.len() && all[q] == r->Ok_0@[j].0@
        }),
    ensures
        exists|p: int|
            0 <= p < q && #[trigger] (texts(node.node_settings.profiles_order@) + entry_names(
                node.node_settings.profiles@,
            ))[p] == r->Ok_0@[i].0@,
{
    let profiles = node.node_settings.profiles@;
    let all = texts(node.node_settings.profiles_order@) + entry_names(profiles);
    let names = distinct(all);
    let list = named(r->Ok_0@);
    let pred = |name: Seq<char>| is_selected(profiles, name, tags@);
    law_profiles_keep_the_order_of_names(profiles, names, tags@);
    assert(entry_names(list) == names.filter(pred));
    assert(entry_names(list)[i] == r->Ok_0@[i].0@);
    assert(entry_names(list)[j] == r->Ok_0@[j].0@);
    let (a, b) = lemma_filter_order(names, pred, i, j);
    let p = lemma_distinct_order(all, a, b, q);
    assert(all[p] == r->Ok_0@[i].0@);
}

/// What a target asks for, in terms of what the target names: the node and the profile
/// that it names, where it names them, and all others where it does not.
pub open spec fn is_wanted(flake: DeployFlake<'_>, data: Data, tags: Seq<Seq<char>>, pick: Pick) -> bool {
    &&& flake.node matches Some(name) ==> pick.0.0 == name@
    &&& flake.profile matches Some(name) ==> pick.1.0 == name@
    &&& lookup(data.nodes@, pick.0.0) == Some(pick.0.1)
    &&& lookup(pick.0.1.node_settings.profiles@, pick.1.0) == Some(pick.1.1)
    &&& forall|i: int|
        0 <= i < tags.len() ==> texts(pick.1.1.profile_settings.tags@).contains(#[trigger] tags[i])
}

/// Everything that is deployed is wanted by a target, by the data of that same target,
/// and everything that a target wants is deployed. Where tags are asked for something
/// is.
pub proof fn law_what_is_wanted_is_deployed(
    deploy_flakes: &[DeployFlake<'_>],
    data: &[Data],
    tags: &[String],
    r: Result<ToDeploy<'_>, RunDeployError>,
)
    requires
        call_ensures(select_to_deploy, (deploy_flakes, data, tags), r),
        r is Ok,
        forall|t: int| 0 <= t < data@.len() ==> (#[trigger] data@[t]).nodes.wf(),
    ensures
        forall|k: int|
            0 <= k < r->Ok_0@.len() ==> exists|t: int|
                0 <= t < deploy_flakes@.len() && t < data@.len() && is_wanted(
                    #[trigger] deploy_flakes@[t],
                    data@[t],
                    texts(tags@),
                    (#[trigger] picked(r->Ok_0@)[k]).2,
                ) && picked(r->Ok_0@)[k].0 == deploy_flakes@[t] && picked(r->Ok_0@)[k].1
                    == data@[t],
        forall|t: int, pick: Pick|
            0 <= t < deploy_flakes@.len() && t < data@.len() && #[trigger] is_wanted(
                deploy_flakes@[t],
                data@[t],
                texts(tags@),
                pick,
            ) ==> picked(r->Ok_0@).contains((deploy_flakes@[t], data@[t], pick)),
        tags@.len() > 0 ==> r->Ok_0@.len() > 0,
{
    let targets = with_data(deploy_flakes@, data@);
    let once = distinct(texts(tags@));
    let list = picked(r->Ok_0@);
    assert forall|t: int| 0 <= t < targets.len() implies (#[trigger] targets[t]).1.nodes.wf() by {
        assert(data@[t].nodes.wf());
    }
    lemma_picks_of_targets(targets, once);
    assert forall|flake: DeployFlake<'_>, d: Data, pick: Pick| asks_for(
        opt_text(flake.node),
        opt_text(flake.profile),
        d,
        once,
        pick,
    ) <==> #[trigger] is_wanted(flake, d, texts(tags@), pick) by {
        law_repeated_tags_do_not_matter(profile_tags(pick.1.1), texts(tags@));
    }
    assert forall|k: int| 0 <= k < r->Ok_0@.len() implies exists|t: int|
        0 <= t < deploy_flakes@.len() && t < data@.len() && is_wanted(
            #[trigger] deploy_flakes@[t],
            data@[t],
            texts(tags@),
            (#[trigger] list[k]).2,
        ) && list[k].0 == deploy_flakes@[t] && list[k].1 == data@[t] by {
        assert(list.contains(list[k]));
        let t = choose|t: int| 0 <= t < targets.len() && #[trigger] asked_at(targets, once, t, list[k]);
        assert(targets[t] == (deploy_flakes@[t], data@[t]));
        assert(is_wanted(deploy_flakes@[t], data@[t], texts(tags@), list[k].2));
    }
    assert forall|t: int, pick: Pick|
        0 <= t < deploy_flakes@.len() && t < data@.len() && #[trigger] is_wanted(
            deploy_flakes@[t],
            data@[t],
            texts(tags@),
            pick,
        ) implies list.contains((deploy_flakes@[t], data@[t], pick)) by {
        assert(targets[t] == (deploy_flakes@[t], data@[t]));
        assert(asked_at(targets, once, t, (deploy_flakes@[t], data@[t], pick)));
    }
    assert(list.len() == r->Ok_0@.len());
}

/// The target at a place asks for a profile, by its own data.
spec fn asked_at<'a>(
    targets: Seq<(DeployFlake<'a>, Data)>,
    tags: Seq<Seq<char>>,
    t: int,
    entry: Picked<'a>,
) -> bool {
    &&& entry.0 == targets[t].0
    &&& entry.1 == targets[t].1
    &&& asks_for(
        opt_text(targets[t].0.node),
        opt_text(targets[t].0.profile),
        targets[t].1,
        tags,
        entry.2,
    )
}

proof fn lemma_picks_of_targets(targets: Seq<(DeployFlake<'_>, Data)>, tags: Seq<Seq<char>>)
    requires
        forall|t: int| 0 <= t < targets.len() ==> (#[trigger] targets[t]).1.nodes.wf(),
    ensures
        picks_of_targets(targets, tags) matches Ok(list) ==> forall|entry: Picked<'_>| #[trigger]
            list.contains(entry) <==> exists|t: int|
                0 <= t < targets.len() && #[trigger] asked_at(targets, tags, t, entry),
    decreases targets.len(),
{
    if picks_of_targets(targets, tags) is Ok {
        let list = picks_of_targets(targets, tags)->Ok_0;
        if targets.len() > 0 {
            let init = targets.drop_last();
            let (flake, data) = targets.last();
            let n = targets.len() - 1;
            assert forall|t: int| 0 <= t < init.len() implies (#[trigger] init[t]).1.nodes.wf() by {
                assert(targets[t].1.nodes.wf());
            }
            assert(targets[n].1.nodes.wf());
            lemma_picks_of_targets(init, tags);
            law_targets_get_what_they_ask_for(
                opt_text(flake.node),
                opt_text(flake.profile),
                data,
                tags,
            );
            let before = picks_of_targets(init, tags)->Ok_0;
            let more = picks_of_target(opt_text(flake.node), opt_text(flake.profile), data, tags)->Ok_0;
            let added = for_target(flake, data, more);
            assert forall|entry: Picked<'_>| #[trigger] list.contains(entry) <==> exists|t: int|
                0 <= t < targets.len() && #[trigger] asked_at(targets, tags, t, entry) by {
                if list.contains(entry) {
                    let i = choose|i: int| 0 <= i < list.len() && list[i] == entry;
                    if i < before.len() {
                        assert(before[i] == entry);
                        assert(before.contains(entry));
                        let t = choose|t: int|
                            0 <= t < init.len() && #[trigger] asked_at(init, tags, t, entry);
                        assert(asked_at(targets, tags, t, entry));
                    } else {
                        assert(added[i - before.len()] == entry);
                        assert(more[i - before.len()] == entry.2);
                        assert(more.contains(entry.2));
                        assert(asked_at(targets, tags, n, entry));
                    }
                }
                if exists|t: int|
                    0 <= t < targets.len() && #[trigger] asked_at(targets, tags, t, entry) {
                    let t = choose|t: int|
                        0 <= t < targets.len() && #[trigger] asked_at(targets, tags, t, entry);
                    if t < n {
                        assert(asked_at(init, tags, t, entry));
                        assert(before.contains(entry));
                        let i = choose|i: int| 0 <= i < before.len() && before[i] == entry;
                        assert(list[i] == entry);
                    } else {
                        assert(more.contains(entry.2));
                        let i = choose|i: int| 0 <= i < more.len() && more[i] == entry.2;
                        assert(added[i] == entry);
                        assert(list[before.len() + i] == entry);
                    }
                }
            }
        }
    }
}

/// A target that names what is not there ends the selection: a node that is not in
/// its data, a profile that the node does not have, or a profile of no node.
pub proof fn law_targets_have_to_be_there(
    node: Option<Seq<char>>,
    profile: Option<Seq<char>>,
    data: Data,
    tags: Seq<Seq<char>>,
)
    ensures
        node matches Some(name) && lookup(data.nodes@, name) is None ==> (picks_of_target(
            node,
            profile,
            data,
            tags,
        ) matches Err(PickFault::NodeNotFound(missing)) && missing == node->0),
        node is Some && profile is Some && lookup(data.nodes@, node->0) is Some && lookup(
            lookup(data.nodes@, node->0)->0.node_settings.profiles@,
            profile->0,
        ) is None ==> (picks_of_target(node, profile, data, tags) matches Err(
            PickFault::ProfileNotFound(missing),
        ) && missing == profile->0),
        node is None && profile is Some ==> picks_of_target(node, profile, data, tags) matches Err(
            PickFault::ProfileWithoutNode,
        ),
        node is Some && profile is Some && lookup(data.nodes@, node->0) is Some && lookup(
            lookup(data.nodes@, node->0)->0.node_settings.profiles@,
            profile->0,
        ) is Some ==> picks_of_target(node, profile, data, tags) is Ok,
{
}

/// Targets are taken one after the other: what one more target adds comes behind what
/// the others ask for, and the first one with something wrong is the one that is
/// reported.
pub proof fn law_targets_are_taken_one_by_one(
    flakes: &[DeployFlake<'_>],
    flake: &[DeployFlake<'_>],
    all_flakes: &[DeployFlake<'_>],
    datas: &[Data],
    data: &[Data],
    all_datas: &[Data],
    tags: &[String],
    before: Result<ToDeploy<'_>, RunDeployError>,
    more: Result<ToDeploy<'_>, RunDeployError>,
    all: Result<ToDeploy<'_>, RunDeployError>,
)
    requires
        call_ensures(collect_to_deploy, (flakes, datas, tags), before),
        call_ensures(collect_to_deploy, (flake, data, tags), more),
        call_ensures(collect_to_deploy, (all_flakes, all_datas, tags), all),
        flakes@.len() == datas@.len(),
        flake@.len() == 1 && data@.len() == 1,
        all_flakes@ == flakes@ + flake@,
        all_datas@ == datas@ + data@,
    ensures
        all is Ok <==> before is Ok && more is Ok,
        all is Ok ==> picked(all->Ok_0@) == picked(before->Ok_0@) + picked(more->Ok_0@),
        all is Err ==> {
            let first = if before is Err {
                before->Err_0
            } else {
                more->Err_0
            };
            match (all->Err_0, first) {
                (RunDeployError::NodeNotFound(a), RunDeployError::NodeNotFound(b)) => a@ == b@,
                (RunDeployError::ProfileNotFound(a), RunDeployError::ProfileNotFound(b)) => a@
                    == b@,
                (RunDeployError::ProfileWithoutNode, RunDeployError::ProfileWithoutNode) => true,
                _ => false,
            }
        },
{
    let done = with_data(flakes@, datas@);
    let one = with_data(flake@, data@);
    let both = with_data(all_flakes@, all_datas@);
    assert(both.drop_last() =~= done);
    assert(both.last() == one[0]);
    assert(one.drop_last() =~= Seq::empty());
    assert(one.last() == one[0]);
    let none = Seq::<Picked<'_>>::empty();
    let names = distinct(texts(tags@));
    let (f, d) = one[0];
    let picks = picks_of_target(opt_text(f.node), opt_text(f.profile), d, names);
    assert(picks_of_targets(one.drop_last(), names) == Ok::<_, PickFault>(none));
    match picks {
        Ok(found) => {
            assert(none + for_target(f, d, found) =~= for_target(f, d, found));
            assert(picks_of_targets(one, names) == Ok::<_, PickFault>(for_target(f, d, found)));
        },
        Err(fault) => {
            assert(picks_of_targets(one, names) == Err::<Seq<Picked<'_>>, _>(fault));
        },
    }
    assert(picks_of_targets(both, names) == match picks_of_targets(done, names) {
        Ok(some) => match picks {
            Ok(found) => Ok(some + for_target(f, d, found)),
            Err(fault) => Err(fault),
        },
        Err(fault) => Err(fault),
    });
}

/// A selection is what the targets ask for. It is refused where they cannot be had, and
/// where no profile has the tags that are asked for; then the tags are named.
pub proof fn law_selection_without_profiles_is_refused(
    flakes: &[DeployFlake<'_>],
    datas: &[Data],
    tags: &[String],
    collected: Result<ToDeploy<'_>, RunDeployError>,
    selected: Result<ToDeploy<'_>, RunDeployError>,
)
    requires
        call_ensures(collect_to_deploy, (flakes, datas, tags), collected),
        call_ensures(select_to_deploy, (flakes, datas, tags), selected),
    ensures
        collected is Err ==> selected is Err && !(selected->Err_0 is NoProfilesMatchedTags),
        collected is Ok && (collected->Ok_0@.len() > 0 || tags@.len() == 0) ==> selected is Ok
            && picked(selected->Ok_0@) == picked(collected->Ok_0@),
        collected is Ok && collected->Ok_0@.len() == 0 && tags@.len() > 0 ==> (selected
            matches Err(RunDeployError::NoProfilesMatchedTags(names)) && names@ == joined(
            texts(tags@),
            ", "@,
        )),
{
    if collected is Ok {
        assert(picked(collected->Ok_0@).len() == collected->Ok_0@.len());
    }
}

} // verus!
