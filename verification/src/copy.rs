//! Copying closures to the machines that they are for, those that are reached in
//! the same way together.
use vstd::prelude::*;

use crate::command::{command_line, Command, CommandError, CommandLine};
use crate::deployment::DeployData;
use crate::push::{
    encode_ssh_opts, has_nul, is_encoding, is_nul_error, shell_joined, CopyError, PushProfileData,
    PushProfileError,
};
use crate::text::{
    distinct, join_texts, joined, law_distinct, law_distinct_keeps_the_order, same_text, strs, texts,
};

verus! {

/// How closures are copied to a machine.
#[derive(Debug)]
pub struct CopyGroupKey {
    pub hostname: String,
    pub ssh_user: String,
    pub ssh_opts: String,
    pub fast_connection: Option<bool>,
    pub check_sigs: bool,
}

/// What a `CopyGroupKey` holds.
#[verifier::ext_equal]
pub struct CopyRoute {
    pub hostname: Seq<char>,
    pub ssh_user: Seq<char>,
    pub ssh_opts: Seq<char>,
    pub fast_connection: Option<bool>,
    pub check_sigs: bool,
}

impl View for CopyGroupKey {
    type V = CopyRoute;

    open spec fn view(&self) -> CopyRoute {
        CopyRoute {
            hostname: self.hostname@,
            ssh_user: self.ssh_user@,
            ssh_opts: self.ssh_opts@,
            fast_connection: self.fast_connection,
            check_sigs: self.check_sigs,
        }
    }
}

/// How the closure of a profile is copied.
pub open spec fn copy_route(data: PushProfileData<'_>) -> CopyRoute {
    CopyRoute {
        hostname: data.deploy_data.host(),
        ssh_user: data.deploy_defs.ssh_user@,
        ssh_opts: shell_joined(data.ssh_opts()),
        fast_connection: data.deploy_data.merged_settings.fast_connection,
        check_sigs: data.check_sigs,
    }
}

/// How the closure of a profile is copied.
pub fn copy_group_key(data: &PushProfileData<'_>) -> (r: Result<CopyGroupKey, PushProfileError>)
    ensures
        match r {
            Ok(key) => {
                &&& !has_nul(data.ssh_opts())
                &&& key@ == copy_route(*data)
                &&& is_encoding(key@.ssh_opts, data.ssh_opts())
            },
            Err(e) => has_nul(data.ssh_opts()) && is_nul_error(e),
        },
{
    match encode_ssh_opts(data.deploy_data.merged_settings.ssh_opts.as_slice()) {
        Ok(ssh_opts) => Ok(
            CopyGroupKey {
                hostname: data.deploy_data.hostname().to_string(),
                ssh_user: data.deploy_defs.ssh_user.clone(),
                ssh_opts,
                fast_connection: data.deploy_data.merged_settings.fast_connection,
                check_sigs: data.check_sigs,
            },
        ),
        Err(e) => Err(e),
    }
}

fn same_key(a: &CopyGroupKey, b: &CopyGroupKey) -> (r: bool)
    ensures
        r == (a@ == b@),
{
    same_text(a.hostname.as_str(), b.hostname.as_str()) && same_text(
        a.ssh_user.as_str(),
        b.ssh_user.as_str(),
    ) && same_text(a.ssh_opts.as_str(), b.ssh_opts.as_str()) && a.fast_connection
        == b.fast_connection && a.check_sigs == b.check_sigs
}

/// The address to which closures are copied.
pub open spec fn copy_target(route: CopyRoute) -> Seq<char> {
    "ssh://"@ + route.ssh_user + "@"@ + route.hostname
}

fn target_of(key: &CopyGroupKey) -> (r: String)
    ensures
        r@ == copy_target(key@),
{
    "ssh://".to_string().concat(key.ssh_user.as_str()).concat("@").concat(key.hostname.as_str())
}

/// The command line that copies closures.
pub open spec fn copy_line(route: CopyRoute, paths: Seq<Seq<char>>) -> CommandLine {
    let substitute = if route.fast_connection == Some(true) {
        Seq::empty()
    } else {
        seq!["--substitute-on-destination"@]
    };
    let sigs = if route.check_sigs {
        Seq::empty()
    } else {
        seq!["--no-check-sigs"@]
    };
    command_line(
        "nix"@,
        seq!["copy"@] + substitute + sigs + seq!["--to"@, copy_target(route)] + paths,
    ).with_env("NIX_SSHOPTS"@, route.ssh_opts)
}

/// The command that copies closures.
pub fn make_copy_command(key: &CopyGroupKey, paths: &[&str]) -> (r: Command)
    ensures
        r@ == copy_line(key@, strs(paths@)),
{
    let mut command = Command::new("nix").arg("copy");
    let fast = match key.fast_connection {
        Some(fast) => fast,
        None => false,
    };
    if !fast {
        command = command.arg("--substitute-on-destination");
    }
    if !key.check_sigs {
        command = command.arg("--no-check-sigs");
    }
    let r = command.arg("--to").arg(target_of(key).as_str()).arg_strs(paths).env(
        "NIX_SSHOPTS",
        key.ssh_opts.as_str(),
    );
    assert(r@.args =~= copy_line(key@, strs(paths@)).args);
    r
}

/// The closures that are copied together, by the positions of their profiles.
#[derive(Debug)]
pub struct CopyGroup {
    pub key: CopyGroupKey,
    pub indexes: Vec<usize>,
}

/// Profiles that go together, by their positions.
pub type Members = (CopyRoute, Seq<int>);

/// What a `CopyGroup` holds.
pub open spec fn members(group: CopyGroup) -> Members {
    (group.key@, group.indexes@.map_values(|i: usize| i as int))
}

/// The place of the group with a route.
pub open spec fn group_with(groups: Seq<Members>, route: CopyRoute) -> Option<int>
    decreases groups.len(),
{
    if groups.len() == 0 {
        None
    } else if groups.last().0 == route {
        Some(groups.len() - 1)
    } else {
        group_with(groups.drop_last(), route)
    }
}

/// The groups after a profile has been added: to the group with its route, or
/// else in a group of its own.
pub open spec fn with_member(groups: Seq<Members>, route: CopyRoute, index: int) -> Seq<Members> {
    match group_with(groups, route) {
        Some(k) => groups.update(k, (route, groups[k].1.push(index))),
        None => groups.push((route, seq![index])),
    }
}

/// The groups in which closures are copied. What was built on its own machine is
/// there already.
pub open spec fn copy_groups_of(datas: Seq<PushProfileData<'_>>) -> Seq<Members>
    decreases datas.len(),
{
    if datas.len() == 0 {
        Seq::empty()
    } else {
        let before = copy_groups_of(datas.drop_last());
        if datas.last().deploy_data.builds_remotely() {
            before
        } else {
            with_member(before, copy_route(datas.last()), datas.len() - 1)
        }
    }
}

/// The closure of the profile is copied, and its SSH options cannot be encoded.
pub open spec fn is_unencodable(data: PushProfileData<'_>) -> bool {
    !data.deploy_data.builds_remotely() && has_nul(data.ssh_opts())
}

proof fn lemma_group_with(groups: Seq<Members>, route: CopyRoute)
    ensures
        match group_with(groups, route) {
            Some(k) => 0 <= k < groups.len() && groups[k].0 == route,
            None => forall|k: int| 0 <= k < groups.len() ==> (#[trigger] groups[k]).0 != route,
        },
    decreases groups.len(),
{
    if groups.len() > 0 && groups.last().0 != route {
        let init = groups.drop_last();
        lemma_group_with(init, route);
        if group_with(init, route) is None {
            assert forall|k: int| 0 <= k < groups.len() implies (#[trigger] groups[k]).0
                != route by {
                if k < init.len() {
                    assert(init[k].0 != route);
                }
            }
        }
    }
}

/// What holds of groups: no two have the same route, none is empty, and the
/// members of each are in ascending order and below `n`.
pub open spec fn are_groups(groups: Seq<Members>, n: int) -> bool {
    &&& forall|k: int, l: int|
        0 <= k < l < groups.len() ==> (#[trigger] groups[k]).0 != (#[trigger] groups[l]).0
    &&& forall|k: int| 0 <= k < groups.len() ==> (#[trigger] groups[k]).1.len() > 0
    &&& forall|k: int, i: int|
        0 <= k < groups.len() && 0 <= i < groups[k].1.len() ==> 0 <= #[trigger] groups[k].1[i] < n
    &&& forall|k: int, i: int, j: int|
        0 <= k < groups.len() && 0 <= i < j < groups[k].1.len() ==> (#[trigger] groups[k].1[i]) < (
        #[trigger] groups[k].1[j])
}

/// The groups in which closures are copied form a partition: each profile that
/// is not built on its own machine is in exactly one group, the one with its
/// route, and no other profile is in any.
pub proof fn law_copy_groups_partition(datas: Seq<PushProfileData<'_>>)
    ensures
        are_groups(copy_groups_of(datas), datas.len() as int),
        forall|k: int, i: int|
            0 <= k < copy_groups_of(datas).len() ==> ((#[trigger] copy_groups_of(
                datas,
            )[k].1.contains(i)) <==> {
                &&& 0 <= i < datas.len()
                &&& !datas[i].deploy_data.builds_remotely()
                &&& copy_route(datas[i]) == copy_groups_of(datas)[k].0
            }),
        forall|i: int|
            0 <= i < datas.len() && !(#[trigger] datas[i]).deploy_data.builds_remotely()
                ==> exists|k: int|
                0 <= k < copy_groups_of(datas).len() && (#[trigger] copy_groups_of(
                    datas,
                )[k]).0 == copy_route(datas[i]),
    decreases datas.len(),
{
    if datas.len() > 0 {
        let init = datas.drop_last();
        let last = datas.last();
        let n = datas.len() - 1;
        let before = copy_groups_of(init);
        let after = copy_groups_of(datas);
        law_copy_groups_partition(init);
        assert forall|i: int| 0 <= i < n implies #[trigger] datas[i] == init[i] by {}
        assert(datas[n] == last);
        if !last.deploy_data.builds_remotely() {
            let route = copy_route(last);
            lemma_group_with(before, route);
            match group_with(before, route) {
                Some(g) => {
                    assert(after == before.update(g, (route, before[g].1.push(n))));
                    assert forall|k: int, i: int| 0 <= k < after.len() implies (
                    #[trigger] after[k].1.contains(i)) == ({
                        &&& 0 <= i < datas.len()
                        &&& !datas[i].deploy_data.builds_remotely()
                        &&& copy_route(datas[i]) == after[k].0
                    }) by {
                        assert(before[k].1.contains(i) == ({
                            &&& 0 <= i < init.len()
                            &&& !init[i].deploy_data.builds_remotely()
                            &&& copy_route(init[i]) == before[k].0
                        }));
                        if k == g {
                            lemma_push_contains(before[g].1, n, i);
                        } else if i == n && k < g {
                            assert(before[k].0 != before[g].0);
                        } else if i == n {
                            assert(before[g].0 != before[k].0);
                        }
                    }
                    assert(after[g].0 == route);
                },
                None => {
                    assert(after == before.push((route, seq![n])));
                    assert forall|k: int, i: int| 0 <= k < after.len() implies (
                    #[trigger] after[k].1.contains(i)) == ({
                        &&& 0 <= i < datas.len()
                        &&& !datas[i].deploy_data.builds_remotely()
                        &&& copy_route(datas[i]) == after[k].0
                    }) by {
                        if k < before.len() {
                            assert(before[k].1.contains(i) == ({
                                &&& 0 <= i < init.len()
                                &&& !init[i].deploy_data.builds_remotely()
                                &&& copy_route(init[i]) == before[k].0
                            }));
                            assert(before[k].0 != route);
                        } else {
                            assert(seq![n][0] == n);
                            if 0 <= i < n && !init[i].deploy_data.builds_remotely() && copy_route(
                                init[i],
                            ) == route {
                                let g = choose|g: int|
                                    0 <= g < before.len() && (#[trigger] before[g]).0
                                        == copy_route(init[i]);
                                assert(before[g].0 != route);
                            }
                        }
                    }
                    assert(after[before.len() as int].0 == route);
                },
            }
            assert forall|i: int|
                0 <= i < datas.len() && !(
                #[trigger] datas[i]).deploy_data.builds_remotely() implies exists|k: int|
                0 <= k < after.len() && (#[trigger] after[k]).0 == copy_route(datas[i]) by {
                if i < n {
                    assert(init[i] == datas[i]);
                    let g = choose|g: int|
                        0 <= g < before.len() && (#[trigger] before[g]).0 == copy_route(init[i]);
                    assert(after[g].0 == before[g].0);
                }
            }
        } else {
            assert forall|i: int|
                0 <= i < datas.len() && !(
                #[trigger] datas[i]).deploy_data.builds_remotely() implies exists|k: int|
                0 <= k < after.len() && (#[trigger] after[k]).0 == copy_route(datas[i]) by {
                assert(init[i] == datas[i]);
            }
        }
    }
}

proof fn lemma_push_contains(s: Seq<int>, n: int, i: int)
    ensures
        s.push(n).contains(i) <==> s.contains(i) || i == n,
{
    if s.contains(i) {
        let k = choose|k: int| 0 <= k < s.len() && s[k] == i;
        assert(s.push(n)[k] == i);
    }
    assert(s.push(n)[s.len() as int] == n);
    if s.push(n).contains(i) {
        let k = choose|k: int| 0 <= k < s.push(n).len() && s.push(n)[k] == i;
        if k < s.len() {
            assert(s[k] == i);
        }
    }
}

/// The groups, as they are specified.
pub open spec fn all_members(groups: Seq<CopyGroup>) -> Seq<Members> {
    groups.map_values(|group: CopyGroup| members(group))
}

/// The members of a group are profiles.
pub open spec fn is_group_of(group: CopyGroup, datas: Seq<PushProfileData<'_>>) -> bool {
    forall|i: int| 0 <= i < group.indexes@.len() ==> (#[trigger] group.indexes@[i]) < datas.len()
}

/// The members of a group have the same SSH options, word for word.
pub open spec fn share_options(group: CopyGroup, datas: Seq<PushProfileData<'_>>) -> bool {
    forall|i: int, j: int|
        0 <= i < group.indexes@.len() && 0 <= j < group.indexes@.len() ==> datas[
        #[trigger] group.indexes@[i] as int].ssh_opts() == datas[
        #[trigger] group.indexes@[j] as int].ssh_opts()
}

/// The groups in which the closures of profiles are copied. The members of a
/// group have the same SSH options, word for word.
pub fn copy_groups(datas: &[PushProfileData<'_>]) -> (r: Result<Vec<CopyGroup>, PushProfileError>)
    ensures
        match r {
            Ok(groups) => {
                &&& forall|i: int| 0 <= i < datas@.len() ==> !is_unencodable(#[trigger] datas@[i])
                &&& all_members(groups@) == copy_groups_of(datas@)
                &&& forall|k: int|
                    0 <= k < groups@.len() ==> is_group_of(#[trigger] groups@[k], datas@)
                        && share_options(groups@[k], datas@)
            },
            Err(e) => {
                &&& exists|i: int| 0 <= i < datas@.len() && is_unencodable(#[trigger] datas@[i])
                &&& is_nul_error(e)
            },
        },
{
    let mut groups: Vec<CopyGroup> = Vec::new();
    let mut index: usize = 0;
    assert(all_members(groups@) =~= Seq::empty());
    assert(datas@.take(0) =~= Seq::empty());
    while index < datas.len()
        invariant
            index <= datas@.len(),
            forall|i: int| 0 <= i < index ==> !is_unencodable(#[trigger] datas@[i]),
            all_members(groups@) == copy_groups_of(datas@.take(index as int)),
            forall|k: int, i: int|
                0 <= k < groups@.len() && 0 <= i < groups@[k].indexes@.len() ==> {
                    &&& (#[trigger] groups@[k].indexes@[i]) < datas@.len()
                    &&& is_encoding(
                        groups@[k].key@.ssh_opts,
                        datas@[groups@[k].indexes@[i] as int].ssh_opts(),
                    )
                },
        decreases datas@.len() - index,
    {
        let data = &datas[index];
        assert(datas@.take(index + 1).drop_last() =~= datas@.take(index as int));
        assert(datas@.take(index + 1).last() == *data);
        if data.deploy_data.remote_build() {
            index += 1;
            continue;
        }
        let key = match copy_group_key(data) {
            Ok(key) => key,
            Err(e) => {
                assert(is_unencodable(datas@[index as int]));
                return Err(e);
            },
        };
        let ghost before = all_members(groups@);
        let ghost old_groups = groups@;
        let mut n: usize = groups.len();
        assert(before.take(n as int) =~= before);
        while n > 0 && !same_key(&groups[n - 1].key, &key)
            invariant
                n <= groups@.len(),
                groups@ == old_groups,
                before == all_members(old_groups),
                group_with(before, key@) == group_with(before.take(n as int), key@),
            decreases n,
        {
            assert(before.take(n as int).drop_last() =~= before.take(n - 1));
            assert(before.take(n as int).last() == members(groups@[n - 1]));
            n -= 1;
        }
        if n > 0 {
            assert(before.take(n as int).last() == members(groups@[n - 1]));
            let ghost was = groups@[n - 1];
            groups[n - 1].indexes.push(index);
            proof {
                assert(groups@[n - 1].indexes@.map_values(|i: usize| i as int)
                    =~= was.indexes@.map_values(|i: usize| i as int).push(index as int));
                assert(all_members(groups@) =~= before.update(
                    n - 1,
                    (key@, before[n - 1].1.push(index as int)),
                ));
                assert forall|k: int, i: int|
                    0 <= k < groups@.len() && 0 <= i < groups@[k].indexes@.len() implies {
                    &&& (#[trigger] groups@[k].indexes@[i]) < datas@.len()
                    &&& is_encoding(
                        groups@[k].key@.ssh_opts,
                        datas@[groups@[k].indexes@[i] as int].ssh_opts(),
                    )
                } by {
                    if k != n - 1 || i < was.indexes@.len() {
                        assert(groups@[k].indexes@[i] == old_groups[k].indexes@[i]);
                    }
                }
            }
        } else {
            let mut indexes: Vec<usize> = Vec::new();
            indexes.push(index);
            groups.push(CopyGroup { key, indexes });
            proof {
                assert(indexes@.map_values(|i: usize| i as int) =~= seq![index as int]);
                assert(all_members(groups@) =~= before.push((key@, seq![index as int])));
                assert forall|k: int, i: int|
                    0 <= k < groups@.len() && 0 <= i < groups@[k].indexes@.len() implies {
                    &&& (#[trigger] groups@[k].indexes@[i]) < datas@.len()
                    &&& is_encoding(
                        groups@[k].key@.ssh_opts,
                        datas@[groups@[k].indexes@[i] as int].ssh_opts(),
                    )
                } by {
                    if k < old_groups.len() {
                        assert(groups@[k].indexes@[i] == old_groups[k].indexes@[i]);
                    }
                }
            }
        }
        index += 1;
    }
    assert(datas@.take(index as int) =~= datas@);
    Ok(groups)
}

/// The names of the nodes of a group, each one once.
pub open spec fn group_nodes(datas: Seq<PushProfileData<'_>>, indexes: Seq<usize>) -> Seq<char> {
    joined(
        distinct(indexes.map_values(|i: usize| datas[i as int].deploy_data.node_name@)),
        ", "@,
    )
}

/// The names of the nodes of a group, each one once.
pub fn copy_group_nodes(datas: &[PushProfileData<'_>], group: &CopyGroup) -> (r: String)
    requires
        is_group_of(*group, datas@),
    ensures
        r@ == group_nodes(datas@, group.indexes@),
{
    let ghost names = group.indexes@.map_values(
        |i: usize| datas@[i as int].deploy_data.node_name@,
    );
    let mut nodes: Vec<String> = Vec::new();
    let mut i: usize = 0;
    assert(texts(nodes@) =~= Seq::empty());
    assert(names.take(0) =~= Seq::empty());
    while i < group.indexes.len()
        invariant
            i <= group.indexes@.len(),
            is_group_of(*group, datas@),
            names == group.indexes@.map_values(
                |i: usize| datas@[i as int].deploy_data.node_name@,
            ),
            texts(nodes@) == distinct(names.take(i as int)),
        decreases group.indexes@.len() - i,
    {
        assert(group.indexes@[i as int] < datas@.len());
        let node_name = datas[group.indexes[i]].deploy_data.node_name;
        assert(names.take(i + 1).drop_last() =~= names.take(i as int));
        assert(names.take(i + 1).last() == node_name@);
        let ghost before = nodes@;
        let mut k: usize = 0;
        while k < nodes.len() && !same_text(nodes[k].as_str(), node_name)
            invariant
                k <= nodes@.len(),
                nodes@ == before,
                forall|j: int| 0 <= j < k ==> (#[trigger] nodes@[j])@ != node_name@,
            decreases nodes@.len() - k,
        {
            k += 1;
        }
        if k == nodes.len() {
            nodes.push(node_name.to_string());
            assert(texts(nodes@) =~= texts(before).push(node_name@));
            assert forall|j: int| 0 <= j < before.len() implies texts(before)[j] != node_name@ by {
                assert(before[j]@ != node_name@);
            }
        } else {
            assert(texts(before)[k as int] == node_name@);
        }
        i += 1;
    }
    assert(names.take(i as int) =~= names);
    join_texts(nodes.as_slice(), ", ")
}

/// How the profiles of a group are shown.
pub open spec fn group_labels(datas: Seq<PushProfileData<'_>>, indexes: Seq<usize>) -> Seq<char> {
    joined(indexes.map_values(|i: usize| datas[i as int].deploy_data.label()), ", "@)
}

/// How the profiles of a group are shown.
pub fn copy_group_labels(datas: &[PushProfileData<'_>], group: &CopyGroup) -> (r: String)
    requires
        is_group_of(*group, datas@),
    ensures
        r@ == group_labels(datas@, group.indexes@),
{
    let mut labels: Vec<String> = Vec::new();
    let mut i: usize = 0;
    while i < group.indexes.len()
        invariant
            i <= group.indexes@.len(),
            labels@.len() == i,
            is_group_of(*group, datas@),
            forall|j: int|
                0 <= j < i ==> (#[trigger] labels@[j])@
                    == datas@[group.indexes@[j] as int].deploy_data.label(),
        decreases group.indexes@.len() - i,
    {
        assert(group.indexes@[i as int] < datas@.len());
        labels.push(datas[group.indexes[i]].deploy_data.shown());
        i += 1;
    }
    assert(texts(labels@) =~= group.indexes@.map_values(
        |i: usize| datas@[i as int].deploy_data.label(),
    ));
    join_texts(labels.as_slice(), ", ")
}

/// The command that copies the closures of a group, of which there is one for
/// each profile.
pub fn copy_group_command(
    datas: &[PushProfileData<'_>],
    group: &CopyGroup,
    closures: &[String],
) -> (r: Command)
    requires
        is_group_of(*group, datas@),
        closures@.len() == datas@.len(),
    ensures
        r@ == copy_line(
            group.key@,
            group.indexes@.map_values(|i: usize| closures@[i as int]@),
        ),
{
    let mut paths: Vec<&str> = Vec::new();
    let mut i: usize = 0;
    while i < group.indexes.len()
        invariant
            i <= group.indexes@.len(),
            paths@.len() == i,
            is_group_of(*group, datas@),
            closures@.len() == datas@.len(),
            forall|j: int|
                0 <= j < i ==> (#[trigger] paths@[j])@ == closures@[group.indexes@[j] as int]@,
        decreases group.indexes@.len() - i,
    {
        assert(group.indexes@[i as int] < datas@.len());
        paths.push(closures[group.indexes[i]].as_str());
        i += 1;
    }
    assert(strs(paths@) =~= group.indexes@.map_values(|i: usize| closures@[i as int]@));
    make_copy_command(&group.key, paths.as_slice())
}

/// The error for a group whose closures could not be copied.
pub fn copy_group_error(
    datas: &[PushProfileData<'_>],
    group: &CopyGroup,
    source: CommandError<CopyError>,
) -> (r: PushProfileError)
    requires
        is_group_of(*group, datas@),
    ensures
        r matches PushProfileError::CopyGroup { nodes, target, profiles, source: why } && {
            &&& nodes@ == group_nodes(datas@, group.indexes@)
            &&& target@ == copy_target(group.key@)
            &&& profiles@ == group_labels(datas@, group.indexes@)
            &&& *why == source
        },
{
    PushProfileError::CopyGroup {
        nodes: copy_group_nodes(datas, group),
        target: target_of(&group.key),
        profiles: copy_group_labels(datas, group),
        source: Box::new(source),
    }
}

/// The closure of a profile is copied to the machine on which the profile is
/// deployed, as the user that connects to it and with the same SSH options, and as the
/// settings ask for: the host of the command line where one is given there, and else
/// that of the node.
pub proof fn law_closure_goes_where_the_profile_is_deployed(
    data: PushProfileData<'_>,
    host: &str,
    r: Result<CopyGroupKey, PushProfileError>,
)
    requires
        call_ensures(copy_group_key, (&data,), r),
        call_ensures(DeployData::hostname, (data.deploy_data,), host),
        r is Ok,
    ensures
        r->Ok_0.hostname@ == host@,
        data.deploy_data.cmd_overrides.hostname is Some ==> r->Ok_0.hostname@
            == data.deploy_data.cmd_overrides.hostname->0@,
        data.deploy_data.cmd_overrides.hostname is None ==> r->Ok_0.hostname@
            == data.deploy_data.node.node_settings.hostname@,
        r->Ok_0.ssh_user@ == data.deploy_defs.ssh_user@,
        r->Ok_0.fast_connection == data.deploy_data.merged_settings.fast_connection,
        r->Ok_0.check_sigs == data.check_sigs,
        is_encoding(r->Ok_0.ssh_opts@, texts(data.deploy_data.merged_settings.ssh_opts@)),
{
}

/// Closures are copied to the user and host that they are for, in the order in which
/// they are given and nothing else with them. The destination fetches what it can from
/// elsewhere unless the connection is said to be fast, and signatures are checked
/// exactly where that is asked for.
pub proof fn law_closures_are_copied_as_asked(key: CopyGroupKey, paths: &[&str], r: Command)
    requires
        call_ensures(make_copy_command, (&key, paths), r),
    ensures
        ({
            let args = texts(r.args@);
            let n = args.len() - paths@.len();
            &&& r.program@ == "nix"@
            &&& n == 3 + (if key.fast_connection == Some(true) {
                0int
            } else {
                1int
            }) + (if key.check_sigs {
                0int
            } else {
                1int
            })
            &&& args[0] == "copy"@
            &&& args.skip(n) == strs(paths@)
            &&& args[n - 1] == "ssh://"@ + key.ssh_user@ + "@"@ + key.hostname@
            &&& args[n - 2] == "--to"@
            &&& args.contains("--substitute-on-destination"@) || key.fast_connection == Some(true)
            &&& args.contains("--no-check-sigs"@) || key.check_sigs
        }),
        r@.env_value("NIX_SSHOPTS"@) == Some(key.ssh_opts@),
{
    let args = texts(r.args@);
    let n = args.len() - paths@.len();
    assert(args == r@.args);
    assert(args.skip(n) =~= strs(paths@));
    assert(r@.envs.last() == ("NIX_SSHOPTS"@, key.ssh_opts@));
    if key.fast_connection != Some(true) {
        assert(args[1] == "--substitute-on-destination"@);
    }
    if !key.check_sigs {
        assert(args[n - 3] == "--no-check-sigs"@);
    }
}

/// The closures that are copied with a group are those of its profiles.
pub proof fn law_group_takes_its_own_closures(
    datas: &[PushProfileData<'_>],
    group: CopyGroup,
    closures: &[String],
    r: Command,
    i: int,
)
    requires
        call_ensures(copy_group_command, (datas, &group, closures), r),
        is_group_of(group, datas@),
        closures@.len() == datas@.len(),
        0 <= i < group.indexes@.len(),
    ensures
        r.args@.len() >= group.indexes@.len(),
        r.args@[r.args@.len() - group.indexes@.len() + i]@ == closures@[group.indexes@[i] as int]@,
        r@.args[r.args@.len() - group.indexes@.len() - 1] == "ssh://"@ + group.key.ssh_user@ + "@"@
            + group.key.hostname@,
        r@.env_value("NIX_SSHOPTS"@) == Some(group.key.ssh_opts@),
{
    let args = r@.args;
    assert(args.len() == r.args@.len());
    let n = args.len() - group.indexes@.len();
    assert(args[n + i] == closures@[group.indexes@[i] as int]@);
    assert(args[n - 1] == copy_target(group.key@));
    assert(r@.envs.last() == ("NIX_SSHOPTS"@, group.key.ssh_opts@));
}

/// Two profiles that are not built on their own machines go together exactly where
/// they are reached in the same way.
pub proof fn law_profiles_go_together_where_reached_alike(
    datas: &[PushProfileData<'_>],
    r: Result<Vec<CopyGroup>, PushProfileError>,
    i: int,
    j: int,
)
    requires
        call_ensures(copy_groups, (datas,), r),
        r is Ok,
        0 <= i < datas@.len(),
        0 <= j < datas@.len(),
        datas@[i].deploy_data.merged_settings.remote_build != Some(true),
        datas@[j].deploy_data.merged_settings.remote_build != Some(true),
    ensures
        (exists|k: int|
            0 <= k < r->Ok_0@.len() && #[trigger] members(r->Ok_0@[k]).1.contains(i) && members(
                r->Ok_0@[k],
            ).1.contains(j)) <==> {
            let (a, b) = (datas@[i], datas@[j]);
            let host = |data: DeployData<'_>|
                match data.cmd_overrides.hostname {
                    Some(host) => host@,
                    None => data.node.node_settings.hostname@,
                };
            &&& host(*a.deploy_data) == host(*b.deploy_data)
            &&& a.deploy_defs.ssh_user@ == b.deploy_defs.ssh_user@
            &&& texts(a.deploy_data.merged_settings.ssh_opts@) == texts(
                b.deploy_data.merged_settings.ssh_opts@,
            )
            &&& a.deploy_data.merged_settings.fast_connection
                == b.deploy_data.merged_settings.fast_connection
            &&& a.check_sigs == b.check_sigs
        },
{
    let groups = copy_groups_of(datas@);
    law_copy_groups_partition(datas@);
    assert(!datas@[i].deploy_data.builds_remotely());
    let list = r->Ok_0@;
    assert(all_members(list) == groups);
    assert forall|k: int| 0 <= k < list.len() implies groups[k] == members(
        #[trigger] list[k],
    ) by {
        assert(all_members(list)[k] == members(list[k]));
    }
    if copy_route(datas@[i]) == copy_route(datas@[j]) {
        let k = choose|k: int| 0 <= k < groups.len() && (#[trigger] groups[k]).0 == copy_route(
            datas@[i],
        );
        assert(groups[k].1.contains(i) && groups[k].1.contains(j));
        assert(members(list[k]).1.contains(i));
    }
    if exists|k: int|
        0 <= k < list.len() && #[trigger] members(list[k]).1.contains(i) && members(
            list[k],
        ).1.contains(j) {
        let k = choose|k: int|
            0 <= k < list.len() && #[trigger] members(list[k]).1.contains(i) && members(
                list[k],
            ).1.contains(j);
        assert(groups[k].1.contains(i) && groups[k].1.contains(j));
        let indexes = list[k].indexes@;
        let shown = members(list[k]).1;
        let a = choose|a: int| 0 <= a < shown.len() && shown[a] == i;
        let b = choose|b: int| 0 <= b < shown.len() && shown[b] == j;
        assert(share_options(list[k], datas@));
        assert(indexes[a] as int == i && indexes[b] as int == j);
        assert(datas@[i].ssh_opts() == datas@[j].ssh_opts());
    }
}

/// What is built on its own machine is not copied there.
pub proof fn law_remote_builds_are_not_copied(
    datas: &[PushProfileData<'_>],
    r: Result<Vec<CopyGroup>, PushProfileError>,
    k: int,
    i: int,
)
    requires
        call_ensures(copy_groups, (datas,), r),
        r is Ok,
        0 <= k < r->Ok_0@.len(),
        0 <= i < datas@.len(),
        datas@[i].deploy_data.merged_settings.remote_build == Some(true),
    ensures
        !members(r->Ok_0@[k]).1.contains(i),
{
    law_copy_groups_partition(datas@);
    assert(all_members(r->Ok_0@)[k] == members(r->Ok_0@[k]));
    assert(datas@[i].deploy_data.builds_remotely());
}

/// A group that could not be copied is reported with the place that it was to go to
/// and what went wrong.
pub proof fn law_copy_error_names_the_target(
    datas: &[PushProfileData<'_>],
    group: CopyGroup,
    source: CommandError<CopyError>,
    r: PushProfileError,
)
    requires
        call_ensures(copy_group_error, (datas, &group, source), r),
        is_group_of(group, datas@),
    ensures
        r matches PushProfileError::CopyGroup { nodes, target, profiles, source: why } && {
            &&& target@ == "ssh://"@ + group.key.ssh_user@ + "@"@ + group.key.hostname@
            &&& *why == source
        },
{
}

/// A group that could not be copied is shown by the nodes and profiles that are in it: a
/// group of one by those of its member.
pub proof fn law_group_is_shown_by_its_members(
    datas: &[PushProfileData<'_>],
    group: CopyGroup,
    nodes: String,
    labels: String,
    i: int,
)
    requires
        call_ensures(copy_group_nodes, (datas, &group), nodes),
        call_ensures(copy_group_labels, (datas, &group), labels),
        is_group_of(group, datas@),
        group.indexes@ == seq![i as usize],
        0 <= i < datas@.len() <= usize::MAX,
    ensures
        nodes@ == datas@[i].deploy_data.node_name@,
        labels@ == "`"@ + datas@[i].deploy_data.node_name@ + "."@
            + datas@[i].deploy_data.profile_name@ + "`"@,
{
    let names = group.indexes@.map_values(|i: usize| datas@[i as int].deploy_data.node_name@);
    assert(names =~= seq![datas@[i].deploy_data.node_name@]);
    assert(names.no_duplicates());
    law_distinct_keeps_the_order(names, Seq::empty());
    let shown = group.indexes@.map_values(|i: usize| datas@[i as int].deploy_data.label());
    assert(shown =~= seq![datas@[i].deploy_data.label()]);
}

/// The profiles of a group are shown in their order, with a comma and a space between two
/// of them; a node that is shown already is not shown again.
pub proof fn law_members_are_shown_in_order(
    datas: &[PushProfileData<'_>],
    before: CopyGroup,
    all: CopyGroup,
    last: usize,
    nodes_before: String,
    nodes: String,
    labels_before: String,
    labels: String,
)
    requires
        call_ensures(copy_group_nodes, (datas, &before), nodes_before),
        call_ensures(copy_group_nodes, (datas, &all), nodes),
        call_ensures(copy_group_labels, (datas, &before), labels_before),
        call_ensures(copy_group_labels, (datas, &all), labels),
        is_group_of(all, datas@),
        is_group_of(before, datas@),
        all.indexes@ == before.indexes@.push(last),
        before.indexes@.len() > 0,
    ensures
        labels@ == labels_before@ + ", "@ + ("`"@ + datas@[last as int].deploy_data.node_name@
            + "."@ + datas@[last as int].deploy_data.profile_name@ + "`"@),
        (exists|i: int|
            0 <= i < before.indexes@.len() && datas@[#[trigger] before.indexes@[i] as
            int].deploy_data.node_name@ == datas@[last as int].deploy_data.node_name@)
            ==> nodes@ == nodes_before@,
        (forall|i: int|
            0 <= i < before.indexes@.len() ==> datas@[#[trigger] before.indexes@[i] as
            int].deploy_data.node_name@ != datas@[last as int].deploy_data.node_name@)
            ==> nodes@ == nodes_before@ + ", "@ + datas@[last as int].deploy_data.node_name@,
{
    let label = |i: usize| datas@[i as int].deploy_data.label();
    let name = |i: usize| datas@[i as int].deploy_data.node_name@;
    let shown = all.indexes@.map_values(label);
    assert(shown.drop_last() =~= before.indexes@.map_values(label));
    let names = before.indexes@.map_values(name);
    let own = datas@[last as int].deploy_data.node_name@;
    let all_names = all.indexes@.map_values(name);
    assert(all_names.drop_last() =~= names);
    assert(all_names.last() == own);
    law_distinct(names);
    if exists|i: int|
        0 <= i < before.indexes@.len() && datas@[#[trigger] before.indexes@[i] as
        int].deploy_data.node_name@ == own {
        let i = choose|i: int|
            0 <= i < before.indexes@.len() && datas@[#[trigger] before.indexes@[i] as
            int].deploy_data.node_name@ == own;
        assert(names[i] == own);
        assert(names.contains(own));
        assert(distinct(names).contains(own));
    } else {
        assert(!names.contains(own)) by {
            if names.contains(own) {
                let i = choose|i: int| 0 <= i < names.len() && names[i] == own;
                assert(datas@[before.indexes@[i] as int].deploy_data.node_name@ == own);
            }
        }
        assert(!distinct(names).contains(own));
        assert(distinct(all_names) == distinct(names).push(own));
        assert(names.contains(names[0]));
        assert(distinct(names).contains(names[0]));
        assert(distinct(names).push(own).drop_last() =~= distinct(names));
    }
}

/// The error about a group shows its nodes and its profiles as they are shown elsewhere.
pub proof fn law_copy_error_shows_the_group(
    datas: &[PushProfileData<'_>],
    group: CopyGroup,
    source: CommandError<CopyError>,
    shown_nodes: String,
    shown_profiles: String,
    r: PushProfileError,
)
    requires
        call_ensures(copy_group_error, (datas, &group, source), r),
        call_ensures(copy_group_nodes, (datas, &group), shown_nodes),
        call_ensures(copy_group_labels, (datas, &group), shown_profiles),
        is_group_of(group, datas@),
    ensures
        r matches PushProfileError::CopyGroup { nodes, target, profiles, source: why } && nodes@
            == shown_nodes@ && profiles@ == shown_profiles@,
{
}

} // verus!
