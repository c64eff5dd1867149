//! What has to be evaluated of each flake for the targets of a deployment.
use vstd::prelude::*;
use vstd::utf8::{decode_utf8, valid_utf8};

use crate::bytes::{utf8_fault, utf8_text};
use crate::cli::GetDeploymentDataError;
use crate::command::{command_line, Command, CommandLine, Stream};
use crate::data::Data;
use crate::deployment::DeployFlake;
use crate::names::{
    entry_set, law_lookup_after_set, lemma_position_of, lookup, NameMap, NameSet,
};
use crate::text::{join_texts, joined, opt_str, opt_text, texts};

verus! {

/// What is wanted of a node.
#[derive(Debug)]
pub struct NodeReq {
    pub all_profiles: bool,
    pub profiles: NameSet,
}

/// What is wanted of a flake.
#[derive(Debug)]
pub struct RepoReq {
    pub all_nodes: bool,
    pub nodes: NameMap<NodeReq>,
}

/// The target is the given profile of the given node of the given flake.
pub open spec fn is_target(
    flake: DeployFlake<'_>,
    repo: Seq<char>,
    node: Option<Seq<char>>,
    profile: Option<Seq<char>>,
) -> bool {
    flake.repo@ == repo && opt_text(flake.node) == node && opt_text(flake.profile) == profile
}

/// Some target is the given one.
pub open spec fn is_asked(
    flakes: Seq<DeployFlake<'_>>,
    repo: Seq<char>,
    node: Option<Seq<char>>,
    profile: Option<Seq<char>>,
) -> bool {
    exists|i: int| 0 <= i < flakes.len() && is_target(#[trigger] flakes[i], repo, node, profile)
}

/// Some target is in the given flake.
pub open spec fn repo_is_asked(flakes: Seq<DeployFlake<'_>>, repo: Seq<char>) -> bool {
    exists|i: int| 0 <= i < flakes.len() && (#[trigger] flakes[i]).repo@ == repo
}

/// Some target is on the given node of the given flake.
pub open spec fn node_is_asked(
    flakes: Seq<DeployFlake<'_>>,
    repo: Seq<char>,
    node: Seq<char>,
) -> bool {
    exists|i: int|
        0 <= i < flakes.len() && (#[trigger] flakes[i]).repo@ == repo && opt_text(flakes[i].node)
            == Some(node)
}

/// What is wanted of a node is what the targets ask of it.
pub open spec fn node_req_covers(
    req: Option<NodeReq>,
    flakes: Seq<DeployFlake<'_>>,
    repo: Seq<char>,
    node: Seq<char>,
) -> bool {
    match req {
        Some(req) => {
            &&& node_is_asked(flakes, repo, node)
            &&& req.all_profiles == is_asked(flakes, repo, Some(node), None)
            &&& forall|profile: Seq<char>| #[trigger]
                req.profiles@.contains(profile) <==> is_asked(
                    flakes,
                    repo,
                    Some(node),
                    Some(profile),
                )
        },
        None => !node_is_asked(flakes, repo, node),
    }
}

/// What is wanted of a flake is what the targets ask of it.
pub open spec fn repo_req_covers(
    req: Option<RepoReq>,
    flakes: Seq<DeployFlake<'_>>,
    repo: Seq<char>,
) -> bool {
    match req {
        Some(req) => {
            &&& repo_is_asked(flakes, repo)
            &&& req.all_nodes == is_asked(flakes, repo, None, None)
            &&& forall|node: Seq<char>|
                node_req_covers(#[trigger] lookup(req.nodes@, node), flakes, repo, node)
        },
        None => !repo_is_asked(flakes, repo),
    }
}

/// What is wanted of all flakes is what the targets ask of them: no more, and no
/// less.
pub open spec fn reqs_cover(
    reqs: Seq<(Seq<char>, RepoReq)>,
    flakes: Seq<DeployFlake<'_>>,
) -> bool {
    forall|repo: Seq<char>| repo_req_covers(#[trigger] lookup(reqs, repo), flakes, repo)
}

/// What is wanted of a node, after one more target on it.
pub open spec fn is_node_req_after(
    before: Option<NodeReq>,
    profile: Option<Seq<char>>,
    after: NodeReq,
) -> bool {
    &&& after.all_profiles == (profile is None || (before matches Some(b) && b.all_profiles))
    &&& forall|p: Seq<char>| #[trigger]
        after.profiles@.contains(p) <==> (profile == Some(p) || (before matches Some(b)
            && b.profiles@.contains(p)))
}

/// What is wanted of the nodes of a flake.
pub open spec fn wanted_nodes(req: Option<RepoReq>) -> Seq<(Seq<char>, NodeReq)> {
    match req {
        Some(req) => req.nodes@,
        None => Seq::empty(),
    }
}

/// What is wanted of the nodes of a flake, after one more target on one of them.
pub open spec fn are_nodes_after(
    before: Seq<(Seq<char>, NodeReq)>,
    node: Seq<char>,
    profile: Option<Seq<char>>,
    after: Seq<(Seq<char>, NodeReq)>,
) -> bool {
    exists|req: NodeReq|
        is_node_req_after(lookup(before, node), profile, req) && after == #[trigger] entry_set(
            before,
            node,
            req,
        )
}

/// What is wanted of a flake, after one more target in it.
pub open spec fn is_repo_req_after(
    before: Option<RepoReq>,
    node: Option<Seq<char>>,
    profile: Option<Seq<char>>,
    after: RepoReq,
) -> bool {
    &&& after.all_nodes == (node is None || (before matches Some(b) && b.all_nodes))
    &&& match node {
        Some(name) => are_nodes_after(wanted_nodes(before), name, profile, after.nodes@),
        None => after.nodes@ == wanted_nodes(before),
    }
}

/// Takes note of one more target on a node.
fn want_node(req: &mut RepoReq, node: &str, profile: Option<&str>)
    ensures
        final(req).all_nodes == old(req).all_nodes,
        are_nodes_after(old(req).nodes@, node@, opt_str(profile), final(req).nodes@),
{
    let ghost nodes = req.nodes@;
    proof {
        lemma_position_of(nodes, node@);
    }
    let i = req.nodes.or_insert(
        node.to_string(),
        NodeReq { all_profiles: false, profiles: NameSet::new() },
    );
    let ghost with_node = req.nodes@;
    proof {
        lemma_position_of(with_node, node@);
    }
    let node_req = req.nodes.value_at_mut(i);
    let ghost before = *node_req;
    match profile {
        Some(profile) => {
            let _new = node_req.profiles.insert(profile.to_string());
            proof {
                lemma_set_after_insert(before.profiles@, profile@, node_req.profiles@);
            }
        },
        None => {
            node_req.all_profiles = true;
        },
    }
    let ghost after = *node_req;
    assert(req.nodes@ =~= entry_set(nodes, node@, after));
}

proof fn lemma_set_after_insert(before: Seq<Seq<char>>, name: Seq<char>, after: Seq<Seq<char>>)
    requires
        after == (if before.contains(name) {
            before
        } else {
            before.push(name)
        }),
    ensures
        forall|p: Seq<char>| #[trigger] after.contains(p) <==> p == name || before.contains(p),
{
    assert forall|p: Seq<char>| #[trigger] after.contains(p) <==> p == name || before.contains(
        p,
    ) by {
        if before.contains(p) {
            let k = choose|k: int| 0 <= k < before.len() && before[k] == p;
            assert(after[k] == p);
        }
        if p == name && !before.contains(name) {
            assert(after[before.len() as int] == p);
        }
        if after.contains(p) {
            let k = choose|k: int| 0 <= k < after.len() && after[k] == p;
            if k < before.len() {
                assert(before[k] == p);
            }
        }
    }
}

proof fn lemma_asked_after(
    flakes: Seq<DeployFlake<'_>>,
    flake: DeployFlake<'_>,
)
    ensures
        forall|repo: Seq<char>, node: Option<Seq<char>>, profile: Option<Seq<char>>| #[trigger]
            is_asked(flakes.push(flake), repo, node, profile) <==> is_asked(
                flakes,
                repo,
                node,
                profile,
            ) || is_target(flake, repo, node, profile),
        forall|repo: Seq<char>| #[trigger]
            repo_is_asked(flakes.push(flake), repo) <==> repo_is_asked(flakes, repo)
                || flake.repo@ == repo,
        forall|repo: Seq<char>, node: Seq<char>| #[trigger]
            node_is_asked(flakes.push(flake), repo, node) <==> node_is_asked(flakes, repo, node)
                || (flake.repo@ == repo && opt_text(flake.node) == Some(node)),
{
    let after = flakes.push(flake);
    assert(after[flakes.len() as int] == flake);
    assert forall|i: int| 0 <= i < flakes.len() implies #[trigger] flakes[i] == after[i] by {}
    assert forall|repo: Seq<char>, node: Option<Seq<char>>, profile: Option<Seq<char>>| #[trigger]
        is_asked(after, repo, node, profile) <==> is_asked(flakes, repo, node, profile)
            || is_target(flake, repo, node, profile) by {
        if is_asked(after, repo, node, profile) {
            let i = choose|i: int|
                0 <= i < after.len() && is_target(#[trigger] after[i], repo, node, profile);
            if i < flakes.len() {
                assert(is_target(flakes[i], repo, node, profile));
            }
        }
        if is_asked(flakes, repo, node, profile) {
            let i = choose|i: int|
                0 <= i < flakes.len() && is_target(#[trigger] flakes[i], repo, node, profile);
            assert(is_target(after[i], repo, node, profile));
        }
    }
    assert forall|repo: Seq<char>| #[trigger] repo_is_asked(after, repo) <==> repo_is_asked(
        flakes,
        repo,
    ) || flake.repo@ == repo by {
        if repo_is_asked(flakes, repo) {
            let i = choose|i: int| 0 <= i < flakes.len() && (#[trigger] flakes[i]).repo@ == repo;
            assert(after[i].repo@ == repo);
        }
    }
    assert forall|repo: Seq<char>, node: Seq<char>| #[trigger] node_is_asked(
        after,
        repo,
        node,
    ) <==> node_is_asked(flakes, repo, node) || (flake.repo@ == repo && opt_text(flake.node)
        == Some(node)) by {
        if node_is_asked(flakes, repo, node) {
            let i = choose|i: int|
                0 <= i < flakes.len() && (#[trigger] flakes[i]).repo@ == repo && opt_text(
                    flakes[i].node,
                ) == Some(node);
            assert(after[i].repo@ == repo);
        }
    }
}

/// What is wanted of a flake still is what the targets ask of it, after both have
/// got one more target.
proof fn lemma_repo_covers_after(
    before: Option<RepoReq>,
    flakes: Seq<DeployFlake<'_>>,
    flake: DeployFlake<'_>,
    after: RepoReq,
)
    requires
        repo_req_covers(before, flakes, flake.repo@),
        is_repo_req_after(before, opt_text(flake.node), opt_text(flake.profile), after),
        flake.node is Some || flake.profile is None,
    ensures
        repo_req_covers(Some(after), flakes.push(flake), flake.repo@),
{
    let repo = flake.repo@;
    let all = flakes.push(flake);
    let nodes = wanted_nodes(before);
    lemma_asked_after(flakes, flake);
    if before is None {
        assert forall|node: Option<Seq<char>>, profile: Option<Seq<char>>| !(#[trigger] is_asked(
            flakes,
            repo,
            node,
            profile,
        )) by {}
        assert forall|node: Seq<char>| !(#[trigger] node_is_asked(flakes, repo, node)) by {}
    }
    assert forall|node: Seq<char>| node_req_covers(
        #[trigger] lookup(nodes, node),
        flakes,
        repo,
        node,
    ) by {
        if before is None {
            lemma_position_of(nodes, node);
        }
    }
    match opt_text(flake.node) {
        Some(name) => {
            let req = choose|req: NodeReq|
                is_node_req_after(lookup(nodes, name), opt_text(flake.profile), req)
                    && after.nodes@ == #[trigger] entry_set(nodes, name, req);
            assert forall|node: Seq<char>| node_req_covers(
                #[trigger] lookup(after.nodes@, node),
                all,
                repo,
                node,
            ) by {
                law_lookup_after_set(nodes, name, req, node);
                assert(node_req_covers(lookup(nodes, node), flakes, repo, node));
                if node == name && lookup(nodes, node) is None {
                    assert forall|profile: Option<Seq<char>>| !(#[trigger] is_asked(
                        flakes,
                        repo,
                        Some(node),
                        profile,
                    )) by {
                        if is_asked(flakes, repo, Some(node), profile) {
                            let i = choose|i: int|
                                0 <= i < flakes.len() && is_target(
                                    #[trigger] flakes[i],
                                    repo,
                                    Some(node),
                                    profile,
                                );
                            assert(flakes[i].repo@ == repo);
                        }
                    }
                }
            }
        },
        None => {
            assert forall|node: Seq<char>| node_req_covers(
                #[trigger] lookup(after.nodes@, node),
                all,
                repo,
                node,
            ) by {
                assert(node_req_covers(lookup(nodes, node), flakes, repo, node));
            }
        },
    }
}

/// What has to be evaluated of each flake: for each flake that a target is in,
/// whether all of its nodes are wanted, and for each node that a target is on,
/// whether all of its profiles are wanted, and which ones are.
pub fn build_repo_reqs(flakes: &[DeployFlake<'_>]) -> (r: Result<
    NameMap<RepoReq>,
    GetDeploymentDataError,
>)
    ensures
        match r {
            Ok(reqs) => {
                &&& forall|i: int|
                    0 <= i < flakes@.len() ==> (#[trigger] flakes@[i]).node is Some
                        || flakes@[i].profile is None
                &&& reqs_cover(reqs@, flakes@)
            },
            Err(e) => {
                &&& exists|i: int|
                    0 <= i < flakes@.len() && (#[trigger] flakes@[i]).node is None
                        && flakes@[i].profile is Some
                &&& e is ProfileNoNode
            },
        },
{
    let mut repo_reqs: NameMap<RepoReq> = NameMap::new();
    let mut i: usize = 0;
    proof {
        assert(flakes@.take(0) =~= Seq::empty());
        assert forall|repo: Seq<char>| repo_req_covers(
            #[trigger] lookup(repo_reqs@, repo),
            flakes@.take(0),
            repo,
        ) by {
            lemma_position_of(repo_reqs@, repo);
        }
    }
    while i < flakes.len()
        invariant
            i <= flakes@.len(),
            forall|j: int|
                0 <= j < i ==> (#[trigger] flakes@[j]).node is Some || flakes@[j].profile is None,
            reqs_cover(repo_reqs@, flakes@.take(i as int)),
        decreases flakes@.len() - i,
    {
        let f = &flakes[i];
        if f.node.is_none() && f.profile.is_some() {
            return Err(GetDeploymentDataError::ProfileNoNode);
        }
        let ghost before = repo_reqs@;
        let ghost prev = lookup(before, f.repo@);
        proof {
            lemma_position_of(before, f.repo@);
        }
        let k = repo_reqs.or_insert(
            f.repo.to_string(),
            RepoReq { all_nodes: false, nodes: NameMap::new() },
        );
        proof {
            lemma_position_of(repo_reqs@, f.repo@);
        }
        let req = repo_reqs.value_at_mut(k);
        match (&f.node, &f.profile) {
            (Some(node), Some(profile)) => {
                want_node(req, node.as_str(), Some(profile.as_str()));
            },
            (Some(node), None) => {
                want_node(req, node.as_str(), None);
            },
            _ => {
                req.all_nodes = true;
            },
        }
        let ghost after = *req;
        proof {
            let all = flakes@.take(i + 1);
            let done = flakes@.take(i as int);
            assert(all =~= done.push(*f));
            assert(repo_reqs@ =~= entry_set(before, f.repo@, after));
            assert(is_repo_req_after(prev, opt_text(f.node), opt_text(f.profile), after));
            assert(repo_req_covers(prev, done, f.repo@));
            lemma_repo_covers_after(prev, done, *f, after);
            lemma_asked_after(done, *f);
            assert forall|repo: Seq<char>| repo_req_covers(
                #[trigger] lookup(repo_reqs@, repo),
                all,
                repo,
            ) by {
                law_lookup_after_set(before, f.repo@, after, repo);
                if repo != f.repo@ {
                    assert(repo_req_covers(lookup(before, repo), done, repo));
                    if lookup(before, repo) is Some {
                        let r0 = lookup(before, repo)->0;
                        assert forall|node: Seq<char>| node_req_covers(
                            #[trigger] lookup(r0.nodes@, node),
                            all,
                            repo,
                            node,
                        ) by {
                            assert(node_req_covers(lookup(r0.nodes@, node), done, repo, node));
                        }
                    }
                }
            }
        }
        i += 1;
    }
    assert(flakes@.take(i as int) =~= flakes@);
    Ok(repo_reqs)
}

/// The Nix function that leaves of a deployment what is wanted.
pub const FILTER_EXPR: &'static str = r#"
req: deploy:
let
  filterNode = name: node:
    if builtins.hasAttr name req.nodes then
      let
        nReq = req.nodes.${name};
      in
        if nReq.all_profiles then
          node
        else
          node // {
            profiles = builtins.intersectAttrs
              (builtins.listToAttrs (map (p: { name = p; value = true; }) nReq.profiles))
              node.profiles;
          }
    else
      {};
in
  if req.all_nodes then
    deploy
  else
    deploy // {
      nodes = builtins.intersectAttrs
        (builtins.listToAttrs (map (n: { name = n; value = true; }) (builtins.attrNames req.nodes)))
        (builtins.mapAttrs filterNode deploy.nodes);
    }
"#;

/// The options that let Nix work with flakes.
pub open spec fn flake_options() -> Seq<Seq<char>> {
    seq![
        "--extra-experimental-features"@,
        "nix-command"@,
        "--extra-experimental-features"@,
        "flakes"@,
    ]
}

/// The command with the options that let Nix work with flakes.
pub fn add_nix_command_and_flakes(command: Command) -> (r: Command)
    ensures
        r@ == command@.with_args(flake_options()),
{
    let r = command.arg("--extra-experimental-features").arg("nix-command").arg(
        "--extra-experimental-features",
    ).arg("flakes");
    assert(r@.args =~= command@.args + flake_options());
    r
}

/// The command line that evaluates the deployment of a flake, of which
/// `request` is wanted, in JSON. Without flakes all of it is evaluated.
pub open spec fn evaluation_line(
    supports_flakes: bool,
    repo: Seq<char>,
    request: Seq<char>,
    extra_build_args: Seq<Seq<char>>,
) -> CommandLine {
    if supports_flakes {
        command_line(
            "nix"@,
            flake_options() + seq![
                "eval"@,
                "--json"@,
                repo + "#deploy"@,
                "--apply"@,
                "("@ + FILTER_EXPR@ + ") (builtins.fromJSON ''"@ + request + "'')"@,
            ] + extra_build_args,
        )
    } else {
        command_line(
            "nix-instantiate"@,
            seq![
                "--strict"@,
                "--read-write-mode"@,
                "--json"@,
                "--eval"@,
                "-E"@,
                "let r = import "@ + repo
                    + "/.; in if builtins.isFunction r then (r {}).deploy else r.deploy"@,
            ] + extra_build_args,
        )
    }.with_streams(None, Some(Stream::Piped), None)
}

/// The command that evaluates the deployment of a flake, of which `request` is
/// wanted: a `RepoReq` in JSON.
pub fn evaluation_command(
    supports_flakes: bool,
    repo: &str,
    request: &str,
    extra_build_args: &[String],
) -> (r: Command)
    ensures
        r@ == evaluation_line(supports_flakes, repo@, request@, texts(extra_build_args@)),
{
    let command = if supports_flakes {
        let apply = "(".to_string().concat(FILTER_EXPR).concat(") (builtins.fromJSON ''").concat(
            request,
        ).concat("'')");
        add_nix_command_and_flakes(Command::new("nix")).arg("eval").arg("--json").arg(
            repo.to_string().concat("#deploy").as_str(),
        ).arg("--apply").arg(apply.as_str())
    } else {
        let expr = "let r = import ".to_string().concat(repo).concat(
            "/.; in if builtins.isFunction r then (r {}).deploy else r.deploy",
        );
        Command::new("nix-instantiate").arg("--strict").arg("--read-write-mode").arg("--json").arg(
            "--eval",
        ).arg("-E").arg(expr.as_str())
    };
    let r = command.args(extra_build_args).streams(None, Some(Stream::Piped), None);
    assert(r@.args =~= evaluation_line(
        supports_flakes,
        repo@,
        request@,
        texts(extra_build_args@),
    ).args);
    r
}

/// The JSON text that an evaluation printed, by how the evaluation exited.
pub fn evaluated_text(code: Option<i32>, stdout: &[u8]) -> (r: Result<
    String,
    GetDeploymentDataError,
>)
    ensures
        if code != Some(0i32) {
            r matches Err(GetDeploymentDataError::NixEvalExit(c)) && c == code
        } else if !valid_utf8(stdout@) {
            r matches Err(GetDeploymentDataError::DecodeUtf8(fault)) && fault@ == utf8_fault(
                stdout@,
            )
        } else {
            r matches Ok(text) && text@ == decode_utf8(stdout@)
        },
{
    match code {
        Some(0) => {},
        code => return Err(GetDeploymentDataError::NixEvalExit(code)),
    }
    match utf8_text(stdout) {
        Ok(text) => Ok(text),
        Err(err) => Err(GetDeploymentDataError::DecodeUtf8(err)),
    }
}

/// The data of each target, by the data of the flakes. Targets in the same flake
/// share its data, in which all that any of them asks for is evaluated.
pub fn data_of_targets<'a>(
    flakes: &[DeployFlake<'_>],
    repo_data: &'a NameMap<Data>,
) -> (r: Vec<&'a Data>)
    requires
        forall|i: int|
            0 <= i < flakes@.len() ==> lookup(repo_data@, (#[trigger] flakes@[i]).repo@) is Some,
    ensures
        r@.len() == flakes@.len(),
        forall|i: int|
            0 <= i < flakes@.len() ==> lookup(repo_data@, (#[trigger] flakes@[i]).repo@) == Some(
                *r@[i],
            ),
{
    let mut output: Vec<&'a Data> = Vec::new();
    let mut i: usize = 0;
    while i < flakes.len()
        invariant
            i <= flakes@.len(),
            output@.len() == i,
            forall|j: int|
                0 <= j < flakes@.len() ==> lookup(
                    repo_data@,
                    (#[trigger] flakes@[j]).repo@,
                ) is Some,
            forall|j: int|
                0 <= j < i ==> lookup(repo_data@, (#[trigger] flakes@[j]).repo@) == Some(
                    *output@[j],
                ),
        decreases flakes@.len() - i,
    {
        assert(lookup(repo_data@, flakes@[i as int].repo@) is Some);
        if let Some(data) = repo_data.get(flakes[i].repo) {
            output.push(data);
        }
        i += 1;
    }
    output
}

/// How a target is shown.
pub open spec fn target_label(flake: DeployFlake<'_>) -> Seq<char> {
    let name = match (flake.node, flake.profile) {
        (Some(node), Some(profile)) => flake.repo@ + "#"@ + node@ + "."@ + profile@,
        (Some(node), None) => flake.repo@ + "#"@ + node@,
        (None, _) => flake.repo@,
    };
    "`"@ + name + "`"@
}

/// How the targets are shown.
pub fn targets_label(flakes: &[DeployFlake<'_>]) -> (r: String)
    ensures
        r@ == joined(flakes@.map_values(|flake: DeployFlake<'_>| target_label(flake)), ", "@),
{
    let mut labels: Vec<String> = Vec::new();
    let mut i: usize = 0;
    while i < flakes.len()
        invariant
            i <= flakes@.len(),
            labels@.len() == i,
            forall|j: int| 0 <= j < i ==> (#[trigger] labels@[j])@ == target_label(flakes@[j]),
        decreases flakes@.len() - i,
    {
        let flake = &flakes[i];
        let mut name = flake.repo.to_string();
        if let Some(node) = &flake.node {
            name.append("#");
            name.append(node.as_str());
            if let Some(profile) = &flake.profile {
                name.append(".");
                name.append(profile.as_str());
            }
        }
        labels.push("`".to_string().concat(name.as_str()).concat("`"));
        i += 1;
    }
    assert(texts(labels@) =~= flakes@.map_values(|flake: DeployFlake<'_>| target_label(flake)));
    join_texts(labels.as_slice(), ", ")
}

/// Evaluating what is wanted of the flakes gives each target data: there is a
/// request for the flake of each target.
pub proof fn law_every_target_is_requested(
    reqs: Seq<(Seq<char>, RepoReq)>,
    flakes: Seq<DeployFlake<'_>>,
    i: int,
)
    requires
        reqs_cover(reqs, flakes),
        0 <= i < flakes.len(),
    ensures
        lookup(reqs, flakes[i].repo@) matches Some(req) && match opt_text(flakes[i].node) {
            None => opt_text(flakes[i].profile) is None ==> req.all_nodes,
            Some(node) => lookup(req.nodes@, node) matches Some(node_req) && match opt_text(
                flakes[i].profile,
            ) {
                None => node_req.all_profiles,
                Some(profile) => node_req.profiles@.contains(profile),
            },
        },
{
    let flake = flakes[i];
    let repo = flake.repo@;
    assert(repo_req_covers(lookup(reqs, repo), flakes, repo));
    assert(repo_is_asked(flakes, repo));
    assert(is_target(flakes[i], repo, opt_text(flake.node), opt_text(flake.profile)));
    assert(is_asked(flakes, repo, opt_text(flake.node), opt_text(flake.profile)));
    let req = lookup(reqs, repo)->0;
    if let Some(node) = opt_text(flake.node) {
        assert(node_req_covers(lookup(req.nodes@, node), flakes, repo, node));
        assert(node_is_asked(flakes, repo, node));
    }
}

/// Nothing is evaluated but what some target asks for: a whole flake only for a target
/// that names no node, a whole node only for a target that names no profile of it, and a
/// profile only for a target that names it.
pub proof fn law_nothing_else_is_requested(
    flakes: &[DeployFlake<'_>],
    r: Result<NameMap<RepoReq>, GetDeploymentDataError>,
    repo: Seq<char>,
    node: Seq<char>,
    profile: Seq<char>,
)
    requires
        call_ensures(build_repo_reqs, (flakes,), r),
        r is Ok,
        lookup(r->Ok_0@, repo) is Some,
    ensures
        ({
            let req = lookup(r->Ok_0@, repo)->0;
            &&& exists|i: int| 0 <= i < flakes@.len() && (#[trigger] flakes@[i]).repo@ == repo
            &&& req.all_nodes ==> exists|i: int|
                0 <= i < flakes@.len() && (#[trigger] flakes@[i]).repo@ == repo && flakes@[i].node
                    is None
            &&& lookup(req.nodes@, node) is Some ==> exists|i: int|
                0 <= i < flakes@.len() && (#[trigger] flakes@[i]).repo@ == repo && opt_text(
                    flakes@[i].node,
                ) == Some(node)
            &&& lookup(req.nodes@, node) is Some && lookup(req.nodes@, node)->0.all_profiles
                ==> exists|i: int|
                0 <= i < flakes@.len() && (#[trigger] flakes@[i]).repo@ == repo && opt_text(
                    flakes@[i].node,
                ) == Some(node) && flakes@[i].profile is None
            &&& lookup(req.nodes@, node) is Some && lookup(
                req.nodes@,
                node,
            )->0.profiles@.contains(profile) ==> exists|i: int|
                0 <= i < flakes@.len() && (#[trigger] flakes@[i]).repo@ == repo && opt_text(
                    flakes@[i].node,
                ) == Some(node) && opt_text(flakes@[i].profile) == Some(profile)
        }),
{
    let req = lookup(r->Ok_0@, repo)->0;
    let all = flakes@;
    assert(repo_req_covers(lookup(r->Ok_0@, repo), all, repo));
    assert(repo_is_asked(all, repo));
    if req.all_nodes {
        assert(is_asked(all, repo, None, None));
        let i = choose|i: int| 0 <= i < all.len() && is_target(#[trigger] all[i], repo, None, None);
        assert(all[i].node is None);
    }
    if lookup(req.nodes@, node) is Some {
        assert(node_req_covers(lookup(req.nodes@, node), all, repo, node));
        let node_req = lookup(req.nodes@, node)->0;
        assert(node_is_asked(all, repo, node));
        if node_req.all_profiles {
            let i = choose|i: int|
                0 <= i < all.len() && is_target(#[trigger] all[i], repo, Some(node), None);
            assert(all[i].profile is None);
        }
        if node_req.profiles@.contains(profile) {
            assert(is_asked(all, repo, Some(node), Some(profile)));
            let i = choose|i: int|
                0 <= i < all.len() && is_target(#[trigger] all[i], repo, Some(node), Some(profile));
            assert(opt_text(all[i].profile) == Some(profile));
        }
    }
}

/// Targets are understood exactly if none of them names a profile of no node, and what
/// each of them asks for is evaluated.
pub proof fn law_all_that_is_asked_for_is_requested(
    flakes: &[DeployFlake<'_>],
    r: Result<NameMap<RepoReq>, GetDeploymentDataError>,
    i: int,
)
    requires
        call_ensures(build_repo_reqs, (flakes,), r),
        0 <= i < flakes@.len(),
    ensures
        flakes@[i].node is None && flakes@[i].profile is Some ==> r matches Err(
            GetDeploymentDataError::ProfileNoNode,
        ),
        r is Err ==> exists|k: int|
            0 <= k < flakes@.len() && (#[trigger] flakes@[k]).node is None && flakes@[k].profile
                is Some,
        r is Ok ==> {
            let req = lookup(r->Ok_0@, flakes@[i].repo@);
            &&& req is Some
            &&& flakes@[i].node is None ==> req->0.all_nodes
            &&& flakes@[i].node matches Some(node) ==> {
                let wanted = lookup(req->0.nodes@, node@);
                &&& wanted is Some
                &&& flakes@[i].profile is None ==> wanted->0.all_profiles
                &&& flakes@[i].profile matches Some(profile) ==> wanted->0.profiles@.contains(
                    profile@,
                )
            }
        },
{
    if r is Ok {
        law_every_target_is_requested(r->Ok_0@, flakes@, i);
    }
}

/// An evaluation is of the flake itself, and of what is wanted of it, in JSON; arguments
/// that are given come last. What it prints is read.
pub proof fn law_evaluation_is_of_the_flake(
    supports_flakes: bool,
    repo: &str,
    request: &str,
    extra_build_args: &[String],
    r: Command,
)
    requires
        call_ensures(evaluation_command, (supports_flakes, repo, request, extra_build_args), r),
    ensures
        supports_flakes ==> {
            &&& r.program@ == "nix"@
            &&& r@.args.take(4) == seq![
                "--extra-experimental-features"@,
                "nix-command"@,
                "--extra-experimental-features"@,
                "flakes"@,
            ]
            &&& r@.args[4] == "eval"@
            &&& r@.args[5] == "--json"@
            &&& r@.args[6] == repo@ + "#deploy"@
            &&& r@.args[7] == "--apply"@
            &&& r@.args[8] == "("@ + FILTER_EXPR@ + ") (builtins.fromJSON ''"@ + request@ + "'')"@
            &&& r@.args.skip(9) == texts(extra_build_args@)
        },
        !supports_flakes ==> {
            &&& r.program@ == "nix-instantiate"@
            &&& r@.args.take(5) == seq![
                "--strict"@,
                "--read-write-mode"@,
                "--json"@,
                "--eval"@,
                "-E"@,
            ]
            &&& r@.args[5] == "let r = import "@ + repo@
                + "/.; in if builtins.isFunction r then (r {}).deploy else r.deploy"@
            &&& r@.args.skip(6) == texts(extra_build_args@)
        },
        r.stdout == Some(Stream::Piped),
{
    if supports_flakes {
        assert(r@.args.skip(9) =~= texts(extra_build_args@));
    } else {
        assert(r@.args[2] == "--json"@);
        assert(r@.args.skip(6) =~= texts(extra_build_args@));
    }
}

/// An evaluation that exited with zero gives what it printed, and any other one its exit
/// code, whatever it printed.
pub proof fn law_evaluation_is_judged_by_its_exit(
    code: Option<i32>,
    stdout: &[u8],
    r: Result<String, GetDeploymentDataError>,
)
    requires
        call_ensures(evaluated_text, (code, stdout), r),
    ensures
        code != Some(0i32) ==> (r matches Err(GetDeploymentDataError::NixEvalExit(c)) && c
            == code),
        code == Some(0i32) ==> {
            &&& r is Ok <==> valid_utf8(stdout@)
            &&& r is Ok ==> r->Ok_0@ == decode_utf8(stdout@)
            &&& r is Err ==> r->Err_0 is DecodeUtf8
        },
{
}

/// Each target gets the data of its own flake.
pub proof fn law_targets_get_the_data_of_their_flakes(
    flakes: &[DeployFlake<'_>],
    repo_data: NameMap<Data>,
    r: Vec<&Data>,
    i: int,
)
    requires
        call_ensures(data_of_targets, (flakes, &repo_data), r),
        forall|k: int|
            0 <= k < flakes@.len() ==> lookup(repo_data@, (#[trigger] flakes@[k]).repo@) is Some,
        0 <= i < flakes@.len(),
    ensures
        r@.len() == flakes@.len(),
        lookup(repo_data@, flakes@[i].repo@) == Some(*r@[i]),
{
}

/// A target is shown as it is written: the flake, and behind a `#` the node and the
/// profile where they are named.
pub proof fn law_target_is_shown_as_written(flake: DeployFlake<'_>, r: String, list: &[DeployFlake<'_>])
    requires
        list@ == seq![flake],
        call_ensures(targets_label, (list,), r),
    ensures
        flake.node is None ==> r@ == "`"@ + flake.repo@ + "`"@,
        flake.node is Some && flake.profile is None ==> r@ == "`"@ + (flake.repo@ + "#"@
            + flake.node->0@) + "`"@,
        flake.node is Some && flake.profile is Some ==> r@ == "`"@ + (flake.repo@ + "#"@
            + flake.node->0@ + "."@ + flake.profile->0@) + "`"@,
{
    let labels = list@.map_values(|flake: DeployFlake<'_>| target_label(flake));
    assert(labels.len() == 1);
    assert(labels[0] == target_label(flake));
}

/// Targets are shown in their order, with a comma and a space between two of them.
pub proof fn law_targets_are_shown_in_order(
    before: &[DeployFlake<'_>],
    last: &[DeployFlake<'_>],
    all: &[DeployFlake<'_>],
    shown_before: String,
    shown_last: String,
    shown: String,
)
    requires
        call_ensures(targets_label, (before,), shown_before),
        call_ensures(targets_label, (last,), shown_last),
        call_ensures(targets_label, (all,), shown),
        before@.len() > 0,
        last@.len() == 1,
        all@ == before@ + last@,
    ensures
        shown@ == shown_before@ + ", "@ + shown_last@,
{
    let label = |flake: DeployFlake<'_>| target_label(flake);
    assert(all@.map_values(label).drop_last() =~= before@.map_values(label));
    assert(all@.map_values(label).last() == last@.map_values(label)[0]);
    assert(joined(last@.map_values(label), ", "@) == last@.map_values(label)[0]);
}

} // verus!
