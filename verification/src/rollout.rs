//! The course of a deployment: agreeing to it, building, copying, and deploying
//! one profile after the other, with what is taken back where one fails.
use vstd::prelude::*;

use crate::cli::{PromptDeploymentError, RunDeployError};
use crate::deploy::{DeployProfileError, RevokeProfileError};
use crate::deployment::{switch, switched, CmdOverrides, DeployData, DeployDefs, DeployFlake};
use crate::push::PushProfileError;
use crate::text::{join_texts, joined, texts};

verus! {

/// A profile that is deployed, with the target that asked for it.
pub type DeployPart<'a> = (&'a DeployFlake<'a>, DeployData<'a>, DeployDefs);

/// What is to be done next. Positions are those of the profiles.
#[derive(Debug, PartialEq, Eq, Structural, Clone, Copy)]
pub enum Stage {
    /// To show what is going to be deployed, and to ask where that is wanted.
    Agree,
    /// To build all profiles.
    Build,
    /// To open a connection to the machine of a profile, for all that follows.
    Connect(usize),
    /// To copy all closures.
    Push,
    /// To deploy a profile.
    Deploy(usize),
    /// To revoke a profile that was deployed, because another one failed.
    Revoke { failed: usize, profile: usize },
    /// Nothing.
    Done,
}

/// The course of a deployment, as far as it is settled before it starts.
#[derive(Debug)]
pub struct Rollout {
    node_names: Vec<String>,
    auto_rollback: Vec<bool>,
    rolls_back: bool,
    shares_connections: bool,
}

/// The first position from `from` on, and before `end`, at which a flag is set.
pub open spec fn next_set(flags: Seq<bool>, from: int, end: int) -> Option<int>
    decreases end - from,
{
    if from >= end {
        None
    } else if flags[from] {
        Some(from)
    } else {
        next_set(flags, from + 1, end)
    }
}

impl Rollout {
    /// The names of the nodes of the profiles.
    pub closed spec fn nodes(&self) -> Seq<Seq<char>> {
        texts(self.node_names@)
    }

    /// For each profile, whether it may be taken back.
    pub closed spec fn revocable(&self) -> Seq<bool> {
        self.auto_rollback@
    }

    /// Profiles that were deployed are revoked where another one fails.
    pub closed spec fn revokes(&self) -> bool {
        self.rolls_back
    }

    /// One connection is used for all that is done on a machine.
    pub closed spec fn shares(&self) -> bool {
        self.shares_connections
    }

    /// What is known of each profile.
    #[verifier::type_invariant]
    pub closed spec fn wf(&self) -> bool {
        self.node_names@.len() == self.auto_rollback@.len()
    }

    /// What follows on a stage that succeeded, where none has failed.
    pub open spec fn after(&self, stage: Stage) -> Stage {
        let n = self.nodes().len();
        match stage {
            Stage::Agree => Stage::Build,
            Stage::Build => if self.shares() && n > 0 {
                Stage::Connect(0)
            } else {
                Stage::Push
            },
            Stage::Connect(profile) => if profile + 1 < n {
                Stage::Connect((profile + 1) as usize)
            } else {
                Stage::Push
            },
            Stage::Push => if n > 0 {
                Stage::Deploy(0)
            } else {
                Stage::Done
            },
            Stage::Deploy(profile) => if profile + 1 < n {
                Stage::Deploy((profile + 1) as usize)
            } else {
                Stage::Done
            },
            _ => Stage::Done,
        }
    }

    /// How many stages can follow on a stage at most, where none fails.
    pub open spec fn stages_left(&self, stage: Stage) -> int {
        let n = self.nodes().len() as int;
        match stage {
            Stage::Agree => 2 * n + 5,
            Stage::Build => 2 * n + 4,
            Stage::Connect(profile) => n + 3 + if profile < n {
                n - profile
            } else {
                0
            },
            Stage::Push => n + 2,
            Stage::Deploy(profile) => 1 + if profile < n {
                n - profile
            } else {
                0
            },
            _ => 0,
        }
    }

    /// The stages from the given one on, where none fails.
    pub open spec fn course(&self, stage: Stage) -> Seq<Stage>
        decreases self.stages_left(stage),
        when self.nodes().len() <= usize::MAX
    {
        match stage {
            Stage::Done => seq![stage],
            Stage::Revoke { .. } => seq![stage],
            _ => seq![stage] + self.course(self.after(stage)),
        }
    }

    /// The course of the deployment of the given profiles. A setting of the
    /// command line against taking anything back holds for all of them.
    pub fn new(
        parts: &[DeployPart<'_>],
        cmd_overrides: &CmdOverrides,
        rollback_succeeded: bool,
        ssh_multiplexing: bool,
    ) -> (r: Self)
        ensures
            r.nodes() == parts@.map_values(|part: DeployPart<'_>| part.1.node_name@),
            r.revocable() == parts@.map_values(
                |part: DeployPart<'_>| switched(part.1.merged_settings.auto_rollback, true),
            ),
            r.revokes() == (rollback_succeeded && switched(cmd_overrides.auto_rollback, true)),
            r.shares() == ssh_multiplexing,
    {
        let mut node_names: Vec<String> = Vec::new();
        let mut auto_rollback: Vec<bool> = Vec::new();
        let mut i: usize = 0;
        while i < parts.len()
            invariant
                i <= parts@.len(),
                node_names@.len() == i,
                auto_rollback@.len() == i,
                forall|j: int| 0 <= j < i ==> (#[trigger] node_names@[j])@ == parts@[j].1.node_name@,
                forall|j: int|
                    0 <= j < i ==> (#[trigger] auto_rollback@[j]) == switched(
                        parts@[j].1.merged_settings.auto_rollback,
                        true,
                    ),
            decreases parts@.len() - i,
        {
            node_names.push(parts[i].1.node_name.to_string());
            auto_rollback.push(switch(parts[i].1.merged_settings.auto_rollback, true));
            i += 1;
        }
        assert(texts(node_names@) =~= parts@.map_values(
            |part: DeployPart<'_>| part.1.node_name@,
        ));
        assert(auto_rollback@ =~= parts@.map_values(
            |part: DeployPart<'_>| switched(part.1.merged_settings.auto_rollback, true),
        ));
        Rollout {
            node_names,
            auto_rollback,
            rolls_back: rollback_succeeded && switch(cmd_overrides.auto_rollback, true),
            shares_connections: ssh_multiplexing,
        }
    }

    /// What is done first.
    pub fn start(&self) -> (r: Stage)
        ensures
            r == Stage::Agree,
    {
        Stage::Agree
    }

    /// What follows on the question whether to deploy, where one was asked.
    pub fn agreed(&self, outcome: Result<(), PromptDeploymentError>) -> (r: Result<
        Stage,
        RunDeployError,
    >)
        ensures
            r == (match outcome {
                Ok(()) => Ok::<_, RunDeployError>(self.after(Stage::Agree)),
                Err(e) => Err(RunDeployError::PromptDeployment(e)),
            }),
    {
        match outcome {
            Ok(()) => Ok(Stage::Build),
            Err(e) => Err(RunDeployError::PromptDeployment(e)),
        }
    }

    /// What follows on showing what is going to be deployed, where no question
    /// was asked.
    pub fn shown(&self, outcome: Result<(), String>) -> (r: Result<Stage, RunDeployError>)
        ensures
            r == (match outcome {
                Ok(()) => Ok::<_, RunDeployError>(self.after(Stage::Agree)),
                Err(e) => Err(RunDeployError::TomlFormat(e)),
            }),
    {
        match outcome {
            Ok(()) => Ok(Stage::Build),
            Err(e) => Err(RunDeployError::TomlFormat(e)),
        }
    }

    /// What follows on building all profiles.
    pub fn built(&self, outcome: Result<(), PushProfileError>) -> (r: Result<Stage, RunDeployError>)
        ensures
            match outcome {
                Ok(()) => r == Ok::<_, RunDeployError>(self.after(Stage::Build)),
                Err(e) => r matches Err(RunDeployError::BuildProfile(nodes, why)) && why == e
                    && nodes@ == joined(self.nodes(), ", "@),
            },
    {
        match outcome {
            Ok(()) => {
                if self.shares_connections && self.node_names.len() > 0 {
                    Ok(Stage::Connect(0))
                } else {
                    Ok(Stage::Push)
                }
            },
            Err(e) => Err(
                RunDeployError::BuildProfile(join_texts(self.node_names.as_slice(), ", "), e),
            ),
        }
    }

    /// What follows on opening the connection for a profile.
    pub fn connected(&self, profile: usize, outcome: Result<(), String>) -> (r: Result<
        Stage,
        RunDeployError,
    >)
        requires
            profile < self.nodes().len(),
        ensures
            match outcome {
                Ok(()) => r == Ok::<_, RunDeployError>(self.after(Stage::Connect(profile))),
                Err(e) => r == Err::<Stage, _>(RunDeployError::SshControlMaster(e)),
            },
    {
        match outcome {
            Ok(()) => {
                assert(profile < self.node_names.len());
                if profile + 1 < self.node_names.len() {
                    Ok(Stage::Connect(profile + 1))
                } else {
                    Ok(Stage::Push)
                }
            },
            Err(e) => Err(RunDeployError::SshControlMaster(e)),
        }
    }

    /// What follows on copying all closures.
    pub fn pushed(&self, outcome: Result<(), PushProfileError>) -> (r: Result<
        Stage,
        RunDeployError,
    >)
        ensures
            match outcome {
                Ok(()) => r == Ok::<_, RunDeployError>(self.after(Stage::Push)),
                Err(e) => r matches Err(RunDeployError::PushProfile(nodes, why)) && why == e
                    && nodes@ == (match e {
                    PushProfileError::CopyGroup { nodes: some, .. } => some@,
                    _ => joined(self.nodes(), ", "@),
                }),
            },
    {
        match outcome {
            Ok(()) => {
                if self.node_names.len() > 0 {
                    Ok(Stage::Deploy(0))
                } else {
                    Ok(Stage::Done)
                }
            },
            Err(e) => {
                let nodes = match e.node_context() {
                    Some(nodes) => nodes.to_string(),
                    None => join_texts(self.node_names.as_slice(), ", "),
                };
                Err(RunDeployError::PushProfile(nodes, e))
            },
        }
    }

    /// What follows on the failure of a profile, once all profiles before `from`
    /// that are to be revoked have been.
    pub open spec fn is_revoking(
        &self,
        failed: usize,
        from: int,
        r: Result<Stage, RunDeployError>,
    ) -> bool {
        match next_set(self.revocable(), from, failed as int) {
            Some(profile) => r matches Ok(Stage::Revoke { failed: f, profile: p }) && f == failed
                && p == profile,
            None => r matches Err(RunDeployError::Rollback(node)) && node@
                == self.nodes()[failed as int],
        }
    }

    fn revoke_from(&self, failed: usize, from: usize) -> (r: Result<Stage, RunDeployError>)
        requires
            from <= failed < self.nodes().len(),
        ensures
            self.is_revoking(failed, from as int, r),
    {
        proof {
            use_type_invariant(self);
        }
        let mut profile: usize = from;
        while profile < failed && !self.auto_rollback[profile]
            invariant
                from <= profile <= failed < self.auto_rollback@.len(),
                next_set(self.revocable(), from as int, failed as int) == next_set(
                    self.revocable(),
                    profile as int,
                    failed as int,
                ),
            decreases failed - profile,
        {
            profile += 1;
        }
        if profile < failed {
            Ok(Stage::Revoke { failed, profile })
        } else {
            Err(RunDeployError::Rollback(self.node_names[failed].clone()))
        }
    }

    /// What follows on deploying a profile. Where that failed, the profiles that
    /// were deployed before it are revoked, if they are to be and may be.
    pub fn deployed(&self, profile: usize, outcome: Result<(), DeployProfileError>) -> (r: Result<
        Stage,
        RunDeployError,
    >)
        requires
            profile < self.nodes().len(),
        ensures
            match outcome {
                Ok(()) => r == Ok::<_, RunDeployError>(self.after(Stage::Deploy(profile))),
                Err(e) => if self.revokes() {
                    self.is_revoking(profile, 0, r)
                } else {
                    r matches Err(RunDeployError::DeployProfile(node, why)) && why == e && node@
                        == self.nodes()[profile as int]
                },
            },
    {
        match outcome {
            Ok(()) => {
                assert(profile < self.node_names.len());
                if profile + 1 < self.node_names.len() {
                    Ok(Stage::Deploy(profile + 1))
                } else {
                    Ok(Stage::Done)
                }
            },
            Err(e) => {
                if self.rolls_back {
                    return self.revoke_from(profile, 0);
                }
                Err(RunDeployError::DeployProfile(self.node_names[profile].clone(), e))
            },
        }
    }

    /// What follows on revoking a profile after the failure of another one.
    pub fn revoked(
        &self,
        failed: usize,
        profile: usize,
        outcome: Result<(), RevokeProfileError>,
    ) -> (r: Result<Stage, RunDeployError>)
        requires
            profile < failed < self.nodes().len(),
        ensures
            match outcome {
                Ok(()) => self.is_revoking(failed, profile + 1, r),
                Err(e) => r matches Err(RunDeployError::RevokeProfile(node, why)) && why == e
                    && node@ == self.nodes()[profile as int],
            },
    {
        match outcome {
            Ok(()) => self.revoke_from(failed, profile + 1),
            Err(e) => Err(
                RunDeployError::RevokeProfile(self.node_names[profile].clone(), e),
            ),
        }
    }
}

/// A stage for each position from `from` on and before `n`: to open a connection.
pub open spec fn connects(from: int, n: int) -> Seq<Stage> {
    Seq::new((n - from) as nat, |i: int| Stage::Connect((from + i) as usize))
}

/// A stage for each position from `from` on and before `n`: to deploy.
pub open spec fn deploys(from: int, n: int) -> Seq<Stage> {
    Seq::new((n - from) as nat, |i: int| Stage::Deploy((from + i) as usize))
}

proof fn lemma_deploys(rollout: Rollout, profile: usize)
    requires
        profile < rollout.nodes().len() <= usize::MAX,
    ensures
        rollout.course(Stage::Deploy(profile)) == deploys(
            profile as int,
            rollout.nodes().len() as int,
        ) + seq![Stage::Done],
    decreases rollout.nodes().len() - profile,
{
    let n = rollout.nodes().len() as int;
    let stage = Stage::Deploy(profile);
    assert(rollout.course(Stage::Done) == seq![Stage::Done]);
    if profile + 1 < n {
        lemma_deploys(rollout, (profile + 1) as usize);
        assert(deploys(profile as int, n) =~= seq![stage] + deploys(profile + 1, n));
        assert(seq![stage] + (deploys(profile + 1, n) + seq![Stage::Done]) =~= seq![stage]
            + deploys(profile + 1, n) + seq![Stage::Done]);
    } else {
        assert(deploys(profile as int, n) =~= seq![stage]);
    }
}

proof fn lemma_connects(rollout: Rollout, profile: usize)
    requires
        profile < rollout.nodes().len() <= usize::MAX,
    ensures
        rollout.course(Stage::Connect(profile)) == connects(
            profile as int,
            rollout.nodes().len() as int,
        ) + rollout.course(Stage::Push),
    decreases rollout.nodes().len() - profile,
{
    let n = rollout.nodes().len() as int;
    let stage = Stage::Connect(profile);
    let rest = rollout.course(Stage::Push);
    if profile + 1 < n {
        lemma_connects(rollout, (profile + 1) as usize);
        assert(connects(profile as int, n) =~= seq![stage] + connects(profile + 1, n));
        assert(seq![stage] + (connects(profile + 1, n) + rest) =~= seq![stage] + connects(
            profile + 1,
            n,
        ) + rest);
    } else {
        assert(connects(profile as int, n) =~= seq![stage]);
    }
}

/// Where nothing fails, all profiles are built and copied before the first one is
/// deployed, and then each one is deployed exactly once, in order.
pub proof fn law_all_profiles_are_deployed_in_order(rollout: Rollout)
    requires
        rollout.nodes().len() <= usize::MAX,
    ensures
        ({
            let n = rollout.nodes().len() as int;
            rollout.course(Stage::Agree) == seq![Stage::Agree, Stage::Build] + (
            if rollout.shares() {
                connects(0, n)
            } else {
                Seq::empty()
            }) + seq![Stage::Push] + deploys(0, n) + seq![Stage::Done]
        }),
{
    let n = rollout.nodes().len() as int;
    let start = seq![Stage::Agree, Stage::Build];
    let end = deploys(0, n) + seq![Stage::Done];
    assert(rollout.course(Stage::Push) =~= seq![Stage::Push] + end) by {
        if n > 0 {
            lemma_deploys(rollout, 0);
        } else {
            assert(rollout.course(Stage::Done) == seq![Stage::Done]);
            assert(deploys(0, n) =~= Seq::empty());
        }
    }
    let middle = if rollout.shares() {
        connects(0, n)
    } else {
        Seq::empty()
    };
    assert(rollout.course(rollout.after(Stage::Build)) =~= middle + rollout.course(
        Stage::Push,
    )) by {
        if rollout.shares() && n > 0 {
            lemma_connects(rollout, 0);
        } else {
            assert(middle =~= Seq::empty());
        }
    }
    let tail = rollout.course(rollout.after(Stage::Build));
    assert(rollout.course(Stage::Build) == seq![Stage::Build] + tail);
    assert(rollout.course(Stage::Agree) == seq![Stage::Agree] + rollout.course(Stage::Build));
    assert(rollout.course(Stage::Agree) =~= start + tail);
    assert(start + (middle + (seq![Stage::Push] + end)) =~= start + middle + seq![Stage::Push]
        + deploys(0, n) + seq![Stage::Done]);
}

/// The profiles that are revoked one after the other, from a position on and
/// before the one that failed, as long as revoking succeeds.
pub open spec fn revocations(revocable: Seq<bool>, from: int, failed: int) -> Seq<int>
    decreases failed - from,
{
    proof {
        lemma_next_set(revocable, from, failed);
    }
    match next_set(revocable, from, failed) {
        Some(profile) => seq![profile] + revocations(revocable, profile + 1, failed),
        None => Seq::empty(),
    }
}

/// What it means for a position to be the next one at which a flag is set.
pub proof fn lemma_next_set(flags: Seq<bool>, from: int, end: int)
    ensures
        match next_set(flags, from, end) {
            Some(i) => from <= i < end && flags[i] && forall|j: int|
                from <= j < i ==> !(#[trigger] flags[j]),
            None => forall|j: int| from <= j < end ==> !(#[trigger] flags[j]),
        },
    decreases end - from,
{
    if from < end && !flags[from] {
        lemma_next_set(flags, from + 1, end);
    }
}

/// When a profile fails, exactly the profiles that were deployed before it and
/// may be taken back are revoked, each one once, in the order in which they were
/// deployed.
pub proof fn law_revokes_what_was_deployed(revocable: Seq<bool>, from: int, failed: int)
    requires
        0 <= from <= failed <= revocable.len(),
    ensures
        forall|i: int| #[trigger]
            revocations(revocable, from, failed).contains(i) <==> from <= i < failed
                && revocable[i],
        forall|i: int, j: int|
            0 <= i < j < revocations(revocable, from, failed).len() ==> (#[trigger] revocations(
                revocable,
                from,
                failed,
            )[i]) < (#[trigger] revocations(revocable, from, failed)[j]),
    decreases failed - from,
{
    lemma_next_set(revocable, from, failed);
    if from < failed {
        match next_set(revocable, from, failed) {
            Some(profile) => {
                let rest = revocations(revocable, profile + 1, failed);
                let all = revocations(revocable, from, failed);
                law_revokes_what_was_deployed(revocable, profile + 1, failed);
                assert(all == seq![profile] + rest);
                assert forall|i: int| #[trigger] all.contains(i) <==> from <= i < failed
                    && revocable[i] by {
                    if all.contains(i) {
                        let k = choose|k: int| 0 <= k < all.len() && all[k] == i;
                        if k > 0 {
                            assert(rest[k - 1] == i);
                            assert(rest.contains(i));
                        }
                    }
                    if from <= i < failed && revocable[i] {
                        if i == profile {
                            assert(all[0] == i);
                        } else {
                            assert(rest.contains(i));
                            let k = choose|k: int| 0 <= k < rest.len() && rest[k] == i;
                            assert(all[k + 1] == i);
                        }
                    }
                }
                assert forall|i: int, j: int| 0 <= i < j < all.len() implies (#[trigger] all[i]) < (
                #[trigger] all[j]) by {
                    assert(rest.contains(rest[j - 1]));
                    if i > 0 {
                        assert(rest[i - 1] < rest[j - 1]);
                    }
                }
            },
            None => {},
        }
    }
}

/// What is settled of a deployment before it starts: a profile may be taken back unless
/// its settings say otherwise, and profiles are taken back after the failure of another
/// one unless that is switched off for the run or taking back is switched off on the
/// command line.
pub proof fn law_profiles_are_taken_back_unless_switched_off(
    parts: &[DeployPart<'_>],
    cmd_overrides: CmdOverrides,
    rollback_succeeded: bool,
    ssh_multiplexing: bool,
    r: Rollout,
)
    requires
        call_ensures(
            Rollout::new,
            (parts, &cmd_overrides, rollback_succeeded, ssh_multiplexing),
            r,
        ),
    ensures
        r.nodes().len() == parts@.len(),
        r.revocable().len() == parts@.len(),
        forall|i: int|
            0 <= i < parts@.len() ==> {
                &&& r.nodes()[i] == (#[trigger] parts@[i]).1.node_name@
                &&& r.revocable()[i] <==> parts@[i].1.merged_settings.auto_rollback != Some(false)
            },
        r.revokes() <==> rollback_succeeded && cmd_overrides.auto_rollback != Some(false),
        r.shares() <==> ssh_multiplexing,
{
}

/// Nothing is built before the deployment is agreed to, nothing is copied before all is
/// built, and nothing is deployed before all is copied. Whatever fails ends the
/// deployment there.
pub proof fn law_each_step_waits_for_the_one_before(
    rollout: Rollout,
    first: Stage,
    question: Result<(), PromptDeploymentError>,
    agreed: Result<Stage, RunDeployError>,
    display: Result<(), String>,
    shown: Result<Stage, RunDeployError>,
    build: Result<(), PushProfileError>,
    built: Result<Stage, RunDeployError>,
    copy: Result<(), PushProfileError>,
    pushed: Result<Stage, RunDeployError>,
)
    requires
        call_ensures(Rollout::start, (&rollout,), first),
        call_ensures(Rollout::agreed, (&rollout, question), agreed),
        call_ensures(Rollout::shown, (&rollout, display), shown),
        call_ensures(Rollout::built, (&rollout, build), built),
        call_ensures(Rollout::pushed, (&rollout, copy), pushed),
    ensures
        first is Agree,
        question is Ok ==> agreed is Ok && agreed->Ok_0 is Build,
        question is Err ==> (agreed matches Err(RunDeployError::PromptDeployment(e)) && e
            == question->Err_0),
        display is Ok ==> shown is Ok && shown->Ok_0 is Build,
        display is Err ==> (shown matches Err(RunDeployError::TomlFormat(e)) && e
            == display->Err_0),
        build is Ok ==> {
            &&& built is Ok
            &&& rollout.shares() && rollout.nodes().len() > 0 ==> built->Ok_0 == Stage::Connect(0)
            &&& !rollout.shares() || rollout.nodes().len() == 0 ==> built->Ok_0 is Push
        },
        build is Err ==> (built matches Err(RunDeployError::BuildProfile(nodes, e)) && e
            == build->Err_0 && nodes@ == joined(rollout.nodes(), ", "@)),
        copy is Ok ==> {
            &&& pushed is Ok
            &&& rollout.nodes().len() > 0 ==> pushed->Ok_0 == Stage::Deploy(0)
            &&& rollout.nodes().len() == 0 ==> pushed->Ok_0 is Done
        },
        copy is Err ==> (pushed matches Err(RunDeployError::PushProfile(nodes, e)) && e
            == copy->Err_0 && nodes@ == (match copy->Err_0 {
            PushProfileError::CopyGroup { nodes: some, target: _, profiles: _, source: _ } => some@,
            _ => joined(rollout.nodes(), ", "@),
        })),
{
}

/// Connections are opened to one machine after the other, and all of them before
/// anything is copied.
pub proof fn law_connections_are_opened_in_order(
    rollout: Rollout,
    profile: usize,
    outcome: Result<(), String>,
    r: Result<Stage, RunDeployError>,
)
    requires
        call_ensures(Rollout::connected, (&rollout, profile, outcome), r),
        profile < rollout.nodes().len() <= usize::MAX,
    ensures
        outcome is Ok && profile + 1 < rollout.nodes().len() ==> (r matches Ok(
            Stage::Connect(next),
        ) && next == profile + 1),
        outcome is Ok && profile + 1 == rollout.nodes().len() ==> r matches Ok(Stage::Push),
        outcome is Err ==> (r matches Err(RunDeployError::SshControlMaster(e)) && e
            == outcome->Err_0),
{
}

/// After a profile that was deployed comes the next one, and after the last one nothing.
/// After one that failed nothing more is deployed: where what was deployed is to be taken
/// back, that starts with the first profile that may be, and otherwise the failure is
/// reported for its own node.
pub proof fn law_failed_profile_ends_the_deploying(
    rollout: Rollout,
    profile: usize,
    outcome: Result<(), DeployProfileError>,
    r: Result<Stage, RunDeployError>,
)
    requires
        call_ensures(Rollout::deployed, (&rollout, profile, outcome), r),
        profile < rollout.nodes().len() <= usize::MAX,
    ensures
        outcome is Ok && profile + 1 < rollout.nodes().len() ==> (r matches Ok(
            Stage::Deploy(next),
        ) && next == profile + 1),
        outcome is Ok && profile + 1 == rollout.nodes().len() ==> r matches Ok(Stage::Done),
        outcome is Err && !rollout.revokes() ==> (r matches Err(
            RunDeployError::DeployProfile(node, e),
        ) && e == outcome->Err_0 && node@ == rollout.nodes()[profile as int]),
        outcome is Err && rollout.revokes() ==> match r {
            Ok(Stage::Revoke { failed, profile: first }) => {
                &&& failed == profile
                &&& first < profile
                &&& rollout.revocable()[first as int]
                &&& forall|j: int| 0 <= j < first ==> !(#[trigger] rollout.revocable()[j])
            },
            Err(RunDeployError::Rollback(node)) => {
                &&& node@ == rollout.nodes()[profile as int]
                &&& forall|j: int| 0 <= j < profile ==> !(#[trigger] rollout.revocable()[j])
            },
            _ => false,
        },
{
    lemma_next_set(rollout.revocable(), 0, profile as int);
}

/// After a profile that was revoked comes the next one that may be, before the one that
/// failed; when all are, the failure is reported for its own node. A profile that cannot
/// be revoked ends the revoking and is reported for its own node.
pub proof fn law_revoking_goes_on_to_the_failed_profile(
    rollout: Rollout,
    failed: usize,
    profile: usize,
    outcome: Result<(), RevokeProfileError>,
    r: Result<Stage, RunDeployError>,
)
    requires
        call_ensures(Rollout::revoked, (&rollout, failed, profile, outcome), r),
        profile < failed < rollout.nodes().len(),
    ensures
        outcome is Err ==> (r matches Err(RunDeployError::RevokeProfile(node, e)) && e
            == outcome->Err_0 && node@ == rollout.nodes()[profile as int]),
        outcome is Ok ==> match r {
            Ok(Stage::Revoke { failed: same, profile: next }) => {
                &&& same == failed
                &&& profile < next < failed
                &&& rollout.revocable()[next as int]
                &&& forall|j: int| profile < j < next ==> !(#[trigger] rollout.revocable()[j])
            },
            Err(RunDeployError::Rollback(node)) => {
                &&& node@ == rollout.nodes()[failed as int]
                &&& forall|j: int| profile < j < failed ==> !(#[trigger] rollout.revocable()[j])
            },
            _ => false,
        },
{
    lemma_next_set(rollout.revocable(), profile + 1, failed as int);
}

} // verus!
