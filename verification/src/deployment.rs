//! What is deployed where: the targets of a deployment, and everything that is
//! known of one profile on one node.
use vstd::prelude::*;

use crate::data::{
    first_given, merged, opt_sudo, GenericSettings, Node, Profile, Settings,
};
use crate::sudo::{clone_opt_sudo, SudoCommand};
use crate::text::{
    clone_opt_text, joined, law_pieces_are_put_together, lemma_ends_in_parts, opt_text, pieces,
    same_text, split_at_char, texts,
};

verus! {

/// A target: a flake, and the node and the profile of it that are meant.
/// Without a profile all profiles of the node are meant, and without a node all
/// nodes.
#[derive(Debug, Clone)]
pub struct DeployFlake<'a> {
    pub repo: &'a str,
    pub node: Option<String>,
    pub profile: Option<String>,
}

/// Settings from the command line, which win over those of the flake.
#[derive(Debug, Clone)]
pub struct CmdOverrides {
    pub ssh_user: Option<String>,
    pub profile_user: Option<String>,
    pub ssh_opts: Option<String>,
    pub fast_connection: Option<bool>,
    pub auto_rollback: Option<bool>,
    pub hostname: Option<String>,
    pub magic_rollback: Option<bool>,
    pub temp_path: Option<String>,
    pub confirm_timeout: Option<u16>,
    pub activation_timeout: Option<u16>,
    pub sudo: Option<SudoCommand>,
    pub interactive_sudo: Option<bool>,
    pub dry_activate: bool,
    pub remote_build: bool,
}

/// One profile on one node, with the settings that hold for it.
#[derive(Debug, Clone)]
pub struct DeployData<'a> {
    pub node_name: &'a str,
    pub node: &'a Node,
    pub profile_name: &'a str,
    pub profile: &'a Profile,
    pub cmd_overrides: &'a CmdOverrides,
    pub merged_settings: GenericSettings,
    pub debug_logs: bool,
    pub log_dir: Option<&'a str>,
}

/// As whom one profile is deployed.
#[derive(Debug, Clone)]
pub struct DeployDefs {
    pub ssh_user: String,
    pub profile_user: String,
    pub sudo: Option<SudoCommand>,
    pub sudo_password: Option<String>,
}

/// How a profile is found on its node: by its path, or by its user and name.
#[derive(Debug, Clone)]
pub enum ProfileInfo {
    ProfilePath { profile_path: String },
    ProfileUserAndName { profile_user: String, profile_name: String },
}

/// The value of a switch that may be left open.
pub open spec fn switched(given: Option<bool>, otherwise: bool) -> bool {
    match given {
        Some(b) => b,
        None => otherwise,
    }
}

/// The value of a switch that may be left open.
pub fn switch(given: Option<bool>, otherwise: bool) -> (r: bool)
    ensures
        r == switched(given, otherwise),
{
    match given {
        Some(b) => b,
        None => otherwise,
    }
}

impl<'a> DeployData<'a> {
    /// Where the node is reached: the host name from the command line, or else
    /// that of the node.
    pub open spec fn host(&self) -> Seq<char> {
        match self.cmd_overrides.hostname {
            Some(hostname) => hostname@,
            None => self.node.node_settings.hostname@,
        }
    }

    /// Where the node is reached.
    pub fn hostname(&self) -> (r: &str)
        ensures
            r@ == self.host(),
    {
        match &self.cmd_overrides.hostname {
            Some(hostname) => hostname.as_str(),
            None => self.node.node_settings.hostname.as_str(),
        }
    }

    /// The profile is built on its node.
    pub open spec fn builds_remotely(&self) -> bool {
        switched(self.merged_settings.remote_build, false)
    }

    /// Whether the profile is built on its node.
    pub fn remote_build(&self) -> (r: bool)
        ensures
            r == self.builds_remotely(),
    {
        switch(self.merged_settings.remote_build, false)
    }

    /// How the profile is shown.
    pub open spec fn label(&self) -> Seq<char> {
        "`"@ + self.node_name@ + "."@ + self.profile_name@ + "`"@
    }

    /// How the profile is shown: by the names of its node and of itself.
    pub fn shown(&self) -> (r: String)
        ensures
            r@ == self.label(),
    {
        "`".to_string().concat(self.node_name).concat(".").concat(self.profile_name).concat("`")
    }
}

/// The settings that hold with those of the command line, which win. SSH options
/// are given there as one text, with a space between each two, and take the place
/// of all others.
pub open spec fn overridden(settings: Settings, overrides: CmdOverrides) -> Settings {
    Settings {
        ssh_user: first_given(opt_text(overrides.ssh_user), settings.ssh_user),
        user: first_given(opt_text(overrides.profile_user), settings.user),
        ssh_opts: match overrides.ssh_opts {
            Some(opts) => pieces(opts@, ' '),
            None => settings.ssh_opts,
        },
        fast_connection: first_given(overrides.fast_connection, settings.fast_connection),
        auto_rollback: first_given(overrides.auto_rollback, settings.auto_rollback),
        confirm_timeout: first_given(overrides.confirm_timeout, settings.confirm_timeout),
        activation_timeout: first_given(
            overrides.activation_timeout,
            settings.activation_timeout,
        ),
        temp_path: first_given(opt_text(overrides.temp_path), settings.temp_path),
        magic_rollback: first_given(overrides.magic_rollback, settings.magic_rollback),
        sudo: first_given(opt_sudo(overrides.sudo), settings.sudo),
        remote_build: if overrides.remote_build {
            Some(true)
        } else {
            settings.remote_build
        },
        interactive_sudo: first_given(overrides.interactive_sudo, settings.interactive_sudo),
    }
}

/// The settings that hold for a profile: those of the command line, of the
/// profile, of its node, and of the whole deployment.
pub open spec fn settings_for(
    top: Settings,
    node: Settings,
    profile: Settings,
    overrides: CmdOverrides,
) -> Settings {
    overridden(merged(merged(profile, node), top), overrides)
}

fn override_text(setting: &mut Option<String>, given: &Option<String>)
    ensures
        opt_text(*final(setting)) == first_given(opt_text(*given), opt_text(*old(setting))),
{
    if given.is_some() {
        *setting = clone_opt_text(given);
    }
}

fn override_value<T: Copy>(setting: &mut Option<T>, given: Option<T>)
    ensures
        *final(setting) == first_given(given, *old(setting)),
{
    if given.is_some() {
        *setting = given;
    }
}

/// A profile on a node, with the settings that hold for it.
pub fn make_deploy_data<'a>(
    top_settings: &GenericSettings,
    node: &'a Node,
    node_name: &'a str,
    profile: &'a Profile,
    profile_name: &'a str,
    cmd_overrides: &'a CmdOverrides,
    debug_logs: bool,
    log_dir: Option<&'a str>,
) -> (r: DeployData<'a>)
    ensures
        r.merged_settings@ == settings_for(
            top_settings@,
            node.generic_settings@,
            profile.generic_settings@,
            *cmd_overrides,
        ),
        r.node_name == node_name,
        r.node == node,
        r.profile_name == profile_name,
        r.profile == profile,
        r.cmd_overrides == cmd_overrides,
        r.debug_logs == debug_logs,
        r.log_dir == log_dir,
{
    let mut settings = profile.generic_settings.clone();
    settings.merge(node.generic_settings.clone());
    settings.merge(top_settings.clone());
    if cmd_overrides.remote_build {
        settings.remote_build = Some(true);
    }
    override_text(&mut settings.ssh_user, &cmd_overrides.ssh_user);
    override_text(&mut settings.user, &cmd_overrides.profile_user);
    if let Some(ssh_opts) = &cmd_overrides.ssh_opts {
        settings.ssh_opts = split_at_char(ssh_opts.as_str(), ' ');
    }
    override_value(&mut settings.fast_connection, cmd_overrides.fast_connection);
    override_value(&mut settings.auto_rollback, cmd_overrides.auto_rollback);
    override_value(&mut settings.confirm_timeout, cmd_overrides.confirm_timeout);
    override_value(&mut settings.activation_timeout, cmd_overrides.activation_timeout);
    override_text(&mut settings.temp_path, &cmd_overrides.temp_path);
    override_value(&mut settings.magic_rollback, cmd_overrides.magic_rollback);
    if cmd_overrides.sudo.is_some() {
        settings.sudo = clone_opt_sudo(&cmd_overrides.sudo);
    }
    override_value(&mut settings.interactive_sudo, cmd_overrides.interactive_sudo);
    DeployData {
        node_name,
        node,
        profile_name,
        profile,
        cmd_overrides,
        merged_settings: settings,
        debug_logs,
        log_dir,
    }
}

/// A setting comes from the command line where it is given there, or else from the
/// profile, or else from its node, or else from the deployment. SSH options of the
/// command line are the only ones, and otherwise those of all levels count, in the
/// same order.
pub proof fn law_nearest_setting_wins(
    top: Settings,
    node: Settings,
    profile: Settings,
    overrides: CmdOverrides,
)
    ensures
        ({
            let all = settings_for(top, node, profile, overrides);
            &&& all.ssh_user == first_given(
                opt_text(overrides.ssh_user),
                first_given(profile.ssh_user, first_given(node.ssh_user, top.ssh_user)),
            )
            &&& all.user == first_given(
                opt_text(overrides.profile_user),
                first_given(profile.user, first_given(node.user, top.user)),
            )
            &&& all.ssh_opts == (match overrides.ssh_opts {
                Some(opts) => pieces(opts@, ' '),
                None => profile.ssh_opts + node.ssh_opts + top.ssh_opts,
            })
            &&& all.fast_connection == first_given(
                overrides.fast_connection,
                first_given(
                    profile.fast_connection,
                    first_given(node.fast_connection, top.fast_connection),
                ),
            )
            &&& all.auto_rollback == first_given(
                overrides.auto_rollback,
                first_given(
                    profile.auto_rollback,
                    first_given(node.auto_rollback, top.auto_rollback),
                ),
            )
            &&& all.confirm_timeout == first_given(
                overrides.confirm_timeout,
                first_given(
                    profile.confirm_timeout,
                    first_given(node.confirm_timeout, top.confirm_timeout),
                ),
            )
            &&& all.activation_timeout == first_given(
                overrides.activation_timeout,
                first_given(
                    profile.activation_timeout,
                    first_given(node.activation_timeout, top.activation_timeout),
                ),
            )
            &&& all.temp_path == first_given(
                opt_text(overrides.temp_path),
                first_given(profile.temp_path, first_given(node.temp_path, top.temp_path)),
            )
            &&& all.magic_rollback == first_given(
                overrides.magic_rollback,
                first_given(
                    profile.magic_rollback,
                    first_given(node.magic_rollback, top.magic_rollback),
                ),
            )
            &&& all.sudo == first_given(
                opt_sudo(overrides.sudo),
                first_given(profile.sudo, first_given(node.sudo, top.sudo)),
            )
            &&& all.remote_build == (if overrides.remote_build {
                Some(true)
            } else {
                first_given(
                    profile.remote_build,
                    first_given(node.remote_build, top.remote_build),
                )
            })
            &&& all.interactive_sudo == first_given(
                overrides.interactive_sudo,
                first_given(
                    profile.interactive_sudo,
                    first_given(node.interactive_sudo, top.interactive_sudo),
                ),
            )
        }),
{
}

/// Why it is not known how a profile is deployed.
#[derive(Debug)]
pub enum DeployDataDefsError {
    /// Neither a user nor an SSH user is set for the given profile of the given
    /// node.
    NoProfileUser(String, String),
}

/// What is shown of a `DeployDataDefsError`.
pub open spec fn deploy_data_defs_error_text(e: DeployDataDefsError) -> Seq<char> {
    match e {
        DeployDataDefsError::NoProfileUser(profile, node) =>
            "Neither `user` nor `sshUser` are set for profile "@ + profile@ + " of node "@ + node@,
    }
}

impl DeployDataDefsError {
    /// The message for this error.
    pub fn message(&self) -> (r: String)
        ensures
            r@ == deploy_data_defs_error_text(*self),
    {
        match self {
            DeployDataDefsError::NoProfileUser(profile, node) => {
                "Neither `user` nor `sshUser` are set for profile ".to_string().concat(
                    profile.as_str(),
                ).concat(" of node ").concat(node.as_str())
            },
        }
    }
}

impl<'a> DeployData<'a> {
    /// The user to whom the profile belongs: the one that is set, or else the SSH
    /// user.
    pub open spec fn owner(&self) -> Option<Seq<char>> {
        first_given(self.merged_settings@.user, self.merged_settings@.ssh_user)
    }

    /// `e` says that no user is known for the profile.
    pub open spec fn is_ownerless(&self, e: DeployDataDefsError) -> bool {
        match e {
            DeployDataDefsError::NoProfileUser(profile, node) => {
                &&& self.owner() is None
                &&& profile@ == self.profile_name@
                &&& node@ == self.node_name@
            },
        }
    }

    fn profile_user(&self) -> (r: Result<String, DeployDataDefsError>)
        ensures
            match r {
                Ok(user) => self.owner() == Some(user@),
                Err(e) => self.is_ownerless(e),
            },
    {
        match (&self.merged_settings.user, &self.merged_settings.ssh_user) {
            (Some(user), _) => Ok(user.clone()),
            (None, Some(user)) => Ok(user.clone()),
            (None, None) => Err(
                DeployDataDefsError::NoProfileUser(
                    self.profile_name.to_string(),
                    self.node_name.to_string(),
                ),
            ),
        }
    }

    /// The user as whom the node is reached: the one that is set, or else the
    /// local user.
    pub open spec fn login(&self, local_user: Seq<char>) -> Seq<char> {
        match self.merged_settings@.ssh_user {
            Some(user) => user,
            None => local_user,
        }
    }

    /// As whom the profile is deployed, where `local_user` runs the deployment.
    /// Sudo is used exactly where the profile belongs to another user than the one
    /// as whom the node is reached.
    pub fn defs(&self, local_user: &str) -> (r: Result<DeployDefs, DeployDataDefsError>)
        ensures
            match r {
                Ok(defs) => {
                    &&& self.owner() == Some(defs.profile_user@)
                    &&& defs.ssh_user@ == self.login(local_user@)
                    &&& opt_sudo(defs.sudo) == (if defs.profile_user@ == defs.ssh_user@ {
                        None
                    } else {
                        first_given(self.merged_settings@.sudo, Some(seq!["sudo"@, "-u"@]))
                    })
                    &&& defs.sudo_password is None
                },
                Err(e) => self.is_ownerless(e),
            },
    {
        let profile_user = match self.profile_user() {
            Ok(user) => user,
            Err(e) => return Err(e),
        };
        let ssh_user = match &self.merged_settings.ssh_user {
            Some(user) => user.clone(),
            None => local_user.to_string(),
        };
        let sudo = if same_text(profile_user.as_str(), ssh_user.as_str()) {
            None
        } else {
            match &self.merged_settings.sudo {
                Some(sudo) => Some(sudo.clone()),
                None => Some(SudoCommand::default_sudo()),
            }
        };
        Ok(DeployDefs { ssh_user, profile_user, sudo, sudo_password: None })
    }

    /// How the profile is found on its node: by its path where one is given, and
    /// otherwise by its user and its name.
    pub fn get_profile_info(&self) -> (r: Result<ProfileInfo, DeployDataDefsError>)
        ensures
            match self.profile.profile_settings.profile_path {
                Some(path) => r matches Ok(ProfileInfo::ProfilePath { profile_path })
                    && profile_path@ == path@,
                None => match r {
                    Ok(ProfileInfo::ProfileUserAndName { profile_user, profile_name }) => {
                        &&& self.owner() == Some(profile_user@)
                        &&& profile_name@ == self.profile_name@
                    },
                    Ok(_) => false,
                    Err(e) => self.is_ownerless(e),
                },
            },
    {
        if let Some(path) = &self.profile.profile_settings.profile_path {
            return Ok(ProfileInfo::ProfilePath { profile_path: path.clone() });
        }
        match self.profile_user() {
            Ok(profile_user) => Ok(
                ProfileInfo::ProfileUserAndName {
                    profile_user,
                    profile_name: self.profile_name.to_string(),
                },
            ),
            Err(e) => Err(e),
        }
    }
}

/// The host on which a profile is deployed is the one of the command line where one
/// is given there, and else that of its node.
pub proof fn law_host_of_the_command_line_wins(data: DeployData<'_>, r: &str)
    requires
        call_ensures(DeployData::hostname, (&data,), r),
    ensures
        data.cmd_overrides.hostname matches Some(host) ==> r@ == data.cmd_overrides.hostname->0@,
        data.cmd_overrides.hostname is None ==> r@ == data.node.node_settings.hostname@,
{
}

/// A profile is built on its node only where that is asked for.
pub proof fn law_built_remotely_only_where_asked(data: DeployData<'_>, r: bool)
    requires
        call_ensures(DeployData::remote_build, (&data,), r),
    ensures
        r <==> data.merged_settings.remote_build == Some(true),
{
}

/// A profile is deployed as its own user over a connection as the SSH user: each of
/// the two stands in for the other where only one is set, except that nobody but the
/// local user connects where no SSH user is set. Where neither is set the profile and
/// the node are named.
pub proof fn law_users_stand_in_for_each_other(
    data: DeployData<'_>,
    local_user: &str,
    r: Result<DeployDefs, DeployDataDefsError>,
)
    requires
        call_ensures(DeployData::defs, (&data, local_user), r),
    ensures
        data.merged_settings.user is None && data.merged_settings.ssh_user is None <==> r is Err,
        r matches Err(DeployDataDefsError::NoProfileUser(profile, node)) ==> profile@
            == data.profile_name@ && node@ == data.node_name@,
        r matches Ok(defs) ==> {
            &&& data.merged_settings.user matches Some(user) ==> defs.profile_user@ == user@
            &&& data.merged_settings.user is None ==> defs.profile_user@
                == data.merged_settings.ssh_user->0@
            &&& data.merged_settings.ssh_user matches Some(user) ==> defs.ssh_user@ == user@
            &&& data.merged_settings.ssh_user is None ==> defs.ssh_user@ == local_user@
        },
{
}

/// Sudo is used exactly where a profile belongs to another user than the one that
/// connects: the command that is set, or else `sudo -u`.
pub proof fn law_sudo_is_used_for_other_users(
    data: DeployData<'_>,
    local_user: &str,
    r: Result<DeployDefs, DeployDataDefsError>,
)
    requires
        call_ensures(DeployData::defs, (&data, local_user), r),
        r is Ok,
    ensures
        r->Ok_0.sudo is None <==> r->Ok_0.profile_user@ == r->Ok_0.ssh_user@,
        r->Ok_0.sudo is Some && data.merged_settings.sudo is Some ==> r->Ok_0.sudo->0@
            == data.merged_settings.sudo->0@,
        r->Ok_0.sudo is Some && data.merged_settings.sudo is None ==> r->Ok_0.sudo->0@
            == seq!["sudo"@, "-u"@],
        r->Ok_0.sudo_password is None,
{
}

/// The profile that is set is the one at the path that is given, and otherwise the
/// one with its own name of the user as whom it is deployed.
pub proof fn law_profile_is_that_of_its_user(
    data: DeployData<'_>,
    local_user: &str,
    defs: Result<DeployDefs, DeployDataDefsError>,
    r: Result<ProfileInfo, DeployDataDefsError>,
)
    requires
        call_ensures(DeployData::defs, (&data, local_user), defs),
        call_ensures(DeployData::get_profile_info, (&data,), r),
    ensures
        data.profile.profile_settings.profile_path is Some ==> (r matches Ok(
            ProfileInfo::ProfilePath { profile_path },
        ) && profile_path@ == data.profile.profile_settings.profile_path->0@),
        data.profile.profile_settings.profile_path is None ==> {
            &&& r is Ok <==> defs is Ok
            &&& r matches Ok(info) ==> (info matches ProfileInfo::ProfileUserAndName {
                profile_user,
                profile_name,
            } && profile_user@ == defs->Ok_0.profile_user@ && profile_name@ == data.profile_name@)
        },
{
}

/// A setting of the command line holds for every profile, whatever the flake says.
pub proof fn law_command_line_wins(
    top: GenericSettings,
    node: Node,
    node_name: &str,
    profile: Profile,
    profile_name: &str,
    overrides: CmdOverrides,
    debug_logs: bool,
    log_dir: Option<&str>,
    r: DeployData<'_>,
)
    requires
        call_ensures(
            make_deploy_data,
            (
                &top,
                &node,
                node_name,
                &profile,
                profile_name,
                &overrides,
                debug_logs,
                log_dir,
            ),
            r,
        ),
    ensures
        ({
            let all = r.merged_settings;
            &&& overrides.ssh_user matches Some(user) ==> opt_text(all.ssh_user) == Some(user@)
            &&& overrides.profile_user matches Some(user) ==> opt_text(all.user) == Some(user@)
            &&& overrides.fast_connection is Some ==> all.fast_connection
                == overrides.fast_connection
            &&& overrides.auto_rollback is Some ==> all.auto_rollback == overrides.auto_rollback
            &&& overrides.magic_rollback is Some ==> all.magic_rollback
                == overrides.magic_rollback
            &&& overrides.confirm_timeout is Some ==> all.confirm_timeout
                == overrides.confirm_timeout
            &&& overrides.activation_timeout is Some ==> all.activation_timeout
                == overrides.activation_timeout
            &&& overrides.temp_path matches Some(path) ==> opt_text(all.temp_path) == Some(path@)
            &&& overrides.interactive_sudo is Some ==> all.interactive_sudo
                == overrides.interactive_sudo
            &&& overrides.sudo matches Some(sudo) ==> (all.sudo matches Some(s) && s@ == sudo@)
            &&& overrides.remote_build ==> all.remote_build == Some(true)
            &&& overrides.ssh_opts matches Some(opts) ==> {
                &&& joined(texts(all.ssh_opts@), seq![' ']) == opts@
                &&& forall|i: int|
                    0 <= i < all.ssh_opts@.len() ==> !(#[trigger] all.ssh_opts@[i])@.contains(' ')
            }
        }),
        r.node_name == node_name,
        *r.node == node,
        r.profile_name == profile_name,
        *r.profile == profile,
        *r.cmd_overrides == overrides,
        r.debug_logs == debug_logs,
        r.log_dir == log_dir,
{
    let all = r.merged_settings;
    assert(all@.ssh_user == opt_text(all.ssh_user));
    assert(all@.sudo == opt_sudo(all.sudo));
    if overrides.ssh_opts is Some {
        let opts = overrides.ssh_opts->0@;
        law_pieces_are_put_together(opts, ' ');
        assert(texts(all.ssh_opts@) == pieces(opts, ' '));
        assert forall|i: int| 0 <= i < all.ssh_opts@.len() implies !(
        #[trigger] all.ssh_opts@[i])@.contains(' ') by {
            assert(texts(all.ssh_opts@)[i] == all.ssh_opts@[i]@);
        }
    }
}

/// Without settings of the command line a setting is that of the profile where it is
/// given there, else that of the node, and else that of the whole deployment; the SSH
/// options of all three count, those of the profile first.
pub proof fn law_profile_wins_over_node_over_deployment(
    top: GenericSettings,
    node: Node,
    node_name: &str,
    profile: Profile,
    profile_name: &str,
    overrides: CmdOverrides,
    debug_logs: bool,
    log_dir: Option<&str>,
    r: DeployData<'_>,
)
    requires
        call_ensures(
            make_deploy_data,
            (
                &top,
                &node,
                node_name,
                &profile,
                profile_name,
                &overrides,
                debug_logs,
                log_dir,
            ),
            r,
        ),
    ensures
        ({
            let all = r.merged_settings;
            let own = profile.generic_settings;
            let above = node.generic_settings;
            &&& overrides.ssh_user is None ==> {
                &&& own.ssh_user is Some ==> opt_text(all.ssh_user) == opt_text(own.ssh_user)
                &&& own.ssh_user is None && above.ssh_user is Some ==> opt_text(all.ssh_user)
                    == opt_text(above.ssh_user)
                &&& own.ssh_user is None && above.ssh_user is None ==> opt_text(all.ssh_user)
                    == opt_text(top.ssh_user)
            }
            &&& overrides.profile_user is None ==> {
                &&& own.user is Some ==> opt_text(all.user) == opt_text(own.user)
                &&& own.user is None && above.user is Some ==> opt_text(all.user) == opt_text(
                    above.user,
                )
                &&& own.user is None && above.user is None ==> opt_text(all.user) == opt_text(
                    top.user,
                )
            }
            &&& overrides.ssh_opts is None ==> texts(all.ssh_opts@) == texts(own.ssh_opts@)
                + texts(above.ssh_opts@) + texts(top.ssh_opts@)
            &&& overrides.fast_connection is None ==> {
                &&& own.fast_connection is Some ==> all.fast_connection == own.fast_connection
                &&& own.fast_connection is None && above.fast_connection is Some
                    ==> all.fast_connection == above.fast_connection
                &&& own.fast_connection is None && above.fast_connection is None
                    ==> all.fast_connection == top.fast_connection
            }
            &&& overrides.auto_rollback is None ==> {
                &&& own.auto_rollback is Some ==> all.auto_rollback == own.auto_rollback
                &&& own.auto_rollback is None && above.auto_rollback is Some
                    ==> all.auto_rollback == above.auto_rollback
                &&& own.auto_rollback is None && above.auto_rollback is None
                    ==> all.auto_rollback == top.auto_rollback
            }
            &&& overrides.magic_rollback is None ==> {
                &&& own.magic_rollback is Some ==> all.magic_rollback == own.magic_rollback
                &&& own.magic_rollback is None && above.magic_rollback is Some
                    ==> all.magic_rollback == above.magic_rollback
                &&& own.magic_rollback is None && above.magic_rollback is None
                    ==> all.magic_rollback == top.magic_rollback
            }
            &&& overrides.confirm_timeout is None ==> {
                &&& own.confirm_timeout is Some ==> all.confirm_timeout == own.confirm_timeout
                &&& own.confirm_timeout is None && above.confirm_timeout is Some
                    ==> all.confirm_timeout == above.confirm_timeout
                &&& own.confirm_timeout is None && above.confirm_timeout is None
                    ==> all.confirm_timeout == top.confirm_timeout
            }
            &&& overrides.activation_timeout is None ==> {
                &&& own.activation_timeout is Some ==> all.activation_timeout
                    == own.activation_timeout
                &&& own.activation_timeout is None && above.activation_timeout is Some
                    ==> all.activation_timeout == above.activation_timeout
                &&& own.activation_timeout is None && above.activation_timeout is None
                    ==> all.activation_timeout == top.activation_timeout
            }
            &&& overrides.temp_path is None ==> {
                &&& own.temp_path is Some ==> opt_text(all.temp_path) == opt_text(own.temp_path)
                &&& own.temp_path is None && above.temp_path is Some ==> opt_text(all.temp_path)
                    == opt_text(above.temp_path)
                &&& own.temp_path is None && above.temp_path is None ==> opt_text(all.temp_path)
                    == opt_text(top.temp_path)
            }
            &&& overrides.sudo is None ==> {
                &&& own.sudo is Some ==> opt_sudo(all.sudo) == opt_sudo(own.sudo)
                &&& own.sudo is None && above.sudo is Some ==> opt_sudo(all.sudo) == opt_sudo(
                    above.sudo,
                )
                &&& own.sudo is None && above.sudo is None ==> opt_sudo(all.sudo) == opt_sudo(
                    top.sudo,
                )
            }
            &&& overrides.interactive_sudo is None ==> {
                &&& own.interactive_sudo is Some ==> all.interactive_sudo == own.interactive_sudo
                &&& own.interactive_sudo is None && above.interactive_sudo is Some
                    ==> all.interactive_sudo == above.interactive_sudo
                &&& own.interactive_sudo is None && above.interactive_sudo is None
                    ==> all.interactive_sudo == top.interactive_sudo
            }
            &&& !overrides.remote_build ==> {
                &&& own.remote_build is Some ==> all.remote_build == own.remote_build
                &&& own.remote_build is None && above.remote_build is Some ==> all.remote_build
                    == above.remote_build
                &&& own.remote_build is None && above.remote_build is None ==> all.remote_build
                    == top.remote_build
            }
        }),
{
    let all = r.merged_settings;
    assert(all@.ssh_user == opt_text(all.ssh_user));
    assert(all@.user == opt_text(all.user));
    assert(all@.temp_path == opt_text(all.temp_path));
    assert(all@.sudo == opt_sudo(all.sudo));
    assert(all@.ssh_opts == texts(all.ssh_opts@));
}

/// A profile is shown by the names of its node and of itself, in this order.
pub proof fn law_profile_is_shown_by_its_names(data: DeployData<'_>, r: String)
    requires
        call_ensures(DeployData::shown, (&data,), r),
    ensures
        r@ == "`"@ + data.node_name@ + "."@ + data.profile_name@ + "`"@,
{
}

/// A switch that is given has its own value, and one that is left open the other.
pub proof fn law_given_switch_counts(given: Option<bool>, otherwise: bool, r: bool)
    requires
        call_ensures(switch, (given, otherwise), r),
    ensures
        given is Some ==> r == given->0,
        given is None ==> r == otherwise,
{
}

/// What is said where no user is known names the profile, and behind it the node.
pub proof fn law_missing_user_is_reported(e: DeployDataDefsError, r: String)
    requires
        call_ensures(DeployDataDefsError::message, (&e,), r),
    ensures
        match e {
            DeployDataDefsError::NoProfileUser(profile, node) => (profile@ + " of node "@
                + node@).is_suffix_of(r@),
        },
{
    match e {
        DeployDataDefsError::NoProfileUser(profile, node) => {
            lemma_ends_in_parts(profile@, " of node "@, node@);
        },
    }
}

} // verus!
