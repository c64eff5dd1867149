//! What a flake says about its deployment: nodes, the profiles on them, and
//! the settings that each level can give.
use vstd::prelude::*;

use crate::names::NameMap;
use crate::sudo::{clone_opt_sudo, SudoCommand};
use crate::text::{clone_opt_text, clone_texts, opt_text, texts};

verus! {

/// `merge::option::overwrite_none` of the crate `merge`: `right` takes the
/// place of `left` where `left` is `None`, and is dropped otherwise.
#[verifier::external_body]
fn overwrite_none<T>(left: &mut Option<T>, right: Option<T>)
    ensures
        *final(left) == (match *old(left) {
            Some(_) => *old(left),
            None => right,
        }),
{
    merge::option::overwrite_none(left, right)
}

/// `merge::vec::append` of the crate `merge`: the elements of `right` come
/// behind those of `left`.
#[verifier::external_body]
fn append<T>(left: &mut Vec<T>, right: Vec<T>)
    ensures
        final(left)@ == old(left)@ + right@,
{
    merge::vec::append(left, right)
}

/// The output that is built of a derivation where none is named.
pub fn default_output_name() -> (r: String)
    ensures
        r@ == "out"@,
{
    "out".to_string()
}

/// Settings that can be given for all nodes, for a node, or for a profile.
#[derive(Debug)]
pub struct GenericSettings {
    pub ssh_user: Option<String>,
    pub user: Option<String>,
    pub ssh_opts: Vec<String>,
    pub fast_connection: Option<bool>,
    pub auto_rollback: Option<bool>,
    pub confirm_timeout: Option<u16>,
    pub activation_timeout: Option<u16>,
    pub temp_path: Option<String>,
    pub magic_rollback: Option<bool>,
    pub sudo: Option<SudoCommand>,
    pub remote_build: Option<bool>,
    pub interactive_sudo: Option<bool>,
}

/// What `GenericSettings` hold.
#[verifier::ext_equal]
pub struct Settings {
    pub ssh_user: Option<Seq<char>>,
    pub user: Option<Seq<char>>,
    pub ssh_opts: Seq<Seq<char>>,
    pub fast_connection: Option<bool>,
    pub auto_rollback: Option<bool>,
    pub confirm_timeout: Option<u16>,
    pub activation_timeout: Option<u16>,
    pub temp_path: Option<Seq<char>>,
    pub magic_rollback: Option<bool>,
    pub sudo: Option<Seq<Seq<char>>>,
    pub remote_build: Option<bool>,
    pub interactive_sudo: Option<bool>,
}

/// The arguments of an optional sudo command.
pub open spec fn opt_sudo(sudo: Option<SudoCommand>) -> Option<Seq<Seq<char>>> {
    match sudo {
        Some(command) => Some(command@),
        None => None,
    }
}

impl View for GenericSettings {
    type V = Settings;

    open spec fn view(&self) -> Settings {
        Settings {
            ssh_user: opt_text(self.ssh_user),
            user: opt_text(self.user),
            ssh_opts: texts(self.ssh_opts@),
            fast_connection: self.fast_connection,
            auto_rollback: self.auto_rollback,
            confirm_timeout: self.confirm_timeout,
            activation_timeout: self.activation_timeout,
            temp_path: opt_text(self.temp_path),
            magic_rollback: self.magic_rollback,
            sudo: opt_sudo(self.sudo),
            remote_build: self.remote_build,
            interactive_sudo: self.interactive_sudo,
        }
    }
}

impl Clone for GenericSettings {
    fn clone(&self) -> (r: Self)
        ensures
            r@ == self@,
    {
        GenericSettings {
            ssh_user: clone_opt_text(&self.ssh_user),
            user: clone_opt_text(&self.user),
            ssh_opts: clone_texts(self.ssh_opts.as_slice()),
            fast_connection: self.fast_connection,
            auto_rollback: self.auto_rollback,
            confirm_timeout: self.confirm_timeout,
            activation_timeout: self.activation_timeout,
            temp_path: clone_opt_text(&self.temp_path),
            magic_rollback: self.magic_rollback,
            sudo: clone_opt_sudo(&self.sudo),
            remote_build: self.remote_build,
            interactive_sudo: self.interactive_sudo,
        }
    }
}

/// `first`, or `second` where `first` is not given.
pub open spec fn first_given<T>(first: Option<T>, second: Option<T>) -> Option<T> {
    match first {
        Some(_) => first,
        None => second,
    }
}

/// The settings `own`, completed by those of the level above: a setting of
/// `own` wins over the one above, and the SSH options of both levels count,
/// those of `own` first.
pub open spec fn merged(own: Settings, above: Settings) -> Settings {
    Settings {
        ssh_user: first_given(own.ssh_user, above.ssh_user),
        user: first_given(own.user, above.user),
        ssh_opts: own.ssh_opts + above.ssh_opts,
        fast_connection: first_given(own.fast_connection, above.fast_connection),
        auto_rollback: first_given(own.auto_rollback, above.auto_rollback),
        confirm_timeout: first_given(own.confirm_timeout, above.confirm_timeout),
        activation_timeout: first_given(own.activation_timeout, above.activation_timeout),
        temp_path: first_given(own.temp_path, above.temp_path),
        magic_rollback: first_given(own.magic_rollback, above.magic_rollback),
        sudo: first_given(own.sudo, above.sudo),
        remote_build: first_given(own.remote_build, above.remote_build),
        interactive_sudo: first_given(own.interactive_sudo, above.interactive_sudo),
    }
}

/// The settings that give nothing.
pub open spec fn no_settings() -> Settings {
    Settings {
        ssh_user: None,
        user: None,
        ssh_opts: Seq::empty(),
        fast_connection: None,
        auto_rollback: None,
        confirm_timeout: None,
        activation_timeout: None,
        temp_path: None,
        magic_rollback: None,
        sudo: None,
        remote_build: None,
        interactive_sudo: None,
    }
}

/// Three levels of settings give the same whichever two are merged first.
pub proof fn law_merge_is_associative(profile: Settings, node: Settings, top: Settings)
    ensures
        merged(merged(profile, node), top) == merged(profile, merged(node, top)),
{
    assert(merged(merged(profile, node), top).ssh_opts =~= merged(
        profile,
        merged(node, top),
    ).ssh_opts);
}

/// A level that gives nothing changes nothing, above as well as below.
pub proof fn law_merge_with_nothing(settings: Settings)
    ensures
        merged(settings, no_settings()) == settings,
        merged(no_settings(), settings) == settings,
{
    assert(merged(settings, no_settings()) =~= settings);
    assert(merged(no_settings(), settings) =~= settings);
}

/// What a level gives itself stays as it is, whatever is merged into it: each
/// setting that is given, and the SSH options as the first ones.
pub proof fn law_merge_keeps_own(own: Settings, above: Settings)
    ensures
        ({
            let all = merged(own, above);
            &&& own.ssh_user is Some ==> all.ssh_user == own.ssh_user
            &&& own.user is Some ==> all.user == own.user
            &&& own.ssh_opts.is_prefix_of(all.ssh_opts)
            &&& own.fast_connection is Some ==> all.fast_connection == own.fast_connection
            &&& own.auto_rollback is Some ==> all.auto_rollback == own.auto_rollback
            &&& own.confirm_timeout is Some ==> all.confirm_timeout == own.confirm_timeout
            &&& own.activation_timeout is Some ==> all.activation_timeout
                == own.activation_timeout
            &&& own.temp_path is Some ==> all.temp_path == own.temp_path
            &&& own.magic_rollback is Some ==> all.magic_rollback == own.magic_rollback
            &&& own.sudo is Some ==> all.sudo == own.sudo
            &&& own.remote_build is Some ==> all.remote_build == own.remote_build
            &&& own.interactive_sudo is Some ==> all.interactive_sudo == own.interactive_sudo
        }),
{
    assert(own.ssh_opts =~= merged(own, above).ssh_opts.subrange(0, own.ssh_opts.len() as int));
}

impl GenericSettings {
    /// Completes these settings by those of the level above.
    pub fn merge(&mut self, other: GenericSettings)
        ensures
            final(self)@ == merged(old(self)@, other@),
    {
        overwrite_none(&mut self.ssh_user, other.ssh_user);
        overwrite_none(&mut self.user, other.user);
        append(&mut self.ssh_opts, other.ssh_opts);
        overwrite_none(&mut self.fast_connection, other.fast_connection);
        overwrite_none(&mut self.auto_rollback, other.auto_rollback);
        overwrite_none(&mut self.confirm_timeout, other.confirm_timeout);
        overwrite_none(&mut self.activation_timeout, other.activation_timeout);
        overwrite_none(&mut self.temp_path, other.temp_path);
        overwrite_none(&mut self.magic_rollback, other.magic_rollback);
        overwrite_none(&mut self.sudo, other.sudo);
        overwrite_none(&mut self.remote_build, other.remote_build);
        overwrite_none(&mut self.interactive_sudo, other.interactive_sudo);
        assert(self@.ssh_opts =~= old(self)@.ssh_opts + other@.ssh_opts);
    }
}

/// What a node is: where it is reached, and the profiles on it.
#[derive(Debug, Clone)]
pub struct NodeSettings {
    pub hostname: String,
    pub profiles: NameMap<Profile>,
    pub profiles_order: Vec<String>,
}

/// What a profile is.
#[derive(Debug, Clone)]
pub struct ProfileSettings {
    pub path: String,
    pub profile_path: Option<String>,
    pub tags: Vec<String>,
    /// The derivation that produces `path`, where `path` may be a mere
    /// placeholder. It is filled in by the evaluation, not by the user.
    pub drv_path: Option<String>,
    /// The output of `drv_path` that is meant.
    pub output_name: String,
}

/// A profile, with the settings given for it.
#[derive(Debug, Clone)]
pub struct Profile {
    pub profile_settings: ProfileSettings,
    pub generic_settings: GenericSettings,
}

/// A node, with the settings given for it.
#[derive(Debug, Clone)]
pub struct Node {
    pub generic_settings: GenericSettings,
    pub node_settings: NodeSettings,
}

/// A whole deployment, with the settings given for all of it.
#[derive(Debug, Clone)]
pub struct Data {
    pub generic_settings: GenericSettings,
    pub nodes: NameMap<Node>,
}

} // verus!
