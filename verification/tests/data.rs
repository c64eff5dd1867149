use deploy::data::{default_output_name, GenericSettings};
use deploy::names::{NameMap, NameSet};
use deploy::sudo::SudoCommand;

fn settings(user: Option<&str>, ssh_user: Option<&str>, opts: &[&str]) -> GenericSettings {
    GenericSettings {
        ssh_user: ssh_user.map(str::to_string),
        user: user.map(str::to_string),
        ssh_opts: opts.iter().map(|s| s.to_string()).collect(),
        fast_connection: None,
        auto_rollback: None,
        confirm_timeout: None,
        activation_timeout: None,
        temp_path: None,
        magic_rollback: None,
        sudo: None,
        remote_build: None,
        interactive_sudo: None,
    }
}

#[test]
fn test_generic_settings_merge_preserves_precedence() {
    let mut profile = settings(Some("profile"), None, &["profile-opt"]);
    profile.remote_build = Some(false);
    let mut node = settings(Some("node"), Some("node-ssh"), &["node-opt"]);
    node.remote_build = Some(true);

    profile.merge(node);

    assert_eq!(profile.user.as_deref(), Some("profile"));
    assert_eq!(profile.ssh_user.as_deref(), Some("node-ssh"));
    assert_eq!(profile.remote_build, Some(false));
    assert_eq!(profile.ssh_opts, vec!["profile-opt", "node-opt"]);
}

#[test]
fn merging_takes_every_setting_that_is_missing() {
    let mut own = settings(None, None, &[]);
    let mut above = settings(Some("u"), Some("s"), &["o"]);
    above.fast_connection = Some(true);
    above.auto_rollback = Some(false);
    above.confirm_timeout = Some(1);
    above.activation_timeout = Some(2);
    above.temp_path = Some("/t".to_string());
    above.magic_rollback = Some(true);
    above.sudo = Some(SudoCommand::default_sudo());
    above.remote_build = Some(true);
    above.interactive_sudo = Some(false);
    own.merge(above);
    assert_eq!((own.user.as_deref(), own.ssh_user.as_deref()), (Some("u"), Some("s")));
    assert_eq!((own.fast_connection, own.auto_rollback), (Some(true), Some(false)));
    assert_eq!((own.confirm_timeout, own.activation_timeout), (Some(1), Some(2)));
    assert_eq!((own.temp_path.as_deref(), own.magic_rollback), (Some("/t"), Some(true)));
    assert_eq!((own.remote_build, own.interactive_sudo), (Some(true), Some(false)));
    assert_eq!(own.sudo, Some(SudoCommand::default_sudo()));
    assert_eq!(own.ssh_opts, vec!["o"]);
}

#[test]
fn merging_levels_in_either_order_gives_the_same() {
    let levels = || {
        (
            settings(Some("profile"), None, &["1"]),
            settings(Some("node"), Some("node"), &["2"]),
            settings(Some("top"), Some("top"), &["3"]),
        )
    };
    let (mut left, node, top) = levels();
    left.merge(node);
    left.merge(top);
    let (mut right, mut node, top) = levels();
    node.merge(top);
    right.merge(node);
    assert_eq!(left.user, right.user);
    assert_eq!(left.ssh_user, right.ssh_user);
    assert_eq!(left.ssh_opts, right.ssh_opts);
}

#[test]
fn the_default_output_is_out() {
    assert_eq!(default_output_name(), "out");
}

#[test]
fn names_are_kept_once_and_in_order() {
    let mut set = NameSet::new();
    assert!(set.insert("b".to_string()));
    assert!(set.insert("a".to_string()));
    assert!(!set.insert("b".to_string()));
    assert_eq!(set.names(), ["b".to_string(), "a".to_string()].as_slice());
    assert_eq!(set.len(), 2);
    assert!(set.contains("a") && !set.contains("c"));
}

#[test]
fn maps_give_back_what_was_put_last() {
    let mut map: NameMap<u8> = NameMap::new();
    map.insert("x".to_string(), 1);
    map.insert("y".to_string(), 2);
    map.insert("x".to_string(), 3);
    assert_eq!(map.len(), 2);
    assert_eq!((map.get("x"), map.get("y"), map.get("z")), (Some(&3), Some(&2), None));
    assert_eq!((map.name_at(0), map.value_at(0)), ("x", &3));
    assert_eq!(map.position("y"), Some(1));
    let i = map.or_insert("y".to_string(), 9);
    assert_eq!((i, map.get("y")), (1, Some(&2)));
    let i = map.or_insert("z".to_string(), 9);
    *map.value_at_mut(i) += 1;
    assert_eq!(map.get("z"), Some(&10));
    assert!(map.contains_key("z") && !map.contains_key("w"));
}
