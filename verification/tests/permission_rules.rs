use webhttp::permission::{RpConfig, RpError, RpGroup};

fn pairs(list: &[(&str, &[&str])]) -> Vec<(String, Vec<String>)> {
    list.iter()
        .map(|(k, vs)| (k.to_string(), vs.iter().map(|v| v.to_string()).collect()))
        .collect()
}

fn sample_config() -> RpConfig {
    RpConfig {
        name: "testapp".to_string(),
        role: pairs(&[("default", &[]), ("admin", &["alice"])]),
        permission: vec![(
            "user".to_string(),
            vec![
                (
                    "usermgt-xxx".to_string(),
                    "default-false:admin-true".to_string(),
                ),
                (
                    "userread-yyy".to_string(),
                    "default-true:admin-true".to_string(),
                ),
            ],
        )],
    }
}

#[test]
fn create_resolves_each_role() {
    let g = RpGroup::create(sample_config()).unwrap();
    assert_eq!(g.roles.len(), 2);
    assert_eq!(g.roles[0].0, "default");
    assert_eq!(g.roles[1].0, "admin");
    assert_eq!(g.roles[1].1 .1, vec!["alice"]);

    // default: usermgt off, userread on.
    let default_actions = &g.roles[0].1 .0;
    assert_eq!(default_actions.actions.len(), 1);
    assert_eq!(default_actions.actions[0].0, "user");
    let items = &default_actions.actions[0].1;
    assert_eq!(items.len(), 2);
    assert_eq!(items[0].eng, "usermgt");
    assert_eq!(items[0].chn, "xxx");
    assert!(!items[0].enabled);
    assert_eq!(items[1].eng, "userread");
    assert_eq!(items[1].chn, "yyy");
    assert!(items[1].enabled);

    // admin: both on.
    let admin_actions = &g.roles[1].1 .0;
    assert!(admin_actions.actions[0].1[0].enabled);
    assert!(admin_actions.actions[0].1[1].enabled);
}

#[test]
fn create_keeps_the_inputs() {
    let cfg = sample_config();
    let g = RpGroup::create(sample_config()).unwrap();
    assert_eq!(g.input_role.len(), cfg.role.len());
    assert_eq!(g.input_permission.len(), cfg.permission.len());
    assert_eq!(g.input_permission[0].0, "user");
}

#[test]
fn bad_action_key_is_rejected() {
    let mut cfg = sample_config();
    cfg.permission[0].1[0].0 = "nodash".to_string();
    match RpGroup::create(cfg) {
        Err(RpError::BadActionKey(s)) => assert_eq!(s, "nodash"),
        other => panic!("expected a key rejection, got {:?}", other.map(|_| ())),
    }
}

#[test]
fn overlong_action_key_is_rejected() {
    let mut cfg = sample_config();
    cfg.permission[0].1[0].0 = "a-b-c".to_string();
    assert!(matches!(RpGroup::create(cfg), Err(RpError::BadActionKey(_))));
}

#[test]
fn bad_action_value_is_rejected() {
    let mut cfg = sample_config();
    cfg.permission[0].1[1].1 = "default-true:adminx".to_string();
    match RpGroup::create(cfg) {
        Err(RpError::BadActionValue(s)) => assert_eq!(s, "default-true:adminx"),
        other => panic!("expected a value rejection, got {:?}", other.map(|_| ())),
    }
}

#[test]
fn no_roles_means_nothing_is_checked() {
    let mut cfg = sample_config();
    cfg.permission[0].1[0].0 = "nodash".to_string();
    cfg.role = Vec::new();
    let g = RpGroup::create(cfg).unwrap();
    assert_eq!(g.roles.len(), 0);
}

#[test]
fn unknown_status_word_means_disabled() {
    let mut cfg = sample_config();
    cfg.permission[0].1[0].1 = "admin-yes".to_string();
    let g = RpGroup::create(cfg).unwrap();
    assert!(!g.roles[1].1 .0.actions[0].1[0].enabled);
}

#[test]
fn get_role_maps_names_to_accounts() {
    let g = RpGroup::create(sample_config()).unwrap();
    let roles = g.get_role();
    assert_eq!(roles.len(), 2);
    assert_eq!(roles[0].0, "default");
    assert_eq!(roles[0].1, Vec::<String>::new());
    assert_eq!(roles[1].0, "admin");
    assert_eq!(roles[1].1, vec!["alice"]);
}

#[test]
fn user_permissions_include_the_default_role() {
    let g = RpGroup::create(sample_config()).unwrap();

    // alice holds admin, and gets default besides.
    let alice = g.get_user_permission("alice".to_string());
    let mut names: Vec<String> = alice.iter().map(|p| p.0.clone()).collect();
    names.sort();
    assert_eq!(names, vec!["admin", "default"]);

    // bob holds nothing, and still gets default.
    let bob = g.get_user_permission("bob".to_string());
    assert_eq!(bob.len(), 1);
    assert_eq!(bob[0].0, "default");
}

#[test]
fn actions_are_checked_through_roles() {
    let g = RpGroup::create(sample_config()).unwrap();
    assert!(g.check_user_action("alice".to_string(), "user".to_string(), "usermgt".to_string()));
    assert!(g.check_user_action("alice".to_string(), "user".to_string(), "userread".to_string()));
    // bob only enjoys what default enables.
    assert!(!g.check_user_action("bob".to_string(), "user".to_string(), "usermgt".to_string()));
    assert!(g.check_user_action("bob".to_string(), "user".to_string(), "userread".to_string()));
    // An unknown page or action is never allowed.
    assert!(!g.check_user_action("alice".to_string(), "other".to_string(), "usermgt".to_string()));
    assert!(!g.check_user_action("alice".to_string(), "user".to_string(), "nothing".to_string()));
}

#[test]
fn later_entries_for_the_same_role_win() {
    let mut cfg = sample_config();
    cfg.permission[0].1[0].1 = "admin-true:admin-false".to_string();
    let g = RpGroup::create(cfg).unwrap();
    assert!(!g.roles[1].1 .0.actions[0].1[0].enabled);
}

#[test]
fn empty_name_parts_are_tolerated() {
    let mut cfg = sample_config();
    // "-xxx" still splits into two parts; the technical name is empty.
    cfg.permission[0].1[0].0 = "-xxx".to_string();
    let g = RpGroup::create(cfg).unwrap();
    assert_eq!(g.roles[0].1 .0.actions[0].1[0].eng, "");
    assert_eq!(g.roles[0].1 .0.actions[0].1[0].chn, "xxx");
}

#[test]
fn roles_outside_the_value_stay_disabled() {
    let mut cfg = sample_config();
    cfg.role.push(("guest".to_string(), vec!["eve".to_string()]));
    let g = RpGroup::create(cfg).unwrap();
    // The value never names "guest": every action stays off for it.
    assert!(!g.check_user_action("eve".to_string(), "user".to_string(), "usermgt".to_string()));
    // Except what default grants everyone.
    assert!(g.check_user_action("eve".to_string(), "user".to_string(), "userread".to_string()));
}
