use kcwrap::config::{get_env, get_env_string, init_config_from_env, lookup_env, Env, MAX_NAMES};

fn snapshot(pairs: &[(&str, &str)]) -> Vec<(String, String)> {
    pairs.iter().map(|(k, v)| (k.to_string(), v.to_string())).collect()
}

#[test]
fn variable_names_are_numbered() {
    assert_eq!(get_env_string(&Env::Dev, 1), "KCWRAP_DEV1");
    assert_eq!(get_env_string(&Env::Test, 7), "KCWRAP_TEST7");
    assert_eq!(get_env_string(&Env::Prod, 50), "KCWRAP_PROD50");
    assert_eq!(get_env_string(&Env::Prod, 0), "KCWRAP_PROD0");
    assert_eq!(get_env_string(&Env::Dev, 255), "KCWRAP_DEV255");
    assert_eq!(get_env_string(&Env::Test, 10), "KCWRAP_TEST10");
}

#[test]
fn lookup_takes_the_first_pair_of_that_name() {
    let vars = snapshot(&[("A", "1"), ("B", "2"), ("A", "3")]);
    assert_eq!(lookup_env(&vars, &"A".to_string()), "1");
    assert_eq!(lookup_env(&vars, &"B".to_string()), "2");
    assert_eq!(lookup_env(&vars, &"C".to_string()), "");
    assert_eq!(lookup_env(&Vec::new(), &"A".to_string()), "");
}

#[test]
fn names_are_read_in_order_of_their_numbers() {
    let vars = snapshot(&[
        ("KCWRAP_PROD2", "live"),
        ("PATH", "/usr/bin"),
        ("KCWRAP_PROD1", "prod"),
        ("KCWRAP_TEST1", "staging"),
        ("KCWRAP_DEV1", "dev"),
        ("KCWRAP_DEV2", "local"),
        ("KCWRAP_DEV3", "kind"),
    ]);
    let config = init_config_from_env(&vars);
    assert_eq!(config.prod_name, vec!["prod".to_string(), "live".to_string()]);
    assert_eq!(config.test_name, vec!["staging".to_string()]);
    assert_eq!(config.dev_name, vec!["dev".to_string(), "local".to_string(), "kind".to_string()]);
}

#[test]
fn nothing_configured_gives_empty_lists() {
    let config = init_config_from_env(&snapshot(&[("HOME", "/root")]));
    assert!(config.prod_name.is_empty());
    assert!(config.test_name.is_empty());
    assert!(config.dev_name.is_empty());
}

#[test]
fn reading_stops_at_the_first_missing_number() {
    let vars = snapshot(&[
        ("KCWRAP_PROD1", "a"),
        ("KCWRAP_PROD2", "b"),
        ("KCWRAP_PROD4", "d"),
        ("KCWRAP_TEST2", "t"),
    ]);
    let config = init_config_from_env(&vars);
    assert_eq!(config.prod_name, vec!["a".to_string(), "b".to_string()]);
    assert!(config.test_name.is_empty());
}

#[test]
fn reading_stops_at_the_first_empty_value() {
    let vars = snapshot(&[("KCWRAP_DEV1", "a"), ("KCWRAP_DEV2", ""), ("KCWRAP_DEV3", "c")]);
    let config = init_config_from_env(&vars);
    assert_eq!(config.dev_name, vec!["a".to_string()]);
}

#[test]
fn numbering_starts_at_one() {
    let vars = snapshot(&[("KCWRAP_PROD0", "zero"), ("KCWRAP_PROD", "none"), ("KCWRAP_PROD01", "x")]);
    assert!(init_config_from_env(&vars).prod_name.is_empty());
}

#[test]
fn at_most_fifty_names_are_read() {
    assert_eq!(MAX_NAMES, 50);
    let mut vars: Vec<(String, String)> = Vec::new();
    for i in 1..=60 {
        vars.push((format!("KCWRAP_TEST{i}"), format!("name{i}")));
    }
    let config = init_config_from_env(&vars);
    assert_eq!(config.test_name.len(), 50);
    assert_eq!(config.test_name[0], "name1");
    assert_eq!(config.test_name[9], "name10");
    assert_eq!(config.test_name[49], "name50");
}

#[test]
fn get_env_appends_to_what_the_list_holds() {
    let vars = snapshot(&[("KCWRAP_DEV1", "dev")]);
    let mut list = vec!["kept".to_string()];
    get_env(&Env::Dev, &vars, &mut list);
    assert_eq!(list, vec!["kept".to_string(), "dev".to_string()]);
    get_env(&Env::Prod, &vars, &mut list);
    assert_eq!(list, vec!["kept".to_string(), "dev".to_string()]);
}
