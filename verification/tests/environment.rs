use rls_build::environment::{prepare_envs, set_variables, EnvVars};
use rls_build::table::Table;

fn variables() -> EnvVars<String> {
    let mut envs = Table::new();
    envs.insert("RUST_LOG".to_owned(), Some("debug".to_owned()));
    envs.insert("OUT_DIR".to_owned(), Some("/out".to_owned()));
    envs.insert("LANG".to_owned(), None);
    envs
}

#[test]
fn rust_log_is_unset_when_it_is_to_be_cleared() {
    let envs = prepare_envs(variables(), true);
    assert_eq!(envs.get("RUST_LOG"), Some(&None));
    assert_eq!(envs.get("OUT_DIR"), Some(&Some("/out".to_owned())));
    assert_eq!(envs.get("LANG"), Some(&None));
}

#[test]
fn rust_log_is_unset_even_if_it_was_not_mentioned() {
    let envs: EnvVars<String> = prepare_envs(Table::new(), true);
    assert_eq!(envs.entries(), &vec![("RUST_LOG".to_owned(), None)]);
}

#[test]
fn clearing_twice_is_clearing_once() {
    let once = prepare_envs(variables(), true);
    let twice = prepare_envs(prepare_envs(variables(), true), true);
    assert_eq!(once.entries(), twice.entries());
}

#[test]
fn variables_stay_as_they_are_otherwise() {
    let envs = prepare_envs(variables(), false);
    assert_eq!(envs.get("RUST_LOG"), Some(&Some("debug".to_owned())));
    assert_eq!(envs.entries().len(), 3);
}

#[test]
fn only_variables_with_a_value_are_set() {
    let envs = variables();
    let set = set_variables(&envs);
    assert_eq!(
        set,
        vec![
            (&"RUST_LOG".to_owned(), &"debug".to_owned()),
            (&"OUT_DIR".to_owned(), &"/out".to_owned()),
        ]
    );
    let cleared = prepare_envs(variables(), true);
    assert_eq!(set_variables(&cleared), vec![(&"OUT_DIR".to_owned(), &"/out".to_owned())]);
}
