use rls_build::command::{in_process_args, shim_command};
use rls_build::config::{after_parsing, preference_text, ClippyPreference};
use rls_build::environment::EnvVars;
use rls_build::table::Table;

fn args() -> Vec<String> {
    vec!["rustc".to_owned(), "--crate-name".to_owned(), "a".to_owned()]
}

#[test]
fn clippy_takes_part_if_it_is_built_in_and_not_off() {
    assert!(after_parsing(true, ClippyPreference::On));
    assert!(after_parsing(true, ClippyPreference::OptIn));
    assert!(!after_parsing(true, ClippyPreference::Off));
    assert!(!after_parsing(false, ClippyPreference::On));
}

#[test]
fn arguments_without_clippy_stay_as_they_are() {
    assert_eq!(in_process_args(&args(), false, ClippyPreference::On), args());
    assert_eq!(in_process_args(&args(), true, ClippyPreference::Off), args());
}

#[test]
fn clippy_sets_the_feature_of_cargo_clippy() {
    let mut expected = args();
    expected.push("--cfg".to_owned());
    expected.push(r#"feature="cargo-clippy""#.to_owned());
    assert_eq!(in_process_args(&args(), true, ClippyPreference::On), expected);
}

#[test]
fn opting_in_allows_all_lints_to_begin_with() {
    let mut expected = args();
    expected.push("--cfg".to_owned());
    expected.push(r#"feature="cargo-clippy""#.to_owned());
    expected.push("-A".to_owned());
    expected.push("clippy::all".to_owned());
    assert_eq!(in_process_args(&args(), true, ClippyPreference::OptIn), expected);
}

#[test]
fn shim_gets_its_orders_the_arguments_and_the_set_variables() {
    let mut envs: EnvVars<u8> = Table::new();
    envs.insert("A".to_owned(), Some(1));
    envs.insert("RUST_LOG".to_owned(), None);
    let command = shim_command(&args(), &envs, "RUN_AS_COMPILER", "/tmp/socket", ClippyPreference::OptIn);
    assert_eq!(
        command.orders,
        vec![
            ("RUN_AS_COMPILER".to_owned(), "1".to_owned()),
            ("RLS_IPC_ENDPOINT".to_owned(), "/tmp/socket".to_owned()),
            ("RLS_CLIPPY_PREFERENCE".to_owned(), "opt-in".to_owned()),
        ]
    );
    assert_eq!(command.args, vec!["--crate-name".to_owned(), "a".to_owned()]);
    assert_eq!(command.envs, vec![(&"A".to_owned(), &1u8)]);
}

#[test]
fn shim_without_arguments_gets_none() {
    let envs: EnvVars<u8> = Table::new();
    assert!(shim_command(&Vec::new(), &envs, "S", "E", ClippyPreference::Off).args.is_empty());
}

#[test]
fn every_preference_has_its_text() {
    assert_eq!(preference_text(ClippyPreference::Off), "off");
    assert_eq!(preference_text(ClippyPreference::OptIn), "opt-in");
    assert_eq!(preference_text(ClippyPreference::On), "on");
}

#[test]
fn a_variable_that_is_set_wins_over_an_order_of_its_name() {
    let mut envs: EnvVars<String> = Table::new();
    envs.insert("RLS_IPC_ENDPOINT".to_owned(), Some("/mine".to_owned()));
    let command = shim_command(&args(), &envs, "S", "/theirs", ClippyPreference::On);
    let mut seen = std::collections::BTreeMap::new();
    for (name, value) in &command.orders {
        seen.insert(name.clone(), value.clone());
    }
    for (name, value) in &command.envs {
        seen.insert(name.to_string(), value.to_string());
    }
    assert_eq!(seen["RLS_IPC_ENDPOINT"], "/mine");
    assert_eq!(seen["S"], "1");
    assert_eq!(seen["RLS_CLIPPY_PREFERENCE"], "on");
}
