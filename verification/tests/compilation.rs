use rls_build::compilation::{
    build_result, in_process_result, next_step, out_of_process_result, plan_build, BuildResult,
    CompilationResult, CompilerExit, Outcome, Process, ShimOutput, Step,
};
use rls_build::config::{ClippyPreference, Config};
use rls_build::crates::{record_file, Crate, Edition, InputFiles};
use rls_build::environment::EnvVars;
use rls_build::table::Table;
use rls_data::Analysis;

fn compiled(stderr: &str) -> CompilationResult {
    in_process_result(CompilerExit::Finished, stderr.as_bytes().to_vec(), None, Table::new())
}

fn config(clear_env_rust_log: bool) -> Config {
    Config { clear_env_rust_log, clippy_preference: ClippyPreference::OptIn }
}

#[test]
fn compilation_in_this_process_is_successful_if_the_compiler_finished() {
    assert_eq!(compiled("").result, Ok(()));
    for exit in [CompilerExit::Failed, CompilerExit::Fatal, CompilerExit::Panicked] {
        let res = in_process_result(exit, vec![1], None, Table::new());
        assert_eq!(res.result, Err(()));
        assert_eq!(res.stderr, vec![1]);
        assert!(res.analysis.is_none());
    }
}

#[test]
fn compilation_in_another_process_is_successful_if_its_exit_code_is_zero() {
    let run = |code| {
        out_of_process_result(
            Some(ShimOutput { code, stderr: b"x".to_vec() }),
            Some(Analysis::default()),
            Table::new(),
        )
    };
    assert_eq!(run(Some(0)).result, Ok(()));
    assert_eq!(run(Some(1)).result, Err(()));
    assert_eq!(run(None).result, Err(()));
    assert_eq!(run(Some(1)).stderr, b"x".to_vec());
    assert!(run(Some(1)).analysis.is_some());
}

#[test]
fn process_that_could_not_be_run_is_a_failure_without_output() {
    let res = out_of_process_result(None, None, Table::new());
    assert_eq!(res.result, Err(()));
    assert!(res.stderr.is_empty());
}

#[test]
fn first_run_is_in_another_process_if_asked_for_and_supported() {
    let process = |asked, supported| {
        let envs: EnvVars<String> = Table::new();
        plan_build(envs, config(false), asked, supported).process
    };
    assert_eq!(process(true, true), Process::Own);
    assert_eq!(process(true, false), Process::This);
    assert_eq!(process(false, true), Process::This);
    assert_eq!(process(false, false), Process::This);
}

#[test]
fn plan_clears_rust_log_and_keeps_the_preference() {
    let mut envs: EnvVars<String> = Table::new();
    envs.insert("RUST_LOG".to_owned(), Some("trace".to_owned()));
    let plan = plan_build(envs, config(true), false, false);
    assert_eq!(plan.envs.get("RUST_LOG"), Some(&None));
    assert_eq!(plan.clippy_preference, ClippyPreference::OptIn);
}

#[test]
fn a_result_ends_the_build() {
    assert!(matches!(next_step(Outcome::This(compiled("a"))), Step::Done(res) if res.stderr == b"a"));
    assert!(matches!(next_step(Outcome::Own(Ok(compiled("b")))), Step::Done(res) if res.stderr == b"b"));
}

#[test]
fn without_a_result_the_compiler_is_run_in_this_process() {
    assert!(matches!(next_step(Outcome::Own(Err(()))), Step::RunInProcess));
}

#[test]
fn build_reports_directory_messages_and_success() {
    let mut input_files: InputFiles = Table::new();
    let krate = Crate {
        name: "a".to_owned(),
        src_path: None,
        disambiguator: (0, 0),
        edition: Edition::Edition2018,
    };
    record_file(&mut input_files, "/a.rs".to_owned(), krate);
    let stderr = b"{\"message\":\"one\"}\n{\"message\":\"two\"}\r\n".to_vec();
    let mut analysis = Analysis::default();
    analysis.version = Some("7".to_owned());
    let res = in_process_result(CompilerExit::Finished, stderr, Some(analysis), input_files);
    let BuildResult::Success(dir, messages, analysis, files, success) = build_result(Some("/w"), res);
    assert_eq!(dir, "/w");
    assert_eq!(messages, vec!["{\"message\":\"one\"}", "{\"message\":\"two\"}"]);
    assert_eq!(analysis.len(), 1);
    assert_eq!(analysis[0].version, Some("7".to_owned()));
    assert!(files.get("/a.rs").is_some());
    assert!(success);
}

#[test]
fn build_without_directory_or_analysis() {
    let res = in_process_result(CompilerExit::Panicked, Vec::new(), None, Table::new());
    let BuildResult::Success(dir, messages, analysis, files, success) = build_result(None, res);
    assert_eq!(dir, ".");
    assert!(messages.is_empty());
    assert!(analysis.is_empty());
    assert!(files.entries().is_empty());
    assert!(!success);
}

#[test]
fn messages_are_decoded_as_utf8() {
    let BuildResult::Success(_, messages, _, _, _) = build_result(None, compiled("é→\n𝄞"));
    assert_eq!(messages, vec!["é→", "𝄞"]);
}
