//! One build: which process compiles, what came of it, and what is reported.

use rls_data::Analysis;
use vstd::prelude::*;
use vstd::utf8::{decode_utf8, valid_utf8};

use crate::config::{ClippyPreference, Config};
use crate::crates::InputFiles;
use crate::environment::{prepare_envs, prepared, EnvVars};
use crate::path::text_of;
use crate::text::{lemma_lines_give_the_text_back, lines, lines_of, texts, utf8_text};

verus! {

/// `rls_data::Analysis`.
#[verifier::external_type_specification]
#[verifier::external_body]
pub struct ExAnalysis(Analysis);

/// Resulting data from compiling a crate.
pub struct CompilationResult {
    /// Whether compilation was successful.
    pub result: Result<(), ()>,
    /// What the compiler wrote to its standard error.
    pub stderr: Vec<u8>,
    /// What the compiler found out about the crate.
    pub analysis: Option<Analysis>,
    /// The files that were compiled, and the crates that they are part of.
    pub input_files: InputFiles,
}

/// How a compiler in this process came to its end.
#[derive(Clone, Copy, Debug, PartialEq, Eq, Structural)]
pub enum CompilerExit {
    /// It compiled the crate.
    Finished,
    /// It reported errors.
    Failed,
    /// It gave up on a fatal error.
    Fatal,
    /// It panicked.
    Panicked,
}

/// The result of a compilation in this process.
pub fn in_process_result(
    exit: CompilerExit,
    stderr: Vec<u8>,
    analysis: Option<Analysis>,
    input_files: InputFiles,
) -> (res: CompilationResult)
    ensures
        res.result == if exit is Finished {
            Ok::<(), ()>(())
        } else {
            Err::<(), ()>(())
        },
        res.stderr == stderr,
        res.analysis == analysis,
        res.input_files == input_files,
{
    let result = match exit {
        CompilerExit::Finished => Ok(()),
        _ => Err(()),
    };
    CompilationResult { result, stderr, analysis, input_files }
}

/// What is left of a process that has ended.
pub struct ShimOutput {
    /// Its exit code, unless it was ended by a signal.
    pub code: Option<i32>,
    /// What it wrote to its standard error.
    pub stderr: Vec<u8>,
}

/// The result of a compilation in a process of its own. `output` is `None` if the process could
/// not be run. The compilation was successful if the process says so by its exit code.
pub fn out_of_process_result(
    output: Option<ShimOutput>,
    analysis: Option<Analysis>,
    input_files: InputFiles,
) -> (res: CompilationResult)
    ensures
        res.result == if output is Some && output->0.code == Some(0i32) {
            Ok::<(), ()>(())
        } else {
            Err::<(), ()>(())
        },
        res.stderr@ == match output {
            Some(out) => out.stderr@,
            None => Seq::<u8>::empty(),
        },
        res.analysis == analysis,
        res.input_files == input_files,
{
    let (result, stderr) = match output {
        Some(out) => {
            let result = match out.code {
                Some(0) => Ok(()),
                _ => Err(()),
            };
            (result, out.stderr)
        },
        None => (Err(()), Vec::new()),
    };
    CompilationResult { result, stderr, analysis, input_files }
}

/// Where a compiler runs.
#[derive(Clone, Copy, Debug, PartialEq, Eq, Structural)]
pub enum Process {
    /// In this process.
    This,
    /// In a process of its own.
    Own,
}

/// How a build begins.
pub struct BuildPlan<V> {
    /// The changes to the environment that the compiler is run with.
    pub envs: EnvVars<V>,
    /// When clippy checks the code.
    pub clippy_preference: ClippyPreference,
    /// Where the compiler runs first.
    pub process: Process,
}

/// Where the compiler runs first: in a process of its own if that is asked for and supported.
pub open spec fn first_process(requested: bool, supported: bool) -> Process {
    if requested && supported {
        Process::Own
    } else {
        Process::This
    }
}

/// How a build begins. `out_of_process` tells whether compilation in a process of its own is asked
/// for, `ipc_supported` whether it can be had.
pub fn plan_build<V>(
    envs: EnvVars<V>,
    config: Config,
    out_of_process: bool,
    ipc_supported: bool,
) -> (res: BuildPlan<V>)
    ensures
        res.envs@ == prepared(envs@, config.clear_env_rust_log),
        res.clippy_preference == config.clippy_preference,
        res.process == first_process(out_of_process, ipc_supported),
{
    let process = if out_of_process && ipc_supported {
        Process::Own
    } else {
        Process::This
    };
    BuildPlan {
        envs: prepare_envs(envs, config.clear_env_rust_log),
        clippy_preference: config.clippy_preference,
        process,
    }
}

/// What came of running a compiler.
pub enum Outcome {
    /// In this process, which always gives a result.
    This(CompilationResult),
    /// In a process of its own, which may be impossible to set up.
    Own(Result<CompilationResult, ()>),
}

/// What follows.
pub enum Step {
    /// The compiler is run again, in this process.
    RunInProcess,
    /// The build is over.
    Done(CompilationResult),
}

/// What follows an outcome: a result ends the build, and where there is none the compiler is run
/// in this process.
pub open spec fn step_after(outcome: Outcome) -> Step {
    match outcome {
        Outcome::This(compiled) => Step::Done(compiled),
        Outcome::Own(Ok(compiled)) => Step::Done(compiled),
        Outcome::Own(Err(_)) => Step::RunInProcess,
    }
}

/// What follows an outcome.
pub fn next_step(outcome: Outcome) -> (res: Step)
    ensures
        res == step_after(outcome),
{
    match outcome {
        Outcome::This(compiled) => Step::Done(compiled),
        Outcome::Own(Ok(compiled)) => Step::Done(compiled),
        Outcome::Own(Err(_)) => Step::RunInProcess,
    }
}

/// What a build reports.
pub enum BuildResult {
    /// The compiler was run: the directory that it ran in, its messages, what it found out, the
    /// files that it compiled, and whether compilation was successful.
    Success(String, Vec<String>, Vec<Analysis>, InputFiles, bool),
}

/// What a build in `cwd` reports of its result. The compiler writes its messages as UTF-8, one to
/// a line.
pub fn build_result(cwd: Option<&str>, compiled: CompilationResult) -> (res: BuildResult)
    requires
        valid_utf8(compiled.stderr@),
    ensures
        res matches BuildResult::Success(dir, messages, analysis, input_files, success) && {
            &&& dir@ == match text_of(cwd) {
                Some(dir) => dir,
                None => "."@,
            }
            &&& texts(messages@) == lines_of(decode_utf8(compiled.stderr@))
            &&& analysis@ == match compiled.analysis {
                Some(found) => seq![found],
                None => Seq::<Analysis>::empty(),
            }
            &&& input_files == compiled.input_files
            &&& success == compiled.result is Ok
        },
{
    let stderr = utf8_text(compiled.stderr).unwrap();
    let messages = lines(&stderr);
    let mut analysis: Vec<Analysis> = Vec::new();
    if let Some(found) = compiled.analysis {
        analysis.push(found);
    }
    let dir = match cwd {
        Some(dir) => dir.to_owned(),
        None => ".".to_owned(),
    };
    BuildResult::Success(dir, messages, analysis, compiled.input_files, compiled.result.is_ok())
}

/// The result that a build ends with, when `own` is what a process of its own would come to and
/// `this` is what this process would come to.
pub open spec fn result_of_build(
    requested: bool,
    supported: bool,
    own: Result<CompilationResult, ()>,
    this: CompilationResult,
) -> Step {
    match first_process(requested, supported) {
        Process::This => step_after(Outcome::This(this)),
        Process::Own => match step_after(Outcome::Own(own)) {
            Step::RunInProcess => step_after(Outcome::This(this)),
            Step::Done(compiled) => Step::Done(compiled),
        },
    }
}

/// A build ends after at most two runs. Its result is that of a process of its own if that was
/// asked for, is supported and gave one; in every other case it is the result of this process.
pub proof fn law_build_ends_with_a_result(
    requested: bool,
    supported: bool,
    own: Result<CompilationResult, ()>,
    this: CompilationResult,
)
    ensures
        result_of_build(requested, supported, own, this) == Step::Done(
            if requested && supported && own is Ok {
                own->Ok_0
            } else {
                this
            },
        ),
{
}

/// Compilation in this process was successful only if the compiler finished, and its output and what
/// it found out are handed on as they are.
pub proof fn law_in_process_result(
    exit: CompilerExit,
    stderr: Vec<u8>,
    analysis: Option<Analysis>,
    input_files: InputFiles,
    res: CompilationResult,
)
    requires
        call_ensures(in_process_result, (exit, stderr, analysis, input_files), res),
    ensures
        exit == CompilerExit::Finished ==> res.result is Ok,
        exit == CompilerExit::Failed ==> res.result is Err,
        exit == CompilerExit::Fatal ==> res.result is Err,
        exit == CompilerExit::Panicked ==> res.result is Err,
        res.stderr@ == stderr@,
        res.analysis == analysis,
        res.input_files == input_files,
{
}

/// Compilation in a process of its own was successful only if the process ended with exit code
/// zero. Its output is handed on whether it was or not.
pub proof fn law_out_of_process_result(
    output: Option<ShimOutput>,
    analysis: Option<Analysis>,
    input_files: InputFiles,
    res: CompilationResult,
)
    requires
        call_ensures(out_of_process_result, (output, analysis, input_files), res),
    ensures
        output matches Some(out) ==> res.stderr@ == out.stderr@ && (out.code matches Some(code) ==> (
        res.result is Ok <==> code == 0)) && (out.code is None ==> res.result is Err),
        output is None ==> res.result is Err && res.stderr@.len() == 0,
        res.analysis == analysis,
        res.input_files == input_files,
{
}

/// The compiler runs in a process of its own first exactly if that is asked for and supported. It is
/// run with the settings and, but for `RUST_LOG` where that is to be cleared, with the variables
/// that were asked for.
pub proof fn law_build_plan<V>(
    envs: EnvVars<V>,
    config: Config,
    out_of_process: bool,
    ipc_supported: bool,
    res: BuildPlan<V>,
    name: Seq<char>,
)
    requires
        call_ensures(plan_build::<V>, (envs, config, out_of_process, ipc_supported), res),
    ensures
        res.process == Process::Own <==> out_of_process && ipc_supported,
        res.process == Process::This <==> !out_of_process || !ipc_supported,
        res.clippy_preference == config.clippy_preference,
        config.clear_env_rust_log ==> res.envs@.contains_key("RUST_LOG"@)
            && res.envs@["RUST_LOG"@].1 is None,
        !config.clear_env_rust_log || name != "RUST_LOG"@ ==> res.envs@.contains_key(name)
            == envs@.contains_key(name) && (envs@.contains_key(name) ==> res.envs@[name]
            == envs@[name]),
{
}

/// A result ends the build as it is, wherever it comes from. Only a process of its own that gave
/// none is followed by another run, and that is in this process.
pub proof fn law_next_step(outcome: Outcome, res: Step)
    requires
        call_ensures(next_step, (outcome,), res),
    ensures
        outcome matches Outcome::This(compiled) ==> res == Step::Done(compiled),
        outcome matches Outcome::Own(Ok(compiled)) ==> res == Step::Done(compiled),
        outcome matches Outcome::Own(Err(_)) ==> res is RunInProcess,
{
}

/// A build reports the directory that it ran in, `.` if it has none; every line that the compiler
/// wrote, so that the messages with their line endings put back are all that it wrote; what it found
/// out; the files; and whether compilation was successful.
pub proof fn law_build_report(
    cwd: Option<&str>,
    compiled: CompilationResult,
    res: BuildResult,
) -> (endings: Seq<Seq<char>>)
    requires
        call_ensures(build_result, (cwd, compiled), res),
    ensures
        res matches BuildResult::Success(dir, messages, analysis, input_files, success) && {
            &&& cwd is Some ==> dir@ == cwd->0@
            &&& cwd is None ==> dir@ == seq!['.']
            &&& endings.len() == messages@.len()
            &&& Seq::new(messages@.len(), |i: int| messages@[i]@ + endings[i]).flatten()
                == decode_utf8(compiled.stderr@)
            &&& forall|i: int| 0 <= i < messages@.len() ==> !(#[trigger] messages@[i])@.contains('\n')
            &&& forall|i: int|
                0 <= i < messages@.len() ==> {
                    ||| #[trigger] endings[i] == seq!['\n'] && !(messages@[i]@.len() > 0
                        && messages@[i]@.last() == '\r')
                    ||| endings[i] == seq!['\r', '\n']
                    ||| endings[i] == Seq::<char>::empty() && i == messages@.len() - 1
                        && messages@[i]@.len() > 0
                }
            &&& compiled.analysis is None ==> analysis@.len() == 0
            &&& compiled.analysis is Some ==> analysis@.len() == 1 && analysis@[0]
                == compiled.analysis->0
            &&& input_files == compiled.input_files
            &&& success <==> compiled.result is Ok
        },
{
    reveal_strlit(".");
    assert("."@ =~= seq!['.']);
    match res {
        BuildResult::Success(_, messages, _, _, _) => lemma_lines_give_the_text_back(
            decode_utf8(compiled.stderr@),
            messages,
        ),
    }
}

} // verus!
