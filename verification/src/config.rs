//! The settings that a run of the compiler depends on.

use vstd::prelude::*;

verus! {

/// When clippy checks the code that is compiled.
#[derive(Clone, Copy, Debug, PartialEq, Eq, Structural)]
pub enum ClippyPreference {
    /// Never.
    Off,
    /// Where a crate asks for it with `#![warn(clippy::all)]`.
    OptIn,
    /// Always.
    On,
}

/// The settings that a run of the compiler depends on.
#[derive(Clone, Copy, Debug, PartialEq, Eq, Structural)]
pub struct Config {
    /// Whether the variable `RUST_LOG` is hidden from the compiler.
    pub clear_env_rust_log: bool,
    /// When clippy checks the code.
    pub clippy_preference: ClippyPreference,
}

/// Whether clippy takes part: it was built in, and it is not switched off.
pub open spec fn clippy_runs(clippy_built: bool, preference: ClippyPreference) -> bool {
    clippy_built && preference != ClippyPreference::Off
}

/// Whether clippy's passes are registered once the crate is parsed.
pub fn after_parsing(clippy_built: bool, preference: ClippyPreference) -> (res: bool)
    ensures
        res == clippy_runs(clippy_built, preference),
{
    clippy_built && preference != ClippyPreference::Off
}

/// The text of a preference, as a process that compiles on its own reads it.
pub open spec fn text_of_preference(preference: ClippyPreference) -> Seq<char> {
    match preference {
        ClippyPreference::Off => "off"@,
        ClippyPreference::OptIn => "opt-in"@,
        ClippyPreference::On => "on"@,
    }
}

/// The text of a preference, as a process that compiles on its own reads it.
pub fn preference_text(preference: ClippyPreference) -> (res: &'static str)
    ensures
        res@ == text_of_preference(preference),
{
    match preference {
        ClippyPreference::Off => "off",
        ClippyPreference::OptIn => "opt-in",
        ClippyPreference::On => "on",
    }
}

/// Clippy's passes are registered whenever clippy is built in, unless it is switched off.
pub proof fn law_clippy_takes_part(clippy_built: bool, preference: ClippyPreference, res: bool)
    requires
        call_ensures(after_parsing, (clippy_built, preference), res),
    ensures
        !clippy_built ==> !res,
        preference == ClippyPreference::Off ==> !res,
        clippy_built && preference == ClippyPreference::OptIn ==> res,
        clippy_built && preference == ClippyPreference::On ==> res,
{
}

/// Every preference has its own text.
pub proof fn law_preference_text(preference: ClippyPreference, res: &'static str)
    requires
        call_ensures(preference_text, (preference,), res),
    ensures
        preference == ClippyPreference::Off ==> res@ == seq!['o', 'f', 'f'],
        preference == ClippyPreference::OptIn ==> res@ == seq!['o', 'p', 't', '-', 'i', 'n'],
        preference == ClippyPreference::On ==> res@ == seq!['o', 'n'],
{
    reveal_strlit("off");
    reveal_strlit("opt-in");
    reveal_strlit("on");
    assert("off"@ =~= seq!['o', 'f', 'f']);
    assert("opt-in"@ =~= seq!['o', 'p', 't', '-', 'i', 'n']);
    assert("on"@ =~= seq!['o', 'n']);
}

} // verus!
