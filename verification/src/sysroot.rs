//! Where the compiler's own libraries are.

use vstd::prelude::*;
use vstd::string::StringExecFns;
use vstd::utf8::{decode_utf8, valid_utf8};

use crate::text::{lemma_trimmed_ends, texts, trim, trimmed, utf8_text, white_space};

verus! {

/// The environment variables that tell where the compiler's libraries are. A variable is `None`
/// where it is not set or is not Unicode.
pub struct SysrootVars {
    pub rustup_home: Option<String>,
    pub multirust_home: Option<String>,
    pub rustup_toolchain: Option<String>,
    pub multirust_toolchain: Option<String>,
    pub rustc: Option<String>,
    pub sysroot: Option<String>,
}

/// How the sysroot is found.
pub enum SysrootSource {
    /// It is this directory.
    Known(String),
    /// This compiler has to be asked for it, with [`sysroot_args`].
    AskCompiler(String),
}

/// The arguments with which a compiler is asked for its sysroot.
pub fn sysroot_args() -> (res: Vec<String>)
    ensures
        texts(res@) == seq!["--print"@, "sysroot"@],
{
    let mut res: Vec<String> = Vec::new();
    res.push("--print".to_owned());
    res.push("sysroot".to_owned());
    assert(texts(res@) =~= seq!["--print"@, "sysroot"@]);
    res
}

/// The first of two texts that is there.
pub open spec fn first_of(first: Option<String>, second: Option<String>) -> Option<String> {
    if first is Some {
        first
    } else {
        second
    }
}

/// The first of two texts that is there.
fn either(first: Option<String>, second: Option<String>) -> (res: Option<String>)
    ensures
        res == first_of(first, second),
{
    match first {
        Some(text) => Some(text),
        None => second,
    }
}

/// The directory of a toolchain that rustup manages.
pub open spec fn toolchain_dir(home: Seq<char>, toolchain: Seq<char>) -> Seq<char> {
    home + "/toolchains/"@ + toolchain
}

/// How the sysroot is found. rustup's home and toolchain decide, each under its current or its
/// former name; without both, `SYSROOT` decides; without that, the compiler that `RUSTC` names is
/// asked, or else `rustc`.
pub fn current_sysroot(vars: SysrootVars) -> (res: SysrootSource)
    ensures
        match (
            first_of(vars.rustup_home, vars.multirust_home),
            first_of(vars.rustup_toolchain, vars.multirust_toolchain),
        ) {
            (Some(home), Some(toolchain)) => res matches SysrootSource::Known(dir) && dir@
                == toolchain_dir(home@, toolchain@),
            _ => match vars.sysroot {
                Some(sysroot) => res == SysrootSource::Known(sysroot),
                None => res matches SysrootSource::AskCompiler(program) && program@ == (
                match vars.rustc {
                    Some(rustc) => rustc@,
                    None => "rustc"@,
                }),
            },
        },
{
    let home = either(vars.rustup_home, vars.multirust_home);
    let toolchain = either(vars.rustup_toolchain, vars.multirust_toolchain);
    match (home, toolchain) {
        (Some(home), Some(toolchain)) => {
            let mut dir = home;
            dir.append("/toolchains/");
            dir.append(&toolchain);
            SysrootSource::Known(dir)
        },
        _ => match vars.sysroot {
            Some(sysroot) => SysrootSource::Known(sysroot),
            None => SysrootSource::AskCompiler(
                match vars.rustc {
                    Some(rustc) => rustc,
                    None => "rustc".to_owned(),
                },
            ),
        },
    }
}

/// The sysroot that a compiler printed. `stdout` is what it wrote, if it could be run; there is no
/// answer if that is not UTF-8.
pub fn sysroot_from_output(stdout: Option<Vec<u8>>) -> (res: Option<String>)
    ensures
        res is Some <==> stdout is Some && valid_utf8(stdout->0@),
        res matches Some(dir) ==> dir@ == trimmed(decode_utf8(stdout->0@)),
{
    match stdout {
        Some(bytes) => match utf8_text(bytes) {
            Some(text) => Some(trim(&text)),
            None => None,
        },
        None => None,
    }
}

/// With a home and a toolchain of rustup, each under its current or its former name, the sysroot is
/// the toolchain's directory in that home; the current name goes first.
pub proof fn law_rustup_decides(vars: SysrootVars, res: SysrootSource)
    requires
        call_ensures(current_sysroot, (vars,), res),
        vars.rustup_home is Some || vars.multirust_home is Some,
        vars.rustup_toolchain is Some || vars.multirust_toolchain is Some,
    ensures
        ({
            let home = if vars.rustup_home is Some {
                vars.rustup_home->0@
            } else {
                vars.multirust_home->0@
            };
            let toolchain = if vars.rustup_toolchain is Some {
                vars.rustup_toolchain->0@
            } else {
                vars.multirust_toolchain->0@
            };
            res matches SysrootSource::Known(dir) && dir@ == home + "/toolchains/"@ + toolchain
        }),
{
}

/// Without a home or without a toolchain, `SYSROOT` is the sysroot; without that a compiler is
/// asked, the one that `RUSTC` names, or else `rustc`.
pub proof fn law_other_variables_decide_without_rustup(vars: SysrootVars, res: SysrootSource)
    requires
        call_ensures(current_sysroot, (vars,), res),
        (vars.rustup_home is None && vars.multirust_home is None) || (vars.rustup_toolchain is None
            && vars.multirust_toolchain is None),
    ensures
        vars.sysroot is Some ==> (res matches SysrootSource::Known(dir) && dir@
            == vars.sysroot->0@),
        vars.sysroot is None && vars.rustc is Some ==> (
        res matches SysrootSource::AskCompiler(program) && program@ == vars.rustc->0@),
        vars.sysroot is None && vars.rustc is None ==> (
        res matches SysrootSource::AskCompiler(program) && program@ == "rustc"@),
{
}

/// A compiler is asked with the two arguments `--print` and `sysroot`.
pub proof fn law_sysroot_args(res: Vec<String>)
    requires
        call_ensures(sysroot_args, (), res),
    ensures
        res@.len() == 2,
        res@[0]@ == "--print"@,
        res@[1]@ == "sysroot"@,
{
    let found = texts(res@);
    assert(found.len() == res@.len());
    assert(found[0] == res@[0]@);
    assert(found[1] == res@[1]@);
}

/// What a compiler printed is the sysroot, but for white space around it. There is no sysroot only
/// if it could not be run or printed no text.
pub proof fn law_printed_sysroot(stdout: Option<Vec<u8>>, res: Option<String>) -> (ends: (
    Seq<char>,
    Seq<char>,
))
    requires
        call_ensures(sysroot_from_output, (stdout,), res),
    ensures
        res is Some <==> stdout is Some && valid_utf8(stdout->0@),
        res is Some ==> {
            &&& ends.0 + res->0@ + ends.1 == decode_utf8(stdout->0@)
            &&& forall|i: int| 0 <= i < ends.0.len() ==> white_space(#[trigger] ends.0[i])
            &&& forall|i: int| 0 <= i < ends.1.len() ==> white_space(#[trigger] ends.1[i])
            &&& res->0@.len() > 0 ==> !white_space(res->0@[0]) && !white_space(res->0@.last())
        },
{
    if res is Some {
        lemma_trimmed_ends(decode_utf8(stdout->0@))
    } else {
        (Seq::empty(), Seq::empty())
    }
}

} // verus!
