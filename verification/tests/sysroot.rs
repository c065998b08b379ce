use rls_build::sysroot::{
    current_sysroot, sysroot_args, sysroot_from_output, SysrootSource, SysrootVars,
};

fn none() -> SysrootVars {
    SysrootVars {
        rustup_home: None,
        multirust_home: None,
        rustup_toolchain: None,
        multirust_toolchain: None,
        rustc: None,
        sysroot: None,
    }
}

fn text(text: &str) -> Option<String> {
    Some(text.to_owned())
}

fn known(vars: SysrootVars) -> Option<String> {
    match current_sysroot(vars) {
        SysrootSource::Known(dir) => Some(dir),
        SysrootSource::AskCompiler(_) => None,
    }
}

fn asked(vars: SysrootVars) -> Option<String> {
    match current_sysroot(vars) {
        SysrootSource::Known(_) => None,
        SysrootSource::AskCompiler(program) => Some(program),
    }
}

#[test]
fn rustup_decides_first() {
    let vars = SysrootVars {
        rustup_home: text("/home/.rustup"),
        multirust_home: text("/old"),
        rustup_toolchain: text("nightly"),
        multirust_toolchain: text("beta"),
        rustc: text("myrustc"),
        sysroot: text("/sys"),
    };
    assert_eq!(known(vars), text("/home/.rustup/toolchains/nightly"));
}

#[test]
fn former_names_stand_in() {
    let vars = SysrootVars { multirust_home: text("/old"), multirust_toolchain: text("beta"), ..none() };
    assert_eq!(known(vars), text("/old/toolchains/beta"));
    let mixed = SysrootVars { multirust_home: text("/old"), rustup_toolchain: text("nightly"), ..none() };
    assert_eq!(known(mixed), text("/old/toolchains/nightly"));
}

#[test]
fn sysroot_variable_decides_without_home_or_toolchain() {
    let vars = SysrootVars { rustup_home: text("/home"), sysroot: text("/sys"), ..none() };
    assert_eq!(known(vars), text("/sys"));
    let vars = SysrootVars { rustup_toolchain: text("nightly"), sysroot: text("/sys"), ..none() };
    assert_eq!(known(vars), text("/sys"));
}

#[test]
fn compiler_is_asked_otherwise() {
    assert_eq!(asked(none()), text("rustc"));
    assert_eq!(asked(SysrootVars { rustc: text("myrustc"), ..none() }), text("myrustc"));
}

#[test]
fn output_of_the_compiler_is_trimmed() {
    assert_eq!(sysroot_from_output(Some(b"/usr/lib/rust\n".to_vec())), text("/usr/lib/rust"));
    assert_eq!(sysroot_from_output(Some(Vec::new())), text(""));
}

#[test]
fn no_output_or_no_text_is_no_answer() {
    assert_eq!(sysroot_from_output(None), None);
    assert_eq!(sysroot_from_output(Some(vec![0x2f, 0xff])), None);
}

#[test]
fn compiler_is_asked_to_print_its_sysroot() {
    assert_eq!(sysroot_args(), vec!["--print", "sysroot"]);
}
