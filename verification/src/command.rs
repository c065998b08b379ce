//! The command lines that the compiler is run with.

use vstd::prelude::*;

use crate::config::{
    after_parsing, clippy_runs, preference_text, text_of_preference, ClippyPreference,
};
use crate::environment::{lists_set_variables, set_variables, sets, EnvVars};
use crate::text::texts;

verus! {

/// The arguments that bring clippy into a compilation. They set the feature that `cargo clippy`
/// sets; where crates have to opt in, all lints are allowed to begin with.
pub open spec fn clippy_args(preference: ClippyPreference) -> Seq<Seq<char>> {
    let gate = seq!["--cfg"@, "feature=\"cargo-clippy\""@];
    if preference == ClippyPreference::OptIn {
        gate + seq!["-A"@, "clippy::all"@]
    } else {
        gate
    }
}

/// The arguments of a compilation that was asked for with `args`.
pub open spec fn args_with_clippy(
    args: Seq<Seq<char>>,
    clippy_built: bool,
    preference: ClippyPreference,
) -> Seq<Seq<char>> {
    if clippy_runs(clippy_built, preference) {
        args + clippy_args(preference)
    } else {
        args
    }
}

/// A copy of `args` from `from` on.
fn args_from(args: &Vec<String>, from: usize) -> (res: Vec<String>)
    requires
        from <= args@.len(),
    ensures
        res@ == args@.skip(from as int),
{
    let mut res: Vec<String> = Vec::new();
    let mut i: usize = from;
    while i < args.len()
        invariant
            from <= i <= args@.len(),
            res@ == args@.subrange(from as int, i as int),
        decreases args@.len() - i,
    {
        res.push(args[i].clone());
        i += 1;
    }
    res
}

/// The arguments for a compiler that runs in this process. `clippy_built` tells whether clippy is
/// part of it.
pub fn in_process_args(
    args: &Vec<String>,
    clippy_built: bool,
    clippy_preference: ClippyPreference,
) -> (res: Vec<String>)
    ensures
        texts(res@) == args_with_clippy(texts(args@), clippy_built, clippy_preference),
{
    let mut res = args_from(args, 0);
    assert(res@ == args@);
    if after_parsing(clippy_built, clippy_preference) {
        res.push("--cfg".to_owned());
        res.push("feature=\"cargo-clippy\"".to_owned());
        if clippy_preference == ClippyPreference::OptIn {
            res.push("-A".to_owned());
            res.push("clippy::all".to_owned());
        }
    }
    assert(texts(res@) =~= args_with_clippy(texts(args@), clippy_built, clippy_preference));
    res
}

/// A command that compiles in a process of its own.
pub struct ShimCommand<'a, V> {
    /// The variables that the process takes its orders from, to be set first.
    pub orders: Vec<(String, String)>,
    /// The arguments.
    pub args: Vec<String>,
    /// The other variables, to be set afterwards.
    pub envs: Vec<(&'a String, &'a V)>,
}

/// The texts of a list of variables.
pub open spec fn pairs(variables: Seq<(String, String)>) -> Seq<(Seq<char>, Seq<char>)> {
    variables.map_values(|v: (String, String)| (v.0@, v.1@))
}

/// The command that compiles in a process of its own. The process knows by `shim_variable` that it
/// is to act as the compiler, finds the server at `endpoint`, and is told `clippy_preference`. The
/// first of `args` is the compiler's own name, which the new process does not need, and a variable
/// that `envs` unsets is not passed on.
pub fn shim_command<'a, V>(
    args: &Vec<String>,
    envs: &'a EnvVars<V>,
    shim_variable: &str,
    endpoint: &str,
    clippy_preference: ClippyPreference,
) -> (res: ShimCommand<'a, V>)
    ensures
        pairs(res.orders@) == seq![
            (shim_variable@, "1"@),
            ("RLS_IPC_ENDPOINT"@, endpoint@),
            ("RLS_CLIPPY_PREFERENCE"@, text_of_preference(clippy_preference)),
        ],
        res.args@ == if args@.len() == 0 {
            args@
        } else {
            args@.drop_first()
        },
        lists_set_variables(res.envs@, envs@),
{
    let mut orders: Vec<(String, String)> = Vec::new();
    orders.push((shim_variable.to_owned(), "1".to_owned()));
    orders.push(("RLS_IPC_ENDPOINT".to_owned(), endpoint.to_owned()));
    orders.push((
        "RLS_CLIPPY_PREFERENCE".to_owned(),
        preference_text(clippy_preference).to_owned(),
    ));
    let args = if args.len() == 0 {
        Vec::new()
    } else {
        args_from(args, 1)
    };
    ShimCommand { orders, args, envs: set_variables(envs) }
}

/// What a variable of the new process is set to.
pub ghost enum Setting<V> {
    /// An order.
    Order(Seq<char>),
    /// A value of the environment that was asked for.
    Value(V),
}

impl<'a, V> ShimCommand<'a, V> {
    /// All variables that the command sets, in the order in which it sets them.
    pub open spec fn settings(self) -> Seq<(Seq<char>, Setting<V>)> {
        pairs(self.orders@).map_values(
            |order: (Seq<char>, Seq<char>)| (order.0, Setting::<V>::Order(order.1)),
        ) + self.envs@.map_values(
            |variable: (&String, &V)| (variable.0@, Setting::Value(*variable.1)),
        )
    }
}

/// What the variable `name` is set to after all of `settings`: a later one replaces an earlier
/// one.
pub open spec fn setting_of<V>(settings: Seq<(Seq<char>, Setting<V>)>, name: Seq<char>) -> Option<
    Setting<V>,
>
    decreases settings.len(),
{
    if settings.len() == 0 {
        None
    } else if settings.last().0 == name {
        Some(settings.last().1)
    } else {
        setting_of(settings.drop_last(), name)
    }
}

/// A setting that no later one of its name follows is the one that holds.
proof fn lemma_last_setting<V>(settings: Seq<(Seq<char>, Setting<V>)>, at: int)
    requires
        0 <= at < settings.len(),
        forall|i: int| at < i < settings.len() ==> (#[trigger] settings[i]).0 != settings[at].0,
    ensures
        setting_of(settings, settings[at].0) == Some(settings[at].1),
    decreases settings.len(),
{
    if at < settings.len() - 1 {
        assert(settings[settings.len() - 1].0 != settings[at].0);
        assert forall|i: int| at < i < settings.drop_last().len() implies (
        #[trigger] settings.drop_last()[i]).0 != settings.drop_last()[at].0 by {
            assert(settings.drop_last()[i] == settings[i]);
        }
        lemma_last_setting(settings.drop_last(), at);
    }
}

/// Settings of other names do not change what a variable is set to.
proof fn lemma_other_settings<V>(
    settings: Seq<(Seq<char>, Setting<V>)>,
    more: Seq<(Seq<char>, Setting<V>)>,
    name: Seq<char>,
)
    requires
        forall|i: int| 0 <= i < more.len() ==> (#[trigger] more[i]).0 != name,
    ensures
        setting_of(settings + more, name) == setting_of(settings, name),
    decreases more.len(),
{
    if more.len() == 0 {
        assert(settings + more =~= settings);
    } else {
        assert(more[more.len() - 1].0 != name);
        assert((settings + more).drop_last() =~= settings + more.drop_last());
        assert forall|i: int| 0 <= i < more.drop_last().len() implies (
        #[trigger] more.drop_last()[i]).0 != name by {
            assert(more.drop_last()[i] == more[i]);
        }
        lemma_other_settings(settings, more.drop_last(), name);
    }
}

/// What the new process sees under a name is the value that `envs` sets there, and the order of
/// that name only where `envs` sets none.
pub proof fn law_environment_wins_over_orders<V>(
    command: ShimCommand<V>,
    envs: Map<Seq<char>, (Seq<char>, Option<V>)>,
    name: Seq<char>,
)
    requires
        lists_set_variables(command.envs@, envs),
    ensures
        setting_of(command.settings(), name) == if envs.contains_key(name) && envs[name].1 is Some {
            Some(Setting::Value(envs[name].1->0))
        } else {
            setting_of(
                pairs(command.orders@).map_values(
                    |order: (Seq<char>, Seq<char>)| (order.0, Setting::<V>::Order(order.1)),
                ),
                name,
            )
        },
{
    let list = command.envs@;
    let orders = pairs(command.orders@).map_values(
        |order: (Seq<char>, Seq<char>)| (order.0, Setting::<V>::Order(order.1)),
    );
    let values = list.map_values(
        |variable: (&String, &V)| (variable.0@, Setting::Value(*variable.1)),
    );
    if envs.contains_key(name) && envs[name].1 is Some {
        assert(sets(envs, name, envs[name].1->0));
        let k = choose|k: int| 0 <= k < list.len() && (#[trigger] list[k]).0@ == name;
        assert(sets(envs, list[k].0@, *list[k].1));
        let at = orders.len() + k;
        let settings = command.settings();
        assert forall|i: int| at < i < settings.len() implies (#[trigger] settings[i]).0
            != settings[at].0 by {
            assert(list[i - orders.len()].0@ != list[k].0@);
        }
        lemma_last_setting(settings, at);
    } else {
        assert forall|i: int| 0 <= i < values.len() implies (#[trigger] values[i]).0 != name by {
            assert(sets(envs, list[i].0@, *list[i].1));
        }
        lemma_other_settings(orders, values, name);
    }
}

/// The arguments that were asked for always come first and unchanged, and they are all there is
/// when clippy is not built in or is switched off.
pub proof fn law_args_come_first(
    args: Seq<Seq<char>>,
    clippy_built: bool,
    preference: ClippyPreference,
)
    ensures
        args.is_prefix_of(args_with_clippy(args, clippy_built, preference)),
        !clippy_built || preference == ClippyPreference::Off ==> args_with_clippy(
            args,
            clippy_built,
            preference,
        ) == args,
{
    assert(args_with_clippy(args, clippy_built, preference).take(args.len() as int) =~= args);
}

/// The arguments of a compilation in this process are those that were asked for, whatever they are.
/// Where clippy is built in and not off, `--cfg feature="cargo-clippy"` follows them, and after that,
/// where crates have to opt in, `-A clippy::all`. Nothing else follows.
pub proof fn law_in_process_args(
    args: &Vec<String>,
    clippy_built: bool,
    preference: ClippyPreference,
    res: Vec<String>,
)
    requires
        call_ensures(in_process_args, (args, clippy_built, preference), res),
    ensures
        forall|i: int| 0 <= i < args@.len() ==> i < res@.len() && (#[trigger] res@[i])@ == args@[i]@,
        !clippy_built || preference == ClippyPreference::Off ==> res@.len() == args@.len(),
        clippy_built && preference == ClippyPreference::On ==> res@.len() == args@.len() + 2,
        clippy_built && preference == ClippyPreference::OptIn ==> res@.len() == args@.len() + 4,
        clippy_built && preference != ClippyPreference::Off ==> res@[args@.len() as int]@
            == "--cfg"@ && res@[args@.len() + 1int]@ == "feature=\"cargo-clippy\""@,
        clippy_built && preference == ClippyPreference::OptIn ==> res@[args@.len() + 2int]@ == "-A"@
            && res@[args@.len() + 3int]@ == "clippy::all"@,
{
    let given = texts(args@);
    let found = texts(res@);
    let whole = args_with_clippy(given, clippy_built, preference);
    assert(found == whole);
    assert(found.len() == res@.len());
    assert forall|i: int| 0 <= i < res@.len() implies (#[trigger] res@[i])@ == whole[i] by {
        assert(found[i] == res@[i]@);
    }
    assert forall|i: int| 0 <= i < args@.len() implies i < res@.len() && (#[trigger] res@[i])@
        == args@[i]@ by {
        assert(whole[i] == given[i]);
    }
}

/// The new process gets three orders, by name: to act as the compiler, where the server is, and the
/// preference; all arguments but the first; and the variables that are set, with their values.
pub proof fn law_shim_command<V>(
    args: &Vec<String>,
    envs: &EnvVars<V>,
    shim_variable: &str,
    endpoint: &str,
    preference: ClippyPreference,
    res: ShimCommand<V>,
    name: Seq<char>,
)
    requires
        call_ensures(
            shim_command::<V>,
            (args, envs, shim_variable, endpoint, preference),
            res,
        ),
    ensures
        res.orders@.len() == 3,
        res.orders@[0].0@ == shim_variable@ && res.orders@[0].1@ == "1"@,
        res.orders@[1].0@ == "RLS_IPC_ENDPOINT"@ && res.orders@[1].1@ == endpoint@,
        res.orders@[2].0@ == "RLS_CLIPPY_PREFERENCE"@,
        preference == ClippyPreference::Off ==> res.orders@[2].1@ == "off"@,
        preference == ClippyPreference::OptIn ==> res.orders@[2].1@ == "opt-in"@,
        preference == ClippyPreference::On ==> res.orders@[2].1@ == "on"@,
        args@.len() > 0 ==> res.args@.len() == args@.len() - 1,
        args@.len() == 0 ==> res.args@.len() == 0,
        forall|i: int| 0 <= i < res.args@.len() ==> (#[trigger] res.args@[i])@ == args@[i + 1]@,
        forall|i: int|
            0 <= i < res.envs@.len() ==> envs@.contains_key((#[trigger] res.envs@[i]).0@)
                && envs@[res.envs@[i].0@].1 == Some(*res.envs@[i].1),
        forall|i: int, j: int|
            0 <= i < j < res.envs@.len() ==> (#[trigger] res.envs@[i]).0@ != (
            #[trigger] res.envs@[j]).0@,
        envs@.contains_key(name) && envs@[name].1 is Some ==> exists|i: int|
            0 <= i < res.envs@.len() && (#[trigger] res.envs@[i]).0@ == name,
{
    let orders = pairs(res.orders@);
    assert(orders.len() == res.orders@.len());
    assert forall|i: int| 0 <= i < orders.len() implies orders[i].0 == (#[trigger] res.orders@[i]).0@
        && orders[i].1 == res.orders@[i].1@ by {}
    let list = res.envs@;
    assert forall|i: int| 0 <= i < list.len() implies envs@.contains_key((#[trigger] list[i]).0@)
        && envs@[list[i].0@].1 == Some(*list[i].1) by {
        assert(sets(envs@, list[i].0@, *list[i].1));
    }
    if envs@.contains_key(name) && envs@[name].1 is Some {
        assert(sets(envs@, name, envs@[name].1->0));
    }
}

} // verus!
