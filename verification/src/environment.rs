//! The environment variables that the compiler is run with.

use vstd::prelude::*;

use crate::table::{entered, keys_differ, lemma_table_of, table_of, NameKey, Table};

verus! {

/// Changes to the environment: under each name the value that the variable is set to, or `None`
/// where it is to be unset.
pub type EnvVars<V> = Table<NameKey, Option<V>>;

/// `envs`, with `RUST_LOG` unset if it is to be cleared.
pub open spec fn prepared<V>(
    envs: Map<Seq<char>, (Seq<char>, Option<V>)>,
    clear_env_rust_log: bool,
) -> Map<Seq<char>, (Seq<char>, Option<V>)> {
    if clear_env_rust_log {
        entered::<NameKey, Option<V>>(envs, "RUST_LOG"@, None)
    } else {
        envs
    }
}

/// The changes to the environment that a run is made with.
pub fn prepare_envs<V>(envs: EnvVars<V>, clear_env_rust_log: bool) -> (res: EnvVars<V>)
    ensures
        res@ == prepared(envs@, clear_env_rust_log),
{
    let mut envs = envs;
    if clear_env_rust_log {
        envs.insert("RUST_LOG".to_owned(), None);
    }
    envs
}

/// Whether `envs` sets the variable `name` to `value`.
pub open spec fn sets<V>(
    envs: Map<Seq<char>, (Seq<char>, Option<V>)>,
    name: Seq<char>,
    value: V,
) -> bool {
    envs.contains_key(name) && envs[name].1 == Some(value)
}

/// Whether `list` holds the variables that `envs` sets, each once and with its value.
pub open spec fn lists_set_variables<V>(
    list: Seq<(&String, &V)>,
    envs: Map<Seq<char>, (Seq<char>, Option<V>)>,
) -> bool {
    &&& forall|i: int| 0 <= i < list.len() ==> sets(envs, (#[trigger] list[i]).0@, *list[i].1)
    &&& forall|name: Seq<char>, value: V| #[trigger]
        sets(envs, name, value) ==> exists|i: int|
            0 <= i < list.len() && (#[trigger] list[i]).0@ == name
    &&& forall|i: int, j: int|
        0 <= i < j < list.len() ==> (#[trigger] list[i]).0@ != (#[trigger] list[j]).0@
}

/// The variables that `envs` sets, each with its value; those that it unsets are left out.
pub fn set_variables<V>(envs: &EnvVars<V>) -> (res: Vec<(&String, &V)>)
    ensures
        lists_set_variables(res@, envs@),
{
    let entries = envs.entries();
    proof {
        lemma_table_of::<NameKey, Option<V>>(entries@);
    }
    let mut res: Vec<(&String, &V)> = Vec::new();
    let mut i: usize = 0;
    while i < entries.len()
        invariant
            i <= entries@.len(),
            keys_differ::<NameKey, Option<V>>(entries@),
            envs@ == table_of::<NameKey, Option<V>>(entries@),
            forall|k: int|
                0 <= k < entries@.len() ==> {
                    let name = (#[trigger] entries@[k]).0@;
                    envs@.contains_key(name) && envs@[name] == (name, entries@[k].1)
                },
            forall|k: int|
                0 <= k < res@.len() ==> sets(envs@, (#[trigger] res@[k]).0@, *res@[k].1),
            forall|k: int|
                0 <= k < res@.len() ==> exists|m: int|
                    0 <= m < i && (#[trigger] entries@[m]).0@ == (#[trigger] res@[k]).0@,
            forall|m: int|
                0 <= m < i && (#[trigger] entries@[m]).1 is Some ==> exists|k: int|
                    0 <= k < res@.len() && (#[trigger] res@[k]).0@ == entries@[m].0@,
            forall|k: int, m: int|
                0 <= k < m < res@.len() ==> (#[trigger] res@[k]).0@ != (#[trigger] res@[m]).0@,
        decreases entries@.len() - i,
    {
        let ghost before = res@;
        if let Some(value) = &entries[i].1 {
            assert forall|k: int| 0 <= k < before.len() implies (#[trigger] before[k]).0@
                != entries@[i as int].0@ by {
                let m = choose|m: int|
                    0 <= m < i && (#[trigger] entries@[m]).0@ == before[k].0@;
                assert(entries@[m].0@ != entries@[i as int].0@);
            }
            res.push((&entries[i].0, value));
            assert(res@[before.len() as int].0@ == entries@[i as int].0@);
            assert forall|m: int| 0 <= m < i && (#[trigger] entries@[m]).1 is Some implies exists|
                k: int,
            | 0 <= k < res@.len() && (#[trigger] res@[k]).0@ == entries@[m].0@ by {
                let k = choose|k: int|
                    0 <= k < before.len() && (#[trigger] before[k]).0@ == entries@[m].0@;
                assert(res@[k] == before[k]);
            }
        }
        i += 1;
    }
    res
}

/// Clearing `RUST_LOG` leaves no value set for it, and changes no other variable.
pub proof fn law_rust_log_is_cleared<V>(
    envs: Map<Seq<char>, (Seq<char>, Option<V>)>,
    name: Seq<char>,
    value: V,
)
    ensures
        !sets(prepared(envs, true), "RUST_LOG"@, value),
        name != "RUST_LOG"@ ==> sets(prepared(envs, true), name, value) == sets(envs, name, value),
        prepared(envs, false) == envs,
{
}

/// Once `RUST_LOG` is cleared, no list of the variables that are set holds it.
pub proof fn law_cleared_rust_log_is_not_listed<V>(
    list: Seq<(&String, &V)>,
    envs: Map<Seq<char>, (Seq<char>, Option<V>)>,
)
    requires
        lists_set_variables(list, prepared(envs, true)),
    ensures
        forall|i: int| 0 <= i < list.len() ==> (#[trigger] list[i]).0@ != "RUST_LOG"@,
{
    assert forall|i: int| 0 <= i < list.len() implies (#[trigger] list[i]).0@ != "RUST_LOG"@ by {
        assert(sets(prepared(envs, true), list[i].0@, *list[i].1));
    }
}

/// Clearing `RUST_LOG` a second time changes nothing.
pub proof fn law_clearing_is_idempotent<V>(envs: Map<Seq<char>, (Seq<char>, Option<V>)>)
    ensures
        prepared(prepared(envs, true), true) == prepared(envs, true),
{
    assert(prepared(prepared(envs, true), true) =~= prepared(envs, true));
}

/// A run is made with the variables that were asked for. Only `RUST_LOG` differs, and only if it is
/// to be cleared: then it is unset.
pub proof fn law_prepared_environment<V>(
    envs: EnvVars<V>,
    clear_env_rust_log: bool,
    res: EnvVars<V>,
    name: Seq<char>,
)
    requires
        call_ensures(prepare_envs::<V>, (envs, clear_env_rust_log), res),
    ensures
        clear_env_rust_log ==> res@.contains_key("RUST_LOG"@) && res@["RUST_LOG"@].1 is None,
        !clear_env_rust_log || name != "RUST_LOG"@ ==> res@.contains_key(name)
            == envs@.contains_key(name) && (envs@.contains_key(name) ==> res@[name] == envs@[name]),
{
}

/// The variables that are set are exactly those that have a value: each is listed once, with its
/// value, and one that is unset is not listed.
pub proof fn law_set_variables_have_their_values<V>(
    envs: &EnvVars<V>,
    res: Vec<(&String, &V)>,
    name: Seq<char>,
)
    requires
        call_ensures(set_variables::<V>, (envs,), res),
    ensures
        forall|i: int|
            0 <= i < res@.len() ==> envs@.contains_key((#[trigger] res@[i]).0@)
                && envs@[res@[i].0@].1 == Some(*res@[i].1),
        forall|i: int, j: int|
            0 <= i < j < res@.len() ==> (#[trigger] res@[i]).0@ != (#[trigger] res@[j]).0@,
        envs@.contains_key(name) && envs@[name].1 is Some ==> exists|i: int|
            0 <= i < res@.len() && (#[trigger] res@[i]).0@ == name && *res@[i].1 == envs@[name].1->0,
{
    assert forall|i: int| 0 <= i < res@.len() implies envs@.contains_key((#[trigger] res@[i]).0@)
        && envs@[res@[i].0@].1 == Some(*res@[i].1) by {
        assert(sets(envs@, res@[i].0@, *res@[i].1));
    }
    if envs@.contains_key(name) && envs@[name].1 is Some {
        assert(sets(envs@, name, envs@[name].1->0));
        let i = choose|i: int| 0 <= i < res@.len() && (#[trigger] res@[i]).0@ == name;
        assert(res@[i].0@ == name && *res@[i].1 == envs@[name].1->0);
    }
}

} // verus!
